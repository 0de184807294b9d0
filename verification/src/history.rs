//! The history of digests by which a feed's items are recognised.

use vstd::prelude::*;

use crate::data::gen_item_hash;
use crate::data::spec_item_hash;
use crate::feed::item_views;
use crate::feed::Item;
use crate::feed::ItemView;
use crate::model::item_hashes;
use crate::model::kept_len;
use crate::model::new_items;

verus! {

/// The digests of `items`, in order.
pub fn hashes_of(items: &Vec<Item>) -> (hashes: Vec<u64>)
    ensures
        hashes@ == item_hashes(item_views(items@)),
{
    let mut hashes: Vec<u64> = Vec::new();
    let mut i: usize = 0;
    while i < items.len()
        invariant
            i <= items.len(),
            hashes@ == item_hashes(item_views(items@)).take(i as int),
        decreases items.len() - i,
    {
        let digest = gen_item_hash(&items[i]);
        hashes.push(digest);
        i += 1;
        assert(hashes@ =~= item_hashes(item_views(items@)).take(i as int));
    }
    assert(hashes@ =~= item_hashes(item_views(items@)));
    hashes
}

/// A copy of a history of digests.
pub fn clone_hashes(hashes: &Vec<u64>) -> (copy: Vec<u64>)
    ensures
        copy@ == hashes@,
{
    let mut copy: Vec<u64> = Vec::new();
    let mut i: usize = 0;
    while i < hashes.len()
        invariant
            i <= hashes.len(),
            copy@ == hashes@.take(i as int),
        decreases hashes.len() - i,
    {
        copy.push(hashes[i]);
        i += 1;
        assert(copy@ =~= hashes@.take(i as int));
    }
    assert(hashes@.take(i as int) =~= hashes@);
    copy
}

/// Whether `digest` occurs in the history `known`.
pub fn is_known(known: &Vec<u64>, digest: u64) -> (found: bool)
    ensures
        found == known@.contains(digest),
{
    let mut i: usize = 0;
    while i < known.len()
        invariant
            i <= known.len(),
            forall|j: int| 0 <= j < i ==> known@[j] != digest,
        decreases known.len() - i,
    {
        if known[i] == digest {
            return true;
        }
        i += 1;
    }
    false
}

/// The items of a fetch that the history `known` does not hold, in fetch
/// order, and their digests.
pub fn pick_new(known: &Vec<u64>, items: Vec<Item>) -> (picked: (Vec<Item>, Vec<u64>))
    ensures
        item_views(picked.0@) == new_items(known@, item_views(items@)),
        picked.1@ == item_hashes(item_views(picked.0@)),
{
    let ghost all = items@;
    let ghost unknown = |item: ItemView| !known@.contains(spec_item_hash(item));
    let mut fresh: Vec<Item> = Vec::new();
    let mut hashes: Vec<u64> = Vec::new();
    assert(item_views(all.take(0)) =~= Seq::<ItemView>::empty());
    assert(item_views(fresh@) =~= Seq::<ItemView>::empty());
    reveal_with_fuel(Seq::filter, 1);
    assert(hashes@ =~= item_hashes(item_views(fresh@)));
    for item in it: items
        invariant
            it.seq() == all,
            unknown == (|item: ItemView| !known@.contains(spec_item_hash(item))),
            item_views(fresh@) == item_views(all.take(it.index() as int)).filter(unknown),
            hashes@ == item_hashes(item_views(fresh@)),
    {
        let ghost seen = item_views(all.take(it.index() as int));
        let ghost before = item_views(fresh@);
        proof {
            assert(item_views(all.take(it.index() + 1)) =~= seen.push(item@));
            seen.lemma_filter_push(item@, unknown);
        }
        let digest = gen_item_hash(&item);
        if !is_known(known, digest) {
            hashes.push(digest);
            fresh.push(item);
            assert(item_views(fresh@) =~= before.push(item@));
            assert(hashes@ =~= item_hashes(item_views(fresh@)));
        }
    }
    assert(all.take(all.len() as int) =~= all);
    (fresh, hashes)
}

/// How many entries of a history of `known_len` stay when `fresh` of
/// `fetched` items are new.
pub fn kept_count(known_len: usize, fetched: usize, fresh: usize) -> (keep: usize)
    requires
        fresh <= fetched,
    ensures
        keep == kept_len(known_len as nat, fetched as nat, fresh as nat),
{
    let spare = fetched - fresh;
    if known_len <= fetched {
        known_len
    } else if known_len - fetched <= spare {
        known_len
    } else {
        fetched + spare
    }
}

} // verus!
