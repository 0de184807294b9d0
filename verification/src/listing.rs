//! The order in which a subscriber's feeds are listed: by title, a Chinese
//! character counting as its plain pinyin reading.

use pinyin::ToPinyin;
use vstd::prelude::*;
use vstd::utf8::encode_utf8;

use crate::data::feed_views;
use crate::data::Feed;
use crate::lexical::is_linear;
use crate::lexical::lemma_lex_linear;
use crate::lexical::lemma_lex_skip;
use crate::lexical::lex_le;
use crate::model::FeedView;

verus! {

/// The plain pinyin reading of a character, for the characters that have
/// one: what the pinyin tables hold for it, without tone marks.
pub uninterp spec fn plain_pinyin_of(c: char) -> Option<Seq<char>>;

/// Looks `c` up in the tables of the `pinyin` crate, with `to_pinyin` on
/// the character and `plain` on what was found. The contract gives the
/// result its name and claims no more: the lookup depends on the
/// character alone.
#[verifier::external_body]
fn plain_pinyin(c: char) -> (reading: Option<&'static str>)
    ensures
        match reading {
            Some(text) => plain_pinyin_of(c) == Some(text@),
            None => plain_pinyin_of(c) is None,
        },
{
    c.to_pinyin().map(pinyin::Pinyin::plain)
}

/// One character of a title, as it counts for the order.
#[derive(Debug)]
pub enum KeyPart {
    /// A character without a reading: it counts as itself.
    Plain(char),
    /// A character with a reading: it counts as the reading.
    Pinyin(String),
}

/// What a [`KeyPart`] holds: the character, or the bytes of the reading.
pub enum KeyPartView {
    Plain(char),
    Pinyin(Seq<u8>),
}

impl View for KeyPart {
    type V = KeyPartView;

    open spec fn view(&self) -> KeyPartView {
        match self {
            KeyPart::Plain(c) => KeyPartView::Plain(*c),
            KeyPart::Pinyin(reading) => KeyPartView::Pinyin(encode_utf8(reading@)),
        }
    }
}

/// How one value stands to another in an order.
#[derive(Debug, Clone, Copy, PartialEq, Eq, Structural)]
pub enum Rank {
    Earlier,
    Same,
    Later,
}

/// How `a` stands to `b` under `before`.
pub open spec fn rank_under<T>(before: spec_fn(T, T) -> bool, a: T, b: T) -> Rank {
    if a == b {
        Rank::Same
    } else if before(a, b) {
        Rank::Earlier
    } else {
        Rank::Later
    }
}

/// Bytes in the order of their values.
pub open spec fn byte_le() -> spec_fn(u8, u8) -> bool {
    |x: u8, y: u8| x <= y
}

/// Readings in dictionary order of their bytes.
pub open spec fn reading_le() -> spec_fn(Seq<u8>, Seq<u8>) -> bool {
    |a: Seq<u8>, b: Seq<u8>| lex_le(byte_le(), a, b)
}

/// The order of title characters: characters without a reading come
/// first, in the order of their code points; then the readings, in
/// dictionary order.
pub open spec fn part_le() -> spec_fn(KeyPartView, KeyPartView) -> bool {
    |a: KeyPartView, b: KeyPartView|
        match (a, b) {
            (KeyPartView::Plain(x), KeyPartView::Plain(y)) => x as u32 <= y as u32,
            (KeyPartView::Plain(_), KeyPartView::Pinyin(_)) => true,
            (KeyPartView::Pinyin(_), KeyPartView::Plain(_)) => false,
            (KeyPartView::Pinyin(s), KeyPartView::Pinyin(t)) => reading_le()(s, t),
        }
}

/// The order of titles: dictionary order of their characters.
pub open spec fn key_le() -> spec_fn(Seq<KeyPartView>, Seq<KeyPartView>) -> bool {
    |a: Seq<KeyPartView>, b: Seq<KeyPartView>| lex_le(part_le(), a, b)
}

/// The views of the parts of a key, in order.
pub open spec fn key_view(key: Seq<KeyPart>) -> Seq<KeyPartView> {
    key.map_values(|part: KeyPart| part@)
}

/// The views of a sequence of keys, in order.
pub open spec fn key_views(keys: Seq<Vec<KeyPart>>) -> Seq<Seq<KeyPartView>> {
    keys.map_values(|key: Vec<KeyPart>| key_view(key@))
}

/// The orders of bytes, of readings, of title characters and of titles
/// each put their values in a row.
pub proof fn lemma_orders_linear()
    ensures
        is_linear(byte_le()),
        is_linear(reading_le()),
        is_linear(part_le()),
        is_linear(key_le()),
{
    assert(is_linear(byte_le()));
    lemma_lex_linear(byte_le());
    assert(reading_le() == (|a: Seq<u8>, b: Seq<u8>| lex_le(byte_le(), a, b)));
    let parts = part_le();
    let readings = reading_le();
    assert forall|x: KeyPartView, y: KeyPartView| #[trigger] parts(x, y) || #[trigger] parts(
        y,
        x,
    ) by {
        if let (KeyPartView::Pinyin(s), KeyPartView::Pinyin(t)) = (x, y) {
            assert(readings(s, t) || readings(t, s));
        }
    }
    assert forall|x: KeyPartView, y: KeyPartView| #[trigger]
        parts(x, y) && #[trigger] parts(y, x) implies x == y by {
        if let (KeyPartView::Pinyin(s), KeyPartView::Pinyin(t)) = (x, y) {
            assert(readings(s, t) && readings(t, s));
        }
    }
    assert forall|x: KeyPartView, y: KeyPartView, z: KeyPartView| #[trigger]
        parts(x, y) && #[trigger] parts(y, z) implies parts(x, z) by {
        if let (KeyPartView::Pinyin(s), KeyPartView::Pinyin(t), KeyPartView::Pinyin(u)) = (
            x,
            y,
            z,
        ) {
            assert(readings(s, t) && readings(t, u));
            assert(readings(s, u));
        }
    }
    lemma_lex_linear(part_le());
    assert(key_le() == (|a: Seq<KeyPartView>, b: Seq<KeyPartView>| lex_le(part_le(), a, b)));
}

/// How the run of bytes `a` stands to `b` in dictionary order.
pub fn rank_bytes(a: &[u8], b: &[u8]) -> (rank: Rank)
    ensures
        rank == rank_under(reading_le(), a@, b@),
{
    let mut i: usize = 0;
    while i < a.len() && i < b.len()
        invariant
            i <= a@.len(),
            i <= b@.len(),
            forall|j: int| 0 <= j < i ==> a@[j] == b@[j],
        decreases a@.len() - i,
    {
        if a[i] != b[i] {
            proof {
                lemma_lex_skip(byte_le(), a@, b@, i as int);
                assert(a@.skip(i as int)[0] == a@[i as int]);
                assert(b@.skip(i as int)[0] == b@[i as int]);
            }
            if a[i] < b[i] {
                return Rank::Earlier;
            } else {
                return Rank::Later;
            }
        }
        i += 1;
    }
    proof {
        lemma_lex_skip(byte_le(), a@, b@, i as int);
        if a@.len() == b@.len() {
            assert(a@ =~= b@);
        }
    }
    if a.len() == b.len() {
        Rank::Same
    } else if i == a.len() {
        Rank::Earlier
    } else {
        Rank::Later
    }
}

/// How the title character `a` stands to `b`.
pub fn rank_parts(a: &KeyPart, b: &KeyPart) -> (rank: Rank)
    ensures
        rank == rank_under(part_le(), a@, b@),
{
    match a {
        KeyPart::Plain(x) => match b {
            KeyPart::Plain(y) => {
                let x = *x as u32;
                let y = *y as u32;
                if x == y {
                    Rank::Same
                } else if x < y {
                    Rank::Earlier
                } else {
                    Rank::Later
                }
            },
            KeyPart::Pinyin(_) => Rank::Earlier,
        },
        KeyPart::Pinyin(s) => match b {
            KeyPart::Plain(_) => Rank::Later,
            KeyPart::Pinyin(t) => rank_bytes(s.as_str().as_bytes(), t.as_str().as_bytes()),
        },
    }
}

/// How the title key `a` stands to `b`.
pub fn rank_keys(a: &Vec<KeyPart>, b: &Vec<KeyPart>) -> (rank: Rank)
    ensures
        rank == rank_under(key_le(), key_view(a@), key_view(b@)),
{
    let ghost x = key_view(a@);
    let ghost y = key_view(b@);
    let mut i: usize = 0;
    while i < a.len() && i < b.len()
        invariant
            i <= a.len(),
            i <= b.len(),
            x == key_view(a@),
            y == key_view(b@),
            forall|j: int| 0 <= j < i ==> x[j] == y[j],
        decreases a.len() - i,
    {
        let rank = rank_parts(&a[i], &b[i]);
        match rank {
            Rank::Same => {},
            _ => {
                proof {
                    lemma_lex_skip(part_le(), x, y, i as int);
                    assert(x.skip(i as int)[0] == x[i as int]);
                    assert(y.skip(i as int)[0] == y[i as int]);
                }
                return rank;
            },
        }
        i += 1;
    }
    proof {
        lemma_lex_skip(part_le(), x, y, i as int);
        if x.len() == y.len() {
            assert(x =~= y);
        }
    }
    if a.len() == b.len() {
        Rank::Same
    } else if i == a.len() {
        Rank::Earlier
    } else {
        Rank::Later
    }
}

/// What a title character counts as: its reading where it has one, else
/// itself.
pub open spec fn spec_key_part(c: char, reading: Option<Seq<char>>) -> KeyPartView {
    match reading {
        Some(text) => KeyPartView::Pinyin(encode_utf8(text)),
        None => KeyPartView::Plain(c),
    }
}

/// The key by which a title is listed: what each of its characters counts as.
pub open spec fn spec_title_key(title: Seq<char>) -> Seq<KeyPartView> {
    title.map_values(|c: char| spec_key_part(c, plain_pinyin_of(c)))
}

/// What the character `c` counts as, given its reading, if it has one.
pub fn key_part(c: char, reading: Option<&str>) -> (part: KeyPart)
    ensures
        part@ == spec_key_part(
            c,
            match reading {
                Some(text) => Some(text@),
                None => None,
            },
        ),
{
    match reading {
        Some(text) => KeyPart::Pinyin(text.to_owned()),
        None => KeyPart::Plain(c),
    }
}

/// The key by which `title` is listed.
pub fn title_key(title: &str) -> (key: Vec<KeyPart>)
    ensures
        key_view(key@) == spec_title_key(title@),
{
    let ghost all = title@;
    let mut key: Vec<KeyPart> = Vec::new();
    for c in it: title.chars()
        invariant
            it.seq() == all,
            key_view(key@) == spec_title_key(all.take(it.index() as int)),
    {
        let ghost before = key_view(key@);
        let part = key_part(c, plain_pinyin(c));
        key.push(part);
        assert(key_view(key@) =~= before.push(part@));
        assert(spec_title_key(all.take(it.index() + 1)) =~= spec_title_key(
            all.take(it.index() as int),
        ).push(part@));
    }
    assert(all.take(all.len() as int) =~= all);
    key
}

/// The entry at place `i` is listed before the one at place `j`: its key
/// comes earlier, or the keys are the same and it stood earlier.
pub open spec fn listed_before(keys: Seq<Seq<KeyPartView>>, i: int, j: int) -> bool {
    if keys[i] == keys[j] {
        i < j
    } else {
        key_le()(keys[i], keys[j])
    }
}

/// `order` names each place of `keys` once, every place before the places
/// that are listed after it.
pub open spec fn is_listing_order(keys: Seq<Seq<KeyPartView>>, order: Seq<usize>) -> bool {
    &&& order.len() == keys.len()
    &&& forall|k: int| 0 <= k < order.len() ==> (#[trigger] order[k]) < keys.len()
    &&& forall|k: int, l: int|
        0 <= k < l < order.len() ==> listed_before(
            keys,
            (#[trigger] order[k]) as int,
            (#[trigger] order[l]) as int,
        )
    &&& forall|i: int| 0 <= i < keys.len() ==> order.contains(#[trigger] (i as usize))
}

/// Being listed before carries over an entry in between.
pub proof fn lemma_listed_before_transitive(keys: Seq<Seq<KeyPartView>>, a: int, b: int, c: int)
    requires
        listed_before(keys, a, b),
        listed_before(keys, b, c),
    ensures
        listed_before(keys, a, c),
{
    lemma_orders_linear();
    let le = key_le();
    if keys[a] == keys[b] {
    } else if keys[b] == keys[c] {
    } else {
        assert(le(keys[a], keys[b]) && le(keys[b], keys[c]));
        assert(le(keys[a], keys[c]));
        if keys[a] == keys[c] {
            assert(le(keys[b], keys[a]));
        }
    }
}

/// Two listing orders of the same keys agree on their first `k` places.
proof fn lemma_listing_orders_agree(
    keys: Seq<Seq<KeyPartView>>,
    first: Seq<usize>,
    second: Seq<usize>,
    k: int,
)
    requires
        is_listing_order(keys, first),
        is_listing_order(keys, second),
        0 <= k <= keys.len(),
    ensures
        forall|j: int| 0 <= j < k ==> first[j] == second[j],
    decreases k,
{
    if k > 0 {
        lemma_listing_orders_agree(keys, first, second, k - 1);
        lemma_orders_linear();
        let le = key_le();
        let a = first[k - 1];
        let b = second[k - 1];
        if a != b {
            assert(first.contains(b as int as usize));
            let l = choose|l: int| 0 <= l < first.len() && first[l] == b;
            if l < k - 1 {
                assert(second[l] == b);
                assert(listed_before(keys, second[l] as int, second[k - 1] as int));
            }
            assert(listed_before(keys, first[k - 1] as int, first[l] as int));
            assert(second.contains(a as int as usize));
            let m = choose|m: int| 0 <= m < second.len() && second[m] == a;
            if m < k - 1 {
                assert(first[m] == a);
                assert(listed_before(keys, first[m] as int, first[k - 1] as int));
            }
            assert(listed_before(keys, second[k - 1] as int, second[m] as int));
            if keys[a as int] != keys[b as int] {
                assert(le(keys[a as int], keys[b as int]) && le(keys[b as int], keys[a as int]));
            }
        }
    }
}

/// There is one listing order for given keys and no other.
pub proof fn law_listing_order_unique(
    keys: Seq<Seq<KeyPartView>>,
    first: Seq<usize>,
    second: Seq<usize>,
)
    requires
        is_listing_order(keys, first),
        is_listing_order(keys, second),
    ensures
        first == second,
{
    lemma_listing_orders_agree(keys, first, second, keys.len() as int);
    assert(first =~= second);
}

/// Where the entry at place `i` goes among the entries `order`, which
/// stood before it and are in listing order: behind the last of them that
/// is not listed after it.
fn place_for(keys: &Vec<Vec<KeyPart>>, order: &Vec<usize>, i: usize) -> (place: usize)
    requires
        i < keys.len(),
        forall|k: int| 0 <= k < order.len() ==> (#[trigger] order[k]) < i,
    ensures
        place <= order.len(),
        forall|l: int|
            place <= l < order.len() ==> listed_before(
                key_views(keys@),
                i as int,
                (#[trigger] order[l]) as int,
            ),
        place > 0 ==> listed_before(key_views(keys@), order[place - 1] as int, i as int),
{
    let ghost views = key_views(keys@);
    let mut place: usize = order.len();
    while place > 0
        invariant
            place <= order.len(),
            i < keys.len(),
            views == key_views(keys@),
            forall|k: int| 0 <= k < order.len() ==> (#[trigger] order[k]) < i,
            forall|l: int|
                place <= l < order.len() ==> listed_before(
                    views,
                    i as int,
                    (#[trigger] order[l]) as int,
                ),
        decreases place,
    {
        let other = order[place - 1];
        match rank_keys(&keys[i], &keys[other]) {
            Rank::Earlier => {
                place -= 1;
            },
            _ => {
                proof {
                    lemma_orders_linear();
                    let le = key_le();
                    assert(le(views[i as int], views[other as int]) || le(
                        views[other as int],
                        views[i as int],
                    ));
                }
                return place;
            },
        }
    }
    place
}

/// The order in which entries with the keys `keys` are listed: by key,
/// entries with the same key in the order in which they stood.
pub fn listing_order(keys: &Vec<Vec<KeyPart>>) -> (order: Vec<usize>)
    ensures
        is_listing_order(key_views(keys@), order@),
{
    let ghost views = key_views(keys@);
    let mut order: Vec<usize> = Vec::new();
    let mut i: usize = 0;
    while i < keys.len()
        invariant
            i <= keys.len(),
            order.len() == i,
            views == key_views(keys@),
            forall|k: int| 0 <= k < order.len() ==> (#[trigger] order[k]) < i,
            forall|k: int, l: int|
                0 <= k < l < order.len() ==> listed_before(
                    views,
                    (#[trigger] order[k]) as int,
                    (#[trigger] order[l]) as int,
                ),
            forall|j: int| 0 <= j < i ==> order@.contains(#[trigger] (j as usize)),
        decreases keys.len() - i,
    {
        let place = place_for(keys, &order, i);
        let ghost before = order@;
        order.insert(place, i);
        proof {
            let after = order@;
            assert forall|k: int, l: int| 0 <= k < l < after.len() implies listed_before(
                views,
                (#[trigger] after[k]) as int,
                (#[trigger] after[l]) as int,
            ) by {
                if l < place {
                    assert(after[k] == before[k] && after[l] == before[l]);
                } else if l == place {
                    assert(after[k] == before[k]);
                    if k < place - 1 {
                        lemma_listed_before_transitive(
                            views,
                            before[k] as int,
                            before[place - 1] as int,
                            i as int,
                        );
                    }
                } else if k < place {
                    assert(after[k] == before[k] && after[l] == before[l - 1]);
                } else if k == place {
                    assert(after[l] == before[l - 1]);
                } else {
                    assert(after[k] == before[k - 1] && after[l] == before[l - 1]);
                }
            }
            assert forall|j: int| 0 <= j < i + 1 implies after.contains(
                #[trigger] (j as usize),
            ) by {
                if j < i {
                    assert(before.contains(j as usize));
                    let k = choose|k: int| 0 <= k < before.len() && before[k] == j as usize;
                    if k < place {
                        assert(after[k] == j as usize);
                    } else {
                        assert(after[k + 1] == j as usize);
                    }
                } else {
                    assert(after[place as int] == j as usize);
                }
            }
            assert forall|k: int| 0 <= k < after.len() implies (#[trigger] after[k]) < i + 1 by {
                if k < place {
                    assert(after[k] == before[k]);
                } else if k > place {
                    assert(after[k] == before[k - 1]);
                }
            }
        }
        i += 1;
    }
    order
}

/// The keys by which feeds are listed: those of their titles.
pub open spec fn title_keys(feeds: Seq<FeedView>) -> Seq<Seq<KeyPartView>> {
    feeds.map_values(|feed: FeedView| spec_title_key(feed.title))
}

/// `sorted` holds the entries of `feeds` in the order `order`.
pub open spec fn arranged(feeds: Seq<FeedView>, order: Seq<usize>, sorted: Seq<FeedView>) -> bool {
    &&& sorted.len() == order.len()
    &&& forall|k: int| 0 <= k < order.len() ==> #[trigger] sorted[k] == feeds[order[k] as int]
}

/// The feeds in the order in which they are listed: by title, a Chinese
/// character counting as its reading, feeds with the same title in the
/// order in which they stood.
pub fn sort_by_title(feeds: &Vec<Feed>) -> (sorted: Vec<Feed>)
    ensures
        exists|order: Seq<usize>|
            is_listing_order(title_keys(feed_views(feeds@)), order) && #[trigger] arranged(
                feed_views(feeds@),
                order,
                feed_views(sorted@),
            ),
{
    let mut keys: Vec<Vec<KeyPart>> = Vec::new();
    let mut i: usize = 0;
    while i < feeds.len()
        invariant
            i <= feeds.len(),
            key_views(keys@) == title_keys(feed_views(feeds@)).take(i as int),
        decreases feeds.len() - i,
    {
        let ghost before = key_views(keys@);
        let key = title_key(feeds[i].title.as_str());
        keys.push(key);
        assert(key_views(keys@) =~= before.push(key_view(key@)));
        i += 1;
        assert(key_views(keys@) =~= title_keys(feed_views(feeds@)).take(i as int));
    }
    assert(key_views(keys@) =~= title_keys(feed_views(feeds@)));
    let order = listing_order(&keys);
    let mut sorted: Vec<Feed> = Vec::new();
    let mut k: usize = 0;
    while k < order.len()
        invariant
            k <= order.len(),
            sorted.len() == k,
            order.len() == feeds.len(),
            forall|l: int| 0 <= l < order.len() ==> (#[trigger] order[l]) < feeds.len(),
            forall|l: int|
                0 <= l < k ==> (#[trigger] feed_views(sorted@)[l]) == feed_views(
                    feeds@,
                )[order[l] as int],
        decreases order.len() - k,
    {
        let ghost before = feed_views(sorted@);
        let copy = feeds[order[k]].clone();
        sorted.push(copy);
        assert(feed_views(sorted@) =~= before.push(copy@));
        k += 1;
    }
    assert(arranged(feed_views(feeds@), order@, feed_views(sorted@)));
    sorted
}

} // verus!
