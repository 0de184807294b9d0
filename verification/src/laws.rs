//! What holds of the store's operations, proved of the model.

use vstd::prelude::*;

use crate::clock::Timestamp;
use crate::data::spec_gen_hash;
use crate::data::FeedId;
use crate::data::FeedSettings;
use crate::data::SubscriberId;
use crate::feed::RssView;
use crate::data::spec_item_hash;
use crate::feed::ItemView;
use crate::model::item_hashes;
use crate::model::kept_len;
use crate::model::merged_hashes;
use crate::model::new_items;
use crate::model::feed_lists;
use crate::model::index_of;
use crate::model::record_ok;
use crate::model::stored_records;
use crate::model::records_consistent;
use crate::model::DatabaseView;
use crate::model::FeedView;

verus! {

/// Subscribing keeps the store well formed.
pub proof fn lemma_subscribe_wf(
    store: DatabaseView,
    subscriber: SubscriberId,
    link: Seq<char>,
    rss: RssView,
)
    requires
        store.wf(),
    ensures
        store.subscribe(subscriber, link, rss).wf(),
{
    let feed = spec_gen_hash(link);
    let after = store.subscribe(subscriber, link, rss);
    if !store.is_subscribed(subscriber, feed) {
        assert(!store.lists(feed, subscriber));
        assert(after.feeds[feed].subscribers.contains(subscriber));
        assert(after.subscribers[subscriber].contains(feed));
        assert forall|s: SubscriberId, f: FeedId|
            after.is_subscribed(s, f) <==> after.lists(f, s) by {
            assert(store.is_subscribed(s, f) <==> store.lists(f, s));
        }
    }
}

/// Unsubscribing keeps the store well formed.
pub proof fn lemma_unsubscribe_wf(store: DatabaseView, subscriber: SubscriberId, link: Seq<char>)
    requires
        store.wf(),
    ensures
        store.unsubscribe(subscriber, link).wf(),
{
    let feed = spec_gen_hash(link);
    let after = store.unsubscribe(subscriber, link);
    if store.is_subscribed(subscriber, feed) {
        assert(store.lists(feed, subscriber));
        assert forall|s: SubscriberId, f: FeedId|
            after.is_subscribed(s, f) <==> after.lists(f, s) by {
            assert(store.is_subscribed(s, f) <==> store.lists(f, s));
        }
    }
}

/// Taking a subscriber out of some of its feeds keeps the store well formed.
pub proof fn lemma_without_subscriptions_wf(
    store: DatabaseView,
    subscriber: SubscriberId,
    done: Set<FeedId>,
)
    requires
        store.wf(),
    ensures
        store.without_subscriptions(subscriber, done).wf(),
{
    let after = store.without_subscriptions(subscriber, done);
    let remaining = store.feeds_of(subscriber).difference(done);
    assert forall|s: SubscriberId, f: FeedId| after.is_subscribed(s, f) <==> after.lists(f, s) by {
        assert(store.is_subscribed(s, f) <==> store.lists(f, s));
        if s == subscriber {
            if remaining.is_empty() {
                assert(!remaining.contains(f));
            }
        } else if store.lists(f, s) {
            assert(store.feeds[f].subscribers.remove(subscriber).contains(s));
        }
    }
    assert forall|f: FeedId| #[trigger] after.feeds.contains_key(f) implies after.feeds[f].consistent()
        && after.feeds[f].feed_id() == f by {
        assert(store.feeds.contains_key(f));
        if done.contains(f) {
            let other = choose|s: SubscriberId|
                store.feeds[f].subscribers.remove(subscriber).contains(s);
            assert(after.feeds[f].subscribers.contains(other));
        }
    }
    assert forall|s: SubscriberId| #[trigger]
        after.subscribers.contains_key(s) implies !after.subscribers[s].is_empty() by {
        if s != subscriber {
            assert(store.subscribers.contains_key(s));
        }
    }
}

/// Removing a subscriber keeps the store well formed.
pub proof fn lemma_delete_subscriber_wf(store: DatabaseView, subscriber: SubscriberId)
    requires
        store.wf(),
    ensures
        store.delete_subscriber(subscriber).wf(),
{
    if store.subscribers.contains_key(subscriber) {
        lemma_without_subscriptions_wf(store, subscriber, store.subscribers[subscriber]);
    }
}

/// Renumbering a subscriber keeps the store well formed.
pub proof fn lemma_migrate_wf(store: DatabaseView, from: SubscriberId, to: SubscriberId)
    requires
        store.wf(),
    ensures
        store.migrate(from, to).wf(),
{
    let after = store.migrate(from, to);
    if store.subscribers.contains_key(from) {
        let moved = store.subscribers[from];
        assert forall|s: SubscriberId, f: FeedId|
            after.is_subscribed(s, f) <==> after.lists(f, s) by {
            assert(store.is_subscribed(s, f) <==> store.lists(f, s));
            assert(store.is_subscribed(from, f) <==> store.lists(f, from));
            assert(store.is_subscribed(to, f) <==> store.lists(f, to));
        }
        assert forall|f: FeedId| #[trigger] after.feeds.contains_key(f) implies after.feeds[f].consistent()
            && after.feeds[f].feed_id() == f by {
            assert(store.feeds.contains_key(f));
            assert(store.is_subscribed(from, f) <==> store.lists(f, from));
            if moved.contains(f) {
                assert(after.feeds[f].subscribers.contains(to));
            }
        }
        assert forall|s: SubscriberId| #[trigger]
            after.subscribers.contains_key(s) implies !after.subscribers[s].is_empty() by {
            if s == to {
                assert(!moved.is_empty());
                let f = choose|f: FeedId| moved.contains(f);
                assert(after.subscribers[to].contains(f));
            } else {
                assert(store.subscribers.contains_key(s));
            }
        }
    }
}

/// Overwriting settings keeps the store well formed.
pub proof fn lemma_update_setting_wf(
    store: DatabaseView,
    subscriber: SubscriberId,
    link: Seq<char>,
    settings: FeedSettings,
)
    requires
        store.wf(),
    ensures
        store.update_setting(subscriber, link, settings).wf(),
{
    let after = store.update_setting(subscriber, link, settings);
    assert forall|s: SubscriberId, f: FeedId| after.is_subscribed(s, f) <==> after.lists(f, s) by {
        assert(store.is_subscribed(s, f) <==> store.lists(f, s));
    }
}

/// Marking a feed as down, or as up again, keeps the store well formed.
pub proof fn lemma_down_time_wf(store: DatabaseView, link: Seq<char>, now: Timestamp)
    requires
        store.wf(),
    ensures
        store.mark_down(link, now).wf(),
        store.reset_down_time(link).wf(),
{
    let marked = store.mark_down(link, now);
    assert forall|s: SubscriberId, f: FeedId| marked.is_subscribed(s, f) <==> marked.lists(
        f,
        s,
    ) by {
        assert(store.is_subscribed(s, f) <==> store.lists(f, s));
    }
    let reset = store.reset_down_time(link);
    assert forall|s: SubscriberId, f: FeedId| reset.is_subscribed(s, f) <==> reset.lists(f, s) by {
        assert(store.is_subscribed(s, f) <==> store.lists(f, s));
    }
}

/// Taking in a fetch keeps the store well formed.
pub proof fn lemma_update_wf(store: DatabaseView, link: Seq<char>, rss: RssView)
    requires
        store.wf(),
    ensures
        store.update(link, rss).wf(),
{
    let after = store.update(link, rss);
    assert forall|s: SubscriberId, f: FeedId| after.is_subscribed(s, f) <==> after.lists(f, s) by {
        assert(store.is_subscribed(s, f) <==> store.lists(f, s));
    }
}

/// Every feed kept of records is stored under its identifier, has a
/// subscriber, and has settings for exactly its subscribers.
pub proof fn lemma_stored_records_sound(records: Seq<FeedView>)
    ensures
        forall|feed: FeedId| #[trigger]
            stored_records(records).contains_key(feed) ==> stored_records(
                records,
            )[feed].consistent() && stored_records(records)[feed].feed_id() == feed,
    decreases records.len(),
{
    if records.len() > 0 {
        let head = records.drop_last();
        let last = records.last();
        lemma_stored_records_sound(head);
        assert(last.mended().settings_map().dom() =~= last.subscribers);
        assert forall|feed: FeedId| #[trigger]
            stored_records(records).contains_key(feed) implies stored_records(
            records,
        )[feed].consistent() && stored_records(records)[feed].feed_id() == feed by {
            if !last.subscribers.is_empty() && feed == last.feed_id() {
                assert(stored_records(records)[feed] == last.mended());
                assert(last.mended().subscribers == last.subscribers);
            } else {
                assert(stored_records(head).contains_key(feed));
                assert(stored_records(records)[feed] == stored_records(head)[feed]);
            }
        }
    }
}

/// Feeds that are sound one by one, with the inverse of their subscriber
/// sets for an index, make a well-formed store.
pub proof fn lemma_index_of_wf(feeds: Map<FeedId, FeedView>)
    requires
        forall|feed: FeedId| #[trigger]
            feeds.contains_key(feed) ==> feeds[feed].consistent() && feeds[feed].feed_id() == feed,
    ensures
        (DatabaseView { feeds, subscribers: index_of(feeds), unsaved: false }).wf(),
{
    let store = DatabaseView { feeds, subscribers: index_of(feeds), unsaved: false };
    assert forall|s: SubscriberId, f: FeedId| store.is_subscribed(s, f) <==> store.lists(f, s) by {
        if store.lists(f, s) {
            assert(feeds.dom().contains(f) && feed_lists(feeds, f, s));
        }
    }
    assert forall|s: SubscriberId| #[trigger]
        store.subscribers.contains_key(s) implies !store.subscribers[s].is_empty() by {
        let f = choose|f: FeedId| feeds.dom().contains(f) && #[trigger] feed_lists(feeds, f, s);
        assert(store.subscribers[s].contains(f));
    }
}

/// The store made of records is well formed, whatever the records hold.
pub proof fn lemma_from_records_wf(records: Seq<FeedView>)
    ensures
        DatabaseView::from_records(records).wf(),
{
    lemma_stored_records_sound(records);
    lemma_index_of_wf(stored_records(records));
}

/// A sound record is stored as it is, but for settings that it lacks
/// altogether.
pub proof fn lemma_sound_record_mended(record: FeedView)
    requires
        record_ok(record),
        record.settings is Some,
    ensures
        record.mended() == record,
{
    assert(record.mended().settings_map() =~= record.settings_map());
    assert(record.mended() =~= record);
}

/// Records that make up a store as they are, are all kept when read in:
/// each is stored under its identifier, with the settings it holds, or
/// with the resolved defaults where it holds none; and nothing else is
/// stored.
pub proof fn law_sound_records_are_kept(records: Seq<FeedView>)
    requires
        records_consistent(records),
    ensures
        forall|i: int|
            0 <= i < records.len() ==> stored_records(records).contains_key(
                (#[trigger] records[i]).feed_id(),
            ) && stored_records(records)[records[i].feed_id()] == records[i].mended(),
        forall|i: int|
            0 <= i < records.len() && (#[trigger] records[i]).settings is Some
                ==> records[i].mended() == records[i],
        forall|feed: FeedId| #[trigger]
            stored_records(records).contains_key(feed) ==> exists|i: int|
                0 <= i < records.len() && (#[trigger] records[i]).feed_id() == feed,
    decreases records.len(),
{
    if records.len() > 0 {
        let head = records.drop_last();
        let last = records.last();
        assert(records_consistent(head)) by {
            assert forall|i: int| 0 <= i < head.len() implies record_ok(#[trigger] head[i]) by {
                assert(record_ok(records[i]));
            }
            assert forall|i: int, j: int| 0 <= i < j < head.len() implies (#[trigger] head[i]).feed_id()
                != (#[trigger] head[j]).feed_id() by {
                assert(records[i].feed_id() != records[j].feed_id());
            }
        }
        law_sound_records_are_kept(head);
        assert(record_ok(records[records.len() - 1]));
        assert forall|i: int| 0 <= i < records.len() implies stored_records(records).contains_key(
            (#[trigger] records[i]).feed_id(),
        ) && stored_records(records)[records[i].feed_id()] == records[i].mended() by {
            if i < head.len() {
                assert(head[i] == records[i]);
                assert(records[i].feed_id() != records[records.len() - 1].feed_id());
            }
        }
        assert forall|i: int|
            0 <= i < records.len() && (#[trigger] records[i]).settings is Some implies records[i].mended()
            == records[i] by {
            assert(record_ok(records[i]));
            lemma_sound_record_mended(records[i]);
        }
        assert forall|feed: FeedId| #[trigger]
            stored_records(records).contains_key(feed) implies exists|i: int|
            0 <= i < records.len() && (#[trigger] records[i]).feed_id() == feed by {
            if feed == last.feed_id() {
                assert(records[records.len() - 1].feed_id() == feed);
            } else {
                let i = choose|i: int| 0 <= i < head.len() && (#[trigger] head[i]).feed_id() == feed;
                assert(records[i].feed_id() == feed);
            }
        }
    }
}

/// A subscription being made or given up.
pub enum StoreOp {
    Subscribe { subscriber: SubscriberId, link: Seq<char>, rss: RssView },
    Unsubscribe { subscriber: SubscriberId, link: Seq<char> },
}

/// The store after one subscription is made or given up.
pub open spec fn apply(store: DatabaseView, op: StoreOp) -> DatabaseView {
    match op {
        StoreOp::Subscribe { subscriber, link, rss } => store.subscribe(subscriber, link, rss),
        StoreOp::Unsubscribe { subscriber, link } => store.unsubscribe(subscriber, link),
    }
}

/// The store after `ops`, one after the other.
pub open spec fn apply_all(store: DatabaseView, ops: Seq<StoreOp>) -> DatabaseView
    decreases ops.len(),
{
    if ops.len() == 0 {
        store
    } else {
        apply(apply_all(store, ops.drop_last()), ops.last())
    }
}

/// Whatever subscriptions are made and given up, in whatever order, the
/// subscriber index and the feeds' subscriber sets stay inverses of each
/// other, every stored feed has a subscriber, and every indexed subscriber
/// has a feed.
pub proof fn law_subscriptions_keep_index(store: DatabaseView, ops: Seq<StoreOp>)
    requires
        store.wf(),
    ensures
        apply_all(store, ops).wf(),
        forall|subscriber: SubscriberId, feed: FeedId|
            apply_all(store, ops).is_subscribed(subscriber, feed) <==> apply_all(store, ops).lists(
                feed,
                subscriber,
            ),
        forall|feed: FeedId| #[trigger]
            apply_all(store, ops).feeds.contains_key(feed) ==> !apply_all(
                store,
                ops,
            ).feeds[feed].subscribers.is_empty(),
    decreases ops.len(),
{
    if ops.len() > 0 {
        law_subscriptions_keep_index(store, ops.drop_last());
        let before = apply_all(store, ops.drop_last());
        match ops.last() {
            StoreOp::Subscribe { subscriber, link, rss } => {
                lemma_subscribe_wf(before, subscriber, link, rss);
            },
            StoreOp::Unsubscribe { subscriber, link } => {
                lemma_unsubscribe_wf(before, subscriber, link);
            },
        }
    }
    let after = apply_all(store, ops);
    assert forall|subscriber: SubscriberId, feed: FeedId|
        after.is_subscribed(subscriber, feed) <==> after.lists(feed, subscriber) by {}
}

/// Started empty, a store stays well formed under any subscriptions made
/// and given up.
pub proof fn law_subscriptions_from_empty(ops: Seq<StoreOp>)
    ensures
        apply_all(DatabaseView::empty(), ops).wf(),
{
    law_subscriptions_keep_index(DatabaseView::empty(), ops);
}

/// Every element of a filtered sequence is an element of the sequence.
pub proof fn lemma_filter_members<A>(s: Seq<A>, pred: spec_fn(A) -> bool)
    ensures
        forall|i: int| 0 <= i < s.filter(pred).len() ==> s.contains(#[trigger] s.filter(pred)[i]),
    decreases s.len(),
{
    reveal(Seq::filter);
    if s.len() > 0 {
        let head = s.drop_last();
        lemma_filter_members(head, pred);
        assert forall|i: int| 0 <= i < s.filter(pred).len() implies s.contains(
            #[trigger] s.filter(pred)[i],
        ) by {
            if i < head.filter(pred).len() {
                assert(head.contains(head.filter(pred)[i]));
                let k = choose|k: int| 0 <= k < head.len() && head[k] == head.filter(pred)[i];
                assert(s[k] == s.filter(pred)[i]);
            } else {
                assert(s[s.len() - 1] == s.filter(pred)[i]);
            }
        }
    }
}

/// No item that an update reports as new has its digest in the history the
/// feed had, and every fetched item whose digest the history lacks is
/// reported.
pub proof fn law_only_unknown_items_reported(known: Seq<u64>, items: Seq<ItemView>)
    ensures
        forall|i: int|
            0 <= i < new_items(known, items).len() ==> !known.contains(
                spec_item_hash(#[trigger] new_items(known, items)[i]),
            ),
        forall|i: int|
            0 <= i < new_items(known, items).len() ==> items.contains(
                #[trigger] new_items(known, items)[i],
            ),
        forall|i: int|
            0 <= i < items.len() && !known.contains(spec_item_hash(#[trigger] items[i]))
                ==> new_items(known, items).contains(items[i]),
        new_items(known, items).len() <= items.len(),
{
    broadcast use vstd::seq_lib::group_filter_ensures;

    let unknown = |item: ItemView| !known.contains(spec_item_hash(item));
    lemma_filter_members(items, unknown);
    assert forall|i: int|
        0 <= i < items.len() && !known.contains(
            spec_item_hash(#[trigger] items[i]),
        ) implies new_items(known, items).contains(items[i]) by {
        items.lemma_filter_contains(unknown, i);
    }
}

/// After an update the history holds at most twice as many digests as the
/// fetch had items: the new ones and as many of the old as fit.
pub proof fn law_history_bounded(known: Seq<u64>, items: Seq<ItemView>)
    ensures
        merged_hashes(known, items).len() <= 2 * items.len(),
        merged_hashes(known, items).len() == new_items(known, items).len() + kept_len(
            known.len(),
            items.len(),
            new_items(known, items).len(),
        ),
{
    law_only_unknown_items_reported(known, items);
}

/// A feed created from a fetch has one digest for each fetched item.
pub proof fn law_created_history(link: Seq<char>, rss: RssView)
    ensures
        FeedView::created(link, rss).hash_list.len() == rss.items.len(),
        forall|i: int|
            0 <= i < rss.items.len() ==> FeedView::created(link, rss).hash_list[i]
                == spec_item_hash(#[trigger] rss.items[i]),
{
}

/// The fetch `items` loses no digest that it still needs from the history
/// `known`: each fetched item that the history knows is known by one of
/// the entries that stay under the cap.
pub open spec fn keeps_seen(known: Seq<u64>, items: Seq<ItemView>) -> bool {
    let fresh = new_items(known, items).len();
    forall|i: int|
        0 <= i < items.len() && known.contains(spec_item_hash(#[trigger] items[i]))
            ==> known.take(kept_len(known.len(), items.len(), fresh) as int).contains(
            spec_item_hash(items[i]),
        )
}

/// A history no longer than the fetch loses nothing under the cap.
pub proof fn law_short_history_keeps_seen(known: Seq<u64>, items: Seq<ItemView>)
    requires
        known.len() <= items.len(),
    ensures
        keeps_seen(known, items),
{
    law_only_unknown_items_reported(known, items);
    let fresh = new_items(known, items).len();
    assert(kept_len(known.len(), items.len(), fresh) == known.len());
    assert(known.take(known.len() as int) =~= known);
}

/// After a fetch was merged, the same fetch holds nothing new, provided the
/// cap dropped no digest that the fetch still needs; and only then.
pub proof fn lemma_merged_history_knows(known: Seq<u64>, items: Seq<ItemView>)
    ensures
        keeps_seen(known, items) <==> new_items(merged_hashes(known, items), items).len() == 0,
{
    let unknown = |item: ItemView| !known.contains(spec_item_hash(item));
    let merged = merged_hashes(known, items);
    let unmerged = |item: ItemView| !merged.contains(spec_item_hash(item));
    let fresh = new_items(known, items);
    law_only_unknown_items_reported(known, items);
    law_only_unknown_items_reported(merged, items);
    let kept = known.take(kept_len(known.len(), items.len(), fresh.len()) as int);
    assert(merged == item_hashes(fresh) + kept);
    assert forall|i: int| 0 <= i < items.len() && unknown(#[trigger] items[i]) implies merged.contains(
    spec_item_hash(items[i])) by {
        assert(fresh.contains(items[i]));
        let k = choose|k: int| 0 <= k < fresh.len() && fresh[k] == items[i];
        assert(item_hashes(fresh)[k] == spec_item_hash(items[i]));
        assert(merged[k] == spec_item_hash(items[i]));
    }
    if keeps_seen(known, items) {
        assert forall|i: int| 0 <= i < items.len() implies !unmerged(#[trigger] items[i]) by {
            if !unknown(items[i]) {
                let digest = spec_item_hash(items[i]);
                assert(kept.contains(digest));
                let k = choose|k: int| 0 <= k < kept.len() && kept[k] == digest;
                assert(merged[fresh.len() + k] == digest);
            }
        }
        items.lemma_all_neg_filter_empty(unmerged);
    }
    if new_items(merged, items).len() == 0 {
        assert forall|i: int|
            0 <= i < items.len() && known.contains(
                spec_item_hash(#[trigger] items[i]),
            ) implies kept.contains(spec_item_hash(items[i])) by {
            let digest = spec_item_hash(items[i]);
            if unmerged(items[i]) {
                assert(new_items(merged, items).contains(items[i]));
            }
            assert(merged.contains(digest));
            let k = choose|k: int| 0 <= k < merged.len() && merged[k] == digest;
            if k < fresh.len() {
                assert(item_hashes(fresh)[k] == spec_item_hash(fresh[k]));
                assert(fresh.contains(fresh[k]));
                assert(unknown(fresh[k]));
            } else {
                assert(kept[k - fresh.len()] == digest);
            }
        }
    }
}

/// A fetch touches a feed exactly if the feed is another one afterwards:
/// so a store has something to write out after an update exactly if the
/// update changed what was stored.
pub proof fn law_update_saves_changes(feed: FeedView, rss: RssView)
    ensures
        feed.touched_by(rss) <==> feed.refreshed(rss) != feed,
{
    let fresh = new_items(feed.hash_list, rss.items);
    let merged = merged_hashes(feed.hash_list, rss.items);
    law_only_unknown_items_reported(feed.hash_list, rss.items);
    law_history_bounded(feed.hash_list, rss.items);
    if fresh.len() > 0 {
        assert(merged[0] == item_hashes(fresh)[0]);
        assert(merged[0] == spec_item_hash(fresh[0]));
        if merged == feed.hash_list {
            assert(feed.hash_list.contains(merged[0]));
        }
    }
    if !feed.touched_by(rss) {
        assert(merged =~= feed.hash_list);
        assert(feed.refreshed(rss) =~= feed);
    }
}

/// An update repeated at once with the same fetch reports nothing the
/// second time, provided the first update's cap on the history dropped no
/// digest that the fetch still needs (see [`keeps_seen`]).
pub proof fn law_update_idempotent(store: DatabaseView, link: Seq<char>, rss: RssView)
    requires
        store.feeds.contains_key(spec_gen_hash(link)) ==> keeps_seen(
            store.feeds[spec_gen_hash(link)].hash_list,
            rss.items,
        ),
    ensures
        store.update(link, rss).changes(link, rss) == Seq::<crate::model::FeedUpdateView>::empty(),
        store.update(link, rss).update(link, rss) == store.update(link, rss),
{
    let feed = spec_gen_hash(link);
    let once = store.update(link, rss);
    if store.feeds.contains_key(feed) {
        let known = store.feeds[feed].hash_list;
        let merged = merged_hashes(known, rss.items);
        lemma_merged_history_knows(known, rss.items);
        law_history_bounded(known, rss.items);
        assert(once.feeds[feed].hash_list == merged);
        assert(once.changes(link, rss) =~= Seq::<crate::model::FeedUpdateView>::empty());
        assert(merged_hashes(merged, rss.items) =~= merged);
        assert(once.feeds[feed].refreshed(rss) =~= once.feeds[feed]);
        assert(!once.feeds[feed].touched_by(rss));
        assert(once.update(link, rss) =~= once);
    } else {
        assert(once.changes(link, rss) =~= Seq::<crate::model::FeedUpdateView>::empty());
    }
}

/// After subscriber `from` has become `to`, `to` has, for every feed that
/// `from` held, the settings that `from` had; and unless the two are the
/// same, nothing in the store names `from` any more.
pub proof fn law_migrate_moves_settings(
    store: DatabaseView,
    from: SubscriberId,
    to: SubscriberId,
    link: Seq<char>,
)
    requires
        store.wf(),
        store.is_subscribed(from, spec_gen_hash(link)),
    ensures
        store.migrate(from, to).get_setting(to, link) == store.get_setting(from, link),
        store.migrate(from, to).raw_setting(to, link) == store.raw_setting(from, link),
        store.get_setting(from, link) is Some,
        store.migrate(from, to).is_subscribed(to, spec_gen_hash(link)),
{
    let feed = spec_gen_hash(link);
    assert(store.lists(feed, from));
}

/// After subscriber `from` has become another subscriber `to`, nothing in
/// the store names `from`: not the index, no feed's subscriber set, and no
/// feed's settings.
pub proof fn law_migrate_leaves_nothing(store: DatabaseView, from: SubscriberId, to: SubscriberId)
    requires
        store.wf(),
        from != to,
    ensures
        !store.migrate(from, to).subscribers.contains_key(from),
        forall|feed: FeedId| !store.migrate(from, to).lists(feed, from),
        forall|feed: FeedId| #[trigger]
            store.migrate(from, to).feeds.contains_key(feed) ==> !store.migrate(
                from,
                to,
            ).feeds[feed].settings_map().contains_key(from),
        forall|link: Seq<char>| store.migrate(from, to).get_setting(from, link) is None,
{
    let after = store.migrate(from, to);
    lemma_migrate_wf(store, from, to);
    if store.subscribers.contains_key(from) {
        assert forall|feed: FeedId| !after.lists(feed, from) by {
            assert(after.is_subscribed(from, feed) <==> after.lists(feed, from));
        }
    } else {
        assert forall|feed: FeedId| !after.lists(feed, from) by {
            assert(store.is_subscribed(from, feed) <==> store.lists(feed, from));
        }
    }
    assert forall|feed: FeedId| #[trigger] after.feeds.contains_key(feed) implies !after.feeds[feed].settings_map().contains_key(
    from) by {
        assert(!after.lists(feed, from));
        assert(after.feeds[feed].consistent());
    }
    assert forall|link: Seq<char>| after.get_setting(from, link) is None by {
        let feed = spec_gen_hash(link);
        if after.feeds.contains_key(feed) {
            assert(!after.feeds[feed].settings_map().contains_key(from));
        }
    }
}

/// The identifiers of `listed`, in order.
pub open spec fn feed_ids(listed: Seq<FeedView>) -> Seq<FeedId> {
    listed.map_values(|feed: FeedView| feed.feed_id())
}

/// Reading in the first `k` of the feeds of a store keeps just those feeds.
pub proof fn lemma_reload_prefix(store: DatabaseView, listed: Seq<FeedView>, k: int)
    requires
        store.wf(),
        store.enumerates(listed, store.feeds.dom()),
        0 <= k <= listed.len(),
    ensures
        stored_records(listed.take(k)) == store.feeds.restrict(feed_ids(listed).take(k).to_set()),
    decreases k,
{
    let keys = feed_ids(listed);
    let longer = keys.take(k);
    if k == 0 {
        assert(listed.take(0) =~= Seq::<FeedView>::empty());
        assert(store.feeds.restrict(longer.to_set()) =~= Map::<FeedId, FeedView>::empty());
    } else {
        lemma_reload_prefix(store, listed, k - 1);
        let shorter = keys.take(k - 1);
        let record = listed[k - 1];
        let feed = record.feed_id();
        assert(listed.take(k).drop_last() =~= listed.take(k - 1));
        assert(listed.take(k).last() == record);
        assert(keys[k - 1] == feed);
        assert(store.feeds.contains_key(feed) && store.feeds[feed] == record);
        assert(record_ok(record));
        lemma_sound_record_mended(record);
        assert(longer.to_set() =~= shorter.to_set().insert(feed)) by {
            assert forall|f: FeedId|
                longer.to_set().contains(f) <==> shorter.to_set().insert(feed).contains(f) by {
                if longer.to_set().contains(f) {
                    let i = choose|i: int| 0 <= i < longer.len() && longer[i] == f;
                    if i < k - 1 {
                        assert(shorter[i] == f);
                    }
                }
                if shorter.to_set().contains(f) {
                    let i = choose|i: int| 0 <= i < shorter.len() && shorter[i] == f;
                    assert(longer[i] == f);
                }
                if f == feed {
                    assert(longer[k - 1] == f);
                }
            }
        }
        assert(stored_records(listed.take(k)) =~= store.feeds.restrict(longer.to_set()));
    }
}

/// A store that is written out and read in again is the store it was: the
/// feeds of a well-formed store, listed each once in any order, make up a
/// store as they are, and reading them in rebuilds the same feeds and the
/// same subscriber index.
pub proof fn law_reload_restores(store: DatabaseView, listed: Seq<FeedView>)
    requires
        store.wf(),
        store.enumerates(listed, store.feeds.dom()),
    ensures
        records_consistent(listed),
        DatabaseView::from_records(listed) == store.saved(),
{
    let keys = feed_ids(listed);
    assert forall|i: int| 0 <= i < listed.len() implies record_ok(#[trigger] listed[i]) by {
        assert(store.feeds.contains_key(keys[i]) && store.feeds[keys[i]] == listed[i]);
    }
    assert forall|i: int, j: int| 0 <= i < j < listed.len() implies (#[trigger] listed[i]).feed_id()
        != (#[trigger] listed[j]).feed_id() by {
        assert(keys[i] != keys[j]);
    }
    lemma_reload_prefix(store, listed, listed.len() as int);
    assert(listed.take(listed.len() as int) =~= listed);
    assert(keys.take(listed.len() as int) =~= keys);
    assert(store.feeds.restrict(store.feeds.dom()) =~= store.feeds);
    assert(stored_records(listed) == store.feeds);
    let index = index_of(store.feeds);
    assert forall|s: SubscriberId|
        index.contains_key(s) <==> store.subscribers.contains_key(s) by {
        if index.contains_key(s) {
            let f = choose|f: FeedId|
                store.feeds.dom().contains(f) && #[trigger] feed_lists(store.feeds, f, s);
            assert(store.lists(f, s));
            assert(store.is_subscribed(s, f));
        }
        if store.subscribers.contains_key(s) {
            let f = choose|f: FeedId| store.subscribers[s].contains(f);
            assert(store.is_subscribed(s, f));
            assert(store.lists(f, s));
            assert(feed_lists(store.feeds, f, s));
        }
    }
    assert forall|s: SubscriberId| #[trigger] index.contains_key(s) implies index[s]
        == store.subscribers[s] by {
        assert forall|f: FeedId| index[s].contains(f) <==> store.subscribers[s].contains(f) by {
            assert(store.is_subscribed(s, f) <==> store.lists(f, s));
        }
        assert(index[s] =~= store.subscribers[s]);
    }
    assert(index =~= store.subscribers);
    assert(DatabaseView::from_records(listed) =~= store.saved());
}

} // verus!
