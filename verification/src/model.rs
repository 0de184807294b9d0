//! The mathematical model of the feed store: what a store holds, when it is
//! well formed, and what each operation makes of it.

use vstd::prelude::*;

use crate::clock::Elapsed;
use crate::clock::Timestamp;
use crate::data::spec_gen_hash;
use crate::data::spec_item_hash;
use crate::data::FeedId;
use crate::data::FeedSettings;
use crate::data::SubscriberId;
use crate::feed::ItemView;
use crate::feed::RssView;

verus! {

/// What a stored feed holds.
#[verifier::ext_equal]
pub struct FeedView {
    pub link: Seq<char>,
    pub title: Seq<char>,
    pub down_time: Option<Timestamp>,
    pub subscribers: Set<SubscriberId>,
    pub ttl: Option<u32>,
    pub hash_list: Seq<u64>,
    pub settings: Option<Map<SubscriberId, FeedSettings>>,
}

/// One change that an update found.
#[verifier::ext_equal]
pub enum FeedUpdateView {
    /// The items that were not known before, in fetch order.
    Items(Seq<ItemView>),
    /// The feed's new title.
    Title(Seq<char>),
}

/// What a store holds: the feeds by identifier, for each subscriber the
/// identifiers of its feeds, and whether there are changes not yet written out.
#[verifier::ext_equal]
pub struct DatabaseView {
    pub feeds: Map<FeedId, FeedView>,
    pub subscribers: Map<SubscriberId, Set<FeedId>>,
    pub unsaved: bool,
}

/// The digests of `items`, in order.
pub open spec fn item_hashes(items: Seq<ItemView>) -> Seq<u64> {
    items.map_values(|item: ItemView| spec_item_hash(item))
}

/// The items of a fetch whose digest is not in the stored history `known`.
pub open spec fn new_items(known: Seq<u64>, items: Seq<ItemView>) -> Seq<ItemView> {
    items.filter(|item: ItemView| !known.contains(spec_item_hash(item)))
}

/// How many entries of the old history stay when `fresh` of `fetched` items
/// are new: as many as fit under the cap of twice the fetched count.
pub open spec fn kept_len(known_len: nat, fetched: nat, fresh: nat) -> nat {
    if known_len <= 2 * fetched - fresh {
        known_len
    } else {
        (2 * fetched - fresh) as nat
    }
}

/// The history after a fetch of `items`: the new digests followed by the
/// head of the old history, as far as it fits under the cap of twice the
/// fetched count.
pub open spec fn merged_hashes(known: Seq<u64>, items: Seq<ItemView>) -> Seq<u64> {
    let fresh = new_items(known, items);
    item_hashes(fresh) + known.take(kept_len(known.len(), items.len(), fresh.len()) as int)
}

impl FeedView {
    /// The identifier under which the store keeps this feed.
    pub open spec fn feed_id(self) -> FeedId {
        spec_gen_hash(self.link)
    }

    /// The settings map, empty where the feed has none.
    pub open spec fn settings_map(self) -> Map<SubscriberId, FeedSettings> {
        match self.settings {
            Some(settings) => settings,
            None => Map::empty(),
        }
    }

    /// A stored feed has at least one subscriber, and settings for exactly
    /// its subscribers.
    pub open spec fn consistent(self) -> bool {
        &&& !self.subscribers.is_empty()
        &&& self.settings is Some
        &&& self.settings_map().dom() =~= self.subscribers
    }

    /// The feed as first stored from a fetch, before anyone is subscribed.
    pub open spec fn created(link: Seq<char>, rss: RssView) -> FeedView {
        FeedView {
            link,
            title: rss.title,
            down_time: None,
            subscribers: Set::empty(),
            ttl: rss.ttl,
            hash_list: item_hashes(rss.items),
            settings: Some(Map::empty()),
        }
    }

    /// The feed with `subscriber` added, with unset settings unless it has
    /// settings already.
    pub open spec fn with_subscriber(self, subscriber: SubscriberId) -> FeedView {
        FeedView {
            subscribers: self.subscribers.insert(subscriber),
            settings: Some(
                if self.settings_map().contains_key(subscriber) {
                    self.settings_map()
                } else {
                    self.settings_map().insert(subscriber, FeedSettings::unset())
                },
            ),
            ..self
        }
    }

    /// The feed without `subscriber` and its settings.
    pub open spec fn without_subscriber(self, subscriber: SubscriberId) -> FeedView {
        FeedView {
            subscribers: self.subscribers.remove(subscriber),
            settings: Some(self.settings_map().remove(subscriber)),
            ..self
        }
    }

    /// The feed with subscriber `from` renamed to `to`, its settings moved along.
    pub open spec fn renumbered(self, from: SubscriberId, to: SubscriberId) -> FeedView {
        FeedView {
            subscribers: self.subscribers.remove(from).insert(to),
            settings: Some(
                self.settings_map().remove(from).insert(to, self.settings_map()[from]),
            ),
            ..self
        }
    }

    /// The settings that a record gives `subscriber` when it is read in:
    /// those it holds for it; where it holds settings but none for this
    /// subscriber, unset ones; where it holds no settings at all, as
    /// records written before settings existed, the resolved defaults.
    pub open spec fn settings_read_for(self, subscriber: SubscriberId) -> FeedSettings {
        match self.settings {
            Some(stored) => if stored.contains_key(subscriber) {
                stored[subscriber]
            } else {
                FeedSettings::unset()
            },
            None => FeedSettings::unset().resolved(),
        }
    }

    /// The feed as it is stored when read in from a record: with settings
    /// for each of its subscribers and for no one else.
    pub open spec fn mended(self) -> FeedView {
        FeedView {
            settings: Some(
                Map::new(
                    |subscriber: SubscriberId| self.subscribers.contains(subscriber),
                    |subscriber: SubscriberId| self.settings_read_for(subscriber),
                ),
            ),
            ..self
        }
    }

    /// The feed after a successful fetch: history merged, title and refresh
    /// hint taken from the fetch, no longer marked as down.
    pub open spec fn refreshed(self, rss: RssView) -> FeedView {
        FeedView {
            title: rss.title,
            down_time: None,
            ttl: rss.ttl,
            hash_list: merged_hashes(self.hash_list, rss.items),
            ..self
        }
    }

    /// A fetch changes something that is stored of this feed: it brings a
    /// change to report, another refresh hint, the end of a down time, or
    /// it cuts a history that is longer than the cap.
    pub open spec fn touched_by(self, rss: RssView) -> bool {
        ||| self.changes(rss).len() > 0
        ||| rss.ttl != self.ttl
        ||| self.down_time is Some
        ||| self.hash_list.len() > 2 * rss.items.len()
    }

    /// The changes that a fetch brings to this feed: the new items, if there
    /// are any, then the new title, if it differs.
    pub open spec fn changes(self, rss: RssView) -> Seq<FeedUpdateView> {
        let fresh = new_items(self.hash_list, rss.items);
        let items_part = if fresh.len() == 0 {
            Seq::<FeedUpdateView>::empty()
        } else {
            seq![FeedUpdateView::Items(fresh)]
        };
        let title_part = if rss.title == self.title {
            Seq::<FeedUpdateView>::empty()
        } else {
            seq![FeedUpdateView::Title(rss.title)]
        };
        items_part + title_part
    }
}

/// A record is sound: it has a subscriber, and its settings, where it has
/// any, are for exactly its subscribers.
pub open spec fn record_ok(record: FeedView) -> bool {
    &&& !record.subscribers.is_empty()
    &&& record.settings is Some ==> record.settings_map().dom() =~= record.subscribers
}

/// Records make up a store as they are: each is sound, and no two have
/// the same identifier.
pub open spec fn records_consistent(records: Seq<FeedView>) -> bool {
    &&& forall|i: int| 0 <= i < records.len() ==> record_ok(#[trigger] records[i])
    &&& forall|i: int, j: int|
        0 <= i < j < records.len() ==> (#[trigger] records[i]).feed_id()
            != (#[trigger] records[j]).feed_id()
}

/// The feeds that are kept of `records`: a record without subscribers is
/// passed over; of records with the same identifier the last one stands;
/// each kept record is stored with settings for exactly its subscribers.
pub open spec fn stored_records(records: Seq<FeedView>) -> Map<FeedId, FeedView>
    decreases records.len(),
{
    if records.len() == 0 {
        Map::empty()
    } else {
        let before = stored_records(records.drop_last());
        if records.last().subscribers.is_empty() {
            before
        } else {
            before.insert(records.last().feed_id(), records.last().mended())
        }
    }
}

/// Among `feeds`, the feed `feed` names `subscriber`.
pub open spec fn feed_lists(
    feeds: Map<FeedId, FeedView>,
    feed: FeedId,
    subscriber: SubscriberId,
) -> bool {
    feeds.contains_key(feed) && feeds[feed].subscribers.contains(subscriber)
}

/// The subscriber index over the feeds in `done`: for each subscriber that
/// one of them names, the feeds among them that name it.
pub open spec fn index_over(feeds: Map<FeedId, FeedView>, done: Set<FeedId>) -> Map<
    SubscriberId,
    Set<FeedId>,
> {
    Map::new(
        |subscriber: SubscriberId|
            exists|feed: FeedId| done.contains(feed) && #[trigger] feed_lists(feeds, feed, subscriber),
        |subscriber: SubscriberId|
            Set::new(|feed: FeedId| done.contains(feed) && feed_lists(feeds, feed, subscriber)),
    )
}

/// The subscriber index that is the inverse of the subscriber sets of
/// `feeds`.
pub open spec fn index_of(feeds: Map<FeedId, FeedView>) -> Map<SubscriberId, Set<FeedId>> {
    index_over(feeds, feeds.dom())
}

impl DatabaseView {
    /// The store with no feeds and no subscribers.
    pub open spec fn empty() -> DatabaseView {
        DatabaseView { feeds: Map::empty(), subscribers: Map::empty(), unsaved: false }
    }

    /// The subscriber index names `feed` for `subscriber`.
    pub open spec fn is_subscribed(self, subscriber: SubscriberId, feed: FeedId) -> bool {
        self.subscribers.contains_key(subscriber) && self.subscribers[subscriber].contains(feed)
    }

    /// The stored feed `feed` names `subscriber` among its subscribers.
    pub open spec fn lists(self, feed: FeedId, subscriber: SubscriberId) -> bool {
        self.feeds.contains_key(feed) && self.feeds[feed].subscribers.contains(subscriber)
    }

    /// The feeds that the index names for `subscriber`.
    pub open spec fn feeds_of(self, subscriber: SubscriberId) -> Set<FeedId> {
        if self.subscribers.contains_key(subscriber) {
            self.subscribers[subscriber]
        } else {
            Set::empty()
        }
    }

    /// The subscriber index and the feeds' subscriber sets are inverses of
    /// each other; every stored feed has a subscriber, settings for exactly
    /// its subscribers, and is kept under the digest of its link; no
    /// subscriber is indexed with an empty set of feeds.
    pub open spec fn wf(self) -> bool {
        &&& forall|feed: FeedId| #[trigger]
            self.feeds.contains_key(feed) ==> self.feeds[feed].consistent()
                && self.feeds[feed].feed_id() == feed
        &&& forall|subscriber: SubscriberId| #[trigger]
            self.subscribers.contains_key(subscriber) ==> !self.subscribers[subscriber].is_empty()
        &&& forall|subscriber: SubscriberId, feed: FeedId|
            #![trigger self.is_subscribed(subscriber, feed)]
            #![trigger self.lists(feed, subscriber)]
            self.is_subscribed(subscriber, feed) <==> self.lists(feed, subscriber)
    }

    /// `listed` holds the stored feeds with the identifiers in `ids`, each
    /// once and as stored, in some order.
    pub open spec fn enumerates(self, listed: Seq<FeedView>, ids: Set<FeedId>) -> bool {
        let keys = listed.map_values(|feed: FeedView| feed.feed_id());
        &&& keys.no_duplicates()
        &&& keys.to_set() == ids
        &&& forall|i: int|
            0 <= i < listed.len() ==> self.feeds.contains_key(#[trigger] keys[i])
                && self.feeds[keys[i]] == listed[i]
    }

    /// The store after `subscriber` asks for the feed at `link`, fetched as `rss`.
    pub open spec fn subscribe(self, subscriber: SubscriberId, link: Seq<char>, rss: RssView)
        -> DatabaseView {
        let feed = spec_gen_hash(link);
        if self.is_subscribed(subscriber, feed) {
            self
        } else {
            let base = if self.feeds.contains_key(feed) {
                self.feeds[feed]
            } else {
                FeedView::created(link, rss)
            };
            DatabaseView {
                feeds: self.feeds.insert(feed, base.with_subscriber(subscriber)),
                subscribers: self.subscribers.insert(
                    subscriber,
                    self.feeds_of(subscriber).insert(feed),
                ),
                unsaved: true,
            }
        }
    }

    /// The store after `subscriber` gives up the feed at `link`.
    pub open spec fn unsubscribe(self, subscriber: SubscriberId, link: Seq<char>) -> DatabaseView {
        let feed = spec_gen_hash(link);
        if !self.is_subscribed(subscriber, feed) {
            self
        } else {
            let left = self.feeds[feed].without_subscriber(subscriber);
            let remaining = self.subscribers[subscriber].remove(feed);
            DatabaseView {
                feeds: if left.subscribers.is_empty() {
                    self.feeds.remove(feed)
                } else {
                    self.feeds.insert(feed, left)
                },
                subscribers: if remaining.is_empty() {
                    self.subscribers.remove(subscriber)
                } else {
                    self.subscribers.insert(subscriber, remaining)
                },
                unsaved: true,
            }
        }
    }

    /// What `unsubscribe` hands back: the feed as it is once the subscriber
    /// has left it, or nothing where there was no such subscription.
    pub open spec fn unsubscribed(self, subscriber: SubscriberId, link: Seq<char>) -> Option<
        FeedView,
    > {
        let feed = spec_gen_hash(link);
        if self.is_subscribed(subscriber, feed) {
            Some(self.feeds[feed].without_subscriber(subscriber))
        } else {
            None
        }
    }

    /// The store with `subscriber` taken out of the feeds in `done`; a feed
    /// that loses its last subscriber goes, and so does the subscriber's
    /// index entry once none of its feeds is left.
    pub open spec fn without_subscriptions(self, subscriber: SubscriberId, done: Set<FeedId>)
        -> DatabaseView {
        let remaining = self.feeds_of(subscriber).difference(done);
        DatabaseView {
            feeds: Map::new(
                |feed: FeedId|
                    self.feeds.contains_key(feed) && !(done.contains(feed)
                        && self.feeds[feed].subscribers.remove(subscriber).is_empty()),
                |feed: FeedId|
                    if done.contains(feed) {
                        self.feeds[feed].without_subscriber(subscriber)
                    } else {
                        self.feeds[feed]
                    },
            ),
            subscribers: if remaining.is_empty() {
                self.subscribers.remove(subscriber)
            } else {
                self.subscribers.insert(subscriber, remaining)
            },
            unsaved: true,
        }
    }

    /// The store after `subscriber` is removed from every feed it holds.
    pub open spec fn delete_subscriber(self, subscriber: SubscriberId) -> DatabaseView {
        if self.subscribers.contains_key(subscriber) {
            self.without_subscriptions(subscriber, self.subscribers[subscriber])
        } else {
            self
        }
    }

    /// The store after subscriber `from` has become `to`: `to` holds the
    /// feeds of both, and in each feed that `from` held, `to` has the
    /// settings that `from` had.
    pub open spec fn migrate(self, from: SubscriberId, to: SubscriberId) -> DatabaseView {
        if !self.subscribers.contains_key(from) {
            self
        } else {
            let moved = self.subscribers[from];
            let rest = self.subscribers.remove(from);
            let kept = if rest.contains_key(to) {
                rest[to]
            } else {
                Set::empty()
            };
            DatabaseView {
                feeds: Map::new(
                    |feed: FeedId| self.feeds.contains_key(feed),
                    |feed: FeedId|
                        if moved.contains(feed) {
                            self.feeds[feed].renumbered(from, to)
                        } else {
                            self.feeds[feed]
                        },
                ),
                subscribers: rest.insert(to, kept.union(moved)),
                unsaved: true,
            }
        }
    }

    /// The stored settings of `subscriber` for the feed at `link`, as they
    /// were written: nothing where the feed is unknown or does not list the
    /// subscriber.
    pub open spec fn raw_setting(self, subscriber: SubscriberId, link: Seq<char>) -> Option<
        FeedSettings,
    > {
        let feed = spec_gen_hash(link);
        if self.feeds.contains_key(feed) && self.feeds[feed].settings_map().contains_key(
            subscriber,
        ) {
            Some(self.feeds[feed].settings_map()[subscriber])
        } else {
            None
        }
    }

    /// The settings that `get_setting` reports: the stored ones with every
    /// toggle resolved.
    pub open spec fn get_setting(self, subscriber: SubscriberId, link: Seq<char>) -> Option<
        FeedSettings,
    > {
        match self.raw_setting(subscriber, link) {
            Some(stored) => Some(stored.resolved()),
            None => None,
        }
    }

    /// The store after the settings of `subscriber` for the feed at `link`
    /// are overwritten; unchanged where there are none to overwrite.
    pub open spec fn update_setting(
        self,
        subscriber: SubscriberId,
        link: Seq<char>,
        settings: FeedSettings,
    ) -> DatabaseView {
        let feed = spec_gen_hash(link);
        if self.raw_setting(subscriber, link) is Some {
            DatabaseView {
                feeds: self.feeds.insert(
                    feed,
                    FeedView {
                        settings: Some(self.feeds[feed].settings_map().insert(subscriber, settings)),
                        ..self.feeds[feed]
                    },
                ),
                unsaved: true,
                ..self
            }
        } else {
            self
        }
    }

    /// How long the feed at `link` has been failing at `now`: zero at the
    /// first failure, nothing where the feed is not stored.
    pub open spec fn down_time(self, link: Seq<char>, now: Timestamp) -> Option<Elapsed> {
        let feed = spec_gen_hash(link);
        if self.feeds.contains_key(feed) {
            Some(
                match self.feeds[feed].down_time {
                    Some(since) => now.spec_since(since),
                    None => Elapsed::spec_zero(),
                },
            )
        } else {
            None
        }
    }

    /// The store after a failure of the feed at `link` was seen at `now`: a
    /// feed that was not marked as down is marked as down since `now`.
    pub open spec fn mark_down(self, link: Seq<char>, now: Timestamp) -> DatabaseView {
        let feed = spec_gen_hash(link);
        if self.feeds.contains_key(feed) && self.feeds[feed].down_time is None {
            DatabaseView {
                feeds: self.feeds.insert(
                    feed,
                    FeedView { down_time: Some(now), ..self.feeds[feed] },
                ),
                ..self
            }
        } else {
            self
        }
    }

    /// The store with the feed at `link` no longer marked as down.
    pub open spec fn reset_down_time(self, link: Seq<char>) -> DatabaseView {
        let feed = spec_gen_hash(link);
        if self.feeds.contains_key(feed) {
            DatabaseView {
                feeds: self.feeds.insert(feed, FeedView { down_time: None, ..self.feeds[feed] }),
                ..self
            }
        } else {
            self
        }
    }

    /// The changes that a fetch `rss` of the feed at `link` brings; none
    /// where the feed is not stored.
    pub open spec fn changes(self, link: Seq<char>, rss: RssView) -> Seq<FeedUpdateView> {
        let feed = spec_gen_hash(link);
        if self.feeds.contains_key(feed) {
            self.feeds[feed].changes(rss)
        } else {
            Seq::empty()
        }
    }

    /// The store after a fetch `rss` of the feed at `link`. The fetch
    /// leaves something to write out exactly if it changed what is stored
    /// of the feed.
    pub open spec fn update(self, link: Seq<char>, rss: RssView) -> DatabaseView {
        let feed = spec_gen_hash(link);
        if self.feeds.contains_key(feed) {
            DatabaseView {
                feeds: self.feeds.insert(feed, self.feeds[feed].refreshed(rss)),
                unsaved: self.unsaved || self.feeds[feed].touched_by(rss),
                ..self
            }
        } else {
            self
        }
    }

    /// The store that holds the feeds of `records`, with nothing to write
    /// out: the feeds are those that [`stored_records`] keeps, and the
    /// subscriber index is the inverse of their subscriber sets.
    pub open spec fn from_records(records: Seq<FeedView>) -> DatabaseView {
        DatabaseView {
            feeds: stored_records(records),
            subscribers: index_of(stored_records(records)),
            unsaved: false,
        }
    }

    /// The store with nothing left to write out.
    pub open spec fn saved(self) -> DatabaseView {
        DatabaseView { unsaved: false, ..self }
    }
}

} // verus!
