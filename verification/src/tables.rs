//! The two hash tables of the store, each with the view the model speaks of.

use std::collections::HashMap;
use std::collections::HashSet;
use vstd::prelude::*;
use vstd::std_specs::hash::spec_hash_keys_iter;
use vstd::std_specs::hash::spec_keys_iter;
use vstd::std_specs::iter::IteratorSpec;

use crate::data::Feed;
use crate::data::FeedId;
use crate::data::FeedSettings;
use crate::data::SubscriberId;
use crate::model::FeedView;

verus! {

/// The elements of a set of feed identifiers, each once, in the order in
/// which the set hands them out.
pub fn feed_ids_of(set: &HashSet<FeedId>) -> (ids: Vec<FeedId>)
    ensures
        ids@.no_duplicates(),
        ids@.to_set() == set@,
{
    let mut ids: Vec<FeedId> = Vec::new();
    let ghost all = spec_hash_keys_iter(set).remaining().unref();
    for id in it: set.iter()
        invariant
            ids@.len() == it.index(),
            forall|j: int| 0 <= j < it.index() ==> ids@[j] == #[trigger] all[j],
            it.seq().unref() == all,
            all.to_set() == set@,
            all.no_duplicates(),
    {
        assert(*id == all[it.index() as int]);
        ids.push(*id);
    }
    assert(ids@ =~= all);
    ids
}

/// The elements of a set of subscriber identifiers, each once, in the order
/// in which the set hands them out.
pub fn subscriber_ids_of(set: &HashSet<SubscriberId>) -> (ids: Vec<SubscriberId>)
    ensures
        ids@.no_duplicates(),
        ids@.to_set() == set@,
{
    let mut ids: Vec<SubscriberId> = Vec::new();
    let ghost all = spec_hash_keys_iter(set).remaining().unref();
    for id in it: set.iter()
        invariant
            ids@.len() == it.index(),
            forall|j: int| 0 <= j < it.index() ==> ids@[j] == #[trigger] all[j],
            it.seq().unref() == all,
            all.to_set() == set@,
            all.no_duplicates(),
    {
        assert(*id == all[it.index() as int]);
        ids.push(*id);
    }
    assert(ids@ =~= all);
    ids
}

/// A copy of a set of subscriber identifiers.
pub fn clone_subscribers(subscribers: &HashSet<SubscriberId>) -> (copy: HashSet<SubscriberId>)
    ensures
        copy@ == subscribers@,
{
    let mut copy: HashSet<SubscriberId> = HashSet::new();
    for subscriber in it: subscribers.iter()
        invariant
            forall|j: int| 0 <= j < it.index() ==> copy@.contains(*#[trigger] it.seq()[j]),
            forall|id: SubscriberId| copy@.contains(id) ==> subscribers@.contains(id),
            it.seq().unref().to_set() == subscribers@,
    {
        copy.insert(*subscriber);
    }
    assert(copy@ =~= subscribers@);
    copy
}

/// The subscribers that `settings` has an entry for, each once.
pub fn setting_holders(settings: &HashMap<SubscriberId, FeedSettings>) -> (ids: Vec<SubscriberId>)
    ensures
        ids@.no_duplicates(),
        ids@.to_set() == settings@.dom(),
{
    let mut ids: Vec<SubscriberId> = Vec::new();
    let ghost all = spec_keys_iter(settings).remaining().unref();
    for id in it: settings.keys()
        invariant
            ids@.len() == it.index(),
            forall|j: int| 0 <= j < it.index() ==> ids@[j] == #[trigger] all[j],
            it.seq().unref() == all,
            all.to_set() == settings@.dom(),
            all.no_duplicates(),
    {
        assert(*id == all[it.index() as int]);
        ids.push(*id);
    }
    assert(ids@ =~= all);
    ids
}

/// Whether every one of `ids` has an entry in `settings`.
pub fn all_have_settings(
    ids: &Vec<SubscriberId>,
    settings: &HashMap<SubscriberId, FeedSettings>,
) -> (all: bool)
    ensures
        all == (forall|i: int| 0 <= i < ids.len() ==> settings@.contains_key(#[trigger] ids[i])),
{
    let mut i: usize = 0;
    while i < ids.len()
        invariant
            i <= ids.len(),
            forall|j: int| 0 <= j < i ==> settings@.contains_key(#[trigger] ids[j]),
        decreases ids.len() - i,
    {
        if !settings.contains_key(&ids[i]) {
            return false;
        }
        i += 1;
    }
    true
}

/// Whether every one of `ids` is in `subscribers`.
pub fn all_subscribed(ids: &Vec<SubscriberId>, subscribers: &HashSet<SubscriberId>) -> (all: bool)
    ensures
        all == (forall|i: int| 0 <= i < ids.len() ==> subscribers@.contains(#[trigger] ids[i])),
{
    let mut i: usize = 0;
    while i < ids.len()
        invariant
            i <= ids.len(),
            forall|j: int| 0 <= j < i ==> subscribers@.contains(#[trigger] ids[j]),
        decreases ids.len() - i,
    {
        if !subscribers.contains(&ids[i]) {
            return false;
        }
        i += 1;
    }
    true
}

/// The stored feeds by identifier.
#[derive(Debug)]
pub struct FeedTable {
    map: HashMap<FeedId, Feed>,
}

impl View for FeedTable {
    type V = Map<FeedId, FeedView>;

    closed spec fn view(&self) -> Map<FeedId, FeedView> {
        self.map@.map_values(|feed: Feed| feed@)
    }
}

impl FeedTable {
    pub fn new() -> (table: FeedTable)
        ensures
            table@ == Map::<FeedId, FeedView>::empty(),
    {
        let table = FeedTable { map: HashMap::new() };
        assert(table@ =~= Map::<FeedId, FeedView>::empty());
        table
    }

    pub fn get(&self, id: FeedId) -> (found: Option<&Feed>)
        ensures
            match found {
                Some(feed) => self@.contains_key(id) && self@[id] == feed@,
                None => !self@.contains_key(id),
            },
    {
        self.map.get(&id)
    }

    /// Takes the feed `id` out of the table.
    pub fn take(&mut self, id: FeedId) -> (taken: Option<Feed>)
        ensures
            final(self)@ == old(self)@.remove(id),
            match taken {
                Some(feed) => old(self)@.contains_key(id) && old(self)@[id] == feed@,
                None => !old(self)@.contains_key(id),
            },
    {
        let taken = self.map.remove(&id);
        assert(self@ =~= old(self)@.remove(id));
        taken
    }

    /// Stores `feed` under `id`, in place of what was there.
    pub fn put(&mut self, id: FeedId, feed: Feed)
        ensures
            final(self)@ == old(self)@.insert(id, feed@),
    {
        self.map.insert(id, feed);
        assert(self@ =~= old(self)@.insert(id, feed@));
    }

    /// The identifiers of the stored feeds, each once.
    pub fn ids(&self) -> (ids: Vec<FeedId>)
        ensures
            ids@.no_duplicates(),
            ids@.to_set() == self@.dom(),
            ids@.len() == self@.dom().len(),
    {
        let mut ids: Vec<FeedId> = Vec::new();
        let ghost all = spec_keys_iter(&self.map).remaining().unref();
        for id in it: self.map.keys()
            invariant
                ids@.len() == it.index(),
                forall|j: int| 0 <= j < it.index() ==> ids@[j] == #[trigger] all[j],
                it.seq().unref() == all,
                all.to_set() == self.map@.dom(),
                all.no_duplicates(),
                all.len() == self.map@.dom().len(),
        {
            assert(*id == all[it.index() as int]);
            ids.push(*id);
        }
        assert(ids@ =~= all);
        assert(self@.dom() =~= self.map@.dom());
        ids
    }
}

/// For each subscriber, the identifiers of the feeds it holds.
#[derive(Debug)]
pub struct SubscriberIndex {
    map: HashMap<SubscriberId, HashSet<FeedId>>,
}

impl View for SubscriberIndex {
    type V = Map<SubscriberId, Set<FeedId>>;

    closed spec fn view(&self) -> Map<SubscriberId, Set<FeedId>> {
        self.map@.map_values(|feeds: HashSet<FeedId>| feeds@)
    }
}

impl SubscriberIndex {
    pub fn new() -> (index: SubscriberIndex)
        ensures
            index@ == Map::<SubscriberId, Set<FeedId>>::empty(),
    {
        let index = SubscriberIndex { map: HashMap::new() };
        assert(index@ =~= Map::<SubscriberId, Set<FeedId>>::empty());
        index
    }

    pub fn get(&self, subscriber: SubscriberId) -> (found: Option<&HashSet<FeedId>>)
        ensures
            match found {
                Some(feeds) => self@.contains_key(subscriber) && self@[subscriber] == feeds@,
                None => !self@.contains_key(subscriber),
            },
    {
        self.map.get(&subscriber)
    }

    /// Takes the entry of `subscriber` out of the index.
    pub fn take(&mut self, subscriber: SubscriberId) -> (taken: Option<HashSet<FeedId>>)
        ensures
            final(self)@ == old(self)@.remove(subscriber),
            match taken {
                Some(feeds) => old(self)@.contains_key(subscriber) && old(self)@[subscriber]
                    == feeds@,
                None => !old(self)@.contains_key(subscriber),
            },
    {
        let taken = self.map.remove(&subscriber);
        assert(self@ =~= old(self)@.remove(subscriber));
        taken
    }

    /// Stores `feeds` as the entry of `subscriber`, in place of what was there.
    pub fn put(&mut self, subscriber: SubscriberId, feeds: HashSet<FeedId>)
        ensures
            final(self)@ == old(self)@.insert(subscriber, feeds@),
    {
        self.map.insert(subscriber, feeds);
        assert(self@ =~= old(self)@.insert(subscriber, feeds@));
    }

    /// Adds `feed` to the feeds of `subscriber`, indexing the subscriber
    /// where it was not.
    pub fn add(&mut self, subscriber: SubscriberId, feed: FeedId)
        ensures
            final(self)@ == old(self)@.insert(
                subscriber,
                (if old(self)@.contains_key(subscriber) {
                    old(self)@[subscriber]
                } else {
                    Set::empty()
                }).insert(feed),
            ),
    {
        let mut held = match self.take(subscriber) {
            Some(held) => held,
            None => HashSet::new(),
        };
        held.insert(feed);
        self.put(subscriber, held);
        assert(self@ =~= old(self)@.insert(
            subscriber,
            (if old(self)@.contains_key(subscriber) {
                old(self)@[subscriber]
            } else {
                Set::empty()
            }).insert(feed),
        ));
    }

    /// Adds `feed` to the feeds of each of `subscribers`.
    pub fn add_all(&mut self, subscribers: &Vec<SubscriberId>, feed: FeedId)
        ensures
            final(self)@ == Map::new(
                |subscriber: SubscriberId|
                    old(self)@.contains_key(subscriber) || subscribers@.contains(subscriber),
                |subscriber: SubscriberId|
                    if subscribers@.contains(subscriber) {
                        (if old(self)@.contains_key(subscriber) {
                            old(self)@[subscriber]
                        } else {
                            Set::empty()
                        }).insert(feed)
                    } else {
                        old(self)@[subscriber]
                    },
            ),
    {
        let ghost before = self@;
        let ghost mut done: Set<SubscriberId> = Set::empty();
        assert(self@ =~= Map::new(
            |subscriber: SubscriberId| before.contains_key(subscriber) || done.contains(subscriber),
            |subscriber: SubscriberId|
                if done.contains(subscriber) {
                    (if before.contains_key(subscriber) {
                        before[subscriber]
                    } else {
                        Set::empty()
                    }).insert(feed)
                } else {
                    before[subscriber]
                },
        ));
        let mut i: usize = 0;
        while i < subscribers.len()
            invariant
                i <= subscribers.len(),
                forall|j: int| 0 <= j < i ==> done.contains(#[trigger] subscribers[j]),
                forall|subscriber: SubscriberId|
                    done.contains(subscriber) ==> subscribers@.contains(subscriber),
                self@ == Map::new(
                    |subscriber: SubscriberId|
                        before.contains_key(subscriber) || done.contains(subscriber),
                    |subscriber: SubscriberId|
                        if done.contains(subscriber) {
                            (if before.contains_key(subscriber) {
                                before[subscriber]
                            } else {
                                Set::empty()
                            }).insert(feed)
                        } else {
                            before[subscriber]
                        },
                ),
            decreases subscribers.len() - i,
        {
            self.add(subscribers[i], feed);
            proof {
                let grown = done.insert(subscribers[i as int]);
                let held = if before.contains_key(subscribers[i as int]) {
                    before[subscribers[i as int]]
                } else {
                    Set::empty()
                };
                assert(self@[subscribers[i as int]] =~= held.insert(feed));
                assert(self@ =~= Map::new(
                    |subscriber: SubscriberId|
                        before.contains_key(subscriber) || grown.contains(subscriber),
                    |subscriber: SubscriberId|
                        if grown.contains(subscriber) {
                            (if before.contains_key(subscriber) {
                                before[subscriber]
                            } else {
                                Set::empty()
                            }).insert(feed)
                        } else {
                            before[subscriber]
                        },
                ));
                done = grown;
            }
            i += 1;
        }
        proof {
            assert forall|subscriber: SubscriberId|
                subscribers@.contains(subscriber) implies done.contains(subscriber) by {
                let j = choose|j: int| 0 <= j < subscribers@.len() && subscribers@[j] == subscriber;
                assert(done.contains(subscribers[j]));
            }
            assert(done =~= subscribers@.to_set());
            assert(self@ =~= Map::new(
                |subscriber: SubscriberId|
                    before.contains_key(subscriber) || subscribers@.contains(subscriber),
                |subscriber: SubscriberId|
                    if subscribers@.contains(subscriber) {
                        (if before.contains_key(subscriber) {
                            before[subscriber]
                        } else {
                            Set::empty()
                        }).insert(feed)
                    } else {
                        before[subscriber]
                    },
            ));
        }
    }

    /// The indexed subscribers, each once.
    pub fn ids(&self) -> (ids: Vec<SubscriberId>)
        ensures
            ids@.no_duplicates(),
            ids@.to_set() == self@.dom(),
            ids@.len() == self@.dom().len(),
    {
        let mut ids: Vec<SubscriberId> = Vec::new();
        let ghost all = spec_keys_iter(&self.map).remaining().unref();
        for id in it: self.map.keys()
            invariant
                ids@.len() == it.index(),
                forall|j: int| 0 <= j < it.index() ==> ids@[j] == #[trigger] all[j],
                it.seq().unref() == all,
                all.to_set() == self.map@.dom(),
                all.no_duplicates(),
                all.len() == self.map@.dom().len(),
        {
            assert(*id == all[it.index() as int]);
            ids.push(*id);
        }
        assert(ids@ =~= all);
        assert(self@.dom() =~= self.map@.dom());
        ids
    }
}

} // verus!
