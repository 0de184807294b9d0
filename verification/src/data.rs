//! The feed store: feeds, their subscribers, and change detection.

use std::collections::hash_map::DefaultHasher;
use std::collections::HashMap;
use std::collections::HashSet;
use std::hash::Hasher;
use vstd::pervasive::unreached;
use vstd::prelude::*;
use vstd::std_specs::hash::DefaultHasherAdditionalSpecFns;
use vstd::string::StringExecFns;
use vstd::utf8::encode_utf8;

use crate::clock::Elapsed;
use crate::clock::Timestamp;
use crate::feed::Item;
use crate::feed::item_views;
use crate::feed::ItemView;
use crate::feed::Rss;
use crate::laws;
use crate::model::DatabaseView;
use crate::model::FeedUpdateView;
use crate::model::item_hashes;
use crate::model::merged_hashes;
use crate::model::record_ok;
use crate::model::feed_lists;
use crate::model::index_of;
use crate::model::index_over;
use crate::model::stored_records;
use crate::model::FeedView;
use crate::history::clone_hashes;
use crate::history::hashes_of;
use crate::history::kept_count;
use crate::history::pick_new;
use crate::tables::all_have_settings;
use crate::tables::all_subscribed;
use crate::tables::clone_subscribers;
use crate::tables::feed_ids_of;
use crate::tables::setting_holders;
use crate::tables::subscriber_ids_of;
use crate::tables::FeedTable;
use crate::tables::SubscriberIndex;

verus! {

pub type FeedId = u64;

pub type SubscriberId = i64;

/// The digest of a text: the default hasher fed the text's UTF-8 bytes and
/// then the byte `0xff`, which is how a string hashes itself.
pub open spec fn spec_gen_hash(text: Seq<char>) -> u64 {
    DefaultHasher::spec_finish(seq![encode_utf8(text), seq![0xffu8]])
}

/// The 64-bit digest of `text`. Equal texts give equal digests.
pub fn gen_hash(text: &str) -> (digest: u64)
    ensures
        digest == spec_gen_hash(text@),
{
    let mut hasher = DefaultHasher::new();
    hasher.write(text.as_bytes());
    let tail: [u8; 1] = [0xffu8];
    hasher.write(tail.as_slice());
    proof {
        assert(tail@ =~= seq![0xffu8]);
        assert(hasher@ =~= seq![encode_utf8(text@), seq![0xffu8]]);
    }
    hasher.finish()
}

/// The text of an optional field, empty where the field is absent.
pub open spec fn text_or_empty(field: Option<Seq<char>>) -> Seq<char> {
    match field {
        Some(text) => text,
        None => Seq::empty(),
    }
}

/// The text an item is identified by: its identifier where it has one,
/// else its title followed by its link.
pub open spec fn item_identity(item: ItemView) -> Seq<char> {
    match item.id {
        Some(id) => id,
        None => text_or_empty(item.title) + text_or_empty(item.link),
    }
}

/// The digest by which an item is recognised on later fetches.
pub open spec fn spec_item_hash(item: ItemView) -> u64 {
    spec_gen_hash(item_identity(item))
}

/// The digest by which `item` is recognised on later fetches.
pub fn gen_item_hash(item: &Item) -> (digest: u64)
    ensures
        digest == spec_item_hash(item@),
{
    match &item.id {
        Some(id) => gen_hash(id.as_str()),
        None => {
            let mut identity = String::new();
            if let Some(title) = &item.title {
                identity.append(title.as_str());
            }
            if let Some(link) = &item.link {
                identity.append(link.as_str());
            }
            assert(identity@ =~= item_identity(item@));
            gen_hash(identity.as_str())
        },
    }
}

/// Four independent toggles of one subscriber for one feed. `None` means
/// "not chosen"; it is resolved to a default only when the settings are read.
#[derive(Debug, Clone, Copy, PartialEq, Eq, Structural)]
pub struct FeedSettings {
    pub disable_preview: Option<bool>,
    pub link_only: Option<bool>,
    pub hide_rss_title: Option<bool>,
    pub combine_msg: Option<bool>,
}

impl FeedSettings {
    /// Settings with nothing chosen.
    pub open spec fn unset() -> FeedSettings {
        FeedSettings { disable_preview: None, link_only: None, hide_rss_title: None, combine_msg: None }
    }

    /// The settings with every toggle resolved: previews off, full
    /// rendering, title shown, messages combined, unless chosen otherwise.
    pub open spec fn resolved(self) -> FeedSettings {
        FeedSettings {
            disable_preview: Some(
                match self.disable_preview {
                    Some(choice) => choice,
                    None => true,
                },
            ),
            link_only: Some(
                match self.link_only {
                    Some(choice) => choice,
                    None => false,
                },
            ),
            hide_rss_title: Some(
                match self.hide_rss_title {
                    Some(choice) => choice,
                    None => false,
                },
            ),
            combine_msg: Some(
                match self.combine_msg {
                    Some(choice) => choice,
                    None => true,
                },
            ),
        }
    }
}

impl Default for FeedSettings {
    fn default() -> (settings: FeedSettings)
        ensures
            settings == FeedSettings::unset(),
    {
        FeedSettings { disable_preview: None, link_only: None, hide_rss_title: None, combine_msg: None }
    }
}

/// What `get_combined_feed_settings` returns for stored settings, or for none.
pub open spec fn combined_settings(settings: Option<FeedSettings>) -> FeedSettings {
    match settings {
        Some(stored) => stored.resolved(),
        None => FeedSettings::unset().resolved(),
    }
}

/// Stored settings merged with the defaults: every toggle of the result is
/// `Some`, a chosen value kept as it is.
pub fn get_combined_feed_settings(settings: Option<FeedSettings>) -> (merged: FeedSettings)
    ensures
        merged == combined_settings(settings),
{
    let before = match settings {
        Some(stored) => stored,
        None => FeedSettings::default(),
    };
    FeedSettings {
        disable_preview: Some(before.disable_preview.unwrap_or(true)),
        link_only: Some(before.link_only.unwrap_or(false)),
        hide_rss_title: Some(before.hide_rss_title.unwrap_or(false)),
        combine_msg: Some(before.combine_msg.unwrap_or(true)),
    }
}

/// The callback address and shared secret of a push hub.
#[derive(Debug)]
pub struct Hub {
    pub callback: String,
    pub secret: String,
}

impl Default for Hub {
    fn default() -> (hub: Hub)
        ensures
            hub.callback@.len() == 0,
            hub.secret@.len() == 0,
    {
        Hub { callback: String::new(), secret: String::new() }
    }
}

impl Clone for Hub {
    fn clone(&self) -> (copy: Hub)
        ensures
            copy == *self,
    {
        Hub { callback: self.callback.clone(), secret: self.secret.clone() }
    }
}

/// A hasher for keys that are already well-spread 64-bit numbers: the
/// digest is the one number written. It takes a single write.
pub struct Size64Hasher {
    finished: bool,
    value: u64,
}

/// Two to the power of 64.
pub open spec fn two_pow_64() -> int {
    0x1_0000_0000_0000_0000
}

impl Size64Hasher {
    /// The digest so far: the number written, 0 before any write.
    pub closed spec fn value(&self) -> u64 {
        self.value
    }

    /// Whether the one write has been made.
    pub closed spec fn finished(&self) -> bool {
        self.finished
    }

    pub fn finish(&self) -> (digest: u64)
        ensures
            digest == self.value(),
    {
        self.value
    }

    pub fn write_u64(&mut self, i: u64)
        requires
            !old(self).finished(),
        ensures
            final(self).value() == i,
            final(self).finished(),
    {
        self.value = i;
        self.finished = true;
    }

    /// Writes `i` as the unsigned number with the same 64 bits.
    pub fn write_i64(&mut self, i: i64)
        requires
            !old(self).finished(),
        ensures
            final(self).value() == (if i >= 0 {
                i as int
            } else {
                i + two_pow_64()
            }),
            final(self).finished(),
    {
        let bits: u64 = i as u64;
        assert(i >= 0 ==> bits == i) by (bit_vector)
            requires
                bits == i as u64,
        ;
        assert(i < 0 ==> bits == i + 0x1_0000_0000_0000_0000) by (bit_vector)
            requires
                bits == i as u64,
        ;
        self.write_u64(bits);
    }
}

impl Default for Size64Hasher {
    fn default() -> (hasher: Size64Hasher)
        ensures
            hasher.value() == 0,
            !hasher.finished(),
    {
        Size64Hasher { finished: false, value: 0 }
    }
}

/// A feed as the store keeps it.
#[derive(Debug)]
pub struct Feed {
    pub link: String,
    pub title: String,
    /// Since when fetching has been failing, if it is.
    pub down_time: Option<Timestamp>,
    pub subscribers: HashSet<SubscriberId>,
    /// The refresh hint of the last fetch, in minutes.
    pub ttl: Option<u32>,
    /// The digests of the items seen lately, newest fetch first.
    pub hash_list: Vec<u64>,
    /// The settings of each subscriber; `None` only in a record written
    /// before settings existed.
    pub settings: Option<HashMap<SubscriberId, FeedSettings>>,
}

impl View for Feed {
    type V = FeedView;

    open spec fn view(&self) -> FeedView {
        FeedView {
            link: self.link@,
            title: self.title@,
            down_time: self.down_time,
            subscribers: self.subscribers@,
            ttl: self.ttl,
            hash_list: self.hash_list@,
            settings: match self.settings {
                Some(settings) => Some(settings@),
                None => None,
            },
        }
    }
}

impl Default for Feed {
    fn default() -> (feed: Feed)
        ensures
            feed@.link.len() == 0,
            feed@.title.len() == 0,
            feed@.down_time is None,
            feed@.subscribers == Set::<SubscriberId>::empty(),
            feed@.ttl is None,
            feed@.hash_list.len() == 0,
            feed@.settings is None,
    {
        Feed {
            link: String::new(),
            title: String::new(),
            down_time: None,
            subscribers: HashSet::new(),
            ttl: None,
            hash_list: Vec::new(),
            settings: None,
        }
    }
}

impl Clone for Feed {
    fn clone(&self) -> (copy: Feed)
        ensures
            copy@ == self@,
    {
        Feed {
            link: self.link.clone(),
            title: self.title.clone(),
            down_time: self.down_time,
            subscribers: clone_subscribers(&self.subscribers),
            ttl: self.ttl,
            hash_list: clone_hashes(&self.hash_list),
            settings: match &self.settings {
                Some(settings) => Some(settings.clone()),
                None => None,
            },
        }
    }
}

impl Feed {
    /// The feed at `rss_link` as first stored from the fetch `rss`: its
    /// history holds the digests of the fetched items, and nobody is
    /// subscribed yet.
    pub fn created(rss_link: &str, rss: &Rss) -> (feed: Feed)
        ensures
            feed@ == FeedView::created(rss_link@, rss@),
    {
        let feed = Feed {
            link: rss_link.to_owned(),
            title: rss.title.clone(),
            down_time: None,
            subscribers: HashSet::new(),
            ttl: rss.ttl,
            hash_list: hashes_of(&rss.items),
            settings: Some(HashMap::new()),
        };
        assert(feed@ =~= FeedView::created(rss_link@, rss@));
        feed
    }

    /// Takes the settings map out of the feed, leaving `None`.
    fn take_settings(&mut self) -> (settings: HashMap<SubscriberId, FeedSettings>)
        ensures
            settings@ == old(self)@.settings_map(),
            final(self)@ == (FeedView { settings: None, ..old(self)@ }),
    {
        let mut taken: Option<HashMap<SubscriberId, FeedSettings>> = None;
        std::mem::swap(&mut taken, &mut self.settings);
        match taken {
            Some(settings) => settings,
            None => HashMap::new(),
        }
    }

    /// Adds `subscriber`, with unset settings unless it has settings already.
    fn add_subscriber(&mut self, subscriber: SubscriberId)
        ensures
            final(self)@ == old(self)@.with_subscriber(subscriber),
    {
        let mut settings = self.take_settings();
        self.subscribers.insert(subscriber);
        if !settings.contains_key(&subscriber) {
            settings.insert(subscriber, FeedSettings::default());
        }
        self.settings = Some(settings);
        assert(self@ =~= old(self)@.with_subscriber(subscriber));
    }

    /// Removes `subscriber` and its settings.
    fn remove_subscriber(&mut self, subscriber: SubscriberId)
        ensures
            final(self)@ == old(self)@.without_subscriber(subscriber),
    {
        let mut settings = self.take_settings();
        settings.remove(&subscriber);
        self.subscribers.remove(&subscriber);
        self.settings = Some(settings);
        assert(self@ =~= old(self)@.without_subscriber(subscriber));
    }

    /// Renames subscriber `from` to `to`, moving its settings along.
    fn renumber(&mut self, from: SubscriberId, to: SubscriberId)
        requires
            old(self)@.settings_map().contains_key(from),
        ensures
            final(self)@ == old(self)@.renumbered(from, to),
    {
        let mut settings = self.take_settings();
        self.subscribers.remove(&from);
        self.subscribers.insert(to);
        match settings.remove(&from) {
            Some(moved) => {
                settings.insert(to, moved);
            },
            None => unreached(),
        }
        self.settings = Some(settings);
        assert(self@ =~= old(self)@.renumbered(from, to));
    }

    /// Whether the feed can be stored as it is: it has a subscriber, and
    /// its settings, where it has any, are for exactly its subscribers.
    pub fn storable(&self) -> (ok: bool)
        ensures
            ok == record_ok(self@),
    {
        if self.subscribers.is_empty() {
            return false;
        }
        match &self.settings {
            None => true,
            Some(settings) => {
                let subscribers = subscriber_ids_of(&self.subscribers);
                let holders = setting_holders(settings);
                let covered = all_have_settings(&subscribers, settings);
                let exact = all_subscribed(&holders, &self.subscribers);
                proof {
                    if covered && exact {
                        assert forall|id: SubscriberId|
                            settings@.dom().contains(id) <==> self.subscribers@.contains(id) by {
                            if settings@.dom().contains(id) {
                                assert(holders@.to_set().contains(id));
                                let j = choose|j: int| 0 <= j < holders@.len() && holders@[j] == id;
                                assert(self.subscribers@.contains(holders[j]));
                            }
                            if self.subscribers@.contains(id) {
                                assert(subscribers@.to_set().contains(id));
                                let j = choose|j: int|
                                    0 <= j < subscribers@.len() && subscribers@[j] == id;
                                assert(settings@.contains_key(subscribers[j]));
                            }
                        }
                        assert(settings@.dom() =~= self.subscribers@);
                    }
                    if !covered {
                        let j = choose|j: int|
                            0 <= j < subscribers.len() && !settings@.contains_key(
                                #[trigger] subscribers[j],
                            );
                        assert(subscribers@.to_set().contains(subscribers@[j]));
                    }
                    if !exact {
                        let j = choose|j: int|
                            0 <= j < holders.len() && !self.subscribers@.contains(
                                #[trigger] holders[j],
                            );
                        assert(holders@.to_set().contains(holders@[j]));
                    }
                }
                covered && exact
            },
        }
    }

    /// Gives the feed settings for exactly its subscribers, as a feed is
    /// stored when it is read in: settings for others go; a subscriber
    /// without settings gets unset ones, or the resolved defaults where the
    /// feed had no settings at all.
    pub fn mend(&mut self)
        ensures
            final(self)@ == old(self)@.mended(),
    {
        let ghost before = self@;
        let ids = subscriber_ids_of(&self.subscribers);
        let mut settings: HashMap<SubscriberId, FeedSettings> = HashMap::new();
        let mut i: usize = 0;
        while i < ids.len()
            invariant
                i <= ids.len(),
                self@ == before,
                forall|id: SubscriberId|
                    settings@.contains_key(id) <==> exists|j: int| 0 <= j < i && ids[j] == id,
                forall|id: SubscriberId| #[trigger]
                    settings@.contains_key(id) ==> settings@[id] == before.settings_read_for(id),
            decreases ids.len() - i,
        {
            let read = match &self.settings {
                Some(stored) => match stored.get(&ids[i]) {
                    Some(kept) => *kept,
                    None => FeedSettings::default(),
                },
                None => get_combined_feed_settings(None),
            };
            settings.insert(ids[i], read);
            i += 1;
        }
        proof {
            assert forall|id: SubscriberId|
                settings@.contains_key(id) <==> self.subscribers@.contains(id) by {
                if self.subscribers@.contains(id) {
                    assert(ids@.to_set().contains(id));
                    let j = choose|j: int| 0 <= j < ids@.len() && ids@[j] == id;
                    assert(ids[j] == id);
                }
                if settings@.contains_key(id) {
                    let j = choose|j: int| 0 <= j < i && ids[j] == id;
                    assert(ids@.to_set().contains(ids@[j]));
                }
            }
            assert(settings@ =~= before.mended().settings_map());
        }
        self.settings = Some(settings);
        assert(self@ =~= before.mended());
    }
}

/// One change that an update found.
#[derive(Debug)]
pub enum FeedUpdate {
    /// The items that were not known before, in fetch order.
    Items(Vec<Item>),
    /// The feed's new title.
    Title(String),
}

impl View for FeedUpdate {
    type V = FeedUpdateView;

    open spec fn view(&self) -> FeedUpdateView {
        match self {
            FeedUpdate::Items(items) => FeedUpdateView::Items(item_views(items@)),
            FeedUpdate::Title(title) => FeedUpdateView::Title(title@),
        }
    }
}

/// The views of a sequence of feeds, in order.
pub open spec fn feed_views(feeds: Seq<Feed>) -> Seq<FeedView> {
    feeds.map_values(|feed: Feed| feed@)
}

/// The views of a sequence of updates, in order.
pub open spec fn update_views(updates: Seq<FeedUpdate>) -> Seq<FeedUpdateView> {
    updates.map_values(|update: FeedUpdate| update@)
}

/// The feed store. Its feeds and its subscriber index always agree: see
/// [`DatabaseView::wf`].
#[derive(Debug)]
pub struct Database {
    feeds: FeedTable,
    index: SubscriberIndex,
    unsaved: bool,
}

impl View for Database {
    type V = DatabaseView;

    closed spec fn view(&self) -> DatabaseView {
        DatabaseView { feeds: self.feeds@, subscribers: self.index@, unsaved: self.unsaved }
    }
}

impl Database {
    /// What holds of every store at all times: it is well formed.
    #[verifier::type_invariant]
    pub(crate) open spec fn inv(self) -> bool {
        self@.wf()
    }

    /// An empty store, with nothing to write out.
    pub fn create() -> (db: Database)
        ensures
            db@ == DatabaseView::empty(),
            db@.wf(),
    {
        let db = Database { feeds: FeedTable::new(), index: SubscriberIndex::new(), unsaved: false };
        assert(db@ =~= DatabaseView::empty());
        db
    }

    /// Takes the store apart and leaves an empty one in its place.
    fn split(&mut self) -> (parts: (FeedTable, SubscriberIndex, bool))
        ensures
            parts.0@ == old(self)@.feeds,
            parts.1@ == old(self)@.subscribers,
            parts.2 == old(self)@.unsaved,
    {
        let mut taken = Database::create();
        std::mem::swap(&mut taken, self);
        let Database { feeds, index, unsaved } = taken;
        (feeds, index, unsaved)
    }

    /// Whether there are changes that have not been written out.
    pub fn needs_save(&self) -> (unsaved: bool)
        ensures
            unsaved == self@.unsaved,
    {
        self.unsaved
    }

    /// Records that the store has been written out.
    pub fn mark_saved(&mut self)
        ensures
            final(self)@ == old(self)@.saved(),
            final(self)@.wf(),
    {
        proof {
            use_type_invariant(&*self);
        }
        let ghost before = self@;
        proof {
            let after = before.saved();
            assert forall|s: SubscriberId, f: FeedId|
                after.is_subscribed(s, f) <==> after.lists(f, s) by {
                assert(before.is_subscribed(s, f) <==> before.lists(f, s));
            }
        }
        self.unsaved = false;
    }

    /// Copies of the feeds with the identifiers `ids`, in that order.
    fn copies(&self, ids: &Vec<FeedId>) -> (feeds: Vec<Feed>)
        requires
            forall|i: int| 0 <= i < ids.len() ==> self@.feeds.contains_key(#[trigger] ids[i]),
        ensures
            feeds.len() == ids.len(),
            forall|i: int| 0 <= i < ids.len() ==> (#[trigger] feeds[i])@ == self@.feeds[ids[i]],
    {
        let mut feeds: Vec<Feed> = Vec::new();
        let mut i: usize = 0;
        while i < ids.len()
            invariant
                i <= ids.len(),
                feeds.len() == i,
                forall|j: int| 0 <= j < ids.len() ==> self@.feeds.contains_key(#[trigger] ids[j]),
                forall|j: int| 0 <= j < i ==> (#[trigger] feeds[j])@ == self@.feeds[ids[j]],
            decreases ids.len() - i,
        {
            assert(self@.feeds.contains_key(ids[i as int]));
            match self.feeds.get(ids[i]) {
                Some(feed) => feeds.push(feed.clone()),
                None => unreached(),
            }
            i += 1;
        }
        feeds
    }

    /// Every stored feed, each once, in no particular order.
    pub fn all_feeds(&self) -> (feeds: Vec<Feed>)
        ensures
            self@.enumerates(feed_views(feeds@), self@.feeds.dom()),
            feeds.len() == self@.feeds.dom().len(),
    {
        proof {
            use_type_invariant(self);
        }
        let ids = self.feeds.ids();
        assert forall|i: int| 0 <= i < ids.len() implies self@.feeds.contains_key(
            #[trigger] ids[i],
        ) by {
            assert(ids@.to_set().contains(ids@[i]));
        }
        let feeds = self.copies(&ids);
        proof {
            let listed = feed_views(feeds@);
            let keys = listed.map_values(|feed: FeedView| feed.feed_id());
            assert(keys =~= ids@);
        }
        feeds
    }

    /// Every subscriber that holds a feed, each once, in no particular order.
    pub fn all_subscribers(&self) -> (subscribers: Vec<SubscriberId>)
        ensures
            subscribers@.no_duplicates(),
            subscribers@.to_set() == self@.subscribers.dom(),
    {
        self.index.ids()
    }

    /// The feeds that `subscriber` holds, each once, in no particular
    /// order; `None` for a subscriber that holds none.
    pub fn subscribed_feeds(&self, subscriber: SubscriberId) -> (feeds: Option<Vec<Feed>>)
        ensures
            match feeds {
                Some(feeds) => self@.subscribers.contains_key(subscriber) && self@.enumerates(
                    feed_views(feeds@),
                    self@.subscribers[subscriber],
                ),
                None => !self@.subscribers.contains_key(subscriber),
            },
    {
        proof {
            use_type_invariant(self);
        }
        match self.index.get(subscriber) {
            Some(held) => {
                let ids = feed_ids_of(held);
                assert forall|i: int| 0 <= i < ids.len() implies self@.feeds.contains_key(
                    #[trigger] ids[i],
                ) by {
                    assert(ids@.to_set().contains(ids@[i]));
                    assert(self@.is_subscribed(subscriber, ids[i]));
                    assert(self@.lists(ids[i], subscriber));
                }
                let feeds = self.copies(&ids);
                proof {
                    let listed = feed_views(feeds@);
                    let keys = listed.map_values(|feed: FeedView| feed.feed_id());
                    assert(keys =~= ids@);
                }
                Some(feeds)
            },
            None => None,
        }
    }

    /// Whether `subscriber` holds the feed at `rss_link`.
    pub fn is_subscribed(&self, subscriber: SubscriberId, rss_link: &str) -> (subscribed: bool)
        ensures
            subscribed == self@.is_subscribed(subscriber, spec_gen_hash(rss_link@)),
    {
        let feed_id = gen_hash(rss_link);
        match self.index.get(subscriber) {
            Some(held) => held.contains(&feed_id),
            None => false,
        }
    }

    /// Subscribes `subscriber` to the feed at `rss_link`, fetched just now
    /// as `rss`. Returns `false`, and changes nothing, where the
    /// subscription exists already. A feed that was not stored is created
    /// from the fetch.
    pub fn subscribe(&mut self, subscriber: SubscriberId, rss_link: &str, rss: &Rss) -> (added:
        bool)
        ensures
            added == !old(self)@.is_subscribed(subscriber, spec_gen_hash(rss_link@)),
            final(self)@ == old(self)@.subscribe(subscriber, rss_link@, rss@),
            final(self)@.wf(),
    {
        proof {
            use_type_invariant(&*self);
        }
        if self.is_subscribed(subscriber, rss_link) {
            return false;
        }
        let ghost before = self@;
        let feed_id = gen_hash(rss_link);
        let (mut feeds, mut index, _) = self.split();
        index.add(subscriber, feed_id);
        let mut feed = match feeds.take(feed_id) {
            Some(feed) => feed,
            None => Feed::created(rss_link, rss),
        };
        feed.add_subscriber(subscriber);
        feeds.put(feed_id, feed);
        proof {
            let after = DatabaseView { feeds: feeds@, subscribers: index@, unsaved: true };
            assert(after =~= before.subscribe(subscriber, rss_link@, rss@));
            laws::lemma_subscribe_wf(before, subscriber, rss_link@, rss@);
        }
        *self = Database { feeds, index, unsaved: true };
        true
    }

    /// Ends the subscription of `subscriber` to the feed at `rss_link`.
    /// Returns the feed as it is once the subscriber has left it, or `None`,
    /// changing nothing, where there was no such subscription. A feed
    /// without subscribers leaves the store, and so does a subscriber
    /// without feeds.
    pub fn unsubscribe(&mut self, subscriber: SubscriberId, rss_link: &str) -> (left: Option<Feed>)
        ensures
            match left {
                Some(feed) => Some(feed@) == old(self)@.unsubscribed(subscriber, rss_link@),
                None => old(self)@.unsubscribed(subscriber, rss_link@) is None,
            },
            final(self)@ == old(self)@.unsubscribe(subscriber, rss_link@),
            final(self)@.wf(),
    {
        proof {
            use_type_invariant(&*self);
        }
        if !self.is_subscribed(subscriber, rss_link) {
            return None;
        }
        let ghost before = self@;
        let feed_id = gen_hash(rss_link);
        assert(before.lists(feed_id, subscriber));
        let (mut feeds, mut index, _) = self.split();
        let mut held = match index.take(subscriber) {
            Some(held) => held,
            None => unreached(),
        };
        held.remove(&feed_id);
        if !held.is_empty() {
            index.put(subscriber, held);
        }
        let mut feed = match feeds.take(feed_id) {
            Some(feed) => feed,
            None => unreached(),
        };
        feed.remove_subscriber(subscriber);
        let left = feed.clone();
        if !feed.subscribers.is_empty() {
            feeds.put(feed_id, feed);
        }
        proof {
            let after = DatabaseView { feeds: feeds@, subscribers: index@, unsaved: true };
            assert(after =~= before.unsubscribe(subscriber, rss_link@));
            laws::lemma_unsubscribe_wf(before, subscriber, rss_link@);
        }
        *self = Database { feeds, index, unsaved: true };
        Some(left)
    }

    /// Removes `subscriber` from every feed it holds. Returns whether the
    /// subscriber was known.
    pub fn delete_subscriber(&mut self, subscriber: SubscriberId) -> (known: bool)
        ensures
            known == old(self)@.subscribers.contains_key(subscriber),
            final(self)@ == old(self)@.delete_subscriber(subscriber),
            final(self)@.wf(),
    {
        proof {
            use_type_invariant(&*self);
        }
        if self.index.get(subscriber).is_none() {
            return false;
        }
        let ghost before = self@;
        let (mut feeds, mut index, _) = self.split();
        let held = match index.take(subscriber) {
            Some(held) => held,
            None => unreached(),
        };
        let ids = feed_ids_of(&held);
        let ghost mut done: Set<FeedId> = Set::empty();
        assert(feeds@ =~= before.without_subscriptions(subscriber, done).feeds);
        let mut i: usize = 0;
        while i < ids.len()
            invariant
                i <= ids.len(),
                before.wf(),
                before.subscribers.contains_key(subscriber),
                ids@.no_duplicates(),
                ids@.to_set() == before.subscribers[subscriber],
                forall|j: int| 0 <= j < i ==> done.contains(#[trigger] ids[j]),
                forall|j: int| i <= j < ids.len() ==> !done.contains(#[trigger] ids[j]),
                forall|feed: FeedId| done.contains(feed) ==> ids@.contains(feed),
                feeds@ == before.without_subscriptions(subscriber, done).feeds,
            decreases ids.len() - i,
        {
            let id = ids[i];
            proof {
                assert(ids@.to_set().contains(id));
                assert(before.is_subscribed(subscriber, id));
                assert(before.lists(id, subscriber));
            }
            let mut feed = match feeds.take(id) {
                Some(feed) => feed,
                None => unreached(),
            };
            feed.remove_subscriber(subscriber);
            if !feed.subscribers.is_empty() {
                feeds.put(id, feed);
            }
            proof {
                let grown = done.insert(id);
                assert(feeds@ =~= before.without_subscriptions(subscriber, grown).feeds);
                done = grown;
            }
            i += 1;
        }
        proof {
            assert(done =~= before.subscribers[subscriber]) by {
                assert forall|feed: FeedId| before.subscribers[subscriber].contains(
                    feed,
                ) implies done.contains(feed) by {
                    assert(ids@.to_set().contains(feed));
                    let j = choose|j: int| 0 <= j < ids@.len() && ids@[j] == feed;
                    assert(done.contains(ids[j]));
                }
            }
            let after = DatabaseView { feeds: feeds@, subscribers: index@, unsaved: true };
            assert(before.feeds_of(subscriber).difference(done).is_empty());
            assert(after =~= before.delete_subscriber(subscriber));
            laws::lemma_delete_subscriber_wf(before, subscriber);
        }
        *self = Database { feeds, index, unsaved: true };
        true
    }

    /// Renames subscriber `from` to `to` everywhere: in the index, and in
    /// the subscriber set and the settings of each feed that `from` held.
    /// Where `to` held feeds already it keeps them too. Returns `false`,
    /// changing nothing, where `from` is not known.
    pub fn update_subscriber(&mut self, from: SubscriberId, to: SubscriberId) -> (moved: bool)
        ensures
            moved == old(self)@.subscribers.contains_key(from),
            final(self)@ == old(self)@.migrate(from, to),
            final(self)@.wf(),
    {
        proof {
            use_type_invariant(&*self);
        }
        if self.index.get(from).is_none() {
            return false;
        }
        let ghost before = self@;
        let (mut feeds, mut index, _) = self.split();
        let held = match index.take(from) {
            Some(held) => held,
            None => unreached(),
        };
        let ids = feed_ids_of(&held);
        let ghost mut done: Set<FeedId> = Set::empty();
        assert(feeds@ =~= Map::new(
            |feed: FeedId| before.feeds.contains_key(feed),
            |feed: FeedId|
                if done.contains(feed) {
                    before.feeds[feed].renumbered(from, to)
                } else {
                    before.feeds[feed]
                },
        ));
        let mut i: usize = 0;
        while i < ids.len()
            invariant
                i <= ids.len(),
                before.wf(),
                before.subscribers.contains_key(from),
                ids@.no_duplicates(),
                ids@.to_set() == before.subscribers[from],
                forall|j: int| 0 <= j < i ==> done.contains(#[trigger] ids[j]),
                forall|j: int| i <= j < ids.len() ==> !done.contains(#[trigger] ids[j]),
                forall|feed: FeedId| done.contains(feed) ==> ids@.contains(feed),
                feeds@ == Map::new(
                    |feed: FeedId| before.feeds.contains_key(feed),
                    |feed: FeedId|
                        if done.contains(feed) {
                            before.feeds[feed].renumbered(from, to)
                        } else {
                            before.feeds[feed]
                        },
                ),
            decreases ids.len() - i,
        {
            let id = ids[i];
            proof {
                assert(ids@.to_set().contains(id));
                assert(before.is_subscribed(from, id));
                assert(before.lists(id, from));
            }
            let mut feed = match feeds.take(id) {
                Some(feed) => feed,
                None => unreached(),
            };
            feed.renumber(from, to);
            feeds.put(id, feed);
            proof {
                let grown = done.insert(id);
                assert(feeds@ =~= Map::new(
                    |feed: FeedId| before.feeds.contains_key(feed),
                    |feed: FeedId|
                        if grown.contains(feed) {
                            before.feeds[feed].renumbered(from, to)
                        } else {
                            before.feeds[feed]
                        },
                ));
                done = grown;
            }
            i += 1;
        }
        proof {
            assert(done =~= before.subscribers[from]) by {
                assert forall|feed: FeedId| before.subscribers[from].contains(
                    feed,
                ) implies done.contains(feed) by {
                    assert(ids@.to_set().contains(feed));
                    let j = choose|j: int| 0 <= j < ids@.len() && ids@[j] == feed;
                    assert(done.contains(ids[j]));
                }
            }
        }
        match index.take(to) {
            None => {
                assert(Set::<FeedId>::empty().union(held@) =~= held@);
                index.put(to, held);
            },
            Some(kept) => {
                let mut joined = kept;
                let mut j: usize = 0;
                while j < ids.len()
                    invariant
                        j <= ids.len(),
                        ids@.to_set() == held@,
                        forall|feed: FeedId|
                            joined@.contains(feed) <==> (kept@.contains(feed) || exists|k: int|
                                0 <= k < j && ids[k] == feed),
                    decreases ids.len() - j,
                {
                    joined.insert(ids[j]);
                    j += 1;
                }
                proof {
                    assert forall|feed: FeedId| joined@.contains(feed) <==> kept@.union(
                        held@,
                    ).contains(feed) by {
                        if held@.contains(feed) {
                            assert(ids@.to_set().contains(feed));
                            let k = choose|k: int| 0 <= k < ids@.len() && ids@[k] == feed;
                            assert(ids[k] == feed);
                        }
                        if exists|k: int| 0 <= k < j && ids[k] == feed {
                            let k = choose|k: int| 0 <= k < j && ids[k] == feed;
                            assert(ids@.to_set().contains(ids@[k]));
                        }
                    }
                    assert(joined@ =~= kept@.union(held@));
                }
                index.put(to, joined);
            },
        }
        proof {
            let after = DatabaseView { feeds: feeds@, subscribers: index@, unsaved: true };
            assert(after.subscribers =~= before.migrate(from, to).subscribers);
            assert(after.feeds =~= before.migrate(from, to).feeds);
            assert(after =~= before.migrate(from, to));
            laws::lemma_migrate_wf(before, from, to);
        }
        *self = Database { feeds, index, unsaved: true };
        true
    }

    /// The settings of `subscriber` for the feed at `rss_link`, every
    /// toggle resolved; `None` where the feed is not stored or does not
    /// list the subscriber. The store is left as it was.
    pub fn get_setting(&mut self, subscriber: SubscriberId, rss_link: &str) -> (settings: Option<
        FeedSettings,
    >)
        ensures
            settings == old(self)@.get_setting(subscriber, rss_link@),
            final(self)@ == old(self)@,
            final(self)@.wf(),
    {
        proof {
            use_type_invariant(&*self);
        }
        let feed_id = gen_hash(rss_link);
        match self.feeds.get(feed_id) {
            Some(feed) => match &feed.settings {
                Some(all) => match all.get(&subscriber) {
                    Some(stored) => Some(get_combined_feed_settings(Some(*stored))),
                    None => None,
                },
                None => None,
            },
            None => None,
        }
    }

    /// Overwrites the stored settings of `subscriber` for the feed at
    /// `rss_link` with `new_settings`, as they are. Returns `false`,
    /// changing nothing, where the feed is not stored or does not list the
    /// subscriber.
    pub fn update_setting(
        &mut self,
        subscriber: SubscriberId,
        rss_link: &str,
        new_settings: &FeedSettings,
    ) -> (written: bool)
        ensures
            written == (old(self)@.raw_setting(subscriber, rss_link@) is Some),
            final(self)@ == old(self)@.update_setting(subscriber, rss_link@, *new_settings),
            final(self)@.wf(),
    {
        proof {
            use_type_invariant(&*self);
        }
        let feed_id = gen_hash(rss_link);
        let listed = match self.feeds.get(feed_id) {
            Some(feed) => feed.subscribers.contains(&subscriber),
            None => false,
        };
        if !listed {
            return false;
        }
        let ghost before = self@;
        let (mut feeds, index, _) = self.split();
        let mut feed = match feeds.take(feed_id) {
            Some(feed) => feed,
            None => unreached(),
        };
        let mut settings = feed.take_settings();
        settings.insert(subscriber, *new_settings);
        feed.settings = Some(settings);
        feeds.put(feed_id, feed);
        proof {
            let after = DatabaseView { feeds: feeds@, subscribers: index@, unsaved: true };
            assert(after =~= before.update_setting(subscriber, rss_link@, *new_settings));
            laws::lemma_update_setting_wf(before, subscriber, rss_link@, *new_settings);
        }
        *self = Database { feeds, index, unsaved: true };
        true
    }

    /// Notes a failed fetch of the feed at `rss_link`, seen at `now`, and
    /// returns for how long the feed has been failing: zero at the first
    /// failure, which marks the feed as down since `now`; the time since
    /// that mark at later ones. Returns `None` where the feed is not stored.
    pub fn get_or_update_down_time(&mut self, rss_link: &str, now: Timestamp) -> (down: Option<
        Elapsed,
    >)
        ensures
            down == old(self)@.down_time(rss_link@, now),
            final(self)@ == old(self)@.mark_down(rss_link@, now),
            final(self)@.wf(),
    {
        proof {
            use_type_invariant(&*self);
        }
        let feed_id = gen_hash(rss_link);
        let since = match self.feeds.get(feed_id) {
            Some(feed) => feed.down_time,
            None => {
                return None;
            },
        };
        match since {
            Some(since) => Some(now.since(since)),
            None => {
                let ghost before = self@;
                let (mut feeds, index, unsaved) = self.split();
                let mut feed = match feeds.take(feed_id) {
                    Some(feed) => feed,
                    None => unreached(),
                };
                feed.down_time = Some(now);
                feeds.put(feed_id, feed);
                proof {
                    let after = DatabaseView { feeds: feeds@, subscribers: index@, unsaved };
                    assert(after =~= before.mark_down(rss_link@, now));
                    laws::lemma_down_time_wf(before, rss_link@, now);
                }
                *self = Database { feeds, index, unsaved };
                Some(Elapsed::zero())
            },
        }
    }

    /// Marks the feed at `rss_link` as no longer down. Returns whether the
    /// feed is stored.
    pub fn reset_down_time(&mut self, rss_link: &str) -> (stored: bool)
        ensures
            stored == old(self)@.feeds.contains_key(spec_gen_hash(rss_link@)),
            final(self)@ == old(self)@.reset_down_time(rss_link@),
            final(self)@.wf(),
    {
        proof {
            use_type_invariant(&*self);
        }
        let feed_id = gen_hash(rss_link);
        if self.feeds.get(feed_id).is_none() {
            return false;
        }
        let ghost before = self@;
        let (mut feeds, index, unsaved) = self.split();
        let mut feed = match feeds.take(feed_id) {
            Some(feed) => feed,
            None => unreached(),
        };
        feed.down_time = None;
        feeds.put(feed_id, feed);
        proof {
            let after = DatabaseView { feeds: feeds@, subscribers: index@, unsaved };
            assert(after =~= before.reset_down_time(rss_link@));
            laws::lemma_down_time_wf(before, rss_link@, Timestamp { nanos: 0 });
        }
        *self = Database { feeds, index, unsaved };
        true
    }

    /// Takes in a successful fetch `new_feed` of the feed at `rss_link` and
    /// returns what changed: the items whose digest the feed's history did
    /// not hold, if there are any, then the new title, if it differs. The
    /// history becomes the new digests and then as many of the old as fit
    /// under the cap of twice the fetched count; title and refresh hint
    /// are taken from the fetch, and the feed is no longer marked as down. The store has something to
    /// write out afterwards if any of this changed what was stored. Where
    /// the feed is not stored nothing changes and nothing is returned.
    pub fn update(&mut self, rss_link: &str, new_feed: Rss) -> (updates: Vec<FeedUpdate>)
        ensures
            update_views(updates@) == old(self)@.changes(rss_link@, new_feed@),
            final(self)@ == old(self)@.update(rss_link@, new_feed@),
            final(self)@.wf(),
            old(self)@.feeds.contains_key(spec_gen_hash(rss_link@)) ==> final(self)@.feeds[
                spec_gen_hash(rss_link@)].hash_list.len() <= 2 * new_feed@.items.len(),
    {
        proof {
            use_type_invariant(&*self);
            laws::law_history_bounded(
                self@.feeds[spec_gen_hash(rss_link@)].hash_list,
                new_feed@.items,
            );
        }
        let feed_id = gen_hash(rss_link);
        if self.feeds.get(feed_id).is_none() {
            return Vec::new();
        }
        let ghost before = self@;
        let ghost fetched_view = new_feed@;
        let (mut feeds, index, unsaved) = self.split();
        let mut feed = match feeds.take(feed_id) {
            Some(feed) => feed,
            None => unreached(),
        };
        let ghost stored = feed@;
        let Rss { title, link: _, ttl, items } = new_feed;
        let fetched = items.len();
        let (fresh, mut hashes) = pick_new(&feed.hash_list, items);
        let mut updates: Vec<FeedUpdate> = Vec::new();
        proof {
            item_views(items@).lemma_filter_len(
                |item: ItemView| !stored.hash_list.contains(spec_item_hash(item)),
            );
            assert(item_views(fresh@).len() == fresh.len());
        }
        let keep = kept_count(feed.hash_list.len(), fetched, fresh.len());
        let shortened = keep < feed.hash_list.len();
        assert(hashes@ =~= item_hashes(item_views(fresh@)) + stored.hash_list.take(0));
        let mut i: usize = 0;
        while i < keep
            invariant
                i <= keep <= feed.hash_list.len(),
                feed.hash_list@ == stored.hash_list,
                hashes@ == item_hashes(item_views(fresh@)) + stored.hash_list.take(i as int),
            decreases keep - i,
        {
            hashes.push(feed.hash_list[i]);
            i += 1;
            assert(hashes@ =~= item_hashes(item_views(fresh@)) + stored.hash_list.take(
                i as int,
            ));
        }
        feed.hash_list = hashes;
        if fresh.len() > 0 {
            updates.push(FeedUpdate::Items(fresh));
        }
        assert(feed.hash_list@ == merged_hashes(stored.hash_list, fetched_view.items));
        if !(title == feed.title) {
            updates.push(FeedUpdate::Title(title.clone()));
        }
        let same_hint = match (ttl, feed.ttl) {
            (Some(fetched), Some(kept)) => fetched == kept,
            (None, None) => true,
            _ => false,
        };
        let changed = updates.len() > 0 || !same_hint || feed.down_time.is_some() || shortened;
        feed.title = title;
        feed.ttl = ttl;
        feed.down_time = None;
        proof {
            assert(feed@ =~= stored.refreshed(fetched_view));
            assert(update_views(updates@) =~= stored.changes(fetched_view));
        }
        feeds.put(feed_id, feed);
        proof {
            let after = DatabaseView {
                feeds: feeds@,
                subscribers: index@,
                unsaved: unsaved || changed,
            };
            assert(after =~= before.update(rss_link@, fetched_view));
            laws::lemma_update_wf(before, rss_link@, fetched_view);
        }
        *self = Database { feeds, index, unsaved: unsaved || changed };
        updates
    }

    /// The subscriber index that is the inverse of the subscriber sets of
    /// `feeds`.
    fn index_for(feeds: &FeedTable) -> (index: SubscriberIndex)
        ensures
            index@ == index_of(feeds@),
    {
        let ids = feeds.ids();
        let mut index = SubscriberIndex::new();
        let ghost mut done: Set<FeedId> = Set::empty();
        assert(index@ =~= index_over(feeds@, done));
        let mut k: usize = 0;
        while k < ids.len()
            invariant
                k <= ids.len(),
                ids@.no_duplicates(),
                ids@.to_set() == feeds@.dom(),
                forall|j: int| 0 <= j < k ==> done.contains(#[trigger] ids[j]),
                forall|j: int| k <= j < ids.len() ==> !done.contains(#[trigger] ids[j]),
                forall|feed: FeedId| done.contains(feed) ==> ids@.contains(feed),
                index@ == index_over(feeds@, done),
            decreases ids.len() - k,
        {
            let id = ids[k];
            assert(ids@.to_set().contains(id));
            match feeds.get(id) {
                Some(feed) => {
                    let subscribers = subscriber_ids_of(&feed.subscribers);
                    let ghost before = index@;
                    index.add_all(&subscribers, id);
                    proof {
                        let grown = done.insert(id);
                        let wanted = index_over(feeds@, grown);
                        assert forall|s: SubscriberId| subscribers@.contains(s) <==> feed_lists(
                            feeds@,
                            id,
                            s,
                        ) by {
                            assert(subscribers@.to_set().contains(s) <==> subscribers@.contains(s));
                        }
                        assert forall|s: SubscriberId|
                            index@.contains_key(s) <==> wanted.contains_key(s) by {
                            if before.contains_key(s) {
                                let f = choose|f: FeedId|
                                    done.contains(f) && #[trigger] feed_lists(feeds@, f, s);
                                assert(grown.contains(f) && feed_lists(feeds@, f, s));
                            }
                            if subscribers@.contains(s) {
                                assert(grown.contains(id) && feed_lists(feeds@, id, s));
                            }
                            if wanted.contains_key(s) {
                                let f = choose|f: FeedId|
                                    grown.contains(f) && #[trigger] feed_lists(feeds@, f, s);
                                if f != id {
                                    assert(done.contains(f) && feed_lists(feeds@, f, s));
                                }
                            }
                        }
                        assert forall|s: SubscriberId| #[trigger]
                            index@.contains_key(s) implies index@[s] == wanted[s] by {
                            if !before.contains_key(s) {
                                assert forall|f: FeedId|
                                    !(done.contains(f) && feed_lists(feeds@, f, s)) by {}
                            }
                            assert(index@[s] =~= wanted[s]);
                        }
                        assert(index@ =~= wanted);
                        done = grown;
                    }
                },
                None => unreached(),
            }
            k += 1;
        }
        proof {
            assert(done =~= feeds@.dom()) by {
                assert forall|feed: FeedId| feeds@.dom().contains(feed) implies done.contains(
                    feed,
                ) by {
                    assert(ids@.to_set().contains(feed));
                    let j = choose|j: int| 0 <= j < ids@.len() && ids@[j] == feed;
                    assert(done.contains(ids[j]));
                }
                assert forall|feed: FeedId| done.contains(feed) implies feeds@.dom().contains(
                    feed,
                ) by {
                    assert(ids@.to_set().contains(feed));
                }
            }
        }
        index
    }

    /// The store that holds `records`, with nothing to write out. A record
    /// without subscribers is passed over; of records with the same
    /// identifier the last one stands; each feed is stored with settings
    /// for exactly its subscribers, a feed recorded without settings
    /// getting the resolved defaults for each of them. The subscriber
    /// index is rebuilt as the inverse of the feeds' subscriber sets.
    pub fn from_feeds(records: Vec<Feed>) -> (db: Database)
        ensures
            db@ == DatabaseView::from_records(feed_views(records@)),
            db@.wf(),
    {
        let ghost all = records@;
        let ghost views = feed_views(records@);
        let mut feeds = FeedTable::new();
        proof {
            assert(views.take(0) =~= Seq::<FeedView>::empty());
        }
        for record in it: records
            invariant
                it.seq() == all,
                views == feed_views(all),
                feeds@ == stored_records(views.take(it.index() as int)),
        {
            let ghost n = it.index() as int;
            proof {
                assert(views[n] == record@);
                assert(views.take(n + 1).drop_last() =~= views.take(n));
                assert(views.take(n + 1).last() == record@);
            }
            if !record.subscribers.is_empty() {
                let id = gen_hash(record.link.as_str());
                let mut feed = record;
                feed.mend();
                feeds.put(id, feed);
            }
        }
        proof {
            assert(views.take(views.len() as int) =~= views);
        }
        let index = Database::index_for(&feeds);
        proof {
            laws::lemma_from_records_wf(views);
            let loaded = DatabaseView { feeds: feeds@, subscribers: index@, unsaved: false };
            assert(loaded =~= DatabaseView::from_records(views));
        }
        Database { feeds, index, unsaved: false }
    }
}

} // verus!
