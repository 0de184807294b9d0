use std::collections::{HashMap, HashSet};

use rssbot::clock::{Elapsed, Timestamp};
use rssbot::data::{gen_hash, gen_item_hash, Database, Feed, FeedSettings, FeedUpdate};
use rssbot::history::{clone_hashes, hashes_of, is_known, kept_count, pick_new};
use rssbot::feed::{Item, Rss};
use rssbot::tables::{
    all_have_settings, all_subscribed, clone_subscribers, feed_ids_of, setting_holders,
    subscriber_ids_of, FeedTable, SubscriberIndex,
};

const URL: &str = "https://a/feed.xml";

fn id_item(id: &str) -> Item {
    Item { id: Some(id.to_owned()), title: None, link: None }
}

fn rss(title: &str, ids: &[&str]) -> Rss {
    Rss {
        title: title.to_owned(),
        link: "https://a/".to_owned(),
        ttl: None,
        items: ids.iter().map(|id| id_item(id)).collect(),
    }
}

fn hashes(ids: &[&str]) -> Vec<u64> {
    ids.iter().map(|id| gen_hash(id)).collect()
}

fn stored(db: &Database, url: &str) -> Option<Feed> {
    db.all_feeds().into_iter().find(|feed| feed.link == url)
}

fn set_of(ids: &[i64]) -> HashSet<i64> {
    ids.iter().copied().collect()
}

/// The index and the feeds name each other, no feed is without a
/// subscriber, no subscriber without a feed, and settings are for exactly
/// the subscribers.
fn assert_consistent(db: &Database) {
    let feeds = db.all_feeds();
    let mut seen = HashSet::new();
    for feed in &feeds {
        assert!(seen.insert(gen_hash(&feed.link)));
        assert!(!feed.subscribers.is_empty());
        let settings = feed.settings.as_ref().expect("settings");
        let holders: HashSet<i64> = settings.keys().copied().collect();
        assert_eq!(holders, feed.subscribers);
        for subscriber in &feed.subscribers {
            assert!(db.is_subscribed(*subscriber, &feed.link));
        }
    }
    let subscribers = db.all_subscribers();
    let distinct: HashSet<i64> = subscribers.iter().copied().collect();
    assert_eq!(distinct.len(), subscribers.len());
    for subscriber in subscribers {
        let held = db.subscribed_feeds(subscriber).expect("indexed");
        assert!(!held.is_empty());
        for feed in held {
            assert!(feed.subscribers.contains(&subscriber));
            assert!(feeds.iter().any(|f| f.link == feed.link));
        }
    }
}

#[test]
fn created_store_is_empty() {
    let db = Database::create();
    assert!(db.all_feeds().is_empty());
    assert!(db.all_subscribers().is_empty());
    assert!(!db.needs_save());
    assert!(db.subscribed_feeds(1).is_none());
    assert!(!db.is_subscribed(1, URL));
}

#[test]
fn subscribe_creates_the_feed_from_the_fetch() {
    let mut db = Database::create();
    let mut fetched = rss("A", &["1", "2"]);
    fetched.ttl = Some(30);
    assert!(db.subscribe(42, URL, &fetched));
    assert!(db.needs_save());
    assert!(db.is_subscribed(42, URL));
    let feed = stored(&db, URL).expect("stored");
    assert_eq!(feed.link, URL);
    assert_eq!(feed.title, "A");
    assert_eq!(feed.ttl, Some(30));
    assert_eq!(feed.down_time, None);
    assert_eq!(feed.subscribers, set_of(&[42]));
    assert_eq!(feed.hash_list, hashes(&["1", "2"]));
    let settings = feed.settings.expect("settings");
    assert_eq!(settings.len(), 1);
    assert_eq!(settings[&42], FeedSettings::default());
    assert_eq!(db.all_subscribers(), vec![42]);
    assert_consistent(&db);
}

#[test]
fn subscribe_twice_is_refused() {
    let mut db = Database::create();
    assert!(db.subscribe(42, URL, &rss("A", &["1"])));
    db.mark_saved();
    assert!(!db.subscribe(42, URL, &rss("B", &["9"])));
    assert!(!db.needs_save());
    let feed = stored(&db, URL).expect("stored");
    assert_eq!(feed.title, "A");
    assert_eq!(feed.hash_list, hashes(&["1"]));
    assert_eq!(db.all_feeds().len(), 1);
}

#[test]
fn second_subscriber_joins_the_stored_feed() {
    let mut db = Database::create();
    assert!(db.subscribe(1, URL, &rss("A", &["1"])));
    assert!(db.subscribe(2, URL, &rss("later title", &["7", "8"])));
    let feed = stored(&db, URL).expect("stored");
    assert_eq!(feed.title, "A");
    assert_eq!(feed.hash_list, hashes(&["1"]));
    assert_eq!(feed.subscribers, set_of(&[1, 2]));
    assert_eq!(db.all_feeds().len(), 1);
    assert_consistent(&db);
}

#[test]
fn unsubscribe_returns_the_feed_without_the_subscriber() {
    let mut db = Database::create();
    db.subscribe(1, URL, &rss("A", &["1"]));
    db.subscribe(2, URL, &rss("A", &["1"]));
    db.mark_saved();
    let left = db.unsubscribe(1, URL).expect("was subscribed");
    assert_eq!(left.link, URL);
    assert_eq!(left.subscribers, set_of(&[2]));
    assert!(!left.settings.expect("settings").contains_key(&1));
    assert!(db.needs_save());
    assert!(!db.is_subscribed(1, URL));
    assert!(db.is_subscribed(2, URL));
    assert!(db.subscribed_feeds(1).is_none());
    assert_eq!(stored(&db, URL).expect("stored").subscribers, set_of(&[2]));
    assert_consistent(&db);
}

#[test]
fn last_unsubscribe_removes_the_feed() {
    let mut db = Database::create();
    db.subscribe(1, URL, &rss("A", &["1"]));
    let left = db.unsubscribe(1, URL).expect("was subscribed");
    assert!(left.subscribers.is_empty());
    assert!(db.all_feeds().is_empty());
    assert!(db.all_subscribers().is_empty());
    assert_consistent(&db);
}

#[test]
fn unsubscribe_without_subscription_changes_nothing() {
    let mut db = Database::create();
    db.subscribe(1, URL, &rss("A", &["1"]));
    db.mark_saved();
    assert!(db.unsubscribe(2, URL).is_none());
    assert!(db.unsubscribe(1, "https://other/").is_none());
    assert!(!db.needs_save());
    assert!(db.is_subscribed(1, URL));
    assert_consistent(&db);
}

#[test]
fn index_and_feeds_stay_inverses() {
    let mut db = Database::create();
    let urls = ["https://a/", "https://b/", "https://c/"];
    let steps: [(bool, i64, usize); 14] = [
        (true, 1, 0),
        (true, 2, 0),
        (true, 1, 1),
        (false, 1, 0),
        (true, 3, 2),
        (true, 3, 0),
        (false, 2, 0),
        (false, 2, 1),
        (true, 2, 2),
        (false, 3, 0),
        (false, 3, 2),
        (false, 1, 1),
        (true, 1, 1),
        (false, 2, 2),
    ];
    for (subscribe, subscriber, url) in steps {
        if subscribe {
            db.subscribe(subscriber, urls[url], &rss("T", &["1"]));
        } else {
            db.unsubscribe(subscriber, urls[url]);
        }
        assert_consistent(&db);
    }
    assert_eq!(db.all_feeds().len(), 1);
    assert!(db.is_subscribed(1, urls[1]));
    assert_eq!(db.all_subscribers(), vec![1]);
}

#[test]
fn subscribed_feeds_lists_each_feed_once() {
    let mut db = Database::create();
    db.subscribe(1, "https://a/", &rss("A", &[]));
    db.subscribe(1, "https://b/", &rss("B", &[]));
    db.subscribe(2, "https://c/", &rss("C", &[]));
    let mut links: Vec<String> =
        db.subscribed_feeds(1).expect("indexed").into_iter().map(|f| f.link).collect();
    links.sort();
    assert_eq!(links, vec!["https://a/".to_owned(), "https://b/".to_owned()]);
    let mut all: Vec<String> = db.all_feeds().into_iter().map(|f| f.title).collect();
    all.sort();
    assert_eq!(all, vec!["A".to_owned(), "B".to_owned(), "C".to_owned()]);
    let mut subscribers = db.all_subscribers();
    subscribers.sort();
    assert_eq!(subscribers, vec![1, 2]);
}

#[test]
fn delete_subscriber_leaves_every_feed() {
    let mut db = Database::create();
    db.subscribe(1, "https://a/", &rss("A", &[]));
    db.subscribe(1, "https://b/", &rss("B", &[]));
    db.subscribe(2, "https://b/", &rss("B", &[]));
    db.mark_saved();
    assert!(db.delete_subscriber(1));
    assert!(db.needs_save());
    assert!(db.subscribed_feeds(1).is_none());
    assert!(stored(&db, "https://a/").is_none());
    let b = stored(&db, "https://b/").expect("stored");
    assert_eq!(b.subscribers, set_of(&[2]));
    assert!(!b.settings.expect("settings").contains_key(&1));
    assert_consistent(&db);
}

#[test]
fn delete_unknown_subscriber_changes_nothing() {
    let mut db = Database::create();
    db.subscribe(1, URL, &rss("A", &[]));
    db.mark_saved();
    assert!(!db.delete_subscriber(9));
    assert!(!db.needs_save());
    assert!(db.is_subscribed(1, URL));
}

#[test]
fn get_setting_resolves_defaults() {
    let mut db = Database::create();
    db.subscribe(1, URL, &rss("A", &[]));
    db.mark_saved();
    assert_eq!(
        db.get_setting(1, URL),
        Some(FeedSettings {
            disable_preview: Some(true),
            link_only: Some(false),
            hide_rss_title: Some(false),
            combine_msg: Some(true),
        })
    );
    assert!(!db.needs_save());
    let raw = stored(&db, URL).expect("stored").settings.expect("settings");
    assert_eq!(raw[&1], FeedSettings::default());
}

#[test]
fn get_setting_of_unknown_feed_or_subscriber_is_none() {
    let mut db = Database::create();
    db.subscribe(1, URL, &rss("A", &[]));
    assert_eq!(db.get_setting(1, "https://other/"), None);
    assert_eq!(db.get_setting(2, URL), None);
}

#[test]
fn update_setting_overwrites_raw_settings() {
    let mut db = Database::create();
    db.subscribe(1, URL, &rss("A", &[]));
    db.subscribe(2, URL, &rss("A", &[]));
    db.mark_saved();
    let chosen = FeedSettings {
        disable_preview: Some(false),
        link_only: None,
        hide_rss_title: Some(true),
        combine_msg: None,
    };
    assert!(db.update_setting(1, URL, &chosen));
    assert!(db.needs_save());
    let raw = stored(&db, URL).expect("stored").settings.expect("settings");
    assert_eq!(raw[&1], chosen);
    assert_eq!(raw[&2], FeedSettings::default());
    assert_eq!(
        db.get_setting(1, URL),
        Some(FeedSettings {
            disable_preview: Some(false),
            link_only: Some(false),
            hide_rss_title: Some(true),
            combine_msg: Some(true),
        })
    );
    assert_consistent(&db);
}

#[test]
fn update_setting_needs_a_subscription() {
    let mut db = Database::create();
    db.subscribe(1, URL, &rss("A", &[]));
    db.mark_saved();
    let chosen = FeedSettings { link_only: Some(true), ..FeedSettings::default() };
    assert!(!db.update_setting(1, "https://other/", &chosen));
    assert!(!db.update_setting(2, URL, &chosen));
    assert!(!db.needs_save());
    assert_consistent(&db);
}

#[test]
fn migrate_moves_index_subscribers_and_settings() {
    let mut db = Database::create();
    db.subscribe(7, "https://a/", &rss("A", &[]));
    db.subscribe(7, "https://b/", &rss("B", &[]));
    db.subscribe(8, "https://b/", &rss("B", &[]));
    let chosen = FeedSettings { link_only: Some(true), ..FeedSettings::default() };
    db.update_setting(7, "https://a/", &chosen);
    let before_a = db.get_setting(7, "https://a/");
    let before_b = db.get_setting(7, "https://b/");
    db.mark_saved();
    assert!(db.update_subscriber(7, 9001));
    assert!(db.needs_save());
    assert_eq!(db.get_setting(9001, "https://a/"), before_a);
    assert_eq!(db.get_setting(9001, "https://b/"), before_b);
    assert_eq!(db.get_setting(7, "https://a/"), None);
    assert_eq!(db.get_setting(7, "https://b/"), None);
    assert!(db.subscribed_feeds(7).is_none());
    assert!(!db.is_subscribed(7, "https://a/"));
    assert!(db.is_subscribed(9001, "https://a/"));
    assert!(db.is_subscribed(9001, "https://b/"));
    for feed in db.all_feeds() {
        assert!(!feed.subscribers.contains(&7));
        assert!(!feed.settings.expect("settings").contains_key(&7));
    }
    let raw = stored(&db, "https://a/").expect("stored").settings.expect("settings");
    assert_eq!(raw[&9001], chosen);
    assert_eq!(stored(&db, "https://b/").expect("stored").subscribers, set_of(&[8, 9001]));
    assert_consistent(&db);
}

#[test]
fn migrate_of_unknown_subscriber_is_refused() {
    let mut db = Database::create();
    db.subscribe(1, URL, &rss("A", &[]));
    db.mark_saved();
    assert!(!db.update_subscriber(7, 9001));
    assert!(!db.needs_save());
    assert!(db.is_subscribed(1, URL));
    assert!(db.subscribed_feeds(9001).is_none());
}

#[test]
fn migrate_onto_known_subscriber_joins_their_feeds() {
    let mut db = Database::create();
    db.subscribe(1, "https://a/", &rss("A", &[]));
    db.subscribe(1, "https://b/", &rss("B", &[]));
    db.subscribe(2, "https://b/", &rss("B", &[]));
    db.subscribe(2, "https://c/", &rss("C", &[]));
    let of_one = FeedSettings { link_only: Some(true), ..FeedSettings::default() };
    let of_two = FeedSettings { hide_rss_title: Some(true), ..FeedSettings::default() };
    db.update_setting(1, "https://b/", &of_one);
    db.update_setting(2, "https://b/", &of_two);
    db.update_setting(2, "https://c/", &of_two);
    assert!(db.update_subscriber(1, 2));
    let mut links: Vec<String> =
        db.subscribed_feeds(2).expect("indexed").into_iter().map(|f| f.link).collect();
    links.sort();
    assert_eq!(
        links,
        vec!["https://a/".to_owned(), "https://b/".to_owned(), "https://c/".to_owned()]
    );
    let b = stored(&db, "https://b/").expect("stored").settings.expect("settings");
    assert_eq!(b[&2], of_one);
    let c = stored(&db, "https://c/").expect("stored").settings.expect("settings");
    assert_eq!(c[&2], of_two);
    assert!(db.subscribed_feeds(1).is_none());
    assert_consistent(&db);
}

#[test]
fn migrate_onto_itself_keeps_everything() {
    let mut db = Database::create();
    db.subscribe(1, URL, &rss("A", &[]));
    let chosen = FeedSettings { link_only: Some(true), ..FeedSettings::default() };
    db.update_setting(1, URL, &chosen);
    assert!(db.update_subscriber(1, 1));
    assert!(db.is_subscribed(1, URL));
    let raw = stored(&db, URL).expect("stored").settings.expect("settings");
    assert_eq!(raw[&1], chosen);
    assert_consistent(&db);
}

#[test]
fn down_time_is_stamped_once_and_then_measured() {
    let mut db = Database::create();
    db.subscribe(1, URL, &rss("A", &[]));
    db.mark_saved();
    let first = Timestamp::from_secs(1_000);
    assert_eq!(db.get_or_update_down_time(URL, first), Some(Elapsed::zero()));
    assert_eq!(stored(&db, URL).expect("stored").down_time, Some(first));
    let later = Timestamp { nanos: 1_090 * 1_000_000_000 + 500_000_000 };
    let down = db.get_or_update_down_time(URL, later).expect("stored");
    assert_eq!(down, Elapsed { nanos: 90_500_000_000 });
    assert_eq!(down.as_secs(), 90);
    assert_eq!(stored(&db, URL).expect("stored").down_time, Some(first));
    assert!(!db.needs_save());
}

#[test]
fn down_time_before_the_stamp_counts_as_zero() {
    let mut db = Database::create();
    db.subscribe(1, URL, &rss("A", &[]));
    db.get_or_update_down_time(URL, Timestamp::from_secs(1_000));
    assert_eq!(
        db.get_or_update_down_time(URL, Timestamp::from_secs(900)),
        Some(Elapsed::zero())
    );
}

#[test]
fn down_time_of_unknown_feed_is_none() {
    let mut db = Database::create();
    assert_eq!(db.get_or_update_down_time(URL, Timestamp::from_secs(5)), None);
    assert!(!db.reset_down_time(URL));
}

#[test]
fn reset_down_time_clears_the_stamp() {
    let mut db = Database::create();
    db.subscribe(1, URL, &rss("A", &[]));
    db.get_or_update_down_time(URL, Timestamp::from_secs(1_000));
    assert!(db.reset_down_time(URL));
    assert_eq!(stored(&db, URL).expect("stored").down_time, None);
    assert_eq!(
        db.get_or_update_down_time(URL, Timestamp::from_secs(2_000)),
        Some(Elapsed::zero())
    );
}

#[test]
fn update_reports_only_the_new_item() {
    let mut db = Database::create();
    assert!(db.subscribe(42, URL, &rss("A", &["1", "2"])));
    assert_eq!(stored(&db, URL).expect("stored").hash_list.len(), 2);
    let updates = db.update(URL, rss("A", &["1", "2", "3"]));
    assert_eq!(updates.len(), 1);
    match &updates[0] {
        FeedUpdate::Items(items) => {
            assert_eq!(items.len(), 1);
            assert_eq!(items[0].id.as_deref(), Some("3"));
        }
        FeedUpdate::Title(_) => panic!("no title change"),
    }
    let feed = stored(&db, URL).expect("stored");
    assert_eq!(feed.hash_list, hashes(&["3", "1", "2"]));
    assert!(feed.hash_list.len() <= 6);
}

#[test]
fn update_twice_reports_nothing_the_second_time() {
    let mut db = Database::create();
    db.subscribe(42, URL, &rss("A", &["1", "2"]));
    let first = db.update(URL, rss("B", &["2", "3", "4"]));
    assert_eq!(first.len(), 2);
    let before = stored(&db, URL).expect("stored");
    db.mark_saved();
    let second = db.update(URL, rss("B", &["2", "3", "4"]));
    assert!(second.is_empty());
    assert!(!db.needs_save());
    let after = stored(&db, URL).expect("stored");
    assert_eq!(after.hash_list, before.hash_list);
    assert_eq!(after.title, "B");
}

#[test]
fn update_of_a_shrunken_feed_can_forget_a_seen_item() {
    let mut db = Database::create();
    db.subscribe(42, URL, &rss("A", &["1", "2", "3", "4", "5", "6"]));
    let first = db.update(URL, rss("A", &["new", "6"]));
    assert_eq!(first.len(), 1);
    assert_eq!(stored(&db, URL).expect("stored").hash_list, hashes(&["new", "1", "2", "3"]));
    let second = db.update(URL, rss("A", &["new", "6"]));
    assert_eq!(second.len(), 1);
    match &second[0] {
        FeedUpdate::Items(items) => {
            assert_eq!(items.len(), 1);
            assert_eq!(items[0].id.as_deref(), Some("6"));
        }
        FeedUpdate::Title(_) => panic!("no title change"),
    }
}

#[test]
fn update_reports_items_then_title() {
    let mut db = Database::create();
    db.subscribe(42, URL, &rss("A", &["1"]));
    db.mark_saved();
    let mut fetched = rss("B", &["2", "1", "3"]);
    fetched.ttl = Some(15);
    let updates = db.update(URL, fetched);
    assert_eq!(updates.len(), 2);
    match &updates[0] {
        FeedUpdate::Items(items) => {
            let ids: Vec<&str> = items.iter().map(|i| i.id.as_deref().expect("id")).collect();
            assert_eq!(ids, vec!["2", "3"]);
        }
        FeedUpdate::Title(_) => panic!("items come first"),
    }
    match &updates[1] {
        FeedUpdate::Title(title) => assert_eq!(title, "B"),
        FeedUpdate::Items(_) => panic!("title comes second"),
    }
    let feed = stored(&db, URL).expect("stored");
    assert_eq!(feed.title, "B");
    assert_eq!(feed.ttl, Some(15));
    assert_eq!(feed.hash_list, hashes(&["2", "3", "1"]));
    assert!(db.needs_save());
}

#[test]
fn update_with_title_change_only() {
    let mut db = Database::create();
    db.subscribe(42, URL, &rss("A", &["1"]));
    db.mark_saved();
    let updates = db.update(URL, rss("B", &["1"]));
    assert_eq!(updates.len(), 1);
    assert!(matches!(&updates[0], FeedUpdate::Title(title) if title == "B"));
    assert_eq!(stored(&db, URL).expect("stored").hash_list, hashes(&["1"]));
    assert!(db.needs_save());
}

#[test]
fn update_with_a_new_refresh_hint_only() {
    let mut db = Database::create();
    db.subscribe(42, URL, &rss("A", &["1"]));
    db.mark_saved();
    let mut fetched = rss("A", &["1"]);
    fetched.ttl = Some(5);
    assert!(db.update(URL, fetched).is_empty());
    assert_eq!(stored(&db, URL).expect("stored").ttl, Some(5));
    assert!(db.needs_save());
    db.mark_saved();
    let mut again = rss("A", &["1"]);
    again.ttl = Some(5);
    assert!(db.update(URL, again).is_empty());
    assert!(!db.needs_save());
    assert!(db.update(URL, rss("A", &["1"])).is_empty());
    assert_eq!(stored(&db, URL).expect("stored").ttl, None);
    assert!(db.needs_save());
}

#[test]
fn update_ends_a_down_time() {
    let mut db = Database::create();
    db.subscribe(42, URL, &rss("A", &["1"]));
    db.mark_saved();
    db.get_or_update_down_time(URL, Timestamp::from_secs(10));
    assert!(!db.needs_save());
    assert!(db.update(URL, rss("A", &["1"])).is_empty());
    assert_eq!(stored(&db, URL).expect("stored").down_time, None);
    assert!(db.needs_save());
}

#[test]
fn update_that_changes_nothing_leaves_nothing_to_write() {
    let mut db = Database::create();
    db.subscribe(42, URL, &rss("A", &["1"]));
    db.mark_saved();
    assert!(db.update(URL, rss("A", &["1"])).is_empty());
    assert!(!db.needs_save());
}

#[test]
fn update_of_unknown_feed_does_nothing() {
    let mut db = Database::create();
    db.subscribe(42, URL, &rss("A", &["1"]));
    db.mark_saved();
    assert!(db.update("https://other/", rss("B", &["2"])).is_empty());
    assert!(!db.needs_save());
    assert_eq!(db.all_feeds().len(), 1);
}

#[test]
fn update_caps_the_history_at_twice_the_fetch() {
    let mut db = Database::create();
    db.subscribe(42, URL, &rss("A", &["1", "2", "3", "4", "5"]));
    db.update(URL, rss("A", &["a", "b", "5"]));
    let feed = stored(&db, URL).expect("stored");
    assert_eq!(feed.hash_list, hashes(&["a", "b", "1", "2", "3", "4"]));
    assert_eq!(feed.hash_list.len(), 6);
    db.update(URL, rss("A", &["c"]));
    assert_eq!(stored(&db, URL).expect("stored").hash_list, hashes(&["c", "a"]));
}

#[test]
fn update_reports_repeated_new_items_each_time() {
    let mut db = Database::create();
    db.subscribe(42, URL, &rss("A", &["1"]));
    let updates = db.update(URL, rss("A", &["x", "x"]));
    match &updates[0] {
        FeedUpdate::Items(items) => assert_eq!(items.len(), 2),
        FeedUpdate::Title(_) => panic!("items expected"),
    }
    assert_eq!(stored(&db, URL).expect("stored").hash_list, hashes(&["x", "x", "1"]));
}

#[test]
fn kept_count_follows_the_cap() {
    assert_eq!(kept_count(2, 3, 1), 2);
    assert_eq!(kept_count(5, 3, 2), 4);
    assert_eq!(kept_count(10, 2, 1), 3);
    assert_eq!(kept_count(0, 4, 4), 0);
    assert_eq!(kept_count(7, 4, 4), 4);
    assert_eq!(kept_count(usize::MAX, usize::MAX, 1), usize::MAX);
}

#[test]
fn is_known_searches_the_history() {
    let history = vec![3u64, 5, 8];
    assert!(is_known(&history, 5));
    assert!(is_known(&history, 8));
    assert!(!is_known(&history, 4));
    assert!(!is_known(&Vec::new(), 0));
}

#[test]
fn pick_new_keeps_fetch_order() {
    let known = hashes(&["2"]);
    let items = vec![id_item("3"), id_item("2"), id_item("1")];
    let (fresh, digests) = pick_new(&known, items);
    let ids: Vec<&str> = fresh.iter().map(|i| i.id.as_deref().expect("id")).collect();
    assert_eq!(ids, vec!["3", "1"]);
    assert_eq!(digests, hashes(&["3", "1"]));
    assert_eq!(digests[0], gen_item_hash(&fresh[0]));
}

fn record(link: &str, subscribers: &[i64], settings: Option<&[i64]>) -> Feed {
    Feed {
        link: link.to_owned(),
        title: format!("title of {}", link),
        down_time: None,
        subscribers: set_of(subscribers),
        ttl: Some(10),
        hash_list: vec![1, 2, 3],
        settings: settings.map(|ids| {
            let mut map = HashMap::new();
            for id in ids {
                map.insert(*id, FeedSettings { link_only: Some(true), ..FeedSettings::default() });
            }
            map
        }),
    }
}

#[test]
fn from_feeds_rebuilds_the_index() {
    let records = vec![
        record("https://a/", &[1, 2], Some(&[1, 2])),
        record("https://b/", &[2], Some(&[2])),
    ];
    let db = Database::from_feeds(records);
    assert!(!db.needs_save());
    assert!(db.is_subscribed(1, "https://a/"));
    assert!(db.is_subscribed(2, "https://a/"));
    assert!(db.is_subscribed(2, "https://b/"));
    assert!(!db.is_subscribed(1, "https://b/"));
    assert_eq!(db.subscribed_feeds(2).expect("indexed").len(), 2);
    let a = stored(&db, "https://a/").expect("stored");
    assert_eq!(a.hash_list, vec![1, 2, 3]);
    assert_eq!(a.ttl, Some(10));
    let kept = FeedSettings { link_only: Some(true), ..FeedSettings::default() };
    assert_eq!(a.settings.expect("settings")[&1], kept);
    assert_consistent(&db);
}

#[test]
fn from_feeds_gives_records_without_settings_the_defaults() {
    let db = Database::from_feeds(vec![record(URL, &[1, 2], None)]);
    let settings = stored(&db, URL).expect("stored").settings.expect("settings");
    let resolved = FeedSettings {
        disable_preview: Some(true),
        link_only: Some(false),
        hide_rss_title: Some(false),
        combine_msg: Some(true),
    };
    assert_eq!(settings.len(), 2);
    assert_eq!(settings[&1], resolved);
    assert_eq!(settings[&2], resolved);
    assert_consistent(&db);
}

#[test]
fn from_feeds_of_nothing_is_the_empty_store() {
    let db = Database::from_feeds(Vec::new());
    assert!(db.all_feeds().is_empty());
    assert!(db.all_subscribers().is_empty());
}

#[test]
fn from_feeds_passes_over_a_feed_without_subscribers() {
    let records = vec![
        record("https://a/", &[], Some(&[])),
        record("https://b/", &[1], Some(&[1])),
        record("https://c/", &[], None),
    ];
    let db = Database::from_feeds(records);
    assert_eq!(db.all_feeds().len(), 1);
    assert!(db.is_subscribed(1, "https://b/"));
    assert_eq!(db.all_subscribers(), vec![1]);
    assert_consistent(&db);
}

#[test]
fn from_feeds_mends_settings_for_others() {
    let kept = FeedSettings { link_only: Some(true), ..FeedSettings::default() };
    let db = Database::from_feeds(vec![record(URL, &[1], Some(&[1, 2]))]);
    let settings = stored(&db, URL).expect("stored").settings.expect("settings");
    assert_eq!(settings.len(), 1);
    assert_eq!(settings[&1], kept);
    assert_consistent(&db);

    let db = Database::from_feeds(vec![record(URL, &[1, 2], Some(&[1]))]);
    let settings = stored(&db, URL).expect("stored").settings.expect("settings");
    assert_eq!(settings.len(), 2);
    assert_eq!(settings[&1], kept);
    assert_eq!(settings[&2], FeedSettings::default());
    assert_consistent(&db);

    let db = Database::from_feeds(vec![record(URL, &[1], Some(&[2]))]);
    let settings = stored(&db, URL).expect("stored").settings.expect("settings");
    assert_eq!(settings.len(), 1);
    assert_eq!(settings[&1], FeedSettings::default());
    assert_consistent(&db);
}

#[test]
fn from_feeds_keeps_the_last_of_a_feed_recorded_twice() {
    let mut first = record(URL, &[1], Some(&[1]));
    first.title = "first".to_owned();
    let mut last = record(URL, &[2], Some(&[2]));
    last.title = "last".to_owned();
    let records = vec![first, record("https://b/", &[1], Some(&[1])), last];
    let db = Database::from_feeds(records);
    assert_eq!(db.all_feeds().len(), 2);
    let feed = stored(&db, URL).expect("stored");
    assert_eq!(feed.title, "last");
    assert_eq!(feed.subscribers, set_of(&[2]));
    assert!(!db.is_subscribed(1, URL));
    assert!(db.is_subscribed(2, URL));
    assert!(db.is_subscribed(1, "https://b/"));
    assert_consistent(&db);
}

#[test]
fn from_feeds_keeps_an_earlier_feed_over_a_later_one_without_subscribers() {
    let records = vec![record(URL, &[1], Some(&[1])), record(URL, &[], None)];
    let db = Database::from_feeds(records);
    assert!(db.is_subscribed(1, URL));
    assert_consistent(&db);
}

#[test]
fn saved_store_loads_back() {
    let mut db = Database::create();
    db.subscribe(1, "https://a/", &rss("A", &["1"]));
    db.subscribe(2, "https://a/", &rss("A", &["1"]));
    db.subscribe(2, "https://b/", &rss("B", &["2"]));
    let chosen = FeedSettings { hide_rss_title: Some(true), ..FeedSettings::default() };
    db.update_setting(2, "https://b/", &chosen);
    let records = db.all_feeds();
    db.mark_saved();
    assert!(!db.needs_save());
    let loaded = Database::from_feeds(records);
    assert!(loaded.is_subscribed(1, "https://a/"));
    assert!(loaded.is_subscribed(2, "https://b/"));
    assert_eq!(loaded.all_feeds().len(), 2);
    let b = stored(&loaded, "https://b/").expect("stored").settings.expect("settings");
    assert_eq!(b[&2], chosen);
    let a = stored(&loaded, "https://a/").expect("stored").settings.expect("settings");
    assert_eq!(a[&1], FeedSettings::default());
    assert_consistent(&loaded);
}

#[test]
fn mended_feed_has_settings_for_its_subscribers() {
    let mut feed = record(URL, &[1, 2], Some(&[2, 3]));
    assert!(!feed.storable());
    feed.mend();
    assert!(feed.storable());
    let settings = feed.settings.expect("settings");
    assert_eq!(settings.len(), 2);
    assert_eq!(settings[&1], FeedSettings::default());
    assert_eq!(settings[&2], FeedSettings { link_only: Some(true), ..FeedSettings::default() });
    let sound = record(URL, &[1], Some(&[1]));
    assert!(sound.storable());
    assert!(record(URL, &[1], None).storable());
    assert!(!record(URL, &[], None).storable());
}

#[test]
fn feed_created_from_a_fetch() {
    let mut fetched = rss("A", &["1", "2"]);
    fetched.items.push(Item { id: None, title: Some("t".to_owned()), link: Some("l".to_owned()) });
    let feed = Feed::created(URL, &fetched);
    assert_eq!(feed.link, URL);
    assert_eq!(feed.title, "A");
    assert!(feed.subscribers.is_empty());
    assert_eq!(feed.settings.expect("settings").len(), 0);
    assert_eq!(feed.hash_list, vec![gen_hash("1"), gen_hash("2"), gen_hash("tl")]);
    assert!(!Feed::created(URL, &fetched).storable());
}

#[test]
fn default_feed_is_blank() {
    let feed = Feed::default();
    assert_eq!(feed.link, "");
    assert_eq!(feed.title, "");
    assert_eq!(feed.down_time, None);
    assert!(feed.subscribers.is_empty());
    assert_eq!(feed.ttl, None);
    assert!(feed.hash_list.is_empty());
    assert!(feed.settings.is_none());
}

#[test]
fn cloned_feed_holds_the_same() {
    let feed = record(URL, &[1, 2], Some(&[1, 2]));
    let copy = feed.clone();
    assert_eq!(copy.link, feed.link);
    assert_eq!(copy.title, feed.title);
    assert_eq!(copy.subscribers, feed.subscribers);
    assert_eq!(copy.ttl, feed.ttl);
    assert_eq!(copy.hash_list, feed.hash_list);
    assert_eq!(copy.settings, feed.settings);
}

#[test]
fn sets_are_listed_without_repeats() {
    let feeds: HashSet<u64> = [3u64, 1, 2].into_iter().collect();
    let mut listed = feed_ids_of(&feeds);
    listed.sort();
    assert_eq!(listed, vec![1, 2, 3]);
    let mut subscribers = subscriber_ids_of(&set_of(&[-1, 5]));
    subscribers.sort();
    assert_eq!(subscribers, vec![-1, 5]);
}

#[test]
fn feed_table_stores_by_identifier() {
    let mut table = FeedTable::new();
    assert!(table.get(1).is_none());
    table.put(1, record("https://a/", &[1], None));
    table.put(2, record("https://b/", &[1], None));
    table.put(1, record("https://c/", &[1], None));
    assert_eq!(table.get(1).expect("stored").link, "https://c/");
    let mut ids = table.ids();
    ids.sort();
    assert_eq!(ids, vec![1, 2]);
    assert_eq!(table.take(2).expect("stored").link, "https://b/");
    assert!(table.take(2).is_none());
    assert_eq!(table.ids(), vec![1]);
}

#[test]
fn subscriber_index_collects_feeds() {
    let mut index = SubscriberIndex::new();
    index.add(7, 1);
    index.add(7, 2);
    index.add(7, 1);
    index.add(8, 1);
    let held: HashSet<u64> = index.get(7).expect("indexed").clone();
    assert_eq!(held, [1u64, 2].into_iter().collect());
    let mut ids = index.ids();
    ids.sort();
    assert_eq!(ids, vec![7, 8]);
    assert_eq!(index.take(8).expect("indexed").len(), 1);
    assert!(index.get(8).is_none());
    index.put(9, HashSet::new());
    assert!(index.get(9).expect("indexed").is_empty());
    index.add_all(&vec![7, 10, 7], 5);
    assert_eq!(index.get(7).expect("indexed").clone(), [1u64, 2, 5].into_iter().collect());
    assert_eq!(index.get(10).expect("indexed").clone(), [5u64].into_iter().collect());
}

#[test]
fn history_helpers_copy_and_hash() {
    let items = vec![id_item("1"), id_item("2")];
    assert_eq!(hashes_of(&items), hashes(&["1", "2"]));
    assert!(hashes_of(&Vec::new()).is_empty());
    let history = vec![9u64, 8, 7];
    assert_eq!(clone_hashes(&history), history);
}

#[test]
fn settings_and_subscribers_are_held_against_each_other() {
    let subscribers = set_of(&[1, 2]);
    assert_eq!(clone_subscribers(&subscribers), subscribers);
    let mut settings = HashMap::new();
    settings.insert(1i64, FeedSettings::default());
    let mut holders = setting_holders(&settings);
    holders.sort();
    assert_eq!(holders, vec![1]);
    assert!(all_have_settings(&vec![1], &settings));
    assert!(!all_have_settings(&vec![1, 2], &settings));
    assert!(all_have_settings(&Vec::new(), &settings));
    assert!(all_subscribed(&vec![2, 1], &subscribers));
    assert!(!all_subscribed(&vec![3], &subscribers));
}

#[test]
fn history_is_cut_when_nothing_is_new() {
    let mut db = Database::create();
    db.subscribe(42, URL, &rss("A", &["1", "2", "3", "4", "5", "6"]));
    db.mark_saved();
    assert!(db.update(URL, rss("A", &["6"])).is_empty());
    assert_eq!(stored(&db, URL).expect("stored").hash_list, hashes(&["1", "2"]));
    assert!(db.needs_save());
}

#[test]
fn history_of_three_is_cut_to_two_by_a_fetch_of_one() {
    let mut db = Database::create();
    db.subscribe(42, URL, &rss("A", &["1", "2", "3"]));
    assert!(db.update(URL, rss("A", &["3"])).is_empty());
    assert_eq!(stored(&db, URL).expect("stored").hash_list, hashes(&["1", "2"]));
}

#[test]
fn history_at_the_cap_stays_whole() {
    let mut db = Database::create();
    db.subscribe(42, URL, &rss("A", &["1", "2", "3", "4"]));
    db.mark_saved();
    assert!(db.update(URL, rss("A", &["4", "3"])).is_empty());
    assert_eq!(stored(&db, URL).expect("stored").hash_list, hashes(&["1", "2", "3", "4"]));
    assert!(!db.needs_save());
}

#[test]
fn empty_fetch_empties_the_history() {
    let mut db = Database::create();
    db.subscribe(42, URL, &rss("A", &["1", "2"]));
    assert!(db.update(URL, rss("A", &[])).is_empty());
    assert!(stored(&db, URL).expect("stored").hash_list.is_empty());
    let updates = db.update(URL, rss("A", &["1"]));
    assert_eq!(updates.len(), 1);
}
