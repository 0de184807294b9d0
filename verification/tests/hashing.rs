use std::collections::hash_map::DefaultHasher;
use std::hash::{Hash, Hasher};

use rssbot::data::{
    gen_hash, gen_item_hash, get_combined_feed_settings, FeedSettings, Hub, Size64Hasher,
};
use rssbot::feed::Item;

fn std_hash<T: Hash>(t: &T) -> u64 {
    let mut hasher = DefaultHasher::default();
    t.hash(&mut hasher);
    hasher.finish()
}

fn item(id: Option<&str>, title: Option<&str>, link: Option<&str>) -> Item {
    Item {
        id: id.map(|s| s.to_owned()),
        title: title.map(|s| s.to_owned()),
        link: link.map(|s| s.to_owned()),
    }
}

#[test]
fn size64hasher() {
    let mut h = Size64Hasher::default();
    h.write_i64(-42);
    assert_eq!(h.finish(), -42i64 as u64);
}

#[test]
fn size64hasher_starts_at_zero() {
    let h = Size64Hasher::default();
    assert_eq!(h.finish(), 0);
}

#[test]
fn size64hasher_unsigned_write() {
    let mut h = Size64Hasher::default();
    h.write_u64(42);
    assert_eq!(h.finish(), 42);
}

#[test]
fn size64hasher_positive_signed_write() {
    let mut h = Size64Hasher::default();
    h.write_i64(i64::MAX);
    assert_eq!(h.finish(), 0x7fff_ffff_ffff_ffff);
}

#[test]
fn size64hasher_lowest_signed_write() {
    let mut h = Size64Hasher::default();
    h.write_i64(i64::MIN);
    assert_eq!(h.finish(), 0x8000_0000_0000_0000);
}

#[test]
fn gen_hash_is_the_hash_of_the_string() {
    for text in ["", "a", "https://a/feed.xml", "més text ☃ 汉字"] {
        assert_eq!(gen_hash(text), std_hash(&text));
        assert_eq!(gen_hash(text), std_hash(&text.to_owned()));
    }
}

#[test]
fn gen_hash_tells_texts_apart() {
    assert_eq!(gen_hash("https://a/feed.xml"), gen_hash("https://a/feed.xml"));
    assert_ne!(gen_hash("https://a/feed.xml"), gen_hash("https://b/feed.xml"));
    assert_ne!(gen_hash(""), gen_hash("\u{0}"));
}

#[test]
fn item_hash_prefers_the_identifier() {
    let with_id = item(Some("guid-1"), Some("title"), Some("http://x/1"));
    assert_eq!(gen_item_hash(&with_id), gen_hash("guid-1"));
    let other_text = item(Some("guid-1"), Some("other"), None);
    assert_eq!(gen_item_hash(&with_id), gen_item_hash(&other_text));
}

#[test]
fn item_hash_falls_back_to_title_and_link() {
    let both = item(None, Some("title"), Some("http://x/1"));
    assert_eq!(gen_item_hash(&both), gen_hash("titlehttp://x/1"));
    assert_eq!(gen_item_hash(&both), std_hash(&format!("{}{}", "title", "http://x/1")));
    let title_only = item(None, Some("title"), None);
    assert_eq!(gen_item_hash(&title_only), gen_hash("title"));
    let link_only = item(None, None, Some("http://x/1"));
    assert_eq!(gen_item_hash(&link_only), gen_hash("http://x/1"));
    let bare = item(None, None, None);
    assert_eq!(gen_item_hash(&bare), gen_hash(""));
}

#[test]
fn combined_settings_of_nothing_are_the_defaults() {
    let merged = get_combined_feed_settings(None);
    assert_eq!(
        merged,
        FeedSettings {
            disable_preview: Some(true),
            link_only: Some(false),
            hide_rss_title: Some(false),
            combine_msg: Some(true),
        }
    );
    assert_eq!(get_combined_feed_settings(Some(FeedSettings::default())), merged);
}

#[test]
fn combined_settings_keep_what_was_chosen() {
    let stored = FeedSettings {
        disable_preview: Some(false),
        link_only: Some(true),
        hide_rss_title: None,
        combine_msg: Some(false),
    };
    assert_eq!(
        get_combined_feed_settings(Some(stored)),
        FeedSettings {
            disable_preview: Some(false),
            link_only: Some(true),
            hide_rss_title: Some(false),
            combine_msg: Some(false),
        }
    );
}

#[test]
fn default_settings_choose_nothing() {
    let settings = FeedSettings::default();
    assert_eq!(settings.disable_preview, None);
    assert_eq!(settings.link_only, None);
    assert_eq!(settings.hide_rss_title, None);
    assert_eq!(settings.combine_msg, None);
}

#[test]
fn hub_default_and_clone() {
    let hub = Hub::default();
    assert_eq!(hub.callback, "");
    assert_eq!(hub.secret, "");
    let named = Hub { callback: "http://cb".to_owned(), secret: "s3".to_owned() };
    let copy = named.clone();
    assert_eq!(copy.callback, "http://cb");
    assert_eq!(copy.secret, "s3");
}
