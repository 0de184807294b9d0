//! A fetched feed in normalized form, as the fetching side hands it over.

use vstd::prelude::*;

verus! {

/// One entry of a fetched feed.
#[derive(Debug)]
pub struct Item {
    pub title: Option<String>,
    pub link: Option<String>,
    pub id: Option<String>,
}

/// A fetched feed: its title, its own link, the refresh hint in minutes, and
/// its entries in document order.
#[derive(Debug)]
pub struct Rss {
    pub title: String,
    pub link: String,
    pub ttl: Option<u32>,
    pub items: Vec<Item>,
}

/// What an [`Item`] holds, as plain text.
pub struct ItemView {
    pub title: Option<Seq<char>>,
    pub link: Option<Seq<char>>,
    pub id: Option<Seq<char>>,
}

/// What an [`Rss`] holds, as plain text.
pub struct RssView {
    pub title: Seq<char>,
    pub link: Seq<char>,
    pub ttl: Option<u32>,
    pub items: Seq<ItemView>,
}

/// The text of an optional string.
pub open spec fn text_of(s: Option<String>) -> Option<Seq<char>> {
    match s {
        Some(s) => Some(s@),
        None => None,
    }
}

/// The views of a sequence of items, in order.
pub open spec fn item_views(items: Seq<Item>) -> Seq<ItemView> {
    items.map_values(|item: Item| item@)
}

impl View for Item {
    type V = ItemView;

    open spec fn view(&self) -> ItemView {
        ItemView { title: text_of(self.title), link: text_of(self.link), id: text_of(self.id) }
    }
}

impl View for Rss {
    type V = RssView;

    open spec fn view(&self) -> RssView {
        RssView {
            title: self.title@,
            link: self.link@,
            ttl: self.ttl,
            items: item_views(self.items@),
        }
    }
}

/// A copy of an optional string.
pub fn clone_text(s: &Option<String>) -> (copy: Option<String>)
    ensures
        copy == *s,
{
    match s {
        Some(s) => Some(s.clone()),
        None => None,
    }
}

impl Clone for Item {
    fn clone(&self) -> (copy: Item)
        ensures
            copy == *self,
    {
        Item {
            title: clone_text(&self.title),
            link: clone_text(&self.link),
            id: clone_text(&self.id),
        }
    }
}

} // verus!
