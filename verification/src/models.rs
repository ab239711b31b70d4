//! The collected items and the digests made of them.
use vstd::prelude::*;

use crate::text::opt_view;
use crate::time::Timestamp;

verus! {

/// One collected piece of content.
#[derive(Debug)]
pub struct Item {
    pub id: Option<i64>,
    pub source_name: String,
    pub source_type: String,
    pub url: String,
    pub title: Option<String>,
    pub content: Option<String>,
    pub published_at: Option<Timestamp>,
    pub fetched_at: Timestamp,
    pub category: Option<String>,
}

/// An item with its texts taken as character sequences.
pub struct ItemView {
    pub id: Option<i64>,
    pub source_name: Seq<char>,
    pub source_type: Seq<char>,
    pub url: Seq<char>,
    pub title: Option<Seq<char>>,
    pub content: Option<Seq<char>>,
    pub published_at: Option<Timestamp>,
    pub fetched_at: Timestamp,
    pub category: Option<Seq<char>>,
}

impl View for Item {
    type V = ItemView;

    open spec fn view(&self) -> ItemView {
        ItemView {
            id: self.id,
            source_name: self.source_name@,
            source_type: self.source_type@,
            url: self.url@,
            title: opt_view(self.title),
            content: opt_view(self.content),
            published_at: self.published_at,
            fetched_at: self.fetched_at,
            category: opt_view(self.category),
        }
    }
}

/// The views of a sequence of items.
pub open spec fn item_views(items: Seq<Item>) -> Seq<ItemView> {
    items.map_values(|i: Item| i@)
}

/// A summary of items, as stored and mailed.
#[derive(Debug)]
pub struct Digest {
    pub id: Option<i64>,
    pub created_at: Timestamp,
    pub summary: String,
    pub item_count: usize,
    pub sent: bool,
}

} // verus!
