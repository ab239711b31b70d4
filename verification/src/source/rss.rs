//! RSS and Atom feeds.
use vstd::prelude::*;

use crate::config::FeedConfig;
use crate::models::{item_views, Item, ItemView};
use crate::text::{chars_of, copy_opt, opt_view, spec_starts_with, starts_with_chars};
use crate::source::feed_body::safe_feed_body;
use crate::time::{entry_times, Timestamp};

verus! {

/// An RSS or Atom feed.
#[derive(Clone, Debug)]
pub struct RssFeed {
    pub name: String,
    pub url: String,
    pub category: Option<String>,
}

/// What an entry of a parsed feed offers: its id, the targets of its links
/// in order, the texts of its title and summary, the body of its content,
/// and its publication and update times.
#[derive(Debug)]
pub struct FeedEntry {
    pub id: String,
    pub links: Vec<String>,
    pub title: Option<String>,
    pub summary: Option<String>,
    pub content_body: Option<String>,
    pub published: Option<Timestamp>,
    pub updated: Option<Timestamp>,
}

/// What an entry contributes to an item: its link (its first link, else
/// its id where that is a URL), title, summary, content body and times.
pub struct FeedEntryFacts {
    pub link: Option<Seq<char>>,
    pub title: Option<Seq<char>>,
    pub summary: Option<Seq<char>>,
    pub content_body: Option<Seq<char>>,
    pub published: Option<Timestamp>,
    pub updated: Option<Timestamp>,
}

impl FeedEntry {
    /// The entry's link: its first link, else its id where that is a URL.
    pub open spec fn spec_link(self) -> Option<Seq<char>> {
        if self.links@.len() > 0 {
            Some(self.links@[0]@)
        } else if spec_starts_with(self.id@, "http"@) {
            Some(self.id@)
        } else {
            None
        }
    }

    /// What the entry contributes to an item.
    pub open spec fn facts(self) -> FeedEntryFacts {
        FeedEntryFacts {
            link: self.spec_link(),
            title: opt_view(self.title),
            summary: opt_view(self.summary),
            content_body: opt_view(self.content_body),
            published: self.published,
            updated: self.updated,
        }
    }
}

/// The item an entry with these facts gives to `feed`, fetched at `now`:
/// none for an entry without a link.
pub open spec fn facts_item(feed: RssFeed, f: FeedEntryFacts, now: Timestamp) -> Option<ItemView> {
    match f.link {
        None => None,
        Some(url) => Some(
            ItemView {
                id: None,
                source_name: feed.name@,
                source_type: "rss"@,
                url,
                title: f.title,
                content: if f.summary is Some { f.summary } else { f.content_body },
                published_at: if f.published is Some { f.published } else { f.updated },
                fetched_at: now,
                category: opt_view(feed.category),
            },
        ),
    }
}

/// What each entry contributes, in order.
pub open spec fn entries_facts(es: Seq<FeedEntry>) -> Seq<FeedEntryFacts> {
    es.map_values(|e: FeedEntry| e.facts())
}

/// The items entries with these facts give to `feed`, fetched at `now`, in
/// order; entries without a link give none.
pub open spec fn facts_items(feed: RssFeed, fs: Seq<FeedEntryFacts>, now: Timestamp) -> Seq<ItemView> {
    fs.filter_map(|f: FeedEntryFacts| facts_item(feed, f, now))
}

/// What the entries of a parsed feed contribute, where there are entries.
pub open spec fn opt_entries_facts(r: Option<Vec<FeedEntry>>) -> Option<Seq<FeedEntryFacts>> {
    match r {
        Some(es) => Some(entries_facts(es@)),
        None => None,
    }
}

#[verifier::external_type_specification]
#[verifier::external_body]
pub struct ExFeedRsEntry(feed_rs::model::Entry);

/// What the entries feed-rs reads from a body contribute, in order: none
/// where the body is not a feed. It depends on the body alone: an id that
/// feed-rs makes up for an entry (a hash in hexadecimal, or a random UUID)
/// never starts with `http`, so it never becomes a link.
pub uninterp spec fn spec_feed_facts(body: Seq<u8>) -> Option<Seq<FeedEntryFacts>>;

/// `feed_rs::parser::parse`, each entry taken one for one: its id, the
/// targets of its links, the texts of its title and summary, the body of its
/// content, and its times; none where the body is not a feed. What the
/// entries contribute is named `spec_feed_facts` of the body; the ids feed-rs
/// makes up are left unsaid. feed-rs panics or recurses without bound on some
/// bodies; `safe_feed_body` keeps clear of them (a random-number source that
/// fails while an id is made up aside).
#[verifier::external_body]
fn parse_feed(body: &[u8]) -> (r: Option<Vec<FeedEntry>>)
    requires
        safe_feed_body(body@),
    ensures
        opt_entries_facts(r) == spec_feed_facts(body@),
{
    feed_rs::parser::parse(body).ok().map(|feed| feed.entries.into_iter().map(|e| {
        let (published, updated) = entry_times(&e);
        FeedEntry {
            id: e.id,
            links: e.links.into_iter().map(|l| l.href).collect(),
            title: e.title.map(|t| t.content),
            summary: e.summary.map(|t| t.content),
            content_body: e.content.and_then(|c| c.body),
            published,
            updated,
        }
    }).collect())
}

impl RssFeed {
    /// The item an entry gives, fetched at `now`: none for an entry without a link.
    pub open spec fn entry_item(self, e: FeedEntry, now: Timestamp) -> Option<ItemView> {
        facts_item(self, e.facts(), now)
    }

    /// The items the entries give, fetched at `now`, in order.
    pub open spec fn entries_items(self, es: Seq<FeedEntry>, now: Timestamp) -> Seq<ItemView> {
        facts_items(self, entries_facts(es), now)
    }

    /// The feed a configuration entry describes.
    pub fn from_config(f: &FeedConfig) -> (r: RssFeed)
        ensures
            r.name == f.name,
            r.url == f.url,
            r.category == f.category,
    {
        RssFeed { name: f.name.clone(), url: f.url.clone(), category: copy_opt(&f.category) }
    }

    /// The feed's configured name.
    pub fn name(&self) -> (r: &str)
        ensures
            r@ == self.name@,
    {
        self.name.as_str()
    }

    /// The kind of source.
    pub fn source_type(&self) -> (r: &'static str)
        ensures
            r@ == "rss"@,
    {
        "rss"
    }

    /// The link of an entry.
    fn entry_link(e: &FeedEntry) -> (r: Option<String>)
        ensures
            opt_view(r) == e.spec_link(),
    {
        if e.links.len() > 0 {
            Some(e.links[0].clone())
        } else {
            let id = chars_of(e.id.as_str());
            let http = chars_of("http");
            proof {
                reveal_strlit("http");
            }
            if starts_with_chars(&id, &http) {
                Some(e.id.clone())
            } else {
                None
            }
        }
    }

    /// The items of the entries, fetched at `now`, in order; entries without a link are skipped.
    pub fn items_from_entries(&self, entries: &[FeedEntry], now: Timestamp) -> (r: Vec<Item>)
        ensures
            item_views(r@) == self.entries_items(entries@, now),
    {
        let ghost f = |x: FeedEntryFacts| facts_item(*self, x, now);
        let ghost fs = entries_facts(entries@);
        let mut out: Vec<Item> = Vec::new();
        let n = entries.len();
        for i in 0..n
            invariant
                n == entries@.len(),
                fs == entries_facts(entries@),
                f == (|x: FeedEntryFacts| facts_item(*self, x, now)),
                item_views(out@) == fs.take(i as int).filter_map(f),
        {
            proof {
                fs.lemma_filter_map_take_succ(f, i as int);
                assert(fs[i as int] == entries@[i as int].facts());
            }
            let e = &entries[i];
            let ghost prev = out@;
            match Self::entry_link(e) {
                Some(url) => {
                    let content = match &e.summary {
                        Some(s) => Some(s.clone()),
                        None => copy_opt(&e.content_body),
                    };
                    let published_at = if e.published.is_some() {
                        e.published
                    } else {
                        e.updated
                    };
                    let item = Item {
                        id: None,
                        source_name: self.name.clone(),
                        source_type: String::from_str("rss"),
                        url,
                        title: copy_opt(&e.title),
                        content,
                        published_at,
                        fetched_at: now,
                        category: copy_opt(&self.category),
                    };
                    out.push(item);
                    assert(item_views(out@) =~= item_views(prev) + seq![item@]);
                },
                None => {},
            }
        }
        assert(fs.take(n as int) =~= fs);
        out
    }

    /// The items of a feed body, fetched at `now`, in order: none where the
    /// body is not a feed. Entries without a link are skipped.
    pub fn items_from_feed(&self, body: &[u8], now: Timestamp) -> (r: Option<Vec<Item>>)
        requires
            safe_feed_body(body@),
        ensures
            match spec_feed_facts(body@) {
                None => r is None,
                Some(fs) => r matches Some(v) && item_views(v@) == facts_items(*self, fs, now),
            },
    {
        match parse_feed(body) {
            None => None,
            Some(entries) => Some(self.items_from_entries(&entries, now)),
        }
    }
}

/// Every item a feed gives comes from an entry that has a link, in the
/// order of the entries: the link is its URL, it keeps the entry's title,
/// its content is the summary (else the content body), its publication time
/// is the published time (else the updated one), and it is filed under the
/// feed's name and category as an RSS item fetched at `now`.
pub proof fn lemma_feed_items_carry_feed(feed: RssFeed, fs: Seq<FeedEntryFacts>, now: Timestamp, k: int)
    requires
        0 <= k < facts_items(feed, fs, now).len(),
    ensures
        ({
            let it = facts_items(feed, fs, now)[k];
            &&& it.category == opt_view(feed.category)
            &&& it.source_name == feed.name@
            &&& it.source_type == "rss"@
            &&& it.fetched_at == now
            &&& it.id is None
            &&& exists|f: FeedEntryFacts|
                #[trigger] fs.contains(f) && f.link == Some(it.url) && it.title == f.title && it.content == (
                if f.summary is Some {
                    f.summary
                } else {
                    f.content_body
                }) && it.published_at == (if f.published is Some {
                    f.published
                } else {
                    f.updated
                })
        }),
{
    let g = |f: FeedEntryFacts| facts_item(feed, f, now);
    let it = fs.filter_map(g)[k];
    assert(fs.filter_map(g).contains(it));
    fs.lemma_filter_map_contains(g, it);
}

/// An entry without a link gives no item, and one with a link gives one:
/// the feed's items are as many as its entries with a link.
pub proof fn lemma_feed_items_count(feed: RssFeed, fs: Seq<FeedEntryFacts>, now: Timestamp)
    ensures
        facts_items(feed, fs, now).len() == fs.filter(|f: FeedEntryFacts| f.link is Some).len(),
    decreases fs.len(),
{
    reveal_with_fuel(Seq::<FeedEntryFacts>::filter, 1);
    if fs.len() > 0 {
        lemma_feed_items_count(feed, fs.drop_last(), now);
    }
}

} // verus!
