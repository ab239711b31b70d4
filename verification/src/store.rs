//! What is written to and read back from the item and digest tables.
use vstd::prelude::*;
use vstd::string::*;

use crate::models::{Digest, Item, ItemView};
use crate::text::{copy_opt, opt_view};
use crate::time::{
    checked_sub_hours, four_digit_year, now, parse_rfc3339, parts_of, rfc3339, spec_parse_rfc3339, spec_rfc3339,
    sub_hours_parts, Timestamp,
};

verus! {

/// The values an item is stored with: its texts, and its times in RFC 3339.
#[derive(Debug)]
pub struct ItemRecord {
    pub source_name: String,
    pub source_type: String,
    pub url: String,
    pub title: Option<String>,
    pub content: Option<String>,
    pub published_at: Option<String>,
    pub fetched_at: String,
    pub category: Option<String>,
}

/// A stored time written in RFC 3339.
pub open spec fn stored_time(t: Option<Timestamp>) -> Option<Seq<char>> {
    match t {
        Some(t) => Some(spec_rfc3339(t)),
        None => None,
    }
}

impl ItemRecord {
    /// These are the values `item` is stored with; its times read back as
    /// the item's times where they lie in the years 0 to 9999.
    pub open spec fn records(self, item: Item) -> bool {
        &&& self.source_name@ == item.source_name@
        &&& self.source_type@ == item.source_type@
        &&& self.url@ == item.url@
        &&& opt_view(self.title) == opt_view(item.title)
        &&& opt_view(self.content) == opt_view(item.content)
        &&& opt_view(self.published_at) == stored_time(item.published_at)
        &&& self.fetched_at@ == spec_rfc3339(item.fetched_at)
        &&& opt_view(self.category) == opt_view(item.category)
        &&& four_digit_year(item.fetched_at) ==> spec_parse_rfc3339(self.fetched_at@) == Some(
            item.fetched_at,
        )
        &&& (item.published_at matches Some(t) && four_digit_year(t)) ==> read_time(
            self.published_at,
        ) == item.published_at
    }

    /// The values the item is stored with.
    pub fn from_item(item: &Item) -> (r: ItemRecord)
        ensures
            r.records(*item),
    {
        let published_at = match &item.published_at {
            Some(t) => {
                proof {
                    use_type_invariant(t);
                }
                Some(rfc3339(t))
            },
            None => None,
        };
        proof {
            use_type_invariant(&item.fetched_at);
        }
        ItemRecord {
            source_name: item.source_name.clone(),
            source_type: item.source_type.clone(),
            url: item.url.clone(),
            title: copy_opt(&item.title),
            content: copy_opt(&item.content),
            published_at,
            fetched_at: rfc3339(&item.fetched_at),
            category: copy_opt(&item.category),
        }
    }
}

/// A stored item as read back: `fetched_at` is none where the column could
/// not be read as text.
#[derive(Debug)]
pub struct ItemRow {
    pub id: i64,
    pub source_name: String,
    pub source_type: String,
    pub url: String,
    pub title: Option<String>,
    pub content: Option<String>,
    pub published_at: Option<String>,
    pub fetched_at: Option<String>,
    pub category: Option<String>,
}

impl ItemRow {
    /// The row holds the record's values under its id.
    pub open spec fn holds(self, rec: ItemRecord) -> bool {
        &&& self.source_name@ == rec.source_name@
        &&& self.source_type@ == rec.source_type@
        &&& self.url@ == rec.url@
        &&& opt_view(self.title) == opt_view(rec.title)
        &&& opt_view(self.content) == opt_view(rec.content)
        &&& opt_view(self.published_at) == opt_view(rec.published_at)
        &&& (self.fetched_at matches Some(f) && f@ == rec.fetched_at@)
        &&& opt_view(self.category) == opt_view(rec.category)
    }
}

/// The item a row gives where its fetch time reads as RFC 3339.
pub open spec fn row_item(row: ItemRow) -> ItemView {
    ItemView {
        id: Some(row.id),
        source_name: row.source_name@,
        source_type: row.source_type@,
        url: row.url@,
        title: opt_view(row.title),
        content: opt_view(row.content),
        published_at: read_time(row.published_at),
        fetched_at: read_time(row.fetched_at).unwrap(),
        category: opt_view(row.category),
    }
}

/// A stored time read back: none where the text is not RFC 3339.
pub open spec fn read_time(s: Option<String>) -> Option<Timestamp> {
    match s {
        Some(s) => spec_parse_rfc3339(s@),
        None => None,
    }
}

fn parse_stored(s: &Option<String>) -> (r: Option<Timestamp>)
    ensures
        r == read_time(*s),
{
    match s {
        Some(s) => parse_rfc3339(s.as_str()),
        None => None,
    }
}

impl Item {
    /// The item a stored row gives. A fetch time that cannot be read is
    /// replaced by the current time.
    pub fn from_row(row: ItemRow) -> (r: Item)
        ensures
            r.id == Some(row.id),
            r.source_name == row.source_name,
            r.source_type == row.source_type,
            r.url == row.url,
            r.title == row.title,
            r.content == row.content,
            r.published_at == read_time(row.published_at),
            read_time(row.fetched_at) matches Some(t) ==> r.fetched_at == t,
            r.category == row.category,
            read_time(row.fetched_at) is Some ==> r@ == row_item(row),
    {
        let published_at = parse_stored(&row.published_at);
        let fetched_at = match parse_stored(&row.fetched_at) {
            Some(t) => t,
            None => now(),
        };
        Item {
            id: Some(row.id),
            source_name: row.source_name,
            source_type: row.source_type,
            url: row.url,
            title: row.title,
            content: row.content,
            published_at,
            fetched_at,
            category: row.category,
        }
    }
}

/// An item written as its record, and read back from a row that holds the
/// record's values under an id, is the same item with that id, where its
/// times lie in the years 0 to 9999.
pub proof fn lemma_item_round_trip(item: Item, rec: ItemRecord, row: ItemRow)
    requires
        rec.records(item),
        row.holds(rec),
        four_digit_year(item.fetched_at),
        (item.published_at matches Some(t) ==> four_digit_year(t)),
    ensures
        read_time(row.fetched_at) == Some(item.fetched_at),
        row_item(row) == (ItemView { id: Some(row.id), ..item@ }),
{
    assert(read_time(row.published_at) == item.published_at);
}

/// The values a new digest is stored with: its creation time in RFC 3339,
/// its summary, its item count, and `sent` as 0.
#[derive(Debug)]
pub struct DigestRecord {
    pub created_at: String,
    pub summary: String,
    pub item_count: i64,
    pub sent: i64,
}

impl DigestRecord {
    /// These are the values a digest created at `created_at` over
    /// `item_count` items is stored with; the time reads back as
    /// `created_at` where it lies in the years 0 to 9999.
    pub open spec fn records(self, created_at: Timestamp, summary: Seq<char>, item_count: usize) -> bool {
        &&& self.created_at@ == spec_rfc3339(created_at)
        &&& self.summary@ == summary
        &&& self.item_count == item_count as i64
        &&& self.sent == 0
        &&& four_digit_year(created_at) ==> spec_parse_rfc3339(self.created_at@) == Some(created_at)
    }

    /// The values a digest created at `created_at` over `item_count` items
    /// is stored with.
    pub fn new(created_at: Timestamp, summary: &str, item_count: usize) -> (r: DigestRecord)
        ensures
            r.records(created_at, summary@, item_count),
    {
        DigestRecord {
            created_at: created_at.to_rfc3339(),
            summary: String::from_str(summary),
            item_count: item_count as i64,
            sent: 0,
        }
    }
}

/// A stored digest as read back: `created_at` is none where the column
/// could not be read as text.
#[derive(Debug)]
pub struct DigestRow {
    pub id: i64,
    pub created_at: Option<String>,
    pub summary: String,
    pub item_count: i64,
    pub sent: i64,
}

impl DigestRow {
    /// The row holds the record's values.
    pub open spec fn holds(self, rec: DigestRecord) -> bool {
        &&& (self.created_at matches Some(c) && c@ == rec.created_at@)
        &&& self.summary@ == rec.summary@
        &&& self.item_count == rec.item_count
        &&& self.sent == rec.sent
    }
}

/// A new digest written as its record, and read back from a row that holds
/// the record's values, has its creation time, summary and item count again
/// and is not sent, where it was created in the years 0 to 9999 and its item
/// count fits in an `i64`.
pub proof fn lemma_digest_round_trip(
    created_at: Timestamp,
    summary: Seq<char>,
    item_count: usize,
    rec: DigestRecord,
    row: DigestRow,
)
    requires
        rec.records(created_at, summary, item_count),
        row.holds(rec),
        four_digit_year(created_at),
        item_count <= i64::MAX,
    ensures
        read_time(row.created_at) == Some(created_at),
        row.summary@ == summary,
        row.item_count as usize == item_count,
        row.sent == 0,
{
}

impl Digest {
    /// The digest a stored row gives. A creation time that cannot be read is
    /// replaced by the current time.
    pub fn from_row(row: DigestRow) -> (r: Digest)
        ensures
            r.id == Some(row.id),
            read_time(row.created_at) matches Some(t) ==> r.created_at == t,
            r.summary == row.summary,
            r.item_count == row.item_count as usize,
            r.sent == (row.sent != 0),
    {
        let created_at = match parse_stored(&row.created_at) {
            Some(t) => t,
            None => now(),
        };
        Digest {
            id: Some(row.id),
            created_at,
            summary: row.summary,
            item_count: row.item_count as usize,
            sent: row.sent != 0,
        }
    }

    /// The digest just stored under `id`, created at `created_at`, over
    /// `item_count` items: not sent yet.
    pub fn inserted(id: i64, created_at: Timestamp, summary: &str, item_count: usize) -> (r: Digest)
        ensures
            r.id == Some(id),
            r.created_at == created_at,
            r.summary@ == summary@,
            r.item_count == item_count,
            !r.sent,
    {
        Digest { id: Some(id), created_at, summary: String::from_str(summary), item_count, sent: false }
    }
}

/// The earliest fetch time of the items a digest takes: `lookback_hours`
/// hours before `now` (the hours taken as an `i64`, wrapping as `as` does).
/// None where chrono cannot form that time; there chrono's `DateTime -
/// TimeDelta` panics, and so does the program that reads the items.
pub fn lookback_cutoff(now: Timestamp, lookback_hours: u64) -> (r: Option<Timestamp>)
    ensures
        parts_of(r) == sub_hours_parts(now, lookback_hours as i64),
{
    proof {
        use_type_invariant(&now);
    }
    checked_sub_hours(&now, lookback_hours as i64)
}

/// A lookback whose hours chrono takes as a duration (at most
/// `i64::MAX / 1000` seconds) and whose cutoff second lies in chrono's
/// range always has a cutoff.
pub proof fn lemma_cutoff_exists(now: Timestamp, lookback_hours: u64)
    requires
        lookback_hours <= 2_562_047_788_015,
        now.is_instant(),
        now.unix_secs() - 3600 * lookback_hours >= crate::time::MIN_UNIX_SECS,
    ensures
        sub_hours_parts(now, lookback_hours as i64) is Some,
{
    now.lemma_instant_range();
}

/// Away from a leap second, the cutoff is the same instant of the second
/// `3600 * lookback_hours` seconds earlier, wherever chrono can form it.
pub proof fn lemma_cutoff_value(now: Timestamp, lookback_hours: u64)
    requires
        lookback_hours <= 2_562_047_788_015,
        now.is_instant(),
        now.subsec_nanos() < 1_000_000_000,
        now.unix_secs() - 3600 * lookback_hours >= crate::time::MIN_UNIX_SECS,
    ensures
        sub_hours_parts(now, lookback_hours as i64) == Some(
            ((now.unix_secs() - 3600 * lookback_hours) as i64, now.subsec_nanos()),
        ),
{
    now.lemma_instant_range();
}

} // verus!
