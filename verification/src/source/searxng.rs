//! SearXNG searches.
use vstd::prelude::*;
use vstd::string::*;

use crate::config::{SearchConfig, TimeRange};
use crate::models::{item_views, Item, ItemView};
use crate::text::{chars_of, copy_opt, opt_view, string_of, trim_end_char, trim_end_matching};
use crate::time::Timestamp;

verus! {

/// A search on a SearXNG instance.
#[derive(Clone, Debug)]
pub struct SearxngSearch {
    pub name: String,
    pub instance_url: String,
    pub query: String,
    pub category: Option<String>,
    pub time_range: TimeRange,
}

/// One result of a SearXNG answer.
#[derive(Clone, Debug)]
pub struct SearxngResult {
    pub url: String,
    pub title: String,
    pub content: Option<String>,
}

impl SearxngSearch {
    /// The item a result gives, fetched at `now`.
    pub open spec fn result_item(self, res: SearxngResult, now: Timestamp) -> ItemView {
        ItemView {
            id: None,
            source_name: self.name@,
            source_type: "searxng"@,
            url: res.url@,
            title: Some(res.title@),
            content: opt_view(res.content),
            published_at: None,
            fetched_at: now,
            category: opt_view(self.category),
        }
    }

    /// The search a configuration entry describes.
    pub fn from_config(c: &SearchConfig) -> (r: SearxngSearch)
        ensures
            r.name == c.name,
            r.instance_url == c.instance_url,
            r.query == c.query,
            r.category == c.category,
            r.time_range == c.time_range,
    {
        SearxngSearch {
            name: c.name.clone(),
            instance_url: c.instance_url.clone(),
            query: c.query.clone(),
            category: copy_opt(&c.category),
            time_range: c.time_range,
        }
    }

    /// The search's configured name.
    pub fn name(&self) -> (r: &str)
        ensures
            r@ == self.name@,
    {
        self.name.as_str()
    }

    /// The kind of source.
    pub fn source_type(&self) -> (r: &'static str)
        ensures
            r@ == "searxng"@,
    {
        "searxng"
    }

    /// The search endpoint: the instance URL without trailing slashes, then `/search`.
    pub fn search_url(&self) -> (r: String)
        ensures
            r@ == trim_end_char(self.instance_url@, '/') + "/search"@,
    {
        let base = chars_of(self.instance_url.as_str());
        let trimmed = trim_end_matching(&base, '/');
        let mut r = string_of(&trimmed);
        r.append("/search");
        r
    }

    /// The query parameters: the query, JSON format and the time range.
    pub fn query_params(&self) -> (r: Vec<(String, String)>)
        ensures
            r@.len() == 3,
            r@[0].0@ == "q"@ && r@[0].1@ == self.query@,
            r@[1].0@ == "format"@ && r@[1].1@ == "json"@,
            r@[2].0@ == "time_range"@ && r@[2].1@ == self.time_range.spec_name(),
    {
        let mut r: Vec<(String, String)> = Vec::new();
        r.push((String::from_str("q"), self.query.clone()));
        r.push((String::from_str("format"), String::from_str("json")));
        r.push((String::from_str("time_range"), String::from_str(self.time_range.as_str())));
        r
    }

    /// The items of the results, fetched at `now`, one per result in order.
    pub fn items_from_results(&self, results: &[SearxngResult], now: Timestamp) -> (r: Vec<Item>)
        ensures
            item_views(r@) == results@.map_values(|res: SearxngResult| self.result_item(res, now)),
    {
        let mut out: Vec<Item> = Vec::new();
        let n = results.len();
        for i in 0..n
            invariant
                n == results@.len(),
                item_views(out@) == results@.take(i as int).map_values(
                    |res: SearxngResult| self.result_item(res, now),
                ),
        {
            let res = &results[i];
            let ghost prev = out@;
            let item = Item {
                id: None,
                source_name: self.name.clone(),
                source_type: String::from_str("searxng"),
                url: res.url.clone(),
                title: Some(res.title.clone()),
                content: copy_opt(&res.content),
                published_at: None,
                fetched_at: now,
                category: copy_opt(&self.category),
            };
            assert(item@ == self.result_item(results@[i as int], now));
            out.push(item);
            assert(item_views(out@) =~= item_views(prev).push(item@));
            assert(item_views(out@) =~= results@.take(i + 1).map_values(
                |res: SearxngResult| self.result_item(res, now),
            ));
        }
        assert(results@.take(n as int) =~= results@);
        out
    }
}

/// Each result gives one item, in the results' order: it is filed under the
/// search's name and configured category as a SearXNG item fetched at
/// `now`, with the result's URL, title and content, and no publication time
/// or stored id.
pub proof fn lemma_result_items(search: SearxngSearch, results: Seq<SearxngResult>, now: Timestamp, i: int)
    requires
        0 <= i < results.len(),
    ensures
        results.map_values(|res: SearxngResult| search.result_item(res, now)).len() == results.len(),
        ({
            let it = results.map_values(|res: SearxngResult| search.result_item(res, now))[i];
            &&& it.category == opt_view(search.category)
            &&& it.source_name == search.name@
            &&& it.source_type == "searxng"@
            &&& it.url == results[i].url@
            &&& it.title == Some(results[i].title@)
            &&& it.content == opt_view(results[i].content)
            &&& it.fetched_at == now
            &&& it.published_at is None
            &&& it.id is None
        }),
{
}

} // verus!
