//! The run's configuration: sources, keyword filter, LLM, email and general
//! settings, with their defaults.
use vstd::prelude::*;
use vstd::string::*;

use crate::json::Json;
use crate::text::{
    lemma_split_nonempty,
    chars_of, contains_chars, spec_contains, spec_to_lowercase, split_chars, split_spec, string_of,
    to_lowercase, trim, trimmed, views,
};

verus! {

/// Everything a run is configured with.
#[derive(Debug)]
pub struct Config {
    pub verbose: bool,
    pub database_path: String,
    pub lookback_hours: u64,
    pub max_items_per_digest: usize,
    pub keywords: Keywords,
    pub feeds: Vec<FeedConfig>,
    pub searches: Vec<SearchConfig>,
    pub mcp_sources: Vec<McpSourceConfig>,
    pub llm: LlmConfig,
    pub email: EmailConfig,
}

/// An RSS or Atom feed to collect.
#[derive(Clone, Debug)]
pub struct FeedConfig {
    pub name: String,
    pub url: String,
    pub category: Option<String>,
}

/// A SearXNG search to collect.
#[derive(Clone, Debug)]
pub struct SearchConfig {
    pub name: String,
    pub instance_url: String,
    pub query: String,
    pub category: Option<String>,
    pub time_range: TimeRange,
}

/// How recent SearXNG results must be.
#[derive(Clone, Copy, Debug, PartialEq, Eq)]
pub enum TimeRange {
    Day,
    Week,
    Month,
    Year,
}

impl Default for TimeRange {
    /// The default range is a day.
    fn default() -> (r: Self)
        ensures
            r == TimeRange::Day,
    {
        TimeRange::Day
    }
}

impl TimeRange {
    /// The name SearXNG's `time_range` parameter takes for the range.
    pub open spec fn spec_name(self) -> Seq<char> {
        match self {
            TimeRange::Day => "day"@,
            TimeRange::Week => "week"@,
            TimeRange::Month => "month"@,
            TimeRange::Year => "year"@,
        }
    }

    /// The range's name as SearXNG takes it.
    pub fn as_str(self) -> (r: &'static str)
        ensures
            r@ == self.spec_name(),
    {
        match self {
            TimeRange::Day => "day",
            TimeRange::Week => "week",
            TimeRange::Month => "month",
            TimeRange::Year => "year",
        }
    }
}

/// Two ranges with the same name are the same range.
pub proof fn lemma_time_range_names_distinct(a: TimeRange, b: TimeRange)
    requires
        a.spec_name() == b.spec_name(),
    ensures
        a == b,
{
    reveal_strlit("day");
    reveal_strlit("week");
    reveal_strlit("month");
    reveal_strlit("year");
    assert("day"@[0] == 'd');
    assert("week"@[0] == 'w');
    assert("month"@[0] == 'm');
    assert("year"@[0] == 'y');
    assert(a.spec_name()[0] == b.spec_name()[0]);
}

/// A tool of an MCP server whose answer is read as items.
#[derive(Debug)]
pub struct McpSourceConfig {
    pub name: String,
    pub category: Option<String>,
    pub transport: McpTransportConfig,
    pub tool_name: String,
    pub tool_args: Option<Json>,
    pub mapping: McpMappingConfig,
}

/// How the MCP server is reached.
#[derive(Debug)]
pub enum McpTransportConfig {
    /// A child process, started with the arguments and environment variables given.
    Stdio { command: String, args: Vec<String>, env: Vec<(String, String)> },
    /// A streamable HTTP endpoint.
    Sse { url: String },
}

impl McpSourceConfig {
    /// The transport is well formed, and the tool's arguments, where given,
    /// have distinct keys throughout, as the configuration file's tables do.
    pub open spec fn wf(self) -> bool {
        &&& self.transport.wf()
        &&& self.tool_args matches Some(a) ==> a.wf()
    }
}

impl McpTransportConfig {
    /// No two environment variables share a name, as in the map the
    /// configuration file gives.
    pub open spec fn wf(self) -> bool {
        match self {
            McpTransportConfig::Stdio { env, .. } => forall|i: int, j: int|
                0 <= i < j < env@.len() ==> (#[trigger] env@[i]).0@ != (#[trigger] env@[j]).0@,
            McpTransportConfig::Sse { .. } => true,
        }
    }
}

/// How an MCP tool's answer becomes items.
#[derive(Clone, Debug)]
pub struct McpMappingConfig {
    pub strategy: MappingStrategy,
    pub results_path: Option<String>,
    pub url_prefix: Option<String>,
    pub url_field: Option<String>,
    pub title_field: Option<String>,
    pub content_field: Option<String>,
}

impl Default for McpMappingConfig {
    /// A JSON array whose objects carry `url`, `title` and `content`.
    fn default() -> (r: Self)
        ensures
            r.strategy == MappingStrategy::JsonArray,
            r.results_path is None,
            r.url_prefix is None,
            r.url_field matches Some(f) && f@ == "url"@,
            r.title_field matches Some(f) && f@ == "title"@,
            r.content_field matches Some(f) && f@ == "content"@,
    {
        McpMappingConfig {
            strategy: MappingStrategy::JsonArray,
            results_path: None,
            url_prefix: None,
            url_field: Some(String::from_str("url")),
            title_field: Some(String::from_str("title")),
            content_field: Some(String::from_str("content")),
        }
    }
}

/// The shape of an MCP tool's answer.
#[derive(Clone, Copy, Debug, PartialEq, Eq)]
pub enum MappingStrategy {
    /// The text blocks together are a JSON array of objects, one item each.
    JsonArray,
    /// The text blocks together are one JSON object, one item.
    SingleJson,
    /// Each text block is an item.
    TextBlock,
}

impl Default for MappingStrategy {
    /// A JSON array by default.
    fn default() -> (r: Self)
        ensures
            r == MappingStrategy::JsonArray,
    {
        MappingStrategy::JsonArray
    }
}

/// The LLM that summarizes.
#[derive(Clone, Debug)]
pub struct LlmConfig {
    pub provider: LlmProvider,
    pub endpoint: String,
    pub model: String,
    pub prompt_template: Option<String>,
}

/// The API the LLM endpoint speaks.
#[derive(Clone, Copy, Debug, PartialEq, Eq)]
pub enum LlmProvider {
    Claude,
    Ollama,
    OpenaiCompat,
}

/// Where the digest is mailed.
#[derive(Clone, Debug)]
pub struct EmailConfig {
    pub from: String,
    pub to: Vec<String>,
    pub subject_prefix: Option<String>,
}

/// Lowercase keywords; an item is kept when its title or content holds one.
#[derive(Clone, Debug)]
pub struct Keywords(pub Vec<String>);

/// The keywords of a comma-separated list: each piece trimmed and
/// lowercased, empty ones dropped.
pub open spec fn keywords_of(s: Seq<char>) -> Seq<Seq<char>> {
    split_spec(s, ',').map_values(|p: Seq<char>| spec_to_lowercase(trim(p))).filter(
        |k: Seq<char>| k.len() > 0,
    )
}

impl Default for Keywords {
    /// No keywords: every item is kept.
    fn default() -> (r: Self)
        ensures
            r.0@.len() == 0,
    {
        Keywords(Vec::new())
    }
}

impl Keywords {
    /// Some lowercased keyword occurs in the lowercased text, or there are no keywords.
    pub open spec fn spec_matches(self, text: Seq<char>) -> bool {
        self.0@.len() == 0 || exists|i: int|
            0 <= i < self.0@.len() && spec_contains(
                spec_to_lowercase(text),
                spec_to_lowercase(#[trigger] self.0@[i]@),
            )
    }

    /// Whether there are no keywords.
    pub fn is_empty(&self) -> (r: bool)
        ensures
            r == (self.0@.len() == 0),
    {
        self.0.len() == 0
    }

    /// Returns true if any keyword is found (case-insensitive) in the given text.
    pub fn matches(&self, text: &str) -> (r: bool)
        ensures
            r == self.spec_matches(text@),
    {
        if self.0.len() == 0 {
            return true;
        }
        let lower = to_lowercase(text);
        let hay = chars_of(lower.as_str());
        let n = self.0.len();
        let mut i: usize = 0;
        while i < n
            invariant
                n == self.0@.len(),
                i <= n,
                hay@ == spec_to_lowercase(text@),
                forall|k: int|
                    0 <= k < i ==> !spec_contains(hay@, spec_to_lowercase(#[trigger] self.0@[k]@)),
            decreases n - i,
        {
            let kw_lower = to_lowercase(self.0[i].as_str());
            let kw = chars_of(kw_lower.as_str());
            if contains_chars(&hay, &kw) {
                return true;
            }
            i = i + 1;
        }
        false
    }

    /// The keywords of a comma-separated list, as the configuration file gives them.
    pub fn parse(s: &str) -> (r: Keywords)
        ensures
            views(r.0@) == keywords_of(s@),
    {
        let cs = chars_of(s);
        let pieces = split_chars(&cs, ',');
        let ghost ps = pieces@.map_values(|p: Vec<char>| p@);
        let ghost lowered = ps.map_values(|p: Seq<char>| spec_to_lowercase(trim(p)));
        let ghost keep = |k: Seq<char>| k.len() > 0;
        let mut out: Vec<String> = Vec::new();
        let n = pieces.len();
        for i in 0..n
            invariant
                n == pieces@.len(),
                ps == pieces@.map_values(|p: Vec<char>| p@),
                lowered == ps.map_values(|p: Seq<char>| spec_to_lowercase(trim(p))),
                keep == (|k: Seq<char>| k.len() > 0),
                views(out@) == lowered.take(i as int).filter(keep),
        {
            let t = trimmed(pieces[i].as_slice());
            let ts = string_of(t.as_slice());
            let k = to_lowercase(ts.as_str());
            assert(lowered.take(i + 1).drop_last() =~= lowered.take(i as int));
            assert(ps[i as int] == pieces@[i as int]@);
            assert(lowered[i as int] == k@);
            assert(lowered.take(i + 1).last() == k@);
            let ghost prev = out@;
            let ghost sub = lowered.take(i as int).filter(keep);
            reveal_with_fuel(Seq::<Seq<char>>::filter, 1);
            assert(lowered.take(i + 1).filter(keep) == (if keep(k@) {
                sub.push(k@)
            } else {
                sub
            }));
            if !k.as_str().is_empty() {
                out.push(k);
                assert(views(out@) =~= views(prev).push(k@));
            }
        }
        assert(lowered.take(n as int) =~= lowered);
        Keywords(out)
    }
}

/// Every keyword read from a list is non-empty.
pub proof fn lemma_keywords_nonempty(s: Seq<char>, i: int)
    requires
        0 <= i < keywords_of(s).len(),
    ensures
        keywords_of(s)[i].len() > 0,
{
    let lowered = split_spec(s, ',').map_values(|p: Seq<char>| spec_to_lowercase(trim(p)));
    lowered.lemma_filter_pred(|k: Seq<char>| k.len() > 0, i);
}

proof fn lemma_split_without_separator(s: Seq<char>, sep: char)
    requires
        !s.contains(sep),
    ensures
        split_spec(s, sep) == seq![s],
    decreases s.len(),
{
    if s.len() > 0 {
        let d = s.drop_last();
        assert(!d.contains(sep)) by {
            if d.contains(sep) {
                let i = choose|i: int| 0 <= i < d.len() && d[i] == sep;
                assert(s[i] == sep);
            }
        }
        lemma_split_without_separator(d, sep);
        assert(s.last() != sep) by {
            assert(s[s.len() - 1] == s.last());
        }
        assert(d.push(s.last()) =~= s);
        assert(split_spec(s, sep) =~= seq![s]);
    } else {
        assert(s =~= Seq::<char>::empty());
    }
}

proof fn lemma_split_at_separator(a: Seq<char>, b: Seq<char>, sep: char)
    ensures
        split_spec(a + seq![sep] + b, sep) == split_spec(a, sep) + split_spec(b, sep),
    decreases b.len(),
{
    let s = a + seq![sep] + b;
    if b.len() == 0 {
        assert(s.drop_last() =~= a);
        assert(split_spec(b, sep) =~= seq![Seq::<char>::empty()]);
        assert(split_spec(s, sep) =~= split_spec(a, sep) + split_spec(b, sep));
    } else {
        let bd = b.drop_last();
        lemma_split_at_separator(a, bd, sep);
        assert(s.drop_last() =~= a + seq![sep] + bd);
        assert(s.last() == b.last());
        lemma_split_nonempty(bd, sep);
        let l = split_spec(a, sep);
        let r = split_spec(bd, sep);
        if b.last() == sep {
            assert((l + r).push(Seq::<char>::empty()) =~= l + r.push(Seq::<char>::empty()));
        } else {
            let lr = l + r;
            assert(lr.last() == r.last());
            assert(lr.update(lr.len() - 1, lr.last().push(b.last())) =~= l + r.update(
                r.len() - 1,
                r.last().push(b.last()),
            ));
        }
    }
}

/// A list without a comma is one keyword: the whole text, trimmed and
/// lowercased, spaces inside it kept; none where that is empty.
pub proof fn lemma_keywords_one_piece(s: Seq<char>)
    requires
        !s.contains(','),
    ensures
        spec_to_lowercase(trim(s)).len() > 0 ==> keywords_of(s) == seq![spec_to_lowercase(trim(s))],
        spec_to_lowercase(trim(s)).len() == 0 ==> keywords_of(s).len() == 0,
{
    lemma_split_without_separator(s, ',');
    let low = seq![s].map_values(|p: Seq<char>| spec_to_lowercase(trim(p)));
    assert(low =~= seq![spec_to_lowercase(trim(s))]);
    reveal_with_fuel(Seq::<Seq<char>>::filter, 2);
    assert(low.drop_last() =~= Seq::<Seq<char>>::empty());
}

/// A comma separates keywords: the keywords of two lists joined by a comma
/// are those of the first followed by those of the second.
pub proof fn lemma_keywords_comma(a: Seq<char>, b: Seq<char>)
    ensures
        keywords_of(a + seq![','] + b) == keywords_of(a) + keywords_of(b),
{
    lemma_split_at_separator(a, b, ',');
    let f = |p: Seq<char>| spec_to_lowercase(trim(p));
    let keep = |k: Seq<char>| k.len() > 0;
    let la = split_spec(a, ',').map_values(f);
    let lb = split_spec(b, ',').map_values(f);
    assert((split_spec(a, ',') + split_spec(b, ',')).map_values(f) =~= la + lb);
    Seq::filter_distributes_over_add(la, lb, keep);
}

/// The keys the digest run needs from the environment.
pub struct Secrets {
    pub sendgrid_api_key: String,
    pub llm_api_key: Option<String>,
}

/// What the configuration lacks.
#[derive(Clone, Debug, PartialEq, Eq)]
pub enum ConfigError {
    /// `SENDGRID_API_KEY` is not set.
    MissingSendgridApiKey,
}

impl Secrets {
    /// The secrets from the values of `SENDGRID_API_KEY` and `LLM_API_KEY`;
    /// the first is required.
    pub fn from_vars(sendgrid_api_key: Option<String>, llm_api_key: Option<String>) -> (r: Result<
        Secrets,
        ConfigError,
    >)
        ensures
            match sendgrid_api_key {
                Some(k) => r matches Ok(s) && s.sendgrid_api_key == k && s.llm_api_key == llm_api_key,
                None => r == Err::<Secrets, ConfigError>(ConfigError::MissingSendgridApiKey),
            },
    {
        match sendgrid_api_key {
            Some(k) => Ok(Secrets { sendgrid_api_key: k, llm_api_key }),
            None => Err(ConfigError::MissingSendgridApiKey),
        }
    }
}

/// Where the database is kept unless configured.
pub fn default_database_path() -> (r: String)
    ensures
        r@ == "rustling.db"@,
{
    String::from_str("rustling.db")
}

/// How many hours back items are digested unless configured.
pub fn default_lookback_hours() -> (r: u64)
    ensures
        r == 24,
{
    24
}

/// How many items a digest takes at most unless configured.
pub fn default_max_items() -> (r: usize)
    ensures
        r == 50,
{
    50
}

} // verus!
