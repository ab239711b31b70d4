//! The summarizing request to the LLM, and the summary read from its reply.
use vstd::prelude::*;
use vstd::string::*;

use crate::config::{LlmConfig, LlmProvider};
use crate::json::{parse_json, spec_parse_json, Json};
use crate::models::{item_views, Item, ItemView};
use crate::text::{decimal, decimal_string, take_chars};

verus! {

/// The prompt used unless the configuration gives one.
pub const DEFAULT_PROMPT: &'static str =
    "You are a news digest assistant. Summarize the following items into a concise, well-organized digest. Group related items by topic. For each item, include the title and a 1-2 sentence summary. Highlight the most important or notable items. Keep the overall digest readable and scannable.";

/// The length an item's content is cut to in the prompt.
pub const CONTENT_LIMIT: usize = 500;

/// The largest number of tokens the Anthropic API is asked to write.
pub const CLAUDE_MAX_TOKENS: u32 = 4096;

/// The version of Anthropic's API the request is written for.
pub const ANTHROPIC_VERSION: &'static str = "2023-06-01";

/// The first `limit` characters of `s`.
pub open spec fn first_chars(s: Seq<char>, limit: nat) -> Seq<char> {
    s.take(if s.len() < limit { s.len() as int } else { limit as int })
}

/// The first lines presenting the `n`-th item: number, title, source and URL.
pub open spec fn entry_head(n: nat, item: ItemView) -> Seq<char> {
    decimal(n) + ". "@ + match item.title {
        Some(t) => t,
        None => Seq::empty(),
    } + "\n"@ + "   Source: "@ + item.source_name + " | URL: "@ + item.url + "\n"@
}

/// The category line of an item, if it has a category.
pub open spec fn entry_category(item: ItemView) -> Seq<char> {
    match item.category {
        Some(c) => "   Category: "@ + c + "\n"@,
        None => Seq::empty(),
    }
}

/// The content line of an item, cut to 500 characters, if it has content.
pub open spec fn entry_content(item: ItemView) -> Seq<char> {
    match item.content {
        Some(c) => "   "@ + first_chars(c, CONTENT_LIMIT as nat) + "\n"@,
        None => Seq::empty(),
    }
}

/// The lines that present the `n`-th item (counting from 1) to the LLM.
pub open spec fn prompt_entry(n: nat, item: ItemView) -> Seq<char> {
    entry_head(n, item) + entry_category(item) + entry_content(item) + "\n"@
}

/// The items presented one after another, numbered from 1.
pub open spec fn prompt_items(items: Seq<ItemView>) -> Seq<char>
    decreases items.len(),
{
    if items.len() == 0 {
        Seq::empty()
    } else {
        prompt_items(items.drop_last()) + prompt_entry(items.len() as nat, items.last())
    }
}

/// Appends the number, title, source and URL lines of the `n`-th item.
fn append_head(buf: &mut String, n: usize, item: &Item)
    ensures
        final(buf)@ == old(buf)@ + entry_head(n as nat, item@),
{
    let ghost start = buf@;
    let num = decimal_string(n);
    buf.append(num.as_str());
    buf.append(". ");
    match &item.title {
        Some(t) => buf.append(t.as_str()),
        None => {},
    }
    buf.append("\n");
    let ghost first = buf@;
    buf.append("   Source: ");
    buf.append(item.source_name.as_str());
    buf.append(" | URL: ");
    buf.append(item.url.as_str());
    buf.append("\n");
    assert(buf@ =~= first + ("   Source: "@ + item.source_name@ + " | URL: "@ + item.url@ + "\n"@));
    assert(buf@ =~= start + entry_head(n as nat, item@));
}

/// Appends the category line of an item.
fn append_category(buf: &mut String, item: &Item)
    ensures
        final(buf)@ == old(buf)@ + entry_category(item@),
{
    let ghost start = buf@;
    match &item.category {
        Some(c) => {
            buf.append("   Category: ");
            buf.append(c.as_str());
            buf.append("\n");
        },
        None => {},
    }
    assert(buf@ =~= start + entry_category(item@));
}

/// Appends the content line of an item.
fn append_content(buf: &mut String, item: &Item)
    ensures
        final(buf)@ == old(buf)@ + entry_content(item@),
{
    let ghost start = buf@;
    match &item.content {
        Some(c) => {
            let truncated = take_chars(c.as_str(), CONTENT_LIMIT);
            buf.append("   ");
            buf.append(truncated.as_str());
            buf.append("\n");
        },
        None => {},
    }
    assert(buf@ =~= start + entry_content(item@));
}

/// Appends the lines presenting the `n`-th item.
fn append_entry(buf: &mut String, n: usize, item: &Item)
    ensures
        final(buf)@ == old(buf)@ + prompt_entry(n as nat, item@),
{
    let ghost start = buf@;
    append_head(buf, n, item);
    append_category(buf, item);
    append_content(buf, item);
    buf.append("\n");
    assert(buf@ =~= start + prompt_entry(n as nat, item@));
}

/// The items as the prompt presents them: each numbered, with its title,
/// source and URL, its category, and its content cut to 500 characters.
pub fn format_items_for_prompt(items: &[Item]) -> (r: String)
    ensures
        r@ == prompt_items(item_views(items@)),
{
    let mut buf = String::new();
    let n = items.len();
    let ghost vs = item_views(items@);
    for i in 0..n
        invariant
            n == items@.len(),
            vs == item_views(items@),
            buf@ == prompt_items(vs.take(i as int)),
    {
        append_entry(&mut buf, i + 1, &items[i]);
        assert(vs.take(i + 1).drop_last() =~= vs.take(i as int));
        assert(vs.take(i + 1).last() == items@[i as int]@);
    }
    assert(vs.take(n as int) =~= vs);
    buf
}

/// The body of a summarizing request, by provider.
#[derive(Debug)]
pub enum LlmRequestBody {
    /// `{"model", "max_tokens", "system", "messages": [{"role": "user", "content": user}]}`.
    Claude { model: String, max_tokens: u32, system: String, user: String },
    /// `{"model", "stream", "system", "prompt"}`.
    Ollama { model: String, stream: bool, system: String, prompt: String },
    /// `{"model", "messages": [{"role": "system", ..}, {"role": "user", ..}]}`.
    OpenaiCompat { model: String, system: String, user: String },
}

/// A summarizing request: where it is posted, its headers, the bearer token
/// it carries, and its JSON body.
#[derive(Debug)]
pub struct LlmRequest {
    pub endpoint: String,
    pub headers: Vec<(String, String)>,
    pub bearer: Option<String>,
    pub body: LlmRequestBody,
}

/// Why no summary came.
#[derive(Clone, Debug, PartialEq, Eq)]
pub enum LlmError {
    /// The Anthropic API needs `LLM_API_KEY`.
    MissingApiKey,
    /// The provider's reply is not JSON.
    UnparsableReply { provider: LlmProvider },
    /// The provider's reply lacks the summary where the provider puts it.
    UnexpectedFormat { provider: LlmProvider },
}

/// The prompt: the configured one, else the default.
pub open spec fn spec_prompt(config: LlmConfig) -> Seq<char> {
    match config.prompt_template {
        Some(t) => t@,
        None => DEFAULT_PROMPT@,
    }
}

/// The user message: the items introduced by one line.
pub open spec fn spec_user_message(items: Seq<ItemView>) -> Seq<char> {
    "Here are the items to summarize:\n\n"@ + prompt_items(items)
}

/// The view of an optional borrowed text.
pub open spec fn key_view(k: Option<&str>) -> Option<Seq<char>> {
    match k {
        Some(s) => Some(s@),
        None => None,
    }
}

/// The request to the configured LLM for these items; the Anthropic provider without an API
/// key gives `MissingApiKey`.
pub fn summarize_request(config: &LlmConfig, api_key: Option<&str>, items: &[Item]) -> (r: Result<
    LlmRequest,
    LlmError,
>)
    ensures
        config.provider == LlmProvider::Claude && api_key is None <==> r == Err::<
            LlmRequest,
            LlmError,
        >(LlmError::MissingApiKey),
        r is Err ==> r == Err::<LlmRequest, LlmError>(LlmError::MissingApiKey),
        r matches Ok(req) ==> req.endpoint@ == config.endpoint@,
        r matches Ok(req) ==> match config.provider {
            LlmProvider::Claude => {
                &&& req.body matches LlmRequestBody::Claude { model, max_tokens, system, user }
                &&& model@ == config.model@
                &&& max_tokens == CLAUDE_MAX_TOKENS
                &&& system@ == spec_prompt(*config)
                &&& user@ == spec_user_message(item_views(items@))
                &&& req.bearer is None
                &&& req.headers@.len() == 2
                &&& req.headers@[0].0@ == "x-api-key"@ && key_view(api_key) == Some(req.headers@[0].1@)
                &&& req.headers@[1].0@ == "anthropic-version"@ && req.headers@[1].1@ == ANTHROPIC_VERSION@
            },
            LlmProvider::Ollama => {
                &&& req.body matches LlmRequestBody::Ollama { model, stream, system, prompt }
                &&& model@ == config.model@
                &&& !stream
                &&& system@ == spec_prompt(*config)
                &&& prompt@ == spec_user_message(item_views(items@))
                &&& req.bearer is None
                &&& req.headers@.len() == 0
            },
            LlmProvider::OpenaiCompat => {
                &&& req.body matches LlmRequestBody::OpenaiCompat { model, system, user }
                &&& model@ == config.model@
                &&& system@ == spec_prompt(*config)
                &&& user@ == spec_user_message(item_views(items@))
                &&& key_view(api_key) == match req.bearer {
                    Some(b) => Some(b@),
                    None => None,
                }
                &&& req.headers@.len() == 0
            },
        },
{
    let prompt = match &config.prompt_template {
        Some(t) => t.clone(),
        None => String::from_str(DEFAULT_PROMPT),
    };
    let items_text = format_items_for_prompt(items);
    let mut user = String::from_str("Here are the items to summarize:\n\n");
    user.append(items_text.as_str());
    let mut headers: Vec<(String, String)> = Vec::new();
    match config.provider {
        LlmProvider::Claude => {
            let key = match api_key {
                Some(k) => k,
                None => return Err(LlmError::MissingApiKey),
            };
            headers.push((String::from_str("x-api-key"), String::from_str(key)));
            headers.push(
                (String::from_str("anthropic-version"), String::from_str(ANTHROPIC_VERSION)),
            );
            Ok(
                LlmRequest {
                    endpoint: config.endpoint.clone(),
                    headers,
                    bearer: None,
                    body: LlmRequestBody::Claude {
                        model: config.model.clone(),
                        max_tokens: CLAUDE_MAX_TOKENS,
                        system: prompt,
                        user,
                    },
                },
            )
        },
        LlmProvider::Ollama => Ok(
            LlmRequest {
                endpoint: config.endpoint.clone(),
                headers,
                bearer: None,
                body: LlmRequestBody::Ollama {
                    model: config.model.clone(),
                    stream: false,
                    system: prompt,
                    prompt: user,
                },
            },
        ),
        LlmProvider::OpenaiCompat => {
            let bearer = match api_key {
                Some(k) => Some(String::from_str(k)),
                None => None,
            };
            Ok(
                LlmRequest {
                    endpoint: config.endpoint.clone(),
                    headers,
                    bearer,
                    body: LlmRequestBody::OpenaiCompat {
                        model: config.model.clone(),
                        system: prompt,
                        user,
                    },
                },
            )
        },
    }
}

/// The member `key` of a value, if there is a value.
pub open spec fn then_get(v: Option<Json>, key: Seq<char>) -> Option<Json> {
    match v {
        Some(j) => j.spec_get(key),
        None => None,
    }
}

/// The element `i` of a value, if there is a value.
pub open spec fn then_at(v: Option<Json>, i: int) -> Option<Json> {
    match v {
        Some(j) => j.spec_at(i),
        None => None,
    }
}

/// The text of a value, if there is a string value.
pub open spec fn then_str(v: Option<Json>) -> Option<Seq<char>> {
    match v {
        Some(j) => j.spec_as_str(),
        None => None,
    }
}

/// Where each provider's reply holds the summary: Anthropic's
/// `content[0].text`, Ollama's `response`, and an OpenAI-compatible
/// `choices[0].message.content`.
pub open spec fn reply_summary(provider: LlmProvider, reply: Json) -> Option<Seq<char>> {
    match provider {
        LlmProvider::Claude => then_str(
            then_get(then_at(reply.spec_get("content"@), 0), "text"@),
        ),
        LlmProvider::Ollama => then_str(reply.spec_get("response"@)),
        LlmProvider::OpenaiCompat => then_str(
            then_get(then_get(then_at(reply.spec_get("choices"@), 0), "message"@), "content"@),
        ),
    }
}

/// The value borrowed, if any.
pub open spec fn deref_opt(o: Option<&Json>) -> Option<Json> {
    match o {
        Some(j) => Some(*j),
        None => None,
    }
}

fn get_in<'a>(v: Option<&'a Json>, key: &str) -> (r: Option<&'a Json>)
    ensures
        deref_opt(r) == then_get(deref_opt(v), key@),
{
    match v {
        Some(j) => j.get(key),
        None => None,
    }
}

fn at_in<'a>(v: Option<&'a Json>, i: usize) -> (r: Option<&'a Json>)
    ensures
        deref_opt(r) == then_at(deref_opt(v), i as int),
{
    match v {
        Some(j) => j.at(i),
        None => None,
    }
}

/// The summary in the provider's reply; `reply` is the reply read as JSON,
/// none where it is not JSON.
pub fn read_reply(provider: LlmProvider, reply: Option<&Json>) -> (r: Result<String, LlmError>)
    ensures
        match deref_opt(reply) {
            None => r == Err::<String, LlmError>(LlmError::UnparsableReply { provider }),
            Some(j) => match reply_summary(provider, j) {
                Some(s) => r matches Ok(t) && t@ == s,
                None => r == Err::<String, LlmError>(LlmError::UnexpectedFormat { provider }),
            },
        },
{
    let j = match reply {
        Some(j) => j,
        None => return Err(LlmError::UnparsableReply { provider }),
    };
    let found = match provider {
        LlmProvider::Claude => get_in(at_in(j.get("content"), 0), "text"),
        LlmProvider::Ollama => j.get("response"),
        LlmProvider::OpenaiCompat => get_in(
            get_in(at_in(j.get("choices"), 0), "message"),
            "content",
        ),
    };
    match found {
        Some(v) => match v.as_str() {
            Some(s) => Ok(String::from_str(s)),
            None => Err(LlmError::UnexpectedFormat { provider }),
        },
        None => Err(LlmError::UnexpectedFormat { provider }),
    }
}

/// The summary in the provider's reply body, read as JSON.
pub fn read_reply_text(provider: LlmProvider, body: &str) -> (r: Result<String, LlmError>)
    ensures
        match spec_parse_json(body@) {
            None => r == Err::<String, LlmError>(LlmError::UnparsableReply { provider }),
            Some(j) => match reply_summary(provider, j) {
                Some(s) => r matches Ok(t) && t@ == s,
                None => r == Err::<String, LlmError>(LlmError::UnexpectedFormat { provider }),
            },
        },
{
    match parse_json(body) {
        Some(j) => read_reply(provider, Some(&j)),
        None => read_reply(provider, None),
    }
}

proof fn lemma_entry_spelled(n: nat, e: ItemView)
    ensures
        prompt_entry(n, e) == decimal(n) + ". "@ + match e.title {
            Some(t) => t,
            None => Seq::empty(),
        } + "\n"@ + "   Source: "@ + e.source_name + " | URL: "@ + e.url + "\n"@ + match e.category {
            Some(c) => "   Category: "@ + c + "\n"@,
            None => Seq::empty(),
        } + match e.content {
            Some(c) => "   "@ + c.take(if c.len() < 500 { c.len() as int } else { 500 }) + "\n"@,
            None => Seq::empty(),
        } + "\n"@,
{
    let title = match e.title {
        Some(x) => x,
        None => Seq::<char>::empty(),
    };
    let head = decimal(n) + ". "@ + title + "\n"@ + "   Source: "@ + e.source_name + " | URL: "@ + e.url
        + "\n"@;
    assert(entry_head(n, e) == head);
    assert(head + entry_category(e) + entry_content(e) + "\n"@ =~= decimal(n) + ". "@ + title + "\n"@
        + "   Source: "@ + e.source_name + " | URL: "@ + e.url + "\n"@ + entry_category(e) + entry_content(e)
        + "\n"@);
}

proof fn lemma_prompt_prefix(items: Seq<ItemView>, j: int)
    requires
        0 <= j <= items.len(),
    ensures
        prompt_items(items.take(j)).len() <= prompt_items(items).len(),
        prompt_items(items).take(prompt_items(items.take(j)).len() as int) == prompt_items(items.take(j)),
    decreases items.len(),
{
    if j == items.len() {
        assert(items.take(j) =~= items);
        assert(prompt_items(items).take(prompt_items(items).len() as int) =~= prompt_items(items));
    } else {
        let d = items.drop_last();
        lemma_prompt_prefix(d, j);
        assert(d.take(j) =~= items.take(j));
        let pre = prompt_items(items.take(j));
        let whole = prompt_items(items);
        assert(whole == prompt_items(d) + prompt_entry(items.len() as nat, items.last()));
        assert(whole.take(pre.len() as int) =~= prompt_items(d).take(pre.len() as int));
    }
}

/// The prompt presents the items in order, each after the ones before it:
/// its number (from 1), `. ` and its title where it has one, whatever its
/// category and content; then its source and URL; its category line where it
/// has a category; its content cut to 500 characters where it has content;
/// and a blank line.
pub proof fn lemma_prompt_presents_each_item(items: Seq<ItemView>, i: int)
    requires
        0 <= i < items.len(),
    ensures
        prompt_items(items.take(i + 1)) == prompt_items(items.take(i)) + (decimal((i + 1) as nat)
            + ". "@ + match items[i].title {
            Some(t) => t,
            None => Seq::empty(),
        } + "\n"@ + "   Source: "@ + items[i].source_name + " | URL: "@ + items[i].url + "\n"@
            + match items[i].category {
            Some(c) => "   Category: "@ + c + "\n"@,
            None => Seq::empty(),
        } + match items[i].content {
            Some(c) => "   "@ + c.take(if c.len() < 500 { c.len() as int } else { 500 }) + "\n"@,
            None => Seq::empty(),
        } + "\n"@),
        prompt_items(items).take(prompt_items(items.take(i + 1)).len() as int) == prompt_items(
            items.take(i + 1),
        ),
{
    let t = items.take(i + 1);
    let e = items[i];
    assert(t.drop_last() =~= items.take(i));
    assert(t.last() == e);
    lemma_prompt_prefix(items, i + 1);
    lemma_entry_spelled((i + 1) as nat, e);
    assert(prompt_items(t) == prompt_items(items.take(i)) + prompt_entry((i + 1) as nat, e));
}

} // verus!
