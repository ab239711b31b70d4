//! Tools of MCP servers.
use vstd::prelude::*;
use vstd::string::*;

use super::SourceError;
use crate::config::{MappingStrategy, McpMappingConfig, McpSourceConfig};
use crate::json::{keys_distinct, parse_json, spec_parse_json, Json};
use crate::models::{item_views, Item, ItemView};
use crate::text::{
    copy_opt, decimal, decimal_string, join_spec, join_strings, lemma_decimal_injective, opt_view,
    views,
};
use crate::time::Timestamp;

verus! {

/// A tool of an MCP server, read as items.
#[derive(Debug)]
pub struct McpSource {
    pub config: McpSourceConfig,
}

/// The view of an optional borrowed text.
pub open spec fn opt_str_view(o: Option<&str>) -> Option<Seq<char>> {
    match o {
        Some(s) => Some(s@),
        None => None,
    }
}

/// The texts among a tool's content blocks, in order.
pub open spec fn texts_of(contents: Seq<Option<String>>) -> Seq<Seq<char>> {
    contents.filter_map(|c: Option<String>| opt_view(c))
}

/// The field `field` of `value`: its text where it is a string, else the
/// field written as compact JSON; nothing where there is no such field.
pub open spec fn spec_extract_field(value: Json, field: Option<Seq<char>>) -> Option<Seq<char>> {
    match field {
        None => None,
        Some(f) => match value.spec_get(f) {
            None => None,
            Some(v) => match v {
                Json::Str(s) => Some(s@),
                _ => Some(v.spec_text()),
            },
        },
    }
}

/// The item a JSON value gives: none where it has no URL field.
pub open spec fn object_item(
    source_name: Seq<char>,
    category: Option<Seq<char>>,
    mapping: McpMappingConfig,
    obj: Json,
    now: Timestamp,
) -> Option<ItemView> {
    match spec_extract_field(obj, opt_view(mapping.url_field)) {
        None => None,
        Some(url) => Some(
            ItemView {
                id: None,
                source_name,
                source_type: "mcp"@,
                url,
                title: spec_extract_field(obj, opt_view(mapping.title_field)),
                content: spec_extract_field(obj, opt_view(mapping.content_field)),
                published_at: None,
                fetched_at: now,
                category,
            },
        ),
    }
}

/// The URL given to the `i`-th text block of a source.
pub open spec fn block_url(source_name: Seq<char>, i: nat) -> Seq<char> {
    "mcp://"@ + source_name + "/item/"@ + decimal(i)
}

/// The item the `i`-th text block gives.
pub open spec fn block_item(
    source_name: Seq<char>,
    category: Option<Seq<char>>,
    i: nat,
    text: Seq<char>,
    now: Timestamp,
) -> ItemView {
    ItemView {
        id: None,
        source_name,
        source_type: "mcp"@,
        url: block_url(source_name, i),
        title: None,
        content: Some(text),
        published_at: None,
        fetched_at: now,
        category,
    }
}

/// The items the text blocks give, one per block in order.
pub open spec fn block_items(
    source_name: Seq<char>,
    category: Option<Seq<char>>,
    blocks: Seq<Seq<char>>,
    now: Timestamp,
) -> Seq<ItemView> {
    Seq::new(blocks.len(), |i: int| block_item(source_name, category, i as nat, blocks[i], now))
}

/// Distinct text blocks of one source get distinct URLs, so that storing
/// them by URL keeps every block.
pub proof fn lemma_block_urls_distinct(source_name: Seq<char>, i: nat, j: nat)
    requires
        i != j,
    ensures
        block_url(source_name, i) != block_url(source_name, j),
{
    let p = "mcp://"@ + source_name + "/item/"@;
    if block_url(source_name, i) == block_url(source_name, j) {
        assert(block_url(source_name, i).skip(p.len() as int) =~= decimal(i));
        assert(block_url(source_name, j).skip(p.len() as int) =~= decimal(j));
        lemma_decimal_injective(i, j);
    }
}

impl McpSource {
    /// The source's configured name.
    pub fn name(&self) -> (r: &str)
        ensures
            r@ == self.config.name@,
    {
        self.config.name.as_str()
    }

    /// The kind of source.
    pub fn source_type(&self) -> (r: &'static str)
        ensures
            r@ == "mcp"@,
    {
        "mcp"
    }

    /// The tool's arguments: the members of the configured arguments where
    /// they are an object, else none.
    pub fn tool_arguments(&self) -> (r: Option<&Vec<(String, Json)>>)
        ensures
            match self.config.tool_args {
                Some(Json::Object(fields, _)) => r == Some(&fields),
                _ => r is None,
            },
            self.config.wf() ==> (r matches Some(fs) ==> keys_distinct(fs@)),
    {
        match &self.config.tool_args {
            Some(Json::Object(fields, _)) => Some(fields),
            _ => None,
        }
    }

    /// The text blocks of a tool's answer, given whether the tool reported an
    /// error and the text of each content block (none for other content):
    /// on an error, the texts joined by newlines make the error.
    pub fn read_tool_result(&self, is_error: Option<bool>, contents: &[Option<String>]) -> (r: Result<
        Vec<String>,
        SourceError,
    >)
        ensures
            is_error == Some(true) ==> (r matches Err(SourceError::ToolError { tool, text }) && tool@
                == self.config.tool_name@ && text@ == join_spec(texts_of(contents@), "\n"@)),
            is_error != Some(true) ==> (r matches Ok(blocks) && views(blocks@) == texts_of(
                contents@,
            )),
    {
        let mut texts: Vec<String> = Vec::new();
        let n = contents.len();
        let ghost f = |c: Option<String>| opt_view(c);
        for i in 0..n
            invariant
                n == contents@.len(),
                f == (|c: Option<String>| opt_view(c)),
                views(texts@) == contents@.take(i as int).filter_map(f),
        {
            proof {
                contents@.lemma_filter_map_take_succ(f, i as int);
            }
            let ghost prev = texts@;
            match &contents[i] {
                Some(t) => {
                    texts.push(t.clone());
                    assert(views(texts@) =~= views(prev).push(t@));
                },
                None => {},
            }
        }
        assert(contents@.take(n as int) =~= contents@);
        if is_error == Some(true) {
            let text = join_strings(texts.as_slice(), "\n");
            Err(SourceError::ToolError { tool: self.config.tool_name.clone(), text })
        } else {
            Ok(texts)
        }
    }
}

/// The text blocks joined into one text, as parsed for the JSON strategies.
pub fn combined_text(text_blocks: &[String]) -> (r: String)
    ensures
        r@ == join_spec(views(text_blocks@), ""@),
{
    join_strings(text_blocks, "")
}

/// The field `field` of `value`: its text where it is a string, else the
/// field written as compact JSON.
pub fn extract_field(value: &Json, field: Option<&str>) -> (r: Option<String>)
    ensures
        opt_view(r) == spec_extract_field(*value, opt_str_view(field)),
{
    let f = match field {
        Some(f) => f,
        None => return None,
    };
    match value.get(f) {
        None => None,
        Some(v) => match v {
            Json::Str(s) => Some(s.clone()),
            _ => Some(v.text()),
        },
    }
}

/// The text of an optional field name.
fn field_name(f: &Option<String>) -> (r: Option<&str>)
    ensures
        opt_str_view(r) == opt_view(*f),
{
    match f {
        Some(s) => Some(s.as_str()),
        None => None,
    }
}

/// The item a JSON value gives.
fn json_item(
    source_name: &str,
    category: &Option<String>,
    mapping: &McpMappingConfig,
    obj: &Json,
    now: Timestamp,
) -> (r: Option<Item>)
    ensures
        match r {
            Some(item) => object_item(source_name@, opt_view(*category), *mapping, *obj, now) == Some(
                item@,
            ),
            None => object_item(source_name@, opt_view(*category), *mapping, *obj, now) is None,
        },
{
    let url = match extract_field(obj, field_name(&mapping.url_field)) {
        Some(u) => u,
        None => return None,
    };
    Some(
        Item {
            id: None,
            source_name: String::from_str(source_name),
            source_type: String::from_str("mcp"),
            url,
            title: extract_field(obj, field_name(&mapping.title_field)),
            content: extract_field(obj, field_name(&mapping.content_field)),
            published_at: None,
            fetched_at: now,
            category: copy_opt(category),
        },
    )
}

/// The JSON value of the text blocks joined, where they are JSON.
pub open spec fn blocks_json(text_blocks: Seq<String>) -> Option<Json> {
    spec_parse_json(join_spec(views(text_blocks), ""@))
}

/// The items of an MCP tool's text blocks, fetched at `now`, by the
/// mapping's strategy: the JSON strategies read the blocks joined as JSON.
pub fn map_response(
    source_name: &str,
    category: &Option<String>,
    mapping: &McpMappingConfig,
    text_blocks: &[String],
    now: Timestamp,
) -> (r: Result<Vec<Item>, SourceError>)
    ensures
        mapping.strategy == MappingStrategy::JsonArray ==> match blocks_json(text_blocks@) {
            None => r matches Err(SourceError::InvalidJson { text }) && text@ == join_spec(
                views(text_blocks@),
                ""@,
            ),
            Some(Json::Array(elems, _)) => r matches Ok(items) && item_views(items@) == elems@.filter_map(
                |o: Json| object_item(source_name@, opt_view(*category), *mapping, o, now),
            ),
            Some(_) => r matches Err(SourceError::NotAnArray),
        },
        mapping.strategy == MappingStrategy::SingleJson ==> match blocks_json(text_blocks@) {
            None => r matches Err(SourceError::InvalidJson { text }) && text@ == join_spec(
                views(text_blocks@),
                ""@,
            ),
            Some(obj) => match object_item(source_name@, opt_view(*category), *mapping, obj, now) {
                Some(v) => r matches Ok(items) && item_views(items@) == seq![v],
                None => r matches Err(SourceError::MissingUrl),
            },
        },
        mapping.strategy == MappingStrategy::TextBlock ==> (r matches Ok(items) && item_views(items@)
            == block_items(source_name@, opt_view(*category), views(text_blocks@), now)),
{
    match mapping.strategy {
        MappingStrategy::JsonArray => {
            let combined = combined_text(text_blocks);
            match parse_json(combined.as_str()) {
                None => Err(SourceError::InvalidJson { text: combined }),
                Some(Json::Array(elems, _)) => {
                    let ghost f = |o: Json|
                        object_item(source_name@, opt_view(*category), *mapping, o, now);
                    let mut out: Vec<Item> = Vec::new();
                    let n = elems.len();
                    for i in 0..n
                        invariant
                            n == elems@.len(),
                            f == (|o: Json|
                                object_item(source_name@, opt_view(*category), *mapping, o, now)),
                            item_views(out@) == elems@.take(i as int).filter_map(f),
                    {
                        proof {
                            elems@.lemma_filter_map_take_succ(f, i as int);
                        }
                        let ghost prev = out@;
                        match json_item(source_name, category, mapping, &elems[i], now) {
                            Some(item) => {
                                out.push(item);
                                assert(item_views(out@) =~= item_views(prev).push(item@));
                            },
                            None => {},
                        }
                    }
                    assert(elems@.take(n as int) =~= elems@);
                    Ok(out)
                },
                Some(_) => Err(SourceError::NotAnArray),
            }
        },
        MappingStrategy::SingleJson => {
            let combined = combined_text(text_blocks);
            match parse_json(combined.as_str()) {
                None => Err(SourceError::InvalidJson { text: combined }),
                Some(obj) => match json_item(source_name, category, mapping, &obj, now) {
                    Some(item) => {
                        let mut out: Vec<Item> = Vec::new();
                        out.push(item);
                        assert(item_views(out@) =~= seq![item@]);
                        Ok(out)
                    },
                    None => Err(SourceError::MissingUrl),
                },
            }
        },
        MappingStrategy::TextBlock => {
            let mut out: Vec<Item> = Vec::new();
            let n = text_blocks.len();
            let ghost bs = views(text_blocks@);
            for i in 0..n
                invariant
                    n == text_blocks@.len(),
                    bs == views(text_blocks@),
                    item_views(out@) == block_items(
                        source_name@,
                        opt_view(*category),
                        bs,
                        now,
                    ).take(i as int),
            {
                let mut url = String::from_str("mcp://");
                url.append(source_name);
                url.append("/item/");
                let num = decimal_string(i);
                url.append(num.as_str());
                let item = Item {
                    id: None,
                    source_name: String::from_str(source_name),
                    source_type: String::from_str("mcp"),
                    url,
                    title: None,
                    content: Some(text_blocks[i].clone()),
                    published_at: None,
                    fetched_at: now,
                    category: copy_opt(category),
                };
                let ghost prev = out@;
                out.push(item);
                assert(item@ == block_item(
                    source_name@,
                    opt_view(*category),
                    i as nat,
                    bs[i as int],
                    now,
                ));
                assert(item_views(out@) =~= item_views(prev).push(item@));
                assert(block_items(source_name@, opt_view(*category), bs, now)[i as int] == item@);
                assert(item_views(out@) =~= block_items(
                    source_name@,
                    opt_view(*category),
                    bs,
                    now,
                ).take(i + 1));
            }
            assert(block_items(source_name@, opt_view(*category), bs, now).take(n as int) =~= block_items(
                source_name@,
                opt_view(*category),
                bs,
                now,
            ));
            Ok(out)
        },
    }
}

/// Every item the JSON strategies give is filed under the source's name and
/// category as an MCP item fetched at `now`, with no publication time or
/// stored id, and its URL is the object's URL field.
pub proof fn lemma_object_items_carry_source(
    source_name: Seq<char>,
    category: Option<Seq<char>>,
    mapping: McpMappingConfig,
    elems: Seq<Json>,
    now: Timestamp,
    k: int,
)
    requires
        0 <= k < elems.filter_map(|o: Json| object_item(source_name, category, mapping, o, now)).len(),
    ensures
        ({
            let it = elems.filter_map(|o: Json| object_item(source_name, category, mapping, o, now))[k];
            &&& it.category == category
            &&& it.source_name == source_name
            &&& it.source_type == "mcp"@
            &&& it.fetched_at == now
            &&& it.published_at is None
            &&& it.id is None
            &&& exists|o: Json|
                elems.contains(o) && spec_extract_field(o, opt_view(mapping.url_field)) == Some(it.url)
        }),
{
    let f = |o: Json| object_item(source_name, category, mapping, o, now);
    let it = elems.filter_map(f)[k];
    assert(elems.filter_map(f).contains(it));
    elems.lemma_filter_map_contains(f, it);
    let o = choose|o: Json| #[trigger] elems.contains(o) && f(o) == Some(it);
    assert(elems.contains(o) && spec_extract_field(o, opt_view(mapping.url_field)) == Some(it.url));
}

/// The text-block strategy gives one item per block, in order: the block is
/// its content, it has no title, and it is filed under the source's name and
/// category as an MCP item fetched at `now` with no publication time or
/// stored id.
pub proof fn lemma_block_items_carry_source(
    source_name: Seq<char>,
    category: Option<Seq<char>>,
    blocks: Seq<Seq<char>>,
    now: Timestamp,
    i: int,
)
    requires
        0 <= i < blocks.len(),
    ensures
        block_items(source_name, category, blocks, now).len() == blocks.len(),
        ({
            let it = block_items(source_name, category, blocks, now)[i];
            &&& it.content == Some(blocks[i])
            &&& it.title is None
            &&& it.category == category
            &&& it.source_name == source_name
            &&& it.source_type == "mcp"@
            &&& it.fetched_at == now
            &&& it.published_at is None
            &&& it.id is None
        }),
{
}

} // verus!
