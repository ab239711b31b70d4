use rustling::config::{FeedConfig, MappingStrategy, McpMappingConfig, McpSourceConfig, McpTransportConfig, SearchConfig, TimeRange};
use rustling::json::Json;
use rustling::source::mcp::{combined_text, extract_field, map_response, McpSource};
use rustling::source::feed_body::feed_body_is_safe;
use rustling::source::rss::{FeedEntry, RssFeed};
use rustling::source::searxng::{SearxngResult, SearxngSearch};
use rustling::source::SourceError;
use rustling::time::Timestamp;

fn at() -> Timestamp {
    Timestamp::from_unix(1_704_164_645, 0).unwrap()
}

fn feed() -> RssFeed {
    RssFeed::from_config(&FeedConfig {
        name: "Blog".to_string(),
        url: "https://blog.example/feed.xml".to_string(),
        category: Some("tech".to_string()),
    })
}

const RSS: &str = r#"<?xml version="1.0"?>
<rss version="2.0"><channel><title>Blog</title><link>https://blog.example</link><description>d</description>
<item><title>First</title><link>https://blog.example/1</link><description>Summary one</description><pubDate>Tue, 02 Jan 2024 03:04:05 GMT</pubDate></item>
<item><title>No link</title><guid isPermaLink="false">urn:x:2</guid></item>
<item><title>Guid link</title><guid>https://blog.example/3</guid></item>
</channel></rss>"#;

#[test]
fn rss_entries_become_items() {
    assert!(feed_body_is_safe(RSS.as_bytes()));
    let items = feed().items_from_feed(RSS.as_bytes(), at()).unwrap();
    let urls: Vec<&str> = items.iter().map(|i| i.url.as_str()).collect();
    assert_eq!(urls, vec!["https://blog.example/1", "https://blog.example/3"]);
    let first = &items[0];
    assert_eq!(first.title.as_deref(), Some("First"));
    assert_eq!(first.content.as_deref(), Some("Summary one"));
    assert_eq!(first.source_name, "Blog");
    assert_eq!(first.source_type, "rss");
    assert_eq!(first.category.as_deref(), Some("tech"));
    assert_eq!(first.published_at.unwrap().secs(), 1_704_164_645);
    assert_eq!(first.fetched_at, at());
    assert_eq!(first.id, None);
}

#[test]
fn unparsable_feed_gives_no_items() {
    assert!(feed_body_is_safe(b"not a feed"));
    assert!(feed().items_from_feed(b"not a feed", at()).is_none());
}

#[test]
fn atom_entries_become_items() {
    let atom = r#"<?xml version="1.0" encoding="UTF-8"?>
<feed xmlns="http://www.w3.org/2005/Atom"><title>A</title><id>urn:a</id><updated>2024-01-02T03:04:05Z</updated>
<entry><title>One</title><id>urn:1</id><link href="https://a.example/1"/><updated>2024-01-02T03:04:05Z</updated><content type="html">Body</content><author><name>Ann</name><email>ann@a.example</email></author></entry>
<entry><title>No link</title><id>urn:2</id><updated>2024-01-02T03:04:05Z</updated></entry>
</feed>"#;
    assert!(feed_body_is_safe(atom.as_bytes()));
    let items = feed().items_from_feed(atom.as_bytes(), at()).unwrap();
    assert_eq!(items.len(), 1);
    assert_eq!(items[0].url, "https://a.example/1");
    assert_eq!(items[0].content.as_deref(), Some("Body"));
    assert_eq!(items[0].published_at, Some(at()));
}

#[test]
fn feed_bodies_feed_rs_may_panic_on_are_told_apart() {
    let rss = |extra: &str| format!("<?xml version=\"1.0\"?><rss version=\"2.0\"><channel><item><link>https://x/1</link>{extra}</item></channel></rss>");
    assert!(feed_body_is_safe(rss("<author>jo@x.example (Jo)</author>").as_bytes()));
    assert!(!feed_body_is_safe(rss("<author>\u{ab}jo@x.example\u{bb}</author>").as_bytes()));
    assert!(feed_body_is_safe(rss("<author>\u{e9}l\u{e8}ve jo@x.example</author>").as_bytes()));
    assert!(!feed_body_is_safe(rss("<author>jo&#64;x.example</author>").as_bytes()));
    assert!(!feed_body_is_safe(rss("<author><!-- \u{ab} -->jo@x.example</author>").as_bytes()));
    assert!(feed_body_is_safe(rss("<title>caf\u{e9} &#8217; &#x2019;</title>").as_bytes()));
    assert!(!feed_body_is_safe(b"<rss xmlns:media=\"http://search.yahoo.com/mrss/\"></rss>"));
    assert!(!feed_body_is_safe(b"<rss xmlns:itunes=\"http://www.itunes.com/dtds/podcast-1.0.dtd\"></rss>"));
    assert!(!feed_body_is_safe(b"<?xml version=\"1.0\" encoding=\"ISO-8859-1\"?><rss></rss>"));
    assert!(feed_body_is_safe(b"<?xml version=\"1.0\" encoding=\"UTF-8\"?><rss></rss>"));
    assert!(!feed_body_is_safe(b"\xff\xfe<\x00r\x00"));
    assert!(!feed_body_is_safe(b"{\"author\": \"jo\\u0040x.example\"}"));
    let body = rss("<author>jo@x.example (Jo)</author><title>T</title>");
    let items = feed().items_from_feed(body.as_bytes(), at()).unwrap();
    assert_eq!(items.len(), 1);
    assert_eq!(items[0].url, "https://x/1");
}

#[test]
fn entry_without_links_uses_a_url_id() {
    let entry = |id: &str| FeedEntry {
        id: id.to_string(),
        links: vec![],
        title: None,
        summary: Some("s".to_string()),
        content_body: Some("body".to_string()),
        published: Some(at()),
        updated: None,
    };
    let items = feed().items_from_entries(&[entry("http://x.example/1"), entry("urn:1"), entry("https://x.example/2")], at());
    let urls: Vec<&str> = items.iter().map(|i| i.url.as_str()).collect();
    assert_eq!(urls, vec!["http://x.example/1", "https://x.example/2"]);
    assert_eq!(items[0].content.as_deref(), Some("s"));
    assert_eq!(items[0].published_at, Some(at()));
}

#[test]
fn entry_link_rules() {
    let entries = vec![
        FeedEntry {
            id: "https://id.example/a".to_string(),
            links: vec!["https://l.example/a".to_string(), "https://l.example/b".to_string()],
            title: None,
            summary: None,
            content_body: Some("body".to_string()),
            published: None,
            updated: Some(at()),
        },
        FeedEntry {
            id: "tag:x".to_string(),
            links: vec![],
            title: Some("t".to_string()),
            summary: None,
            content_body: None,
            published: None,
            updated: None,
        },
    ];
    let items = feed().items_from_entries(&entries, at());
    assert_eq!(items.len(), 1);
    assert_eq!(items[0].url, "https://l.example/a");
    assert_eq!(items[0].content.as_deref(), Some("body"));
    assert_eq!(items[0].published_at, Some(at()));
    assert_eq!(feed().name(), "Blog");
    assert_eq!(feed().source_type(), "rss");
}

fn search(url: &str) -> SearxngSearch {
    SearxngSearch::from_config(&SearchConfig {
        name: "S".to_string(),
        instance_url: url.to_string(),
        query: "rust lang".to_string(),
        category: None,
        time_range: TimeRange::Week,
    })
}

#[test]
fn searxng_request() {
    assert_eq!(search("https://sx.example//").search_url(), "https://sx.example/search");
    assert_eq!(search("https://sx.example").search_url(), "https://sx.example/search");
    let params = search("https://sx.example").query_params();
    let params: Vec<(&str, &str)> = params.iter().map(|(k, v)| (k.as_str(), v.as_str())).collect();
    assert_eq!(params, vec![("q", "rust lang"), ("format", "json"), ("time_range", "week")]);
    assert_eq!(search("x").source_type(), "searxng");
}

#[test]
fn searxng_results_become_items() {
    let results = vec![
        SearxngResult { url: "https://r/1".to_string(), title: "One".to_string(), content: None },
        SearxngResult { url: "https://r/2".to_string(), title: "Two".to_string(), content: Some("c".to_string()) },
    ];
    let items = search("https://sx").items_from_results(&results, at());
    assert_eq!(items.len(), 2);
    assert_eq!(items[1].url, "https://r/2");
    assert_eq!(items[1].title.as_deref(), Some("Two"));
    assert_eq!(items[1].content.as_deref(), Some("c"));
    assert_eq!(items[0].source_type, "searxng");
    assert_eq!(items[0].published_at, None);
}

fn obj(fields: Vec<(&str, Json)>, text: &str) -> Json {
    Json::Object(fields.into_iter().map(|(k, v)| (k.to_string(), v)).collect(), text.to_string())
}

fn mapping(strategy: MappingStrategy) -> McpMappingConfig {
    McpMappingConfig { strategy, ..McpMappingConfig::default() }
}

#[test]
fn mcp_fields_are_text_or_compact_json() {
    let v = obj(
        vec![("url", Json::Str("https://m/1".to_string())), ("n", Json::Number("42".to_string())), ("b", Json::Bool(true)), ("z", Json::Null)],
        "{}",
    );
    assert_eq!(extract_field(&v, Some("url")).as_deref(), Some("https://m/1"));
    assert_eq!(extract_field(&v, Some("n")).as_deref(), Some("42"));
    assert_eq!(extract_field(&v, Some("b")).as_deref(), Some("true"));
    assert_eq!(extract_field(&v, Some("z")).as_deref(), Some("null"));
    assert_eq!(extract_field(&v, Some("missing")), None);
    assert_eq!(extract_field(&v, None), None);
    assert_eq!(extract_field(&Json::Str("x".to_string()), Some("url")), None);
}

#[test]
fn mcp_json_array_keeps_objects_with_urls() {
    let blocks = vec![
        "[{\"url\":\"https://m/1\",\"title\":\"T\",\"n\":42},".to_string(),
        "{\"title\":\"no url\"},3]".to_string(),
    ];
    let mut m = mapping(MappingStrategy::JsonArray);
    m.content_field = Some("n".to_string());
    let items = map_response("m", &None, &m, &blocks, at()).ok().unwrap();
    assert_eq!(items.len(), 1);
    assert_eq!(items[0].url, "https://m/1");
    assert_eq!(items[0].title.as_deref(), Some("T"));
    assert_eq!(items[0].content.as_deref(), Some("42"));
    assert_eq!(items[0].source_type, "mcp");
    assert_eq!(items[0].source_name, "m");
}

#[test]
fn mcp_json_errors() {
    let blocks = vec!["oops".to_string(), "!".to_string()];
    match map_response("m", &None, &mapping(MappingStrategy::JsonArray), &blocks, at()) {
        Err(SourceError::InvalidJson { text }) => assert_eq!(text, "oops!"),
        other => panic!("{:?}", other),
    }
    match map_response("m", &None, &mapping(MappingStrategy::JsonArray), &["null".to_string()], at()) {
        Err(SourceError::NotAnArray) => {},
        other => panic!("{:?}", other),
    }
    match map_response("m", &None, &mapping(MappingStrategy::SingleJson), &["{".to_string(), "}".to_string()], at()) {
        Err(SourceError::MissingUrl) => {},
        other => panic!("{:?}", other),
    }
    match map_response("m", &None, &mapping(MappingStrategy::SingleJson), &blocks, at()) {
        Err(SourceError::InvalidJson { text }) => assert_eq!(text, "oops!"),
        other => panic!("{:?}", other),
    }
}

#[test]
fn mcp_single_json_is_one_item() {
    let blocks = vec!["{\"url\": \"https://one\", \"content\": [1, 2]}".to_string()];
    let items = map_response("m", &Some("c".to_string()), &mapping(MappingStrategy::SingleJson), &blocks, at()).ok().unwrap();
    assert_eq!(items.len(), 1);
    assert_eq!(items[0].url, "https://one");
    assert_eq!(items[0].content.as_deref(), Some("[1,2]"));
    assert_eq!(items[0].category.as_deref(), Some("c"));
}

#[test]
fn mcp_text_blocks_get_distinct_urls() {
    let blocks: Vec<String> = (0..12).map(|i| format!("block {i}")).collect();
    let items = map_response("news", &None, &mapping(MappingStrategy::TextBlock), &blocks, at()).ok().unwrap();
    assert_eq!(items.len(), 12);
    assert_eq!(items[0].url, "mcp://news/item/0");
    assert_eq!(items[11].url, "mcp://news/item/11");
    assert_eq!(items[11].content.as_deref(), Some("block 11"));
    assert_eq!(items[3].title, None);
    let mut urls: Vec<&str> = items.iter().map(|i| i.url.as_str()).collect();
    urls.sort();
    urls.dedup();
    assert_eq!(urls.len(), 12);
    assert_eq!(combined_text(&blocks[..2]), "block 0block 1");
}

fn mcp_source(args: Option<Json>) -> McpSource {
    McpSource {
        config: McpSourceConfig {
            name: "tool-src".to_string(),
            category: None,
            transport: McpTransportConfig::Sse { url: "http://localhost:1".to_string() },
            tool_name: "search".to_string(),
            tool_args: args,
            mapping: McpMappingConfig::default(),
        },
    }
}

#[test]
fn mcp_tool_results() {
    let src = mcp_source(None);
    assert_eq!(src.name(), "tool-src");
    assert_eq!(src.source_type(), "mcp");
    assert!(src.tool_arguments().is_none());
    let contents = vec![Some("a".to_string()), None, Some("b".to_string())];
    let ok = src.read_tool_result(Some(false), &contents).ok().unwrap();
    assert_eq!(ok, vec!["a".to_string(), "b".to_string()]);
    let ok = src.read_tool_result(None, &contents).ok().unwrap();
    assert_eq!(ok.len(), 2);
    match src.read_tool_result(Some(true), &contents) {
        Err(SourceError::ToolError { tool, text }) => {
            assert_eq!(tool, "search");
            assert_eq!(text, "a\nb");
        },
        other => panic!("{:?}", other),
    }
    let with_args = mcp_source(Some(obj(vec![("q", Json::Str("x".to_string()))], "{\"q\":\"x\"}")));
    assert_eq!(with_args.tool_arguments().unwrap().len(), 1);
    let not_object = mcp_source(Some(Json::Number("1".to_string())));
    assert!(not_object.tool_arguments().is_none());
}
