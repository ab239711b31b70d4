use rustling::config::{LlmConfig, LlmProvider};
use rustling::json::Json;
use rustling::llm::{
    format_items_for_prompt, read_reply, read_reply_text, summarize_request, LlmError, LlmRequestBody, DEFAULT_PROMPT,
};
use rustling::models::Item;
use rustling::time::Timestamp;

fn item(title: Option<&str>, category: Option<&str>, content: Option<&str>) -> Item {
    Item {
        id: Some(1),
        source_name: "Blog".to_string(),
        source_type: "rss".to_string(),
        url: "https://b/1".to_string(),
        title: title.map(|s| s.to_string()),
        content: content.map(|s| s.to_string()),
        published_at: None,
        fetched_at: Timestamp::from_unix(0, 0).unwrap(),
        category: category.map(|s| s.to_string()),
    }
}

fn config(provider: LlmProvider, template: Option<&str>) -> LlmConfig {
    LlmConfig {
        provider,
        endpoint: "https://llm/api".to_string(),
        model: "m1".to_string(),
        prompt_template: template.map(|s| s.to_string()),
    }
}

#[test]
fn prompt_lists_items() {
    let items = vec![item(Some("Hello"), Some("tech"), Some("Body")), item(None, None, None)];
    let text = format_items_for_prompt(&items);
    assert_eq!(
        text,
        "1. Hello\n   Source: Blog | URL: https://b/1\n   Category: tech\n   Body\n\n2. \n   Source: Blog | URL: https://b/1\n\n"
    );
    assert_eq!(format_items_for_prompt(&[]), "");
}

#[test]
fn prompt_content_is_cut_to_500_characters() {
    let long: String = "é".repeat(600);
    let text = format_items_for_prompt(&[item(None, None, Some(&long))]);
    let expected = format!("1. \n   Source: Blog | URL: https://b/1\n   {}\n\n", "é".repeat(500));
    assert_eq!(text, expected);
}

#[test]
fn anthropic_request_needs_a_key() {
    let items = vec![item(Some("T"), None, None)];
    match summarize_request(&config(LlmProvider::Claude, None), None, &items) {
        Err(e) => assert_eq!(e, LlmError::MissingApiKey),
        Ok(_) => panic!("a key is required"),
    }
    let req = summarize_request(&config(LlmProvider::Claude, None), Some("sk"), &items).ok().unwrap();
    assert_eq!(req.endpoint, "https://llm/api");
    assert_eq!(req.headers, vec![("x-api-key".to_string(), "sk".to_string()), ("anthropic-version".to_string(), "2023-06-01".to_string())]);
    assert_eq!(req.bearer, None);
    match req.body {
        LlmRequestBody::Claude { model, max_tokens, system, user } => {
            assert_eq!(model, "m1");
            assert_eq!(max_tokens, 4096);
            assert_eq!(system, DEFAULT_PROMPT);
            assert_eq!(user, format!("Here are the items to summarize:\n\n{}", format_items_for_prompt(&items)));
        },
        other => panic!("{:?}", other),
    }
}

#[test]
fn ollama_request_needs_no_key() {
    let req = summarize_request(&config(LlmProvider::Ollama, Some("Custom")), None, &[]).ok().unwrap();
    assert!(req.headers.is_empty());
    match req.body {
        LlmRequestBody::Ollama { model, stream, system, prompt } => {
            assert_eq!(model, "m1");
            assert!(!stream);
            assert_eq!(system, "Custom");
            assert_eq!(prompt, "Here are the items to summarize:\n\n");
        },
        other => panic!("{:?}", other),
    }
}

#[test]
fn openai_request_carries_an_optional_bearer() {
    let req = summarize_request(&config(LlmProvider::OpenaiCompat, None), Some("k"), &[]).ok().unwrap();
    assert_eq!(req.bearer.as_deref(), Some("k"));
    let req = summarize_request(&config(LlmProvider::OpenaiCompat, None), None, &[]).ok().unwrap();
    assert_eq!(req.bearer, None);
    assert!(matches!(req.body, LlmRequestBody::OpenaiCompat { .. }));
}

fn obj(fields: Vec<(&str, Json)>) -> Json {
    Json::Object(fields.into_iter().map(|(k, v)| (k.to_string(), v)).collect(), "{}".to_string())
}

fn arr(items: Vec<Json>) -> Json {
    Json::Array(items, "[]".to_string())
}

#[test]
fn replies_are_read_where_each_provider_puts_them() {
    let claude = obj(vec![("content", arr(vec![obj(vec![("text", Json::Str("sum A".to_string()))])]))]);
    assert_eq!(read_reply(LlmProvider::Claude, Some(&claude)).ok().unwrap(), "sum A");
    let ollama = obj(vec![("response", Json::Str("sum B".to_string()))]);
    assert_eq!(read_reply(LlmProvider::Ollama, Some(&ollama)).ok().unwrap(), "sum B");
    let openai = obj(vec![(
        "choices",
        arr(vec![obj(vec![("message", obj(vec![("content", Json::Str("sum C".to_string()))]))])]),
    )]);
    assert_eq!(read_reply(LlmProvider::OpenaiCompat, Some(&openai)).ok().unwrap(), "sum C");
}

#[test]
fn reply_errors() {
    assert_eq!(
        read_reply(LlmProvider::Ollama, None),
        Err(LlmError::UnparsableReply { provider: LlmProvider::Ollama })
    );
    let wrong = obj(vec![("response", Json::Number("1".to_string()))]);
    assert_eq!(
        read_reply(LlmProvider::Ollama, Some(&wrong)),
        Err(LlmError::UnexpectedFormat { provider: LlmProvider::Ollama })
    );
    let empty = obj(vec![("content", arr(vec![]))]);
    assert_eq!(
        read_reply(LlmProvider::Claude, Some(&empty)),
        Err(LlmError::UnexpectedFormat { provider: LlmProvider::Claude })
    );
}

#[test]
fn reply_bodies_are_read_as_json() {
    assert_eq!(
        read_reply_text(LlmProvider::Claude, r#"{"content":[{"type":"text","text":"Digest"}]}"#),
        Ok("Digest".to_string())
    );
    assert_eq!(
        read_reply_text(LlmProvider::OpenaiCompat, r#"{"choices":[{"message":{"content":"D2"}}]}"#),
        Ok("D2".to_string())
    );
    assert_eq!(read_reply_text(LlmProvider::Ollama, r#"{"response": "D3", "done": true}"#), Ok("D3".to_string()));
    assert_eq!(
        read_reply_text(LlmProvider::Ollama, "<html>"),
        Err(LlmError::UnparsableReply { provider: LlmProvider::Ollama })
    );
    assert_eq!(
        read_reply_text(LlmProvider::Claude, r#"{"content":[]}"#),
        Err(LlmError::UnexpectedFormat { provider: LlmProvider::Claude })
    );
}
