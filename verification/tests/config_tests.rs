use rustling::config::{
    default_database_path, default_lookback_hours, default_max_items, ConfigError, Keywords,
    MappingStrategy, McpMappingConfig, Secrets, TimeRange,
};

fn words(k: &Keywords) -> Vec<&str> {
    k.0.iter().map(|s| s.as_str()).collect()
}

#[test]
fn time_range_names() {
    assert_eq!(TimeRange::Day.as_str(), "day");
    assert_eq!(TimeRange::Week.as_str(), "week");
    assert_eq!(TimeRange::Month.as_str(), "month");
    assert_eq!(TimeRange::Year.as_str(), "year");
}

#[test]
fn time_range_defaults_to_day() {
    assert_eq!(TimeRange::default(), TimeRange::Day);
}

#[test]
fn keywords_parse_trims_lowercases_and_drops_empty() {
    let k = Keywords::parse("rust, Kubernetes ,, LLM ,security, ");
    assert_eq!(words(&k), vec!["rust", "kubernetes", "llm", "security"]);
}

#[test]
fn keywords_parse_empty_text_gives_no_keywords() {
    let k = Keywords::parse("");
    assert!(k.is_empty());
    let k = Keywords::parse(" ,  , ");
    assert!(k.is_empty());
}

#[test]
fn keywords_parse_unicode_whitespace_and_case() {
    let k = Keywords::parse("\u{3000}Tokio\u{a0},\tÉCOLE\n");
    assert_eq!(words(&k), vec!["tokio", "école"]);
}

#[test]
fn keywords_match_case_insensitively() {
    let k = Keywords(vec!["rust".to_string(), "llm".to_string()]);
    assert!(k.matches("Learning RUST today"));
    assert!(k.matches("new LLMs released"));
    assert!(!k.matches("Go 1.23 is out"));
    assert!(!k.matches(""));
}

#[test]
fn upper_case_keywords_match_lower_case_text() {
    let k = Keywords(vec!["Rust".to_string()]);
    assert!(k.matches("rust"));
    assert!(k.matches("RUST"));
    assert!(!k.matches("rus"));
}

#[test]
fn no_keywords_match_everything() {
    let k = Keywords::default();
    assert!(k.is_empty());
    assert!(k.matches("anything at all"));
    assert!(k.matches(""));
}

#[test]
fn keywords_are_not_empty_when_given() {
    let k = Keywords(vec!["x".to_string()]);
    assert!(!k.is_empty());
}

#[test]
fn mapping_defaults() {
    let m = McpMappingConfig::default();
    assert_eq!(m.strategy, MappingStrategy::JsonArray);
    assert_eq!(m.results_path, None);
    assert_eq!(m.url_prefix, None);
    assert_eq!(m.url_field.as_deref(), Some("url"));
    assert_eq!(m.title_field.as_deref(), Some("title"));
    assert_eq!(m.content_field.as_deref(), Some("content"));
    assert_eq!(MappingStrategy::default(), MappingStrategy::JsonArray);
}

#[test]
fn general_defaults() {
    assert_eq!(default_database_path(), "rustling.db");
    assert_eq!(default_lookback_hours(), 24);
    assert_eq!(default_max_items(), 50);
}

#[test]
fn secrets_need_the_sendgrid_key() {
    match Secrets::from_vars(None, Some("k".to_string())) {
        Err(e) => assert_eq!(e, ConfigError::MissingSendgridApiKey),
        Ok(_) => panic!("a missing SendGrid key must be refused"),
    }
    let s = Secrets::from_vars(Some("SG.x".to_string()), None).ok().unwrap();
    assert_eq!(s.sendgrid_api_key, "SG.x");
    assert_eq!(s.llm_api_key, None);
    let s = Secrets::from_vars(Some("SG.x".to_string()), Some("sk".to_string())).ok().unwrap();
    assert_eq!(s.llm_api_key.as_deref(), Some("sk"));
}
