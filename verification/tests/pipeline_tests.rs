use rustling::config::Keywords;
use rustling::models::Item;
use rustling::pipeline::{
    digest_item_ids, filter_by_keywords, Run, RunAction, RunEvent, RunOutcome, RunPhase,
};
use rustling::time::Timestamp;

fn at() -> Timestamp {
    Timestamp::from_unix(1_704_164_645, 0).unwrap()
}

fn item(id: Option<i64>, url: &str, title: Option<&str>, content: Option<&str>) -> Item {
    Item {
        id,
        source_name: "src".to_string(),
        source_type: "rss".to_string(),
        url: url.to_string(),
        title: title.map(|t| t.to_string()),
        content: content.map(|c| c.to_string()),
        published_at: None,
        fetched_at: at(),
        category: None,
    }
}

fn urls(items: &[Item]) -> Vec<&str> {
    items.iter().map(|i| i.url.as_str()).collect()
}

#[test]
fn keyword_filter_keeps_title_or_content_matches() {
    let kw = Keywords(vec!["rust".to_string(), "llm".to_string()]);
    let items = vec![
        item(None, "a", Some("Rust 2.0"), None),
        item(None, "b", Some("Go news"), Some("nothing here")),
        item(None, "c", None, Some("local LLM tricks")),
        item(None, "d", None, None),
    ];
    let kept = filter_by_keywords(&kw, items);
    assert_eq!(urls(&kept), vec!["a", "c"]);
}

#[test]
fn no_keywords_keep_every_item() {
    let items = vec![item(None, "a", None, None), item(None, "b", Some("x"), None)];
    let kept = filter_by_keywords(&Keywords::default(), items);
    assert_eq!(urls(&kept), vec!["a", "b"]);
}

#[test]
fn keyword_filter_twice_is_filter_once() {
    let kw = Keywords(vec!["rust".to_string()]);
    let items = vec![
        item(None, "a", Some("rust"), None),
        item(None, "b", Some("go"), None),
        item(None, "c", None, Some("RUSTY")),
    ];
    let once = filter_by_keywords(&kw, items);
    let once_urls: Vec<String> = once.iter().map(|i| i.url.clone()).collect();
    let twice = filter_by_keywords(&kw, once);
    assert_eq!(urls(&twice), once_urls.iter().map(|s| s.as_str()).collect::<Vec<_>>());
    assert_eq!(once_urls, vec!["a", "c"]);
}

#[test]
fn digest_links_the_stored_ids_in_order() {
    let items = vec![item(Some(3), "a", None, None), item(None, "b", None, None), item(Some(1), "c", None, None)];
    assert_eq!(digest_item_ids(&items), vec![3, 1]);
    assert_eq!(digest_item_ids(&[]), Vec::<i64>::new());
}

fn none() -> Keywords {
    Keywords::default()
}

#[test]
fn run_fetches_every_source_then_mails_and_marks() {
    let (run, action) = Run::start(2);
    assert!(matches!(action, RunAction::Fetch { source: 0 }));
    let (run, action) = run.step(&none(), RunEvent::FetchFailed);
    assert!(matches!(action, RunAction::Fetch { source: 1 }));
    let (run, action) = run.step(&none(), RunEvent::Fetched { items: vec![item(None, "a", None, None)] });
    assert!(matches!(action, RunAction::Store { ref items } if urls(items) == vec!["a"]));
    let (run, action) = run.step(&none(), RunEvent::Stored);
    assert!(matches!(action, RunAction::LoadUnsent));
    let (run, action) = run.step(&none(), RunEvent::UnsentLoaded { count: 0 });
    assert!(matches!(action, RunAction::SelectItems));
    let (run, action) = run.step(&none(), RunEvent::Selected { count: 4 });
    assert!(matches!(action, RunAction::Summarize));
    let (run, action) = run.step(&none(), RunEvent::Summarized);
    assert!(matches!(action, RunAction::RecordDigest));
    let (run, action) = run.step(&none(), RunEvent::Recorded { digest_id: 9 });
    assert!(matches!(action, RunAction::SendEmail { digest_id: 9 }));
    let (run, action) = run.step(&none(), RunEvent::Sent);
    assert!(matches!(action, RunAction::MarkSent { digest_id: 9 }));
    let (run, action) = run.step(&none(), RunEvent::Marked);
    assert!(matches!(action, RunAction::Finish { outcome: RunOutcome::Sent { digest_id: 9 } }));
    assert_eq!(run.phase, RunPhase::Done { outcome: RunOutcome::Sent { digest_id: 9 } });
}

#[test]
fn fetched_items_are_filtered_before_storing() {
    let kw = Keywords(vec!["rust".to_string()]);
    let (run, _) = Run::start(1);
    let fetched = vec![
        item(None, "a", Some("Rust news"), None),
        item(None, "b", Some("Go news"), None),
        item(None, "c", None, Some("more rust")),
    ];
    let (run, action) = run.step(&kw, RunEvent::Fetched { items: fetched });
    assert_eq!(run.phase, RunPhase::Storing { next: 0 });
    match action {
        RunAction::Store { items } => assert_eq!(urls(&items), vec!["a", "c"]),
        other => panic!("unexpected action {other:?}"),
    }
}

#[test]
fn unsent_digests_are_mailed_again_and_marked() {
    let (run, action) = Run::start(0);
    assert!(matches!(action, RunAction::LoadUnsent));
    let (run, action) = run.step(&none(), RunEvent::UnsentLoaded { count: 3 });
    assert!(matches!(action, RunAction::ResendEmail { index: 0 }));
    let (run, action) = run.step(&none(), RunEvent::Sent);
    assert!(matches!(action, RunAction::MarkResent { index: 0 }));
    let (run, action) = run.step(&none(), RunEvent::Marked);
    assert!(matches!(action, RunAction::ResendEmail { index: 1 }));
    let (run, action) = run.step(&none(), RunEvent::SendFailed);
    assert!(matches!(action, RunAction::ResendEmail { index: 2 }));
    let (run, action) = run.step(&none(), RunEvent::Sent);
    assert!(matches!(action, RunAction::MarkResent { index: 2 }));
    let (run, action) = run.step(&none(), RunEvent::Marked);
    assert!(matches!(action, RunAction::SelectItems));
    let (_, action) = run.step(&none(), RunEvent::Selected { count: 0 });
    assert!(matches!(action, RunAction::Finish { outcome: RunOutcome::NoNewItems }));
}

#[test]
fn run_without_sources_reads_unsent_digests_at_once() {
    let (run, action) = Run::start(0);
    assert!(matches!(action, RunAction::LoadUnsent));
    assert_eq!(run.phase, RunPhase::LoadingUnsent);
}

#[test]
fn run_without_items_makes_no_digest() {
    let run = Run { sources: 0, phase: RunPhase::Selecting };
    let (_, action) = run.step(&none(), RunEvent::Selected { count: 0 });
    assert!(matches!(action, RunAction::Finish { outcome: RunOutcome::NoNewItems }));
}

#[test]
fn failed_mail_is_not_marked() {
    let run = Run { sources: 0, phase: RunPhase::Sending { digest_id: 5 } };
    let (_, action) = run.step(&none(), RunEvent::SendFailed);
    assert!(matches!(action, RunAction::Finish { outcome: RunOutcome::NotSent { digest_id: 5 } }));
}

#[test]
fn failed_summary_fails_the_run() {
    let run = Run { sources: 0, phase: RunPhase::Summarizing };
    let (_, action) = run.step(&none(), RunEvent::SummaryFailed);
    assert!(matches!(action, RunAction::Finish { outcome: RunOutcome::SummaryFailed }));
}

#[test]
fn unexpected_event_aborts() {
    let run = Run { sources: 1, phase: RunPhase::Collecting { next: 0 } };
    let (_, action) = run.step(&none(), RunEvent::Sent);
    assert!(matches!(action, RunAction::Finish { outcome: RunOutcome::Aborted }));
}
