use rustling::config::EmailConfig;
use rustling::email::{digest_mail, digest_subject, is_success, send_outcome, EmailError};
use rustling::models::{Digest, Item};
use rustling::store::{lookback_cutoff, DigestRecord, DigestRow, ItemRecord, ItemRow};
use rustling::time::Timestamp;

fn at() -> Timestamp {
    Timestamp::from_unix(1_704_164_645, 0).unwrap()
}

#[test]
fn timestamps_follow_chronos_range() {
    assert!(Timestamp::from_unix(0, 0).is_some());
    assert!(Timestamp::from_unix(59, 1_500_000_000).is_some());
    assert!(Timestamp::from_unix(58, 1_500_000_000).is_none());
    assert!(Timestamp::from_unix(0, 2_000_000_000).is_none());
    assert!(Timestamp::from_unix(8_210_266_876_799, 0).is_some());
    assert!(Timestamp::from_unix(8_210_266_876_800, 0).is_none());
    assert!(Timestamp::from_unix(-8_334_601_228_800, 0).is_some());
    assert!(Timestamp::from_unix(-8_334_601_228_801, 0).is_none());
    let t = at();
    assert_eq!(t.secs(), 1_704_164_645);
    assert_eq!(t.nanos(), 0);
}

fn item(published: Option<Timestamp>) -> Item {
    Item {
        id: None,
        source_name: "S".to_string(),
        source_type: "rss".to_string(),
        url: "https://u".to_string(),
        title: Some("T".to_string()),
        content: None,
        published_at: published,
        fetched_at: Timestamp::from_unix(1_704_164_645, 123_000_000).unwrap(),
        category: Some("c".to_string()),
    }
}

#[test]
fn items_are_stored_with_rfc3339_times() {
    let rec = ItemRecord::from_item(&item(Some(at())));
    assert_eq!(rec.fetched_at, "2024-01-02T03:04:05.123+00:00");
    assert_eq!(rec.published_at.as_deref(), Some("2024-01-02T03:04:05+00:00"));
    assert_eq!(rec.url, "https://u");
    assert_eq!(rec.title.as_deref(), Some("T"));
    assert_eq!(rec.category.as_deref(), Some("c"));
    assert_eq!(ItemRecord::from_item(&item(None)).published_at, None);
}

fn row(published: Option<&str>, fetched: Option<&str>) -> ItemRow {
    ItemRow {
        id: 7,
        source_name: "S".to_string(),
        source_type: "rss".to_string(),
        url: "https://u".to_string(),
        title: None,
        content: Some("c".to_string()),
        published_at: published.map(|s| s.to_string()),
        fetched_at: fetched.map(|s| s.to_string()),
        category: None,
    }
}

#[test]
fn stored_items_read_back() {
    let it = Item::from_row(row(Some("2024-01-02T04:04:05+01:00"), Some("2024-01-02T03:04:05.123+00:00")));
    assert_eq!(it.id, Some(7));
    assert_eq!(it.published_at, Some(at()));
    assert_eq!(it.fetched_at, Timestamp::from_unix(1_704_164_645, 123_000_000).unwrap());
    assert_eq!(it.content.as_deref(), Some("c"));
    let it = Item::from_row(row(Some("yesterday"), None));
    assert_eq!(it.published_at, None);
    assert!(it.fetched_at.secs() > 1_704_164_645);
}

#[test]
fn stored_digests_read_back() {
    let d = Digest::from_row(DigestRow {
        id: 3,
        created_at: Some("2024-01-02T03:04:05Z".to_string()),
        summary: "S".to_string(),
        item_count: 4,
        sent: 0,
    });
    assert_eq!(d.id, Some(3));
    assert_eq!(d.created_at, at());
    assert_eq!(d.item_count, 4);
    assert!(!d.sent);
    let d = Digest::from_row(DigestRow { id: 3, created_at: None, summary: String::new(), item_count: 0, sent: 2 });
    assert!(d.sent);
    let d = Digest::inserted(9, at(), "sum", 2);
    assert_eq!(d.id, Some(9));
    assert_eq!(d.summary, "sum");
    assert!(!d.sent);
}

#[test]
fn cutoff_is_hours_earlier() {
    assert_eq!(lookback_cutoff(at(), 24).unwrap().secs(), 1_704_164_645 - 86_400);
    assert_eq!(lookback_cutoff(at(), 0), Some(at()));
    assert_eq!(lookback_cutoff(at(), u64::MAX / 2), None);
    assert_eq!(lookback_cutoff(at(), u64::MAX).unwrap().secs(), 1_704_164_645 + 3_600);
}

#[test]
fn cutoff_from_a_leap_second() {
    let leap = Timestamp::from_unix(59, 1_500_000_000).unwrap();
    let c = lookback_cutoff(leap, 1).unwrap();
    assert_eq!(c.secs(), 59 + 1 - 3_600);
    assert_eq!(c.nanos(), 500_000_000);
    assert_eq!(lookback_cutoff(leap, 0), Some(leap));
}

fn email(prefix: Option<&str>) -> EmailConfig {
    EmailConfig {
        from: "digest@x".to_string(),
        to: vec!["a@x".to_string(), "b@x".to_string()],
        subject_prefix: prefix.map(|s| s.to_string()),
    }
}

#[test]
fn digest_mail_subject_and_recipients() {
    let d = Digest::inserted(1, at(), "<p>hi</p>", 1);
    assert_eq!(digest_subject(&email(None), &d), "Rustling Digest - 2024-01-02");
    assert_eq!(digest_subject(&email(Some("Daily")), &d), "Daily - 2024-01-02");
    let m = digest_mail(&email(None), &d);
    assert_eq!(m.to, vec!["a@x".to_string(), "b@x".to_string()]);
    assert_eq!(m.from, "digest@x");
    assert_eq!(m.html, "<p>hi</p>");
}

#[test]
fn sendgrid_status() {
    assert!(is_success(200));
    assert!(is_success(202));
    assert!(is_success(299));
    assert!(!is_success(300));
    assert!(!is_success(199));
    assert_eq!(send_outcome(202, String::new()), Ok(()));
    assert_eq!(
        send_outcome(401, "denied".to_string()),
        Err(EmailError::Rejected { status: 401, body: "denied".to_string() })
    );
}

#[test]
fn items_read_back_as_written() {
    let leap = Timestamp::from_unix(1_704_164_699, 1_000_000_007).unwrap();
    let mut written = item(Some(leap));
    written.content = Some("body".to_string());
    let rec = ItemRecord::from_item(&written);
    let read = Item::from_row(ItemRow {
        id: 11,
        source_name: rec.source_name.clone(),
        source_type: rec.source_type.clone(),
        url: rec.url.clone(),
        title: rec.title.clone(),
        content: rec.content.clone(),
        published_at: rec.published_at.clone(),
        fetched_at: Some(rec.fetched_at.clone()),
        category: rec.category.clone(),
    });
    assert_eq!(read.id, Some(11));
    assert_eq!(read.published_at, Some(leap));
    assert_eq!(read.fetched_at, written.fetched_at);
    assert_eq!(read.url, written.url);
    assert_eq!(read.title, written.title);
    assert_eq!(read.content, written.content);
    assert_eq!(read.category, written.category);
}

#[test]
fn digests_read_back_as_written() {
    let created = Timestamp::from_unix(1_704_164_645, 250_000).unwrap();
    let rec = DigestRecord::new(created, "summary", 5);
    assert_eq!(rec.created_at, "2024-01-02T03:04:05.000250+00:00");
    assert_eq!(rec.item_count, 5);
    assert_eq!(rec.sent, 0);
    let read = Digest::from_row(DigestRow {
        id: 4,
        created_at: Some(rec.created_at.clone()),
        summary: rec.summary.clone(),
        item_count: rec.item_count,
        sent: rec.sent,
    });
    let inserted = Digest::inserted(4, created, "summary", 5);
    assert_eq!(read.id, inserted.id);
    assert_eq!(read.created_at, inserted.created_at);
    assert_eq!(read.summary, inserted.summary);
    assert_eq!(read.item_count, inserted.item_count);
    assert_eq!(read.sent, inserted.sent);
    assert_eq!(created.to_rfc3339(), rec.created_at);
}

#[test]
fn subject_dates_follow_chronos_year_format() {
    let subject = |secs: i64| {
        let d = Digest::inserted(1, Timestamp::from_unix(secs, 0).unwrap(), "s", 0);
        digest_subject(&email(Some("D")), &d)
    };
    assert_eq!(subject(-1), "D - 1969-12-31");
    assert_eq!(subject(-62_135_596_800), "D - 0001-01-01");
    assert_eq!(subject(-62_167_219_200), "D - 0000-01-01");
    assert_eq!(subject(-62_167_219_201), "D - -0001-12-31");
    assert_eq!(subject(253_402_300_799), "D - 9999-12-31");
    assert_eq!(subject(253_402_300_800), "D - +10000-01-01");
    assert_eq!(subject(-8_334_601_228_800), "D - -262143-01-01");
    assert_eq!(subject(8_210_266_876_799), "D - +262142-12-31");
    assert_eq!(subject(951_782_400), "D - 2000-02-29");
}
