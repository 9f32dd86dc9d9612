use feed_poster::average_updater::AverageUpdater;
use feed_poster::charset::{decode_text, utf8_text};
use feed_poster::duration::Duration;
use feed_poster::iso8601::ISO8601;
use feed_poster::readable_string::ReadableString;
use feed_poster::reload::new_feeds;
use feed_poster::schedule::{initial_wait, initial_wait_now, JITTER_MAX_SECS, JITTER_MIN_SECS};
use feed_poster::schema::FeedConfig;

fn feed(id: &str) -> FeedConfig {
    FeedConfig { id: id.to_string(), url: format!("https://{}.test/feed", id), token: "SECRET-REDACTED".to_string(), tag: None }
}

#[test]
fn readable_durations() {
    assert_eq!(Duration::seconds(3661).to_readable_string(), "1時間1分1秒");
    assert_eq!(Duration::seconds(0).to_readable_string(), "0秒");
    assert_eq!(Duration::minutes(2).to_readable_string(), "2分");
    assert_eq!(Duration::seconds(7200).to_readable_string(), "2時間");
    assert_eq!(Duration::seconds(-5).to_readable_string(), "-5秒");
}

#[test]
fn iso8601_durations() {
    assert_eq!(Duration::seconds(3661).to_iso8601(), "PT1H1M1S");
    assert_eq!(Duration::seconds(0).to_iso8601(), "PT");
    // Days count within 30-day months, apart from the 365-day year.
    assert_eq!(Duration::seconds(31_536_000 + 2_592_000 + 86_400 + 5).to_iso8601(), "P1Y1M6DT5S");
    assert_eq!(Duration::seconds(90_061).to_iso8601(), "P1DT1H1M1S");
    assert_eq!(Duration::seconds(-61).to_iso8601(), "PT");
}

#[test]
fn reload_starts_each_new_id_once() {
    let mut seen = vec!["a".to_string()];
    let feeds = vec![feed("a"), feed("b"), feed("c"), feed("b")];
    assert_eq!(new_feeds(&mut seen, &feeds), vec![1, 2]);
    assert_eq!(seen, vec!["a".to_string(), "b".to_string(), "c".to_string()]);
    assert_eq!(new_feeds(&mut seen, &feeds), Vec::<usize>::new());
}

#[test]
fn average_of_update_gaps() {
    let mut u = AverageUpdater::new();
    assert_eq!(u.get_next_wait().seconds, 43_200);
    u.update(1_000_000);
    assert_eq!(*u.last_time(), Some(1_000_000));
    assert_eq!(u.get_next_wait().seconds, 43_200);
    u.update(1_001_000);
    assert_eq!(u.get_next_wait().seconds, 1000);
    u.update(1_001_100);
    assert_eq!(u.get_next_wait().seconds, 550);
    u.update(1_001_110);
    assert_eq!(u.get_next_wait().seconds, 300);
    u.set_last_title(Some("t".to_string()));
    assert_eq!(u.last_title().as_deref(), Some("t"));
}

#[test]
fn average_from_rfc2822() {
    let mut u = AverageUpdater::new();
    assert!(u.update_from_rfc2822("Tue, 1 Jul 2003 10:52:37 +0200"));
    assert_eq!(*u.last_time(), Some(1_057_049_557));
    assert!(u.update_from_rfc2822("Tue, 1 Jul 2003 11:02:37 +0200"));
    assert_eq!(u.get_next_wait().seconds, 600);
    assert!(!u.update_from_rfc2822("not a date"));
    assert_eq!(*u.last_time(), Some(1_057_050_157));
}

#[test]
fn first_wait_after_start() {
    assert_eq!(initial_wait(1_000_500, 1_000_000), 500);
    let w = initial_wait(0, 1_000_000);
    assert!((JITTER_MIN_SECS..=JITTER_MAX_SECS).contains(&w));
    let past = initial_wait(999_000, 1_000_000);
    assert!((JITTER_MIN_SECS..=JITTER_MAX_SECS).contains(&past));
    let (now, w) = initial_wait_now(0);
    assert!(now > 1_600_000_000);
    assert!((JITTER_MIN_SECS..=JITTER_MAX_SECS).contains(&w));
    let (now, w) = initial_wait_now(4_000_000_000);
    assert_eq!(w, 4_000_000_000 - now);
}

#[test]
fn page_text_prefers_header_charset() {
    // "テスト" in Shift_JIS.
    let sjis: Vec<u8> = vec![0x83, 0x65, 0x83, 0x58, 0x83, 0x67];
    let header = Some("text/html; charset=Shift_JIS".to_string());
    assert_eq!(decode_text(&sjis, &header, &None), "テスト");
    let meta = Some("text/html; charset=shift_jis".to_string());
    let unknown = Some("text/html; charset=nonsense".to_string());
    assert_eq!(decode_text(&sjis, &unknown, &meta), "テスト");
    assert_eq!(decode_text(&sjis, &None, &meta), "テスト");
    let utf8 = "héllo".as_bytes().to_vec();
    assert_eq!(decode_text(&utf8, &None, &None), "héllo");
    assert_eq!(utf8_text(&utf8), "héllo");
    assert_ne!(decode_text(&sjis, &None, &None), "テスト");
}
