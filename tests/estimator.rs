use feed_poster::feed::{Entry, Feed};
use feed_poster::feed_info::{median, typical_gap, Model, WaitLimits, NEVER};

const T0: i64 = 1_700_000_000;

fn entry_at(t: Option<i64>) -> Entry {
    Entry {
        title: Some("t".to_string()),
        links: vec!["https://example.com/a".to_string()],
        categories: vec![],
        published: t,
        updated: None,
    }
}

fn feed_of(ttl: Option<u32>, times: &[i64]) -> Feed {
    Feed { ttl, entries: times.iter().map(|t| entry_at(Some(*t))).collect() }
}

#[test]
fn first_delay_follows_entry_spacing() {
    let mut info = Model::new("news".to_string());
    let feed = feed_of(Some(60), &[T0, T0 + 600, T0 + 1200]);
    let now = T0 + 1300;
    let d = info.update_next_fetch(&feed, now, &WaitLimits::default());
    assert_eq!(d, 600);
    assert_eq!(info.last_fetch, now);
    assert_eq!(info.next_fetch, now + 600);
}

#[test]
fn first_delay_with_few_entries_is_a_sixth_of_ttl() {
    let feed = feed_of(Some(120), &[T0, T0 + 600]);
    assert_eq!(Model::get_first_duration(&feed, T0 + 700, 300), 1200);
    let no_ttl = feed_of(None, &[T0]);
    assert_eq!(Model::get_first_duration(&no_ttl, T0 + 700, 300), 600);
}

#[test]
fn first_delay_is_bounded_by_ttl_and_floor() {
    let wide = feed_of(Some(10), &[T0, T0 + 3000, T0 + 6000]);
    assert_eq!(Model::get_first_duration(&wide, T0 + 7000, 300), 600);
    let dense = feed_of(Some(60), &[T0, T0 + 10, T0 + 20]);
    assert_eq!(Model::get_first_duration(&dense, T0 + 30, 300), 300);
}

#[test]
fn single_new_entry_mirrors_gap() {
    let last = T0;
    let now = T0 + 2400;
    let feed = feed_of(None, &[T0 - 7200, T0 - 3600, T0 + 1800]);
    assert_eq!(Model::get_next_duration(&feed, last, now), 1800);
    let mut info = Model { source: "s".to_string(), last_fetch: last, next_fetch: last + 600 };
    assert_eq!(info.update_next_fetch(&feed, now, &WaitLimits::default()), 1800);
    assert_eq!(info.next_fetch, now + 1800);
}

#[test]
fn burst_halves_elapsed() {
    let feed = feed_of(None, &[T0 + 100, T0 + 200, T0 - 50]);
    assert_eq!(Model::get_next_duration(&feed, T0, T0 + 2400), 1200);
}

#[test]
fn empty_feed_backs_off() {
    let feed = feed_of(None, &[]);
    assert_eq!(Model::get_next_duration(&feed, T0, T0 + 1200), 1800);
    let undated = Feed { ttl: None, entries: vec![entry_at(None)] };
    assert_eq!(Model::get_next_duration(&undated, T0, T0 + 1200), 1800);
}

#[test]
fn quiet_feed_follows_median() {
    // Entries every hour, nothing new since the last poll.
    let feed = feed_of(None, &[T0 - 10800, T0 - 7200, T0 - 3600]);
    // Elapsed below a sixth of the median: wait a sixth of the median.
    assert_eq!(Model::get_next_duration(&feed, T0, T0 + 100), 600);
    // Elapsed below the median: grow by a tenth.
    assert_eq!(Model::get_next_duration(&feed, T0, T0 + 1000), 1100);
    // Elapsed past the median: grow by half.
    assert_eq!(Model::get_next_duration(&feed, T0, T0 + 4000), 6000);
}

#[test]
fn quiet_feed_without_long_gaps_backs_off() {
    let feed = feed_of(None, &[T0 - 100, T0 - 50, T0 - 10]);
    assert_eq!(Model::get_next_duration(&feed, T0, T0 + 1000), 1500);
}

#[test]
fn clock_going_back_gives_negative_elapsed() {
    let feed = feed_of(None, &[]);
    assert_eq!(Model::get_next_duration(&feed, T0, T0 - 500), -750);
    let burst = feed_of(None, &[T0 + 100, T0 + 200]);
    assert_eq!(Model::get_next_duration(&burst, T0, T0 - 501), -250);
    let mut info = Model { source: "s".to_string(), last_fetch: T0, next_fetch: T0 };
    assert_eq!(info.update_next_fetch(&feed, T0 - 500, &WaitLimits::default()), 300);
}

#[test]
fn delay_is_clamped_to_limits() {
    let limits = WaitLimits { min_wait: 300, max_wait: 3600 };
    let feed = feed_of(None, &[]);
    let mut info = Model { source: "s".to_string(), last_fetch: T0, next_fetch: T0 };
    assert_eq!(info.update_next_fetch(&feed, T0 + 100_000, &limits), 3600);
    let mut info = Model { source: "s".to_string(), last_fetch: T0, next_fetch: T0 };
    assert_eq!(info.update_next_fetch(&feed, T0 + 10, &limits), 300);
    let mut fresh = Model::new("s".to_string());
    let wide = feed_of(Some(600), &[T0, T0 + 20000, T0 + 40000]);
    assert_eq!(fresh.update_next_fetch(&wide, T0 + 50000, &limits), 3600);
}

#[test]
fn median_gap_ignores_bursts() {
    let minutes = [0i64, 1, 10, 11, 20];
    let times: Vec<i64> = minutes.iter().map(|m| T0 + m * 60).collect();
    assert_eq!(typical_gap(&times), Some(540));
    let times = vec![T0, T0 + 60, T0 + 120];
    assert_eq!(typical_gap(&times), None);
}

#[test]
fn median_of_odd_and_even_lists() {
    assert_eq!(median(vec![900, 300, 600]), 600);
    assert_eq!(median(vec![400, 300, 1000, 600]), 500);
    assert_eq!(median(vec![7]), 7);
}

#[test]
fn new_record_is_never_fetched() {
    let info = Model::new("id".to_string());
    assert_eq!(info.last_fetch, NEVER);
    assert_eq!(info.next_fetch, NEVER);
    assert_eq!(info.source, "id");
}

#[test]
fn refresh_reads_the_clock() {
    let mut info = Model::new("id".to_string());
    let feed = feed_of(None, &[]);
    let d = info.refresh(&feed, &WaitLimits::default());
    assert!(info.last_fetch > 1_600_000_000);
    assert!((300..=3600).contains(&d));
    assert_eq!(info.next_fetch, info.last_fetch + d);
}
