use feed_poster::publish::{queue_depth, Action, PostResult, Publisher, MAX_RETRIES, RETRY_DELAY_MS};

#[test]
fn dry_run_never_calls_the_endpoint() {
    let (_, action) = Publisher::start(true);
    match action {
        Action::Record(id) => assert!(id.is_empty()),
        _ => panic!("a dry run records an empty id without a call"),
    }
}

#[test]
fn real_run_sends_first() {
    let (p, action) = Publisher::start(false);
    assert!(matches!(action, Action::Send));
    assert_eq!(p.retries, 0);
}

#[test]
fn rate_limits_within_bound_are_ridden_out() {
    let (mut p, action) = Publisher::start(false);
    assert!(matches!(action, Action::Send));
    let mut calls = 1;
    let results = vec![PostResult::RateLimited, PostResult::RateLimited, PostResult::Posted("110".to_string())];
    let mut outcome = None;
    for res in results {
        match p.on_result(res) {
            Action::RetryAfter(ms) => {
                assert_eq!(ms, RETRY_DELAY_MS);
                calls += 1;
            }
            Action::Record(id) => {
                outcome = Some(id);
                break;
            }
            _ => panic!("no failure expected"),
        }
    }
    assert_eq!(calls, 3);
    assert_eq!(outcome, Some("110".to_string()));
}

#[test]
fn rate_limits_past_bound_give_up() {
    let (mut p, _) = Publisher::start(false);
    for _ in 0..MAX_RETRIES {
        assert!(matches!(p.on_result(PostResult::RateLimited), Action::RetryAfter(_)));
    }
    assert!(matches!(p.on_result(PostResult::RateLimited), Action::GiveUp));
}

#[test]
fn other_failures_are_not_retried() {
    let (mut p, _) = Publisher::start(false);
    assert!(matches!(p.on_result(PostResult::Failed), Action::GiveUp));
    assert_eq!(p.retries, 0);
}

#[test]
fn queue_depth_leaves_out_first_sight_records() {
    assert_eq!(queue_depth(10, 3), 7);
    assert_eq!(queue_depth(2, 3), 0);
}
