use vstd::prelude::*;

verus! {

/// How many times a rate-limited post is tried again.
pub const MAX_RETRIES: u32 = 2;

/// Milliseconds to wait before trying a rate-limited post again.
pub const RETRY_DELAY_MS: u64 = 5000;

/// Seconds to cool down after a post failed for good.
pub const FAILED_POST_WAIT_SECS: i64 = 10;

/// Seconds between two posts by default, whatever their outcome.
pub const POST_INTERVAL_SECS: i64 = 5;

/// What one call to the posting endpoint gave.
pub enum PostResult {
    /// The post was made, under this id.
    Posted(String),
    /// The endpoint refused for now: too many requests.
    RateLimited,
    /// Any other failure.
    Failed,
}

/// What the publish loop does next for the entry at hand.
pub enum Action {
    /// Send the post body to the endpoint.
    Send,
    /// Wait this many milliseconds, then send again.
    RetryAfter(u64),
    /// Store this post id on the entry's record; the entry is done.
    Record(String),
    /// Report the failure and go on with the next entry after a cool-down; the entry
    /// stays recorded without a post id.
    GiveUp,
}

/// The publishing of one entry: how many retries were spent on it.
pub struct Publisher {
    pub retries: u32,
}

/// The action that follows a result, after `retries` retries.
pub open spec fn next_action(retries: u32, res: PostResult) -> Action {
    match res {
        PostResult::Posted(id) => Action::Record(id),
        PostResult::RateLimited => if retries < MAX_RETRIES {
            Action::RetryAfter(RETRY_DELAY_MS)
        } else {
            Action::GiveUp
        },
        PostResult::Failed => Action::GiveUp,
    }
}

impl Publisher {
    /// Begins publishing an entry. A dry run makes no call and records an empty post id;
    /// otherwise the body is sent.
    pub fn start(dry_run: bool) -> (r: (Publisher, Action))
        ensures
            r.0.retries == 0,
            dry_run ==> (r.1 matches Action::Record(id) && id@.len() == 0),
            !dry_run ==> r.1 is Send,
    {
        let p = Publisher { retries: 0 };
        if dry_run {
            (p, Action::Record(String::new()))
        } else {
            (p, Action::Send)
        }
    }

    /// The action that follows a result of the endpoint: a post id is recorded; a rate
    /// limit is retried after a fixed delay, at most `MAX_RETRIES` times; anything else
    /// is given up.
    pub fn on_result(&mut self, res: PostResult) -> (r: Action)
        requires
            old(self).retries <= MAX_RETRIES,
        ensures
            r == next_action(old(self).retries, res),
            final(self).retries == if r is RetryAfter {
                old(self).retries + 1
            } else {
                old(self).retries as int
            },
            final(self).retries <= MAX_RETRIES,
    {
        match res {
            PostResult::Posted(id) => Action::Record(id),
            PostResult::RateLimited => {
                if self.retries < MAX_RETRIES {
                    self.retries = self.retries + 1;
                    Action::RetryAfter(RETRY_DELAY_MS)
                } else {
                    Action::GiveUp
                }
            },
            PostResult::Failed => Action::GiveUp,
        }
    }
}

/// How publishing ends when the endpoint gives `results` in turn, after `retries`
/// retries: the final action, or `None` where the results run out first.
pub open spec fn settle(retries: u32, results: Seq<PostResult>) -> Option<Action>
    decreases results.len(),
{
    if results.len() == 0 {
        None
    } else {
        match next_action(retries, results[0]) {
            Action::RetryAfter(_) => settle((retries + 1) as u32, results.drop_first()),
            a => Some(a),
        }
    }
}

/// How many calls to the endpoint publishing makes when it gives `results` in turn.
pub open spec fn calls(retries: u32, results: Seq<PostResult>) -> nat
    decreases results.len(),
{
    if results.len() == 0 {
        0
    } else {
        match next_action(retries, results[0]) {
            Action::RetryAfter(_) => 1 + calls((retries + 1) as u32, results.drop_first()),
            _ => 1,
        }
    }
}

/// The post id that publishing an entry records, dry run or not, when the endpoint would
/// give `results`; `None` where nothing is recorded.
pub open spec fn recorded_id(dry_run: bool, results: Seq<PostResult>) -> Option<Seq<char>> {
    if dry_run {
        Some(Seq::empty())
    } else {
        match settle(0, results) {
            Some(Action::Record(id)) => Some(id@),
            _ => None,
        }
    }
}

/// How many calls to the endpoint publishing an entry makes.
pub open spec fn endpoint_calls(dry_run: bool, results: Seq<PostResult>) -> nat {
    if dry_run {
        0
    } else {
        calls(0, results)
    }
}

/// A dry run never calls the endpoint and never records a non-empty post id.
pub proof fn lemma_dry_run_never_posts(results: Seq<PostResult>)
    ensures
        endpoint_calls(true, results) == 0,
        recorded_id(true, results) == Some(Seq::<char>::empty()),
{
}

/// Publishing makes at most `MAX_RETRIES + 1` calls to the endpoint.
pub proof fn lemma_calls_bounded(retries: u32, results: Seq<PostResult>)
    requires
        retries <= MAX_RETRIES,
    ensures
        calls(retries, results) <= MAX_RETRIES - retries + 1,
    decreases results.len(),
{
    if results.len() > 0 {
        if next_action(retries, results[0]) is RetryAfter {
            lemma_calls_bounded((retries + 1) as u32, results.drop_first());
        }
    }
}

/// Rate limits within the bound are ridden out: two refusals and then a post end with
/// that post's id recorded, after three calls.
pub proof fn lemma_rides_out_rate_limits(id: String)
    ensures
        settle(0, seq![PostResult::RateLimited, PostResult::RateLimited, PostResult::Posted(id)])
            == Some(Action::Record(id)),
        calls(0, seq![PostResult::RateLimited, PostResult::RateLimited, PostResult::Posted(id)])
            == 3,
        recorded_id(false, seq![PostResult::RateLimited, PostResult::RateLimited, PostResult::Posted(id)])
            == Some(id@),
{
    let s = seq![PostResult::RateLimited, PostResult::RateLimited, PostResult::Posted(id)];
    assert(s.drop_first() =~= seq![PostResult::RateLimited, PostResult::Posted(id)]);
    assert(s.drop_first().drop_first() =~= seq![PostResult::Posted(id)]);
    assert(s.drop_first().drop_first().drop_first() =~= Seq::<PostResult>::empty());
    let s1 = s.drop_first();
    let s2 = s1.drop_first();
    assert(settle(2, s2) == Some(Action::Record(id)));
    assert(calls(2, s2) == 1);
    assert(settle(1, s1) == settle(2, s2));
    assert(calls(1, s1) == 1 + calls(2, s2));
    assert(settle(0, s) == settle(1, s1));
    assert(calls(0, s) == 1 + calls(1, s1));
}

/// The number of entries waiting to be posted: records without a post id, less the one
/// record per feed made on first sight, which is never posted.
pub fn queue_depth(unposted: u64, feeds: u64) -> (r: u64)
    ensures
        r == if unposted >= feeds {
            unposted - feeds
        } else {
            0
        },
{
    if unposted >= feeds {
        unposted - feeds
    } else {
        0
    }
}

} // verus!
