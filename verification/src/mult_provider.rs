//! Sending an RPC request over several nodes, retrying with a backoff: the
//! errors, and the decisions of the retry loop. Times are in a unit and
//! from an origin of the caller's choosing.
use vstd::prelude::*;

verus! {

/// Errors of the multi-node provider.
#[derive(Debug)]
pub enum MultiProviderError {
    NoProviders,
    AllBackoff,
    RequestFailed(String),
    SubscriptionFailed(String),
}

impl MultiProviderError {
    /// Whether the error is an error response of a node.
    pub fn is_error_response(&self) -> (r: bool)
        ensures
            r == self is RequestFailed,
    {
        match self {
            MultiProviderError::RequestFailed(_) => true,
            _ => false,
        }
    }

    /// Whether the error counts as a (de)serialization error: every error
    /// but a failed request.
    pub fn is_serde_error(&self) -> (r: bool)
        ensures
            r == !(self is RequestFailed),
    {
        match self {
            MultiProviderError::RequestFailed(_) => false,
            _ => true,
        }
    }
}

/// A node is out of its backoff: it never failed, or the time since its
/// last failure (zero if that lies ahead) is at least the backoff.
pub open spec fn out_of_backoff(failure: Option<u64>, now: u64, backoff: u64) -> bool {
    match failure {
        None => true,
        Some(t) => (if now >= t {
            now - t
        } else {
            0
        }) >= backoff,
    }
}

/// Every failure time plus the backoff fits in 64 bits.
pub open spec fn backoffs_fit(failures: Seq<Option<u64>>, backoff: u64) -> bool {
    forall|i: int|
        0 <= i < failures.len() ==> match #[trigger] failures[i] {
            Some(t) => t + backoff <= u64::MAX,
            None => true,
        }
}

/// The nodes among the first `n` that are out of their backoff, in order.
pub open spec fn available_prefix(failures: Seq<Option<u64>>, now: u64, backoff: u64, n: int) -> Seq<
    usize,
>
    decreases n,
{
    if n <= 0 {
        Seq::empty()
    } else {
        let prev = available_prefix(failures, now, backoff, n - 1);
        if out_of_backoff(failures[n - 1], now, backoff) {
            prev.push((n - 1) as usize)
        } else {
            prev
        }
    }
}

/// The earliest end of a backoff among the first `n` nodes that failed.
pub open spec fn earliest_prefix(failures: Seq<Option<u64>>, backoff: u64, n: int) -> Option<int>
    decreases n,
{
    if n <= 0 {
        None
    } else {
        let prev = earliest_prefix(failures, backoff, n - 1);
        match failures[n - 1] {
            None => prev,
            Some(t) => match prev {
                None => Some(t + backoff),
                Some(e) => Some(if t + backoff < e {
                    t + backoff
                } else {
                    e
                }),
            },
        }
    }
}

/// The nodes out of their backoff, in order.
pub fn available_nodes(failures: &Vec<Option<u64>>, now: u64, backoff: u64) -> (r: Vec<usize>)
    ensures
        r@ == available_prefix(failures@, now, backoff, failures@.len() as int),
{
    let mut r: Vec<usize> = Vec::new();
    let mut i: usize = 0;
    while i < failures.len()
        invariant
            i <= failures@.len(),
            r@ == available_prefix(failures@, now, backoff, i as int),
        decreases failures@.len() - i,
    {
        let ok = match failures[i] {
            None => true,
            Some(t) => {
                let since = if now >= t {
                    now - t
                } else {
                    0
                };
                since >= backoff
            },
        };
        if ok {
            r.push(i);
        }
        i = i + 1;
    }
    r
}

/// The earliest time at which a node leaves its backoff, if any node
/// failed.
pub fn earliest_retry(failures: &Vec<Option<u64>>, backoff: u64) -> (r: Option<u64>)
    requires
        backoffs_fit(failures@, backoff),
    ensures
        match earliest_prefix(failures@, backoff, failures@.len() as int) {
            Some(e) => r == Some(e as u64),
            None => r is None,
        },
{
    let mut r: Option<u64> = None;
    let mut i: usize = 0;
    while i < failures.len()
        invariant
            i <= failures@.len(),
            backoffs_fit(failures@, backoff),
            match earliest_prefix(failures@, backoff, i as int) {
                Some(e) => r is Some && r->0 == e,
                None => r is None,
            },
        decreases failures@.len() - i,
    {
        match failures[i] {
            Some(t) => {
                assert(match failures@[i as int] {
                    Some(t) => t + backoff <= u64::MAX,
                    None => true,
                });
                let w = t + backoff;
                r = match r {
                    None => Some(w),
                    Some(e) => Some(
                        if w < e {
                            w
                        } else {
                            e
                        },
                    ),
                };
            },
            None => {},
        }
        i = i + 1;
    }
    r
}

/// What the retry loop does next: ask a node, wait until a time, or give
/// up with an error.
#[derive(Debug)]
pub enum RetryStep {
    Request(usize),
    Sleep(u64),
    Fail(MultiProviderError),
}

/// The retry loop of a request: how many rounds have started, the nodes
/// of the current round and the next one to ask, and the last error.
#[derive(Debug)]
pub struct SendRaw {
    pub tries: usize,
    pub max_total_tries: usize,
    pub candidates: Vec<usize>,
    pub pos: usize,
    pub last_error: Option<String>,
}

/// A round asks at most one node per node of the pool.
pub proof fn lemma_round_size(failures: Seq<Option<u64>>, now: u64, backoff: u64, n: int)
    requires
        0 <= n <= failures.len(),
    ensures
        available_prefix(failures, now, backoff, n).len() <= n,
    decreases n,
{
    if n > 0 {
        lemma_round_size(failures, now, backoff, n - 1);
    }
}

/// The error of a request that failed on every attempt.
pub open spec fn failed_with(step: RetryStep, last_error: Option<String>) -> bool {
    step matches RetryStep::Fail(MultiProviderError::RequestFailed(m)) && match last_error {
        Some(e) => m@ == e@,
        None => m@ == "Unknown"@,
    }
}

impl SendRaw {
    /// The loop is within its budget: no more rounds started than allowed,
    /// and the position within the current round.
    pub open spec fn within_budget(&self) -> bool {
        &&& self.tries <= self.max_total_tries
        &&& self.pos <= self.candidates@.len()
    }

    /// Starts a request over `nodes` nodes: `None` (no providers) when
    /// there are none.
    pub fn start(nodes: usize, max_total_tries: usize) -> (r: Option<SendRaw>)
        ensures
            r is None <==> nodes == 0,
            r matches Some(s) ==> s.tries == 0 && s.max_total_tries == max_total_tries
                && s.candidates@.len() == 0 && s.pos == 0 && s.last_error is None,
            r matches Some(s) ==> s.within_budget(),
    {
        if nodes == 0 {
            None
        } else {
            Some(SendRaw { tries: 0, max_total_tries, candidates: Vec::new(), pos: 0, last_error: None })
        }
    }

    /// The error when the loop ends without an answer.
    fn give_up(&self) -> (r: RetryStep)
        ensures
            failed_with(r, self.last_error),
    {
        match &self.last_error {
            Some(e) => RetryStep::Fail(MultiProviderError::RequestFailed(e.clone())),
            None => RetryStep::Fail(MultiProviderError::RequestFailed("Unknown".to_owned())),
        }
    }

    /// Starts a round, given each node's last failure: with the tries used
    /// up, fail with the last error; else count the round and ask the first
    /// node out of its backoff, or, when all are in backoff, wait for the
    /// earliest to leave it (failing when none ever failed).
    pub fn begin_round(&mut self, failures: &Vec<Option<u64>>, now: u64, backoff: u64) -> (r:
        RetryStep)
        requires
            backoffs_fit(failures@, backoff),
        ensures
            final(self).max_total_tries == old(self).max_total_tries,
            final(self).last_error == old(self).last_error,
            old(self).tries >= old(self).max_total_tries ==> failed_with(r, old(self).last_error)
                && final(self).tries == old(self).tries,
            old(self).tries < old(self).max_total_tries ==> {
                let c = available_prefix(failures@, now, backoff, failures@.len() as int);
                &&& final(self).tries == old(self).tries + 1
                &&& final(self).candidates@ == c
                &&& final(self).pos == 0
                &&& c.len() > 0 ==> r == RetryStep::Request(c[0])
                &&& c.len() == 0 ==> match earliest_prefix(
                    failures@,
                    backoff,
                    failures@.len() as int,
                ) {
                    Some(e) => r == RetryStep::Sleep(e as u64),
                    None => r matches RetryStep::Fail(MultiProviderError::AllBackoff),
                }
            },
            old(self).within_budget() ==> final(self).within_budget(),
            r is Request ==> final(self).tries <= final(self).max_total_tries
                && final(self).candidates@.len() <= failures@.len(),
    {
        proof {
            lemma_round_size(failures@, now, backoff, failures@.len() as int);
        }
        if self.tries >= self.max_total_tries {
            return self.give_up();
        }
        self.tries = self.tries + 1;
        self.candidates = available_nodes(failures, now, backoff);
        self.pos = 0;
        if self.candidates.len() == 0 {
            match earliest_retry(failures, backoff) {
                Some(when) => RetryStep::Sleep(when),
                None => RetryStep::Fail(MultiProviderError::AllBackoff),
            }
        } else {
            RetryStep::Request(self.candidates[0])
        }
    }

    /// The node asked last failed with `error`: remember it; with the tries
    /// used up, or no node left in the round, start the next round (the
    /// result is `None`); else ask the next node.
    pub fn on_failure(&mut self, error: String) -> (r: Option<usize>)
        requires
            old(self).pos < old(self).candidates@.len(),
        ensures
            final(self).last_error == Some(error),
            final(self).tries == old(self).tries,
            final(self).max_total_tries == old(self).max_total_tries,
            final(self).candidates@ == old(self).candidates@,
            final(self).pos == old(self).pos + 1,
            r is Some <==> (old(self).tries < old(self).max_total_tries && old(self).pos + 1
                < old(self).candidates@.len()),
            r matches Some(i) ==> i == old(self).candidates@[old(self).pos + 1],
            old(self).within_budget() ==> final(self).within_budget(),
    {
        let n = self.candidates.len();
        assert(self.pos < n);
        let next = self.pos + 1;
        self.last_error = Some(error);
        self.pos = next;
        if self.tries >= self.max_total_tries {
            return None;
        }
        if self.pos < self.candidates.len() {
            Some(self.candidates[self.pos])
        } else {
            None
        }
    }
}

} // verus!
