//! The retry and proof-of-work state machine behind every API call.
//!
//! Each attempt may first sleep (exponential back-off) or answer a pending
//! challenge, then posts the batch; the reply decides whether to retry,
//! fail, or hand back one raw result per request.

use vstd::prelude::*;

use crate::client::{api_path, joined_of, pairs_view, query_of, session_id_of, with_query_of, ClientState};
use crate::error::{Error, EAGAIN};
use crate::hashcash::{challenge_of, parse_challenge, proof_header, Challenge};
use crate::json::{json_array_of, json_i32_of, json_text_of, parse_array, parse_code, write_batch};

verus! {

/// The delay after `d`: doubled, but never above `max`.
pub open spec fn next_delay(d: u64, max: u64) -> u64 {
    if 2 * d > max {
        max
    } else {
        (2 * d) as u64
    }
}

/// A status asking for proof of work.
pub open spec fn is_payment_required(status: u16) -> bool {
    status == 402 || status == 409
}

/// A client or server error status.
pub open spec fn is_error_status(status: u16) -> bool {
    400 <= status <= 599
}

/// The challenge a payment-required reply carries, if its header holds one.
pub open spec fn header_challenge(header: Option<Seq<char>>) -> Option<(Seq<char>, u8)> {
    match header {
        Some(h) => challenge_of(h),
        None => None,
    }
}

/// The progress of one call through its attempt budget.
pub struct RetryState {
    /// The number of attempts allowed.
    pub max_retries: usize,
    /// The number of attempts begun.
    pub attempt: usize,
    /// The delay before the next back-off sleep, in milliseconds.
    pub delay: u64,
    /// The largest delay, in milliseconds.
    pub max_delay: u64,
    /// A challenge to answer on the next attempt.
    pub challenge: Option<Challenge>,
    /// The delay of the first back-off sleep, in milliseconds.
    pub first_delay: u64,
    /// The back-off sleeps handed out so far, in order.
    pub slept: Ghost<Seq<u64>>,
}

/// What to do before posting one attempt.
#[derive(Debug)]
pub struct AttemptPlan {
    /// Sleep this many milliseconds first.
    pub sleep: Option<u64>,
    /// Answer this challenge in the request's proof header.
    pub challenge: Option<Challenge>,
}

/// What the status of a reply decides.
#[derive(Debug, Clone, Copy, PartialEq, Eq, Structural)]
pub enum StatusDecision {
    ReadBody,
    Retry,
    Fail(Error),
}

/// What the body of a successful reply decides.
#[derive(Debug)]
pub enum BodyDecision {
    Retry,
    Fail(Error),
    /// One raw result per request, in request order.
    Done(Vec<serde_json::Value>),
}

/// What the body of a successful reply decides, for `n` requests.
pub open spec fn body_outcome(b: Seq<u8>, n: nat) -> Option<Result<Seq<serde_json::Value>, Error>> {
    match json_i32_of(b) {
        Some(c) => if c == EAGAIN {
            None
        } else {
            Some(Err(Error::Api(c)))
        },
        None => match json_array_of(b) {
            None => Some(Err(Error::Json)),
            Some(a) => if a.len() == n {
                Some(Ok(a))
            } else {
                Some(Err(Error::ResponseCount))
            },
        },
    }
}

impl RetryState {
    pub open spec fn wf(&self) -> bool {
        &&& self.attempt <= self.max_retries
        &&& self.first_delay <= self.max_delay
        &&& self.delay == delay_after(self.first_delay, self.max_delay, self.slept@.len())
        &&& self.slept@ == backoff_sleeps(self.first_delay, self.max_delay, self.slept@.len())
    }

    /// A fresh budget under the state's policy. The first delay is the
    /// policy's least one, held to its largest.
    pub fn new(state: &ClientState) -> (r: RetryState)
        ensures
            r.wf(),
            r.max_retries == state.max_retries,
            r.attempt == 0,
            r.max_delay == state.max_retry_delay,
            r.delay == if state.min_retry_delay <= state.max_retry_delay {
                state.min_retry_delay
            } else {
                state.max_retry_delay
            },
            r.challenge is None,
            r.first_delay == r.delay,
            r.slept@ == Seq::<u64>::empty(),
    {
        let first: u64 = if state.min_retry_delay <= state.max_retry_delay {
            state.min_retry_delay
        } else {
            state.max_retry_delay
        };
        RetryState {
            max_retries: state.max_retries,
            attempt: 0,
            delay: if state.min_retry_delay <= state.max_retry_delay {
                state.min_retry_delay
            } else {
                state.max_retry_delay
            },
            max_delay: state.max_retry_delay,
            challenge: None,
            first_delay: first,
            slept: Ghost(Seq::empty()),
        }
    }

    /// Begins the next attempt, or returns `None` once the budget is spent.
    /// Every attempt but the first sleeps, unless a challenge is pending; the
    /// pending challenge goes into the plan.
    pub fn next_attempt(&mut self) -> (r: Option<AttemptPlan>)
        requires
            old(self).wf(),
        ensures
            final(self).wf(),
            final(self).max_retries == old(self).max_retries,
            final(self).max_delay == old(self).max_delay,
            final(self).first_delay == old(self).first_delay,
            r is None <==> old(self).attempt == old(self).max_retries,
            r is None ==> *final(self) == *old(self),
            r matches Some(p) ==> {
                &&& final(self).attempt == old(self).attempt + 1
                &&& final(self).challenge is None
                &&& p.challenge == old(self).challenge
                &&& if old(self).attempt >= 1 && old(self).challenge is None {
                    &&& p.sleep == Some(old(self).delay)
                    &&& final(self).delay == next_delay(old(self).delay, old(self).max_delay)
                    &&& final(self).slept@ == old(self).slept@.push(old(self).delay)
                } else {
                    &&& p.sleep is None
                    &&& final(self).delay == old(self).delay
                    &&& final(self).slept@ == old(self).slept@
                }
            },
    {
        if self.attempt == self.max_retries {
            return None;
        }
        let sleep = if self.attempt >= 1 && self.challenge.is_none() {
            let d = self.delay;
            self.delay = if d > self.max_delay / 2 { self.max_delay } else { 2 * d };
            proof {
                lemma_backoff_bounded(d, self.max_delay);
                self.slept = Ghost(self.slept@.push(d));
            }
            Some(d)
        } else {
            None
        };
        self.attempt = self.attempt + 1;
        let challenge = self.challenge.take();
        Some(AttemptPlan { sleep, challenge })
    }

    /// Decides on a reply's status. A payment-required status records the
    /// challenge its header holds, or ends the call when it holds none.
    pub fn on_status(&mut self, status: u16, challenge_header: Option<&str>) -> (r: StatusDecision)
        ensures
            final(self).attempt == old(self).attempt,
            final(self).max_retries == old(self).max_retries,
            final(self).delay == old(self).delay,
            final(self).max_delay == old(self).max_delay,
            final(self).first_delay == old(self).first_delay,
            final(self).slept == old(self).slept,
            is_payment_required(status) ==> match header_challenge(
                match challenge_header {
                    Some(h) => Some(h@),
                    None => None,
                },
            ) {
                Some(c) => {
                    &&& r == StatusDecision::Retry
                    &&& final(self).challenge is Some
                    &&& final(self).challenge->Some_0.token@ == c.0
                    &&& final(self).challenge->Some_0.easiness == c.1
                },
                None => r == StatusDecision::Fail(Error::MaxRetriesReached) && final(self).challenge == old(self).challenge,
            },
            !is_payment_required(status) ==> final(self).challenge == old(self).challenge,
            !is_payment_required(status) && is_error_status(status) ==> r == StatusDecision::Retry,
            !is_payment_required(status) && !is_error_status(status) ==> r == StatusDecision::ReadBody,
    {
        if status == 402 || status == 409 {
            let parsed = match challenge_header {
                Some(h) => parse_challenge(h),
                None => None,
            };
            match parsed {
                Some(c) => {
                    self.challenge = Some(c);
                    StatusDecision::Retry
                },
                None => StatusDecision::Fail(Error::MaxRetriesReached),
            }
        } else if 400 <= status && status <= 599 {
            StatusDecision::Retry
        } else {
            StatusDecision::ReadBody
        }
    }
}

impl RetryState {
    /// Decides on the whole reply to one attempt for a batch of `n` requests:
    /// a network failure or timeout retries; a status decides as `on_status`
    /// does; a body that cannot be read ends the call; a readable one decides
    /// as `on_body` does.
    pub fn on_reply(&mut self, reply: Reply, n: usize) -> (r: BodyDecision)
        ensures
            final(self).attempt == old(self).attempt,
            final(self).max_retries == old(self).max_retries,
            final(self).delay == old(self).delay,
            final(self).max_delay == old(self).max_delay,
            final(self).first_delay == old(self).first_delay,
            final(self).slept == old(self).slept,
            match reply {
                Reply::NetworkError => r is Retry && final(self).challenge == old(self).challenge,
                Reply::Timeout => r is Retry && final(self).challenge == old(self).challenge,
                Reply::Response { status, challenge_header, body } => if is_payment_required(status) {
                    match header_challenge(
                        match challenge_header {
                            Some(h) => Some(h@),
                            None => None,
                        },
                    ) {
                        Some(c) => {
                            &&& r is Retry
                            &&& final(self).challenge is Some
                            &&& final(self).challenge->Some_0.token@ == c.0
                            &&& final(self).challenge->Some_0.easiness == c.1
                        },
                        None => (r matches BodyDecision::Fail(e) && e == Error::MaxRetriesReached)
                            && final(self).challenge == old(self).challenge,
                    }
                } else {
                    &&& final(self).challenge == old(self).challenge
                    &&& if is_error_status(status) {
                        r is Retry
                    } else {
                        match body {
                            None => r matches BodyDecision::Fail(e) && e == Error::Transport,
                            Some(b) => match body_outcome(b@, n as nat) {
                                None => r is Retry,
                                Some(Err(e)) => r matches BodyDecision::Fail(f) && f == e,
                                Some(Ok(a)) => r matches BodyDecision::Done(v) && v@ == a,
                            },
                        }
                    }
                },
            },
    {
        match reply {
            Reply::NetworkError => BodyDecision::Retry,
            Reply::Timeout => BodyDecision::Retry,
            Reply::Response { status, challenge_header, body } => {
                let header = match &challenge_header {
                    Some(h) => Some(h.as_str()),
                    None => None,
                };
                match self.on_status(status, header) {
                    StatusDecision::Retry => BodyDecision::Retry,
                    StatusDecision::Fail(e) => BodyDecision::Fail(e),
                    StatusDecision::ReadBody => match body {
                        None => BodyDecision::Fail(Error::Transport),
                        Some(b) => on_body(&b, n),
                    },
                }
            },
        }
    }
}

/// Decides on the body of a successful reply to a batch of `n` requests: a
/// bare code retries (the retry code) or fails with that code; an array of
/// one result per request ends the call.
pub fn on_body(body: &Vec<u8>, n: usize) -> (r: BodyDecision)
    ensures
        match body_outcome(body@, n as nat) {
            None => r is Retry,
            Some(Err(e)) => r matches BodyDecision::Fail(f) && f == e,
            Some(Ok(a)) => r matches BodyDecision::Done(v) && v@ == a,
        },
{
    match parse_code(body) {
        Some(c) => if c == EAGAIN {
            BodyDecision::Retry
        } else {
            BodyDecision::Fail(Error::Api(c))
        },
        None => match parse_array(body) {
            None => BodyDecision::Fail(Error::Json),
            Some(v) => if v.len() == n {
                BodyDecision::Done(v)
            } else {
                BodyDecision::Fail(Error::ResponseCount)
            },
        },
    }
}

/// Back-off: the delay after a sleep is no shorter than the sleep and never
/// longer than the largest delay, so the sleeps of one call never decrease
/// and never exceed the largest delay.
pub proof fn lemma_backoff_bounded(d: u64, max: u64)
    requires
        d <= max,
    ensures
        d <= next_delay(d, max) <= max,
{
}

/// The delay after `k` back-off sleeps, the first of them `d`.
pub open spec fn delay_after(d: u64, max: u64, k: nat) -> u64
    decreases k,
{
    if k == 0 {
        d
    } else {
        next_delay(delay_after(d, max, (k - 1) as nat), max)
    }
}

/// The first `k` back-off sleeps of a call, the first of them `d`.
pub open spec fn backoff_sleeps(d: u64, max: u64, k: nat) -> Seq<u64>
    decreases k,
{
    if k == 0 {
        Seq::empty()
    } else {
        backoff_sleeps(d, max, (k - 1) as nat).push(delay_after(d, max, (k - 1) as nat))
    }
}

proof fn lemma_delay_after_bounded(d: u64, max: u64, k: nat)
    requires
        d <= max,
    ensures
        delay_after(d, max, k) <= max,
    decreases k,
{
    if k > 0 {
        lemma_delay_after_bounded(d, max, (k - 1) as nat);
    }
}

proof fn lemma_backoff_sleeps_index(d: u64, max: u64, k: nat)
    ensures
        backoff_sleeps(d, max, k).len() == k,
        forall|i: int| 0 <= i < k ==> #[trigger] backoff_sleeps(d, max, k)[i] == delay_after(d, max, i as nat),
    decreases k,
{
    if k > 0 {
        lemma_backoff_sleeps_index(d, max, (k - 1) as nat);
    }
}

/// Back-off over a whole call: the sleeps start at the first delay, each is
/// the previous one doubled and held to the largest delay, so they never
/// decrease and never exceed it.
pub proof fn lemma_backoff_sleeps(d: u64, max: u64, k: nat)
    requires
        d <= max,
    ensures
        backoff_sleeps(d, max, k).len() == k,
        k > 0 ==> backoff_sleeps(d, max, k)[0] == d,
        forall|i: int| 0 <= i < k ==> #[trigger] backoff_sleeps(d, max, k)[i] <= max,
        forall|i: int|
            0 <= i < k - 1 ==> backoff_sleeps(d, max, k)[i + 1] == next_delay(#[trigger] backoff_sleeps(d, max, k)[i], max),
        forall|i: int| 0 <= i < k - 1 ==> #[trigger] backoff_sleeps(d, max, k)[i] <= backoff_sleeps(d, max, k)[i + 1],
{
    lemma_backoff_sleeps_index(d, max, k);
    let s = backoff_sleeps(d, max, k);
    assert forall|i: int| 0 <= i < k implies #[trigger] s[i] <= max by {
        lemma_delay_after_bounded(d, max, i as nat);
    }
    assert forall|i: int| 0 <= i < k - 1 implies s[i + 1] == next_delay(#[trigger] s[i], max) by {
        assert(s[i + 1] == delay_after(d, max, (i + 1) as nat));
    }
    assert forall|i: int| 0 <= i < k - 1 implies #[trigger] s[i] <= s[i + 1] by {
        assert(s[i + 1] == delay_after(d, max, (i + 1) as nat));
        lemma_delay_after_bounded(d, max, i as nat);
        lemma_backoff_bounded(s[i], max);
    }
}

/// What a transport reports of one attempt.
#[derive(Debug)]
pub enum Reply {
    /// The request could not be sent or answered.
    NetworkError,
    /// The attempt's time limit elapsed.
    Timeout,
    /// The server answered. `body` is `None` where it could not be read.
    Response { status: u16, challenge_header: Option<String>, body: Option<Vec<u8>> },
}

/// The work an API call hands out: waiting, solving a challenge, and posting
/// one attempt.
pub trait Transport {
    /// Waits `millis` milliseconds.
    fn sleep(&mut self, millis: u64);

    /// Computes the proof-of-work stamp for `token` at `easiness`.
    fn solve(&mut self, token: &str, easiness: u8) -> String;

    /// Posts `body` to `url`, with `hashcash` as the `x-hashcash` header if
    /// given, within `timeout` milliseconds if given.
    fn post(&mut self, url: &url::Url, hashcash: Option<&String>, body: &Vec<u8>, timeout: Option<u64>) -> Reply;
}

/// The URL and body that every attempt of one call posts: the API URL with
/// a fresh id, the session id and the caller's pairs as its query, and the
/// JSON text of the request batch.
pub fn prepare_call(
    state: &ClientState,
    requests: &Vec<serde_json::Value>,
    query_params: &Vec<(String, String)>,
) -> (r: Result<(url::Url, Vec<u8>), Error>)
    ensures
        r is Ok <==> joined_of(state.origin, api_path()) is Some,
        r is Err ==> r matches Err(Error::Url),
        r matches Ok((u, b)) ==> {
            &&& b@ == json_text_of(requests@)
            &&& exists|id: u64|
                u == with_query_of(
                    joined_of(state.origin, api_path())->Some_0,
                    #[trigger] query_of(id, session_id_of(*state), pairs_view(query_params@)),
                )
        },
{
    let url = match state.request_url(query_params) {
        Ok(u) => u,
        Err(e) => return Err(e),
    };
    let body = match write_batch(requests) {
        Some(b) => b,
        None => return Err(Error::Json),
    };
    Ok((url, body))
}

/// Sends a batch of requests: at most `max_retries` attempts, each posting
/// the whole batch, until a reply settles the call. On success the result
/// holds one raw result per request, in request order.
pub fn send_requests<T: Transport>(
    transport: &mut T,
    state: &ClientState,
    requests: &Vec<serde_json::Value>,
    query_params: &Vec<(String, String)>,
) -> (r: Result<Vec<serde_json::Value>, Error>)
    ensures
        r matches Ok(v) ==> v@.len() == requests@.len(),
        r matches Err(Error::Api(c)) ==> c != EAGAIN,
        r matches Err(Error::Url) <==> joined_of(state.origin, api_path()) is None,
        joined_of(state.origin, api_path()) is Some && state.max_retries == 0 ==> r matches Err(
            Error::MaxRetriesReached,
        ),
{
    let (url, body) = match prepare_call(state, requests, query_params) {
        Ok(p) => p,
        Err(e) => return Err(e),
    };
    let mut rs = RetryState::new(state);
    loop
        invariant
            rs.wf(),
            rs.max_retries == state.max_retries,
            joined_of(state.origin, api_path()) is Some,
        decreases rs.max_retries - rs.attempt,
    {
        let plan = match rs.next_attempt() {
            Some(p) => p,
            None => return Err(Error::MaxRetriesReached),
        };
        if let Some(ms) = plan.sleep {
            transport.sleep(ms);
        }
        let answer = match plan.challenge {
            Some(c) => {
                let stamp = transport.solve(c.token.as_str(), c.easiness);
                Some(proof_header(c.token.as_str(), stamp.as_str()))
            },
            None => None,
        };
        let answer_ref = match &answer {
            Some(p) => Some(p),
            None => None,
        };
        let reply = transport.post(&url, answer_ref, &body, state.timeout);
        match rs.on_reply(reply, requests.len()) {
            BodyDecision::Retry => {},
            BodyDecision::Fail(e) => return Err(e),
            BodyDecision::Done(v) => return Ok(v),
        }
    }
}

/// Gathers the interpreted result of each request: all of them, in order,
/// or the first failure.
pub fn collect_responses<T, E>(results: Vec<Result<T, E>>) -> (r: Result<Vec<T>, E>)
    ensures
        (forall|i: int| 0 <= i < results@.len() ==> (#[trigger] results@[i]) is Ok) <==> r is Ok,
        r matches Ok(v) ==> v@.len() == results@.len() && forall|i: int|
            0 <= i < results@.len() ==> #[trigger] results@[i] == Ok::<T, E>(v@[i]),
        r matches Err(e) ==> exists|k: int|
            0 <= k < results@.len() && #[trigger] results@[k] == Err::<T, E>(e) && forall|j: int|
                0 <= j < k ==> (#[trigger] results@[j]) is Ok,
{
    let ghost all = results@;
    let mut rest = results;
    let mut out: Vec<T> = Vec::new();
    while rest.len() > 0
        invariant
            all == results@,
            out@.len() + rest@.len() == all.len(),
            rest@ == all.subrange(out@.len() as int, all.len() as int),
            forall|i: int| 0 <= i < out@.len() ==> #[trigger] all[i] == Ok::<T, E>(out@[i]),
        decreases rest@.len(),
    {
        let ghost k = out@.len() as int;
        let item = rest.remove(0);
        let ghost g = item;
        assert(g == all[k]);
        match item {
            Ok(x) => {
                out.push(x);
                assert(rest@ =~= all.subrange(out@.len() as int, all.len() as int));
            },
            Err(e) => {
                assert forall|j: int| 0 <= j < k implies (#[trigger] all[j]) is Ok by {
                    assert(all[j] == Ok::<T, E>(out@[j]));
                }
                assert(g == Err::<T, E>(e));
                return Err(e);
            },
        }
    }
    assert forall|i: int| 0 <= i < all.len() implies (#[trigger] all[i]) is Ok by {
        assert(all[i] == Ok::<T, E>(out@[i]));
    }
    Ok(out)
}

} // verus!
