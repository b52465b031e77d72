//! The shared, long-lived state of a client and the URL of an API call.

use std::sync::atomic::{AtomicU64, Ordering};

use vstd::prelude::*;

use crate::error::Error;
use crate::session::UserSession;

verus! {

#[verifier::external_type_specification]
#[verifier::external_body]
pub struct ExUrl(url::Url);

#[verifier::external_type_specification]
#[verifier::external_body]
pub struct ExParseError(url::ParseError);

/// The client's state, shared by every call made through it.
#[derive(Debug)]
pub struct ClientState {
    /// The API's origin.
    pub origin: url::Url,
    /// The number of allowed attempts per call.
    pub max_retries: usize,
    /// The first delay between attempts, in milliseconds.
    pub min_retry_delay: u64,
    /// The largest delay between attempts, in milliseconds.
    pub max_retry_delay: u64,
    /// The time limit of each attempt, in milliseconds.
    pub timeout: Option<u64>,
    /// Whether file transfers use HTTPS rather than plain HTTP.
    pub https: bool,
    /// The request counter, for idempotency.
    pub id_counter: AtomicU64,
    /// The user's session.
    pub session: Option<UserSession>,
}

/// The decimal text of `n`, without leading zeros.
pub open spec fn decimal_of(n: nat) -> Seq<char>
    decreases n,
{
    if n < 10 {
        seq![digit_char(n)]
    } else {
        decimal_of(n / 10) + seq![digit_char(n % 10)]
    }
}

pub open spec fn digit_char(d: nat) -> char {
    (('0' as nat) + d) as char
}

pub open spec fn pair_view(p: (String, String)) -> (Seq<char>, Seq<char>) {
    (p.0@, p.1@)
}

/// The text of each pair of a list.
pub open spec fn pairs_view(v: Seq<(String, String)>) -> Seq<(Seq<char>, Seq<char>)> {
    v.map_values(|p: (String, String)| pair_view(p))
}

/// The query of an API call: its id, the session id if there is a session,
/// then the caller's own pairs.
pub open spec fn query_of(id: u64, session_id: Option<Seq<char>>, extra: Seq<(Seq<char>, Seq<char>)>) -> Seq<(Seq<char>, Seq<char>)> {
    let head = seq![(seq!['i', 'd'], decimal_of(id as nat))];
    match session_id {
        Some(s) => head.push((seq!['s', 'i', 'd'], s)) + extra,
        None => head + extra,
    }
}

/// The session id of the state's session, if it has one.
pub open spec fn session_id_of(st: ClientState) -> Option<Seq<char>> {
    match st.session {
        Some(s) => Some(s.session_id@),
        None => None,
    }
}

fn digit_text(d: u64) -> (r: &'static str)
    requires
        d < 10,
    ensures
        r@ == seq![digit_char(d as nat)],
{
    proof {
        reveal_strlit("0");
        reveal_strlit("1");
        reveal_strlit("2");
        reveal_strlit("3");
        reveal_strlit("4");
        reveal_strlit("5");
        reveal_strlit("6");
        reveal_strlit("7");
        reveal_strlit("8");
        reveal_strlit("9");
    }
    match d {
        0 => "0",
        1 => "1",
        2 => "2",
        3 => "3",
        4 => "4",
        5 => "5",
        6 => "6",
        7 => "7",
        8 => "8",
        _ => "9",
    }
}

/// The decimal text of `n`.
pub fn decimal(n: u64) -> (r: String)
    ensures
        r@ == decimal_of(n as nat),
    decreases n,
{
    if n < 10 {
        String::from_str(digit_text(n))
    } else {
        let head = decimal(n / 10);
        head.concat(digit_text(n % 10))
    }
}

fn copy_pairs(v: &Vec<(String, String)>) -> (r: Vec<(String, String)>)
    ensures
        r@.map_values(|p: (String, String)| pair_view(p)) == v@.map_values(|p: (String, String)| pair_view(p)),
{
    let mut r: Vec<(String, String)> = Vec::new();
    let mut i: usize = 0;
    while i < v.len()
        invariant
            i <= v@.len(),
            r@.len() == i,
            r@.map_values(|p: (String, String)| pair_view(p)) == v@.subrange(0, i as int).map_values(|p: (String, String)| pair_view(p)),
        decreases v@.len() - i,
    {
        let ghost before = r@;
        let a = v[i].0.clone();
        let b = v[i].1.clone();
        r.push((a, b));
        assert(pair_view(r@[i as int]) == pair_view(v@[i as int]));
        assert forall|j: int| 0 <= j < i implies pair_view(#[trigger] r@[j]) == pair_view(v@[j]) by {
            assert(r@[j] == before[j]);
            assert(before.map_values(|p: (String, String)| pair_view(p))[j] == pair_view(before[j]));
            assert(v@.subrange(0, i as int).map_values(|p: (String, String)| pair_view(p))[j] == pair_view(v@[j]));
        }
        i = i + 1;
        assert(r@.map_values(|p: (String, String)| pair_view(p)) =~= v@.subrange(0, i as int).map_values(|p: (String, String)| pair_view(p)));
    }
    assert(v@.subrange(0, i as int) =~= v@);
    r
}

/// The URL that resolving `path` against `base` gives, if it gives one.
pub uninterp spec fn joined_of(base: url::Url, path: Seq<char>) -> Option<url::Url>;

/// The URL `u` with each pair appended, in order, to its query.
pub uninterp spec fn with_query_of(u: url::Url, pairs: Seq<(Seq<char>, Seq<char>)>) -> url::Url;

/// The path of the API endpoint, `/cs`.
pub open spec fn api_path() -> Seq<char> {
    seq!['/', 'c', 's']
}

/// Relies on `url::Url::join`: resolves `path` against `base`; the outcome
/// depends on the two alone.
#[verifier::external_body]
fn join_path(base: &url::Url, path: &str) -> (r: Result<url::Url, url::ParseError>)
    ensures
        match joined_of(*base, path@) {
            Some(u) => r == Ok::<url::Url, url::ParseError>(u),
            None => r is Err,
        },
{
    base.join(path)
}

/// Relies on `url::Url::query_pairs_mut`: appends each pair, in order, to the
/// query.
#[verifier::external_body]
fn append_pairs(u: &mut url::Url, pairs: &Vec<(String, String)>)
    ensures
        *final(u) == with_query_of(*old(u), pairs_view(pairs@)),
{
    u.query_pairs_mut().extend_pairs(pairs.iter().map(|p| (p.0.as_str(), p.1.as_str())));
}

impl ClientState {
    pub fn new(origin: url::Url, max_retries: usize, min_retry_delay: u64, max_retry_delay: u64, timeout: Option<u64>, https: bool) -> (r: ClientState)
        ensures
            r.origin == origin,
            r.max_retries == max_retries,
            r.min_retry_delay == min_retry_delay,
            r.max_retry_delay == max_retry_delay,
            r.timeout == timeout,
            r.https == https,
            r.session is None,
    {
        ClientState {
            origin,
            max_retries,
            min_retry_delay,
            max_retry_delay,
            timeout,
            https,
            id_counter: AtomicU64::new(0),
            session: None,
        }
    }

    /// Takes the next value of the shared request counter.
    pub fn next_id(&self) -> u64 {
        self.id_counter.fetch_add(1, Ordering::SeqCst)
    }

    /// The query pairs of a call whose id is `id`.
    pub fn query_pairs(&self, id: u64, extra: &Vec<(String, String)>) -> (r: Vec<(String, String)>)
        ensures
            r@.map_values(|p: (String, String)| pair_view(p)) == query_of(
                id,
                session_id_of(*self),
                extra@.map_values(|p: (String, String)| pair_view(p)),
            ),
    {
        proof {
            reveal_strlit("id");
            reveal_strlit("sid");
        }
        let mut r: Vec<(String, String)> = Vec::new();
        let id_name = String::from_str("id");
        assert(id_name@ =~= seq!['i', 'd']);
        r.push((id_name, decimal(id)));
        if let Some(s) = &self.session {
            let sid_name = String::from_str("sid");
            assert(sid_name@ =~= seq!['s', 'i', 'd']);
            r.push((sid_name, s.session_id.clone()));
        }
        let ghost head = r@;
        let ghost sid = session_id_of(*self);
        let ghost qhead = match sid {
            Some(x) => seq![(seq!['i', 'd'], decimal_of(id as nat))].push((seq!['s', 'i', 'd'], x)),
            None => seq![(seq!['i', 'd'], decimal_of(id as nat))],
        };
        assert(head.map_values(|p: (String, String)| pair_view(p)) =~= qhead);
        let mut rest = copy_pairs(extra);
        let ghost rest0 = rest@;
        r.append(&mut rest);
        proof {
            assert(r@ == head + rest0);
            assert(r@.map_values(|p: (String, String)| pair_view(p)) =~= head.map_values(|p: (String, String)| pair_view(p)) + rest0.map_values(|p: (String, String)| pair_view(p)));
            assert(r@.map_values(|p: (String, String)| pair_view(p)) =~= query_of(
                id,
                session_id_of(*self),
                extra@.map_values(|p: (String, String)| pair_view(p)),
            ));
        }
        r
    }

    /// The URL of an API call: `/cs` on the origin, with a fresh id, the
    /// session id and the caller's pairs as its query.
    pub fn request_url(&self, extra: &Vec<(String, String)>) -> (r: Result<url::Url, Error>)
        ensures
            r is Ok <==> joined_of(self.origin, api_path()) is Some,
            r is Err ==> r == Err::<url::Url, Error>(Error::Url),
            r matches Ok(u) ==> exists|id: u64|
                u == with_query_of(
                    joined_of(self.origin, api_path())->Some_0,
                    #[trigger] query_of(id, session_id_of(*self), pairs_view(extra@)),
                ),
    {
        proof {
            reveal_strlit("/cs");
            assert("/cs"@ =~= api_path());
        }
        let id = self.next_id();
        let pairs = self.query_pairs(id, extra);
        match join_path(&self.origin, "/cs") {
            Ok(mut u) => {
                append_pairs(&mut u, &pairs);
                assert(pairs_view(pairs@) == query_of(id, session_id_of(*self), pairs_view(extra@)));
                Ok(u)
            },
            Err(_) => Err(Error::Url),
        }
    }
}

} // verus!
