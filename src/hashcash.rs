//! The proof-of-work (hashcash) challenge: reading the server's
//! `x-hashcash` header and writing the client's answer.
//!
//! A challenge header reads `1:<easiness>:<timestamp>:<token>`; the answer
//! reads `1:<token>:<stamp>`.

use vstd::prelude::*;

verus! {

/// A pending proof-of-work challenge: the server's token and its difficulty.
#[derive(Debug, Clone, PartialEq, Eq)]
pub struct Challenge {
    pub token: String,
    pub easiness: u8,
}

/// Indices of the colons among the first `n` characters of `s`, in order.
pub open spec fn colons_upto(s: Seq<char>, n: nat) -> Seq<int>
    decreases n,
{
    if n == 0 {
        Seq::empty()
    } else {
        let rest = colons_upto(s, (n - 1) as nat);
        if s[n - 1] == ':' {
            rest.push(n - 1)
        } else {
            rest
        }
    }
}

pub open spec fn colons(s: Seq<char>) -> Seq<int> {
    colons_upto(s, s.len())
}

pub open spec fn is_digit(c: char) -> bool {
    '0' <= c && c <= '9'
}

/// The value of a string of decimal digits.
pub open spec fn digits_value(s: Seq<char>) -> int
    decreases s.len(),
{
    if s.len() == 0 {
        0
    } else {
        10 * digits_value(s.drop_last()) + (s.last() as int - '0' as int)
    }
}

/// The difficulty field: one or more decimal digits whose value fits in a byte.
pub open spec fn easiness_of(s: Seq<char>) -> Option<u8> {
    if s.len() > 0 && (forall|i: int| 0 <= i < s.len() ==> is_digit(#[trigger] s[i]))
        && digits_value(s) <= 255 {
        Some(digits_value(s) as u8)
    } else {
        None
    }
}

/// The challenge a header value states: four colon-separated fields, the first
/// `1`, the second the difficulty, the fourth a non-empty token.
pub open spec fn challenge_of(h: Seq<char>) -> Option<(Seq<char>, u8)> {
    let c = colons(h);
    if c.len() == 3 && h.subrange(0, c[0]) == seq!['1'] && easiness_of(
        h.subrange(c[0] + 1, c[1]),
    ).is_some() && c[2] + 1 < h.len() {
        Some((h.subrange(c[2] + 1, h.len() as int), easiness_of(h.subrange(c[0] + 1, c[1])).unwrap()))
    } else {
        None
    }
}

/// The answer to a challenge: `1:<token>:<stamp>`.
pub open spec fn proof_header_of(token: Seq<char>, stamp: Seq<char>) -> Seq<char> {
    seq!['1', ':'] + token + seq![':'] + stamp
}

proof fn lemma_colons_bounded(s: Seq<char>, n: nat)
    requires
        n <= s.len(),
    ensures
        forall|k: int| 0 <= k < colons_upto(s, n).len() ==> 0 <= #[trigger] colons_upto(s, n)[k] < n,
        forall|k: int, l: int| 0 <= k < l < colons_upto(s, n).len() ==> colons_upto(s, n)[k] < colons_upto(s, n)[l],
    decreases n,
{
    if n > 0 {
        let m = (n - 1) as nat;
        lemma_colons_bounded(s, m);
        let rest = colons_upto(s, m);
        if s[n - 1] == ':' {
            let c = rest.push(n - 1);
            assert(colons_upto(s, n) == c);
            assert forall|k: int| 0 <= k < c.len() implies 0 <= #[trigger] c[k] < n by {
                if k < rest.len() {
                    assert(c[k] == rest[k]);
                }
            }
            assert forall|k: int, l: int| 0 <= k < l < c.len() implies c[k] < c[l] by {
                assert(c[k] == rest[k]);
                if l < rest.len() {
                    assert(c[l] == rest[l]);
                }
            }
        }
    }
}

/// Reads the easiness field; `None` unless `easiness_of` gives a value.
fn parse_easiness(s: &str) -> (r: Option<u8>)
    ensures
        r == easiness_of(s@),
{
    let n = s.unicode_len();
    if n == 0 {
        return None;
    }
    let mut acc: u16 = 0;
    let mut i: usize = 0;
    while i < n
        invariant
            n == s@.len(),
            i <= n,
            forall|j: int| 0 <= j < i ==> is_digit(#[trigger] s@[j]),
            acc as int == if digits_value(s@.subrange(0, i as int)) < 256 {
                digits_value(s@.subrange(0, i as int))
            } else {
                256
            },
        decreases n - i,
    {
        let c = s.get_char(i);
        if !('0' <= c && c <= '9') {
            assert(!is_digit(s@[i as int]));
            return None;
        }
        let d: u16 = (c as u32 - '0' as u32) as u16;
        let ghost prev = s@.subrange(0, i as int);
        let ghost next = s@.subrange(0, i + 1);
        assert(next.drop_last() == prev);
        assert(digits_value(prev) >= 0) by {
            lemma_digits_nonneg(prev);
        }
        acc = if acc >= 26 { 256 } else {
            let v: u16 = acc * 10 + d;
            if v > 256 { 256 } else { v }
        };
        i = i + 1;
    }
    assert(s@.subrange(0, n as int) == s@);
    if acc <= 255 {
        Some(acc as u8)
    } else {
        None
    }
}

proof fn lemma_digits_nonneg(s: Seq<char>)
    requires
        forall|i: int| 0 <= i < s.len() ==> is_digit(#[trigger] s[i]),
    ensures
        digits_value(s) >= 0,
    decreases s.len(),
{
    if s.len() > 0 {
        let t = s.drop_last();
        assert forall|i: int| 0 <= i < t.len() implies is_digit(#[trigger] t[i]) by {
            assert(t[i] == s[i]);
        }
        lemma_digits_nonneg(t);
    }
}

/// Reads a challenge header value. Returns the challenge exactly when the value
/// has the shape `challenge_of` describes.
pub fn parse_challenge(h: &str) -> (r: Option<Challenge>)
    ensures
        match challenge_of(h@) {
            Some(c) => r is Some && r->Some_0.token@ == c.0 && r->Some_0.easiness == c.1,
            None => r is None,
        },
{
    let n = h.unicode_len();
    let mut pos: Vec<usize> = Vec::new();
    let mut i: usize = 0;
    while i < n
        invariant
            n == h@.len(),
            i <= n,
            pos@.len() <= 4,
            pos@.len() < 4 ==> pos@.map_values(|p: usize| p as int) == colons_upto(h@, i as nat),
            pos@.len() == 4 ==> colons_upto(h@, i as nat).len() >= 4,
        decreases n - i,
    {
        proof {
            lemma_colons_bounded(h@, (i + 1) as nat);
        }
        if h.get_char(i) == ':' && pos.len() < 4 {
            pos.push(i);
        }
        proof {
            if pos@.len() < 4 {
                assert(pos@.map_values(|p: usize| p as int) =~= colons_upto(h@, (i + 1) as nat));
            }
        }
        i = i + 1;
    }
    if pos.len() != 3 {
        return None;
    }
    proof {
        lemma_colons_bounded(h@, n as nat);
        assert(pos@.map_values(|p: usize| p as int)[0] == pos@[0] as int);
        assert(pos@.map_values(|p: usize| p as int)[1] == pos@[1] as int);
        assert(pos@.map_values(|p: usize| p as int)[2] == pos@[2] as int);
    }
    let (first, second, third) = (pos[0], pos[1], pos[2]);
    let version = h.substring_char(0, first);
    if !(first == 1 && h.get_char(0) == '1') {
        proof {
            if version@ == seq!['1'] {
                assert(version@.len() == first);
                assert(version@[0] == h@.subrange(0, first as int)[0]);
            }
        }
        return None;
    }
    assert(version@ =~= seq!['1']);
    let easiness = parse_easiness(h.substring_char(first + 1, second));
    if easiness.is_none() || third + 1 >= n {
        return None;
    }
    let token = h.substring_char(third + 1, n);
    Some(Challenge { token: String::from_str(token), easiness: easiness.unwrap() })
}

/// Writes the answer to a challenge, `1:<token>:<stamp>`.
pub fn proof_header(token: &str, stamp: &str) -> (r: String)
    ensures
        r@ == proof_header_of(token@, stamp@),
{
    let mut r = String::from_str("1:");
    r.append(token);
    r.append(":");
    r.append(stamp);
    proof {
        reveal_strlit("1:");
        reveal_strlit(":");
        assert(r@ =~= proof_header_of(token@, stamp@));
    }
    r
}

} // verus!
