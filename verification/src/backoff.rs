//! Retry and backoff decisions for GitHub's rate limits: HTTP 403
//! (secondary rate limit) and 429 (primary rate limit), plus transient
//! server errors.

use vstd::prelude::*;
use crate::text::{chars_of, trim, trimmed};

verus! {

/// Maximum number of retries before giving up on a rate-limited request.
pub const MAX_RETRIES: u32 = 4;

/// True for the HTTP statuses GitHub uses to signal rate limiting:
/// 403 = secondary rate limit, 429 = primary rate limit.
pub open spec fn rate_limit_status(status: u16) -> bool {
    status == 403 || status == 429
}

/// True for the transient server errors GitHub returns under load:
/// 500, 502, 503 and 504 (e.g. a 504 Gateway Timeout on a heavy query).
pub open spec fn server_error_status(status: u16) -> bool {
    status == 500 || status == 502 || status == 503 || status == 504
}

/// True for statuses worth retrying: rate limits and transient server errors.
pub open spec fn retryable_status(status: u16) -> bool {
    rate_limit_status(status) || server_error_status(status)
}

/// Whether `status` signals rate limiting (403 or 429).
pub fn is_rate_limit_status(status: u16) -> (b: bool)
    ensures
        b == rate_limit_status(status),
{
    status == 403 || status == 429
}

/// Whether `status` is worth retrying: rate limits plus transient server
/// errors (500/502/503/504), which GitHub returns under load.
pub fn is_retryable_status(status: u16) -> (b: bool)
    ensures
        b == retryable_status(status),
{
    is_rate_limit_status(status) || status == 500 || status == 502 || status == 503 || status == 504
}

/// 2 to the power `n`.
pub open spec fn pow2(n: nat) -> nat
    decreases n,
{
    if n == 0 {
        1
    } else {
        2 * pow2((n - 1) as nat)
    }
}

/// The exponential backoff before retry `attempt` (counting from 0):
/// 2^(attempt + 1) seconds, saturating at `u64::MAX`.
pub open spec fn backoff(attempt: u32) -> nat {
    if pow2((attempt + 1) as nat) > u64::MAX {
        u64::MAX as nat
    } else {
        pow2((attempt + 1) as nat)
    }
}

/// Law of the backoff: it doubles from one attempt to the next until it
/// saturates at `u64::MAX`, starting from 2 seconds.
pub proof fn lemma_backoff_doubles(attempt: u32)
    requires
        attempt < u32::MAX,
    ensures
        backoff(0) == 2,
        backoff(attempt) <= u64::MAX,
        backoff((attempt + 1) as u32) == if 2 * backoff(attempt) > u64::MAX {
            u64::MAX as nat
        } else {
            2 * backoff(attempt)
        },
{
    assert(pow2(1) == 2) by {
        assert(pow2(0) == 1);
    }
    assert(pow2((attempt + 2) as nat) == 2 * pow2((attempt + 1) as nat));
}

/// Exponential backoff: 2s, 4s, 8s, 16s, ... (`2u64.saturating_pow(attempt + 1)`).
pub fn backoff_seconds(attempt: u32) -> (secs: u64)
    requires
        attempt < u32::MAX,
    ensures
        secs == backoff(attempt),
{
    let e = attempt + 1;
    let mut r: u64 = 1;
    let mut k: u32 = 0;
    while k < e
        invariant
            k <= e,
            r == (if pow2(k as nat) > u64::MAX { u64::MAX as nat } else { pow2(k as nat) }),
        decreases e - k,
    {
        if r > u64::MAX / 2 {
            r = u64::MAX;
        } else {
            r = r * 2;
        }
        k += 1;
    }
    r
}

/// How long to wait before the next retry, in seconds: the `Retry-After`
/// value when GitHub sent a usable one, otherwise the exponential backoff.
pub fn retry_delay(retry_after: Option<u64>, attempt: u32) -> (secs: u64)
    requires
        retry_after is None ==> attempt < u32::MAX,
    ensures
        secs == match retry_after {
            Some(s) => s as nat,
            None => backoff(attempt),
        },
{
    match retry_after {
        Some(s) => s,
        None => backoff_seconds(attempt),
    }
}

/// Whether `c` is an ASCII decimal digit.
pub open spec fn is_digit(c: char) -> bool {
    '0' <= c <= '9'
}

/// The value of a string of decimal digits.
pub open spec fn digits_value(s: Seq<char>) -> nat
    decreases s.len(),
{
    if s.len() == 0 {
        0
    } else {
        digits_value(s.drop_last()) * 10 + ((s.last() as u32) - ('0' as u32)) as nat
    }
}

/// The digits part of an unsigned number: `s` without a leading `+`.
pub open spec fn unsigned_digits(s: Seq<char>) -> Seq<char> {
    if s.len() > 0 && s[0] == '+' {
        s.drop_first()
    } else {
        s
    }
}

/// Every character of `d` is an ASCII digit.
pub open spec fn all_digits(d: Seq<char>) -> bool {
    forall|i: int| 0 <= i < d.len() ==> is_digit(#[trigger] d[i])
}

/// What `u64::from_str` accepts: an optional `+`, then one or more ASCII
/// digits whose value fits in a `u64`.
pub open spec fn parse_u64(s: Seq<char>) -> Option<u64> {
    let d = unsigned_digits(s);
    if d.len() == 0 || !all_digits(d) {
        None
    } else if digits_value(d) > u64::MAX {
        None
    } else {
        Some(digits_value(d) as u64)
    }
}

proof fn lemma_digits_monotone(s: Seq<char>, j: int, k: int)
    requires
        0 <= j <= k <= s.len(),
    ensures
        digits_value(s.take(j)) <= digits_value(s.take(k)),
    decreases k - j,
{
    if j < k {
        lemma_digits_monotone(s, j, k - 1);
        assert(s.take(k).drop_last() =~= s.take(k - 1));
    }
}

/// Parses a decimal `u64` the way `str::parse::<u64>` does.
pub fn parse_decimal_u64(s: &str) -> (r: Option<u64>)
    ensures
        r == parse_u64(s@),
{
    let cs = chars_of(s);
    let n = cs.len();
    let start: usize = if n > 0 && cs[0] == '+' { 1 } else { 0 };
    let ghost d = unsigned_digits(s@);
    assert(d =~= cs@.skip(start as int));
    if start == n {
        return None;
    }
    let mut v: u64 = 0;
    let mut i = start;
    assert(d.take(0) =~= Seq::<char>::empty());
    while i < n
        invariant
            start <= i <= n == cs.len(),
            cs@ == s@,
            d == unsigned_digits(s@),
            d == cs@.skip(start as int),
            forall|k: int| 0 <= k < i - start ==> is_digit(d[k]),
            v == digits_value(d.take(i - start)),
        decreases n - i,
    {
        let c = cs[i];
        assert(c == d[i - start]);
        if !('0' <= c && c <= '9') {
            assert(!is_digit(d[i - start]));
            assert(parse_u64(s@) is None);
            return None;
        }
        let digit = (c as u32 - '0' as u32) as u64;
        assert(d.take(i - start + 1).drop_last() =~= d.take(i - start));
        match v.checked_mul(10) {
            Some(t) => match t.checked_add(digit) {
                Some(w) => {
                    v = w;
                },
                None => {
                    proof {
                        assert(d.take(i - start + 1).last() == c);
                        assert(digits_value(d.take(i - start + 1)) == t + digit);
                        if all_digits(d) {
                            lemma_digits_monotone(d, i - start + 1, d.len() as int);
                            assert(d.take(d.len() as int) =~= d);
                        }
                    }
                    return None;
                },
            },
            None => {
                proof {
                    if all_digits(d) {
                        lemma_digits_monotone(d, i - start + 1, d.len() as int);
                        assert(d.take(d.len() as int) =~= d);
                    }
                }
                return None;
            },
        }
        i += 1;
    }
    assert(d.take(n - start) =~= d);
    Some(v)
}

/// The `Retry-After` header's delay in seconds: the header text trimmed of
/// whitespace and parsed as a `u64`; `None` when the header is absent or
/// does not parse.
pub open spec fn retry_after_secs(value: Option<Seq<char>>) -> Option<u64> {
    match value {
        Some(v) => parse_u64(trim(v)),
        None => None,
    }
}

/// Parses the `Retry-After` header value (in seconds). Returns `None` when
/// the header is missing or unparseable.
pub fn parse_retry_after(value: Option<&str>) -> (secs: Option<u64>)
    ensures
        secs == retry_after_secs(
            match value {
                Some(v) => Some(v@),
                None => None,
            },
        ),
{
    match value {
        Some(v) => {
            let t = trimmed(v);
            parse_decimal_u64(t.as_str())
        },
        None => None,
    }
}

} // verus!
