//! README handling: truncation to a byte budget, decoding of the REST
//! payload, and the retry decisions of the README fetch.

use vstd::prelude::*;
use vstd::utf8::{decode_utf8, encode_scalar, encode_utf8, valid_utf8};
use crate::backoff::{backoff, is_retryable_status, retry_delay, retryable_status, MAX_RETRIES};
use crate::text::{chars_of, is_white_space, is_whitespace, push_char, same_text, utf8_string};

verus! {

/// The number of bytes in the UTF-8 encoding of `s`.
pub open spec fn utf8_len(s: Seq<char>) -> nat {
    encode_utf8(s).len()
}

/// The longest prefix of `s` whose UTF-8 encoding fits in `max` bytes.
pub open spec fn fitting_prefix(s: Seq<char>, max: nat) -> Seq<char>
    decreases s.len(),
{
    if utf8_len(s) <= max || s.len() == 0 {
        s
    } else {
        fitting_prefix(s.drop_last(), max)
    }
}

/// The UTF-8 length of a concatenation is the sum of the lengths.
pub proof fn lemma_utf8_len_add(a: Seq<char>, b: Seq<char>)
    ensures
        encode_utf8(a + b) == encode_utf8(a) + encode_utf8(b),
    decreases a.len(),
{
    if a.len() == 0 {
        assert(a + b =~= b);
    } else {
        lemma_utf8_len_add(a.drop_first(), b);
        assert((a + b).drop_first() =~= a.drop_first() + b);
        assert((a + b)[0] == a[0]);
    }
}

/// Every character takes at least one byte.
proof fn lemma_scalar_width(c: char)
    ensures
        1 <= encode_scalar(c as u32).len() <= 4,
{
    vstd::utf8::char_is_scalar(c);
}

proof fn lemma_utf8_len_push(s: Seq<char>, c: char)
    ensures
        utf8_len(s.push(c)) == utf8_len(s) + encode_scalar(c as u32).len(),
{
    lemma_utf8_len_add(s, seq![c]);
    assert(s.push(c) =~= s + seq![c]);
    assert(seq![c].drop_first() =~= Seq::<char>::empty());
    assert(encode_utf8(Seq::<char>::empty()) =~= Seq::<u8>::empty());
    assert(encode_utf8(seq![c]) =~= encode_scalar(c as u32));
}

/// A strictly shorter prefix has a strictly shorter encoding.
pub proof fn lemma_prefix_utf8_len(s: Seq<char>, m: int, j: int)
    requires
        0 <= m <= j <= s.len(),
    ensures
        utf8_len(s.take(m)) <= utf8_len(s.take(j)),
        m < j ==> utf8_len(s.take(m)) < utf8_len(s.take(j)),
    decreases j - m,
{
    if m < j {
        lemma_prefix_utf8_len(s, m, j - 1);
        assert(s.take(j) =~= s.take(j - 1).push(s[j - 1]));
        lemma_utf8_len_push(s.take(j - 1), s[j - 1]);
        lemma_scalar_width(s[j - 1]);
    }
}

proof fn lemma_fitting_prefix_is(s: Seq<char>, max: nat, m: int, j: int)
    requires
        0 <= m <= j <= s.len(),
        utf8_len(s.take(m)) <= max,
        m < s.len() ==> utf8_len(s.take(m + 1)) > max,
    ensures
        fitting_prefix(s.take(j), max) == s.take(m),
    decreases j - m,
{
    if j > m {
        lemma_prefix_utf8_len(s, m + 1, j);
        assert(s.take(j).drop_last() =~= s.take(j - 1));
        lemma_fitting_prefix_is(s, max, m, j - 1);
    }
}

/// Law of truncation: the result is a prefix of `s` that fits in `max`
/// bytes, it is all of `s` when `s` fits, and one more character would not
/// fit.
pub proof fn lemma_fitting_prefix(s: Seq<char>, max: nat)
    ensures
        fitting_prefix(s, max).len() <= s.len(),
        fitting_prefix(s, max) == s.take(fitting_prefix(s, max).len() as int),
        utf8_len(fitting_prefix(s, max)) <= max,
        utf8_len(s) <= max ==> fitting_prefix(s, max) == s,
        fitting_prefix(s, max).len() < s.len() ==> utf8_len(s.take(fitting_prefix(s, max).len() as int + 1)) > max,
    decreases s.len(),
{
    assert(s.take(s.len() as int) =~= s);
    if !(utf8_len(s) <= max || s.len() == 0) {
        let t = s.drop_last();
        lemma_fitting_prefix(t, max);
        let f = fitting_prefix(t, max);
        assert(t.take(f.len() as int) =~= s.take(f.len() as int));
        if f.len() < t.len() {
            assert(t.take(f.len() as int + 1) =~= s.take(f.len() as int + 1));
        } else {
            assert(s.take(f.len() as int + 1) =~= s);
        }
    } else if s.len() == 0 {
        assert(encode_utf8(s) =~= Seq::<u8>::empty());
    }
}

/// Laws of truncation across budgets: a smaller budget keeps a prefix of
/// what a larger one keeps, truncating again to the smaller budget gives the
/// same text as truncating once, and truncating twice to the same budget
/// changes nothing.
pub proof fn lemma_truncation_monotone(s: Seq<char>, n1: nat, n2: nat)
    requires
        n1 <= n2,
    ensures
        fitting_prefix(s, n1).len() <= fitting_prefix(s, n2).len(),
        fitting_prefix(s, n2).take(fitting_prefix(s, n1).len() as int) == fitting_prefix(s, n1),
        fitting_prefix(fitting_prefix(s, n2), n1) == fitting_prefix(s, n1),
        fitting_prefix(fitting_prefix(s, n1), n1) == fitting_prefix(s, n1),
{
    lemma_fitting_prefix(s, n1);
    lemma_fitting_prefix(s, n2);
    let m1 = fitting_prefix(s, n1).len() as int;
    let m2 = fitting_prefix(s, n2).len() as int;
    if m1 > m2 {
        lemma_prefix_utf8_len(s, m2 + 1, m1);
    }
    assert(s.take(m2).take(m1) =~= s.take(m1));
    lemma_fitting_prefix_is(s, n1, m1, m2);
}

/// Law of the retry budget: a retry moves on to the next attempt, which is
/// at most [`MAX_RETRIES`]; a response is never retried once [`MAX_RETRIES`]
/// retries have been made, so starting from attempt 0 a README takes at most
/// `MAX_RETRIES + 1` requests; and a 404 is never retried.
pub proof fn lemma_retry_budget(status: u16, attempt: u32, retry_after: Option<u64>)
    ensures
        readme_decision(status, attempt, retry_after) matches ReadmeStep::Retry { next_attempt, .. }
            ==> next_attempt == attempt + 1 && next_attempt <= MAX_RETRIES,
        attempt >= MAX_RETRIES ==> !(readme_decision(status, attempt, retry_after) is Retry),
        status == 404 ==> readme_decision(status, attempt, retry_after) is Unavailable,
{
}

/// The number of bytes `c` takes in UTF-8 (`char::len_utf8`).
pub fn char_width(c: char) -> (w: usize)
    ensures
        w == encode_scalar(c as u32).len(),
{
    proof {
        vstd::utf8::char_is_scalar(c);
    }
    let u = c as u32;
    if u <= 0x7f {
        1
    } else if u <= 0x7ff {
        2
    } else if u <= 0xffff {
        3
    } else {
        4
    }
}

/// Truncates `s` to at most `max_bytes` bytes, ending on a character
/// boundary: the longest prefix of `s` whose UTF-8 encoding fits.
pub fn truncate_utf8(s: &str, max_bytes: usize) -> (r: &str)
    ensures
        r@ == fitting_prefix(s@, max_bytes as nat),
{
    proof {
        assert(s@.take(s@.len() as int) =~= s@);
    }
    if s.as_bytes().len() <= max_bytes {
        return s;
    }
    let cs = chars_of(s);
    let mut used: usize = 0;
    let mut m: usize = 0;
    assert(s@.take(0) =~= Seq::<char>::empty());
    while m < cs.len()
        invariant_except_break
            m <= cs.len(),
            cs@ == s@,
            used == utf8_len(s@.take(m as int)),
            used <= max_bytes,
        ensures
            m <= cs.len(),
            used == utf8_len(s@.take(m as int)),
            used <= max_bytes,
            m < cs.len() ==> utf8_len(s@.take(m + 1)) > max_bytes,
        decreases cs.len() - m,
    {
        let w = char_width(cs[m]);
        proof {
            assert(s@.take(m + 1) =~= s@.take(m as int).push(s@[m as int]));
            lemma_utf8_len_push(s@.take(m as int), s@[m as int]);
        }
        if w > max_bytes - used {
            break;
        }
        used = used + w;
        m = m + 1;
    }
    proof {
        lemma_fitting_prefix_is(s@, max_bytes as nat, m as int, s@.len() as int);
    }
    s.substring_char(0, m)
}


/// What the README fetch does with a response.
pub enum ReadmeStep {
    /// 404: the repository has no README.
    Unavailable,
    /// Rate limited or a transient server error: wait `wait_secs`, then ask
    /// again as attempt `next_attempt`.
    Retry { wait_secs: u64, next_attempt: u32 },
    /// Any other unsuccessful status: give up with an error.
    Failed { status: u16 },
    /// Success: decode the body.
    Decode,
}

/// The decision for a README response with HTTP `status` after `attempt`
/// retries (`retry_after`: the parsed `Retry-After` header, if any).
pub open spec fn readme_decision(status: u16, attempt: u32, retry_after: Option<u64>) -> ReadmeStep {
    if status == 404 {
        ReadmeStep::Unavailable
    } else if retryable_status(status) && attempt < MAX_RETRIES {
        ReadmeStep::Retry {
            wait_secs: match retry_after {
                Some(s) => s,
                None => backoff(attempt) as u64,
            },
            next_attempt: (attempt + 1) as u32,
        }
    } else if !(200 <= status < 300) {
        ReadmeStep::Failed { status }
    } else {
        ReadmeStep::Decode
    }
}

/// Decides what to do with a README response: 404 means no README; rate
/// limits (403/429) and transient server errors (500/502/503/504) are
/// retried up to
/// [`MAX_RETRIES`] times, waiting as `Retry-After` says or with exponential
/// backoff; other failures are errors; success is decoded.
pub fn readme_step(status: u16, attempt: u32, retry_after: Option<u64>) -> (step: ReadmeStep)
    ensures
        step == readme_decision(status, attempt, retry_after),
{
    if status == 404 {
        ReadmeStep::Unavailable
    } else if is_retryable_status(status) && attempt < MAX_RETRIES {
        ReadmeStep::Retry { wait_secs: retry_delay(retry_after, attempt), next_attempt: attempt + 1 }
    } else if !(200 <= status && status < 300) {
        ReadmeStep::Failed { status }
    } else {
        ReadmeStep::Decode
    }
}

/// Why a README body could not be decoded.
#[derive(Debug, PartialEq, Eq)]
pub enum ReadmeError {
    /// The content is not valid standard base64.
    InvalidBase64,
    /// The decoded bytes are not UTF-8.
    NotUtf8,
}

/// What `base64::engine::general_purpose::STANDARD.decode` returns for the
/// given input bytes (`None` for a decoding error).
pub uninterp spec fn standard_base64(input: Seq<u8>) -> Option<Seq<u8>>;

#[verifier::external_type_specification]
#[verifier::external_body]
pub struct ExDecodeError(base64::DecodeError);

/// `base64::engine::general_purpose::STANDARD.decode`: decodes standard,
/// padded base64. The contract only names the result, which depends on the
/// input bytes alone.
#[verifier::external_body]
fn decode_standard_base64(input: &[u8]) -> (r: Result<Vec<u8>, base64::DecodeError>)
    ensures
        r is Ok <==> standard_base64(input@) is Some,
        r matches Ok(v) ==> standard_base64(input@) == Some(v@),
{
    base64::Engine::decode(&base64::engine::general_purpose::STANDARD, input)
}

/// `s` without its whitespace characters.
pub open spec fn without_whitespace(s: Seq<char>) -> Seq<char>
    decreases s.len(),
{
    if s.len() == 0 {
        seq![]
    } else if is_white_space(s.last()) {
        without_whitespace(s.drop_last())
    } else {
        without_whitespace(s.drop_last()).push(s.last())
    }
}

/// The README text of decoded bytes: their UTF-8 text, or an error when
/// they are not UTF-8.
pub open spec fn readme_text_of(bytes: Seq<u8>) -> Result<Seq<char>, ReadmeError> {
    if valid_utf8(bytes) {
        Ok(decode_utf8(bytes))
    } else {
        Err(ReadmeError::NotUtf8)
    }
}

/// Turns the base64-decoded bytes of a README into its text.
pub fn readme_text(bytes: Vec<u8>) -> (r: Result<String, ReadmeError>)
    ensures
        match r {
            Ok(s) => readme_text_of(bytes@) == Ok::<Seq<char>, ReadmeError>(s@),
            Err(e) => readme_text_of(bytes@) == Err::<Seq<char>, ReadmeError>(e),
        },
{
    match utf8_string(bytes) {
        Some(s) => Ok(s),
        None => Err(ReadmeError::NotUtf8),
    }
}

/// The README a REST `readme` payload carries: none unless the encoding is
/// `base64`; otherwise the content, whitespace removed, base64-decoded and
/// read as UTF-8.
pub open spec fn readme_payload(content: Seq<char>, encoding: Seq<char>) -> Result<Option<Seq<char>>, ReadmeError> {
    if encoding != "base64"@ {
        Ok(None)
    } else {
        match standard_base64(encode_utf8(without_whitespace(content))) {
            None => Err(ReadmeError::InvalidBase64),
            Some(bytes) => match readme_text_of(bytes) {
                Ok(t) => Ok(Some(t)),
                Err(e) => Err(e),
            },
        }
    }
}

/// Decodes a REST `readme` payload (`content`, `encoding`) into the README
/// text; `Ok(None)` when the encoding is not base64.
pub fn decode_readme(content: &str, encoding: &str) -> (r: Result<Option<String>, ReadmeError>)
    ensures
        match r {
            Ok(Some(t)) => readme_payload(content@, encoding@) == Ok::<Option<Seq<char>>, ReadmeError>(Some(t@)),
            Ok(None) => readme_payload(content@, encoding@) == Ok::<Option<Seq<char>>, ReadmeError>(None),
            Err(e) => readme_payload(content@, encoding@) == Err::<Option<Seq<char>>, ReadmeError>(e),
        },
{
    if !same_text(encoding, "base64") {
        return Ok(None);
    }
    let cs = chars_of(content);
    let mut cleaned = String::new();
    let n = cs.len();
    for i in 0..n
        invariant
            n == cs.len(),
            cs@ == content@,
            cleaned@ == without_whitespace(cs@.take(i as int)),
    {
        assert(cs@.take(i + 1).drop_last() =~= cs@.take(i as int));
        if !is_whitespace(cs[i]) {
            push_char(&mut cleaned, cs[i]);
        }
    }
    assert(cs@.take(n as int) =~= cs@);
    match decode_standard_base64(cleaned.as_str().as_bytes()) {
        Ok(bytes) => match readme_text(bytes) {
            Ok(t) => Ok(Some(t)),
            Err(e) => Err(e),
        },
        Err(_) => Err(ReadmeError::InvalidBase64),
    }
}

} // verus!
