//! Classification of HTTP outcomes and the retry backoff schedule.

use vstd::prelude::*;

verus! {

/// What an HTTP status means to the engine.
#[derive(Debug, Clone, Copy, PartialEq, Eq, Structural)]
pub enum StatusClass {
    /// A full body follows.
    Success,
    /// A partial body follows.
    SuccessPartial,
    /// The requested range cannot be served.
    RangeNotSatisfiable,
    /// Transient; back off, then retry.
    TransientBackoff,
    /// Transient; prefer another mirror before retrying.
    TransientMirror,
    /// Permanent; the file fails at once.
    Permanent,
}

/// The class of an HTTP status code: 200 and 206 succeed; 416 is the range
/// answer; 502, 503, 504 and 509 prefer mirror failover; other 5xx, 429 and
/// 408 back off; everything else is permanent.
pub open spec fn spec_classify_status(code: u16) -> StatusClass {
    if code == 200 {
        StatusClass::Success
    } else if code == 206 {
        StatusClass::SuccessPartial
    } else if code == 416 {
        StatusClass::RangeNotSatisfiable
    } else if code == 502 || code == 503 || code == 504 || code == 509 {
        StatusClass::TransientMirror
    } else if (500 <= code && code < 600) || code == 429 || code == 408 {
        StatusClass::TransientBackoff
    } else {
        StatusClass::Permanent
    }
}

/// Classifies an HTTP status code, per `spec_classify_status`.
pub fn classify_status(code: u16) -> (r: StatusClass)
    ensures
        r == spec_classify_status(code),
{
    if code == 200 {
        StatusClass::Success
    } else if code == 206 {
        StatusClass::SuccessPartial
    } else if code == 416 {
        StatusClass::RangeNotSatisfiable
    } else if code == 502 || code == 503 || code == 504 || code == 509 {
        StatusClass::TransientMirror
    } else if (500 <= code && code < 600) || code == 429 || code == 408 {
        StatusClass::TransientBackoff
    } else {
        StatusClass::Permanent
    }
}

/// Whether a status is worth retrying.
pub fn is_transient_error(code: u16) -> (r: bool)
    ensures
        r == (spec_classify_status(code) == StatusClass::TransientBackoff
            || spec_classify_status(code) == StatusClass::TransientMirror),
{
    let c = classify_status(code);
    match c {
        StatusClass::TransientBackoff => true,
        StatusClass::TransientMirror => true,
        _ => false,
    }
}

/// A `Retry-After` value clamped to one second at least and fifteen minutes
/// at most.
pub open spec fn spec_clamp_retry_after(seconds: u64) -> u64 {
    if seconds < 1 {
        1
    } else if seconds > 900 {
        900
    } else {
        seconds
    }
}

/// Clamps a `Retry-After` value, per `spec_clamp_retry_after`.
pub fn clamp_retry_after(seconds: u64) -> (r: u64)
    ensures
        r == spec_clamp_retry_after(seconds),
{
    if seconds < 1 {
        1
    } else if seconds > 900 {
        900
    } else {
        seconds
    }
}

/// The attempt-level backoff: sixty seconds after the first failure,
/// doubling, capped at nine hundred seconds.
pub open spec fn spec_backoff(attempts: u32) -> u64
    decreases attempts,
{
    if attempts <= 1 {
        60
    } else {
        let p = spec_backoff((attempts - 1) as u32);
        if p >= 450 {
            900
        } else {
            (p * 2) as u64
        }
    }
}

/// The backoff never exceeds the cap.
pub proof fn lemma_backoff_bounded(attempts: u32)
    ensures
        60 <= spec_backoff(attempts) <= 900,
    decreases attempts,
{
    if attempts > 1 {
        lemma_backoff_bounded((attempts - 1) as u32);
    }
}

/// Computes the backoff, per `spec_backoff`.
pub fn backoff_seconds(attempts: u32) -> (r: u64)
    ensures
        r == spec_backoff(attempts),
        60 <= r <= 900,
    decreases attempts,
{
    if attempts <= 1 {
        60
    } else {
        let p = backoff_seconds(attempts - 1);
        if p >= 450 {
            900
        } else {
            p * 2
        }
    }
}

/// The delay before the next attempt: the exponential backoff, overridden by
/// a clamped `Retry-After` when that is larger.
pub open spec fn spec_retry_delay(attempts: u32, retry_after: Option<u64>) -> u64 {
    let b = spec_backoff(attempts);
    match retry_after {
        Some(ra) => {
            let c = spec_clamp_retry_after(ra);
            if c > b {
                c
            } else {
                b
            }
        },
        None => b,
    }
}

/// Computes the delay before the next attempt, per `spec_retry_delay`.
pub fn retry_delay(attempts: u32, retry_after: Option<u64>) -> (r: u64)
    ensures
        r == spec_retry_delay(attempts, retry_after),
        r <= 900,
{
    let b = backoff_seconds(attempts);
    match retry_after {
        Some(ra) => {
            let c = clamp_retry_after(ra);
            if c > b {
                c
            } else {
                b
            }
        },
        None => b,
    }
}


/// The first position at or after `i` that does not hold a digit.
pub open spec fn spec_digits_end(s: Seq<char>, i: int) -> int
    recommends
        0 <= i <= s.len(),
    decreases s.len() - i,
{
    if i < 0 || i >= s.len() {
        s.len() as int
    } else if crate::strutil::is_digit(s[i]) {
        spec_digits_end(s, i + 1)
    } else {
        i
    }
}

/// The offset a `Content-Range` header answers with: the digits between
/// `bytes ` and the following `-`, when the header has that shape and the
/// number fits; nothing otherwise.
pub open spec fn spec_content_range_start(s: Seq<char>) -> Option<u64> {
    if !crate::strutil::starts_with(s, "bytes "@) {
        None
    } else {
        let b = 6int;
        let e = spec_digits_end(s, b);
        let digits = s.subrange(b, e);
        if e > b && e < s.len() && s[e] == '-' && crate::strutil::dec_value(digits) <= u64::MAX {
            Some(crate::strutil::dec_value(digits) as u64)
        } else {
            None
        }
    }
}

/// Reads the start offset out of a `Content-Range` header value, per
/// `spec_content_range_start`.
pub fn parse_content_range_start(s: &str) -> (r: Option<u64>)
    ensures
        r == spec_content_range_start(s@),
{
    let v = crate::strutil::str_to_chars(s);
    let prefix = crate::strutil::str_to_chars("bytes ");
    proof {
        reveal_strlit("bytes ");
    }
    if !crate::strutil::starts_with_exec(&v, &prefix) {
        return None;
    }
    let b: usize = 6;
    let mut e: usize = b;
    while e < v.len() && numeric_digit(v[e])
        invariant
            b <= e <= v.len(),
            v@ == s@,
            spec_digits_end(s@, b as int) == spec_digits_end(s@, e as int),
        decreases v.len() - e,
    {
        e = e + 1;
    }
    proof {
        assert(spec_digits_end(s@, b as int) == e as int);
    }
    if e == b {
        return None;
    }
    if e >= v.len() {
        return None;
    }
    if v[e] != '-' {
        return None;
    }
    let mut digits: Vec<char> = Vec::new();
    let mut i: usize = b;
    while i < e
        invariant
            b <= i <= e,
            e <= v.len(),
            v@ == s@,
            digits@ == s@.subrange(b as int, i as int),
        decreases e - i,
    {
        digits.push(v[i]);
        i = i + 1;
        proof {
            assert(digits@ =~= s@.subrange(b as int, i as int));
        }
    }
    proof {
        assert(crate::strutil::all_digits(digits@)) by {
            assert(forall|k: int|
                0 <= k < digits@.len() ==> crate::strutil::is_digit(#[trigger] digits@[k])) by {
                assert(forall|k: int|
                    b <= k < e ==> crate::strutil::is_digit(#[trigger] s@[k])) by {
                    lemma_digits_end_all_digits(s@, b as int);
                }
            }
        }
    }
    crate::strutil::parse_u64_chars(&digits)
}

/// Everything before the digits' end is a digit.
proof fn lemma_digits_end_all_digits(s: Seq<char>, i: int)
    requires
        0 <= i <= s.len(),
    ensures
        i <= spec_digits_end(s, i) <= s.len(),
        forall|k: int|
            i <= k < spec_digits_end(s, i) ==> crate::strutil::is_digit(#[trigger] s[k]),
    decreases s.len() - i,
{
    if i < s.len() && crate::strutil::is_digit(s[i]) {
        lemma_digits_end_all_digits(s, i + 1);
    }
}

/// Whether the character is a decimal digit.
fn numeric_digit(c: char) -> (r: bool)
    ensures
        r == crate::strutil::is_digit(c),
{
    let u: u32 = c as u32;
    48 <= u && u <= 57
}


/// The metadata fetcher's own backoff: one second after the first failure,
/// doubling, capped at thirty seconds.
pub open spec fn spec_metadata_backoff(failures: u32) -> u64
    decreases failures,
{
    if failures <= 1 {
        1
    } else {
        let p = spec_metadata_backoff((failures - 1) as u32);
        if p >= 15 {
            30
        } else {
            (p * 2) as u64
        }
    }
}

/// The delay before the next metadata attempt, or nothing when the per-call
/// budget of three attempts is spent: after the first and second failures
/// the fetcher sleeps and retries; the third failure stands.
pub open spec fn spec_metadata_retry_delay(failures: u32) -> Option<u64> {
    if 1 <= failures < 3 {
        Some(spec_metadata_backoff(failures))
    } else {
        None
    }
}

/// Computes the metadata retry delay, per `spec_metadata_retry_delay`.
pub fn metadata_retry_delay(failures: u32) -> (r: Option<u64>)
    ensures
        r == spec_metadata_retry_delay(failures),
        r matches Some(d) ==> 1 <= d <= 30,
{
    if 1 <= failures && failures < 3 {
        Some(metadata_backoff(failures))
    } else {
        None
    }
}

/// Computes the metadata backoff, per `spec_metadata_backoff`.
fn metadata_backoff(failures: u32) -> (r: u64)
    ensures
        r == spec_metadata_backoff(failures),
        1 <= r <= 30,
    decreases failures,
{
    if failures <= 1 {
        1
    } else {
        let p = metadata_backoff(failures - 1);
        if p >= 15 {
            30
        } else {
            p * 2
        }
    }
}

/// The write-buffer size for an observed throughput: one eighth of a
/// second's worth of bytes, kept between 64 KiB and 8 MiB.
pub open spec fn spec_buffer_size(observed_bps: u64) -> usize {
    if observed_bps / 8 < 65536 {
        65536usize
    } else if observed_bps / 8 > 8388608 {
        8388608usize
    } else {
        (observed_bps / 8) as usize
    }
}

/// Computes the adaptive write-buffer size, per `spec_buffer_size`.
pub fn adaptive_buffer_size(observed_bps: u64) -> (r: usize)
    ensures
        r == spec_buffer_size(observed_bps),
{
    let eighth = observed_bps / 8;
    if eighth < 65536 {
        65536
    } else if eighth > 8388608 {
        8388608
    } else {
        eighth as usize
    }
}

} // verus!
