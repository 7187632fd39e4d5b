//! Size strings: parsing "1.5MB" into bytes and rendering bytes back.
//!
//! Sizes use binary units: 1 KB here is 1024 bytes. A size string is
//! `<digits>` or `<digits>.<digits>`, followed by an optional unit among
//! `B`, `KB`, `MB`, `GB`, `TB`, compared ignoring ASCII case, with no other
//! characters. At most twelve fractional digits are accepted; the value is
//! rounded down to whole bytes.

use vstd::prelude::*;
use crate::error::IaGetError;
use crate::strutil::{
    all_digits, chars_eq_ignore_case, chars_to_string, concat_chars, dec_digits, dec_value, digit_val,
    is_digit, parse_u64_chars, push_dec, str_to_chars,
};
use vstd::arithmetic::div_mod::lemma_multiply_divide_lt;

verus! {

/// Ten to the given power.
pub open spec fn pow10(k: nat) -> nat
    decreases k,
{
    if k == 0 {
        1
    } else {
        10 * pow10((k - 1) as nat)
    }
}

/// Computes ten to the given power; twelve is the largest exponent needed.
pub fn pow10_exec(k: usize) -> (r: u64)
    requires
        k <= 12,
    ensures
        r as nat == pow10(k as nat),
    decreases k,
{
    if k == 0 {
        1
    } else {
        let rest = pow10_exec(k - 1);
        proof {
            lemma_pow10_le_12(k as nat);
        }
        10 * rest
    }
}

/// Ten to the twelfth, spelled out.
proof fn lemma_pow10_12_value()
    ensures
        pow10(12) == 1000000000000,
{
    assert(pow10(0) == 1);
    assert(pow10(1) == 10);
    assert(pow10(2) == 100);
    assert(pow10(3) == 1000);
    assert(pow10(4) == 10000);
    assert(pow10(5) == 100000);
    assert(pow10(6) == 1000000);
    assert(pow10(7) == 10000000);
    assert(pow10(8) == 100000000);
    assert(pow10(9) == 1000000000);
    assert(pow10(10) == 10000000000);
    assert(pow10(11) == 100000000000);
    assert(pow10(12) == 1000000000000);
}

/// Ten to any power up to twelve fits comfortably in 64 bits.
proof fn lemma_pow10_le_12(k: nat)
    requires
        k <= 12,
    ensures
        pow10(k) <= 1000000000000,
{
    lemma_pow10_grows(k, 12);
    lemma_pow10_12_value();
}

/// `pow10` is monotone.
proof fn lemma_pow10_grows(a: nat, b: nat)
    requires
        a <= b,
    ensures
        pow10(a) <= pow10(b),
    decreases b,
{
    if a < b {
        lemma_pow10_grows(a, (b - 1) as nat);
        assert(pow10(b) == 10 * pow10((b - 1) as nat));
    }
}

/// The byte factor of a unit suffix, or `None` when the suffix is not a
/// known unit. The empty suffix and `B` mean bytes.
pub open spec fn spec_unit_factor(u: Seq<char>) -> Option<u64> {
    if u.len() == 0 || crate::strutil::eq_ignore_case(u, "b"@) {
        Some(1u64)
    } else if crate::strutil::eq_ignore_case(u, "kb"@) {
        Some(1024u64)
    } else if crate::strutil::eq_ignore_case(u, "mb"@) {
        Some(1048576u64)
    } else if crate::strutil::eq_ignore_case(u, "gb"@) {
        Some(1073741824u64)
    } else if crate::strutil::eq_ignore_case(u, "tb"@) {
        Some(1099511627776u64)
    } else {
        None
    }
}

/// The byte factor of a unit suffix.
pub fn unit_factor(u: &Vec<char>) -> (r: Option<u64>)
    ensures
        r == spec_unit_factor(u@),
{
    if u.len() == 0 {
        return Some(1);
    }
    let b = str_to_chars("b");
    if chars_eq_ignore_case(u, &b) {
        return Some(1);
    }
    let kb = str_to_chars("kb");
    if chars_eq_ignore_case(u, &kb) {
        return Some(1024);
    }
    let mb = str_to_chars("mb");
    if chars_eq_ignore_case(u, &mb) {
        return Some(1048576);
    }
    let gb = str_to_chars("gb");
    if chars_eq_ignore_case(u, &gb) {
        return Some(1073741824);
    }
    let tb = str_to_chars("tb");
    if chars_eq_ignore_case(u, &tb) {
        return Some(1099511627776);
    }
    None
}

/// Whether the character may appear in the numeric part.
fn numeric_char(c: char) -> (r: bool)
    ensures
        r == (is_digit(c) || c == '.'),
{
    let cu: u32 = c as u32;
    (48 <= cu && cu <= 57) || c == '.'
}

/// Where the numeric part of a size string ends: the first position that
/// holds neither a digit nor a dot.
pub open spec fn spec_num_end(s: Seq<char>, i: int) -> int
    recommends
        0 <= i <= s.len(),
    decreases s.len() - i,
{
    if i >= s.len() {
        s.len() as int
    } else if is_digit(s[i]) || s[i] == '.' {
        spec_num_end(s, i + 1)
    } else {
        i
    }
}

/// Where the first dot at or after `i` sits, or the length when none does.
pub open spec fn spec_first_dot(s: Seq<char>, i: int) -> int
    recommends
        0 <= i <= s.len(),
    decreases s.len() - i,
{
    if i >= s.len() {
        s.len() as int
    } else if s[i] == '.' {
        i
    } else {
        spec_first_dot(s, i + 1)
    }
}

/// A well-formed size string: a non-empty digit run, an optional dot with a
/// non-empty digit run of at most twelve digits after it, then a known unit
/// suffix; and a value that fits in 64 bits.
pub open spec fn spec_size_parts(s: Seq<char>) -> (Seq<char>, Seq<char>, Seq<char>) {
    let ne = spec_num_end(s, 0);
    let num = s.subrange(0, ne);
    let unit = s.subrange(ne, s.len() as int);
    let dot = spec_first_dot(num, 0);
    let whole = num.subrange(0, dot);
    let frac = if dot < num.len() {
        num.subrange(dot + 1, num.len() as int)
    } else {
        Seq::empty()
    };
    (whole, frac, unit)
}

/// The size string is syntactically valid.
pub open spec fn spec_size_valid(s: Seq<char>) -> bool {
    let (whole, frac, unit) = spec_size_parts(s);
    let ne = spec_num_end(s, 0);
    let num = s.subrange(0, ne);
    let dot = spec_first_dot(num, 0);
    &&& whole.len() > 0
    &&& all_digits(whole)
    &&& (dot < num.len() ==> frac.len() > 0 && all_digits(frac) && frac.len() <= 12)
    &&& spec_unit_factor(unit) is Some
    &&& (dot < num.len() ==> spec_first_dot(num, dot + 1) == num.len())
}

/// A usable size string: well formed, and its value fits in 64 bits.
pub open spec fn spec_size_usable(s: Seq<char>) -> bool {
    spec_size_valid(s) && spec_size_value(s) <= u64::MAX
}

/// The byte value of a valid size string, as unbounded arithmetic.
pub open spec fn spec_size_value(s: Seq<char>) -> int {
    let (whole, frac, unit) = spec_size_parts(s);
    let u = spec_unit_factor(unit)->Some_0 as int;
    dec_value(whole) * u + (dec_value(frac) * u) / pow10(frac.len()) as int
}

/// Parses a size string such as "1024", "1.5KB" or "100mb" into bytes.
///
/// Returns `Ok` exactly on well-formed strings whose value fits in 64 bits;
/// every other input yields a `Parse` error.
pub fn parse_size_string(s: &str) -> (r: Result<u64, IaGetError>)
    ensures
        match r {
            Ok(n) => spec_size_valid(s@) && n as int == spec_size_value(s@) && spec_size_value(
                s@,
            ) <= u64::MAX,
            Err(e) => (!spec_size_valid(s@) || spec_size_value(s@) > u64::MAX) && e is Parse,
        },
{
    let v = str_to_chars(s);
    // find the end of the numeric part
    let mut ne: usize = 0;
    while ne < v.len() && numeric_char(v[ne])
        invariant
            ne <= v.len(),
            v@ == s@,
            spec_num_end(s@, 0) == spec_num_end(s@, ne as int),
        decreases v.len() - ne,
    {
        ne = ne + 1;
    }
    proof {
        assert(spec_num_end(s@, ne as int) == ne as int);
    }
    let mut num: Vec<char> = Vec::new();
    let mut i: usize = 0;
    while i < ne
        invariant
            i <= ne,
            ne <= v.len(),
            v@ == s@,
            num@ == s@.subrange(0, i as int),
        decreases ne - i,
    {
        num.push(v[i]);
        i = i + 1;
        proof {
            assert(num@ =~= s@.subrange(0, i as int));
        }
    }
    let mut unit: Vec<char> = Vec::new();
    let mut j: usize = ne;
    while j < v.len()
        invariant
            ne <= j <= v.len(),
            v@ == s@,
            unit@ == s@.subrange(ne as int, j as int),
        decreases v.len() - j,
    {
        unit.push(v[j]);
        j = j + 1;
        proof {
            assert(unit@ =~= s@.subrange(ne as int, j as int));
        }
    }
    proof {
        assert(unit@ =~= s@.subrange(ne as int, s@.len() as int));
    }
    // find the first dot of the numeric part
    let mut dot: usize = 0;
    while dot < num.len() && num[dot] != '.'
        invariant
            dot <= num.len(),
            spec_first_dot(num@, 0) == spec_first_dot(num@, dot as int),
        decreases num.len() - dot,
    {
        dot = dot + 1;
    }
    proof {
        assert(spec_first_dot(num@, dot as int) == dot as int);
    }
    let mut whole: Vec<char> = Vec::new();
    let mut k: usize = 0;
    while k < dot
        invariant
            k <= dot,
            dot <= num.len(),
            whole@ == num@.subrange(0, k as int),
        decreases dot - k,
    {
        whole.push(num[k]);
        k = k + 1;
        proof {
            assert(whole@ =~= num@.subrange(0, k as int));
        }
    }
    let mut frac: Vec<char> = Vec::new();
    if dot < num.len() {
        let mut m: usize = dot + 1;
        while m < num.len()
            invariant
                dot + 1 <= m <= num.len(),
                frac@ == num@.subrange(dot + 1, m as int),
            decreases num.len() - m,
        {
            frac.push(num[m]);
            m = m + 1;
            proof {
                assert(frac@ =~= num@.subrange(dot + 1, m as int));
            }
        }
        proof {
            assert(frac@ =~= num@.subrange(dot + 1, num@.len() as int));
        }
        // a second dot makes the string invalid
        let mut d2: usize = 0;
        while d2 < frac.len() && frac[d2] != '.'
            invariant
                d2 <= frac.len(),
                dot < num.len(),
                frac@ == num@.subrange(dot + 1, num@.len() as int),
                spec_first_dot(num@, dot + 1) == spec_first_dot(num@, dot + 1 + d2 as int),
            decreases frac.len() - d2,
        {
            d2 = d2 + 1;
        }
        if d2 < frac.len() {
            proof {
                assert(num@[dot + 1 + d2] == '.');
                assert(spec_first_dot(num@, dot + 1) == dot + 1 + d2);
            }
            return Err(IaGetError::Parse(String::from_str("invalid size string")));
        }
        proof {
            assert(spec_first_dot(num@, dot + 1) == num@.len());
        }
    }
    // validate pieces
    let ghost parts = spec_size_parts(s@);
    proof {
        assert(num@ == s@.subrange(0, spec_num_end(s@, 0)));
        assert(parts.0 == whole@);
        assert(parts.2 == unit@);
        if dot < num.len() {
            assert(parts.1 == frac@);
        } else {
            assert(parts.1 =~= frac@);
        }
    }
    let u = match unit_factor(&unit) {
        Some(u) => u,
        None => {
            return Err(IaGetError::Parse(String::from_str("invalid size string")));
        },
    };
    let whole_val = match parse_u64_chars(&whole) {
        Some(n) => n,
        None => {
            proof {
                if all_digits(whole@) && whole@.len() > 0 {
                    // the whole part alone does not fit, so the value cannot
                    lemma_value_at_least_whole(s@);
                }
            }
            return Err(IaGetError::Parse(String::from_str("invalid size string")));
        },
    };
    proof {
        assert(whole_val as nat == dec_value(whole@));
    }
    let mut frac_val: u64 = 0;
    let mut frac_len: usize = 0;
    if dot < num.len() {
        if frac.len() == 0 || frac.len() > 12 {
            return Err(IaGetError::Parse(String::from_str("invalid size string")));
        }
        frac_val = match parse_u64_chars(&frac) {
            Some(n) => n,
            None => {
                proof {
                    if all_digits(frac@) {
                        lemma_dec_value_bound(frac@);
                        lemma_pow10_le_12(frac@.len());
                    }
                }
                return Err(IaGetError::Parse(String::from_str("invalid size string")));
            },
        };
        frac_len = frac.len();
    }
    // combine: whole * u + floor(frac * u / 10^frac_len)
    proof {
        assert(u <= 1099511627776);
        lemma_pow10_le_12(frac_len as nat);
    }
    let p10 = pow10_exec(frac_len);
    proof {
        assert(frac_val < p10) by {
            if dot < num.len() {
                lemma_dec_value_bound(frac@);
            }
        }
    }
    let fpart_wide: u128 = (frac_val as u128) * (u as u128) / (p10 as u128);
    proof {
        assert((frac_val as int) * (u as int) < (p10 as int) * (u as int)) by (nonlinear_arith)
            requires
                frac_val < p10,
                u >= 1,
        ;
        lemma_multiply_divide_lt((frac_val as int) * (u as int), p10 as int, u as int);
        assert(fpart_wide < u as u128);
    }
    let fpart: u64 = fpart_wide as u64;
    let base_wide: u128 = (whole_val as u128) * (u as u128);
    proof {
        assert(base_wide == dec_value(parts.0) * u as int);
        assert(fpart as int == (dec_value(parts.1) * u as int) / pow10(parts.1.len()) as int);
    }
    if base_wide > (u64::MAX as u128) - (fpart as u128) {
        proof {
            assert(spec_size_value(s@) > u64::MAX);
        }
        return Err(IaGetError::Parse(String::from_str("size too large")));
    }
    let total = (base_wide as u64) + fpart;
    proof {
        assert(total as int == spec_size_value(s@));
    }
    Ok(total)
}

/// When the whole digits alone exceed 64 bits, so does the size value.
proof fn lemma_value_at_least_whole(s: Seq<char>)
    requires
        dec_value(spec_size_parts(s).0) > u64::MAX,
        spec_unit_factor(spec_size_parts(s).2) is Some,
    ensures
        spec_size_value(s) > u64::MAX,
{
    let (whole, frac, unit) = spec_size_parts(s);
    let u = spec_unit_factor(unit)->Some_0 as int;
    assert(dec_value(whole) * u >= dec_value(whole)) by (nonlinear_arith)
        requires
            u >= 1,
            dec_value(whole) >= 0,
    ;
    assert((dec_value(frac) * u) / pow10(frac.len()) as int >= 0) by {
        assert((dec_value(frac) as int) * u >= 0) by (nonlinear_arith)
            requires
                u >= 1,
        ;
        lemma_pow10_pos(frac.len());
        vstd::arithmetic::div_mod::lemma_div_pos_is_pos(
            (dec_value(frac) as int) * u,
            pow10(frac.len()) as int,
        );
    }
}

/// An all-digit sequence's value is below ten to its length.
proof fn lemma_dec_value_bound(s: Seq<char>)
    requires
        all_digits(s),
    ensures
        dec_value(s) < pow10(s.len()),
    decreases s.len(),
{
    if s.len() > 0 {
        assert(all_digits(s.drop_last())) by {
            assert(forall|i: int|
                0 <= i < s.len() - 1 ==> s.drop_last()[i] == #[trigger] s[i]);
        }
        lemma_dec_value_bound(s.drop_last());
        assert(pow10(s.len()) == 10 * pow10((s.len() - 1) as nat));
        assert(is_digit(s.last()));
        assert(digit_val(s.last()) <= 9);
    }
}

/// Ten to any power is positive.
proof fn lemma_pow10_pos(k: nat)
    ensures
        pow10(k) >= 1,
    decreases k,
{
    if k > 0 {
        lemma_pow10_pos((k - 1) as nat);
    }
}


/// The size scaled by a unit, in tenths, rounded to nearest.
pub open spec fn scaled_tenths(v: int, u: int) -> int
    recommends
        u >= 1,
{
    (v / u) * 10 + ((v % u) * 10 + u / 2) / u
}

/// The rendering of a scaled size: whole part, a dot, one tenths digit.
pub open spec fn scaled_str(v: u64, u: u64) -> Seq<char> {
    let t = scaled_tenths(v as int, u as int);
    dec_digits((t / 10) as nat) + "."@ + dec_digits((t % 10) as nat)
}

/// A human-readable size with binary units and one decimal: bytes below one
/// kilobyte are plain, everything else is scaled to the largest unit below
/// it, rounded to the nearest tenth.
pub open spec fn spec_format_size(v: u64) -> Seq<char> {
    if v < 1024 {
        dec_digits(v as nat) + " B"@
    } else if v < 1048576 {
        scaled_str(v, 1024) + " KB"@
    } else if v < 1073741824 {
        scaled_str(v, 1048576) + " MB"@
    } else if v < 1099511627776 {
        scaled_str(v, 1073741824) + " GB"@
    } else {
        scaled_str(v, 1099511627776) + " TB"@
    }
}

/// Computes the scaled size in tenths, rounded to nearest.
fn scaled_tenths_exec(v: u64, u: u64) -> (t: u64)
    requires
        1024 <= u <= 1099511627776,
    ensures
        t as int == scaled_tenths(v as int, u as int),
{
    let q = v / u;
    let r = v % u;
    let x = (r * 10 + u / 2) / u;
    proof {
        assert(q <= v / 1024) by {
            vstd::arithmetic::div_mod::lemma_div_is_ordered_by_denominator(
                v as int,
                1024,
                u as int,
            );
        }
        assert(x <= 10) by {
            assert((r as int) * 10 + (u as int) / 2 < (u as int) * 11) by {
                assert((r as int) * 10 <= (u as int) * 10 - 10) by (nonlinear_arith)
                    requires
                        r < u,
                ;
            }
            lemma_multiply_divide_lt((r as int) * 10 + (u as int) / 2, u as int, 11);
        }
    }
    q * 10 + x
}

/// Renders a byte count as a human-readable size, per `spec_format_size`.
pub fn format_size(v: u64) -> (r: String)
    ensures
        r@ == spec_format_size(v),
{
    if v < 1024 {
        let mut out: Vec<char> = Vec::new();
        push_dec(&mut out, v);
        let suffix = str_to_chars(" B");
        let w = concat_chars(&out, &suffix);
        proof {
            assert(w@ =~= spec_format_size(v));
        }
        return chars_to_string(&w);
    }
    let u: u64 = if v < 1048576 {
        1024
    } else if v < 1073741824 {
        1048576
    } else if v < 1099511627776 {
        1073741824
    } else {
        1099511627776
    };
    let suffix = if v < 1048576 {
        str_to_chars(" KB")
    } else if v < 1073741824 {
        str_to_chars(" MB")
    } else if v < 1099511627776 {
        str_to_chars(" GB")
    } else {
        str_to_chars(" TB")
    };
    let t = scaled_tenths_exec(v, u);
    let mut out: Vec<char> = Vec::new();
    push_dec(&mut out, t / 10);
    let dotv = str_to_chars(".");
    let out2 = concat_chars(&out, &dotv);
    let mut out3 = concat_chars(&out2, &Vec::new());
    push_dec(&mut out3, t % 10);
    let w = concat_chars(&out3, &suffix);
    proof {
        assert(out3@ =~= dec_digits((t / 10) as nat) + "."@ + dec_digits((t % 10) as nat));
        assert(w@ =~= spec_format_size(v));
    }
    chars_to_string(&w)
}

} // verus!
