//! Plain renderings and parsers for configuration values.

use vstd::prelude::*;
use crate::error::IaGetError;
use crate::strutil::{lower_chars, lower_seq, str_to_chars, chars_eq};

verus! {

/// Renders an optional value: the value itself, or `(not set)`.
pub fn format_option(opt: &Option<String>) -> (r: String)
    ensures
        match opt {
            Some(v) => r@ == v@,
            None => r@ == "(not set)"@,
        },
{
    match opt {
        Some(v) => v.clone(),
        None => String::from_str("(not set)"),
    }
}

/// Renders a flag as `Yes` or `No`.
pub fn format_bool(value: bool) -> (r: String)
    ensures
        r@ == if value {
            "Yes"@
        } else {
            "No"@
        },
{
    if value {
        String::from_str("Yes")
    } else {
        String::from_str("No")
    }
}

/// The words accepted as true.
pub open spec fn spec_is_true_word(l: Seq<char>) -> bool {
    ||| l == "true"@
    ||| l == "yes"@
    ||| l == "y"@
    ||| l == "1"@
    ||| l == "on"@
    ||| l == "enable"@
    ||| l == "enabled"@
}

/// The words accepted as false.
pub open spec fn spec_is_false_word(l: Seq<char>) -> bool {
    ||| l == "false"@
    ||| l == "no"@
    ||| l == "n"@
    ||| l == "0"@
    ||| l == "off"@
    ||| l == "disable"@
    ||| l == "disabled"@
}

/// Parses a boolean word, ignoring ASCII case: `true`/`yes`/`y`/`1`/`on`/
/// `enable`/`enabled` and their negative counterparts; anything else is a
/// configuration error whose message names the offending value.
pub fn parse_bool(value: &str) -> (r: Result<bool, IaGetError>)
    ensures
        match r {
            Ok(b) => if b {
                spec_is_true_word(lower_seq(value@))
            } else {
                spec_is_false_word(lower_seq(value@))
            },
            Err(e) => !spec_is_true_word(lower_seq(value@)) && !spec_is_false_word(
                lower_seq(value@),
            ) && (e matches IaGetError::Config(m) && m@ == "Invalid boolean value: '"@
                + value@ + "'. Use true/false, yes/no, or 1/0"@),
        },
{
    let l = lower_chars(&str_to_chars(value));
    if chars_eq(&l, &str_to_chars("true")) || chars_eq(&l, &str_to_chars("yes")) || chars_eq(
        &l,
        &str_to_chars("y"),
    ) || chars_eq(&l, &str_to_chars("1")) || chars_eq(&l, &str_to_chars("on")) || chars_eq(
        &l,
        &str_to_chars("enable"),
    ) || chars_eq(&l, &str_to_chars("enabled")) {
        return Ok(true);
    }
    if chars_eq(&l, &str_to_chars("false")) || chars_eq(&l, &str_to_chars("no")) || chars_eq(
        &l,
        &str_to_chars("n"),
    ) || chars_eq(&l, &str_to_chars("0")) || chars_eq(&l, &str_to_chars("off")) || chars_eq(
        &l,
        &str_to_chars("disable"),
    ) || chars_eq(&l, &str_to_chars("disabled")) {
        return Ok(false);
    }
    let head = str_to_chars("Invalid boolean value: '");
    let middle = str_to_chars(value);
    let tail = str_to_chars("'. Use true/false, yes/no, or 1/0");
    let m1 = crate::strutil::concat_chars(&head, &middle);
    let m2 = crate::strutil::concat_chars(&m1, &tail);
    Err(IaGetError::Config(crate::strutil::chars_to_string(&m2)))
}

} // verus!
