//! Archive URLs and identifiers: validation, extraction, construction.
//!
//! An input is either a bare identifier (letters, digits, dots, underscores
//! and hyphens) or an URL under the archive host family whose path names an
//! item under `/details/`.

use vstd::prelude::*;
use crate::error::IaGetError;
use crate::strutil::{
    chars_eq, chars_to_string, concat_chars, ends_with, ends_with_exec, eq_ignore_case,
    lower_chars, lower_seq, spec_find_from, find_index, str_to_chars,
};

verus! {

/// A character an identifier may hold: ASCII letters, digits, `.`, `_`, `-`.
pub open spec fn is_identifier_char(c: char) -> bool {
    ||| 65 <= c as u32 <= 90
    ||| 97 <= c as u32 <= 122
    ||| 48 <= c as u32 <= 57
    ||| c == '.'
    ||| c == '_'
    ||| c == '-'
}

/// A valid bare identifier: non-empty, identifier characters only.
pub open spec fn spec_is_valid_identifier(s: Seq<char>) -> bool {
    s.len() > 0 && forall|i: int| 0 <= i < s.len() ==> is_identifier_char(#[trigger] s[i])
}

/// Whether the string is a valid bare identifier.
pub fn is_valid_identifier(s: &str) -> (r: bool)
    ensures
        r == spec_is_valid_identifier(s@),
{
    let v = str_to_chars(s);
    if v.len() == 0 {
        return false;
    }
    let mut i: usize = 0;
    while i < v.len()
        invariant
            i <= v.len(),
            v@ == s@,
            forall|j: int| 0 <= j < i ==> is_identifier_char(#[trigger] s@[j]),
        decreases v.len() - i,
    {
        let c = v[i];
        let u: u32 = c as u32;
        let ok = (65 <= u && u <= 90) || (97 <= u && u <= 122) || (48 <= u && u <= 57) || c == '.'
            || c == '_' || c == '-';
        if !ok {
            return false;
        }
        i = i + 1;
    }
    true
}

/// A host of the archive family: `archive.org` itself or any subdomain,
/// compared ignoring ASCII case.
pub open spec fn is_archive_host(host: Seq<char>) -> bool {
    lower_seq(host) == "archive.org"@ || ends_with(lower_seq(host), ".archive.org"@)
}

/// The scheme prefix length of the URL: 8 for `https://`, 7 for `http://`,
/// both ignoring case; minus one for anything else.
pub open spec fn spec_scheme_len(url: Seq<char>) -> int {
    if url.len() >= 8 && eq_ignore_case(url.subrange(0, 8), "https://"@) {
        8
    } else if url.len() >= 7 && eq_ignore_case(url.subrange(0, 7), "http://"@) {
        7
    } else {
        -1
    }
}

/// The first position at or after `i` holding one of `/`, `?`, `#`, or the
/// length when none does.
pub open spec fn spec_seg_end(s: Seq<char>, i: int) -> int
    recommends
        0 <= i <= s.len(),
    decreases s.len() - i,
{
    if i < 0 || i >= s.len() {
        s.len() as int
    } else if s[i] == '/' || s[i] == '?' || s[i] == '#' {
        i
    } else {
        spec_seg_end(s, i + 1)
    }
}

/// An URL of the archive family: an HTTP scheme, an archive-family host, and
/// a path.
pub open spec fn spec_is_archive_url(url: Seq<char>) -> bool {
    let sl = spec_scheme_len(url);
    if sl == -1 {
        false
    } else {
        let he = spec_seg_end(url, sl);
        &&& he < url.len()
        &&& url[he] == '/'
        &&& is_archive_host(url.subrange(sl, he))
    }
}

/// Whether the character ends an URL path segment.
fn seg_end_char(c: char) -> (r: bool)
    ensures
        r == (c == '/' || c == '?' || c == '#'),
{
    c == '/' || c == '?' || c == '#'
}

/// The first segment end at or after `i`, per `spec_seg_end`.
pub fn seg_end_exec(v: &Vec<char>, i: usize) -> (r: usize)
    requires
        i <= v.len(),
    ensures
        r as int == spec_seg_end(v@, i as int),
        i <= r <= v.len(),
        r < v.len() ==> (v@[r as int] == '/' || v@[r as int] == '?' || v@[r as int] == '#'),
{
    let mut j: usize = i;
    while j < v.len() && !seg_end_char(v[j])
        invariant
            i <= j <= v.len(),
            spec_seg_end(v@, i as int) == spec_seg_end(v@, j as int),
        decreases v.len() - j,
    {
        j = j + 1;
    }
    j
}

/// The scheme length of the URL, per `spec_scheme_len`.
fn scheme_len_exec(v: &Vec<char>) -> (r: Option<usize>)
    ensures
        match r {
            Some(n) => spec_scheme_len(v@) == n as int && n <= v.len(),
            None => spec_scheme_len(v@) == -1,
        },
{
    let https = str_to_chars("https://");
    let http = str_to_chars("http://");
    if v.len() >= 8 {
        let mut head: Vec<char> = Vec::new();
        let mut i: usize = 0;
        while i < 8
            invariant
                i <= 8,
                v.len() >= 8,
                head@ == v@.subrange(0, i as int),
            decreases 8 - i,
        {
            head.push(v[i]);
            i = i + 1;
            proof {
                assert(head@ =~= v@.subrange(0, i as int));
            }
        }
        if crate::strutil::chars_eq_ignore_case(&head, &https) {
            return Some(8);
        }
    }
    if v.len() >= 7 {
        let mut head: Vec<char> = Vec::new();
        let mut i: usize = 0;
        while i < 7
            invariant
                i <= 7,
                v.len() >= 7,
                head@ == v@.subrange(0, i as int),
            decreases 7 - i,
        {
            head.push(v[i]);
            i = i + 1;
            proof {
                assert(head@ =~= v@.subrange(0, i as int));
            }
        }
        if crate::strutil::chars_eq_ignore_case(&head, &http) {
            return Some(7);
        }
    }
    None
}

/// Whether the URL belongs to the archive family and names a path.
pub fn is_archive_url(url: &str) -> (r: bool)
    ensures
        r == spec_is_archive_url(url@),
{
    let v = str_to_chars(url);
    let sl = match scheme_len_exec(&v) {
        Some(n) => n,
        None => {
            return false;
        },
    };
    let he = seg_end_exec(&v, sl);
    if he >= v.len() {
        return false;
    }
    if v[he] != '/' {
        return false;
    }
    let mut host: Vec<char> = Vec::new();
    let mut i: usize = sl;
    while i < he
        invariant
            sl <= i <= he,
            he <= v.len(),
            host@ == v@.subrange(sl as int, i as int),
        decreases he - i,
    {
        host.push(v[i]);
        i = i + 1;
        proof {
            assert(host@ =~= v@.subrange(sl as int, i as int));
        }
    }
    let lhost = lower_chars(&host);
    let archive = str_to_chars("archive.org");
    let dot_archive = str_to_chars(".archive.org");
    chars_eq(&lhost, &archive) || ends_with_exec(&lhost, &dot_archive)
}

/// The identifier a details URL names, when the URL is an archive URL whose
/// path holds `/details/<identifier>`.
pub open spec fn spec_extract_id(url: Seq<char>) -> Option<Seq<char>> {
    let d = spec_find_from(url, "/details/"@, 0);
    if !spec_is_archive_url(url) || d == -1 {
        None
    } else {
        let b = d + 9;
        let e = spec_seg_end(url, b);
        if e > b {
            Some(url.subrange(b, e))
        } else {
            None
        }
    }
}

/// Extracts the identifier from an archive details URL.
///
/// Returns `Ok` with the identifier exactly when the URL is an archive URL
/// holding a non-empty identifier after `/details/`; everything else yields
/// an `InvalidInput` error.
pub fn extract_identifier_from_url(url: &str) -> (r: Result<String, IaGetError>)
    ensures
        match r {
            Ok(id) => spec_extract_id(url@) == Some(id@),
            Err(e) => spec_extract_id(url@) is None && e is InvalidInput,
        },
{
    let v = str_to_chars(url);
    if !is_archive_url(url) {
        return Err(IaGetError::InvalidInput(String::from_str("not an archive URL")));
    }
    let needle = str_to_chars("/details/");
    proof {
        reveal_strlit("/details/");
        assert(needle@.len() == 9);
    }
    let d = match find_index(&v, &needle) {
        Some(d) => d,
        None => {
            return Err(IaGetError::InvalidInput(String::from_str("no item in URL")));
        },
    };
    proof {
        lemma_find_from_in_range(v@, needle@, 0);
    }
    let b = d + 9;
    let e = seg_end_exec(&v, b);
    if e <= b {
        return Err(IaGetError::InvalidInput(String::from_str("empty identifier")));
    }
    let mut id: Vec<char> = Vec::new();
    let mut i: usize = b;
    while i < e
        invariant
            b <= i <= e,
            e <= v.len(),
            id@ == v@.subrange(b as int, i as int),
        decreases e - i,
    {
        id.push(v[i]);
        i = i + 1;
        proof {
            assert(id@ =~= v@.subrange(b as int, i as int));
        }
    }
    Ok(chars_to_string(&id))
}

/// A found needle lies within the haystack.
pub proof fn lemma_find_from_in_range(hay: Seq<char>, needle: Seq<char>, i: int)
    requires
        0 <= i,
        spec_find_from(hay, needle, i) != -1,
    ensures
        i <= spec_find_from(hay, needle, i),
        spec_find_from(hay, needle, i) + needle.len() <= hay.len(),
    decreases hay.len() + 1 - i,
{
    if i + needle.len() <= hay.len() && !crate::strutil::matches_at(hay, needle, i) {
        lemma_find_from_in_range(hay, needle, i + 1);
    }
}

/// The first `/` at or after `i`, or the length when none follows.
pub open spec fn spec_slash_end(s: Seq<char>, i: int) -> int
    recommends
        0 <= i <= s.len(),
    decreases s.len() - i,
{
    if i < 0 || i >= s.len() {
        s.len() as int
    } else if s[i] == '/' {
        i
    } else {
        spec_slash_end(s, i + 1)
    }
}

/// The first `/` at or after `i`, per `spec_slash_end`.
pub fn slash_end_exec(v: &Vec<char>, i: usize) -> (r: usize)
    requires
        i <= v.len(),
    ensures
        r as int == spec_slash_end(v@, i as int),
        i <= r <= v.len(),
{
    let mut j: usize = i;
    while j < v.len() && v[j] != '/'
        invariant
            i <= j <= v.len(),
            spec_slash_end(v@, i as int) == spec_slash_end(v@, j as int),
        decreases v.len() - j,
    {
        j = j + 1;
    }
    j
}

/// Validates an input: an archive URL passes unchanged; a bare identifier
/// becomes its details URL; everything else is rejected.
pub fn validate_and_process_url(url: &str) -> (r: Result<String, IaGetError>)
    ensures
        match r {
            Ok(s) => (spec_is_archive_url(url@) && s@ == url@) || (!spec_is_archive_url(url@)
                && spec_is_valid_identifier(url@) && s@ == "https://archive.org/details/"@
                + url@),
            Err(e) => !spec_is_archive_url(url@) && !spec_is_valid_identifier(url@)
                && e is InvalidInput,
        },
{
    if is_archive_url(url) {
        return Ok(String::from_str(url));
    }
    if is_valid_identifier(url) {
        let prefix = str_to_chars("https://archive.org/details/");
        let idc = str_to_chars(url);
        let w = concat_chars(&prefix, &idc);
        return Ok(chars_to_string(&w));
    }
    Err(IaGetError::InvalidInput(String::from_str("not an archive URL or identifier")))
}

/// The metadata endpoint for an identifier.
pub fn construct_metadata_url(identifier: &str) -> (r: String)
    ensures
        r@ == "https://archive.org/metadata/"@ + identifier@,
{
    let prefix = str_to_chars("https://archive.org/metadata/");
    let idc = str_to_chars(identifier);
    let w = concat_chars(&prefix, &idc);
    chars_to_string(&w)
}

/// The download endpoint for an identifier.
pub fn construct_download_url(identifier: &str) -> (r: String)
    ensures
        r@ == "https://archive.org/download/"@ + identifier@,
{
    let prefix = str_to_chars("https://archive.org/download/");
    let idc = str_to_chars(identifier);
    let w = concat_chars(&prefix, &idc);
    chars_to_string(&w)
}

} // verus!
