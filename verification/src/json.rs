//! A verified JSON writer for download plans.
//!
//! Serialising a plan is a pure function of the plan's contents: the writer
//! is specified character by character, so two runs over equal plans yield
//! byte-identical documents.

use vstd::prelude::*;
use crate::engine::DownloadPlan;
use crate::metadata_storage::{opt_str_view, ArchiveFile};
use crate::strutil::{chars_to_string, dec_digits, push_dec, str_to_chars};

verus! {

/// A hexadecimal digit character, lower case.
pub open spec fn hex_digit(d: nat) -> char
    recommends
        d < 16,
{
    if d < 10 {
        ((d + 48) as u8) as char
    } else {
        ((d + 87) as u8) as char
    }
}

/// The JSON escape of one character: quotes and backslashes are escaped,
/// control characters become `\u00..`, everything else stands as itself.
pub open spec fn escape_char(c: char) -> Seq<char> {
    if c == '"' {
        seq!['\\', '"']
    } else if c == '\\' {
        seq!['\\', '\\']
    } else if c == '\n' {
        seq!['\\', 'n']
    } else if c == '\r' {
        seq!['\\', 'r']
    } else if c == '\t' {
        seq!['\\', 't']
    } else if (c as u32) < 32 {
        seq!['\\', 'u', '0', '0', hex_digit((c as u32 / 16) as nat), hex_digit(
            (c as u32 % 16) as nat,
        )]
    } else {
        seq![c]
    }
}

/// The JSON escape of a character sequence.
pub open spec fn escape_seq(s: Seq<char>) -> Seq<char>
    decreases s.len(),
{
    if s.len() == 0 {
        Seq::empty()
    } else {
        escape_seq(s.drop_last()) + escape_char(s.last())
    }
}

/// A JSON string: the escaped characters between quotes.
pub open spec fn json_string(s: Seq<char>) -> Seq<char> {
    seq!['"'] + escape_seq(s) + seq!['"']
}

/// A JSON string or `null`.
pub open spec fn json_opt_string(s: Option<Seq<char>>) -> Seq<char> {
    match s {
        Some(x) => json_string(x),
        None => "null"@,
    }
}

/// A JSON number or `null`.
pub open spec fn json_opt_u64(n: Option<u64>) -> Seq<char> {
    match n {
        Some(x) => dec_digits(x as nat),
        None => "null"@,
    }
}

/// A JSON boolean.
pub open spec fn json_bool(b: bool) -> Seq<char> {
    if b {
        "true"@
    } else {
        "false"@
    }
}

/// The first half of a file record's JSON object: name through md5.
pub open spec fn json_of_file_head(f: ArchiveFile) -> Seq<char> {
    "{\"name\":"@ + json_string(f.name@) + ",\"source\":"@ + json_string(f.source@)
        + ",\"format\":"@ + json_opt_string(opt_str_view(f.format)) + ",\"mtime\":"@
        + json_opt_u64(f.mtime) + ",\"size\":"@ + json_opt_u64(f.size) + ",\"md5\":"@
        + json_opt_string(opt_str_view(f.md5))
}

/// The second half of a file record's JSON object: crc32 through rotation.
pub open spec fn json_of_file_tail(f: ArchiveFile) -> Seq<char> {
    ",\"crc32\":"@ + json_opt_string(opt_str_view(f.crc32)) + ",\"sha1\":"@
        + json_opt_string(opt_str_view(f.sha1)) + ",\"btih\":"@ + json_opt_string(
        opt_str_view(f.btih),
    ) + ",\"summation\":"@ + json_opt_string(opt_str_view(f.summation)) + ",\"original\":"@
        + json_opt_string(opt_str_view(f.original)) + ",\"rotation\":"@ + (match f.rotation {
        Some(x) => dec_digits(x as nat),
        None => "null"@,
    }) + "}"@
}

/// The JSON object of one file record, every field present, absent values
/// as `null`.
pub open spec fn json_of_file(f: ArchiveFile) -> Seq<char> {
    json_of_file_head(f) + json_of_file_tail(f)
}

/// The JSON array of the file records, in order.
pub open spec fn json_of_files(files: Seq<ArchiveFile>) -> Seq<char>
    decreases files.len(),
{
    if files.len() == 0 {
        Seq::empty()
    } else if files.len() == 1 {
        json_of_file(files.last())
    } else {
        json_of_files(files.drop_last()) + ","@ + json_of_file(files.last())
    }
}

/// The JSON array of a string list, in order.
pub open spec fn json_of_strings(items: Seq<Seq<char>>) -> Seq<char>
    decreases items.len(),
{
    if items.len() == 0 {
        Seq::empty()
    } else if items.len() == 1 {
        json_string(items.last())
    } else {
        json_of_strings(items.drop_last()) + ","@ + json_string(items.last())
    }
}

/// The JSON document of a plan: the options, then the files, in plan order.
pub open spec fn spec_plan_json(
    files: Seq<ArchiveFile>,
    output_root: Seq<char>,
    concurrency_limit: usize,
    verify_md5: bool,
    preserve_mtime: bool,
    enable_decompression: bool,
    decompress_formats: Seq<Seq<char>>,
) -> Seq<char> {
    "{\"output_root\":"@ + json_string(output_root) + ",\"concurrency_limit\":"@ + dec_digits(
        concurrency_limit as nat,
    ) + ",\"verify_md5\":"@ + json_bool(verify_md5) + ",\"preserve_mtime\":"@ + json_bool(
        preserve_mtime,
    ) + ",\"enable_decompression\":"@ + json_bool(enable_decompression)
        + ",\"decompress_formats\":["@ + json_of_strings(decompress_formats) + "],\"files\":["@
        + json_of_files(files) + "]}"@
}

/// Appends the characters of a literal.
fn push_lit(v: &mut Vec<char>, lit: &str)
    ensures
        final(v)@ == old(v)@ + lit@,
{
    let l = str_to_chars(lit);
    let mut i: usize = 0;
    while i < l.len()
        invariant
            i <= l.len(),
            l@ == lit@,
            v@ == old(v)@ + lit@.subrange(0, i as int),
        decreases l.len() - i,
    {
        v.push(l[i]);
        i = i + 1;
        proof {
            assert(v@ =~= old(v)@ + lit@.subrange(0, i as int));
        }
    }
    proof {
        assert(v@ =~= old(v)@ + lit@);
    }
}

/// Appends the JSON escape of one character.
fn push_escaped_char(v: &mut Vec<char>, c: char)
    ensures
        final(v)@ == old(v)@ + escape_char(c),
{
    if c == '"' {
        v.push('\\');
        v.push('"');
    } else if c == '\\' {
        v.push('\\');
        v.push('\\');
    } else if c == '\n' {
        v.push('\\');
        v.push('n');
    } else if c == '\r' {
        v.push('\\');
        v.push('r');
    } else if c == '\t' {
        v.push('\\');
        v.push('t');
    } else {
        let u: u32 = c as u32;
        if u < 32 {
            v.push('\\');
            v.push('u');
            v.push('0');
            v.push('0');
            let hi: u32 = u / 16;
            let lo: u32 = u % 16;
            let hc: char = if hi < 10 {
                ((hi + 48) as u8) as char
            } else {
                ((hi + 87) as u8) as char
            };
            let lc: char = if lo < 10 {
                ((lo + 48) as u8) as char
            } else {
                ((lo + 87) as u8) as char
            };
            v.push(hc);
            v.push(lc);
        } else {
            v.push(c);
        }
    }
    proof {
        assert(final(v)@ =~= old(v)@ + escape_char(c));
    }
}

/// Appends a JSON string.
fn push_json_string(v: &mut Vec<char>, s: &str)
    ensures
        final(v)@ == old(v)@ + json_string(s@),
{
    let chars = str_to_chars(s);
    v.push('"');
    let mut i: usize = 0;
    while i < chars.len()
        invariant
            i <= chars.len(),
            chars@ == s@,
            v@ == old(v)@ + seq!['"'] + escape_seq(s@.subrange(0, i as int)),
        decreases chars.len() - i,
    {
        push_escaped_char(v, chars[i]);
        i = i + 1;
        proof {
            assert(s@.subrange(0, i as int).drop_last() =~= s@.subrange(0, i - 1));
            assert(s@.subrange(0, i as int).last() == s@[i - 1]);
            assert(v@ =~= old(v)@ + seq!['"'] + escape_seq(s@.subrange(0, i as int)));
        }
    }
    v.push('"');
    proof {
        assert(s@.subrange(0, s@.len() as int) =~= s@);
        assert(v@ =~= old(v)@ + json_string(s@));
    }
}

/// Appends a JSON string or `null`.
fn push_opt_string(v: &mut Vec<char>, s: &Option<String>)
    ensures
        final(v)@ == old(v)@ + json_opt_string(opt_str_view(*s)),
{
    match s {
        Some(x) => push_json_string(v, x.as_str()),
        None => push_lit(v, "null"),
    }
}

/// Appends a JSON number or `null`.
fn push_opt_u64(v: &mut Vec<char>, n: &Option<u64>)
    ensures
        final(v)@ == old(v)@ + json_opt_u64(*n),
{
    match n {
        Some(x) => push_dec(v, *x),
        None => push_lit(v, "null"),
    }
}

/// Appends a JSON boolean.
fn push_bool(v: &mut Vec<char>, b: bool)
    ensures
        final(v)@ == old(v)@ + json_bool(b),
{
    if b {
        push_lit(v, "true");
    } else {
        push_lit(v, "false");
    }
}

/// Appends the JSON object of one file record.
#[verifier::rlimit(100)]
#[verifier::spinoff_prover]
fn push_file(v: &mut Vec<char>, f: &ArchiveFile)
    ensures
        final(v)@ == old(v)@ + json_of_file(*f),
{
    push_lit(v, "{\"name\":");
    push_json_string(v, f.name.as_str());
    push_lit(v, ",\"source\":");
    push_json_string(v, f.source.as_str());
    push_lit(v, ",\"format\":");
    push_opt_string(v, &f.format);
    push_lit(v, ",\"mtime\":");
    push_opt_u64(v, &f.mtime);
    push_lit(v, ",\"size\":");
    push_opt_u64(v, &f.size);
    push_lit(v, ",\"md5\":");
    push_opt_string(v, &f.md5);
    proof {
        assert(v@ =~= old(v)@ + json_of_file_head(*f));
    }
    let ghost half = v@;
    push_lit(v, ",\"crc32\":");
    push_opt_string(v, &f.crc32);
    push_lit(v, ",\"sha1\":");
    push_opt_string(v, &f.sha1);
    push_lit(v, ",\"btih\":");
    push_opt_string(v, &f.btih);
    push_lit(v, ",\"summation\":");
    push_opt_string(v, &f.summation);
    push_lit(v, ",\"original\":");
    push_opt_string(v, &f.original);
    push_lit(v, ",\"rotation\":");
    match f.rotation {
        Some(x) => {
            let wide: u64 = x as u64;
            push_dec(v, wide);
        },
        None => push_lit(v, "null"),
    }
    push_lit(v, "}");
    proof {
        assert(v@ =~= half + json_of_file_tail(*f));
        assert(v@ =~= old(v)@ + json_of_file(*f));
    }
}

/// Serialises a plan to its JSON document, per `spec_plan_json`. Two calls
/// over plans with equal contents yield byte-identical documents.
pub fn serialize_plan(plan: &DownloadPlan) -> (r: String)
    ensures
        r@ == spec_plan_json(
            plan.files@,
            plan.output_root@,
            plan.concurrency_limit,
            plan.verify_md5,
            plan.preserve_mtime,
            plan.enable_decompression,
            plan.decompress_formats.deep_view(),
        ),
{
    let mut v: Vec<char> = Vec::new();
    push_lit(&mut v, "{\"output_root\":");
    push_json_string(&mut v, plan.output_root.as_str());
    push_lit(&mut v, ",\"concurrency_limit\":");
    let limit: u64 = plan.concurrency_limit as u64;
    push_dec(&mut v, limit);
    push_lit(&mut v, ",\"verify_md5\":");
    push_bool(&mut v, plan.verify_md5);
    push_lit(&mut v, ",\"preserve_mtime\":");
    push_bool(&mut v, plan.preserve_mtime);
    push_lit(&mut v, ",\"enable_decompression\":");
    push_bool(&mut v, plan.enable_decompression);
    push_lit(&mut v, ",\"decompress_formats\":[");
    let mut i: usize = 0;
    let ghost mid = v@;
    while i < plan.decompress_formats.len()
        invariant
            i <= plan.decompress_formats@.len(),
            v@ == mid + json_of_strings(plan.decompress_formats.deep_view().subrange(
                0,
                i as int,
            )),
        decreases plan.decompress_formats@.len() - i,
    {
        if i > 0 {
            push_lit(&mut v, ",");
        }
        push_json_string(&mut v, plan.decompress_formats[i].as_str());
        i = i + 1;
        proof {
            let items = plan.decompress_formats.deep_view();
            assert(items.subrange(0, i as int).drop_last() =~= items.subrange(0, i - 1));
            assert(items.subrange(0, i as int).last() == items[i - 1]);
            assert(items[i - 1] == plan.decompress_formats@[i - 1]@);
            assert(v@ =~= mid + json_of_strings(items.subrange(0, i as int)));
        }
    }
    proof {
        let items = plan.decompress_formats.deep_view();
        assert(items.subrange(0, items.len() as int) =~= items);
    }
    push_lit(&mut v, "],\"files\":[");
    let mut j: usize = 0;
    let ghost mid2 = v@;
    while j < plan.files.len()
        invariant
            j <= plan.files@.len(),
            v@ == mid2 + json_of_files(plan.files@.subrange(0, j as int)),
        decreases plan.files@.len() - j,
    {
        if j > 0 {
            push_lit(&mut v, ",");
        }
        push_file(&mut v, &plan.files[j]);
        j = j + 1;
        proof {
            let fs = plan.files@;
            assert(fs.subrange(0, j as int).drop_last() =~= fs.subrange(0, j - 1));
            assert(fs.subrange(0, j as int).last() == fs[j - 1]);
            assert(v@ =~= mid2 + json_of_files(fs.subrange(0, j as int)));
        }
    }
    proof {
        assert(plan.files@.subrange(0, plan.files@.len() as int) =~= plan.files@);
    }
    push_lit(&mut v, "]}");
    proof {
        assert(v@ =~= spec_plan_json(
            plan.files@,
            plan.output_root@,
            plan.concurrency_limit,
            plan.verify_md5,
            plan.preserve_mtime,
            plan.enable_decompression,
            plan.decompress_formats.deep_view(),
        ));
    }
    chars_to_string(&v)
}

/// Serialising is deterministic: equal descriptors run through the same
/// filters yield byte-identical plan documents, however often the pipeline
/// runs.
pub proof fn law_plan_serialisation_deterministic(
    d1: Seq<ArchiveFile>,
    d2: Seq<ArchiveFile>,
    incl: Seq<Seq<char>>,
    excl: Seq<Seq<char>>,
    min_size: Option<u64>,
    max_size: Option<u64>,
    output_root: Seq<char>,
    concurrency_limit: usize,
    verify_md5: bool,
    preserve_mtime: bool,
    enable_decompression: bool,
    decompress_formats: Seq<Seq<char>>,
)
    requires
        d1 == d2,
    ensures
        spec_plan_json(
            crate::metadata_storage::spec_filter_files(d1, incl, excl, min_size, max_size),
            output_root,
            concurrency_limit,
            verify_md5,
            preserve_mtime,
            enable_decompression,
            decompress_formats,
        ) == spec_plan_json(
            crate::metadata_storage::spec_filter_files(d2, incl, excl, min_size, max_size),
            output_root,
            concurrency_limit,
            verify_md5,
            preserve_mtime,
            enable_decompression,
            decompress_formats,
        ),
{
}

} // verus!
