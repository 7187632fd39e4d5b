//! Reading the archive's wire format.
//!
//! serde_json parses the metadata document; the verified code here
//! normalises what comes out into the library's descriptor. The parsed
//! document is modelled as `JsonDoc`, a tree of plain values: the parse
//! itself and the content of a `serde_json::Value` carry names that the
//! trusted accessors speak of, so the normaliser's contract states the whole
//! mapping from document to descriptor.

use vstd::prelude::*;
use crate::error::IaGetError;
use crate::metadata_storage::{opt_str_view, ArchiveFile, ArchiveMetadata};
use crate::strutil::{all_digits, dec_value, parse_u64_chars, str_to_chars};

verus! {

/// The abstract value of a JSON document: a tree of plain values. Numbers
/// appear as the integers the accessors reveal; a number that is neither a
/// non-negative integer fitting 64 bits nor a negative integer fitting 64
/// bits (a fraction, or one out of range) is `NonIntegral` and carries the
/// decimal text the serialiser writes for it, so that distinct numbers have
/// distinct documents and serialisation is a function of the document.
pub ghost enum JsonDoc {
    /// JSON null.
    Null,
    /// A boolean.
    Bool(bool),
    /// A non-negative integer fitting 64 bits.
    UInt(u64),
    /// A negative integer fitting 64 bits.
    NegInt(i64),
    /// Any other number, as the decimal text it serialises to. The integer
    /// accessors reveal nothing of it.
    NonIntegral(Seq<char>),
    /// A string.
    Text(Seq<char>),
    /// An array, in order.
    Array(Seq<JsonDoc>),
    /// An object: one value per key.
    Object(Map<Seq<char>, JsonDoc>),
}

/// The document a text parses to, or nothing when the parser rejects the
/// text. This names what `serde_json::from_str` returns, including the
/// parser's nesting limit: the result depends on the text alone.
pub uninterp spec fn json_of(s: Seq<char>) -> Option<JsonDoc>;

/// The abstract content of a parsed `serde_json::Value`.
pub uninterp spec fn value_model(v: serde_json::Value) -> JsonDoc;

/// The JSON text a document serialises to. This names what
/// `serde_json::to_string` returns on a value tree: two values with equal
/// documents serialise to equal texts, since the document determines every
/// string and integer, carries the rendered text of every other number, and
/// fixes the objects' key order (the backing map keeps keys sorted).
pub uninterp spec fn text_of(d: JsonDoc) -> Seq<char>;

/// `serde_json::Value`, declared so parsed documents can flow through the
/// library.
#[verifier::external_type_specification]
#[verifier::external_body]
pub struct ExJsonValue(serde_json::Value);

/// Relies on `serde_json::from_str`: parses a JSON document into a value
/// tree, or reports the parser's message. The parse is a function of the
/// text, named `json_of`.
#[verifier::external_body]
fn parse_json(text: &str) -> (r: Result<serde_json::Value, String>)
    ensures
        match r {
            Ok(v) => json_of(text@) == Some(value_model(v)),
            Err(_) => json_of(text@) is None,
        },
{
    serde_json::from_str::<serde_json::Value>(text).map_err(|e| format!("{}", e))
}

/// Relies on `serde_json::Value::get`: on an object, the member under the
/// key; on anything else, nothing.
#[verifier::external_body]
fn json_get<'a>(v: &'a serde_json::Value, key: &str) -> (r: Option<&'a serde_json::Value>)
    ensures
        match value_model(*v) {
            JsonDoc::Object(m) => match r {
                Some(f) => m.contains_key(key@) && value_model(*f) == m[key@],
                None => !m.contains_key(key@),
            },
            _ => r is None,
        },
{
    v.get(key)
}

/// Relies on `serde_json::Value::as_str`: the string a value holds, when it
/// is a string.
#[verifier::external_body]
fn json_as_str<'a>(v: &'a serde_json::Value) -> (r: Option<&'a str>)
    ensures
        match value_model(*v) {
            JsonDoc::Text(t) => r matches Some(s) && s@ == t,
            _ => r is None,
        },
{
    v.as_str()
}

/// Relies on `serde_json::Value::as_u64`: the value as an unsigned integer,
/// exactly when it is a non-negative integer fitting 64 bits.
#[verifier::external_body]
fn json_as_u64(v: &serde_json::Value) -> (r: Option<u64>)
    ensures
        r == (match value_model(*v) {
            JsonDoc::UInt(n) => Some(n),
            _ => None::<u64>,
        }),
{
    v.as_u64()
}

/// Relies on `serde_json::Value::as_i64`: the value as a signed integer,
/// exactly when it is an integer fitting 64 signed bits.
#[verifier::external_body]
fn json_as_i64(v: &serde_json::Value) -> (r: Option<i64>)
    ensures
        r == (match value_model(*v) {
            JsonDoc::UInt(n) => if n <= i64::MAX as u64 {
                Some(n as i64)
            } else {
                None::<i64>
            },
            JsonDoc::NegInt(n) => Some(n),
            _ => None::<i64>,
        }),
{
    v.as_i64()
}

/// Relies on `serde_json::Value::as_array`: the elements, when the value is
/// an array, each carrying its part of the model.
#[verifier::external_body]
fn json_as_array<'a>(v: &'a serde_json::Value) -> (r: Option<&'a Vec<serde_json::Value>>)
    ensures
        match value_model(*v) {
            JsonDoc::Array(a) => r matches Some(items) && items@.len() == a.len() && (forall|
                i: int,
            | 0 <= i < a.len() ==> value_model(#[trigger] items@[i]) == a[i]),
            _ => r is None,
        },
{
    v.as_array()
}

/// Relies on `serde_json::Value::is_null`: whether the value is JSON null.
#[verifier::external_body]
fn json_is_null(v: &serde_json::Value) -> (r: bool)
    ensures
        r == (value_model(*v) is Null),
{
    v.is_null()
}

/// Relies on `serde_json::to_string`: the JSON text of a value tree, named
/// `text_of`. Serialising a value tree cannot fail — its map keys are
/// strings and the writer is a byte vector — so the error arm below is
/// unreachable.
#[verifier::external_body]
fn json_to_string(v: &serde_json::Value) -> (r: String)
    ensures
        r@ == text_of(value_model(*v)),
{
    match serde_json::to_string(v) {
        Ok(s) => s,
        Err(_) => String::new(),
    }
}

/// The member of an object under a key; nothing on any other document.
pub open spec fn spec_lookup(d: JsonDoc, key: Seq<char>) -> Option<JsonDoc> {
    match d {
        JsonDoc::Object(m) => if m.contains_key(key) {
            Some(m[key])
        } else {
            None
        },
        _ => None,
    }
}

/// What a numeric text field normalises to: an empty string is an absent
/// value, a run of digits that fits is the number, anything else is a
/// rejected field.
pub open spec fn spec_numeric_text(s: Seq<char>) -> Option<Option<u64>> {
    if s.len() == 0 {
        Some(None)
    } else if all_digits(s) && dec_value(s) <= u64::MAX {
        Some(Some(dec_value(s) as u64))
    } else {
        None
    }
}

/// Normalises a numeric text field, per `spec_numeric_text`: `Ok(None)` for
/// the empty string, the parsed number for digits, an error otherwise.
pub fn parse_numeric_text(s: &str) -> (r: Result<Option<u64>, IaGetError>)
    ensures
        match r {
            Ok(v) => spec_numeric_text(s@) == Some(v),
            Err(e) => spec_numeric_text(s@) is None && e is Parse,
        },
{
    let v = str_to_chars(s);
    if v.len() == 0 {
        return Ok(None);
    }
    match parse_u64_chars(&v) {
        Some(n) => Ok(Some(n)),
        None => Err(IaGetError::Parse(String::from_str("not a non-negative number"))),
    }
}

/// What a size-like field normalises to: an absent or null field is an
/// absent value; a non-negative integer is itself; a numeric string follows
/// `spec_numeric_text`; a negative number or anything else is rejected.
pub open spec fn spec_numeric_field(d: JsonDoc, key: Seq<char>) -> Option<Option<u64>> {
    match spec_lookup(d, key) {
        None => Some(None),
        Some(f) => match f {
            JsonDoc::Null => Some(None),
            JsonDoc::UInt(n) => Some(Some(n)),
            JsonDoc::Text(s) => spec_numeric_text(s),
            _ => None,
        },
    }
}

/// Reads a size-like field, per `spec_numeric_field`.
fn read_numeric_field(v: &serde_json::Value, key: &str) -> (r: Result<Option<u64>, IaGetError>)
    ensures
        match spec_numeric_field(value_model(*v), key@) {
            Some(val) => r matches Ok(o) && o == val,
            None => r matches Err(e) && e is Parse,
        },
{
    match json_get(v, key) {
        Some(field) => {
            if json_is_null(field) {
                return Ok(None);
            }
            match json_as_u64(field) {
                Some(n) => Ok(Some(n)),
                None => {
                    match json_as_i64(field) {
                        Some(_) => Err(
                            IaGetError::Parse(String::from_str("negative numeric field")),
                        ),
                        None => {
                            match json_as_str(field) {
                                Some(s) => parse_numeric_text(s),
                                None => Err(
                                    IaGetError::Parse(
                                        String::from_str("numeric field of a wrong type"),
                                    ),
                                ),
                            }
                        },
                    }
                },
            }
        },
        None => Ok(None),
    }
}

/// The string a field holds, when the field exists and is a string.
pub open spec fn spec_string_field(d: JsonDoc, key: Seq<char>) -> Option<Seq<char>> {
    match spec_lookup(d, key) {
        Some(JsonDoc::Text(t)) => Some(t),
        _ => None,
    }
}

/// Reads an optional string field, per `spec_string_field`: a missing field
/// or one of another type is an absent value.
fn read_string_field(v: &serde_json::Value, key: &str) -> (r: Option<String>)
    ensures
        opt_str_view(r) == spec_string_field(value_model(*v), key@),
{
    match json_get(v, key) {
        Some(field) => {
            match json_as_str(field) {
                Some(s) => Some(String::from_str(s)),
                None => None,
            }
        },
        None => None,
    }
}

/// Reads a required string field: missing or of another type is a schema
/// error.
fn read_required_string(v: &serde_json::Value, key: &str) -> (r: Result<String, IaGetError>)
    ensures
        match spec_string_field(value_model(*v), key@) {
            Some(t) => r matches Ok(s) && s@ == t,
            None => r matches Err(e) && e is JsonParsing,
        },
{
    match json_get(v, key) {
        Some(field) => {
            match json_as_str(field) {
                Some(s) => Ok(String::from_str(s)),
                None => Err(IaGetError::JsonParsing(String::from_str("field is not a string"))),
            }
        },
        None => Err(IaGetError::JsonParsing(String::from_str("missing required field"))),
    }
}

/// The unsigned value of a field, zero when absent or of another shape.
pub open spec fn spec_u64_or_zero(d: JsonDoc, key: Seq<char>) -> u64 {
    match spec_lookup(d, key) {
        Some(JsonDoc::UInt(n)) => n,
        _ => 0,
    }
}

/// Reads an unsigned field, per `spec_u64_or_zero`.
fn read_u64_or_zero(v: &serde_json::Value, key: &str) -> (r: u64)
    ensures
        r == spec_u64_or_zero(value_model(*v), key@),
{
    match json_get(v, key) {
        Some(field) => {
            match json_as_u64(field) {
                Some(n) => n,
                None => 0,
            }
        },
        None => 0,
    }
}

/// The rotation of a file entry: a non-negative integer fitting 32 bits, or
/// nothing.
pub open spec fn spec_rotation(d: JsonDoc) -> Option<u32> {
    match spec_lookup(d, "rotation"@) {
        Some(JsonDoc::UInt(n)) => if n <= u32::MAX {
            Some(n as u32)
        } else {
            None
        },
        _ => None,
    }
}

/// The abstract value of a file record.
pub ghost struct FileView {
    /// File name.
    pub name: Seq<char>,
    /// Source type.
    pub source: Seq<char>,
    /// Format tag.
    pub format: Option<Seq<char>>,
    /// Modification time.
    pub mtime: Option<u64>,
    /// Size in bytes.
    pub size: Option<u64>,
    /// MD5 digest.
    pub md5: Option<Seq<char>>,
    /// CRC32 checksum.
    pub crc32: Option<Seq<char>>,
    /// SHA1 digest.
    pub sha1: Option<Seq<char>>,
    /// BitTorrent info hash.
    pub btih: Option<Seq<char>>,
    /// Summation type.
    pub summation: Option<Seq<char>>,
    /// Original this file derives from.
    pub original: Option<Seq<char>>,
    /// Rotation angle.
    pub rotation: Option<u32>,
}

/// The abstract value of a file record.
pub open spec fn file_view(f: ArchiveFile) -> FileView {
    FileView {
        name: f.name@,
        source: f.source@,
        format: opt_str_view(f.format),
        mtime: f.mtime,
        size: f.size,
        md5: opt_str_view(f.md5),
        crc32: opt_str_view(f.crc32),
        sha1: opt_str_view(f.sha1),
        btih: opt_str_view(f.btih),
        summation: opt_str_view(f.summation),
        original: opt_str_view(f.original),
        rotation: f.rotation,
    }
}

/// What one file entry normalises to: `name` and `source` are required
/// strings; `mtime` and `size` follow `spec_numeric_field`; the digest
/// fields are optional strings; anything else rejects the entry.
pub open spec fn spec_file_entry(d: JsonDoc) -> Option<FileView> {
    match (spec_string_field(d, "name"@), spec_string_field(d, "source"@)) {
        (Some(name), Some(source)) => match (
            spec_numeric_field(d, "mtime"@),
            spec_numeric_field(d, "size"@),
        ) {
            (Some(mtime), Some(size)) => Some(
                FileView {
                    name,
                    source,
                    format: spec_string_field(d, "format"@),
                    mtime,
                    size,
                    md5: spec_string_field(d, "md5"@),
                    crc32: spec_string_field(d, "crc32"@),
                    sha1: spec_string_field(d, "sha1"@),
                    btih: spec_string_field(d, "btih"@),
                    summation: spec_string_field(d, "summation"@),
                    original: spec_string_field(d, "original"@),
                    rotation: spec_rotation(d),
                },
            ),
            _ => None,
        },
        _ => None,
    }
}

/// Normalises one file entry, per `spec_file_entry`.
fn parse_file_entry(v: &serde_json::Value) -> (r: Result<ArchiveFile, IaGetError>)
    ensures
        match spec_file_entry(value_model(*v)) {
            Some(fv) => r matches Ok(f) && file_view(f) == fv,
            None => r matches Err(e) && (e is JsonParsing || e is Parse),
        },
{
    let name = match read_required_string(v, "name") {
        Ok(s) => s,
        Err(e) => {
            return Err(e);
        },
    };
    let source = match read_required_string(v, "source") {
        Ok(s) => s,
        Err(e) => {
            return Err(e);
        },
    };
    let mtime = match read_numeric_field(v, "mtime") {
        Ok(m) => m,
        Err(e) => {
            return Err(e);
        },
    };
    let size = match read_numeric_field(v, "size") {
        Ok(m) => m,
        Err(e) => {
            return Err(e);
        },
    };
    let rotation: Option<u32> = match json_get(v, "rotation") {
        Some(field) => {
            match json_as_u64(field) {
                Some(n) => {
                    if n <= u32::MAX as u64 {
                        Some(n as u32)
                    } else {
                        None
                    }
                },
                None => None,
            }
        },
        None => None,
    };
    Ok(
        ArchiveFile {
            name,
            source,
            format: read_string_field(v, "format"),
            mtime,
            size,
            md5: read_string_field(v, "md5"),
            crc32: read_string_field(v, "crc32"),
            sha1: read_string_field(v, "sha1"),
            btih: read_string_field(v, "btih"),
            summation: read_string_field(v, "summation"),
            original: read_string_field(v, "original"),
            rotation,
        },
    )
}

/// What a list of file entries normalises to: every entry must normalise.
pub open spec fn spec_file_list(a: Seq<JsonDoc>) -> Option<Seq<FileView>>
    decreases a.len(),
{
    if a.len() == 0 {
        Some(Seq::empty())
    } else {
        match (spec_file_list(a.drop_last()), spec_file_entry(a.last())) {
            (Some(rest), Some(f)) => Some(rest.push(f)),
            _ => None,
        }
    }
}

/// One rejected entry rejects the whole list.
proof fn lemma_file_list_fails(a: Seq<JsonDoc>, i: int)
    requires
        0 <= i < a.len(),
        spec_file_entry(a[i]) is None,
    ensures
        spec_file_list(a) is None,
    decreases a.len(),
{
    if i == a.len() - 1 {
    } else {
        lemma_file_list_fails(a.drop_last(), i);
    }
}

/// The strings of an array, in order; elements of another shape are skipped.
pub open spec fn spec_server_names(a: Seq<JsonDoc>) -> Seq<Seq<char>>
    decreases a.len(),
{
    if a.len() == 0 {
        Seq::empty()
    } else {
        let rest = spec_server_names(a.drop_last());
        match a.last() {
            JsonDoc::Text(t) => rest.push(t),
            _ => rest,
        }
    }
}

/// The serialised texts of an array's elements, in order.
pub open spec fn spec_texts(a: Seq<JsonDoc>) -> Seq<Seq<char>>
    decreases a.len(),
{
    if a.len() == 0 {
        Seq::empty()
    } else {
        spec_texts(a.drop_last()).push(text_of(a.last()))
    }
}

/// The abstract value of a normalised descriptor.
pub ghost struct MetadataView {
    /// Creation time.
    pub created: u64,
    /// Primary datanode.
    pub d1: Seq<char>,
    /// Secondary datanode.
    pub d2: Seq<char>,
    /// Directory path.
    pub dir: Seq<char>,
    /// File records.
    pub files: Seq<FileView>,
    /// Number of files.
    pub files_count: u32,
    /// Last update time.
    pub item_last_updated: u64,
    /// Total size.
    pub item_size: u64,
    /// The item's metadata block as JSON text.
    pub metadata: Seq<char>,
    /// Primary server.
    pub server: Seq<char>,
    /// Unique identifier.
    pub uniq: u64,
    /// Servers able to serve the item.
    pub workable_servers: Seq<Seq<char>>,
    /// Reviews as JSON texts.
    pub reviews: Seq<Seq<char>>,
}

/// The abstract value of a descriptor.
pub open spec fn metadata_view(m: ArchiveMetadata) -> MetadataView {
    MetadataView {
        created: m.created,
        d1: m.d1@,
        d2: m.d2@,
        dir: m.dir@,
        files: m.files@.map_values(|f: ArchiveFile| file_view(f)),
        files_count: m.files_count,
        item_last_updated: m.item_last_updated,
        item_size: m.item_size,
        metadata: m.metadata@,
        server: m.server@,
        uniq: m.uniq,
        workable_servers: m.workable_servers.deep_view(),
        reviews: m.reviews.deep_view(),
    }
}

/// What a metadata document normalises to, per §3's rules: `dir`, `server`
/// and an array under `files` are required and every file entry must
/// normalise; timestamps and sizes default to zero; the `metadata` block
/// keeps its JSON text (`null` when absent); an empty or missing
/// `workable_servers` list falls back to the primary server.
pub open spec fn spec_normalise_metadata(parsed: Option<JsonDoc>) -> Option<MetadataView> {
    match parsed {
        None => None,
        Some(root) => match (
            spec_string_field(root, "dir"@),
            spec_string_field(root, "server"@),
            spec_lookup(root, "files"@),
        ) {
            (Some(dir), Some(server), Some(JsonDoc::Array(entries))) => match spec_file_list(
                entries,
            ) {
                None => None,
                Some(files) => {
                    let named = (match spec_lookup(root, "workable_servers"@) {
                        Some(JsonDoc::Array(a)) => spec_server_names(a),
                        _ => Seq::empty(),
                    });
                    Some(
                        MetadataView {
                            created: spec_u64_or_zero(root, "created"@),
                            d1: (match spec_string_field(root, "d1"@) {
                                Some(s) => s,
                                None => Seq::empty(),
                            }),
                            d2: (match spec_string_field(root, "d2"@) {
                                Some(s) => s,
                                None => Seq::empty(),
                            }),
                            dir,
                            files,
                            files_count: if files.len() > u32::MAX {
                                u32::MAX
                            } else {
                                files.len() as u32
                            },
                            item_last_updated: spec_u64_or_zero(root, "item_last_updated"@),
                            item_size: spec_u64_or_zero(root, "item_size"@),
                            metadata: (match spec_lookup(root, "metadata"@) {
                                Some(m) => text_of(m),
                                None => "null"@,
                            }),
                            server,
                            uniq: spec_u64_or_zero(root, "uniq"@),
                            workable_servers: if named.len() == 0 {
                                seq![server]
                            } else {
                                named
                            },
                            reviews: (match spec_lookup(root, "reviews"@) {
                                Some(JsonDoc::Array(a)) => spec_texts(a),
                                _ => Seq::empty(),
                            }),
                        },
                    )
                },
            },
            _ => None,
        },
    }
}

/// Normalises a metadata document into the library's descriptor, per
/// `spec_normalise_metadata` over the named parse of the text. The call
/// succeeds exactly on the documents the specification accepts; schema
/// violations are JSON errors and rejected numeric fields parse errors.
pub fn parse_archive_metadata(text: &str) -> (r: Result<ArchiveMetadata, IaGetError>)
    ensures
        match r {
            Ok(m) => spec_normalise_metadata(json_of(text@)) == Some(metadata_view(m)),
            Err(e) => spec_normalise_metadata(json_of(text@)) is None && (e is JsonParsing
                || e is Parse),
        },
{
    let root = match parse_json(text) {
        Ok(v) => v,
        Err(m) => {
            return Err(IaGetError::JsonParsing(m));
        },
    };
    let ghost model = value_model(root);
    let dir = match read_required_string(&root, "dir") {
        Ok(s) => s,
        Err(e) => {
            return Err(e);
        },
    };
    let server = match read_required_string(&root, "server") {
        Ok(s) => s,
        Err(e) => {
            return Err(e);
        },
    };
    let files_value = match json_get(&root, "files") {
        Some(v) => v,
        None => {
            return Err(IaGetError::JsonParsing(String::from_str("missing file list")));
        },
    };
    let entries = match json_as_array(files_value) {
        Some(a) => a,
        None => {
            return Err(IaGetError::JsonParsing(String::from_str("file list is not an array")));
        },
    };
    let ghost entry_models = value_model(*files_value)->Array_0;
    proof {
        assert(value_model(*files_value) == JsonDoc::Array(entry_models));
        assert(spec_lookup(model, "files"@) == Some(JsonDoc::Array(entry_models)));
    }
    let mut files: Vec<ArchiveFile> = Vec::new();
    let mut i: usize = 0;
    while i < entries.len()
        invariant
            i <= entries@.len(),
            entries@.len() == entry_models.len(),
            json_of(text@) == Some(model),
            spec_string_field(model, "dir"@) == Some(dir@),
            spec_string_field(model, "server"@) == Some(server@),
            spec_lookup(model, "files"@) == Some(JsonDoc::Array(entry_models)),
            forall|k: int|
                0 <= k < entry_models.len() ==> value_model(#[trigger] entries@[k])
                    == entry_models[k],
            spec_file_list(entry_models.subrange(0, i as int)) == Some(
                files@.map_values(|f: ArchiveFile| file_view(f)),
            ),
        decreases entries@.len() - i,
    {
        match parse_file_entry(&entries[i]) {
            Ok(f) => {
                let ghost before = files@;
                files.push(f);
                proof {
                    let em = entry_models;
                    assert(em.subrange(0, i + 1).drop_last() =~= em.subrange(0, i as int));
                    assert(em.subrange(0, i + 1).last() == em[i as int]);
                    assert(files@.map_values(|x: ArchiveFile| file_view(x)) =~= before
                        .map_values(|x: ArchiveFile| file_view(x)).push(file_view(f)));
                }
            },
            Err(e) => {
                proof {
                    lemma_file_list_fails(entry_models, i as int);
                }
                return Err(e);
            },
        }
        i = i + 1;
    }
    proof {
        assert(entry_models.subrange(0, entry_models.len() as int) =~= entry_models);
    }
    let ghost named = (match spec_lookup(model, "workable_servers"@) {
        Some(JsonDoc::Array(a)) => spec_server_names(a),
        _ => Seq::<Seq<char>>::empty(),
    });
    let mut workable_servers: Vec<String> = Vec::new();
    proof {
        assert(workable_servers.deep_view() =~= Seq::<Seq<char>>::empty());
    }
    match json_get(&root, "workable_servers") {
        Some(ws) => {
            match json_as_array(ws) {
                Some(list) => {
                    let ghost server_models = value_model(*ws)->Array_0;
                    proof {
                        assert(value_model(*ws) == JsonDoc::Array(server_models));
                        assert(named == spec_server_names(server_models));
                    }
                    let mut k: usize = 0;
                    while k < list.len()
                        invariant
                            k <= list@.len(),
                            list@.len() == server_models.len(),
                            forall|j: int|
                                0 <= j < server_models.len() ==> value_model(
                                    #[trigger] list@[j],
                                ) == server_models[j],
                            workable_servers.deep_view() == spec_server_names(
                                server_models.subrange(0, k as int),
                            ),
                        decreases list@.len() - k,
                    {
                        let ghost before = workable_servers.deep_view();
                        match json_as_str(&list[k]) {
                            Some(s) => workable_servers.push(String::from_str(s)),
                            None => {},
                        }
                        k = k + 1;
                        proof {
                            let sm = server_models;
                            assert(sm.subrange(0, k as int).drop_last() =~= sm.subrange(
                                0,
                                k - 1,
                            ));
                            assert(sm.subrange(0, k as int).last() == sm[k - 1]);
                            assert(workable_servers.deep_view() =~= spec_server_names(
                                sm.subrange(0, k as int),
                            ));
                        }
                    }
                    proof {
                        assert(server_models.subrange(0, server_models.len() as int)
                            =~= server_models);
                        assert(workable_servers.deep_view() == named);
                    }
                },
                None => {
                    proof {
                        assert(named =~= workable_servers.deep_view());
                    }
                },
            }
        },
        None => {
            proof {
                assert(named =~= workable_servers.deep_view());
            }
        },
    }
    proof {
        assert(workable_servers.deep_view() == named);
    }
    if workable_servers.len() == 0 {
        workable_servers.push(server.clone());
        proof {
            assert(workable_servers.deep_view() =~= seq![server@]);
        }
    }
    let metadata_text = match json_get(&root, "metadata") {
        Some(m) => json_to_string(m),
        None => String::from_str("null"),
    };
    proof {
        assert(metadata_text@ == (match spec_lookup(model, "metadata"@) {
            Some(mm) => text_of(mm),
            None => "null"@,
        }));
    }
    let ghost review_spec = (match spec_lookup(model, "reviews"@) {
        Some(JsonDoc::Array(a)) => spec_texts(a),
        _ => Seq::<Seq<char>>::empty(),
    });
    let mut reviews: Vec<String> = Vec::new();
    proof {
        assert(reviews.deep_view() =~= Seq::<Seq<char>>::empty());
    }
    match json_get(&root, "reviews") {
        Some(rv) => {
            match json_as_array(rv) {
                Some(list) => {
                    let ghost review_models = value_model(*rv)->Array_0;
                    proof {
                        assert(value_model(*rv) == JsonDoc::Array(review_models));
                        assert(review_spec == spec_texts(review_models));
                    }
                    let mut k: usize = 0;
                    while k < list.len()
                        invariant
                            k <= list@.len(),
                            list@.len() == review_models.len(),
                            forall|j: int|
                                0 <= j < review_models.len() ==> value_model(
                                    #[trigger] list@[j],
                                ) == review_models[j],
                            reviews.deep_view() == spec_texts(
                                review_models.subrange(0, k as int),
                            ),
                        decreases list@.len() - k,
                    {
                        reviews.push(json_to_string(&list[k]));
                        k = k + 1;
                        proof {
                            let rm = review_models;
                            assert(rm.subrange(0, k as int).drop_last() =~= rm.subrange(
                                0,
                                k - 1,
                            ));
                            assert(rm.subrange(0, k as int).last() == rm[k - 1]);
                            assert(reviews.deep_view() =~= spec_texts(
                                rm.subrange(0, k as int),
                            ));
                        }
                    }
                    proof {
                        assert(review_models.subrange(0, review_models.len() as int)
                            =~= review_models);
                        assert(reviews.deep_view() == review_spec);
                    }
                },
                None => {
                    proof {
                        assert(review_spec =~= reviews.deep_view());
                    }
                },
            }
        },
        None => {
            proof {
                assert(review_spec =~= reviews.deep_view());
            }
        },
    }
    proof {
        assert(reviews.deep_view() == review_spec);
    }
    let files_count: u32 = if files.len() > u32::MAX as usize {
        u32::MAX
    } else {
        files.len() as u32
    };
    let result = ArchiveMetadata {
        created: read_u64_or_zero(&root, "created"),
        d1: match read_string_field(&root, "d1") {
            Some(s) => s,
            None => String::new(),
        },
        d2: match read_string_field(&root, "d2") {
            Some(s) => s,
            None => String::new(),
        },
        dir,
        files,
        files_count,
        item_last_updated: read_u64_or_zero(&root, "item_last_updated"),
        item_size: read_u64_or_zero(&root, "item_size"),
        metadata: metadata_text,
        server,
        uniq: read_u64_or_zero(&root, "uniq"),
        workable_servers,
        reviews,
    };
    proof {
        let spec = spec_normalise_metadata(json_of(text@));
        let built = metadata_view(result);
        assert(spec_file_list(entry_models) == Some(
            result.files@.map_values(|f: ArchiveFile| file_view(f)),
        ));
        assert(spec is Some);
        let sv = spec->Some_0;
        assert(sv.files == built.files);
        assert(sv.workable_servers == built.workable_servers);
        assert(sv.reviews == built.reviews);
        assert(sv.metadata == built.metadata);
        assert(sv.files_count == built.files_count);
        assert(sv == built);
    }
    Ok(result)
}

} // verus!
