//! Archive metadata, file records, and download sessions.
//!
//! These are the plain data types the engine works on: the normalised item
//! descriptor, the per-file record, and the session that pairs a plan with
//! per-file download status so a later run can resume.

use vstd::prelude::*;
use crate::strutil::{
    chars_eq_ignore_case, chars_to_string, concat_chars, contains_seq, contains_sub,
    dec_digits, ends_with, ends_with_exec, eq_ignore_case, lower_chars, lower_seq,
    push_dec, starts_with, starts_with_exec, str_to_chars,
};

verus! {

/// State of one file inside a download session.
#[derive(Debug, Clone, Copy, PartialEq, Eq, Structural)]
pub enum DownloadState {
    /// Not yet started.
    Pending,
    /// Currently downloading.
    InProgress,
    /// Successfully completed.
    Completed,
    /// Failed with an error.
    Failed,
    /// Paused or cancelled.
    Paused,
    /// Skipped, for example because the file already exists.
    Skipped,
}

impl DownloadState {
    /// A terminal state is never left again by the engine.
    pub open spec fn spec_is_terminal(self) -> bool {
        self == DownloadState::Completed || self == DownloadState::Failed
            || self == DownloadState::Skipped
    }

    /// Whether the state is terminal.
    pub fn is_terminal(&self) -> (r: bool)
        ensures
            r == self.spec_is_terminal(),
    {
        match self {
            DownloadState::Completed => true,
            DownloadState::Failed => true,
            DownloadState::Skipped => true,
            _ => false,
        }
    }
}

/// Copies an optional string, keeping its characters.
pub fn clone_opt_string(s: &Option<String>) -> (r: Option<String>)
    ensures
        r == *s,
{
    match s {
        Some(x) => Some(x.clone()),
        None => None,
    }
}

/// One file entry of an Internet Archive item.
#[derive(Debug, Clone)]
pub struct ArchiveFile {
    /// File name, relative to the item directory; may contain `/`.
    pub name: String,
    /// Source type reported by the archive (original, derivative, metadata).
    pub source: String,
    /// Declared format tag, if any.
    pub format: Option<String>,
    /// Last modification time as seconds since the Unix epoch.
    pub mtime: Option<u64>,
    /// Size in bytes, when known.
    pub size: Option<u64>,
    /// Hex MD5 digest, when known.
    pub md5: Option<String>,
    /// Hex CRC32 checksum, when known.
    pub crc32: Option<String>,
    /// Hex SHA1 digest, when known.
    pub sha1: Option<String>,
    /// BitTorrent info hash, when known.
    pub btih: Option<String>,
    /// Summation type for checksums.
    pub summation: Option<String>,
    /// Name of the original this file derives from.
    pub original: Option<String>,
    /// Rotation angle for images.
    pub rotation: Option<u32>,
}

/// The extension of a file name: the characters after the last `.` of its
/// last path component, provided that dot is not the component's first
/// character; empty otherwise.
pub open spec fn extension_of(name: Seq<char>) -> Seq<char> {
    extension_from(name, name.len() as int)
}

/// Scans backwards from position `end` for the extension boundary.
pub open spec fn extension_from(name: Seq<char>, end: int) -> Seq<char>
    recommends
        0 <= end <= name.len(),
    decreases end,
{
    if end <= 1 {
        Seq::empty()
    } else if name[end - 1] == '/' {
        Seq::empty()
    } else if name[end - 1] == '.' {
        if end - 2 >= 0 && name[end - 2] != '/' {
            name.subrange(end, name.len() as int)
        } else {
            Seq::empty()
        }
    } else {
        extension_from(name, end - 1)
    }
}

/// The extension of a file name, per `extension_of`.
pub fn extension_chars(name: &Vec<char>) -> (r: Vec<char>)
    ensures
        r@ == extension_of(name@),
{
    let mut end: usize = name.len();
    while end > 1
        invariant
            end <= name.len(),
            extension_from(name@, name@.len() as int) == extension_from(name@, end as int),
        decreases end,
    {
        let c = name[end - 1];
        if c == '/' {
            let r: Vec<char> = Vec::new();
            proof {
                assert(r@ =~= extension_of(name@));
            }
            return r;
        }
        if c == '.' {
            if end >= 2 && name[end - 2] != '/' {
                let mut r: Vec<char> = Vec::new();
                let mut i: usize = end;
                while i < name.len()
                    invariant
                        end <= i <= name.len(),
                        r@ == name@.subrange(end as int, i as int),
                    decreases name.len() - i,
                {
                    r.push(name[i]);
                    i = i + 1;
                    proof {
                        assert(r@ =~= name@.subrange(end as int, i as int));
                    }
                }
                proof {
                    assert(r@ =~= extension_of(name@));
                }
                return r;
            } else {
                let r: Vec<char> = Vec::new();
                proof {
                    assert(r@ =~= extension_of(name@));
                }
                return r;
            }
        }
        end = end - 1;
    }
    let r: Vec<char> = Vec::new();
    proof {
        assert(r@ =~= extension_of(name@));
    }
    r
}

/// The view of an optional string.
pub open spec fn opt_str_view(s: Option<String>) -> Option<Seq<char>> {
    match s {
        Some(x) => Some(x@),
        None => None,
    }
}

/// A filter entry matches a file when it equals the file's format tag or its
/// filename extension, ignoring ASCII case.
pub open spec fn entry_matches_file(
    entry: Seq<char>,
    format: Option<Seq<char>>,
    name: Seq<char>,
) -> bool {
    let fmt = match format {
        Some(f) => f,
        None => Seq::empty(),
    };
    eq_ignore_case(entry, fmt) || eq_ignore_case(entry, extension_of(name))
}

/// Some entry of the list matches the file.
pub open spec fn any_entry_matches(
    entries: Seq<Seq<char>>,
    format: Option<Seq<char>>,
    name: Seq<char>,
) -> bool {
    exists|i: int|
        0 <= i < entries.len() && entry_matches_file(#[trigger] entries[i], format, name)
}

/// Whether some filter entry equals the file's format or extension, ignoring
/// ASCII case.
pub fn any_entry_matches_exec(
    entries: &Vec<String>,
    format: &Option<String>,
    name: &Vec<char>,
) -> (r: bool)
    ensures
        r == any_entry_matches(entries.deep_view(), opt_str_view(*format), name@),
{
    let ghost fmt_view: Option<Seq<char>> = opt_str_view(*format);
    let fmt_chars: Vec<char> = match format {
        Some(f) => str_to_chars(f.as_str()),
        None => Vec::new(),
    };
    let ext_chars = extension_chars(name);
    let mut i: usize = 0;
    while i < entries.len()
        invariant
            i <= entries.len(),
            fmt_view == opt_str_view(*format),
            fmt_chars@ == (match fmt_view {
                Some(f) => f,
                None => Seq::<char>::empty(),
            }),
            ext_chars@ == extension_of(name@),
            forall|j: int|
                0 <= j < i ==> !entry_matches_file(
                    #[trigger] entries.deep_view()[j],
                    fmt_view,
                    name@,
                ),
        decreases entries.len() - i,
    {
        let entry = str_to_chars(entries[i].as_str());
        proof {
            assert(entries.deep_view()[i as int] == entries@[i as int]@);
        }
        if chars_eq_ignore_case(&entry, &fmt_chars) || chars_eq_ignore_case(&entry, &ext_chars) {
            proof {
                assert(entry_matches_file(entries.deep_view()[i as int], fmt_view, name@));
            }
            return true;
        }
        i = i + 1;
    }
    false
}

/// Whether a file passes the incl/excl and size rules.
///
/// A file is kept exactly when: the keep list is empty or one of its
/// entries matches the file's format or extension; no entry of the drop
/// list matches; and its
/// size, when known, lies within the inclusive bounds. Unknown sizes pass
/// both size checks.
pub open spec fn file_passes_filters(
    format: Option<Seq<char>>,
    name: Seq<char>,
    size: Option<u64>,
    incl: Seq<Seq<char>>,
    excl: Seq<Seq<char>>,
    min_size: Option<u64>,
    max_size: Option<u64>,
) -> bool {
    &&& (incl.len() == 0 || any_entry_matches(incl, format, name))
    &&& !(excl.len() > 0 && any_entry_matches(excl, format, name))
    &&& (match (size, min_size) {
        (Some(s), Some(mn)) => s >= mn,
        _ => true,
    })
    &&& (match (size, max_size) {
        (Some(s), Some(mx)) => s <= mx,
        _ => true,
    })
}

/// The subsequence of files that pass the filters, in input order.
pub open spec fn spec_filter_files(
    files: Seq<ArchiveFile>,
    incl: Seq<Seq<char>>,
    excl: Seq<Seq<char>>,
    min_size: Option<u64>,
    max_size: Option<u64>,
) -> Seq<ArchiveFile>
    decreases files.len(),
{
    if files.len() == 0 {
        Seq::empty()
    } else {
        let rest = spec_filter_files(files.drop_last(), incl, excl, min_size, max_size);
        let f = files.last();
        if file_passes_filters(
            spec_format_view(f),
            f.name@,
            f.size,
            incl,
            excl,
            min_size,
            max_size,
        ) {
            rest.push(f)
        } else {
            rest
        }
    }
}

/// The view of an optional format field.
pub open spec fn spec_format_view(f: ArchiveFile) -> Option<Seq<char>> {
    opt_str_view(f.format)
}

/// Applies incl/excl format rules and size bounds to a file list,
/// keeping descriptor order.
pub fn apply_file_filters(
    files: &Vec<ArchiveFile>,
    include_formats: &Vec<String>,
    exclude_formats: &Vec<String>,
    min_file_size: Option<u64>,
    max_file_size: Option<u64>,
) -> (r: Vec<ArchiveFile>)
    ensures
        r@ == spec_filter_files(
            files@,
            include_formats.deep_view(),
            exclude_formats.deep_view(),
            min_file_size,
            max_file_size,
        ),
{
    let mut r: Vec<ArchiveFile> = Vec::new();
    let mut i: usize = 0;
    while i < files.len()
        invariant
            i <= files.len(),
            r@ == spec_filter_files(
                files@.subrange(0, i as int),
                include_formats.deep_view(),
                exclude_formats.deep_view(),
                min_file_size,
                max_file_size,
            ),
        decreases files.len() - i,
    {
        let f = &files[i];
        let name_chars = str_to_chars(f.name.as_str());
        let mut keep: bool = true;
        if include_formats.len() > 0 {
            if !any_entry_matches_exec(include_formats, &f.format, &name_chars) {
                keep = false;
            }
        }
        if keep && exclude_formats.len() > 0 {
            if any_entry_matches_exec(exclude_formats, &f.format, &name_chars) {
                keep = false;
            }
        }
        if keep {
            match (f.size, min_file_size) {
                (Some(s), Some(mn)) => {
                    if s < mn {
                        keep = false;
                    }
                },
                _ => {},
            }
        }
        if keep {
            match (f.size, max_file_size) {
                (Some(s), Some(mx)) => {
                    if s > mx {
                        keep = false;
                    }
                },
                _ => {},
            }
        }
        proof {
            assert(keep == file_passes_filters(
                spec_format_view(files@[i as int]),
                files@[i as int].name@,
                files@[i as int].size,
                include_formats.deep_view(),
                exclude_formats.deep_view(),
                min_file_size,
                max_file_size,
            ));
        }
        if keep {
            let copy = f.duplicate();
            r.push(copy);
        }
        i = i + 1;
        proof {
            assert(files@.subrange(0, i as int).drop_last() =~= files@.subrange(0, i - 1));
            assert(files@.subrange(0, i as int).last() == files@[i - 1]);
        }
    }
    proof {
        assert(files@.subrange(0, files@.len() as int) =~= files@);
    }
    r
}

/// A filter entry selects a file when it occurs in the file's format tag or
/// equals the file's filename extension, both ignoring ASCII case.
pub open spec fn spec_filter_selects(f: ArchiveFile, entry: Seq<char>) -> bool {
    ||| (f.format is Some && contains_seq(lower_seq(f.format->Some_0@), lower_seq(entry)))
    ||| eq_ignore_case(entry, extension_of(f.name@))
}

impl ArchiveFile {
    /// An equal copy of the record. Unlike the derived `Clone`, this copy
    /// carries a contract.
    pub fn duplicate(&self) -> (r: ArchiveFile)
        ensures
            r == *self,
    {
        ArchiveFile {
            name: self.name.clone(),
            source: self.source.clone(),
            format: clone_opt_string(&self.format),
            mtime: self.mtime,
            size: self.size,
            md5: clone_opt_string(&self.md5),
            crc32: clone_opt_string(&self.crc32),
            sha1: clone_opt_string(&self.sha1),
            btih: clone_opt_string(&self.btih),
            summation: clone_opt_string(&self.summation),
            original: clone_opt_string(&self.original),
            rotation: self.rotation,
        }
    }

    /// The remote URL for this file on the given server:
    /// `https://<server><dir>/<name>`.
    pub fn get_download_url(&self, server: &str, dir: &str) -> (r: String)
        ensures
            r@ == "https://"@ + server@ + dir@ + "/"@ + self.name@,
    {
        let mut v = str_to_chars("https://");
        let sv = str_to_chars(server);
        let dv = str_to_chars(dir);
        let slash = str_to_chars("/");
        let nv = str_to_chars(self.name.as_str());
        let v2 = concat_chars(&v, &sv);
        let v3 = concat_chars(&v2, &dv);
        let v4 = concat_chars(&v3, &slash);
        let v5 = concat_chars(&v4, &nv);
        chars_to_string(&v5)
    }

    /// Whether a filter entry selects the file: the entry occurs in the
    /// format tag (ignoring ASCII case), or it equals the filename extension
    /// (ignoring ASCII case). An empty filter list matches everything.
    pub fn matches_format_filter(&self, filters: &Vec<String>) -> (r: bool)
        ensures
            r == (filters@.len() == 0 || exists|i: int|
                0 <= i < filters@.len() && spec_filter_selects(
                    *self,
                    #[trigger] filters.deep_view()[i],
                )),
    {
        if filters.len() == 0 {
            return true;
        }
        let ghost fmt_view: Option<Seq<char>> = opt_str_view(self.format);
        let fmt: Option<Vec<char>> = match &self.format {
            Some(format) => Some(lower_chars(&str_to_chars(format.as_str()))),
            None => None,
        };
        let ext = extension_chars(&str_to_chars(self.name.as_str()));
        let mut i: usize = 0;
        while i < filters.len()
            invariant
                i <= filters.len(),
                fmt_view == opt_str_view(self.format),
                (match (fmt, fmt_view) {
                    (Some(f), Some(v)) => f@ == lower_seq(v),
                    (None, None) => true,
                    _ => false,
                }),
                ext@ == extension_of(self.name@),
                forall|j: int|
                    0 <= j < i ==> !spec_filter_selects(
                        *self,
                        #[trigger] filters.deep_view()[j],
                    ),
            decreases filters.len() - i,
        {
            let entry = str_to_chars(filters[i].as_str());
            proof {
                assert(filters.deep_view()[i as int] == filters@[i as int]@);
            }
            let in_format = match &fmt {
                Some(f) => contains_sub(f, &lower_chars(&entry)),
                None => false,
            };
            if in_format || chars_eq_ignore_case(&entry, &ext) {
                proof {
                    assert(spec_filter_selects(*self, filters.deep_view()[i as int]));
                }
                return true;
            }
            i = i + 1;
        }
        false
    }

    /// Whether the file's size, when known, lies within the given inclusive
    /// bounds; an unknown size always passes.
    pub fn meets_size_requirements(&self, min_size: Option<u64>, max_size: Option<u64>) -> (r:
        bool)
        ensures
            r == (match self.size {
                Some(s) => (match min_size {
                    Some(mn) => s >= mn,
                    None => true,
                }) && (match max_size {
                    Some(mx) => s <= mx,
                    None => true,
                }),
                None => true,
            }),
    {
        match self.size {
            Some(size) => {
                let min_ok = match min_size {
                    Some(mn) => size >= mn,
                    None => true,
                };
                let max_ok = match max_size {
                    Some(mx) => size <= mx,
                    None => true,
                };
                min_ok && max_ok
            },
            None => true,
        }
    }

    /// Whether a computed MD5 digest of the local file matches the record's
    /// digest, compared ignoring ASCII case. A record without a digest
    /// counts as matching. The caller supplies the computed digest.
    pub fn validate_md5(&self, actual_md5: &str) -> (r: bool)
        ensures
            r == (match self.md5 {
                Some(expected) => eq_ignore_case(actual_md5@, expected@),
                None => true,
            }),
    {
        match &self.md5 {
            Some(expected) => {
                let a = lower_chars(&str_to_chars(actual_md5));
                let e = lower_chars(&str_to_chars(expected.as_str()));
                let r = crate::strutil::chars_eq(&a, &e);
                r
            },
            None => true,
        }
    }
}


/// Saturating addition on byte counts.
pub open spec fn sat_add_spec(a: u64, b: u64) -> u64 {
    if a + b > u64::MAX {
        u64::MAX
    } else {
        (a + b) as u64
    }
}

/// Adds two byte counts, saturating at the largest representable value.
pub fn sat_add(a: u64, b: u64) -> (r: u64)
    ensures
        r == sat_add_spec(a, b),
{
    if a > u64::MAX - b {
        u64::MAX
    } else {
        a + b
    }
}

/// The normalised descriptor of one archive item.
#[derive(Debug, Clone)]
pub struct ArchiveMetadata {
    /// Timestamp when the item was created.
    pub created: u64,
    /// Primary datanode server.
    pub d1: String,
    /// Secondary datanode server.
    pub d2: String,
    /// Directory path on the servers; begins with `/`.
    pub dir: String,
    /// All files of the item, in descriptor order.
    pub files: Vec<ArchiveFile>,
    /// Number of files.
    pub files_count: u32,
    /// Last time the item was updated.
    pub item_last_updated: u64,
    /// Total size of all files in bytes, informational.
    pub item_size: u64,
    /// The item's own metadata block, kept as raw JSON text.
    pub metadata: String,
    /// Primary server for downloads.
    pub server: String,
    /// Unique identifier of the record.
    pub uniq: u64,
    /// Servers able to serve the files.
    pub workable_servers: Vec<String>,
    /// Reviews, kept as raw JSON texts.
    pub reviews: Vec<String>,
}

/// Options a download runs under.
#[derive(Debug, Clone)]
pub struct DownloadConfig {
    /// Output directory.
    pub output_dir: String,
    /// Maximum concurrent downloads.
    pub max_concurrent: u32,
    /// Format filters the plan was built with.
    pub format_filters: Vec<String>,
    /// Minimum file size, when set.
    pub min_size: Option<u64>,
    /// Maximum file size, when set.
    pub max_size: Option<u64>,
    /// Whether MD5 digests are verified.
    pub verify_md5: bool,
    /// Whether file modification times are preserved.
    pub preserve_mtime: bool,
    /// User agent string.
    pub user_agent: String,
    /// Whether HTTP compression is requested.
    pub enable_compression: bool,
    /// Whether downloaded archives are decompressed afterwards.
    pub auto_decompress: bool,
    /// Compression format tags to decompress automatically.
    pub decompress_formats: Vec<String>,
}

/// Status of an individual file download.
#[derive(Debug, Clone)]
pub struct FileDownloadStatus {
    /// The file record this status belongs to.
    pub file_info: ArchiveFile,
    /// Current state.
    pub status: DownloadState,
    /// Bytes written to disk so far.
    pub bytes_downloaded: u64,
    /// When the download started.
    pub started_at: Option<u64>,
    /// When the download completed.
    pub completed_at: Option<u64>,
    /// The latest error, if any.
    pub error_message: Option<String>,
    /// Number of retry attempts so far.
    pub retry_count: u32,
    /// Server the bytes were fetched from.
    pub server_used: Option<String>,
    /// Local path the file is written to.
    pub local_path: String,
}

/// The names of the statuses, in order.
pub open spec fn status_names(s: Seq<FileDownloadStatus>) -> Seq<Seq<char>> {
    s.map_values(|fs: FileDownloadStatus| fs.file_info.name@)
}

/// The name list has one entry per status, holding that status's name.
pub proof fn lemma_status_names_index(s: Seq<FileDownloadStatus>)
    ensures
        status_names(s).len() == s.len(),
        forall|i: int| 0 <= i < s.len() ==> status_names(s)[i] == (#[trigger] s[i]).file_info.name@,
{
}

/// Some file of the list bears the given name.
pub open spec fn has_file(files: Seq<ArchiveFile>, name: Seq<char>) -> bool {
    exists|i: int| 0 <= i < files.len() && (#[trigger] files[i]).name@ == name
}

/// The names of the session plan: each requested name that the descriptor
/// knows, in order of first appearance, without repetition.
pub open spec fn spec_plan_names(
    requested: Seq<Seq<char>>,
    files: Seq<ArchiveFile>,
) -> Seq<Seq<char>>
    decreases requested.len(),
{
    if requested.len() == 0 {
        Seq::empty()
    } else {
        let rest = spec_plan_names(requested.drop_last(), files);
        let n = requested.last();
        if has_file(files, n) && !rest.contains(n) {
            rest.push(n)
        } else {
            rest
        }
    }
}

/// A freshly created status entry for the named file.
pub open spec fn is_initial_status(
    st: FileDownloadStatus,
    files: Seq<ArchiveFile>,
    output_dir: Seq<char>,
) -> bool {
    &&& exists|i: int|
        0 <= i < files.len() && (#[trigger] files[i]).name@ == st.file_info.name@
            && st.file_info == files[i]
    &&& st.status == DownloadState::Pending
    &&& st.bytes_downloaded == 0
    &&& st.started_at is None
    &&& st.completed_at is None
    &&& st.error_message is None
    &&& st.retry_count == 0
    &&& st.server_used is None
    &&& st.local_path@ == output_dir + "/"@ + st.file_info.name@
}

/// The session document format this library writes and accepts.
pub const SESSION_FORMAT_VERSION: u64 = 1;

/// Whether a session document of the given format version can be used.
pub fn session_version_supported(version: u64) -> (r: bool)
    ensures
        r == (version == SESSION_FORMAT_VERSION),
{
    version == SESSION_FORMAT_VERSION
}

/// A download session: the plan, the descriptor snapshot, and per-file
/// download status, as persisted between runs.
#[derive(Debug, Clone)]
pub struct DownloadSession {
    /// Format version of the persisted document; unknown versions are
    /// rejected on load.
    pub version: u64,
    /// The URL the run was started with.
    pub original_url: String,
    /// Archive identifier.
    pub identifier: String,
    /// Snapshot of the item descriptor.
    pub archive_metadata: ArchiveMetadata,
    /// Options of this run.
    pub download_config: DownloadConfig,
    /// Names of the files the plan asks for.
    pub requested_files: Vec<String>,
    /// Per-file status, one entry per planned file, names distinct.
    pub file_status: Vec<FileDownloadStatus>,
    /// When the session was created.
    pub session_start: u64,
    /// When the session was last updated.
    pub last_updated: u64,
}

impl DownloadSession {
    /// Every status entry bears a distinct name.
    pub open spec fn names_distinct(self) -> bool {
        forall|i: int, j: int|
            0 <= i < j < self.file_status.len()
                ==> (#[trigger] self.file_status[i]).file_info.name@ != (
            #[trigger] self.file_status[j]).file_info.name@
    }

    /// Creates a session: one `Pending` status entry per requested file the
    /// descriptor knows, in order of first appearance.
    pub fn new(
        original_url: String,
        identifier: String,
        archive_metadata: ArchiveMetadata,
        download_config: DownloadConfig,
        requested_files: Vec<String>,
        now: u64,
    ) -> (r: DownloadSession)
        ensures
            r.version == SESSION_FORMAT_VERSION,
            r.original_url == original_url,
            r.identifier == identifier,
            r.archive_metadata == archive_metadata,
            r.download_config == download_config,
            r.requested_files == requested_files,
            r.session_start == now,
            r.last_updated == now,
            status_names(r.file_status@) == spec_plan_names(
                requested_files.deep_view(),
                archive_metadata.files@,
            ),
            forall|k: int|
                0 <= k < r.file_status.len() ==> is_initial_status(
                    #[trigger] r.file_status@[k],
                    archive_metadata.files@,
                    download_config.output_dir@,
                ),
            r.names_distinct(),
    {
        let mut statuses: Vec<FileDownloadStatus> = Vec::new();
        let mut i: usize = 0;
        while i < requested_files.len()
            invariant
                i <= requested_files.len(),
                status_names(statuses@) == spec_plan_names(
                    requested_files.deep_view().subrange(0, i as int),
                    archive_metadata.files@,
                ),
                forall|k: int|
                    0 <= k < statuses.len() ==> is_initial_status(
                        #[trigger] statuses@[k],
                        archive_metadata.files@,
                        download_config.output_dir@,
                    ),
            decreases requested_files.len() - i,
        {
            let name = &requested_files[i];
            proof {
                assert(requested_files.deep_view()[i as int] == requested_files@[i as int]@);
            }
            let already = find_status_index(&statuses, name.as_str());
            proof {
                lemma_status_names_index(statuses@);
                let n = requested_files.deep_view()[i as int];
                match spec_find_status(statuses@, n) {
                    Some(k) => {
                        assert(status_names(statuses@)[k] == n);
                        assert(status_names(statuses@).contains(n));
                    },
                    None => {
                        if status_names(statuses@).contains(n) {
                            let k = choose|k: int|
                                0 <= k < status_names(statuses@).len() && status_names(
                                    statuses@,
                                )[k] == n;
                            assert(statuses@[k].file_info.name@ == n);
                        }
                    },
                }
            }
            if already.is_none() {
                match find_file_by_name(&archive_metadata.files, name.as_str()) {
                    Some(fi) => {
                        let ghost prev = statuses@;
                        let file_info = archive_metadata.files[fi].duplicate();
                        let dirc = str_to_chars(download_config.output_dir.as_str());
                        let slash = str_to_chars("/");
                        let namec = str_to_chars(name.as_str());
                        let p1 = concat_chars(&dirc, &slash);
                        let p2 = concat_chars(&p1, &namec);
                        let local_path = chars_to_string(&p2);
                        let st = FileDownloadStatus {
                            file_info,
                            status: DownloadState::Pending,
                            bytes_downloaded: 0,
                            started_at: None,
                            completed_at: None,
                            error_message: None,
                            retry_count: 0,
                            server_used: None,
                            local_path,
                        };
                        statuses.push(st);
                        proof {
                            assert(statuses@.drop_last() =~= prev);
                            assert(status_names(statuses@) =~= status_names(prev).push(
                                requested_files.deep_view()[i as int],
                            ));
                            let n = requested_files.deep_view()[i as int];
                            assert(has_file(archive_metadata.files@, n)) by {
                                assert(archive_metadata.files@[fi as int].name@ == n);
                            }
                        }
                    },
                    None => {},
                }
            }
            i = i + 1;
            proof {
                let req = requested_files.deep_view();
                assert(req.subrange(0, i as int).drop_last() =~= req.subrange(0, i - 1));
                assert(req.subrange(0, i as int).last() == req[i - 1]);
                assert(status_names(statuses@) =~= spec_plan_names(
                    req.subrange(0, i as int),
                    archive_metadata.files@,
                ));
            }
        }
        proof {
            let req = requested_files.deep_view();
            assert(req.subrange(0, req.len() as int) =~= req);
            lemma_plan_names_distinct(req, archive_metadata.files@);
            lemma_status_names_index(statuses@);
            let names = status_names(statuses@);
            assert forall|a: int, b: int| 0 <= a < b < statuses@.len() implies (
            #[trigger] statuses@[a]).file_info.name@ != (
            #[trigger] statuses@[b]).file_info.name@ by {
                assert(names[a] == statuses@[a].file_info.name@);
                assert(names[b] == statuses@[b].file_info.name@);
            }
        }
        DownloadSession {
            version: SESSION_FORMAT_VERSION,
            original_url,
            identifier,
            archive_metadata,
            download_config,
            requested_files,
            file_status: statuses,
            session_start: now,
            last_updated: now,
        }
    }

    /// Sets the state of the named file and bumps the update stamp; a name
    /// the session does not know leaves it unchanged.
    pub fn update_file_status(&mut self, file_name: &str, status: DownloadState, now: u64)
        ensures
            match spec_find_status(old(self).file_status@, file_name@) {
                Some(k) => {
                    &&& final(self).file_status@ == old(self).file_status@.update(
                        k,
                        FileDownloadStatus {
                            status,
                            ..old(self).file_status@[k]
                        },
                    )
                    &&& final(self).last_updated == now
                    &&& *final(self) == DownloadSession {
                        file_status: final(self).file_status,
                        last_updated: final(self).last_updated,
                        ..*old(self)
                    }
                },
                None => *final(self) == *old(self),
            },
    {
        let found = find_status_index(&self.file_status, file_name);
        match found {
            Some(k) => {
                let old_entry = self.file_status[k].clone();
                let entry = FileDownloadStatus {
                    status,
                    file_info: self.file_status[k].file_info.duplicate(),
                    bytes_downloaded: self.file_status[k].bytes_downloaded,
                    started_at: self.file_status[k].started_at,
                    completed_at: self.file_status[k].completed_at,
                    error_message: clone_opt_string(&self.file_status[k].error_message),
                    retry_count: self.file_status[k].retry_count,
                    server_used: clone_opt_string(&self.file_status[k].server_used),
                    local_path: self.file_status[k].local_path.clone(),
                };
                self.file_status.set(k, entry);
                self.last_updated = now;
            },
            None => {},
        }
    }

    /// The names still owed work: files in `Pending` or `Paused` state, in
    /// plan order. `Failed` and the other terminal states are never
    /// re-queued; a paused file resumes.
    pub fn get_pending_files(&self) -> (r: Vec<String>)
        ensures
            r.deep_view() == spec_pending_names(self.file_status@),
    {
        let mut r: Vec<String> = Vec::new();
        let mut i: usize = 0;
        while i < self.file_status.len()
            invariant
                i <= self.file_status.len(),
                r.deep_view() == spec_pending_names(self.file_status@.subrange(0, i as int)),
            decreases self.file_status.len() - i,
        {
            let st = &self.file_status[i];
            let is_pending = match st.status {
                DownloadState::Pending => true,
                DownloadState::Paused => true,
                _ => false,
            };
            if is_pending {
                r.push(st.file_info.name.clone());
                proof {
                    assert(r.deep_view() =~= r@.drop_last().map_values(
                        |s: String| s@,
                    ).push(self.file_status@[i as int].file_info.name@));
                    assert(r@.drop_last().map_values(|s: String| s@) =~= spec_pending_names(
                        self.file_status@.subrange(0, i as int),
                    ));
                }
            }
            i = i + 1;
            proof {
                let fs = self.file_status@;
                assert(fs.subrange(0, i as int).drop_last() =~= fs.subrange(0, i - 1));
                assert(fs.subrange(0, i as int).last() == fs[i - 1]);
            }
        }
        proof {
            assert(self.file_status@.subrange(0, self.file_status@.len() as int)
                =~= self.file_status@);
        }
        r
    }

    /// Counts files per state and sums byte totals. Sums saturate at the
    /// largest 64-bit value.
    pub fn get_progress_summary(&self) -> (r: DownloadProgress)
        ensures
            r.total_files == self.file_status.len(),
            r.completed_files == spec_count_state(self.file_status@, DownloadState::Completed),
            r.failed_files == spec_count_state(self.file_status@, DownloadState::Failed),
            r.in_progress_files == spec_count_state(
                self.file_status@,
                DownloadState::InProgress,
            ),
            r.total_bytes == spec_total_bytes(self.file_status@),
            r.downloaded_bytes == spec_downloaded_bytes(self.file_status@),
    {
        let mut completed: usize = 0;
        let mut failed: usize = 0;
        let mut in_progress: usize = 0;
        let mut total_bytes: u64 = 0;
        let mut downloaded_bytes: u64 = 0;
        let mut i: usize = 0;
        while i < self.file_status.len()
            invariant
                i <= self.file_status.len(),
                completed == spec_count_state(
                    self.file_status@.subrange(0, i as int),
                    DownloadState::Completed,
                ),
                failed == spec_count_state(
                    self.file_status@.subrange(0, i as int),
                    DownloadState::Failed,
                ),
                in_progress == spec_count_state(
                    self.file_status@.subrange(0, i as int),
                    DownloadState::InProgress,
                ),
                completed <= i,
                failed <= i,
                in_progress <= i,
                total_bytes == spec_total_bytes(self.file_status@.subrange(0, i as int)),
                downloaded_bytes == spec_downloaded_bytes(
                    self.file_status@.subrange(0, i as int),
                ),
            decreases self.file_status.len() - i,
        {
            let st = &self.file_status[i];
            match st.status {
                DownloadState::Completed => {
                    completed = completed + 1;
                },
                DownloadState::Failed => {
                    failed = failed + 1;
                },
                DownloadState::InProgress => {
                    in_progress = in_progress + 1;
                },
                _ => {},
            }
            let sz: u64 = match st.file_info.size {
                Some(s) => s,
                None => 0,
            };
            total_bytes = sat_add(total_bytes, sz);
            downloaded_bytes = sat_add(downloaded_bytes, st.bytes_downloaded);
            i = i + 1;
            proof {
                let fs = self.file_status@;
                assert(fs.subrange(0, i as int).drop_last() =~= fs.subrange(0, i - 1));
                assert(fs.subrange(0, i as int).last() == fs[i - 1]);
            }
        }
        proof {
            assert(self.file_status@.subrange(0, self.file_status@.len() as int)
                =~= self.file_status@);
        }
        DownloadProgress {
            total_files: self.file_status.len(),
            completed_files: completed,
            failed_files: failed,
            in_progress_files: in_progress,
            total_bytes,
            downloaded_bytes,
        }
    }
}

/// The plan names hold no repetition.
pub proof fn lemma_plan_names_distinct(requested: Seq<Seq<char>>, files: Seq<ArchiveFile>)
    ensures
        forall|i: int, j: int|
            0 <= i < j < spec_plan_names(requested, files).len()
                ==> spec_plan_names(requested, files)[i] != spec_plan_names(requested, files)[j],
    decreases requested.len(),
{
    if requested.len() > 0 {
        lemma_plan_names_distinct(requested.drop_last(), files);
        let rest = spec_plan_names(requested.drop_last(), files);
        let n = requested.last();
        if has_file(files, n) && !rest.contains(n) {
            assert forall|i: int, j: int|
                0 <= i < j < rest.push(n).len() implies rest.push(n)[i] != rest.push(n)[j] by {
                if j == rest.len() {
                    assert(!rest.contains(n));
                    assert(rest.push(n)[i] == rest[i]);
                }
            }
        }
    }
}

/// The first status entry bearing the name, if any.
pub open spec fn spec_find_status(s: Seq<FileDownloadStatus>, name: Seq<char>) -> Option<int> {
    if exists|i: int| 0 <= i < s.len() && (#[trigger] s[i]).file_info.name@ == name {
        let i = choose|i: int|
            0 <= i < s.len() && (#[trigger] s[i]).file_info.name@ == name && forall|j: int|
                0 <= j < i ==> (#[trigger] s[j]).file_info.name@ != name;
        Some(i)
    } else {
        None
    }
}

/// Finds the first status entry bearing the name.
pub fn find_status_index(s: &Vec<FileDownloadStatus>, name: &str) -> (r: Option<usize>)
    ensures
        match r {
            Some(k) => 0 <= k < s.len() && s@[k as int].file_info.name@ == name@ && (forall|
                j: int,
            |
                0 <= j < k ==> (#[trigger] s@[j]).file_info.name@ != name@) && spec_find_status(
                s@,
                name@,
            ) == Some(k as int),
            None => !(exists|i: int|
                0 <= i < s@.len() && (#[trigger] s@[i]).file_info.name@ == name@)
                && spec_find_status(s@, name@) is None,
        },
{
    let mut i: usize = 0;
    while i < s.len()
        invariant
            i <= s.len(),
            forall|j: int| 0 <= j < i ==> (#[trigger] s@[j]).file_info.name@ != name@,
        decreases s.len() - i,
    {
        if crate::strutil::str_eq(s[i].file_info.name.as_str(), name) {
            proof {
                let k = i as int;
                assert(0 <= k < s@.len() && s@[k].file_info.name@ == name@ && forall|j: int|
                    0 <= j < k ==> (#[trigger] s@[j]).file_info.name@ != name@);
                let c = choose|c: int|
                    0 <= c < s@.len() && (#[trigger] s@[c]).file_info.name@ == name@ && forall|
                        j: int,
                    | 0 <= j < c ==> (#[trigger] s@[j]).file_info.name@ != name@;
                assert(!(c < k) && !(k < c)) by {
                    if c < k {
                        assert(s@[c].file_info.name@ != name@);
                    }
                    if k < c {
                        assert(s@[k].file_info.name@ != name@);
                    }
                }
            }
            return Some(i);
        }
        i = i + 1;
    }
    None
}

/// Finds the first file record bearing the name.
pub fn find_file_by_name(files: &Vec<ArchiveFile>, name: &str) -> (r: Option<usize>)
    ensures
        match r {
            Some(k) => 0 <= k < files.len() && files@[k as int].name@ == name@ && forall|j: int|
                0 <= j < k ==> (#[trigger] files@[j]).name@ != name@,
            None => !has_file(files@, name@),
        },
{
    let mut i: usize = 0;
    while i < files.len()
        invariant
            i <= files.len(),
            forall|j: int| 0 <= j < i ==> (#[trigger] files@[j]).name@ != name@,
        decreases files.len() - i,
    {
        if crate::strutil::str_eq(files[i].name.as_str(), name) {
            return Some(i);
        }
        i = i + 1;
    }
    None
}

/// Names of files whose state is `Pending` or `Paused`, in order: the files
/// a later run still owes work.
pub open spec fn spec_pending_names(s: Seq<FileDownloadStatus>) -> Seq<Seq<char>>
    decreases s.len(),
{
    if s.len() == 0 {
        Seq::empty()
    } else {
        let rest = spec_pending_names(s.drop_last());
        let st = s.last();
        if st.status == DownloadState::Pending || st.status == DownloadState::Paused {
            rest.push(st.file_info.name@)
        } else {
            rest
        }
    }
}

/// How many statuses are in the given state.
pub open spec fn spec_count_state(s: Seq<FileDownloadStatus>, st: DownloadState) -> nat
    decreases s.len(),
{
    if s.len() == 0 {
        0
    } else {
        spec_count_state(s.drop_last(), st) + if s.last().status == st {
            1nat
        } else {
            0nat
        }
    }
}

/// Sum of the known file sizes, saturating.
pub open spec fn spec_total_bytes(s: Seq<FileDownloadStatus>) -> u64
    decreases s.len(),
{
    if s.len() == 0 {
        0
    } else {
        sat_add_spec(
            spec_total_bytes(s.drop_last()),
            match s.last().file_info.size {
                Some(x) => x,
                None => 0,
            },
        )
    }
}

/// Sum of the bytes downloaded so far, saturating.
pub open spec fn spec_downloaded_bytes(s: Seq<FileDownloadStatus>) -> u64
    decreases s.len(),
{
    if s.len() == 0 {
        0
    } else {
        sat_add_spec(spec_downloaded_bytes(s.drop_last()), s.last().bytes_downloaded)
    }
}

impl DownloadSession {
    /// Folds one file's engine outcome into the session: the named entry
    /// takes the state, byte count, failure count, latest error and server,
    /// and the update stamp moves; a name the session does not know leaves
    /// it unchanged.
    pub fn absorb_outcome(
        &mut self,
        file_name: &str,
        state: DownloadState,
        bytes: u64,
        attempts: u32,
        error: &Option<String>,
        server: &Option<String>,
        now: u64,
    )
        ensures
            match spec_find_status(old(self).file_status@, file_name@) {
                Some(k) => {
                    &&& final(self).file_status@ == old(self).file_status@.update(
                        k,
                        FileDownloadStatus {
                            status: state,
                            bytes_downloaded: bytes,
                            retry_count: attempts,
                            error_message: final(self).file_status@[k].error_message,
                            server_used: final(self).file_status@[k].server_used,
                            ..old(self).file_status@[k]
                        },
                    )
                    &&& opt_str_view(final(self).file_status@[k].error_message)
                        == opt_str_view(*error)
                    &&& opt_str_view(final(self).file_status@[k].server_used)
                        == opt_str_view(*server)
                    &&& final(self).last_updated == now
                    &&& *final(self) == DownloadSession {
                        file_status: final(self).file_status,
                        last_updated: final(self).last_updated,
                        ..*old(self)
                    }
                },
                None => *final(self) == *old(self),
            },
    {
        let found = find_status_index(&self.file_status, file_name);
        match found {
            Some(k) => {
                let entry = FileDownloadStatus {
                    status: state,
                    bytes_downloaded: bytes,
                    retry_count: attempts,
                    file_info: self.file_status[k].file_info.duplicate(),
                    started_at: self.file_status[k].started_at,
                    completed_at: self.file_status[k].completed_at,
                    error_message: clone_opt_string(error),
                    server_used: clone_opt_string(server),
                    local_path: self.file_status[k].local_path.clone(),
                };
                self.file_status.set(k, entry);
                self.last_updated = now;
            },
            None => {},
        }
    }

    /// The bytes credited to completed files: the saturating sum of their
    /// known sizes, per `spec_completed_bytes`.
    pub fn completed_bytes(&self) -> (r: u64)
        ensures
            r == spec_completed_bytes(self.file_status@),
    {
        let mut total: u64 = 0;
        let mut i: usize = 0;
        while i < self.file_status.len()
            invariant
                i <= self.file_status@.len(),
                total == spec_completed_bytes(self.file_status@.subrange(0, i as int)),
            decreases self.file_status@.len() - i,
        {
            let st = &self.file_status[i];
            let credit: u64 = match st.status {
                DownloadState::Completed => {
                    match st.file_info.size {
                        Some(x) => x,
                        None => 0,
                    }
                },
                _ => 0,
            };
            total = sat_add(total, credit);
            i = i + 1;
            proof {
                let fs = self.file_status@;
                assert(fs.subrange(0, i as int).drop_last() =~= fs.subrange(0, i - 1));
                assert(fs.subrange(0, i as int).last() == fs[i - 1]);
            }
        }
        proof {
            assert(self.file_status@.subrange(0, self.file_status@.len() as int)
                =~= self.file_status@);
        }
        total
    }
}

/// Saturating sum of the known sizes of completed files: the bytes a run
/// can credit itself with.
pub open spec fn spec_completed_bytes(s: Seq<FileDownloadStatus>) -> u64
    decreases s.len(),
{
    if s.len() == 0 {
        0
    } else {
        sat_add_spec(
            spec_completed_bytes(s.drop_last()),
            if s.last().status == DownloadState::Completed {
                match s.last().file_info.size {
                    Some(x) => x,
                    None => 0,
                }
            } else {
                0
            },
        )
    }
}

/// Progress summary over a session.
#[derive(Debug)]
pub struct DownloadProgress {
    /// Number of files in the plan.
    pub total_files: usize,
    /// Files completed.
    pub completed_files: usize,
    /// Files failed.
    pub failed_files: usize,
    /// Files currently in progress.
    pub in_progress_files: usize,
    /// Sum of the known file sizes.
    pub total_bytes: u64,
    /// Bytes downloaded over all files.
    pub downloaded_bytes: u64,
}

/// The session file name for an identifier and a creation time:
/// `ia-get-session-<identifier>-<epoch>.json`.
pub fn generate_session_filename(identifier: &str, now: u64) -> (r: String)
    ensures
        r@ == "ia-get-session-"@ + identifier@ + "-"@ + dec_digits(now as nat) + ".json"@,
{
    let mut v = str_to_chars("ia-get-session-");
    let idc = str_to_chars(identifier);
    let dash = str_to_chars("-");
    let suffix = str_to_chars(".json");
    let v2 = concat_chars(&v, &idc);
    let v3 = concat_chars(&v2, &dash);
    let mut v4 = concat_chars(&v3, &Vec::new());
    push_dec(&mut v4, now);
    let v5 = concat_chars(&v4, &suffix);
    proof {
        assert(v5@ =~= "ia-get-session-"@ + identifier@ + "-"@ + dec_digits(now as nat)
            + ".json"@);
    }
    chars_to_string(&v5)
}

/// One directory entry a session directory listing hands the library.
#[derive(Debug, Clone)]
pub struct SessionFileEntry {
    /// Plain file name inside the session directory.
    pub name: String,
    /// Modification time, seconds since the Unix epoch.
    pub mtime: u64,
}

/// A name that belongs to the identifier's sessions:
/// `ia-get-session-<identifier>-*.json`.
pub open spec fn is_session_name(name: Seq<char>, identifier: Seq<char>) -> bool {
    starts_with(name, "ia-get-session-"@ + identifier + "-"@) && ends_with(name, ".json"@)
}

/// The index of the newest matching session entry: largest mtime; among
/// equals, the last listed.
pub open spec fn spec_latest_session(s: Seq<SessionFileEntry>, identifier: Seq<char>) -> int
    decreases s.len(),
{
    if s.len() == 0 {
        -1
    } else {
        let rest = spec_latest_session(s.drop_last(), identifier);
        if is_session_name(s.last().name@, identifier) && (rest == -1 || s.last().mtime
            >= s[rest].mtime) {
            s.len() - 1
        } else {
            rest
        }
    }
}

/// Picks the most recently modified session file for the identifier from a
/// directory listing; among equal times the last listed wins. Entries whose
/// names do not carry the session prefix and `.json` suffix are ignored.
pub fn find_latest_session_file(identifier: &str, entries: &Vec<SessionFileEntry>) -> (r: Option<
    String,
>)
    ensures
        match r {
            Some(name) => {
                &&& spec_latest_session(entries@, identifier@) >= 0
                &&& name@ == entries@[spec_latest_session(entries@, identifier@)].name@
            },
            None => spec_latest_session(entries@, identifier@) == -1,
        },
{
    let idc = str_to_chars(identifier);
    let prefix0 = str_to_chars("ia-get-session-");
    let dash = str_to_chars("-");
    let p1 = concat_chars(&prefix0, &idc);
    let prefix = concat_chars(&p1, &dash);
    let suffix = str_to_chars(".json");
    let mut best: Option<usize> = None;
    let mut i: usize = 0;
    while i < entries.len()
        invariant
            i <= entries.len(),
            prefix@ == "ia-get-session-"@ + identifier@ + "-"@,
            suffix@ == ".json"@,
            match best {
                Some(b) => b < i && b as int == spec_latest_session(
                    entries@.subrange(0, i as int),
                    identifier@,
                ),
                None => spec_latest_session(entries@.subrange(0, i as int), identifier@) == -1,
            },
        decreases entries.len() - i,
    {
        let name_chars = str_to_chars(entries[i].name.as_str());
        let matches = starts_with_exec(&name_chars, &prefix) && ends_with_exec(
            &name_chars,
            &suffix,
        );
        let take = if matches {
            match best {
                Some(b) => entries[i].mtime >= entries[b].mtime,
                None => true,
            }
        } else {
            false
        };
        if take {
            best = Some(i);
        }
        i = i + 1;
        proof {
            let es = entries@;
            assert(es.subrange(0, i as int).drop_last() =~= es.subrange(0, i - 1));
            assert(es.subrange(0, i as int).last() == es[i - 1]);
        }
    }
    proof {
        assert(entries@.subrange(0, entries@.len() as int) =~= entries@);
    }
    match best {
        Some(b) => Some(entries[b].name.clone()),
        None => None,
    }
}

/// A completed claim the disk confirms: the digest check passed and, when
/// the size is known, both the probe and the recorded bytes equal it.
pub open spec fn spec_claim_sound(
    st: FileDownloadStatus,
    len: Option<u64>,
    digest_ok: bool,
) -> bool {
    digest_ok && (match st.file_info.size {
        Some(sz) => len == Some(sz) && st.bytes_downloaded == sz,
        None => true,
    })
}

/// Every completed entry's recorded size is exactly what the disk holds.
pub open spec fn spec_completed_match(
    s: Seq<FileDownloadStatus>,
    lens: Seq<Option<u64>>,
    digests_ok: Seq<bool>,
) -> bool {
    forall|k: int|
        0 <= k < s.len() ==> ((#[trigger] s[k]).status == DownloadState::Completed ==> ((
        match s[k].file_info.size {
            Some(sz) => lens[k] == Some(sz) && s[k].bytes_downloaded == sz,
            None => true,
        }) && digests_ok[k]))
}

impl DownloadSession {
    /// Reconciles a reloaded session with the disk: a file recorded as
    /// `Completed` keeps that state only when a local file of exactly the
    /// recorded size exists and its digest is acceptable; every other
    /// completed claim is demoted to `Pending` with no bytes, so the next
    /// run fetches it again; a sound completed claim stays untouched, so a
    /// second run fetches nothing for it. Afterwards every `Completed`
    /// file's recorded size equals the probed local length.
    pub fn reconcile_with_disk(
        &mut self,
        local_lens: &Vec<Option<u64>>,
        digests_ok: &Vec<bool>,
        now: u64,
    )
        requires
            local_lens@.len() == old(self).file_status@.len(),
            digests_ok@.len() == old(self).file_status@.len(),
        ensures
            final(self).file_status@.len() == old(self).file_status@.len(),
            spec_completed_match(final(self).file_status@, local_lens@, digests_ok@),
            forall|k: int|
                0 <= k < old(self).file_status@.len() ==> ((#[trigger] final(self).file_status@[k])
                    == old(self).file_status@[k] || (final(self).file_status@[k]
                    == FileDownloadStatus {
                    status: DownloadState::Pending,
                    bytes_downloaded: 0,
                    ..old(self).file_status@[k]
                } && old(self).file_status@[k].status == DownloadState::Completed)),
            forall|k: int|
                0 <= k < old(self).file_status@.len() ==> (spec_claim_sound(
                    #[trigger] old(self).file_status@[k],
                    local_lens@[k],
                    digests_ok@[k],
                ) ==> final(self).file_status@[k] == old(self).file_status@[k]),
            final(self).version == old(self).version,
            final(self).identifier == old(self).identifier,
            final(self).requested_files == old(self).requested_files,
            final(self).last_updated == now,
    {
        let n = self.file_status.len();
        let mut k: usize = 0;
        while k < n
            invariant
                k <= n,
                n == self.file_status@.len(),
                local_lens@.len() == n,
                digests_ok@.len() == n,
                self.file_status@.len() == old(self).file_status@.len(),
                self.version == old(self).version,
                self.identifier == old(self).identifier,
                self.requested_files == old(self).requested_files,
                self.last_updated == old(self).last_updated,
                forall|j: int|
                    0 <= j < k ==> ((#[trigger] self.file_status@[j]).status
                        == DownloadState::Completed ==> ((match self.file_status@[
                    j].file_info.size {
                        Some(sz) => local_lens@[j] == Some(sz) && self.file_status@[
                        j].bytes_downloaded == sz,
                        None => true,
                    }) && digests_ok@[j])),
                forall|j: int|
                    0 <= j < n ==> ((#[trigger] self.file_status@[j])
                        == old(self).file_status@[j] || (self.file_status@[j]
                        == FileDownloadStatus {
                        status: DownloadState::Pending,
                        bytes_downloaded: 0,
                        ..old(self).file_status@[j]
                    } && old(self).file_status@[j].status == DownloadState::Completed)),
                forall|j: int|
                    0 <= j < k ==> (spec_claim_sound(
                        #[trigger] old(self).file_status@[j],
                        local_lens@[j],
                        digests_ok@[j],
                    ) ==> self.file_status@[j] == old(self).file_status@[j]),
                forall|j: int|
                    k <= j < n ==> (#[trigger] self.file_status@[j])
                        == old(self).file_status@[j],
            decreases n - k,
        {
            let is_completed = match self.file_status[k].status {
                DownloadState::Completed => true,
                _ => false,
            };
            if is_completed {
                let sound = digests_ok[k] && (match self.file_status[k].file_info.size {
                    Some(sz) => {
                        let len_ok = match local_lens[k] {
                            Some(l) => l == sz,
                            None => false,
                        };
                        len_ok && self.file_status[k].bytes_downloaded == sz
                    },
                    None => true,
                });
                if !sound {
                    let ghost prev = self.file_status@;
                    let entry = FileDownloadStatus {
                        status: DownloadState::Pending,
                        bytes_downloaded: 0,
                        file_info: self.file_status[k].file_info.duplicate(),
                        started_at: self.file_status[k].started_at,
                        completed_at: self.file_status[k].completed_at,
                        error_message: clone_opt_string(&self.file_status[k].error_message),
                        retry_count: self.file_status[k].retry_count,
                        server_used: clone_opt_string(&self.file_status[k].server_used),
                        local_path: self.file_status[k].local_path.clone(),
                    };
                    proof {
                        assert(entry == FileDownloadStatus {
                            status: DownloadState::Pending,
                            bytes_downloaded: 0,
                            ..prev[k as int]
                        });
                    }
                    self.file_status.set(k, entry);
                }
            }
            k = k + 1;
        }
        self.last_updated = now;
    }
}

} // verus!
