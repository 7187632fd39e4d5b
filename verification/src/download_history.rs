//! Download history: records of past runs, kept newest first.
//!
//! The manager owns the database in memory; reading it from disk and writing
//! it back is the shell's business.

use vstd::prelude::*;
use crate::error::IaGetError;
use crate::metadata_storage::{clone_opt_string, sat_add, sat_add_spec, DownloadConfig};
use crate::strutil::{concat_chars, chars_to_string, dec_digits, push_dec, str_to_chars, str_eq};

verus! {

/// Status of one recorded download run.
#[derive(Debug, Clone, Copy, PartialEq, Eq, Structural)]
pub enum DownloadStatus {
    /// Still running.
    InProgress,
    /// All files downloaded.
    Success,
    /// Finished with some failures.
    PartialSuccess,
    /// Failed completely.
    Failed,
    /// Cancelled by the user.
    Cancelled,
}

/// One recorded download run.
#[derive(Debug, Clone)]
pub struct DownloadRecord {
    /// Unique identifier of this record.
    pub id: String,
    /// Archive identifier.
    pub archive_identifier: String,
    /// URL the run was started with.
    pub original_url: String,
    /// Outcome so far.
    pub status: DownloadStatus,
    /// When the run started, seconds since the Unix epoch.
    pub started_at: u64,
    /// When the run finished, when it did.
    pub completed_at: Option<u64>,
    /// Files the plan asked for.
    pub total_files: usize,
    /// Files downloaded.
    pub completed_files: usize,
    /// Files that failed.
    pub failed_files: usize,
    /// Bytes downloaded.
    pub bytes_downloaded: u64,
    /// Options of the run.
    pub settings: DownloadConfig,
    /// The error that ended the run, if one did.
    pub error_message: Option<String>,
    /// Names of failed files, capped by the writer.
    pub failed_file_list: Vec<String>,
}

/// The abstract value of a download configuration: every field as its view.
pub ghost struct ConfigView {
    /// Output directory.
    pub output_dir: Seq<char>,
    /// Maximum concurrent downloads.
    pub max_concurrent: u32,
    /// Format filters.
    pub format_filters: Seq<Seq<char>>,
    /// Minimum size bound.
    pub min_size: Option<u64>,
    /// Maximum size bound.
    pub max_size: Option<u64>,
    /// Digest verification flag.
    pub verify_md5: bool,
    /// Modification time preservation flag.
    pub preserve_mtime: bool,
    /// User agent.
    pub user_agent: Seq<char>,
    /// HTTP compression flag.
    pub enable_compression: bool,
    /// Decompression flag.
    pub auto_decompress: bool,
    /// Formats decompressed automatically.
    pub decompress_formats: Seq<Seq<char>>,
}

/// The abstract value of a configuration.
pub open spec fn config_view(c: DownloadConfig) -> ConfigView {
    ConfigView {
        output_dir: c.output_dir@,
        max_concurrent: c.max_concurrent,
        format_filters: c.format_filters.deep_view(),
        min_size: c.min_size,
        max_size: c.max_size,
        verify_md5: c.verify_md5,
        preserve_mtime: c.preserve_mtime,
        user_agent: c.user_agent@,
        enable_compression: c.enable_compression,
        auto_decompress: c.auto_decompress,
        decompress_formats: c.decompress_formats.deep_view(),
    }
}

/// The abstract value of a download record: every field as its view.
pub ghost struct RecordView {
    /// Record id.
    pub id: Seq<char>,
    /// Archive identifier.
    pub archive_identifier: Seq<char>,
    /// Original URL.
    pub original_url: Seq<char>,
    /// Outcome.
    pub status: DownloadStatus,
    /// Start time.
    pub started_at: u64,
    /// Completion time.
    pub completed_at: Option<u64>,
    /// Planned files.
    pub total_files: usize,
    /// Completed files.
    pub completed_files: usize,
    /// Failed files.
    pub failed_files: usize,
    /// Bytes downloaded.
    pub bytes_downloaded: u64,
    /// Options of the run.
    pub settings: ConfigView,
    /// Final error.
    pub error_message: Option<Seq<char>>,
    /// Failed file names.
    pub failed_file_list: Seq<Seq<char>>,
}

/// The abstract value of a record.
pub open spec fn rec_view(r: DownloadRecord) -> RecordView {
    RecordView {
        id: r.id@,
        archive_identifier: r.archive_identifier@,
        original_url: r.original_url@,
        status: r.status,
        started_at: r.started_at,
        completed_at: r.completed_at,
        total_files: r.total_files,
        completed_files: r.completed_files,
        failed_files: r.failed_files,
        bytes_downloaded: r.bytes_downloaded,
        settings: config_view(r.settings),
        error_message: crate::metadata_storage::opt_str_view(r.error_message),
        failed_file_list: r.failed_file_list.deep_view(),
    }
}

/// Copies a string vector.
pub fn clone_string_vec(v: &Vec<String>) -> (r: Vec<String>)
    ensures
        r@ == v@,
{
    let mut r: Vec<String> = Vec::new();
    let mut i: usize = 0;
    while i < v.len()
        invariant
            i <= v.len(),
            r@ == v@.subrange(0, i as int),
        decreases v.len() - i,
    {
        r.push(v[i].clone());
        i = i + 1;
        proof {
            assert(r@ =~= v@.subrange(0, i as int));
        }
    }
    proof {
        assert(r@ =~= v@);
    }
    r
}

impl DownloadConfig {
    /// A copy of the options whose abstract value is unchanged.
    pub fn duplicate(&self) -> (r: DownloadConfig)
        ensures
            config_view(r) == config_view(*self),
    {
        DownloadConfig {
            output_dir: self.output_dir.clone(),
            max_concurrent: self.max_concurrent,
            format_filters: clone_string_vec(&self.format_filters),
            min_size: self.min_size,
            max_size: self.max_size,
            verify_md5: self.verify_md5,
            preserve_mtime: self.preserve_mtime,
            user_agent: self.user_agent.clone(),
            enable_compression: self.enable_compression,
            auto_decompress: self.auto_decompress,
            decompress_formats: clone_string_vec(&self.decompress_formats),
        }
    }
}

impl DownloadRecord {
    /// A copy of the record whose abstract value is unchanged.
    pub fn duplicate(&self) -> (r: DownloadRecord)
        ensures
            rec_view(r) == rec_view(*self),
    {
        DownloadRecord {
            id: self.id.clone(),
            archive_identifier: self.archive_identifier.clone(),
            original_url: self.original_url.clone(),
            status: self.status,
            started_at: self.started_at,
            completed_at: self.completed_at,
            total_files: self.total_files,
            completed_files: self.completed_files,
            failed_files: self.failed_files,
            bytes_downloaded: self.bytes_downloaded,
            settings: self.settings.duplicate(),
            error_message: clone_opt_string(&self.error_message),
            failed_file_list: clone_string_vec(&self.failed_file_list),
        }
    }
}

/// The whole download history.
#[derive(Debug, Clone)]
pub struct DownloadDatabase {
    /// Version of the database format.
    pub version: String,
    /// When the database was created.
    pub created_at: u64,
    /// When the database was last updated.
    pub last_updated: u64,
    /// All records; ids are unique.
    pub records: Vec<DownloadRecord>,
}

impl DownloadDatabase {
    /// Every record bears a distinct id.
    pub open spec fn ids_distinct(self) -> bool {
        forall|i: int, j: int|
            0 <= i < j < self.records@.len() ==> (#[trigger] self.records@[i]).id@ != (
            #[trigger] self.records@[j]).id@
    }

    /// An empty database stamped with the given time.
    pub fn new(now: u64) -> (r: DownloadDatabase)
        ensures
            r.version@ == "1.0"@,
            r.created_at == now,
            r.last_updated == now,
            r.records@.len() == 0,
            r.ids_distinct(),
    {
        DownloadDatabase {
            version: String::from_str("1.0"),
            created_at: now,
            last_updated: now,
            records: Vec::new(),
        }
    }
}

/// The first record position bearing the id, or the length.
pub open spec fn spec_record_index(s: Seq<DownloadRecord>, id: Seq<char>, i: int) -> int
    recommends
        0 <= i <= s.len(),
    decreases s.len() - i,
{
    if i < 0 || i >= s.len() {
        s.len() as int
    } else if s[i].id@ == id {
        i
    } else {
        spec_record_index(s, id, i + 1)
    }
}

/// Finds the first record bearing the id, per `spec_record_index`.
fn find_record_index(records: &Vec<DownloadRecord>, id: &str) -> (r: usize)
    ensures
        r as int == spec_record_index(records@, id@, 0),
        r <= records.len(),
        r < records.len() ==> records@[r as int].id@ == id@,
{
    let mut i: usize = 0;
    while i < records.len() && !str_eq(records[i].id.as_str(), id)
        invariant
            i <= records.len(),
            spec_record_index(records@, id@, 0) == spec_record_index(records@, id@, i as int),
        decreases records.len() - i,
    {
        i = i + 1;
    }
    i
}

/// The records kept by the status filter, in order.
pub open spec fn spec_filter_status(
    s: Seq<DownloadRecord>,
    filter: Option<DownloadStatus>,
) -> Seq<DownloadRecord>
    decreases s.len(),
{
    if s.len() == 0 {
        Seq::empty()
    } else {
        let rest = spec_filter_status(s.drop_last(), filter);
        let keep = match filter {
            Some(st) => s.last().status == st,
            None => true,
        };
        if keep {
            rest.push(s.last())
        } else {
            rest
        }
    }
}

/// Sorted newest first by start time.
pub open spec fn spec_sorted_desc(s: Seq<DownloadRecord>) -> bool {
    forall|i: int, j: int| 0 <= i < j < s.len() ==> s[i].started_at >= s[j].started_at
}

/// The records younger than the cutoff, in order.
pub open spec fn spec_retain_recent(s: Seq<DownloadRecord>, cutoff: u64) -> Seq<DownloadRecord>
    decreases s.len(),
{
    if s.len() == 0 {
        Seq::empty()
    } else {
        let rest = spec_retain_recent(s.drop_last(), cutoff);
        if s.last().started_at > cutoff {
            rest.push(s.last())
        } else {
            rest
        }
    }
}

/// Retaining distributes over prepending one record.
proof fn lemma_retain_prepend(x: DownloadRecord, s: Seq<DownloadRecord>, cutoff: u64)
    ensures
        spec_retain_recent(seq![x] + s, cutoff) == if x.started_at > cutoff {
            seq![x] + spec_retain_recent(s, cutoff)
        } else {
            spec_retain_recent(s, cutoff)
        },
    decreases s.len(),
{
    if s.len() == 0 {
        assert((seq![x] + s) =~= seq![x]);
        let e = seq![x].drop_last();
        assert(e.len() == 0);
        assert(spec_retain_recent(e, cutoff) == Seq::<DownloadRecord>::empty());
        assert(seq![x].last() == x);
        assert(spec_retain_recent(s, cutoff) == Seq::<DownloadRecord>::empty());
        if x.started_at > cutoff {
            assert(spec_retain_recent(seq![x], cutoff) == Seq::<
                DownloadRecord,
            >::empty().push(x));
            assert(Seq::<DownloadRecord>::empty().push(x) =~= seq![x] + spec_retain_recent(
                s,
                cutoff,
            ));
        }
    } else {
        lemma_retain_prepend(x, s.drop_last(), cutoff);
        assert((seq![x] + s).drop_last() =~= seq![x] + s.drop_last());
        assert((seq![x] + s).last() == s.last());
        if x.started_at > cutoff {
            if s.last().started_at > cutoff {
                assert(spec_retain_recent(seq![x] + s, cutoff) =~= seq![x]
                    + spec_retain_recent(s, cutoff));
            } else {
                assert(spec_retain_recent(seq![x] + s, cutoff) =~= seq![x]
                    + spec_retain_recent(s, cutoff));
            }
        }
    }
}

/// Retaining never grows the list.
proof fn lemma_retain_shorter(s: Seq<DownloadRecord>, cutoff: u64)
    ensures
        spec_retain_recent(s, cutoff).len() <= s.len(),
    decreases s.len(),
{
    if s.len() > 0 {
        lemma_retain_shorter(s.drop_last(), cutoff);
    }
}

/// Manages the download history database. The shell persists it; all record
/// logic lives here.
#[derive(Debug)]
pub struct DownloadHistoryManager {
    /// Path of the database file.
    pub db_file: String,
    /// The database held in memory.
    pub database: DownloadDatabase,
}

impl DownloadHistoryManager {
    /// A manager whose database file lives under the given configuration
    /// directory, holding an empty database stamped with the given time.
    pub fn new(config_dir: &str, now: u64) -> (r: Result<DownloadHistoryManager, IaGetError>)
        ensures
            r matches Ok(m) && m.db_file@ == config_dir@ + "/ia-get-db.json"@
                && m.database.created_at == now && m.database.records@.len() == 0
                && m.database.ids_distinct(),
    {
        let d = str_to_chars(config_dir);
        let f = str_to_chars("/ia-get-db.json");
        let w = concat_chars(&d, &f);
        Ok(
            DownloadHistoryManager {
                db_file: chars_to_string(&w),
                database: DownloadDatabase::new(now),
            },
        )
    }

    /// The path of the database file.
    pub fn get_database_path(&self) -> (r: &String)
        ensures
            r == &self.db_file,
    {
        &self.db_file
    }

    /// Adds a record, replacing any record bearing the same id, and stamps
    /// the database with the given time.
    pub fn add_download_record(&mut self, record: DownloadRecord, now: u64) -> (r: Result<
        (),
        IaGetError,
    >)
        ensures
            r is Ok,
            final(self).db_file == old(self).db_file,
            final(self).database.version == old(self).database.version,
            final(self).database.created_at == old(self).database.created_at,
            final(self).database.last_updated == now,
            ({
                let idx = spec_record_index(old(self).database.records@, record.id@, 0);
                if idx < old(self).database.records@.len() {
                    final(self).database.records@ == old(self).database.records@.update(
                        idx,
                        record,
                    )
                } else {
                    final(self).database.records@ == old(self).database.records@.push(record)
                }
            }),
            old(self).database.ids_distinct() ==> final(self).database.ids_distinct(),
    {
        let idx = find_record_index(&self.database.records, record.id.as_str());
        let ghost old_records = self.database.records@;
        let ghost rec = record;
        if idx < self.database.records.len() {
            self.database.records.set(idx, record);
        } else {
            self.database.records.push(record);
        }
        self.database.last_updated = now;
        proof {
            if old(self).database.ids_distinct() {
                let s = final(self).database.records@;
                assert forall|i: int, j: int| 0 <= i < j < s.len() implies (
                #[trigger] s[i]).id@ != (#[trigger] s[j]).id@ by {
                    let idx0 = spec_record_index(old_records, rec.id@, 0);
                    lemma_record_index_first(old_records, rec.id@, 0);
                    if i != idx0 && j != idx0 {
                        assert(s[i] == old_records[i] && s[j] == old_records[j]);
                    }
                }
            }
        }
        Ok(())
    }

    /// Updates a record; same contract as adding, as both store by id.
    pub fn update_download_record(&mut self, record: DownloadRecord, now: u64) -> (r: Result<
        (),
        IaGetError,
    >)
        ensures
            r is Ok,
            final(self).db_file == old(self).db_file,
            final(self).database.version == old(self).database.version,
            final(self).database.created_at == old(self).database.created_at,
            final(self).database.last_updated == now,
            ({
                let idx = spec_record_index(old(self).database.records@, record.id@, 0);
                if idx < old(self).database.records@.len() {
                    final(self).database.records@ == old(self).database.records@.update(
                        idx,
                        record,
                    )
                } else {
                    final(self).database.records@ == old(self).database.records@.push(record)
                }
            }),
            old(self).database.ids_distinct() ==> final(self).database.ids_distinct(),
    {
        self.add_download_record(record, now)
    }

    /// The record bearing the id, when the database holds one.
    pub fn get_download_record(&self, id: &str) -> (r: Result<Option<DownloadRecord>, IaGetError>)
        ensures
            r matches Ok(o) && (match o {
                Some(rec) => {
                    let idx = spec_record_index(self.database.records@, id@, 0);
                    idx < self.database.records@.len() && rec_view(rec) == rec_view(
                        self.database.records@[idx],
                    )
                },
                None => spec_record_index(self.database.records@, id@, 0)
                    == self.database.records@.len(),
            }),
    {
        let idx = find_record_index(&self.database.records, id);
        if idx < self.database.records.len() {
            Ok(Some(self.database.records[idx].duplicate()))
        } else {
            Ok(None)
        }
    }

    /// The records passing the status filter, sorted newest first by start
    /// time.
    pub fn get_download_records(&self, status_filter: Option<DownloadStatus>) -> (r: Result<
        Vec<DownloadRecord>,
        IaGetError,
    >)
        ensures
            r matches Ok(v) && spec_sorted_desc(v@) && v@.map_values(
                |x: DownloadRecord| rec_view(x),
            ).to_multiset() == spec_filter_status(self.database.records@, status_filter)
                .map_values(|x: DownloadRecord| rec_view(x)).to_multiset(),
    {
        let mut out: Vec<DownloadRecord> = Vec::new();
        let mut i: usize = 0;
        while i < self.database.records.len()
            invariant
                i <= self.database.records@.len(),
                spec_sorted_desc(out@),
                out@.map_values(|x: DownloadRecord| rec_view(x)).to_multiset()
                    == spec_filter_status(
                    self.database.records@.subrange(0, i as int),
                    status_filter,
                ).map_values(|x: DownloadRecord| rec_view(x)).to_multiset(),
            decreases self.database.records@.len() - i,
        {
            let rec = &self.database.records[i];
            let keep = match &status_filter {
                None => true,
                Some(f) => *f == rec.status,
            };
            let ghost prev = out@;
            if keep {
                // insert before the first strictly older record
                let mut pos: usize = 0;
                while pos < out.len() && out[pos].started_at >= rec.started_at
                    invariant
                        pos <= out@.len(),
                        forall|k: int|
                            0 <= k < pos ==> (#[trigger] out@[k]).started_at
                                >= rec.started_at,
                    decreases out@.len() - pos,
                {
                    pos = pos + 1;
                }
                let copy = rec.duplicate();
                let ghost cv = copy;
                out.insert(pos, copy);
                proof {
                    let orig = self.database.records@[i as int];
                    let f = |x: DownloadRecord| rec_view(x);
                    assert(out@ == prev.insert(pos as int, cv));
                    assert(cv.started_at == orig.started_at);
                    assert(spec_sorted_desc(out@)) by {
                        assert(forall|k: int|
                            0 <= k < pos ==> out@[k] == #[trigger] prev[k]);
                        assert(forall|k: int|
                            pos < k < out@.len() ==> out@[k] == #[trigger] prev[k - 1]);
                        assert(out@[pos as int] == cv);
                        assert(pos < prev.len() ==> prev[pos as int].started_at
                            < rec.started_at);
                    }
                    assert(out@.map_values(f) =~= prev.map_values(f).insert(
                        pos as int,
                        rec_view(orig),
                    ));
                    vstd::seq_lib::to_multiset_insert(
                        prev.map_values(f),
                        pos as int,
                        rec_view(orig),
                    );
                }
            }
            i = i + 1;
            proof {
                let s = self.database.records@;
                assert(s.subrange(0, i as int).drop_last() =~= s.subrange(0, i - 1));
                assert(s.subrange(0, i as int).last() == s[i - 1]);
                let f = |x: DownloadRecord| rec_view(x);
                if keep {
                    assert(spec_filter_status(s.subrange(0, i as int), status_filter)
                        .map_values(f).to_multiset() =~= spec_filter_status(
                        s.subrange(0, i - 1),
                        status_filter,
                    ).map_values(f).to_multiset().insert(rec_view(s[i - 1]))) by {
                        assert(spec_filter_status(s.subrange(0, i as int), status_filter)
                            == spec_filter_status(s.subrange(0, i - 1), status_filter).push(
                            s[i - 1],
                        ));
                        assert(spec_filter_status(s.subrange(0, i as int), status_filter)
                            .map_values(f) =~= spec_filter_status(s.subrange(0, i - 1),
                            status_filter).map_values(f).push(rec_view(s[i - 1])));
                        vstd::seq_lib::to_multiset_build(
                            spec_filter_status(s.subrange(0, i - 1), status_filter)
                                .map_values(f),
                            rec_view(s[i - 1]),
                        );
                    }
                } else {
                    assert(spec_filter_status(s.subrange(0, i as int), status_filter)
                        .map_values(f) =~= spec_filter_status(s.subrange(0, i - 1),
                        status_filter).map_values(f));
                }
            }
        }
        proof {
            assert(self.database.records@.subrange(0, self.database.records@.len() as int)
                =~= self.database.records@);
        }
        Ok(out)
    }

    /// The `limit` newest records: the front of the full list, sorted newest
    /// first, holding exactly the records of the database.
    pub fn get_recent_downloads(&self, limit: usize) -> (r: Result<Vec<DownloadRecord>, IaGetError>)
        ensures
            r matches Ok(v) && (exists|full: Seq<DownloadRecord>|
                {
                    &&& #[trigger] spec_sorted_desc(full)
                    &&& full.map_values(|x: DownloadRecord| rec_view(x)).to_multiset()
                        == spec_filter_status(self.database.records@, None).map_values(
                        |x: DownloadRecord| rec_view(x),
                    ).to_multiset()
                    &&& v@ == full.subrange(
                        0,
                        if limit as int <= full.len() {
                            limit as int
                        } else {
                            full.len() as int
                        },
                    )
                }),
    {
        let mut records = match self.get_download_records(None) {
            Ok(v) => v,
            Err(e) => {
                return Err(e);
            },
        };
        let ghost full = records@;
        records.truncate(limit);
        proof {
            if limit as int > full.len() {
                assert(records@ =~= full.subrange(0, full.len() as int));
            }
        }
        Ok(records)
    }

    /// Counts records per status and sums files and bytes; sums saturate.
    pub fn get_statistics(&self) -> (r: Result<DownloadStatistics, IaGetError>)
        ensures
            r matches Ok(st) && st.total_downloads == self.database.records@.len()
                && st.successful_downloads == spec_count_status(
                self.database.records@,
                DownloadStatus::Success,
            ) && st.failed_downloads == spec_count_status(
                self.database.records@,
                DownloadStatus::Failed,
            ) && st.partial_downloads == spec_count_status(
                self.database.records@,
                DownloadStatus::PartialSuccess,
            ) && st.in_progress_downloads == spec_count_status(
                self.database.records@,
                DownloadStatus::InProgress,
            ) && st.total_files_downloaded == spec_sum_files_sat(self.database.records@)
                && st.total_bytes_downloaded == spec_sum_bytes(self.database.records@),
    {
        let mut successful: usize = 0;
        let mut failed: usize = 0;
        let mut partial: usize = 0;
        let mut in_progress: usize = 0;
        let mut total_files: usize = 0;
        let mut total_bytes: u64 = 0;
        let mut i: usize = 0;
        while i < self.database.records.len()
            invariant
                i <= self.database.records@.len(),
                successful == spec_count_status(
                    self.database.records@.subrange(0, i as int),
                    DownloadStatus::Success,
                ),
                failed == spec_count_status(
                    self.database.records@.subrange(0, i as int),
                    DownloadStatus::Failed,
                ),
                partial == spec_count_status(
                    self.database.records@.subrange(0, i as int),
                    DownloadStatus::PartialSuccess,
                ),
                in_progress == spec_count_status(
                    self.database.records@.subrange(0, i as int),
                    DownloadStatus::InProgress,
                ),
                total_files == spec_sum_files_sat(self.database.records@.subrange(0, i as int)),
                total_bytes == spec_sum_bytes(self.database.records@.subrange(0, i as int)),
                successful <= i,
                failed <= i,
                partial <= i,
                in_progress <= i,
            decreases self.database.records@.len() - i,
        {
            let rec = &self.database.records[i];
            match rec.status {
                DownloadStatus::Success => {
                    successful = successful + 1;
                },
                DownloadStatus::Failed => {
                    failed = failed + 1;
                },
                DownloadStatus::PartialSuccess => {
                    partial = partial + 1;
                },
                DownloadStatus::InProgress => {
                    in_progress = in_progress + 1;
                },
                DownloadStatus::Cancelled => {},
            }
            total_files = sat_add_usize(total_files, rec.completed_files);
            total_bytes = sat_add(total_bytes, rec.bytes_downloaded);
            i = i + 1;
            proof {
                let s = self.database.records@;
                assert(s.subrange(0, i as int).drop_last() =~= s.subrange(0, i - 1));
                assert(s.subrange(0, i as int).last() == s[i - 1]);
            }
        }
        proof {
            assert(self.database.records@.subrange(0, self.database.records@.len() as int)
                =~= self.database.records@);
        }
        Ok(
            DownloadStatistics {
                total_downloads: self.database.records.len(),
                successful_downloads: successful,
                failed_downloads: failed,
                partial_downloads: partial,
                in_progress_downloads: in_progress,
                total_files_downloaded: total_files,
                total_bytes_downloaded: total_bytes,
            },
        )
    }

    /// Drops records older than the given number of days before `now` and
    /// says how many went; the stamp moves only when something went.
    pub fn cleanup_old_records(&mut self, days: u32, now: u64) -> (r: Result<usize, IaGetError>)
        ensures
            ({
                let cutoff = if now >= days as u64 * 86400 {
                    (now - days as u64 * 86400) as u64
                } else {
                    0u64
                };
                &&& r matches Ok(n)
                &&& final(self).database.records@ == spec_retain_recent(
                    old(self).database.records@,
                    cutoff,
                )
                &&& n == old(self).database.records@.len()
                    - final(self).database.records@.len()
                &&& final(self).db_file == old(self).db_file
                &&& final(self).database.version == old(self).database.version
                &&& final(self).database.created_at == old(self).database.created_at
                &&& final(self).database.last_updated == (if n > 0 {
                    now
                } else {
                    old(self).database.last_updated
                })
            }),
    {
        let horizon: u64 = (days as u64) * 86400;
        let cutoff: u64 = if now >= horizon {
            now - horizon
        } else {
            0
        };
        let ghost orig = self.database.records@;
        let initial = self.database.records.len();
        let mut i: usize = self.database.records.len();
        proof {
            assert(orig.subrange(i as int, orig.len() as int) =~= Seq::<
                DownloadRecord,
            >::empty());
        }
        while i > 0
            invariant
                i <= orig.len(),
                orig == old(self).database.records@,
                self.database.records@ == orig.subrange(0, i as int) + spec_retain_recent(
                    orig.subrange(i as int, orig.len() as int),
                    cutoff,
                ),
                self.db_file == old(self).db_file,
                self.database.version == old(self).database.version,
                self.database.created_at == old(self).database.created_at,
                self.database.last_updated == old(self).database.last_updated,
            decreases i,
        {
            i = i - 1;
            proof {
                assert(self.database.records@[i as int] == orig[i as int]);
            }
            let ghost before = self.database.records@;
            if self.database.records[i].started_at <= cutoff {
                self.database.records.remove(i);
                proof {
                    assert(self.database.records@ =~= orig.subrange(0, i as int)
                        + spec_retain_recent(
                        orig.subrange(i as int, orig.len() as int),
                        cutoff,
                    )) by {
                        lemma_retain_prepend(
                            orig[i as int],
                            orig.subrange(i + 1, orig.len() as int),
                            cutoff,
                        );
                        assert(orig.subrange(i as int, orig.len() as int) =~= seq![
                            orig[i as int],
                        ] + orig.subrange(i + 1, orig.len() as int));
                        assert(before =~= orig.subrange(0, i + 1) + spec_retain_recent(
                            orig.subrange(i + 1, orig.len() as int),
                            cutoff,
                        ));
                    }
                }
            } else {
                proof {
                    lemma_retain_prepend(
                        orig[i as int],
                        orig.subrange(i + 1, orig.len() as int),
                        cutoff,
                    );
                    assert(orig.subrange(i as int, orig.len() as int) =~= seq![
                        orig[i as int],
                    ] + orig.subrange(i + 1, orig.len() as int));
                    assert(self.database.records@ =~= orig.subrange(0, i as int)
                        + spec_retain_recent(
                        orig.subrange(i as int, orig.len() as int),
                        cutoff,
                    ));
                }
            }
        }
        proof {
            assert(orig.subrange(0, 0) =~= Seq::<DownloadRecord>::empty());
            assert(orig.subrange(0, orig.len() as int) =~= orig);
            assert(self.database.records@ =~= spec_retain_recent(orig, cutoff));
            lemma_retain_shorter(orig, cutoff);
        }
        let removed = initial - self.database.records.len();
        if removed > 0 {
            self.database.last_updated = now;
        }
        Ok(removed)
    }
}

/// The first match is really the first: entries before it bear another id.
proof fn lemma_record_index_first(s: Seq<DownloadRecord>, id: Seq<char>, i: int)
    requires
        0 <= i <= s.len(),
    ensures
        forall|k: int|
            i <= k < spec_record_index(s, id, i) ==> (#[trigger] s[k]).id@ != id,
        i <= spec_record_index(s, id, i) <= s.len(),
    decreases s.len() - i,
{
    if i < s.len() && s[i].id@ != id {
        lemma_record_index_first(s, id, i + 1);
    }
}

/// Saturating addition on counters.
pub open spec fn sat_add_usize_spec(a: usize, b: usize) -> usize {
    if a + b > usize::MAX {
        usize::MAX
    } else {
        (a + b) as usize
    }
}

/// Adds two counters, saturating.
pub fn sat_add_usize(a: usize, b: usize) -> (r: usize)
    ensures
        r == sat_add_usize_spec(a, b),
{
    if a > usize::MAX - b {
        usize::MAX
    } else {
        a + b
    }
}

/// How many records bear the status.
pub open spec fn spec_count_status(s: Seq<DownloadRecord>, st: DownloadStatus) -> nat
    decreases s.len(),
{
    if s.len() == 0 {
        0
    } else {
        spec_count_status(s.drop_last(), st) + if s.last().status == st {
            1nat
        } else {
            0nat
        }
    }
}

/// Saturating sum of completed file counts.
pub open spec fn spec_sum_files_sat(s: Seq<DownloadRecord>) -> usize
    decreases s.len(),
{
    if s.len() == 0 {
        0
    } else {
        sat_add_usize_spec(spec_sum_files_sat(s.drop_last()), s.last().completed_files)
    }
}

/// Saturating sum of downloaded bytes.
pub open spec fn spec_sum_bytes(s: Seq<DownloadRecord>) -> u64
    decreases s.len(),
{
    if s.len() == 0 {
        0
    } else {
        sat_add_spec(spec_sum_bytes(s.drop_last()), s.last().bytes_downloaded)
    }
}

/// Statistics over the download history.
#[derive(Debug)]
pub struct DownloadStatistics {
    /// Number of records.
    pub total_downloads: usize,
    /// Records that succeeded completely.
    pub successful_downloads: usize,
    /// Records that failed completely.
    pub failed_downloads: usize,
    /// Records that finished with some failures.
    pub partial_downloads: usize,
    /// Records still running.
    pub in_progress_downloads: usize,
    /// Files downloaded over all records, saturating.
    pub total_files_downloaded: usize,
    /// Bytes downloaded over all records, saturating.
    pub total_bytes_downloaded: u64,
}

/// The outcome a finished run records: success when nothing failed and the
/// run was not cancelled; cancelled when it was; partial success when some
/// but not all files completed; failed otherwise.
pub fn classify_run(summary: &crate::metadata_storage::DownloadProgress, cancelled: bool) -> (r:
    DownloadStatus)
    ensures
        r == (if summary.failed_files == 0 && !cancelled {
            DownloadStatus::Success
        } else if cancelled {
            DownloadStatus::Cancelled
        } else if summary.completed_files > 0 {
            DownloadStatus::PartialSuccess
        } else {
            DownloadStatus::Failed
        }),
{
    if summary.failed_files == 0 && !cancelled {
        DownloadStatus::Success
    } else if cancelled {
        DownloadStatus::Cancelled
    } else if summary.completed_files > 0 {
        DownloadStatus::PartialSuccess
    } else {
        DownloadStatus::Failed
    }
}

/// A record id: the archive identifier, an underscore, and the time.
pub fn generate_download_id(archive_identifier: &str, now: u64) -> (r: String)
    ensures
        r@ == archive_identifier@ + "_"@ + dec_digits(now as nat),
{
    let idc = str_to_chars(archive_identifier);
    let us = str_to_chars("_");
    let mut w = concat_chars(&idc, &us);
    push_dec(&mut w, now);
    proof {
        assert(w@ =~= archive_identifier@ + "_"@ + dec_digits(now as nat));
    }
    chars_to_string(&w)
}

} // verus!
