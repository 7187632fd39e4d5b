//! The download engine: a bounded-concurrency scheduler over per-file state
//! machines.
//!
//! The engine is the decision core. The shell performs HTTP requests, disk
//! writes and sleeps, and reports what happened; every transition of the
//! per-file state machine happens here, under contract. At most one worker
//! owns a file at a time (a file is owned exactly while it is `InProgress`),
//! the number of owned files never exceeds the plan's concurrency limit, and
//! recorded bytes never exceed a file's known size.

use vstd::prelude::*;
use crate::metadata_storage::{ArchiveFile, DownloadState, clone_opt_string};

verus! {

/// The filtered, ordered set of files to fetch, plus per-run options.
#[derive(Debug, Clone)]
pub struct DownloadPlan {
    /// Files to fetch, in descriptor order.
    pub files: Vec<ArchiveFile>,
    /// Absolute output directory.
    pub output_root: String,
    /// How many workers may run at once; between 1 and 16.
    pub concurrency_limit: usize,
    /// Whether MD5 digests are verified.
    pub verify_md5: bool,
    /// Whether modification times are preserved.
    pub preserve_mtime: bool,
    /// Whether downloads are decompressed afterwards.
    pub enable_decompression: bool,
    /// Compression format tags to decompress.
    pub decompress_formats: Vec<String>,
}

/// Progress events handed to the observer.
#[derive(Debug, Clone, Copy)]
pub enum EngineEvent {
    /// The plan was resolved to this many files.
    PlanResolved { total: usize },
    /// Work on the file at this plan position began.
    FileStart { index: usize, size: Option<u64> },
    /// This many new bytes reached the file's disk copy.
    Bytes { index: usize, delta: u64 },
    /// The file reached a terminal state.
    FileDone { index: usize, outcome: DownloadState },
}

/// How an attempt failed.
#[derive(Debug, Clone, Copy, PartialEq, Eq, Structural)]
pub enum FailureKind {
    /// A transient fault; back off, then retry.
    TransientBackoff,
    /// A transient fault that prefers another mirror.
    TransientMirror,
    /// A permanent fault; the file fails at once.
    Permanent,
    /// Observed bytes disagree with size or digest; discard and retry.
    Integrity,
}

/// Per-file working state.
#[derive(Debug, Clone)]
pub struct FileWork {
    /// Current state.
    pub state: DownloadState,
    /// Bytes of the file on disk.
    pub bytes_on_disk: u64,
    /// Failures so far.
    pub attempts: u32,
    /// The latest failure, if any.
    pub last_error: Option<String>,
    /// The server the current or last attempt used.
    pub server_used: Option<String>,
    /// Position in the mirror list the next attempt uses.
    pub mirror_cursor: usize,
    /// The mirror that last answered with a transient-backoff fault, and
    /// when; it is deprioritised for a minute but not removed.
    pub backoff_mirror: Option<(usize, u64)>,
}

/// The abstract value of a file's working state.
pub ghost struct FileView {
    /// Current state.
    pub state: DownloadState,
    /// Bytes on disk.
    pub bytes_on_disk: u64,
    /// Failures so far.
    pub attempts: u32,
    /// Latest failure.
    pub last_error: Option<Seq<char>>,
    /// Server used.
    pub server_used: Option<Seq<char>>,
    /// Mirror cursor.
    pub mirror_cursor: usize,
    /// Recently backed-off mirror, and when.
    pub backoff_mirror: Option<(usize, u64)>,
}

/// The abstract value of a file's working state.
pub open spec fn work_view(w: FileWork) -> FileView {
    FileView {
        state: w.state,
        bytes_on_disk: w.bytes_on_disk,
        attempts: w.attempts,
        last_error: crate::metadata_storage::opt_str_view(w.last_error),
        server_used: crate::metadata_storage::opt_str_view(w.server_used),
        mirror_cursor: w.mirror_cursor,
        backoff_mirror: w.backoff_mirror,
    }
}

/// How many files are currently owned by a worker.
pub open spec fn count_in_progress(s: Seq<FileWork>) -> nat
    decreases s.len(),
{
    if s.len() == 0 {
        0
    } else {
        count_in_progress(s.drop_last()) + if s.last().state == DownloadState::InProgress {
            1nat
        } else {
            0nat
        }
    }
}

/// Updating one entry changes the count exactly by the entry's contribution.
proof fn lemma_count_update(s: Seq<FileWork>, i: int, x: FileWork)
    requires
        0 <= i < s.len(),
    ensures
        count_in_progress(s.update(i, x)) == count_in_progress(s) - (
            if s[i].state == DownloadState::InProgress {
                1int
            } else {
                0int
            }) + (if x.state == DownloadState::InProgress {
            1int
        } else {
            0int
        }),
    decreases s.len(),
{
    if s.len() > 0 {
        if i == s.len() - 1 {
            assert(s.update(i, x).drop_last() =~= s.drop_last());
        } else {
            assert(s.update(i, x).drop_last() =~= s.drop_last().update(i, x));
            lemma_count_update(s.drop_last(), i, x);
        }
    }
}

/// The count never exceeds the length.
proof fn lemma_count_le_len(s: Seq<FileWork>)
    ensures
        count_in_progress(s) <= s.len(),
    decreases s.len(),
{
    if s.len() > 0 {
        lemma_count_le_len(s.drop_last());
    }
}

/// An entry in progress makes the count positive.
proof fn lemma_count_positive(s: Seq<FileWork>, i: int)
    requires
        0 <= i < s.len(),
        s[i].state == DownloadState::InProgress,
    ensures
        count_in_progress(s) >= 1,
    decreases s.len(),
{
    if i == s.len() - 1 {
    } else {
        lemma_count_positive(s.drop_last(), i);
    }
}

/// The position of the first `Pending` file, or the length when none waits.
pub open spec fn spec_first_pending(s: Seq<FileWork>, i: int) -> int
    recommends
        0 <= i <= s.len(),
    decreases s.len() - i,
{
    if i < 0 || i >= s.len() {
        s.len() as int
    } else if s[i].state == DownloadState::Pending {
        i
    } else {
        spec_first_pending(s, i + 1)
    }
}

/// Entries before the first pending one are not pending.
proof fn lemma_first_pending(s: Seq<FileWork>, i: int)
    requires
        0 <= i <= s.len(),
    ensures
        i <= spec_first_pending(s, i) <= s.len(),
        forall|k: int|
            i <= k < spec_first_pending(s, i) ==> (#[trigger] s[k]).state
                != DownloadState::Pending,
        spec_first_pending(s, i) < s.len() ==> s[spec_first_pending(s, i)].state
            == DownloadState::Pending,
    decreases s.len() - i,
{
    if i < s.len() && s[i].state != DownloadState::Pending {
        lemma_first_pending(s, i + 1);
    }
}

/// The download engine's state.
pub struct Engine {
    /// The plan driven by this engine.
    pub plan: DownloadPlan,
    /// Mirror list: the primary server first, then alternates.
    pub servers: Vec<String>,
    /// Failures allowed per file before it fails; between 1 and 20.
    pub max_retries: u32,
    /// Working state, one entry per planned file.
    pub work: Vec<FileWork>,
    /// How many files are owned by workers right now.
    pub active: usize,
    /// Whether cancellation was signalled.
    pub cancelled: bool,
    /// Whether the plan-resolved event went out.
    pub resolved: bool,
    /// The events emitted so far, oldest first.
    pub events: Vec<EngineEvent>,
}

impl Engine {
    /// The engine invariant: counts agree, bounds hold, and recorded bytes
    /// never exceed a known size; a completed file holds exactly its size.
    pub open spec fn wf(self) -> bool {
        &&& self.work@.len() == self.plan.files@.len()
        &&& 1 <= self.plan.concurrency_limit <= 16
        &&& 1 <= self.max_retries <= 20
        &&& self.servers@.len() >= 1
        &&& self.active == count_in_progress(self.work@)
        &&& self.active <= self.plan.concurrency_limit
        &&& forall|i: int|
            0 <= i < self.work@.len() ==> (match self.plan.files@[i].size {
                Some(sz) => (#[trigger] self.work@[i]).bytes_on_disk <= sz,
                None => true,
            })
        &&& forall|i: int|
            0 <= i < self.work@.len() ==> ((#[trigger] self.work@[i]).state
                == DownloadState::Completed ==> (match self.plan.files@[i].size {
                Some(sz) => self.work@[i].bytes_on_disk == sz,
                None => true,
            }))
        &&& forall|i: int|
            0 <= i < self.work@.len() ==> (#[trigger] self.work@[i]).attempts
                <= self.max_retries
        &&& forall|i: int|
            0 <= i < self.work@.len() ==> (((#[trigger] self.work@[i]).state
                == DownloadState::Pending || self.work@[i].state
                == DownloadState::InProgress || self.work@[i].state
                == DownloadState::Paused) ==> self.work@[i].attempts < self.max_retries)
        &&& forall|i: int|
            0 <= i < self.work@.len() ==> (#[trigger] self.work@[i]).mirror_cursor
                < self.servers@.len()
    }

    /// All files have reached a terminal state.
    pub open spec fn spec_finished(self) -> bool {
        forall|i: int|
            0 <= i < self.work@.len() ==> (#[trigger] self.work@[i]).state.spec_is_terminal()
    }

    /// A new worker may start: not cancelled, a permit is free, and some
    /// file waits in `Pending`.
    pub open spec fn spec_can_start(self) -> bool {
        &&& !self.cancelled
        &&& self.active < self.plan.concurrency_limit
        &&& spec_first_pending(self.work@, 0) < self.work@.len()
    }

    /// A fresh engine over a plan: every file `Pending` with no bytes, no
    /// attempts, no events.
    pub fn new(plan: DownloadPlan, servers: Vec<String>, max_retries: u32) -> (r: Engine)
        requires
            1 <= plan.concurrency_limit <= 16,
            1 <= max_retries <= 20,
            servers@.len() >= 1,
        ensures
            r.wf(),
            r.plan == plan,
            r.servers == servers,
            r.max_retries == max_retries,
            r.active == 0,
            !r.cancelled,
            !r.resolved,
            r.events@.len() == 0,
            r.work@.len() == plan.files@.len(),
            forall|i: int|
                0 <= i < r.work@.len() ==> work_view(#[trigger] r.work@[i]) == spec_fresh_work(),
    {
        let n = plan.files.len();
        let mut work: Vec<FileWork> = Vec::new();
        let mut i: usize = 0;
        while i < n
            invariant
                i <= n,
                work@.len() == i,
                forall|k: int|
                    0 <= k < i ==> work_view(#[trigger] work@[k]) == spec_fresh_work()
                        && work@[k].state == DownloadState::Pending
                        && work@[k].bytes_on_disk == 0 && work@[k].attempts == 0,
                count_in_progress(work@) == 0,
            decreases n - i,
        {
            let ghost prev = work@;
            work.push(
                FileWork {
                    state: DownloadState::Pending,
                    bytes_on_disk: 0,
                    attempts: 0,
                    last_error: None,
                    server_used: None,
                    mirror_cursor: 0,
                    backoff_mirror: None,
                },
            );
            i = i + 1;
            proof {
                assert(work@.drop_last() =~= prev);
            }
        }
        Engine {
            plan,
            servers,
            max_retries,
            work,
            active: 0,
            cancelled: false,
            resolved: false,
            events: Vec::new(),
        }
    }

    /// Emits the plan-resolved event; the first thing a run does.
    pub fn resolve_plan(&mut self)
        requires
            old(self).wf(),
            !old(self).resolved,
        ensures
            final(self).wf(),
            final(self).resolved,
            final(self).events@ == old(self).events@.push(
                EngineEvent::PlanResolved { total: old(self).plan.files@.len() as usize },
            ),
            final(self).work == old(self).work,
            final(self).plan == old(self).plan,
            final(self).servers == old(self).servers,
            final(self).active == old(self).active,
            final(self).cancelled == old(self).cancelled,
            final(self).max_retries == old(self).max_retries,
    {
        let total = self.plan.files.len();
        self.events.push(EngineEvent::PlanResolved { total });
        self.resolved = true;
    }

    /// Whether every file has reached a terminal state.
    pub fn is_finished(&self) -> (r: bool)
        ensures
            r == self.spec_finished(),
    {
        let mut i: usize = 0;
        while i < self.work.len()
            invariant
                i <= self.work@.len(),
                forall|k: int|
                    0 <= k < i ==> (#[trigger] self.work@[k]).state.spec_is_terminal(),
            decreases self.work@.len() - i,
        {
            if !self.work[i].state.is_terminal() {
                return false;
            }
            i = i + 1;
        }
        true
    }

    /// Signals cancellation: no new work is handed out afterwards.
    pub fn cancel(&mut self)
        requires
            old(self).wf(),
        ensures
            final(self).wf(),
            final(self).cancelled,
            !final(self).spec_can_start(),
            final(self).work == old(self).work,
            final(self).events == old(self).events,
            final(self).active == old(self).active,
            final(self).plan == old(self).plan,
    {
        self.cancelled = true;
    }

    /// Hands out the next file: the first `Pending` file, provided the run
    /// is not cancelled and a permit is free. After cancellation no file is
    /// ever handed out again.
    pub fn start_next(&mut self) -> (r: Option<usize>)
        requires
            old(self).wf(),
        ensures
            final(self).wf(),
            final(self).plan == old(self).plan,
            final(self).servers == old(self).servers,
            final(self).cancelled == old(self).cancelled,
            final(self).max_retries == old(self).max_retries,
            match r {
                Some(i) => {
                    &&& old(self).spec_can_start()
                    &&& i as int == spec_first_pending(old(self).work@, 0)
                    &&& old(self).work@[i as int].state == DownloadState::Pending
                    &&& forall|k: int|
                        0 <= k < i ==> (#[trigger] old(self).work@[k]).state
                            != DownloadState::Pending
                    &&& final(self).work@ == old(self).work@.update(
                        i as int,
                        FileWork {
                            state: DownloadState::InProgress,
                            ..old(self).work@[i as int]
                        },
                    )
                    &&& final(self).active == old(self).active + 1
                    &&& final(self).events@ == old(self).events@.push(
                        EngineEvent::FileStart {
                            index: i,
                            size: old(self).plan.files@[i as int].size,
                        },
                    )
                },
                None => {
                    &&& !old(self).spec_can_start()
                    &&& final(self).work == old(self).work
                    &&& final(self).active == old(self).active
                    &&& final(self).events == old(self).events
                },
            },
    {
        if self.cancelled {
            return None;
        }
        if self.active >= self.plan.concurrency_limit {
            return None;
        }
        let mut i: usize = 0;
        while i < self.work.len()
            invariant
                i <= self.work@.len(),
                *self == *old(self),
                old(self).wf(),
                !old(self).cancelled,
                old(self).active < old(self).plan.concurrency_limit,
                spec_first_pending(self.work@, 0) == spec_first_pending(self.work@, i as int),
            decreases self.work@.len() - i,
        {
            let is_pending = match self.work[i].state {
                DownloadState::Pending => true,
                _ => false,
            };
            if is_pending {
                let ghost oldwork = self.work@;
                let entry = FileWork {
                    state: DownloadState::InProgress,
                    bytes_on_disk: self.work[i].bytes_on_disk,
                    attempts: self.work[i].attempts,
                    last_error: clone_opt_string(&self.work[i].last_error),
                    server_used: clone_opt_string(&self.work[i].server_used),
                    mirror_cursor: self.work[i].mirror_cursor,
                    backoff_mirror: self.work[i].backoff_mirror,
                };
                proof {
                    assert(entry == FileWork {
                        state: DownloadState::InProgress,
                        ..oldwork[i as int]
                    });
                }
                self.work.set(i, entry);
                self.active = self.active + 1;
                let size = self.plan.files[i].size;
                self.events.push(EngineEvent::FileStart { index: i, size });
                proof {
                    lemma_count_update(oldwork, i as int, final(self).work@[i as int]);
                    lemma_first_pending(oldwork, 0);
                }
                return Some(i);
            }
            i = i + 1;
        }
        proof {
            lemma_first_pending(self.work@, 0);
        }
        None
    }
}

/// The working state of a file nobody has touched.
pub open spec fn spec_fresh_work() -> FileView {
    FileView {
        state: DownloadState::Pending,
        bytes_on_disk: 0,
        attempts: 0,
        last_error: None,
        server_used: None,
        mirror_cursor: 0,
        backoff_mirror: None,
    }
}


/// What the per-file protocol asks for, given what is on disk.
#[derive(Debug, Clone, Copy, PartialEq, Eq, Structural)]
pub enum RequestDecision {
    /// The local file is already complete: skip without a request.
    SkipExisting,
    /// Ask for the remainder with `Range: bytes=<offset>-`.
    RangeFrom(u64),
    /// Ask for the whole body.
    FullGet,
}

/// The request to make for a file: skip when the local copy already holds
/// the full size and its digest is acceptable, resume when a shorter partial
/// copy exists, fetch in full otherwise.
pub open spec fn spec_decide_request(
    size: Option<u64>,
    local_len: Option<u64>,
    md5_acceptable: bool,
) -> RequestDecision {
    match (size, local_len) {
        (Some(s), Some(l)) => {
            if l == s && md5_acceptable {
                RequestDecision::SkipExisting
            } else if 0 < l < s {
                RequestDecision::RangeFrom(l)
            } else {
                RequestDecision::FullGet
            }
        },
        _ => RequestDecision::FullGet,
    }
}

/// Decides the request for a file, per `spec_decide_request`. The caller
/// supplies the local length from a stat probe and whether the local digest
/// is acceptable (true when digests are not checked).
pub fn decide_request(size: Option<u64>, local_len: Option<u64>, md5_acceptable: bool) -> (r:
    RequestDecision)
    ensures
        r == spec_decide_request(size, local_len, md5_acceptable),
{
    match (size, local_len) {
        (Some(s), Some(l)) => {
            if l == s && md5_acceptable {
                RequestDecision::SkipExisting
            } else if 0 < l && l < s {
                RequestDecision::RangeFrom(l)
            } else {
                RequestDecision::FullGet
            }
        },
        _ => RequestDecision::FullGet,
    }
}

/// What to do with a response.
#[derive(Debug, Clone, Copy, PartialEq, Eq, Structural)]
pub enum ResponseAction {
    /// Stream the body, appending at this offset.
    AppendFrom(u64),
    /// Truncate the local file and stream the body from offset zero.
    StartFromZero,
    /// The local copy already holds the whole file: mark it skipped.
    TreatSkipped,
    /// Discard the partial copy and retry from zero.
    IntegrityRestart,
    /// The attempt failed with this kind.
    Failure(crate::network::StatusClass),
}

/// The action a response status dictates: 200 streams from zero (truncating
/// a partial copy whose resume was refused); 206 appends when the range
/// start matches the requested offset and restarts otherwise; 416 with a
/// local copy of exactly the known size skips, and restarts otherwise; any
/// other status fails with its class.
pub open spec fn spec_on_response(
    decision: RequestDecision,
    status: u16,
    content_range_start: Option<u64>,
    size: Option<u64>,
    local_len: u64,
) -> ResponseAction {
    if status == 200 {
        ResponseAction::StartFromZero
    } else if status == 206 {
        match decision {
            RequestDecision::RangeFrom(o) => {
                if content_range_start == Some(o) {
                    ResponseAction::AppendFrom(o)
                } else {
                    ResponseAction::IntegrityRestart
                }
            },
            _ => ResponseAction::IntegrityRestart,
        }
    } else if status == 416 {
        if size == Some(local_len) {
            ResponseAction::TreatSkipped
        } else {
            ResponseAction::IntegrityRestart
        }
    } else {
        ResponseAction::Failure(crate::network::spec_classify_status(status))
    }
}

/// Decides what to do with a response, per `spec_on_response`.
pub fn on_response(
    decision: RequestDecision,
    status: u16,
    content_range_start: Option<u64>,
    size: Option<u64>,
    local_len: u64,
) -> (r: ResponseAction)
    ensures
        r == spec_on_response(decision, status, content_range_start, size, local_len),
{
    if status == 200 {
        return ResponseAction::StartFromZero;
    }
    if status == 206 {
        return match decision {
            RequestDecision::RangeFrom(o) => {
                let matches_offset = match content_range_start {
                    Some(c) => c == o,
                    None => false,
                };
                if matches_offset {
                    ResponseAction::AppendFrom(o)
                } else {
                    ResponseAction::IntegrityRestart
                }
            },
            _ => ResponseAction::IntegrityRestart,
        };
    }
    if status == 416 {
        let complete = match size {
            Some(s) => s == local_len,
            None => false,
        };
        return if complete {
            ResponseAction::TreatSkipped
        } else {
            ResponseAction::IntegrityRestart
        };
    }
    ResponseAction::Failure(crate::network::classify_status(status))
}

/// The view after a failed attempt: a permanent fault fails the file at
/// once; otherwise the failure counter grows, the file returns to `Pending`
/// while the retry budget lasts and fails when it is spent, an integrity
/// fault discards the partial copy, and a mirror fault advances the mirror
/// cursor. The latest error always replaces the previous one.
pub open spec fn spec_fail_transition(
    v: FileView,
    kind: FailureKind,
    err: Seq<char>,
    servers_len: int,
    max_retries: u32,
) -> FileView {
    if kind == FailureKind::Permanent {
        FileView { state: DownloadState::Failed, last_error: Some(err), ..v }
    } else {
        let a = (v.attempts + 1) as u32;
        FileView {
            state: if a < max_retries {
                DownloadState::Pending
            } else {
                DownloadState::Failed
            },
            bytes_on_disk: if kind == FailureKind::Integrity {
                0
            } else {
                v.bytes_on_disk
            },
            attempts: a,
            last_error: Some(err),
            server_used: v.server_used,
            mirror_cursor: if kind == FailureKind::TransientMirror {
                (((v.mirror_cursor + 1) as int) % servers_len) as usize
            } else {
                v.mirror_cursor
            },
            backoff_mirror: v.backoff_mirror,
        }
    }
}

/// The view after a successful attempt.
pub open spec fn spec_success_transition(v: FileView) -> FileView {
    FileView { state: DownloadState::Completed, ..v }
}

/// The stream's end completes the file exactly when the byte count matches
/// the known size and the digest, when checked, matched.
pub open spec fn spec_stream_end_completes(
    size: Option<u64>,
    bytes: u64,
    md5_ok: Option<bool>,
) -> bool {
    (match size {
        Some(s) => bytes == s,
        None => true,
    }) && md5_ok != Some(false)
}

/// The mirror a file's next attempt uses: normally the cursor's mirror, but
/// one that answered with a transient-backoff fault within the last minute
/// is deprioritised — the next mirror serves instead — without being
/// removed. With a single mirror there is nothing to prefer.
pub open spec fn spec_preferred_mirror(
    w: FileView,
    servers_len: int,
    now: u64,
) -> int {
    match w.backoff_mirror {
        Some((m, t)) => {
            if m == w.mirror_cursor && now < t + 60 && servers_len > 1 {
                ((w.mirror_cursor + 1) as int) % servers_len
            } else {
                w.mirror_cursor as int
            }
        },
        None => w.mirror_cursor as int,
    }
}

impl Engine {
    /// The server the file's next attempt uses, per `spec_preferred_mirror`.
    pub fn pick_server(&self, i: usize, now: u64) -> (r: String)
        requires
            self.wf(),
            i < self.work@.len(),
        ensures
            r@ == self.servers@[spec_preferred_mirror(
                work_view(self.work@[i as int]),
                self.servers@.len() as int,
                now,
            )]@,
    {
        let cursor = self.work[i].mirror_cursor;
        let deprioritised = match self.work[i].backoff_mirror {
            Some((m, t)) => m == cursor && (now <= t || now - t < 60)
                && self.servers.len() > 1,
            None => false,
        };
        if deprioritised {
            let next = (cursor + 1) % self.servers.len();
            self.servers[next].clone()
        } else {
            self.servers[cursor].clone()
        }
    }

    /// Records that the file's current mirror answered with a transient
    /// backoff at the given time, so the next attempt deprioritises it.
    pub fn note_backoff(&mut self, i: usize, now: u64)
        requires
            old(self).wf(),
            i < old(self).work@.len(),
        ensures
            final(self).wf(),
            final(self).work@ == old(self).work@.update(
                i as int,
                FileWork {
                    backoff_mirror: Some((old(self).work@[i as int].mirror_cursor, now)),
                    ..old(self).work@[i as int]
                },
            ),
            final(self).plan == old(self).plan,
            final(self).servers == old(self).servers,
            final(self).active == old(self).active,
            final(self).events == old(self).events,
            final(self).cancelled == old(self).cancelled,
            final(self).max_retries == old(self).max_retries,
    {
        let ghost oldwork = self.work@;
        let entry = FileWork {
            state: self.work[i].state,
            bytes_on_disk: self.work[i].bytes_on_disk,
            attempts: self.work[i].attempts,
            last_error: clone_opt_string(&self.work[i].last_error),
            server_used: clone_opt_string(&self.work[i].server_used),
            mirror_cursor: self.work[i].mirror_cursor,
            backoff_mirror: Some((self.work[i].mirror_cursor, now)),
        };
        self.work.set(i, entry);
        proof {
            lemma_count_update(oldwork, i as int, final(self).work@[i as int]);
        }
    }

    /// Records which server the current attempt uses, per
    /// `spec_preferred_mirror`.
    pub fn record_server(&mut self, i: usize, now: u64)
        requires
            old(self).wf(),
            i < old(self).work@.len(),
            old(self).work@[i as int].state == DownloadState::InProgress,
        ensures
            final(self).wf(),
            final(self).work@ == old(self).work@.update(
                i as int,
                FileWork {
                    server_used: final(self).work@[i as int].server_used,
                    ..old(self).work@[i as int]
                },
            ),
            crate::metadata_storage::opt_str_view(final(self).work@[i as int].server_used)
                == Some(
                old(self).servers@[spec_preferred_mirror(
                    work_view(old(self).work@[i as int]),
                    old(self).servers@.len() as int,
                    now,
                )]@,
            ),
            final(self).active == old(self).active,
            final(self).events == old(self).events,
            final(self).cancelled == old(self).cancelled,
            final(self).plan == old(self).plan,
            final(self).servers == old(self).servers,
            final(self).max_retries == old(self).max_retries,
    {
        let ghost oldwork = self.work@;
        let server = self.pick_server(i, now);
        let entry = FileWork {
            state: self.work[i].state,
            bytes_on_disk: self.work[i].bytes_on_disk,
            attempts: self.work[i].attempts,
            last_error: clone_opt_string(&self.work[i].last_error),
            server_used: Some(server),
            mirror_cursor: self.work[i].mirror_cursor,
            backoff_mirror: self.work[i].backoff_mirror,
        };
        self.work.set(i, entry);
        proof {
            lemma_count_update(oldwork, i as int, final(self).work@[i as int]);
        }
    }

    /// Books newly written bytes for the file. When the body runs past the
    /// known size, or past what a byte counter can hold, the attempt fails
    /// as an integrity fault instead and the partial copy is discarded.
    pub fn on_chunk(&mut self, i: usize, delta: u64) -> (ok: bool)
        requires
            old(self).wf(),
            i < old(self).work@.len(),
            old(self).work@[i as int].state == DownloadState::InProgress,
        ensures
            final(self).wf(),
            final(self).plan == old(self).plan,
            final(self).servers == old(self).servers,
            final(self).cancelled == old(self).cancelled,
            final(self).max_retries == old(self).max_retries,
            ({
                let w = old(self).work@[i as int];
                let over = (match old(self).plan.files@[i as int].size {
                    Some(sz) => w.bytes_on_disk + delta > sz,
                    None => w.bytes_on_disk + delta > u64::MAX,
                });
                if over {
                    &&& !ok
                    &&& work_view(final(self).work@[i as int]) == spec_fail_transition(
                        work_view(w),
                        FailureKind::Integrity,
                        "body longer than advertised"@,
                        old(self).servers@.len() as int,
                        old(self).max_retries,
                    )
                    &&& final(self).work@ == old(self).work@.update(
                        i as int,
                        final(self).work@[i as int],
                    )
                    &&& final(self).active == old(self).active - 1
                } else {
                    &&& ok
                    &&& final(self).work@ == old(self).work@.update(
                        i as int,
                        FileWork {
                            bytes_on_disk: (w.bytes_on_disk + delta) as u64,
                            ..w
                        },
                    )
                    &&& final(self).active == old(self).active
                    &&& final(self).events@ == old(self).events@.push(
                        EngineEvent::Bytes { index: i, delta },
                    )
                }
            }),
    {
        let over = match self.plan.files[i].size {
            Some(sz) => delta > sz - self.work[i].bytes_on_disk,
            None => delta > u64::MAX - self.work[i].bytes_on_disk,
        };
        if over {
            self.fail_attempt(i, FailureKind::Integrity,
                String::from_str("body longer than advertised"));
            return false;
        }
        let ghost oldwork = self.work@;
        let entry = FileWork {
            state: self.work[i].state,
            bytes_on_disk: self.work[i].bytes_on_disk + delta,
            attempts: self.work[i].attempts,
            last_error: clone_opt_string(&self.work[i].last_error),
            server_used: clone_opt_string(&self.work[i].server_used),
            mirror_cursor: self.work[i].mirror_cursor,
            backoff_mirror: self.work[i].backoff_mirror,
        };
        self.work.set(i, entry);
        self.events.push(EngineEvent::Bytes { index: i, delta });
        proof {
            lemma_count_update(oldwork, i as int, final(self).work@[i as int]);
        }
        true
    }

    /// Ends an attempt's stream: the file completes when the byte count
    /// matches the known size and the digest, when checked, matched; any
    /// mismatch discards the partial copy and retries as an integrity fault.
    pub fn on_stream_end(&mut self, i: usize, md5_ok: Option<bool>) -> (completed: bool)
        requires
            old(self).wf(),
            i < old(self).work@.len(),
            old(self).work@[i as int].state == DownloadState::InProgress,
        ensures
            final(self).wf(),
            final(self).plan == old(self).plan,
            final(self).servers == old(self).servers,
            final(self).cancelled == old(self).cancelled,
            final(self).max_retries == old(self).max_retries,
            final(self).active == old(self).active - 1,
            completed == spec_stream_end_completes(
                old(self).plan.files@[i as int].size,
                old(self).work@[i as int].bytes_on_disk,
                md5_ok,
            ),
            ({
                let w = old(self).work@[i as int];
                if completed {
                    &&& work_view(final(self).work@[i as int]) == spec_success_transition(
                        work_view(w),
                    )
                    &&& final(self).work@ == old(self).work@.update(
                        i as int,
                        final(self).work@[i as int],
                    )
                    &&& final(self).events@ == old(self).events@.push(
                        EngineEvent::FileDone { index: i, outcome: DownloadState::Completed },
                    )
                } else {
                    &&& work_view(final(self).work@[i as int]) == spec_fail_transition(
                        work_view(w),
                        FailureKind::Integrity,
                        if (match old(self).plan.files@[i as int].size {
                            Some(sz) => w.bytes_on_disk != sz,
                            None => false,
                        }) {
                            "size mismatch"@
                        } else {
                            "digest mismatch"@
                        },
                        old(self).servers@.len() as int,
                        old(self).max_retries,
                    )
                    &&& final(self).work@ == old(self).work@.update(
                        i as int,
                        final(self).work@[i as int],
                    )
                }
            }),
    {
        let size_mismatch = match self.plan.files[i].size {
            Some(sz) => self.work[i].bytes_on_disk != sz,
            None => false,
        };
        if size_mismatch {
            self.fail_attempt(i, FailureKind::Integrity, String::from_str("size mismatch"));
            return false;
        }
        let digest_bad = match md5_ok {
            Some(ok) => !ok,
            None => false,
        };
        if digest_bad {
            self.fail_attempt(i, FailureKind::Integrity, String::from_str("digest mismatch"));
            return false;
        }
        let ghost oldwork = self.work@;
        let entry = FileWork {
            state: DownloadState::Completed,
            bytes_on_disk: self.work[i].bytes_on_disk,
            attempts: self.work[i].attempts,
            last_error: clone_opt_string(&self.work[i].last_error),
            server_used: clone_opt_string(&self.work[i].server_used),
            mirror_cursor: self.work[i].mirror_cursor,
            backoff_mirror: self.work[i].backoff_mirror,
        };
        self.work.set(i, entry);
        proof {
            lemma_count_positive(oldwork, i as int);
            lemma_count_update(oldwork, i as int, final(self).work@[i as int]);
        }
        self.active = self.active - 1;
        self.events.push(
            EngineEvent::FileDone { index: i, outcome: DownloadState::Completed },
        );
        true
    }

    /// Fails the current attempt: permanent faults fail the file at once;
    /// transient and integrity faults return it to `Pending` while the retry
    /// budget lasts, per `spec_fail_transition`.
    pub fn fail_attempt(&mut self, i: usize, kind: FailureKind, error: String)
        requires
            old(self).wf(),
            i < old(self).work@.len(),
            old(self).work@[i as int].state == DownloadState::InProgress,
        ensures
            final(self).wf(),
            final(self).plan == old(self).plan,
            final(self).servers == old(self).servers,
            final(self).cancelled == old(self).cancelled,
            final(self).max_retries == old(self).max_retries,
            final(self).active == old(self).active - 1,
            work_view(final(self).work@[i as int]) == spec_fail_transition(
                work_view(old(self).work@[i as int]),
                kind,
                error@,
                old(self).servers@.len() as int,
                old(self).max_retries,
            ),
            final(self).work@ == old(self).work@.update(
                i as int,
                final(self).work@[i as int],
            ),
            final(self).work@[i as int].state == DownloadState::Failed
                ==> final(self).events@ == old(self).events@.push(
                EngineEvent::FileDone { index: i, outcome: DownloadState::Failed },
            ),
            final(self).work@[i as int].state != DownloadState::Failed ==> final(self).events
                == old(self).events,
    {
        let ghost oldwork = self.work@;
        proof {
            assert(self.work@[i as int].mirror_cursor < self.servers.len());
        }
        let is_permanent = match kind {
            FailureKind::Permanent => true,
            _ => false,
        };
        let entry = if is_permanent {
            FileWork {
                state: DownloadState::Failed,
                bytes_on_disk: self.work[i].bytes_on_disk,
                attempts: self.work[i].attempts,
                last_error: Some(error),
                server_used: clone_opt_string(&self.work[i].server_used),
                mirror_cursor: self.work[i].mirror_cursor,
                backoff_mirror: self.work[i].backoff_mirror,
            }
        } else {
            let a = self.work[i].attempts + 1;
            let is_integrity = match kind {
                FailureKind::Integrity => true,
                _ => false,
            };
            let is_mirror = match kind {
                FailureKind::TransientMirror => true,
                _ => false,
            };
            FileWork {
                state: if a < self.max_retries {
                    DownloadState::Pending
                } else {
                    DownloadState::Failed
                },
                bytes_on_disk: if is_integrity {
                    0
                } else {
                    self.work[i].bytes_on_disk
                },
                attempts: a,
                last_error: Some(error),
                server_used: clone_opt_string(&self.work[i].server_used),
                mirror_cursor: if is_mirror {
                    (self.work[i].mirror_cursor + 1) % self.servers.len()
                } else {
                    self.work[i].mirror_cursor
                },
                backoff_mirror: self.work[i].backoff_mirror,
            }
        };
        let now_failed = match entry.state {
            DownloadState::Failed => true,
            _ => false,
        };
        self.work.set(i, entry);
        proof {
            lemma_count_positive(oldwork, i as int);
            lemma_count_update(oldwork, i as int, final(self).work@[i as int]);
        }
        self.active = self.active - 1;
        if now_failed {
            self.events.push(
                EngineEvent::FileDone { index: i, outcome: DownloadState::Failed },
            );
        }
    }

    /// Marks a file skipped: its local copy already holds the whole file.
    pub fn mark_skipped(&mut self, i: usize, local_len: u64)
        requires
            old(self).wf(),
            i < old(self).work@.len(),
            old(self).work@[i as int].state == DownloadState::InProgress,
            match old(self).plan.files@[i as int].size {
                Some(sz) => local_len == sz,
                None => true,
            },
        ensures
            final(self).wf(),
            final(self).plan == old(self).plan,
            final(self).active == old(self).active - 1,
            final(self).cancelled == old(self).cancelled,
            final(self).work@ == old(self).work@.update(
                i as int,
                FileWork {
                    state: DownloadState::Skipped,
                    bytes_on_disk: local_len,
                    ..old(self).work@[i as int]
                },
            ),
            final(self).events@ == old(self).events@.push(
                EngineEvent::FileDone { index: i, outcome: DownloadState::Skipped },
            ),
    {
        let ghost oldwork = self.work@;
        let entry = FileWork {
            state: DownloadState::Skipped,
            bytes_on_disk: local_len,
            attempts: self.work[i].attempts,
            last_error: clone_opt_string(&self.work[i].last_error),
            server_used: clone_opt_string(&self.work[i].server_used),
            mirror_cursor: self.work[i].mirror_cursor,
            backoff_mirror: self.work[i].backoff_mirror,
        };
        self.work.set(i, entry);
        proof {
            lemma_count_positive(oldwork, i as int);
            lemma_count_update(oldwork, i as int, final(self).work@[i as int]);
        }
        self.active = self.active - 1;
        self.events.push(
            EngineEvent::FileDone { index: i, outcome: DownloadState::Skipped },
        );
    }

    /// Restarts an attempt from offset zero: the server refused the range,
    /// so the local copy is truncated and the byte count starts over.
    pub fn begin_from_zero(&mut self, i: usize)
        requires
            old(self).wf(),
            i < old(self).work@.len(),
            old(self).work@[i as int].state == DownloadState::InProgress,
        ensures
            final(self).wf(),
            final(self).plan == old(self).plan,
            final(self).active == old(self).active,
            final(self).cancelled == old(self).cancelled,
            final(self).events == old(self).events,
            final(self).work@ == old(self).work@.update(
                i as int,
                FileWork { bytes_on_disk: 0, ..old(self).work@[i as int] },
            ),
    {
        let ghost oldwork = self.work@;
        let entry = FileWork {
            state: self.work[i].state,
            bytes_on_disk: 0,
            attempts: self.work[i].attempts,
            last_error: clone_opt_string(&self.work[i].last_error),
            server_used: clone_opt_string(&self.work[i].server_used),
            mirror_cursor: self.work[i].mirror_cursor,
            backoff_mirror: self.work[i].backoff_mirror,
        };
        self.work.set(i, entry);
        proof {
            lemma_count_update(oldwork, i as int, final(self).work@[i as int]);
        }
    }

    /// Pauses a file at a cancellation checkpoint; its bytes stay on disk.
    pub fn pause_file(&mut self, i: usize)
        requires
            old(self).wf(),
            i < old(self).work@.len(),
            old(self).work@[i as int].state == DownloadState::InProgress,
        ensures
            final(self).wf(),
            final(self).plan == old(self).plan,
            final(self).active == old(self).active - 1,
            final(self).cancelled == old(self).cancelled,
            final(self).work@ == old(self).work@.update(
                i as int,
                FileWork { state: DownloadState::Paused, ..old(self).work@[i as int] },
            ),
            final(self).work@[i as int].bytes_on_disk == old(
                self,
            ).work@[i as int].bytes_on_disk,
            final(self).events == old(self).events,
    {
        let ghost oldwork = self.work@;
        let entry = FileWork {
            state: DownloadState::Paused,
            bytes_on_disk: self.work[i].bytes_on_disk,
            attempts: self.work[i].attempts,
            last_error: clone_opt_string(&self.work[i].last_error),
            server_used: clone_opt_string(&self.work[i].server_used),
            mirror_cursor: self.work[i].mirror_cursor,
            backoff_mirror: self.work[i].backoff_mirror,
        };
        self.work.set(i, entry);
        proof {
            lemma_count_positive(oldwork, i as int);
            lemma_count_update(oldwork, i as int, final(self).work@[i as int]);
        }
        self.active = self.active - 1;
    }

    /// Returns a paused file to the queue; its bytes stay, so the next
    /// attempt resumes from its current length.
    pub fn resume_file(&mut self, i: usize)
        requires
            old(self).wf(),
            i < old(self).work@.len(),
            old(self).work@[i as int].state == DownloadState::Paused,
        ensures
            final(self).wf(),
            final(self).plan == old(self).plan,
            final(self).active == old(self).active,
            final(self).cancelled == old(self).cancelled,
            final(self).work@ == old(self).work@.update(
                i as int,
                FileWork { state: DownloadState::Pending, ..old(self).work@[i as int] },
            ),
            final(self).work@[i as int].bytes_on_disk == old(
                self,
            ).work@[i as int].bytes_on_disk,
            final(self).events == old(self).events,
    {
        let ghost oldwork = self.work@;
        let entry = FileWork {
            state: DownloadState::Pending,
            bytes_on_disk: self.work[i].bytes_on_disk,
            attempts: self.work[i].attempts,
            last_error: clone_opt_string(&self.work[i].last_error),
            server_used: clone_opt_string(&self.work[i].server_used),
            mirror_cursor: self.work[i].mirror_cursor,
            backoff_mirror: self.work[i].backoff_mirror,
        };
        self.work.set(i, entry);
        proof {
            lemma_count_update(oldwork, i as int, final(self).work@[i as int]);
        }
    }
}

// What the engine guarantees, stated as laws.

/// Each file has at most one worker: a file is owned exactly while it is
/// `InProgress`, and the scheduler never hands out a file that is already
/// `InProgress`.
pub proof fn law_single_owner(e: Engine, i: int)
    requires
        e.wf(),
        0 <= i < e.work@.len(),
        e.work@[i].state == DownloadState::InProgress,
    ensures
        spec_first_pending(e.work@, 0) != i,
{
    lemma_first_pending(e.work@, 0);
}

/// The running count of active workers never exceeds the concurrency limit.
pub proof fn law_worker_limit(e: Engine)
    requires
        e.wf(),
    ensures
        count_in_progress(e.work@) <= e.plan.concurrency_limit,
{
}

/// A file's recorded bytes never exceed its known size.
pub proof fn law_bytes_within_size(e: Engine, i: int)
    requires
        e.wf(),
        0 <= i < e.work@.len(),
        e.plan.files@[i].size is Some,
    ensures
        e.work@[i].bytes_on_disk <= e.plan.files@[i].size->Some_0,
{
}

/// After cancellation no new work is ever handed out.
pub proof fn law_no_start_after_cancel(e: Engine)
    requires
        e.cancelled,
    ensures
        !e.spec_can_start(),
{
}

/// A plan with zero files is finished from the start.
pub proof fn law_empty_plan_finished(e: Engine)
    requires
        e.wf(),
        e.plan.files@.len() == 0,
    ensures
        e.spec_finished(),
        !e.spec_can_start(),
{
}

/// A file of size zero completes as soon as an empty body arrives whole.
pub proof fn law_zero_size_completes(md5_ok: Option<bool>)
    requires
        md5_ok != Some(false),
    ensures
        spec_stream_end_completes(Some(0u64), 0u64, md5_ok),
{
}

/// A second run performs no request for a complete file and resumes any
/// partial file from its current length.
pub proof fn law_rerun_is_idempotent(s: u64, l: u64)
    ensures
        spec_decide_request(Some(s), Some(s), true) == RequestDecision::SkipExisting,
        0 < l < s ==> spec_decide_request(Some(s), Some(l), true)
            == RequestDecision::RangeFrom(l),
{
}

/// A range answered with 416 skips when the local copy already holds the
/// whole file and is an integrity fault otherwise.
pub proof fn law_range_not_satisfiable(d: RequestDecision, size: u64, local: u64)
    ensures
        local == size ==> spec_on_response(d, 416, None, Some(size), local)
            == ResponseAction::TreatSkipped,
        local != size ==> spec_on_response(d, 416, None, Some(size), local)
            == ResponseAction::IntegrityRestart,
{
}

/// The view after a run of failed attempts, newest last.
pub open spec fn spec_after_failures(
    v: FileView,
    errs: Seq<Seq<char>>,
    servers_len: int,
    max_retries: u32,
) -> FileView
    decreases errs.len(),
{
    if errs.len() == 0 {
        v
    } else {
        spec_fail_transition(
            FileView {
                state: DownloadState::InProgress,
                ..spec_after_failures(v, errs.drop_last(), servers_len, max_retries)
            },
            FailureKind::TransientBackoff,
            errs.last(),
            servers_len,
            max_retries,
        )
    }
}

/// The retry budget: a file that suffers fewer transient failures than the
/// retry cap is still `Pending`, its failure counter holds exactly the
/// number of failures, its latest error is the only one recorded — so the
/// next successful attempt completes it.
pub proof fn law_retry_budget(
    v: FileView,
    errs: Seq<Seq<char>>,
    servers_len: int,
    max_retries: u32,
)
    requires
        v.state == DownloadState::Pending,
        errs.len() >= 1,
        v.attempts + errs.len() < max_retries,
        max_retries <= 20,
    ensures
        ({
            let r = spec_after_failures(v, errs, servers_len, max_retries);
            &&& r.state == DownloadState::Pending
            &&& r.attempts == v.attempts + errs.len()
            &&& r.last_error == Some(errs.last())
            &&& spec_success_transition(FileView { state: DownloadState::InProgress, ..r })
                .state == DownloadState::Completed
        }),
    decreases errs.len(),
{
    if errs.len() == 1 {
        assert(errs.drop_last().len() == 0);
        assert(spec_after_failures(v, errs.drop_last(), servers_len, max_retries) == v);
    } else {
        law_retry_budget(v, errs.drop_last(), servers_len, max_retries);
    }
}

} // verus!
