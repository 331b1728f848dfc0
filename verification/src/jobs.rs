//! The parse-job queue: which files get which jobs, the life of a job from queued to done,
//! and what a completion writes.
use vstd::prelude::*;

use crate::text::chars_eq;
use crate::text::chars_of;
use crate::text::has_prefix;
use crate::text::split_chars;
use crate::text::split_on;
use crate::text::starts_with_chars;
use crate::text::string_of;
use crate::text::string_views;
use crate::text::to_lowercase;
use crate::text::trim_chars;
use crate::text::trimmed;
use crate::text::unicode_lowercase;
use crate::xml::trim_start_char;
use crate::locator::image_number_of;
use crate::locator::source_path_of;
use crate::locator::embedded_image_number_from_locator;
use crate::locator::strip_known_source_fragment;
use crate::models::FileParseCandidate;
use crate::models::ParsedDocument;
use crate::models::ParsedDocumentSegment;
use crate::models::ScanSummary;
use crate::vision::is_embedded_image_segment;
use crate::chunking::MAX_DOCUMENT_SEGMENTS;

verus! {

/// A knowledge space's id and the folder it reads.
#[derive(Debug, Clone)]
pub struct SpaceRoot {
    pub id: String,
    pub root_path: String,
}

/// What a write that requires a running job did.
#[derive(Debug, Clone, Copy, PartialEq, Eq, Structural)]
pub enum ParseJobWriteOutcome {
    Updated,
    Cancelled,
    NotRunning,
}

/// The job an enqueue points at, and whether it was newly inserted.
#[derive(Debug, Clone)]
pub struct EnqueueParseJobResult {
    pub id: String,
    pub inserted: bool,
}

/// What completing a scan job did.
#[derive(Debug, Clone)]
pub enum ScanJobWriteOutcome {
    Updated { summary: ScanSummary, queued_document_count: u32, queued_ocr_count: u32 },
    Cancelled,
    NotRunning,
}

/// Where a parse job stands.
#[derive(Debug, Clone, Copy, PartialEq, Eq, Structural)]
pub enum JobStatus {
    Queued,
    Running,
    Succeeded,
    Failed,
    Cancelled,
}

impl JobStatus {
    /// The text stored for the status.
    pub open spec fn db_text(self) -> Seq<char> {
        match self {
            JobStatus::Queued => "queued"@,
            JobStatus::Running => "running"@,
            JobStatus::Succeeded => "succeeded"@,
            JobStatus::Failed => "failed"@,
            JobStatus::Cancelled => "cancelled"@,
        }
    }

    /// The text stored for the status.
    pub fn as_str(&self) -> (r: &'static str)
        ensures
            r@ == self.db_text(),
    {
        match self {
            JobStatus::Queued => "queued",
            JobStatus::Running => "running",
            JobStatus::Succeeded => "succeeded",
            JobStatus::Failed => "failed",
            JobStatus::Cancelled => "cancelled",
        }
    }

    /// The status stored as `value`, if `value` names one.
    pub fn from_db(value: &str) -> (r: Option<JobStatus>)
        ensures
            r matches Some(s) ==> s.db_text() == value@,
            r is None ==> value@ != "queued"@ && value@ != "running"@ && value@ != "succeeded"@ && value@
                != "failed"@ && value@ != "cancelled"@,
    {
        let v = chars_of(value);
        if chars_eq(v.as_slice(), chars_of("queued").as_slice()) {
            Some(JobStatus::Queued)
        } else if chars_eq(v.as_slice(), chars_of("running").as_slice()) {
            Some(JobStatus::Running)
        } else if chars_eq(v.as_slice(), chars_of("succeeded").as_slice()) {
            Some(JobStatus::Succeeded)
        } else if chars_eq(v.as_slice(), chars_of("failed").as_slice()) {
            Some(JobStatus::Failed)
        } else if chars_eq(v.as_slice(), chars_of("cancelled").as_slice()) {
            Some(JobStatus::Cancelled)
        } else {
            None
        }
    }
}

/// Whether a job is done for good: it succeeded, failed or was cancelled.
pub open spec fn is_terminal(status: JobStatus) -> bool {
    status == JobStatus::Succeeded || status == JobStatus::Failed || status == JobStatus::Cancelled
}

/// What can happen to a parse job.
#[derive(Debug, Clone, Copy, PartialEq, Eq, Structural)]
pub enum JobEvent {
    Cancel,
    Start,
    Progress,
    Succeed,
    Fail,
}

/// The status a job moves to on an event, none when the event does not apply to it: a
/// queued or running job can be cancelled, a queued one started, and a running one can
/// report progress, succeed or fail.
pub open spec fn next_status(status: JobStatus, event: JobEvent) -> Option<JobStatus> {
    match event {
        JobEvent::Cancel => if status == JobStatus::Queued || status == JobStatus::Running {
            Some(JobStatus::Cancelled)
        } else {
            None
        },
        JobEvent::Start => if status == JobStatus::Queued {
            Some(JobStatus::Running)
        } else {
            None
        },
        JobEvent::Progress => if status == JobStatus::Running {
            Some(JobStatus::Running)
        } else {
            None
        },
        JobEvent::Succeed => if status == JobStatus::Running {
            Some(JobStatus::Succeeded)
        } else {
            None
        },
        JobEvent::Fail => if status == JobStatus::Running {
            Some(JobStatus::Failed)
        } else {
            None
        },
    }
}

/// The status after a run of events, each applied when it applies to the job and ignored
/// otherwise.
pub open spec fn status_after(status: JobStatus, events: Seq<JobEvent>) -> JobStatus
    decreases events.len(),
{
    if events.len() == 0 {
        status
    } else {
        let next = match next_status(status, events[0]) {
            Some(s) => s,
            None => status,
        };
        status_after(next, events.drop_first())
    }
}

/// A finished job (succeeded, failed or cancelled) stays as it is whatever happens to it
/// afterwards; in particular a cancelled job never turns into a succeeded one.
pub proof fn law_finished_jobs_stay_finished(status: JobStatus, events: Seq<JobEvent>)
    requires
        is_terminal(status),
    ensures
        status_after(status, events) == status,
    decreases events.len(),
{
    if events.len() > 0 {
        law_finished_jobs_stay_finished(status, events.drop_first());
    }
}

/// A job succeeds only from running, and only a queued job can be started.
pub proof fn law_success_only_from_running(status: JobStatus)
    ensures
        next_status(status, JobEvent::Succeed) == Some(JobStatus::Succeeded) <==> status == JobStatus::Running,
        next_status(status, JobEvent::Start) is Some <==> status == JobStatus::Queued,
{
}

/// A parse job as stored.
#[derive(Debug, Clone)]
pub struct ParseJobRecord {
    pub status: JobStatus,
    pub phase: String,
    pub progress_current: u32,
    pub progress_total: u32,
    pub error_message: Option<String>,
    pub started_at: Option<String>,
    pub finished_at: Option<String>,
    pub updated_at: String,
}

/// A text made of the characters of a literal.
fn text(value: &str) -> (r: String)
    ensures
        r@ == value@,
{
    string_of(chars_of(value).as_slice())
}

/// `total` when it is positive, else one.
pub open spec fn at_least_one(total: u32) -> u32 {
    if total > 0 {
        total
    } else {
        1
    }
}

/// The record a job starts with when it is queued at `now`: status `Queued`, phase
/// `等待执行`, progress 0 of 1, no error, neither started nor finished.
pub open spec fn fresh_queued(r: ParseJobRecord, now: Seq<char>) -> bool {
    &&& r.status == JobStatus::Queued
    &&& r.phase@ == "等待执行"@
    &&& r.progress_current == 0
    &&& r.progress_total == 1
    &&& r.error_message is None
    &&& r.started_at is None
    &&& r.finished_at is None
    &&& r.updated_at@ == now
}

impl ParseJobRecord {
    /// A job just queued: phase `等待执行`, progress 0 of 1.
    pub fn queued(now: &str) -> (r: ParseJobRecord)
        ensures
            fresh_queued(r, now@),
    {
        ParseJobRecord {
            status: JobStatus::Queued,
            phase: text("等待执行"),
            progress_current: 0,
            progress_total: 1,
            error_message: None,
            started_at: None,
            finished_at: None,
            updated_at: text(now),
        }
    }

    /// Cancels a queued or running job; other jobs are left as they are. Says whether the job
    /// was cancelled.
    pub fn cancel(&mut self, now: &str) -> (changed: bool)
        ensures
            changed == next_status(old(self).status, JobEvent::Cancel) is Some,
            changed == (old(self).status == JobStatus::Queued || old(self).status == JobStatus::Running),
            !changed ==> *final(self) == *old(self),
            changed ==> {
                &&& final(self).status == JobStatus::Cancelled
                &&& final(self).phase@ == "已取消"@
                &&& final(self).finished_at matches Some(f) && f@ == now@
                &&& final(self).updated_at@ == now@
                &&& final(self).progress_current == old(self).progress_current
                &&& final(self).progress_total == old(self).progress_total
                &&& final(self).error_message == old(self).error_message
                &&& final(self).started_at == old(self).started_at
            },
    {
        match self.status {
            JobStatus::Queued | JobStatus::Running => {
                self.status = JobStatus::Cancelled;
                self.phase = text("已取消");
                self.finished_at = Some(text(now));
                self.updated_at = text(now);
                true
            },
            _ => false,
        }
    }

    /// Starts a queued job: phase `正在准备`, progress 0 of its total (at least one), no error,
    /// started now unless it had started before. Other jobs are left as they are.
    pub fn mark_running(&mut self, now: &str) -> (changed: bool)
        ensures
            changed == next_status(old(self).status, JobEvent::Start) is Some,
            changed == (old(self).status == JobStatus::Queued),
            !changed ==> *final(self) == *old(self),
            changed ==> {
                &&& final(self).status == JobStatus::Running
                &&& final(self).phase@ == "正在准备"@
                &&& final(self).progress_current == 0
                &&& final(self).progress_total == at_least_one(old(self).progress_total)
                &&& final(self).error_message is None
                &&& (old(self).started_at is Some ==> final(self).started_at == old(self).started_at)
                &&& (old(self).started_at is None ==> (final(self).started_at matches Some(s) && s@ == now@))
                &&& final(self).finished_at is None
                &&& final(self).updated_at@ == now@
            },
    {
        match self.status {
            JobStatus::Queued => {
                self.status = JobStatus::Running;
                self.error_message = None;
                if self.started_at.is_none() {
                    self.started_at = Some(text(now));
                }
                self.finished_at = None;
                self.phase = text("正在准备");
                self.progress_current = 0;
                if self.progress_total == 0 {
                    self.progress_total = 1;
                }
                self.updated_at = text(now);
                true
            },
            _ => false,
        }
    }

    /// Records the progress of a running job; other jobs are left as they are.
    pub fn update_progress(&mut self, phase: &str, current: u32, total: u32, now: &str) -> (changed: bool)
        ensures
            changed == next_status(old(self).status, JobEvent::Progress) is Some,
            changed == (old(self).status == JobStatus::Running),
            !changed ==> *final(self) == *old(self),
            changed ==> {
                &&& final(self).status == JobStatus::Running
                &&& final(self).phase@ == phase@
                &&& final(self).progress_current == current
                &&& final(self).progress_total == total
                &&& final(self).updated_at@ == now@
                &&& final(self).error_message == old(self).error_message
                &&& final(self).started_at == old(self).started_at
                &&& final(self).finished_at == old(self).finished_at
            },
    {
        match self.status {
            JobStatus::Running => {
                self.phase = text(phase);
                self.progress_current = current;
                self.progress_total = total;
                self.updated_at = text(now);
                true
            },
            _ => false,
        }
    }

    /// Finishes a running job successfully: phase `已完成`, progress complete (at least one of
    /// one), no error. Other jobs are left as they are.
    pub fn mark_succeeded(&mut self, now: &str) -> (changed: bool)
        ensures
            changed == next_status(old(self).status, JobEvent::Succeed) is Some,
            changed == (old(self).status == JobStatus::Running),
            !changed ==> *final(self) == *old(self),
            changed ==> {
                &&& final(self).status == JobStatus::Succeeded
                &&& final(self).phase@ == "已完成"@
                &&& final(self).progress_total == at_least_one(old(self).progress_total)
                &&& final(self).progress_current == final(self).progress_total
                &&& final(self).error_message is None
                &&& final(self).finished_at matches Some(f) && f@ == now@
                &&& final(self).updated_at@ == now@
                &&& final(self).started_at == old(self).started_at
            },
    {
        match self.status {
            JobStatus::Running => {
                self.status = JobStatus::Succeeded;
                self.error_message = None;
                self.phase = text("已完成");
                if self.progress_total == 0 {
                    self.progress_total = 1;
                }
                self.progress_current = self.progress_total;
                self.finished_at = Some(text(now));
                self.updated_at = text(now);
                true
            },
            _ => false,
        }
    }

    /// Finishes a running job with an error: phase `失败` and the message. Other jobs are left
    /// as they are.
    pub fn mark_failed(&mut self, error_message: &str, now: &str) -> (changed: bool)
        ensures
            changed == next_status(old(self).status, JobEvent::Fail) is Some,
            changed == (old(self).status == JobStatus::Running),
            !changed ==> *final(self) == *old(self),
            changed ==> {
                &&& final(self).status == JobStatus::Failed
                &&& final(self).phase@ == "失败"@
                &&& final(self).error_message matches Some(m) && m@ == error_message@
                &&& final(self).finished_at matches Some(f) && f@ == now@
                &&& final(self).updated_at@ == now@
                &&& final(self).progress_current == old(self).progress_current
                &&& final(self).progress_total == old(self).progress_total
                &&& final(self).started_at == old(self).started_at
            },
    {
        match self.status {
            JobStatus::Running => {
                self.status = JobStatus::Failed;
                self.error_message = Some(text(error_message));
                self.phase = text("失败");
                self.finished_at = Some(text(now));
                self.updated_at = text(now);
                true
            },
            _ => false,
        }
    }
}

/// What a write that needs a running job does with a job of the stored status: go on with a
/// running job, report a cancelled one, and refuse the rest (also a job not found).
pub fn running_job_outcome(status: Option<&str>) -> (r: Option<ParseJobWriteOutcome>)
    ensures
        (status matches Some(s) && s@ == "running"@) ==> r is None,
        (status matches Some(s) && s@ == "cancelled"@) ==> r == Some(ParseJobWriteOutcome::Cancelled),
        !(status matches Some(s) && (s@ == "running"@ || s@ == "cancelled"@)) ==> r == Some(
            ParseJobWriteOutcome::NotRunning,
        ),
{
    proof {
        reveal_strlit("running");
        reveal_strlit("cancelled");
    }
    match status {
        Some(s) => {
            let v = chars_of(s);
            assert("running"@ != "cancelled"@) by {
                reveal_strlit("running");
                reveal_strlit("cancelled");
                assert("running"@.len() != "cancelled"@.len());
            }
            if chars_eq(v.as_slice(), chars_of("running").as_slice()) {
                None
            } else if chars_eq(v.as_slice(), chars_of("cancelled").as_slice()) {
                Some(ParseJobWriteOutcome::Cancelled)
            } else {
                Some(ParseJobWriteOutcome::NotRunning)
            }
        },
        None => Some(ParseJobWriteOutcome::NotRunning),
    }
}

/// How a completed job's document is stored.
#[derive(Debug, Clone)]
pub enum CompletionWrite {
    /// An OCR job for a part of a file: replace the blocks of that source.
    ReplaceSource { source_locator: String },
    /// Replace the file's blocks; for a document job, also queue OCR of its embedded images.
    ReplaceFile { queue_embedded_images: bool },
}

/// Whether `w` is how a job of type `job_type` with locator `source_locator` stores its
/// document: an OCR job with a locator replaces that source's blocks, an OCR job without one
/// replaces the file's blocks, and any other job replaces the file's blocks, a document job
/// also queuing OCR of its embedded images.
pub open spec fn write_for(w: CompletionWrite, job_type: Option<&str>, source_locator: Option<String>) -> bool {
    let is_ocr = job_type matches Some(t) && t@ == "ocr"@;
    &&& is_ocr && source_locator is Some ==> (w matches CompletionWrite::ReplaceSource { source_locator: s }
        && source_locator == Some(s))
    &&& is_ocr && source_locator is None ==> (w matches CompletionWrite::ReplaceFile {
        queue_embedded_images: q,
    } && !q)
    &&& !is_ocr ==> (w matches CompletionWrite::ReplaceFile { queue_embedded_images: q } && q == (
    job_type matches Some(t) && t@ == "document"@))
}

/// How a completed job's document is stored: an OCR job with a source replaces that source's
/// blocks; any other job replaces the file's blocks, a document job also queuing OCR of the
/// embedded images it found.
pub fn completion_write(job_type: Option<&str>, source_locator: Option<String>) -> (r: CompletionWrite)
    ensures
        write_for(r, job_type, source_locator),
{
    let kind = match job_type {
        Some(t) => chars_of(t),
        None => Vec::new(),
    };
    let is_ocr = job_type.is_some() && chars_eq(kind.as_slice(), chars_of("ocr").as_slice());
    let is_document = job_type.is_some() && chars_eq(kind.as_slice(), chars_of("document").as_slice());
    if is_ocr {
        match source_locator {
            Some(s) => CompletionWrite::ReplaceSource { source_locator: s },
            None => CompletionWrite::ReplaceFile { queue_embedded_images: false },
        }
    } else {
        CompletionWrite::ReplaceFile { queue_embedded_images: is_document }
    }
}

/// A live knowledge block of a file, as a completion sees it.
#[derive(Debug, Clone)]
pub struct LiveBlock {
    pub id: String,
    pub source_locator: String,
}

/// What completing a running job writes: how the document is stored, and the live blocks it
/// retires (marked deleted and no longer searchable).
#[derive(Debug, Clone)]
pub struct CompletionPlan {
    pub write: CompletionWrite,
    pub retired_block_ids: Vec<String>,
}

/// Whether a write retires a live block with this locator: replacing a source retires the
/// blocks whose locator starts with the source followed by `#ocr`; replacing the file
/// retires every block.
pub open spec fn retires(w: CompletionWrite, locator: Seq<char>) -> bool {
    match w {
        CompletionWrite::ReplaceSource { source_locator: l } => has_prefix(locator, l@ + "#ocr"@),
        CompletionWrite::ReplaceFile { .. } => true,
    }
}

/// The ids of the blocks among the first `n` that a write retires, in order.
pub open spec fn retired_ids(blocks: Seq<LiveBlock>, w: CompletionWrite, n: int) -> Seq<Seq<char>>
    decreases n,
{
    if n <= 0 {
        seq![]
    } else if retires(w, blocks[n - 1].source_locator@) {
        retired_ids(blocks, w, n - 1).push(blocks[n - 1].id@)
    } else {
        retired_ids(blocks, w, n - 1)
    }
}

/// The ids of the live blocks a write retires, in order.
fn retired_block_ids(blocks: &Vec<LiveBlock>, w: &CompletionWrite) -> (r: Vec<String>)
    ensures
        string_views(r@) == retired_ids(blocks@, *w, blocks@.len() as int),
{
    let prefix: Vec<char> = match w {
        CompletionWrite::ReplaceSource { source_locator } => {
            let mut p = chars_of(source_locator.as_str());
            let ghost head = p@;
            let tail = chars_of("#ocr");
            let mut k: usize = 0;
            while k < tail.len()
                invariant
                    k <= tail@.len(),
                    tail@ == "#ocr"@,
                    p@ == head + tail@.take(k as int),
                decreases tail@.len() - k,
            {
                p.push(tail[k]);
                k = k + 1;
                assert(tail@.take(k as int) =~= tail@.take((k - 1) as int).push(tail@[k - 1]));
            }
            assert(tail@.take(tail@.len() as int) =~= tail@);
            p
        },
        CompletionWrite::ReplaceFile { .. } => Vec::new(),
    };
    let mut out: Vec<String> = Vec::new();
    let mut i: usize = 0;
    while i < blocks.len()
        invariant
            i <= blocks@.len(),
            string_views(out@) == retired_ids(blocks@, *w, i as int),
            w matches CompletionWrite::ReplaceSource { source_locator: l } ==> prefix@ == l@ + "#ocr"@,
        decreases blocks@.len() - i,
    {
        let take = match w {
            CompletionWrite::ReplaceSource { .. } => starts_with_chars(
                chars_of(blocks[i].source_locator.as_str()).as_slice(),
                prefix.as_slice(),
            ),
            CompletionWrite::ReplaceFile { .. } => true,
        };
        let ghost before = out@;
        if take {
            out.push(blocks[i].id.clone());
            assert(string_views(out@) =~= string_views(before).push(blocks@[i as int].id@));
        }
        i = i + 1;
    }
    out
}

/// Completes a job once its document is ready, if it is still running. A cancelled job
/// answers `Cancelled` and a job that is not running answers `NotRunning`, both unchanged;
/// a running job succeeds (phase `已完成`, no error, progress complete and at least 1) and the
/// plan says how its document is stored and which live blocks of the file it retires.
pub fn complete_if_running(
    job: &mut ParseJobRecord,
    job_type: Option<&str>,
    source_locator: Option<String>,
    blocks: &Vec<LiveBlock>,
    now: &str,
) -> (r: Result<CompletionPlan, ParseJobWriteOutcome>)
    ensures
        old(job).status == JobStatus::Cancelled ==> (r matches Err(o) && o == ParseJobWriteOutcome::Cancelled
            && *final(job) == *old(job)),
        old(job).status != JobStatus::Cancelled && old(job).status != JobStatus::Running ==> (r matches Err(o)
            && o == ParseJobWriteOutcome::NotRunning && *final(job) == *old(job)),
        old(job).status == JobStatus::Running ==> (r matches Ok(plan) && {
            &&& write_for(plan.write, job_type, source_locator)
            &&& string_views(plan.retired_block_ids@) == retired_ids(
                blocks@,
                plan.write,
                blocks@.len() as int,
            )
            &&& final(job).status == JobStatus::Succeeded
            &&& final(job).phase@ == "已完成"@
            &&& final(job).error_message is None
            &&& final(job).progress_current == final(job).progress_total
            &&& final(job).progress_total >= 1
            &&& final(job).finished_at matches Some(f) && f@ == now@
            &&& final(job).updated_at@ == now@
        }),
{
    match job.status {
        JobStatus::Cancelled => Err(ParseJobWriteOutcome::Cancelled),
        JobStatus::Running => {
            job.mark_succeeded(now);
            let write = completion_write(job_type, source_locator);
            let retired_block_ids = retired_block_ids(blocks, &write);
            Ok(CompletionPlan { write, retired_block_ids })
        },
        _ => Err(ParseJobWriteOutcome::NotRunning),
    }
}

/// The extensions parsed as documents.
pub open spec fn document_extensions() -> Seq<Seq<char>> {
    seq!["pdf"@, "docx"@, "xlsx"@, "md"@, "txt"@]
}

/// The extensions read by OCR automatically.
pub open spec fn auto_ocr_extensions() -> Seq<Seq<char>> {
    seq!["png"@, "jpg"@, "jpeg"@, "bmp"@, "tif"@, "tiff"@, "webp"@]
}

/// An extension as compared with the lists: without leading dots, lowercased.
pub open spec fn extension_key(extension: Seq<char>) -> Seq<char> {
    unicode_lowercase(trim_start_char(extension, '.'))
}

/// The extension key of an extension.
fn extension_key_of(extension: &str) -> (r: Vec<char>)
    ensures
        r@ == extension_key(extension@),
{
    let v = chars_of(extension);
    let mut i: usize = 0;
    assert(v@.skip(0) =~= v@);
    while i < v.len() && v[i] == '.'
        invariant
            i <= v.len(),
            trim_start_char(v@, '.') == trim_start_char(v@.skip(i as int), '.'),
        decreases v.len() - i,
    {
        assert(v@.skip(i as int).drop_first() =~= v@.skip(i + 1));
        i = i + 1;
    }
    let rest = string_of(crate::text::slice_chars(v.as_slice(), i, v.len()).as_slice());
    assert(rest@ =~= v@.skip(i as int));
    chars_of(to_lowercase(rest.as_str()).as_str())
}

/// Whether `key` is one of `items`.
fn listed_key(key: &[char], items: &Vec<&str>) -> (r: bool)
    ensures
        r == exists|k: int| 0 <= k < items@.len() && (#[trigger] items@[k])@ == key@,
{
    let mut k: usize = 0;
    while k < items.len()
        invariant
            k <= items.len(),
            forall|j: int| 0 <= j < k ==> (#[trigger] items@[j])@ != key@,
        decreases items.len() - k,
    {
        if chars_eq(key, chars_of(items[k]).as_slice()) {
            return true;
        }
        k = k + 1;
    }
    false
}

/// Whether a file is parsed as a document.
pub fn is_document_parse_extension(extension: &str) -> (r: bool)
    ensures
        r == document_extensions().contains(extension_key(extension@)),
{
    let key = extension_key_of(extension);
    let items: Vec<&str> = vec!["pdf", "docx", "xlsx", "md", "txt"];
    let r = listed_key(key.as_slice(), &items);
    proof {
        if r {
            let k = choose|k: int| 0 <= k < items@.len() && (#[trigger] items@[k])@ == key@;
            assert(document_extensions()[k] == key@);
        }
        if document_extensions().contains(key@) {
            let k = choose|k: int| 0 <= k < document_extensions().len() && document_extensions()[k] == key@;
            assert(items@[k]@ == key@);
        }
    }
    r
}

/// Whether a file is read by OCR automatically.
pub fn is_auto_ocr_extension(extension: &str) -> (r: bool)
    ensures
        r == auto_ocr_extensions().contains(extension_key(extension@)),
{
    let key = extension_key_of(extension);
    let items: Vec<&str> = vec!["png", "jpg", "jpeg", "bmp", "tif", "tiff", "webp"];
    let r = listed_key(key.as_slice(), &items);
    proof {
        if r {
            let k = choose|k: int| 0 <= k < items@.len() && (#[trigger] items@[k])@ == key@;
            assert(auto_ocr_extensions()[k] == key@);
        }
        if auto_ocr_extensions().contains(key@) {
            let k = choose|k: int| 0 <= k < auto_ocr_extensions().len() && auto_ocr_extensions()[k] == key@;
            assert(items@[k]@ == key@);
        }
    }
    r
}

/// The locators of the embedded images of a document that get OCR jobs: among its first
/// `MAX_DOCUMENT_SEGMENTS` segments, the embedded-image ones whose locator names an image.
pub open spec fn image_job_locators(segments: Seq<ParsedDocumentSegment>, n: int) -> Seq<Seq<char>>
    decreases n,
{
    if n <= 0 {
        seq![]
    } else {
        let before = image_job_locators(segments, n - 1);
        let segment = segments[n - 1];
        if n - 1 < MAX_DOCUMENT_SEGMENTS && is_embedded_image_segment(segment) && image_number_of(
            segment.source_locator@,
        ) is Some {
            before.push(segment.source_locator@)
        } else {
            before
        }
    }
}

/// The locators of the embedded images of a document that get OCR jobs, in order.
pub fn embedded_image_job_locators(document: &ParsedDocument) -> (r: Vec<String>)
    ensures
        crate::text::string_views(r@) == image_job_locators(document.segments@, document.segments@.len() as int),
{
    let mut out: Vec<String> = Vec::new();
    let mut i: usize = 0;
    while i < document.segments.len()
        invariant
            i <= document.segments@.len(),
            crate::text::string_views(out@) == image_job_locators(document.segments@, i as int),
        decreases document.segments@.len() - i,
    {
        let segment = &document.segments[i];
        let embedded = match &segment.evidence {
            Some(e) => match &e.kind {
                Some(k) => chars_eq(chars_of(k.as_str()).as_slice(), chars_of("embedded_image").as_slice()),
                None => false,
            },
            None => false,
        };
        if i < MAX_DOCUMENT_SEGMENTS && embedded && embedded_image_number_from_locator(segment.source_locator.as_str()).is_some() {
            let ghost before = out@;
            out.push(segment.source_locator.clone());
            assert(crate::text::string_views(out@) =~= crate::text::string_views(before).push(segment.source_locator@));
        }
        i = i + 1;
    }
    out
}

/// The parts of a path (with `\` and `/` as separators, lowercased) that are not empty.
pub open spec fn path_parts(path: Seq<char>) -> Seq<Seq<char>> {
    non_empty_parts(split_on(unicode_lowercase(path.map_values(|c: char| if c == '/' { '\\' } else { c })), '\\'))
}

/// The pieces of `pieces` that are not empty, in order.
pub open spec fn non_empty_parts(pieces: Seq<Seq<char>>) -> Seq<Seq<char>>
    decreases pieces.len(),
{
    if pieces.len() == 0 {
        seq![]
    } else if pieces.last().len() == 0 {
        non_empty_parts(pieces.drop_last())
    } else {
        non_empty_parts(pieces.drop_last()).push(pieces.last())
    }
}

/// Whether a path part names an environment file: `.env` or `.env.…`.
pub open spec fn is_env_part(part: Seq<char>) -> bool {
    part == ".env"@ || has_prefix(part, ".env."@)
}

/// Whether a locator points at something a backup must not hold: an environment file, the
/// OCR temporary runs, or the OCR models (`models` followed by `ocr`).
pub open spec fn sensitive_locator(locator: Seq<char>) -> bool {
    let path = trimmed(source_path_of(locator));
    let parts = path_parts(path);
    &&& path.len() > 0
    &&& {
        ||| exists|k: int| 0 <= k < parts.len() && is_env_part(#[trigger] parts[k])
        ||| exists|k: int| 0 <= k < parts.len() && #[trigger] parts[k] == "library-ocr-runs"@
        ||| exists|k: int| 0 <= k < parts.len() - 1 && #[trigger] parts[k] == "models"@ && parts[k + 1] == "ocr"@
    }
}

/// Whether a locator points at something a backup must not hold.
pub fn is_sensitive_backup_locator(locator: &str) -> (r: bool)
    ensures
        r == sensitive_locator(locator@),
{
    proof {
        reveal_strlit(".env");
        reveal_strlit(".env.");
        reveal_strlit("library-ocr-runs");
        reveal_strlit("models");
        reveal_strlit("ocr");
    }
    let stripped = strip_known_source_fragment(locator);
    let path = trim_chars(chars_of(stripped.as_str()).as_slice());
    if path.len() == 0 {
        return false;
    }
    let mut swapped: Vec<char> = Vec::new();
    let mut i: usize = 0;
    while i < path.len()
        invariant
            i <= path.len(),
            swapped@ == path@.take(i as int).map_values(|c: char| if c == '/' { '\\' } else { c }),
        decreases path.len() - i,
    {
        let c = path[i];
        swapped.push(if c == '/' { '\\' } else { c });
        i = i + 1;
        assert(swapped@ =~= path@.take(i as int).map_values(|c: char| if c == '/' { '\\' } else { c }));
    }
    assert(path@.take(path.len() as int) =~= path@);
    let lowered = chars_of(to_lowercase(string_of(swapped.as_slice()).as_str()).as_str());
    let pieces = split_chars(lowered.as_slice(), '\\');
    let ghost all = split_on(lowered@, '\\');
    let mut parts: Vec<Vec<char>> = Vec::new();
    let mut j: usize = 0;
    while j < pieces.len()
        invariant
            j <= pieces.len(),
            pieces@.len() == all.len(),
            forall|k: int| 0 <= k < pieces@.len() ==> #[trigger] pieces@[k]@ == all[k],
            crate::text::char_views(parts@) == non_empty_parts(all.take(j as int)),
        decreases pieces.len() - j,
    {
        assert(all.take(j + 1).drop_last() =~= all.take(j as int));
        assert(all.take(j + 1).last() == pieces@[j as int]@);
        if pieces[j].len() > 0 {
            let ghost before = parts@;
            let piece = crate::text::slice_chars(pieces[j].as_slice(), 0, pieces[j].len());
            assert(piece@ =~= pieces@[j as int]@);
            parts.push(piece);
            assert(crate::text::char_views(parts@) =~= crate::text::char_views(before).push(pieces@[j as int]@));
        }
        j = j + 1;
    }
    assert(all.take(pieces.len() as int) =~= all);
    let ghost pv = crate::text::char_views(parts@);
    assert(pv == path_parts(path@));
    assert(path@ == trimmed(source_path_of(locator@)));
    let env = chars_of(".env");
    let env_dot = chars_of(".env.");
    let runs = chars_of("library-ocr-runs");
    let models = chars_of("models");
    let ocr = chars_of("ocr");
    let mut k: usize = 0;
    while k < parts.len()
        invariant
            k <= parts.len(),
            pv == crate::text::char_views(parts@),
            pv == path_parts(trimmed(source_path_of(locator@))),
            trimmed(source_path_of(locator@)).len() > 0,
            env@ == ".env"@,
            env_dot@ == ".env."@,
            runs@ == "library-ocr-runs"@,
            models@ == "models"@,
            ocr@ == "ocr"@,
            forall|j: int| 0 <= j < k ==> !is_env_part(#[trigger] pv[j]) && pv[j] != "library-ocr-runs"@,
            forall|j: int| 0 <= j < k && j < pv.len() - 1 ==> !(#[trigger] pv[j] == "models"@ && pv[j + 1] == "ocr"@),
        decreases parts.len() - k,
    {
        assert(pv[k as int] == parts@[k as int]@);
        let part = parts[k].as_slice();
        if chars_eq(part, env.as_slice()) || starts_with_chars(part, env_dot.as_slice()) {
            assert(is_env_part(pv[k as int]));
            return true;
        }
        if chars_eq(part, runs.as_slice()) {
            assert(pv[k as int] == "library-ocr-runs"@);
            return true;
        }
        if k + 1 < parts.len() && chars_eq(part, models.as_slice()) && chars_eq(parts[k + 1].as_slice(), ocr.as_slice()) {
            assert(pv[k + 1] == parts@[k + 1]@);
            assert(pv[k as int] == "models"@ && pv[k + 1] == "ocr"@);
            return true;
        }
        if k + 1 < parts.len() {
            assert(pv[k + 1] == parts@[k + 1]@);
        }
        k = k + 1;
    }
    false
}


/// A parse job as the queue sees it: what it is for, and where it stands.
#[derive(Debug, Clone)]
pub struct QueuedJob {
    pub id: String,
    pub file_id: Option<String>,
    pub job_type: String,
    pub source_locator: Option<String>,
    pub status: JobStatus,
}

/// Whether a job still waits or runs.
pub open spec fn is_active(status: JobStatus) -> bool {
    status == JobStatus::Queued || status == JobStatus::Running
}

/// The view of an optional text.
pub open spec fn opt_view(value: Option<String>) -> Option<Seq<char>> {
    match value {
        Some(v) => Some(v@),
        None => None,
    }
}

/// A locator as jobs record it: trimmed, and absent when blank.
pub open spec fn recorded_locator(value: Option<Seq<char>>) -> Option<Seq<char>> {
    match value {
        Some(v) => if trimmed(v).len() > 0 {
            Some(trimmed(v))
        } else {
            None
        },
        None => None,
    }
}

/// Whether a job is for this file (none for a whole-space job), of this type, for this
/// recorded locator.
pub open spec fn same_target(
    job: QueuedJob,
    file_id: Option<Seq<char>>,
    job_type: Seq<char>,
    source_locator: Option<Seq<char>>,
) -> bool {
    &&& opt_view(job.file_id) == file_id
    &&& job.job_type@ == job_type
    &&& opt_view(job.source_locator) == source_locator
}

/// Whether two jobs are for the same file, type and locator.
pub open spec fn same_key(a: QueuedJob, b: QueuedJob) -> bool {
    same_target(a, opt_view(b.file_id), b.job_type@, opt_view(b.source_locator))
}

/// Whether no two waiting or running jobs share a file, type and locator.
pub open spec fn no_duplicate_active(jobs: Seq<QueuedJob>) -> bool {
    forall|i: int, j: int|
        0 <= i < j < jobs.len() && is_active(jobs[i].status) && is_active(jobs[j].status) ==> !same_key(
            #[trigger] jobs[i],
            #[trigger] jobs[j],
        )
}

/// The position of the last waiting or running job among the first `n` with this target.
pub open spec fn active_match(
    jobs: Seq<QueuedJob>,
    file_id: Option<Seq<char>>,
    job_type: Seq<char>,
    source_locator: Option<Seq<char>>,
    n: int,
) -> Option<int>
    decreases n,
{
    if n <= 0 {
        None
    } else if is_active(jobs[n - 1].status) && same_target(jobs[n - 1], file_id, job_type, source_locator) {
        Some(n - 1)
    } else {
        active_match(jobs, file_id, job_type, source_locator, n - 1)
    }
}

/// A found match is a waiting or running job with the target.
pub proof fn lemma_active_match(
    jobs: Seq<QueuedJob>,
    file_id: Option<Seq<char>>,
    job_type: Seq<char>,
    source_locator: Option<Seq<char>>,
    n: int,
)
    requires
        0 <= n <= jobs.len(),
    ensures
        active_match(jobs, file_id, job_type, source_locator, n) matches Some(k) ==> 0 <= k < n && is_active(
            jobs[k].status,
        ) && same_target(jobs[k], file_id, job_type, source_locator),
        active_match(jobs, file_id, job_type, source_locator, n) is None ==> forall|k: int|
            0 <= k < n && is_active(jobs[k].status) ==> !same_target(#[trigger] jobs[k], file_id, job_type, source_locator),
    decreases n,
{
    if n > 0 {
        lemma_active_match(jobs, file_id, job_type, source_locator, n - 1);
    }
}

/// Whether two optional texts are equal.
fn opt_text_eq(a: &Option<String>, b: &Option<String>) -> (r: bool)
    ensures
        r == (opt_view(*a) == opt_view(*b)),
{
    match (a, b) {
        (Some(x), Some(y)) => chars_eq(chars_of(x.as_str()).as_slice(), chars_of(y.as_str()).as_slice()),
        (None, None) => true,
        _ => false,
    }
}

/// The locator a job is queued with: the given one trimmed, absent when blank.
pub open spec fn queued_locator(source_locator: Option<&str>) -> Option<Seq<char>> {
    recorded_locator(
        match source_locator {
            Some(v) => Some(v@),
            None => None,
        },
    )
}

/// How queuing changed the queue `before` into `after` and what it answered: the last
/// waiting or running job with the target is reused and nothing changes; without one, a job
/// with id `new_id`, the target and status `Queued` is added at the end.
pub open spec fn enqueued_as(
    before: Seq<QueuedJob>,
    after: Seq<QueuedJob>,
    r: EnqueueParseJobResult,
    new_id: String,
    file_id: Option<Seq<char>>,
    job_type: Seq<char>,
    locator: Option<Seq<char>>,
) -> bool {
    match active_match(before, file_id, job_type, locator, before.len() as int) {
        Some(k) => {
            &&& !r.inserted
            &&& r.id == before[k].id
            &&& after == before
        },
        None => {
            &&& r.inserted
            &&& r.id == new_id
            &&& after.len() == before.len() + 1
            &&& after.take(before.len() as int) == before
            &&& after.last().id == new_id
            &&& same_target(after.last(), file_id, job_type, locator)
            &&& after.last().status == JobStatus::Queued
        },
    }
}

/// Queues a job for a file (or, without a file, for the whole space) unless a waiting or
/// running job with the same file, type and locator exists; then that job is reused. The
/// locator is recorded trimmed, and absent when blank.
pub fn enqueue_job(
    jobs: &mut Vec<QueuedJob>,
    new_id: String,
    file_id: Option<String>,
    job_type: String,
    source_locator: Option<&str>,
) -> (r: EnqueueParseJobResult)
    ensures
        enqueued_as(
            old(jobs)@,
            final(jobs)@,
            r,
            new_id,
            opt_view(file_id),
            job_type@,
            queued_locator(source_locator),
        ),
{
    let locator = crate::locator::normalize_optional_source_locator(source_locator);
    let ghost want = recorded_locator(match source_locator {
        Some(v) => Some(v@),
        None => None,
    });
    assert(opt_view(locator) == want) by {
        match source_locator {
            Some(v) => {},
            None => {},
        }
    }
    let mut n = jobs.len();
    while n > 0
        invariant
            n <= jobs@.len(),
            jobs@ == old(jobs)@,
            opt_view(locator) == want,
            want == recorded_locator(match source_locator {
                Some(v) => Some(v@),
                None => None,
            }),
            active_match(jobs@, opt_view(file_id), job_type@, want, jobs@.len() as int) == active_match(
                jobs@,
                opt_view(file_id),
                job_type@,
                want,
                n as int,
            ),
        decreases n,
    {
        let job = &jobs[n - 1];
        let active = match job.status {
            JobStatus::Queued | JobStatus::Running => true,
            _ => false,
        };
        if active && opt_text_eq(&job.file_id, &file_id) && chars_eq(
            chars_of(job.job_type.as_str()).as_slice(),
            chars_of(job_type.as_str()).as_slice(),
        ) && opt_text_eq(&job.source_locator, &locator) {
            assert(active_match(jobs@, opt_view(file_id), job_type@, want, n as int) == Some((n - 1) as int));
            let id = job.id.clone();
            return EnqueueParseJobResult { id, inserted: false };
        }
        n = n - 1;
    }
    let job = QueuedJob {
        id: new_id.clone(),
        file_id,
        job_type,
        source_locator: locator,
        status: JobStatus::Queued,
    };
    let ghost before = jobs@;
    jobs.push(job);
    assert(jobs@.take(before.len() as int) =~= before);
    EnqueueParseJobResult { id: new_id, inserted: true }
}

/// Queues a parse job as `enqueue_job` does and gives the record a new job's row starts with:
/// a waiting or running job with the same file, type and trimmed locator is reused and
/// nothing is to be written; otherwise exactly one job is added, with status `Queued`, phase
/// `等待执行` and progress 0 of 1.
pub fn enqueue_parse_job(
    jobs: &mut Vec<QueuedJob>,
    new_id: String,
    file_id: Option<String>,
    job_type: String,
    source_locator: Option<&str>,
    now: &str,
) -> (r: (EnqueueParseJobResult, Option<ParseJobRecord>))
    ensures
        enqueued_as(
            old(jobs)@,
            final(jobs)@,
            r.0,
            new_id,
            opt_view(file_id),
            job_type@,
            queued_locator(source_locator),
        ),
        r.1 is Some <==> r.0.inserted,
        r.1 matches Some(rec) ==> fresh_queued(rec, now@),
{
    let result = enqueue_job(jobs, new_id, file_id, job_type, source_locator);
    if result.inserted {
        (result, Some(ParseJobRecord::queued(now)))
    } else {
        (result, None)
    }
}

/// Queuing never creates a second waiting or running job for the same file, type and
/// locator: a queue without such duplicates keeps having none.
pub proof fn law_enqueue_keeps_active_jobs_unique(
    jobs: Seq<QueuedJob>,
    after: Seq<QueuedJob>,
    r: EnqueueParseJobResult,
    new_id: String,
    file_id: Option<Seq<char>>,
    job_type: Seq<char>,
    source_locator: Option<Seq<char>>,
)
    requires
        no_duplicate_active(jobs),
        enqueued_as(jobs, after, r, new_id, file_id, job_type, source_locator),
    ensures
        no_duplicate_active(after),
{
    lemma_active_match(jobs, file_id, job_type, source_locator, jobs.len() as int);
    if active_match(jobs, file_id, job_type, source_locator, jobs.len() as int) is None {
        assert forall|i: int, j: int|
            0 <= i < j < after.len() && is_active(after[i].status) && is_active(after[j].status) implies !same_key(
            #[trigger] after[i],
            #[trigger] after[j],
        ) by {
            if j < jobs.len() {
                assert(after[i] == jobs[i]);
                assert(after[j] == jobs[j]);
            } else {
                assert(after[i] == jobs[i]);
                assert(!same_target(jobs[i], file_id, job_type, source_locator));
            }
        }
    }
}

} // verus!
