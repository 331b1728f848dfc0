//! Reconciling a folder scan with the files a knowledge space already records: which files
//! are refreshed, restored, added or deleted, and the summary reported for the scan.
use vstd::prelude::*;

use crate::text::chars_eq;
use crate::text::chars_of;
use crate::text::decimal;
use crate::text::decimal_chars;
use crate::text::push_chars;
use crate::text::push_str;
use crate::text::string_of;
use crate::locator::lookup_key;
use crate::locator::normalize_lookup_key;
use crate::models::ParseStatus;
use crate::models::ScanSummary;
use crate::models::ScannedFile;

verus! {

/// A file the space records, as the reconciliation reads it.
#[derive(Debug, Clone)]
pub struct ExistingFile {
    pub id: String,
    pub lookup_key: String,
    pub content_hash: Option<String>,
    pub modified_at: Option<String>,
    pub size_bytes: i64,
    pub parse_status: ParseStatus,
    pub deleted: bool,
}

/// What a scan does with one scanned file.
#[derive(Debug, Clone, Copy, PartialEq, Eq, Structural)]
pub enum ScanAction {
    /// Updates the recorded active file `existing` and sets its parse status to `status`;
    /// `changed` tells whether its content hash, modification time or size differ.
    Refresh { existing: usize, status: ParseStatus, changed: bool },
    /// Brings the soft-deleted file `existing` back, queued for parsing.
    Restore { existing: usize },
    /// Records a new file, queued for parsing.
    Insert,
}

/// Everything a scan writes: one action per scanned file, in order, the recorded files to
/// soft-delete (by position), and the summary.
#[derive(Debug, Clone)]
pub struct ScanPlan {
    pub actions: Vec<ScanAction>,
    pub deletions: Vec<usize>,
    pub summary: ScanSummary,
}

/// Whether an optional stored text equals `value`.
pub open spec fn stored_equals(stored: Option<String>, value: Seq<char>) -> bool {
    match stored {
        Some(s) => s@ == value,
        None => false,
    }
}

/// Whether a scanned file differs from its record: content hash, modification time or size.
pub open spec fn file_changed(existing: ExistingFile, scanned: ScannedFile) -> bool {
    !stored_equals(existing.content_hash, scanned.content_hash@)
        || !stored_equals(existing.modified_at, scanned.modified_at@)
        || existing.size_bytes != scanned.size_bytes
}

/// The position of the first record with lookup key `key` among the first `n` records.
pub open spec fn find_record(existing: Seq<ExistingFile>, key: Seq<char>, n: int) -> Option<int>
    decreases n,
{
    if n <= 0 {
        None
    } else {
        match find_record(existing, key, n - 1) {
            Some(i) => Some(i),
            None => if existing[n - 1].lookup_key@ == key {
                Some(n - 1)
            } else {
                None
            },
        }
    }
}

/// The action for one scanned file.
pub open spec fn action_for(existing: Seq<ExistingFile>, scanned: ScannedFile) -> ScanAction {
    match find_record(existing, lookup_key(scanned.relative_path@), existing.len() as int) {
        None => ScanAction::Insert,
        Some(i) => if existing[i].deleted {
            ScanAction::Restore { existing: i as usize }
        } else if file_changed(existing[i], scanned) {
            ScanAction::Refresh { existing: i as usize, status: ParseStatus::Changed, changed: true }
        } else {
            ScanAction::Refresh {
                existing: i as usize,
                status: existing[i].parse_status,
                changed: false,
            }
        },
    }
}

/// Whether some scanned file has lookup key `key`.
pub open spec fn key_scanned(scanned: Seq<ScannedFile>, key: Seq<char>) -> bool {
    exists|j: int| 0 <= j < scanned.len() && lookup_key((#[trigger] scanned[j]).relative_path@) == key
}

/// The positions, among the first `n` records, of the active records that no scanned file
/// matches.
pub open spec fn deletions_of(existing: Seq<ExistingFile>, scanned: Seq<ScannedFile>, n: int) -> Seq<usize>
    decreases n,
{
    if n <= 0 {
        seq![]
    } else {
        let before = deletions_of(existing, scanned, n - 1);
        if !existing[n - 1].deleted && !key_scanned(scanned, existing[n - 1].lookup_key@) {
            before.push((n - 1) as usize)
        } else {
            before
        }
    }
}

/// Whether an action counts as an added file.
pub open spec fn is_added(action: ScanAction) -> bool {
    action is Restore || action is Insert
}

/// Whether an action counts as a changed file.
pub open spec fn is_changed(action: ScanAction) -> bool {
    action matches ScanAction::Refresh { changed, .. } && changed
}

/// The number of added files among the first `n` actions.
pub open spec fn added_count(actions: Seq<ScanAction>, n: int) -> nat
    decreases n,
{
    if n <= 0 {
        0
    } else {
        added_count(actions, n - 1) + if is_added(actions[n - 1]) {
            1nat
        } else {
            0nat
        }
    }
}

/// The number of changed files among the first `n` actions.
pub open spec fn changed_count(actions: Seq<ScanAction>, n: int) -> nat
    decreases n,
{
    if n <= 0 {
        0
    } else {
        changed_count(actions, n - 1) + if is_changed(actions[n - 1]) {
            1nat
        } else {
            0nat
        }
    }
}

/// The actions for the scanned files, in order.
pub open spec fn actions_of(existing: Seq<ExistingFile>, scanned: Seq<ScannedFile>) -> Seq<ScanAction> {
    Seq::new(scanned.len(), |j: int| action_for(existing, scanned[j]))
}

/// Both counts are at most the number of actions counted.
pub proof fn lemma_counts_bounded(actions: Seq<ScanAction>, n: int)
    requires
        0 <= n,
    ensures
        added_count(actions, n) <= n,
        changed_count(actions, n) <= n,
        added_count(actions, n) + changed_count(actions, n) <= n,
    decreases n,
{
    if n > 0 {
        lemma_counts_bounded(actions, n - 1);
    }
}

/// At most `n` positions are deleted among the first `n` records, each below `n`.
pub proof fn lemma_deletions_bounded(existing: Seq<ExistingFile>, scanned: Seq<ScannedFile>, n: int)
    requires
        0 <= n,
    ensures
        deletions_of(existing, scanned, n).len() <= n,
        forall|k: int|
            0 <= k < deletions_of(existing, scanned, n).len() ==> #[trigger] deletions_of(
                existing,
                scanned,
                n,
            )[k] < n,
    decreases n,
{
    if n > 0 {
        lemma_deletions_bounded(existing, scanned, n - 1);
    }
}

/// The position of the first record with lookup key `key`.
fn find_existing(existing: &[ExistingFile], key: &[char]) -> (r: Option<usize>)
    ensures
        r matches Some(i) ==> i < existing@.len() && find_record(existing@, key@, existing@.len() as int) == Some(i as int),
        r is None ==> find_record(existing@, key@, existing@.len() as int) is None,
{
    let mut i: usize = 0;
    while i < existing.len()
        invariant
            i <= existing.len(),
            find_record(existing@, key@, i as int) is None,
        decreases existing.len() - i,
    {
        let k = chars_of(existing[i].lookup_key.as_str());
        if chars_eq(k.as_slice(), key) {
            assert(find_record(existing@, key@, i + 1) == Some(i as int));
            proof {
                lemma_find_record_stable(existing@, key@, i + 1, existing@.len() as int);
            }
            return Some(i);
        }
        i = i + 1;
    }
    None
}

/// Once a record is found among the first `m` records, it stays the first among more.
pub proof fn lemma_find_record_stable(existing: Seq<ExistingFile>, key: Seq<char>, m: int, n: int)
    requires
        m <= n,
        find_record(existing, key, m) is Some,
    ensures
        find_record(existing, key, n) == find_record(existing, key, m),
    decreases n - m,
{
    if m < n {
        lemma_find_record_stable(existing, key, m, n - 1);
    }
}

/// Whether a stored text equals `value`.
fn stored_is(stored: &Option<String>, value: &str) -> (r: bool)
    ensures
        r == stored_equals(*stored, value@),
{
    match stored {
        Some(s) => chars_eq(chars_of(s.as_str()).as_slice(), chars_of(value).as_slice()),
        None => false,
    }
}

/// Whether `key` is among `keys`.
fn key_among(keys: &Vec<String>, key: &str) -> (r: bool)
    ensures
        r == exists|j: int| 0 <= j < keys@.len() && (#[trigger] keys@[j])@ == key@,
{
    let wanted = chars_of(key);
    let mut j: usize = 0;
    while j < keys.len()
        invariant
            j <= keys.len(),
            wanted@ == key@,
            forall|k: int| 0 <= k < j ==> (#[trigger] keys@[k])@ != key@,
        decreases keys.len() - j,
    {
        if chars_eq(chars_of(keys[j].as_str()).as_slice(), wanted.as_slice()) {
            return true;
        }
        j = j + 1;
    }
    false
}

/// The plan for writing a scan: each scanned file refreshes the active record with its
/// lookup key (marked changed when its hash, time or size differ), restores a soft-deleted
/// one, or is inserted; every active record no scanned file matches is deleted. The summary
/// counts restored and inserted files as added, refreshed files that differ as changed, and
/// deleted records.
pub fn plan_scan_results(existing: &[ExistingFile], scanned: &[ScannedFile]) -> (r: ScanPlan)
    requires
        scanned@.len() <= u32::MAX,
        existing@.len() <= u32::MAX,
    ensures
        r.actions@ == actions_of(existing@, scanned@),
        r.deletions@ == deletions_of(existing@, scanned@, existing@.len() as int),
        r.summary.added_count == added_count(r.actions@, r.actions@.len() as int),
        r.summary.changed_count == changed_count(r.actions@, r.actions@.len() as int),
        r.summary.deleted_count == r.deletions@.len(),
        r.summary.failed_count == 0,
{
    let mut actions: Vec<ScanAction> = Vec::new();
    let mut keys: Vec<String> = Vec::new();
    let mut added: u32 = 0;
    let mut changed: u32 = 0;
    let mut j: usize = 0;
    while j < scanned.len()
        invariant
            j <= scanned.len(),
            scanned@.len() <= u32::MAX,
            actions@.len() == j,
            keys@.len() == j,
            forall|k: int| 0 <= k < j ==> #[trigger] actions@[k] == action_for(existing@, scanned@[k]),
            forall|k: int| 0 <= k < j ==> (#[trigger] keys@[k])@ == lookup_key(scanned@[k].relative_path@),
            added as nat == added_count(actions@, j as int),
            changed as nat == changed_count(actions@, j as int),
        decreases scanned.len() - j,
    {
        proof {
            lemma_counts_bounded(actions@, j as int);
        }
        let file = &scanned[j];
        let key = normalize_lookup_key(file.relative_path.as_str());
        let key_chars = chars_of(key.as_str());
        let action = match find_existing(existing, key_chars.as_slice()) {
            None => {
                added = added + 1;
                ScanAction::Insert
            },
            Some(i) => {
                let record = &existing[i];
                if record.deleted {
                    added = added + 1;
                    ScanAction::Restore { existing: i }
                } else {
                    let differs = !stored_is(&record.content_hash, file.content_hash.as_str())
                        || !stored_is(&record.modified_at, file.modified_at.as_str())
                        || record.size_bytes != file.size_bytes;
                    if differs {
                        changed = changed + 1;
                        ScanAction::Refresh { existing: i, status: ParseStatus::Changed, changed: true }
                    } else {
                        ScanAction::Refresh { existing: i, status: record.parse_status, changed: false }
                    }
                }
            },
        };
        let ghost before = actions@;
        actions.push(action);
        keys.push(key);
        assert(actions@.take(j as int) =~= before);
        assert(added_count(actions@, j as int) == added_count(before, j as int)
            && changed_count(actions@, j as int) == changed_count(before, j as int)) by {
            lemma_count_prefix(before, actions@, j as int);
        }
        j = j + 1;
    }
    assert(actions@ =~= actions_of(existing@, scanned@));
    let mut deletions: Vec<usize> = Vec::new();
    let mut i: usize = 0;
    while i < existing.len()
        invariant
            i <= existing.len(),
            existing@.len() <= u32::MAX,
            keys@.len() == scanned@.len(),
            forall|k: int| 0 <= k < keys@.len() ==> (#[trigger] keys@[k])@ == lookup_key(scanned@[k].relative_path@),
            deletions@ == deletions_of(existing@, scanned@, i as int),
        decreases existing.len() - i,
    {
        let record = &existing[i];
        if !record.deleted {
            let seen = key_among(&keys, record.lookup_key.as_str());
            proof {
                if seen {
                    let k = choose|k: int| 0 <= k < keys@.len() && (#[trigger] keys@[k])@ == record.lookup_key@;
                    assert(lookup_key(scanned@[k].relative_path@) == record.lookup_key@);
                } else if key_scanned(scanned@, record.lookup_key@) {
                    let k = choose|k: int| 0 <= k < scanned@.len() && lookup_key((#[trigger] scanned@[k]).relative_path@) == record.lookup_key@;
                    assert(keys@[k]@ == record.lookup_key@);
                }
            }
            if !seen {
                deletions.push(i);
            }
        }
        i = i + 1;
    }
    proof {
        lemma_deletions_bounded(existing@, scanned@, existing@.len() as int);
    }
    let deleted = deletions.len() as u32;
    ScanPlan {
        actions,
        deletions,
        summary: ScanSummary { added_count: added, changed_count: changed, deleted_count: deleted, failed_count: 0 },
    }
}

/// The counts over a prefix depend on that prefix alone.
pub proof fn lemma_count_prefix(a: Seq<ScanAction>, b: Seq<ScanAction>, n: int)
    requires
        0 <= n <= a.len(),
        n <= b.len(),
        forall|k: int| 0 <= k < n ==> a[k] == b[k],
    ensures
        added_count(a, n) == added_count(b, n),
        changed_count(a, n) == changed_count(b, n),
    decreases n,
{
    if n > 0 {
        lemma_count_prefix(a, b, n - 1);
    }
}

/// Rescanning a folder whose files all match active, unchanged records, with every active
/// record matched, reports nothing added, nothing changed and nothing deleted.
pub proof fn law_unchanged_rescan_reports_nothing(existing: Seq<ExistingFile>, scanned: Seq<ScannedFile>)
    requires
        forall|j: int|
            0 <= j < scanned.len() ==> (match #[trigger] find_record(
                existing,
                lookup_key(scanned[j].relative_path@),
                existing.len() as int,
            ) {
                Some(i) => !existing[i].deleted && !file_changed(existing[i], scanned[j]),
                None => false,
            }),
        forall|i: int|
            0 <= i < existing.len() && !(#[trigger] existing[i]).deleted ==> key_scanned(
                scanned,
                existing[i].lookup_key@,
            ),
    ensures
        added_count(actions_of(existing, scanned), scanned.len() as int) == 0,
        changed_count(actions_of(existing, scanned), scanned.len() as int) == 0,
        deletions_of(existing, scanned, existing.len() as int).len() == 0,
{
    let actions = actions_of(existing, scanned);
    assert forall|j: int| 0 <= j < scanned.len() implies !is_added(#[trigger] actions[j])
        && !is_changed(actions[j]) by {
        let f = find_record(existing, lookup_key(scanned[j].relative_path@), existing.len() as int);
        assert(f is Some);
    }
    lemma_no_counts(actions, scanned.len() as int);
    lemma_no_deletions(existing, scanned, existing.len() as int);
}

/// With no added or changed action among the first `n`, both counts are zero.
proof fn lemma_no_counts(actions: Seq<ScanAction>, n: int)
    requires
        n <= actions.len(),
        forall|j: int| 0 <= j < actions.len() ==> !is_added(#[trigger] actions[j]) && !is_changed(actions[j]),
    ensures
        added_count(actions, n) == 0,
        changed_count(actions, n) == 0,
    decreases n,
{
    if n > 0 {
        lemma_no_counts(actions, n - 1);
    }
}

/// With every active record matched, nothing is deleted.
proof fn lemma_no_deletions(existing: Seq<ExistingFile>, scanned: Seq<ScannedFile>, n: int)
    requires
        n <= existing.len(),
        forall|i: int|
            0 <= i < existing.len() && !(#[trigger] existing[i]).deleted ==> key_scanned(
                scanned,
                existing[i].lookup_key@,
            ),
    ensures
        deletions_of(existing, scanned, n).len() == 0,
    decreases n,
{
    if n > 0 {
        lemma_no_deletions(existing, scanned, n - 1);
    }
}

/// A scan loses no active record: each one is matched by a scanned file or listed for
/// deletion, and a listed record is active and matched by no scanned file.
pub proof fn law_scan_keeps_or_deletes_every_record(
    existing: Seq<ExistingFile>,
    scanned: Seq<ScannedFile>,
    i: int,
)
    requires
        0 <= i < existing.len(),
        existing.len() <= usize::MAX,
    ensures
        !existing[i].deleted ==> (key_scanned(scanned, existing[i].lookup_key@)
            || deletions_of(existing, scanned, existing.len() as int).contains(i as usize)),
        deletions_of(existing, scanned, existing.len() as int).contains(i as usize) ==> (
        !existing[i].deleted && !key_scanned(scanned, existing[i].lookup_key@)),
{
    lemma_deletions_members(existing, scanned, existing.len() as int, i);
}

/// Position `i` is deleted among the first `n` records exactly when it is below `n`, active
/// and unmatched.
proof fn lemma_deletions_members(existing: Seq<ExistingFile>, scanned: Seq<ScannedFile>, n: int, i: int)
    requires
        0 <= i < existing.len(),
        n <= existing.len(),
        existing.len() <= usize::MAX,
    ensures
        deletions_of(existing, scanned, n).contains(i as usize) <==> (i < n && !existing[i].deleted
            && !key_scanned(scanned, existing[i].lookup_key@)),
    decreases n,
{
    if n > 0 {
        lemma_deletions_members(existing, scanned, n - 1, i);
        lemma_deletions_bounded(existing, scanned, n - 1);
        let before = deletions_of(existing, scanned, n - 1);
        if !existing[n - 1].deleted && !key_scanned(scanned, existing[n - 1].lookup_key@) {
            let after = before.push((n - 1) as usize);
            assert(after[before.len() as int] == (n - 1) as usize);
            if after.contains(i as usize) && i != n - 1 {
                let k = choose|k: int| 0 <= k < after.len() && after[k] == i as usize;
                if k < before.len() {
                    assert(before[k] == i as usize);
                }
            }
            if before.contains(i as usize) {
                let k = choose|k: int| 0 <= k < before.len() && before[k] == i as usize;
                assert(after[k] == i as usize);
            }
        } else {
            if before.contains(i as usize) {
                let k = choose|k: int| 0 <= k < before.len() && before[k] == i as usize;
                assert(before[k] < n - 1);
            }
        }
    } else {
        assert(deletions_of(existing, scanned, n) =~= Seq::<usize>::empty());
    }
}

/// The message recorded for a finished scan.
pub open spec fn scan_message(summary: ScanSummary) -> Seq<char> {
    "新增 "@ + decimal(summary.added_count as nat) + " 个，变更 "@ + decimal(summary.changed_count as nat)
        + " 个，删除 "@ + decimal(summary.deleted_count as nat) + " 个"@
}

/// The message recorded for a finished scan: how many files were added, changed and deleted.
pub fn scan_summary_message(summary: &ScanSummary) -> (r: String)
    ensures
        r@ == scan_message(*summary),
{
    let mut out: Vec<char> = Vec::new();
    push_str(&mut out, "新增 ");
    push_chars(&mut out, decimal_chars(summary.added_count as u64).as_slice());
    push_str(&mut out, " 个，变更 ");
    push_chars(&mut out, decimal_chars(summary.changed_count as u64).as_slice());
    push_str(&mut out, " 个，删除 ");
    push_chars(&mut out, decimal_chars(summary.deleted_count as u64).as_slice());
    push_str(&mut out, " 个");
    assert(out@ =~= scan_message(*summary));
    string_of(out.as_slice())
}

} // verus!
