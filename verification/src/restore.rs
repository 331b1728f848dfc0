//! The guarded restore of a backup: a read-only preflight checks the format version, the
//! relative paths inside the backup and its reference structure, and a restore that would
//! overwrite an existing knowledge space needs the user's explicit confirmation.
use vstd::prelude::*;

use crate::backup::backup_format;
use crate::backup::exported_as;
use crate::backup::kept_blocks;
use crate::backup::kept_files;
use crate::backup::kept_notes;
use crate::backup::kept_trash;
use crate::backup::lemma_kept_blocks;
use crate::backup::lemma_kept_notes;
use crate::backup::lemma_kept_trash;
use crate::backup::without_error;
use crate::backup::file_ref_kept;
use crate::backup::has_file;
use crate::backup::has_note;
use crate::backup::note_ref_kept;
use crate::backup::trash_target_found;
use crate::backup::trash_target_listed;
use crate::backup::BACKUP_SCHEMA_VERSION;
use crate::error::AppError;
use crate::models::BackupExport;
use crate::models::BackupExportFile;
use crate::models::BackupExportKnowledgeBlock;
use crate::models::BackupExportMarkdownNote;
use crate::models::BackupExportSpace;
use crate::models::BackupExportTrashEntry;
use crate::models::BackupExportParseJob;
use crate::models::BackupRestorePreflight;
use crate::models::BackupRestoreResult;
use crate::text::chars_eq;
use crate::text::chars_of;
use crate::text::string_of;

verus! {

/// Whether `c` separates the steps of a path.
pub open spec fn is_separator(c: char) -> bool {
    c == '/' || c == '\\'
}

/// Whether a path starts at a root: a leading separator, or a drive letter and a colon.
pub open spec fn rooted_path(p: Seq<char>) -> bool {
    (p.len() > 0 && is_separator(p[0])) || (p.len() > 1 && p[1] == ':')
}

/// Whether the step of `p` that starts at `i` is `..`.
pub open spec fn parent_step_at(p: Seq<char>, i: int) -> bool {
    &&& 0 <= i
    &&& i + 2 <= p.len()
    &&& p[i] == '.'
    &&& p[i + 1] == '.'
    &&& (i == 0 || is_separator(p[i - 1]))
    &&& (i + 2 == p.len() || is_separator(p[i + 2]))
}

/// Whether a path stays inside the folder it is relative to: it starts at no root and no
/// step of it is `..`.
pub open spec fn safe_relative_path(p: Seq<char>) -> bool {
    !rooted_path(p) && !(exists|i: int| #[trigger] parent_step_at(p, i))
}

/// Whether a path stays inside the folder it is relative to.
pub fn is_safe_relative_path(path: &str) -> (r: bool)
    ensures
        r == safe_relative_path(path@),
{
    let p = chars_of(path);
    let n = p.len();
    if n > 0 && (p[0] == '/' || p[0] == '\\') {
        return false;
    }
    if n > 1 && p[1] == ':' {
        return false;
    }
    let mut i: usize = 0;
    while i < n && n - i > 1
        invariant
            i <= n,
            n == p@.len(),
            p@ == path@,
            !rooted_path(p@),
            forall|j: int| 0 <= j < i ==> !#[trigger] parent_step_at(p@, j),
        decreases n - i,
    {
        let before = i == 0 || p[i - 1] == '/' || p[i - 1] == '\\';
        let after = i + 2 == n || p[i + 2] == '/' || p[i + 2] == '\\';
        if p[i] == '.' && p[i + 1] == '.' && before && after {
            assert(parent_step_at(p@, i as int));
            return false;
        }
        i = i + 1;
    }
    assert forall|j: int| !#[trigger] parent_step_at(p@, j) by {
        if 0 <= j && j < i {
        }
    }
    true
}

/// Whether the backup's format and version are the ones this library writes.
pub open spec fn version_supported(b: BackupExport) -> bool {
    b.format@ == backup_format() && b.schema_version == BACKUP_SCHEMA_VERSION
}

/// Whether a job's optional locator stays inside the space (no locator is fine).
pub open spec fn job_locator_safe(job: BackupExportParseJob) -> bool {
    match job.source_locator {
        Some(l) => safe_relative_path(l@),
        None => true,
    }
}

/// Whether every path and locator inside the backup stays inside the knowledge space.
pub open spec fn paths_safe(b: BackupExport) -> bool {
    &&& forall|k: int|
        0 <= k < b.files@.len() ==> safe_relative_path((#[trigger] b.files@[k]).relative_path@)
    &&& forall|k: int|
        0 <= k < b.markdown_notes@.len() ==> safe_relative_path(
            (#[trigger] b.markdown_notes@[k]).relative_path@,
        )
    &&& forall|k: int|
        0 <= k < b.knowledge_blocks@.len() ==> safe_relative_path(
            (#[trigger] b.knowledge_blocks@[k]).source_locator@,
        )
    &&& forall|k: int| 0 <= k < b.parse_jobs@.len() ==> job_locator_safe(#[trigger] b.parse_jobs@[k])
    &&& forall|k: int|
        0 <= k < b.trash_entries@.len() ==> safe_relative_path(
            (#[trigger] b.trash_entries@[k]).original_locator@,
        )
}

/// Whether every reference inside the backup points at a row of the backup: the active
/// space of the workspace, each note's file, each block's file and note, and the row each
/// trash entry names.
pub open spec fn references_closed(b: BackupExport) -> bool {
    &&& b.workspace.active_space_id@ == b.space.id@
    &&& forall|k: int|
        0 <= k < b.markdown_notes@.len() ==> file_ref_kept(
            (#[trigger] b.markdown_notes@[k]).file_id,
            b.files@,
        )
    &&& forall|k: int|
        0 <= k < b.knowledge_blocks@.len() ==> file_ref_kept(
            (#[trigger] b.knowledge_blocks@[k]).file_id,
            b.files@,
        ) && note_ref_kept(b.knowledge_blocks@[k].note_id, b.markdown_notes@)
    &&& forall|k: int|
        0 <= k < b.trash_entries@.len() ==> trash_target_listed(
            #[trigger] b.trash_entries@[k],
            b.files@,
            b.markdown_notes@,
            b.knowledge_blocks@,
        )
}

/// Whether the preflight accepts a backup.
pub open spec fn restorable(b: BackupExport) -> bool {
    version_supported(b) && paths_safe(b) && references_closed(b)
}

/// The message of a backup whose format or version is not supported.
pub open spec fn unsupported_version_message() -> Seq<char> {
    "备份格式版本不受支持"@
}

/// The message of a backup with a path that leaves the knowledge space.
pub open spec fn unsafe_path_message() -> Seq<char> {
    "备份包含超出知识库目录的相对路径"@
}

/// The message of a backup with a reference to a row it does not hold.
pub open spec fn broken_reference_message() -> Seq<char> {
    "备份中的引用结构不完整"@
}

/// The message of a restore that would overwrite a space without confirmation.
pub open spec fn overwrite_unconfirmed_message() -> Seq<char> {
    "恢复会覆盖同 ID 知识库，请先确认覆盖"@
}

/// Whether every path and locator of the backup stays inside the knowledge space.
fn backup_paths_safe(b: &BackupExport) -> (r: bool)
    ensures
        r == paths_safe(*b),
{
    let mut k: usize = 0;
    while k < b.files.len()
        invariant
            k <= b.files@.len(),
            forall|j: int| 0 <= j < k ==> safe_relative_path((#[trigger] b.files@[j]).relative_path@),
        decreases b.files@.len() - k,
    {
        if !is_safe_relative_path(b.files[k].relative_path.as_str()) {
            return false;
        }
        k = k + 1;
    }
    let mut k: usize = 0;
    while k < b.markdown_notes.len()
        invariant
            k <= b.markdown_notes@.len(),
            forall|j: int|
                0 <= j < k ==> safe_relative_path((#[trigger] b.markdown_notes@[j]).relative_path@),
        decreases b.markdown_notes@.len() - k,
    {
        if !is_safe_relative_path(b.markdown_notes[k].relative_path.as_str()) {
            return false;
        }
        k = k + 1;
    }
    let mut k: usize = 0;
    while k < b.knowledge_blocks.len()
        invariant
            k <= b.knowledge_blocks@.len(),
            forall|j: int|
                0 <= j < k ==> safe_relative_path((#[trigger] b.knowledge_blocks@[j]).source_locator@),
        decreases b.knowledge_blocks@.len() - k,
    {
        if !is_safe_relative_path(b.knowledge_blocks[k].source_locator.as_str()) {
            return false;
        }
        k = k + 1;
    }
    let mut k: usize = 0;
    while k < b.parse_jobs.len()
        invariant
            k <= b.parse_jobs@.len(),
            forall|j: int| 0 <= j < k ==> job_locator_safe(#[trigger] b.parse_jobs@[j]),
        decreases b.parse_jobs@.len() - k,
    {
        let ok = match &b.parse_jobs[k].source_locator {
            Some(l) => is_safe_relative_path(l.as_str()),
            None => true,
        };
        if !ok {
            return false;
        }
        k = k + 1;
    }
    let mut k: usize = 0;
    while k < b.trash_entries.len()
        invariant
            k <= b.trash_entries@.len(),
            forall|j: int|
                0 <= j < k ==> safe_relative_path((#[trigger] b.trash_entries@[j]).original_locator@),
        decreases b.trash_entries@.len() - k,
    {
        if !is_safe_relative_path(b.trash_entries[k].original_locator.as_str()) {
            return false;
        }
        k = k + 1;
    }
    true
}

/// Whether every reference of the backup points at a row of the backup.
fn backup_references_closed(b: &BackupExport) -> (r: bool)
    ensures
        r == references_closed(*b),
{
    if !chars_eq(
        chars_of(b.workspace.active_space_id.as_str()).as_slice(),
        chars_of(b.space.id.as_str()).as_slice(),
    ) {
        return false;
    }
    let mut k: usize = 0;
    while k < b.markdown_notes.len()
        invariant
            k <= b.markdown_notes@.len(),
            forall|j: int|
                0 <= j < k ==> file_ref_kept((#[trigger] b.markdown_notes@[j]).file_id, b.files@),
        decreases b.markdown_notes@.len() - k,
    {
        let ok = match &b.markdown_notes[k].file_id {
            Some(id) => has_file(&b.files, id.as_str()),
            None => true,
        };
        if !ok {
            return false;
        }
        k = k + 1;
    }
    let mut k: usize = 0;
    while k < b.knowledge_blocks.len()
        invariant
            k <= b.knowledge_blocks@.len(),
            forall|j: int|
                0 <= j < k ==> file_ref_kept((#[trigger] b.knowledge_blocks@[j]).file_id, b.files@)
                    && note_ref_kept(b.knowledge_blocks@[j].note_id, b.markdown_notes@),
        decreases b.knowledge_blocks@.len() - k,
    {
        let file_ok = match &b.knowledge_blocks[k].file_id {
            Some(id) => has_file(&b.files, id.as_str()),
            None => true,
        };
        let note_ok = match &b.knowledge_blocks[k].note_id {
            Some(id) => has_note(&b.markdown_notes, id.as_str()),
            None => true,
        };
        if !(file_ok && note_ok) {
            return false;
        }
        k = k + 1;
    }
    let mut k: usize = 0;
    while k < b.trash_entries.len()
        invariant
            k <= b.trash_entries@.len(),
            forall|j: int|
                0 <= j < k ==> trash_target_listed(
                    #[trigger] b.trash_entries@[j],
                    b.files@,
                    b.markdown_notes@,
                    b.knowledge_blocks@,
                ),
        decreases b.trash_entries@.len() - k,
    {
        if !trash_target_found(&b.trash_entries[k], &b.files, &b.markdown_notes, &b.knowledge_blocks) {
            return false;
        }
        k = k + 1;
    }
    true
}

/// The read-only preflight of a restore. A backup is refused, with a `Filesystem` error
/// that says why, when its format or version is not supported, then when one of its paths
/// leaves the knowledge space, then when one of its references is broken; otherwise the
/// preflight shows what the backup holds and whether restoring it overwrites a space.
pub fn preflight_backup_restore(
    backup: &BackupExport,
    path: String,
    file_name: String,
    will_overwrite: bool,
) -> (r: Result<BackupRestorePreflight, AppError>)
    requires
        backup.files@.len() <= u32::MAX,
        backup.knowledge_blocks@.len() <= u32::MAX,
        backup.parse_jobs@.len() <= u32::MAX,
        backup.trash_entries@.len() <= u32::MAX,
    ensures
        r is Ok <==> restorable(*backup),
        !version_supported(*backup) ==> (r matches Err(AppError::Filesystem(m))
            && m@ == unsupported_version_message()),
        version_supported(*backup) && !paths_safe(*backup) ==> (r matches Err(
            AppError::Filesystem(m),
        ) && m@ == unsafe_path_message()),
        version_supported(*backup) && paths_safe(*backup) && !references_closed(*backup) ==> (r matches Err(
            AppError::Filesystem(m),
        ) && m@ == broken_reference_message()),
        r matches Ok(p) ==> {
            &&& p.path == path
            &&& p.file_name == file_name
            &&& p.format == backup.format
            &&& p.schema_version == backup.schema_version
            &&& p.exported_at == backup.exported_at
            &&& p.space_id == backup.space.id
            &&& p.space_name == backup.space.name
            &&& p.root_path == backup.space.root_path
            &&& p.default_permission == backup.space.default_permission
            &&& p.file_count == backup.files@.len()
            &&& p.knowledge_block_count == backup.knowledge_blocks@.len()
            &&& p.parse_job_count == backup.parse_jobs@.len()
            &&& p.trash_entry_count == backup.trash_entries@.len()
            &&& p.will_overwrite == will_overwrite
        },
{
    let format_ok = chars_eq(
        chars_of(backup.format.as_str()).as_slice(),
        chars_of("library.backup.v1").as_slice(),
    );
    if !(format_ok && backup.schema_version == BACKUP_SCHEMA_VERSION) {
        return Err(AppError::Filesystem(string_of(chars_of("备份格式版本不受支持").as_slice())));
    }
    if !backup_paths_safe(backup) {
        return Err(
            AppError::Filesystem(string_of(chars_of("备份包含超出知识库目录的相对路径").as_slice())),
        );
    }
    if !backup_references_closed(backup) {
        return Err(AppError::Filesystem(string_of(chars_of("备份中的引用结构不完整").as_slice())));
    }
    Ok(
        BackupRestorePreflight {
            path,
            file_name,
            format: backup.format.clone(),
            schema_version: backup.schema_version,
            exported_at: backup.exported_at.clone(),
            space_id: backup.space.id.clone(),
            space_name: backup.space.name.clone(),
            root_path: backup.space.root_path.clone(),
            default_permission: backup.space.default_permission,
            file_count: backup.files.len() as u32,
            knowledge_block_count: backup.knowledge_blocks.len() as u32,
            parse_job_count: backup.parse_jobs.len() as u32,
            trash_entry_count: backup.trash_entries.len() as u32,
            will_overwrite,
        },
    )
}

/// The decision of a restore after its preflight: a restore that would overwrite an
/// existing space is refused (`PermissionDenied`) unless the user confirmed the overwrite;
/// otherwise the result repeats the preflight, with the time of the restore and whether a
/// space was overwritten.
pub fn confirm_backup_restore(
    preflight: BackupRestorePreflight,
    confirm_overwrite: bool,
    restored_at: String,
) -> (r: Result<BackupRestoreResult, AppError>)
    ensures
        r is Err <==> preflight.will_overwrite && !confirm_overwrite,
        r matches Err(e) ==> (e matches AppError::PermissionDenied(m) && m@
            == overwrite_unconfirmed_message()),
        r matches Ok(res) ==> {
            &&& res.path == preflight.path
            &&& res.file_name == preflight.file_name
            &&& res.format == preflight.format
            &&& res.schema_version == preflight.schema_version
            &&& res.exported_at == preflight.exported_at
            &&& res.space_id == preflight.space_id
            &&& res.space_name == preflight.space_name
            &&& res.root_path == preflight.root_path
            &&& res.default_permission == preflight.default_permission
            &&& res.file_count == preflight.file_count
            &&& res.knowledge_block_count == preflight.knowledge_block_count
            &&& res.parse_job_count == preflight.parse_job_count
            &&& res.trash_entry_count == preflight.trash_entry_count
            &&& res.will_overwrite == preflight.will_overwrite
            &&& res.restored_at == restored_at
            &&& res.overwritten == preflight.will_overwrite
        },
{
    if preflight.will_overwrite && !confirm_overwrite {
        return Err(
            AppError::PermissionDenied(
                string_of(chars_of("恢复会覆盖同 ID 知识库，请先确认覆盖").as_slice()),
            ),
        );
    }
    let overwritten = preflight.will_overwrite;
    Ok(
        BackupRestoreResult {
            path: preflight.path,
            file_name: preflight.file_name,
            format: preflight.format,
            schema_version: preflight.schema_version,
            exported_at: preflight.exported_at,
            space_id: preflight.space_id,
            space_name: preflight.space_name,
            root_path: preflight.root_path,
            default_permission: preflight.default_permission,
            file_count: preflight.file_count,
            knowledge_block_count: preflight.knowledge_block_count,
            parse_job_count: preflight.parse_job_count,
            trash_entry_count: preflight.trash_entry_count,
            will_overwrite: preflight.will_overwrite,
            restored_at,
            overwritten,
        },
    )
}

/// Every kept file has a path inside the space when every file has.
proof fn lemma_kept_files_stay_inside(files: Seq<BackupExportFile>, n: int)
    requires
        0 <= n <= files.len(),
        forall|j: int| 0 <= j < files.len() ==> safe_relative_path((#[trigger] files[j]).relative_path@),
    ensures
        forall|k: int|
            0 <= k < kept_files(files, n).len() ==> safe_relative_path(
                (#[trigger] kept_files(files, n)[k]).relative_path@,
            ),
    decreases n,
{
    if n > 0 {
        lemma_kept_files_stay_inside(files, n - 1);
        let prev = kept_files(files, n - 1);
        assert forall|k: int| 0 <= k < kept_files(files, n).len() implies safe_relative_path(
            (#[trigger] kept_files(files, n)[k]).relative_path@,
        ) by {
            if k < prev.len() {
                assert(kept_files(files, n)[k] == prev[k]);
            } else {
                assert(kept_files(files, n)[k] == files[n - 1]);
            }
        }
    }
}

/// Every kept note has a path inside the space when every note has.
proof fn lemma_kept_notes_stay_inside(
    notes: Seq<BackupExportMarkdownNote>,
    files: Seq<BackupExportFile>,
    n: int,
)
    requires
        0 <= n <= notes.len(),
        forall|j: int| 0 <= j < notes.len() ==> safe_relative_path((#[trigger] notes[j]).relative_path@),
    ensures
        forall|k: int|
            0 <= k < kept_notes(notes, files, n).len() ==> safe_relative_path(
                (#[trigger] kept_notes(notes, files, n)[k]).relative_path@,
            ),
    decreases n,
{
    if n > 0 {
        lemma_kept_notes_stay_inside(notes, files, n - 1);
        let prev = kept_notes(notes, files, n - 1);
        assert forall|k: int| 0 <= k < kept_notes(notes, files, n).len() implies safe_relative_path(
            (#[trigger] kept_notes(notes, files, n)[k]).relative_path@,
        ) by {
            if k < prev.len() {
                assert(kept_notes(notes, files, n)[k] == prev[k]);
            } else {
                assert(kept_notes(notes, files, n)[k] == notes[n - 1]);
            }
        }
    }
}

/// Every kept block has a locator inside the space when every block has.
proof fn lemma_kept_blocks_stay_inside(
    blocks: Seq<BackupExportKnowledgeBlock>,
    files: Seq<BackupExportFile>,
    notes: Seq<BackupExportMarkdownNote>,
    n: int,
)
    requires
        0 <= n <= blocks.len(),
        forall|j: int| 0 <= j < blocks.len() ==> safe_relative_path((#[trigger] blocks[j]).source_locator@),
    ensures
        forall|k: int|
            0 <= k < kept_blocks(blocks, files, notes, n).len() ==> safe_relative_path(
                (#[trigger] kept_blocks(blocks, files, notes, n)[k]).source_locator@,
            ),
    decreases n,
{
    if n > 0 {
        lemma_kept_blocks_stay_inside(blocks, files, notes, n - 1);
        let prev = kept_blocks(blocks, files, notes, n - 1);
        assert forall|k: int| 0 <= k < kept_blocks(blocks, files, notes, n).len() implies safe_relative_path(
            (#[trigger] kept_blocks(blocks, files, notes, n)[k]).source_locator@,
        ) by {
            if k < prev.len() {
                assert(kept_blocks(blocks, files, notes, n)[k] == prev[k]);
            } else {
                assert(kept_blocks(blocks, files, notes, n)[k] == blocks[n - 1]);
            }
        }
    }
}

/// Every kept trash entry has a locator inside the space when every entry has.
proof fn lemma_kept_trash_stays_inside(
    entries: Seq<BackupExportTrashEntry>,
    files: Seq<BackupExportFile>,
    notes: Seq<BackupExportMarkdownNote>,
    blocks: Seq<BackupExportKnowledgeBlock>,
    n: int,
)
    requires
        0 <= n <= entries.len(),
        forall|j: int| 0 <= j < entries.len() ==> safe_relative_path((#[trigger] entries[j]).original_locator@),
    ensures
        forall|k: int|
            0 <= k < kept_trash(entries, files, notes, blocks, n).len() ==> safe_relative_path(
                (#[trigger] kept_trash(entries, files, notes, blocks, n)[k]).original_locator@,
            ),
    decreases n,
{
    if n > 0 {
        lemma_kept_trash_stays_inside(entries, files, notes, blocks, n - 1);
        let prev = kept_trash(entries, files, notes, blocks, n - 1);
        assert forall|k: int|
            0 <= k < kept_trash(entries, files, notes, blocks, n).len() implies safe_relative_path(
            (#[trigger] kept_trash(entries, files, notes, blocks, n)[k]).original_locator@,
        ) by {
            if k < prev.len() {
                assert(kept_trash(entries, files, notes, blocks, n)[k] == prev[k]);
            } else {
                assert(kept_trash(entries, files, notes, blocks, n)[k] == entries[n - 1]);
            }
        }
    }
}

/// A backup that the export built passes the restore preflight, provided every path and
/// locator of the rows it was built from stays inside the knowledge space.
pub proof fn law_exported_backup_is_restorable(
    backup: BackupExport,
    space: BackupExportSpace,
    exported_at: String,
    files: Seq<BackupExportFile>,
    notes: Seq<BackupExportMarkdownNote>,
    blocks: Seq<BackupExportKnowledgeBlock>,
    parse_jobs: Seq<BackupExportParseJob>,
    trash_entries: Seq<BackupExportTrashEntry>,
)
    requires
        exported_as(backup, space, exported_at, files, notes, blocks, parse_jobs, trash_entries),
        forall|j: int| 0 <= j < files.len() ==> safe_relative_path((#[trigger] files[j]).relative_path@),
        forall|j: int| 0 <= j < notes.len() ==> safe_relative_path((#[trigger] notes[j]).relative_path@),
        forall|j: int| 0 <= j < blocks.len() ==> safe_relative_path((#[trigger] blocks[j]).source_locator@),
        forall|j: int| 0 <= j < parse_jobs.len() ==> job_locator_safe(#[trigger] parse_jobs[j]),
        forall|j: int|
            0 <= j < trash_entries.len() ==> safe_relative_path((#[trigger] trash_entries[j]).original_locator@),
    ensures
        restorable(backup),
{
    let kf = backup.files@;
    let kn = backup.markdown_notes@;
    let kb = backup.knowledge_blocks@;
    lemma_kept_files_stay_inside(files, files.len() as int);
    lemma_kept_notes_stay_inside(notes, kf, notes.len() as int);
    lemma_kept_blocks_stay_inside(blocks, kf, kn, blocks.len() as int);
    lemma_kept_trash_stays_inside(trash_entries, kf, kn, kb, trash_entries.len() as int);
    lemma_kept_notes(notes, kf, notes.len() as int);
    lemma_kept_blocks(blocks, kf, kn, blocks.len() as int);
    lemma_kept_trash(trash_entries, kf, kn, kb, trash_entries.len() as int);
    assert forall|k: int| 0 <= k < backup.parse_jobs@.len() implies job_locator_safe(
        #[trigger] backup.parse_jobs@[k],
    ) by {
        assert(backup.parse_jobs@[k] == without_error(parse_jobs[k]));
        assert(job_locator_safe(parse_jobs[k]));
    }
}

} // verus!
