//! What a knowledge space's backup holds: rows whose locators are sensitive (environment
//! files, OCR models and runs) stay out, and so does every row that points at a row left
//! out, so that a restored backup never refers to a missing row.
use vstd::prelude::*;

use crate::jobs::is_sensitive_backup_locator;
use crate::jobs::sensitive_locator;
use crate::models::BackupExport;
use crate::models::BackupExportFile;
use crate::models::BackupExportKnowledgeBlock;
use crate::models::BackupExportMarkdownNote;
use crate::models::BackupExportParseJob;
use crate::models::BackupExportSpace;
use crate::models::BackupExportTrashEntry;
use crate::models::BackupExportWorkspace;
use crate::text::chars_eq;
use crate::text::chars_of;
use crate::text::string_of;

verus! {

/// The format name written into every backup.
pub open spec fn backup_format() -> Seq<char> {
    "library.backup.v1"@
}

/// The version of the backup layout.
pub const BACKUP_SCHEMA_VERSION: u32 = 1;

/// Whether some file of `files` has id `id`.
pub open spec fn file_listed(files: Seq<BackupExportFile>, id: Seq<char>) -> bool {
    exists|k: int| 0 <= k < files.len() && (#[trigger] files[k]).id@ == id
}

/// Whether some note of `notes` has id `id`.
pub open spec fn note_listed(notes: Seq<BackupExportMarkdownNote>, id: Seq<char>) -> bool {
    exists|k: int| 0 <= k < notes.len() && (#[trigger] notes[k]).id@ == id
}

/// Whether some block of `blocks` has id `id`.
pub open spec fn block_listed(blocks: Seq<BackupExportKnowledgeBlock>, id: Seq<char>) -> bool {
    exists|k: int| 0 <= k < blocks.len() && (#[trigger] blocks[k]).id@ == id
}

/// Whether an optional file reference points at a file of `files` (no reference is fine).
pub open spec fn file_ref_kept(file_id: Option<String>, files: Seq<BackupExportFile>) -> bool {
    match file_id {
        Some(id) => file_listed(files, id@),
        None => true,
    }
}

/// Whether an optional note reference points at a note of `notes` (no reference is fine).
pub open spec fn note_ref_kept(note_id: Option<String>, notes: Seq<BackupExportMarkdownNote>) -> bool {
    match note_id {
        Some(id) => note_listed(notes, id@),
        None => true,
    }
}

/// Whether a file goes into the backup.
pub open spec fn keeps_file(file: BackupExportFile) -> bool {
    !sensitive_locator(file.relative_path@)
}

/// Whether a note goes into the backup, given the files that do.
pub open spec fn keeps_note(note: BackupExportMarkdownNote, files: Seq<BackupExportFile>) -> bool {
    !sensitive_locator(note.relative_path@) && file_ref_kept(note.file_id, files)
}

/// Whether a block goes into the backup, given the files and notes that do.
pub open spec fn keeps_block(
    block: BackupExportKnowledgeBlock,
    files: Seq<BackupExportFile>,
    notes: Seq<BackupExportMarkdownNote>,
) -> bool {
    !sensitive_locator(block.source_locator@) && file_ref_kept(block.file_id, files) && note_ref_kept(
        block.note_id,
        notes,
    )
}

/// Whether a trash entry goes into the backup, given the files, notes and blocks that do:
/// it must name one of them by its kind.
pub open spec fn keeps_trash_entry(
    entry: BackupExportTrashEntry,
    files: Seq<BackupExportFile>,
    notes: Seq<BackupExportMarkdownNote>,
    blocks: Seq<BackupExportKnowledgeBlock>,
) -> bool {
    !sensitive_locator(entry.original_locator@) && trash_target_listed(entry, files, notes, blocks)
}

/// Whether the row that a trash entry names, by its kind and id, is among `files`, `notes`
/// or `blocks`; an entry of another kind names nothing.
pub open spec fn trash_target_listed(
    entry: BackupExportTrashEntry,
    files: Seq<BackupExportFile>,
    notes: Seq<BackupExportMarkdownNote>,
    blocks: Seq<BackupExportKnowledgeBlock>,
) -> bool {
    if entry.entity_kind@ == "file"@ {
        file_listed(files, entry.entity_id@)
    } else if entry.entity_kind@ == "markdown_note"@ {
        note_listed(notes, entry.entity_id@)
    } else if entry.entity_kind@ == "knowledge_block"@ {
        block_listed(blocks, entry.entity_id@)
    } else {
        false
    }
}

/// The files among the first `n` that go into the backup, in order.
pub open spec fn kept_files(files: Seq<BackupExportFile>, n: int) -> Seq<BackupExportFile>
    decreases n,
{
    if n <= 0 {
        seq![]
    } else if keeps_file(files[n - 1]) {
        kept_files(files, n - 1).push(files[n - 1])
    } else {
        kept_files(files, n - 1)
    }
}

/// The notes among the first `n` that go into the backup, in order.
pub open spec fn kept_notes(
    notes: Seq<BackupExportMarkdownNote>,
    files: Seq<BackupExportFile>,
    n: int,
) -> Seq<BackupExportMarkdownNote>
    decreases n,
{
    if n <= 0 {
        seq![]
    } else if keeps_note(notes[n - 1], files) {
        kept_notes(notes, files, n - 1).push(notes[n - 1])
    } else {
        kept_notes(notes, files, n - 1)
    }
}

/// The blocks among the first `n` that go into the backup, in order.
pub open spec fn kept_blocks(
    blocks: Seq<BackupExportKnowledgeBlock>,
    files: Seq<BackupExportFile>,
    notes: Seq<BackupExportMarkdownNote>,
    n: int,
) -> Seq<BackupExportKnowledgeBlock>
    decreases n,
{
    if n <= 0 {
        seq![]
    } else if keeps_block(blocks[n - 1], files, notes) {
        kept_blocks(blocks, files, notes, n - 1).push(blocks[n - 1])
    } else {
        kept_blocks(blocks, files, notes, n - 1)
    }
}

/// The trash entries among the first `n` that go into the backup, in order.
pub open spec fn kept_trash(
    entries: Seq<BackupExportTrashEntry>,
    files: Seq<BackupExportFile>,
    notes: Seq<BackupExportMarkdownNote>,
    blocks: Seq<BackupExportKnowledgeBlock>,
    n: int,
) -> Seq<BackupExportTrashEntry>
    decreases n,
{
    if n <= 0 {
        seq![]
    } else if keeps_trash_entry(entries[n - 1], files, notes, blocks) {
        kept_trash(entries, files, notes, blocks, n - 1).push(entries[n - 1])
    } else {
        kept_trash(entries, files, notes, blocks, n - 1)
    }
}

/// Whether some file of `files` has id `id`.
pub(crate) fn has_file(files: &Vec<BackupExportFile>, id: &str) -> (r: bool)
    ensures
        r == file_listed(files@, id@),
{
    let wanted = chars_of(id);
    let mut k: usize = 0;
    while k < files.len()
        invariant
            k <= files.len(),
            wanted@ == id@,
            forall|j: int| 0 <= j < k ==> (#[trigger] files@[j]).id@ != id@,
        decreases files.len() - k,
    {
        if chars_eq(chars_of(files[k].id.as_str()).as_slice(), wanted.as_slice()) {
            return true;
        }
        k = k + 1;
    }
    false
}

/// Whether some note of `notes` has id `id`.
pub(crate) fn has_note(notes: &Vec<BackupExportMarkdownNote>, id: &str) -> (r: bool)
    ensures
        r == note_listed(notes@, id@),
{
    let wanted = chars_of(id);
    let mut k: usize = 0;
    while k < notes.len()
        invariant
            k <= notes.len(),
            wanted@ == id@,
            forall|j: int| 0 <= j < k ==> (#[trigger] notes@[j]).id@ != id@,
        decreases notes.len() - k,
    {
        if chars_eq(chars_of(notes[k].id.as_str()).as_slice(), wanted.as_slice()) {
            return true;
        }
        k = k + 1;
    }
    false
}

/// Whether some block of `blocks` has id `id`.
pub(crate) fn has_block(blocks: &Vec<BackupExportKnowledgeBlock>, id: &str) -> (r: bool)
    ensures
        r == block_listed(blocks@, id@),
{
    let wanted = chars_of(id);
    let mut k: usize = 0;
    while k < blocks.len()
        invariant
            k <= blocks.len(),
            wanted@ == id@,
            forall|j: int| 0 <= j < k ==> (#[trigger] blocks@[j]).id@ != id@,
        decreases blocks.len() - k,
    {
        if chars_eq(chars_of(blocks[k].id.as_str()).as_slice(), wanted.as_slice()) {
            return true;
        }
        k = k + 1;
    }
    false
}

/// Whether the row that a trash entry names is among `files`, `notes` or `blocks`.
pub(crate) fn trash_target_found(
    entry: &BackupExportTrashEntry,
    files: &Vec<BackupExportFile>,
    notes: &Vec<BackupExportMarkdownNote>,
    blocks: &Vec<BackupExportKnowledgeBlock>,
) -> (r: bool)
    ensures
        r == trash_target_listed(*entry, files@, notes@, blocks@),
{
    let kind = chars_of(entry.entity_kind.as_str());
    let id = entry.entity_id.as_str();
    if chars_eq(kind.as_slice(), chars_of("file").as_slice()) {
        has_file(files, id)
    } else if chars_eq(kind.as_slice(), chars_of("markdown_note").as_slice()) {
        has_note(notes, id)
    } else if chars_eq(kind.as_slice(), chars_of("knowledge_block").as_slice()) {
        has_block(blocks, id)
    } else {
        false
    }
}

/// The files that go into the backup.
pub fn select_backup_files(files: Vec<BackupExportFile>) -> (r: Vec<BackupExportFile>)
    ensures
        r@ == kept_files(files@, files@.len() as int),
{
    let ghost all = files@;
    let mut out: Vec<BackupExportFile> = Vec::new();
    let mut rest = files;
    let mut i: usize = 0;
    let total = rest.len();
    while rest.len() > 0
        invariant
            i + rest@.len() == total,
            total == all.len(),
            rest@ == all.skip(i as int),
            out@ == kept_files(all, i as int),
        decreases rest@.len(),
    {
        let file = rest.remove(0);
        assert(file == all[i as int]);
        if !is_sensitive_backup_locator(file.relative_path.as_str()) {
            out.push(file);
        }
        i = i + 1;
        assert(rest@ =~= all.skip(i as int));
    }
    out
}

/// The notes that go into the backup, given the files that do.
pub fn select_backup_notes(
    notes: Vec<BackupExportMarkdownNote>,
    files: &Vec<BackupExportFile>,
) -> (r: Vec<BackupExportMarkdownNote>)
    ensures
        r@ == kept_notes(notes@, files@, notes@.len() as int),
{
    let ghost all = notes@;
    let mut out: Vec<BackupExportMarkdownNote> = Vec::new();
    let mut rest = notes;
    let mut i: usize = 0;
    let total = rest.len();
    while rest.len() > 0
        invariant
            i + rest@.len() == total,
            total == all.len(),
            rest@ == all.skip(i as int),
            out@ == kept_notes(all, files@, i as int),
        decreases rest@.len(),
    {
        let note = rest.remove(0);
        assert(note == all[i as int]);
        let file_ok = match &note.file_id {
            Some(id) => has_file(files, id.as_str()),
            None => true,
        };
        if !is_sensitive_backup_locator(note.relative_path.as_str()) && file_ok {
            out.push(note);
        }
        i = i + 1;
        assert(rest@ =~= all.skip(i as int));
    }
    out
}

/// The blocks that go into the backup, given the files and notes that do.
pub fn select_backup_blocks(
    blocks: Vec<BackupExportKnowledgeBlock>,
    files: &Vec<BackupExportFile>,
    notes: &Vec<BackupExportMarkdownNote>,
) -> (r: Vec<BackupExportKnowledgeBlock>)
    ensures
        r@ == kept_blocks(blocks@, files@, notes@, blocks@.len() as int),
{
    let ghost all = blocks@;
    let mut out: Vec<BackupExportKnowledgeBlock> = Vec::new();
    let mut rest = blocks;
    let mut i: usize = 0;
    let total = rest.len();
    while rest.len() > 0
        invariant
            i + rest@.len() == total,
            total == all.len(),
            rest@ == all.skip(i as int),
            out@ == kept_blocks(all, files@, notes@, i as int),
        decreases rest@.len(),
    {
        let block = rest.remove(0);
        assert(block == all[i as int]);
        let file_ok = match &block.file_id {
            Some(id) => has_file(files, id.as_str()),
            None => true,
        };
        let note_ok = match &block.note_id {
            Some(id) => has_note(notes, id.as_str()),
            None => true,
        };
        if !is_sensitive_backup_locator(block.source_locator.as_str()) && file_ok && note_ok {
            out.push(block);
        }
        i = i + 1;
        assert(rest@ =~= all.skip(i as int));
    }
    out
}

/// The trash entries that go into the backup, given the files, notes and blocks that do.
pub fn select_backup_trash(
    entries: Vec<BackupExportTrashEntry>,
    files: &Vec<BackupExportFile>,
    notes: &Vec<BackupExportMarkdownNote>,
    blocks: &Vec<BackupExportKnowledgeBlock>,
) -> (r: Vec<BackupExportTrashEntry>)
    ensures
        r@ == kept_trash(entries@, files@, notes@, blocks@, entries@.len() as int),
{
    let ghost all = entries@;
    let mut out: Vec<BackupExportTrashEntry> = Vec::new();
    let mut rest = entries;
    let mut i: usize = 0;
    let total = rest.len();
    while rest.len() > 0
        invariant
            i + rest@.len() == total,
            total == all.len(),
            rest@ == all.skip(i as int),
            out@ == kept_trash(all, files@, notes@, blocks@, i as int),
        decreases rest@.len(),
    {
        let entry = rest.remove(0);
        assert(entry == all[i as int]);
        let listed = trash_target_found(&entry, files, notes, blocks);
        if !is_sensitive_backup_locator(entry.original_locator.as_str()) && listed {
            out.push(entry);
        }
        i = i + 1;
        assert(rest@ =~= all.skip(i as int));
    }
    out
}

/// A parse job as backed up: its error message (which may quote secrets or local paths) is
/// left out.
pub open spec fn without_error(job: BackupExportParseJob) -> BackupExportParseJob {
    BackupExportParseJob {
        id: job.id,
        file_id: job.file_id,
        source_locator: job.source_locator,
        job_type: job.job_type,
        status: job.status,
        error_message: None,
        started_at: job.started_at,
        finished_at: job.finished_at,
        progress_current: job.progress_current,
        progress_total: job.progress_total,
        phase: job.phase,
        created_at: job.created_at,
        updated_at: job.updated_at,
    }
}

/// The parse jobs as backed up: all of them, in order, without error messages.
pub fn strip_job_errors(jobs: Vec<BackupExportParseJob>) -> (r: Vec<BackupExportParseJob>)
    ensures
        r@.len() == jobs@.len(),
        forall|k: int| 0 <= k < jobs@.len() ==> #[trigger] r@[k] == without_error(jobs@[k]),
{
    let ghost all = jobs@;
    let mut out: Vec<BackupExportParseJob> = Vec::new();
    let mut rest = jobs;
    let mut i: usize = 0;
    let total = rest.len();
    while rest.len() > 0
        invariant
            i + rest@.len() == total,
            total == all.len(),
            rest@ == all.skip(i as int),
            out@.len() == i,
            forall|k: int| 0 <= k < i ==> #[trigger] out@[k] == without_error(all[k]),
        decreases rest@.len(),
    {
        let job = rest.remove(0);
        assert(job == all[i as int]);
        out.push(
            BackupExportParseJob {
                id: job.id,
                file_id: job.file_id,
                source_locator: job.source_locator,
                job_type: job.job_type,
                status: job.status,
                error_message: None,
                started_at: job.started_at,
                finished_at: job.finished_at,
                progress_current: job.progress_current,
                progress_total: job.progress_total,
                phase: job.phase,
                created_at: job.created_at,
                updated_at: job.updated_at,
            },
        );
        i = i + 1;
        assert(rest@ =~= all.skip(i as int));
    }
    out
}

/// Whether `r` is the backup of a space built from the given rows: the format and
/// version, the time of the export, the space as the active one with its default
/// permission, the files, notes, blocks and trash entries that the rules above keep (each
/// judged against the rows kept before it), and every parse job without its error message.
pub open spec fn exported_as(
    r: BackupExport,
    space: BackupExportSpace,
    exported_at: String,
    files: Seq<BackupExportFile>,
    notes: Seq<BackupExportMarkdownNote>,
    blocks: Seq<BackupExportKnowledgeBlock>,
    parse_jobs: Seq<BackupExportParseJob>,
    trash_entries: Seq<BackupExportTrashEntry>,
) -> bool {
    &&& r.format@ == backup_format()
    &&& r.schema_version == BACKUP_SCHEMA_VERSION
    &&& r.exported_at == exported_at
    &&& r.space == space
    &&& r.workspace.active_space_id == space.id
    &&& r.workspace.default_permission == space.default_permission
    &&& r.files@ == kept_files(files, files.len() as int)
    &&& r.markdown_notes@ == kept_notes(notes, r.files@, notes.len() as int)
    &&& r.knowledge_blocks@ == kept_blocks(blocks, r.files@, r.markdown_notes@, blocks.len() as int)
    &&& r.parse_jobs@.len() == parse_jobs.len()
    &&& forall|k: int| 0 <= k < parse_jobs.len() ==> #[trigger] r.parse_jobs@[k] == without_error(parse_jobs[k])
    &&& r.trash_entries@ == kept_trash(
        trash_entries,
        r.files@,
        r.markdown_notes@,
        r.knowledge_blocks@,
        trash_entries.len() as int,
    )
}

/// The backup of a space: its rows as selected above, every parse job without its error
/// message, the format and version, and the space as the active one with its default
/// permission.
pub fn build_backup_export(
    space: BackupExportSpace,
    exported_at: String,
    files: Vec<BackupExportFile>,
    notes: Vec<BackupExportMarkdownNote>,
    blocks: Vec<BackupExportKnowledgeBlock>,
    parse_jobs: Vec<BackupExportParseJob>,
    trash_entries: Vec<BackupExportTrashEntry>,
) -> (r: BackupExport)
    ensures
        exported_as(
            r,
            space,
            exported_at,
            files@,
            notes@,
            blocks@,
            parse_jobs@,
            trash_entries@,
        ),
{
    let kept_files = select_backup_files(files);
    let kept_notes = select_backup_notes(notes, &kept_files);
    let kept_blocks = select_backup_blocks(blocks, &kept_files, &kept_notes);
    let kept_trash = select_backup_trash(trash_entries, &kept_files, &kept_notes, &kept_blocks);
    let jobs = strip_job_errors(parse_jobs);
    let active_space_id = space.id.clone();
    let default_permission = space.default_permission;
    BackupExport {
        format: string_of(chars_of("library.backup.v1").as_slice()),
        schema_version: BACKUP_SCHEMA_VERSION,
        exported_at,
        space,
        workspace: BackupExportWorkspace { active_space_id, default_permission },
        files: kept_files,
        markdown_notes: kept_notes,
        knowledge_blocks: kept_blocks,
        parse_jobs: jobs,
        trash_entries: kept_trash,
    }
}

/// Every kept file is one of the files and its locator is not sensitive.
pub(crate) proof fn lemma_kept_files(files: Seq<BackupExportFile>, n: int)
    requires
        0 <= n <= files.len(),
    ensures
        forall|k: int| 0 <= k < kept_files(files, n).len() ==> keeps_file(#[trigger] kept_files(files, n)[k]),
    decreases n,
{
    if n > 0 {
        lemma_kept_files(files, n - 1);
        let prev = kept_files(files, n - 1);
        assert forall|k: int| 0 <= k < kept_files(files, n).len() implies keeps_file(#[trigger] kept_files(files, n)[k]) by {
            if k < prev.len() {
                assert(kept_files(files, n)[k] == prev[k]);
            }
        }
    }
}

/// Every kept note satisfies the rule for notes.
pub(crate) proof fn lemma_kept_notes(notes: Seq<BackupExportMarkdownNote>, files: Seq<BackupExportFile>, n: int)
    requires
        0 <= n <= notes.len(),
    ensures
        forall|k: int| 0 <= k < kept_notes(notes, files, n).len() ==> keeps_note(#[trigger] kept_notes(notes, files, n)[k], files),
    decreases n,
{
    if n > 0 {
        lemma_kept_notes(notes, files, n - 1);
        let prev = kept_notes(notes, files, n - 1);
        assert forall|k: int| 0 <= k < kept_notes(notes, files, n).len() implies keeps_note(#[trigger] kept_notes(notes, files, n)[k], files) by {
            if k < prev.len() {
                assert(kept_notes(notes, files, n)[k] == prev[k]);
            }
        }
    }
}

/// Every kept block satisfies the rule for blocks.
pub(crate) proof fn lemma_kept_blocks(
    blocks: Seq<BackupExportKnowledgeBlock>,
    files: Seq<BackupExportFile>,
    notes: Seq<BackupExportMarkdownNote>,
    n: int,
)
    requires
        0 <= n <= blocks.len(),
    ensures
        forall|k: int|
            0 <= k < kept_blocks(blocks, files, notes, n).len() ==> keeps_block(
                #[trigger] kept_blocks(blocks, files, notes, n)[k],
                files,
                notes,
            ),
    decreases n,
{
    if n > 0 {
        lemma_kept_blocks(blocks, files, notes, n - 1);
        let prev = kept_blocks(blocks, files, notes, n - 1);
        assert forall|k: int| 0 <= k < kept_blocks(blocks, files, notes, n).len() implies keeps_block(
            #[trigger] kept_blocks(blocks, files, notes, n)[k],
            files,
            notes,
        ) by {
            if k < prev.len() {
                assert(kept_blocks(blocks, files, notes, n)[k] == prev[k]);
            }
        }
    }
}

/// Every kept trash entry satisfies the rule for trash entries.
pub(crate) proof fn lemma_kept_trash(
    entries: Seq<BackupExportTrashEntry>,
    files: Seq<BackupExportFile>,
    notes: Seq<BackupExportMarkdownNote>,
    blocks: Seq<BackupExportKnowledgeBlock>,
    n: int,
)
    requires
        0 <= n <= entries.len(),
    ensures
        forall|k: int|
            0 <= k < kept_trash(entries, files, notes, blocks, n).len() ==> keeps_trash_entry(
                #[trigger] kept_trash(entries, files, notes, blocks, n)[k],
                files,
                notes,
                blocks,
            ),
    decreases n,
{
    if n > 0 {
        lemma_kept_trash(entries, files, notes, blocks, n - 1);
        let prev = kept_trash(entries, files, notes, blocks, n - 1);
        assert forall|k: int| 0 <= k < kept_trash(entries, files, notes, blocks, n).len() implies keeps_trash_entry(
            #[trigger] kept_trash(entries, files, notes, blocks, n)[k],
            files,
            notes,
            blocks,
        ) by {
            if k < prev.len() {
                assert(kept_trash(entries, files, notes, blocks, n)[k] == prev[k]);
            }
        }
    }
}

/// A backup holds no row whose locator is sensitive, and it is closed under references:
/// every note's file, every block's file and note, and every trash entry's row are in the
/// backup too.
pub proof fn law_backup_is_safe_and_closed(
    files: Seq<BackupExportFile>,
    notes: Seq<BackupExportMarkdownNote>,
    blocks: Seq<BackupExportKnowledgeBlock>,
    entries: Seq<BackupExportTrashEntry>,
)
    ensures
        ({
            let kf = kept_files(files, files.len() as int);
            let kn = kept_notes(notes, kf, notes.len() as int);
            let kb = kept_blocks(blocks, kf, kn, blocks.len() as int);
            let kt = kept_trash(entries, kf, kn, kb, entries.len() as int);
            &&& forall|k: int| 0 <= k < kf.len() ==> !sensitive_locator(#[trigger] kf[k].relative_path@)
            &&& forall|k: int|
                0 <= k < kn.len() ==> !sensitive_locator((#[trigger] kn[k]).relative_path@) && file_ref_kept(
                    kn[k].file_id,
                    kf,
                )
            &&& forall|k: int|
                0 <= k < kb.len() ==> !sensitive_locator((#[trigger] kb[k]).source_locator@) && file_ref_kept(
                    kb[k].file_id,
                    kf,
                ) && note_ref_kept(kb[k].note_id, kn)
            &&& forall|k: int|
                0 <= k < kt.len() ==> !sensitive_locator((#[trigger] kt[k]).original_locator@) && keeps_trash_entry(
                    kt[k],
                    kf,
                    kn,
                    kb,
                )
        }),
{
    let kf = kept_files(files, files.len() as int);
    let kn = kept_notes(notes, kf, notes.len() as int);
    let kb = kept_blocks(blocks, kf, kn, blocks.len() as int);
    lemma_kept_files(files, files.len() as int);
    lemma_kept_notes(notes, kf, notes.len() as int);
    lemma_kept_blocks(blocks, kf, kn, blocks.len() as int);
    lemma_kept_trash(entries, kf, kn, kb, entries.len() as int);
}

} // verus!
