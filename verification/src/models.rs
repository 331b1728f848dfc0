//! The data model shared by the workbench, the parsers and the store.
use vstd::prelude::*;

use crate::text::chars_eq;
use crate::text::chars_of;

verus! {

/// How much a knowledge space (or the current session) may do with the user's files.
#[derive(Debug, Clone, Copy, PartialEq, Eq, Structural)]
pub enum PermissionMode {
    Readonly,
    Approval,
    Full,
}

/// The rank of a permission mode: read-only below approval below full access.
pub open spec fn permission_rank(mode: PermissionMode) -> int {
    match mode {
        PermissionMode::Readonly => 0,
        PermissionMode::Approval => 1,
        PermissionMode::Full => 2,
    }
}

impl PermissionMode {
    /// The text stored for the mode.
    pub open spec fn db_text(self) -> Seq<char> {
        match self {
            PermissionMode::Readonly => "readonly"@,
            PermissionMode::Approval => "approval"@,
            PermissionMode::Full => "full"@,
        }
    }

    /// The text stored in the database for this mode.
    pub fn as_str(&self) -> (r: &'static str)
        ensures
            r@ == self.db_text(),
    {
        match self {
            PermissionMode::Readonly => "readonly",
            PermissionMode::Approval => "approval",
            PermissionMode::Full => "full",
        }
    }

    /// The mode stored as `value`, if `value` names one.
    pub fn from_db(value: &str) -> (r: Option<PermissionMode>)
        ensures
            r matches Some(m) ==> m.db_text() == value@,
            r is None ==> value@ != "readonly"@ && value@ != "approval"@ && value@ != "full"@,
    {
        let v = chars_of(value);
        if chars_eq(v.as_slice(), chars_of("readonly").as_slice()) {
            Some(PermissionMode::Readonly)
        } else if chars_eq(v.as_slice(), chars_of("approval").as_slice()) {
            Some(PermissionMode::Approval)
        } else if chars_eq(v.as_slice(), chars_of("full").as_slice()) {
            Some(PermissionMode::Full)
        } else {
            None
        }
    }
}

/// Reading a stored mode back gives the mode that was stored.
pub proof fn lemma_permission_text_distinct(a: PermissionMode, b: PermissionMode)
    ensures
        a.db_text() == b.db_text() ==> a == b,
{
    reveal_strlit("readonly");
    reveal_strlit("approval");
    reveal_strlit("full");
    if a != b {
        assert(a.db_text().len() != b.db_text().len() || a.db_text()[0] != b.db_text()[0]);
    }
}

/// Which files the assistant looks at when answering.
#[derive(Debug, Clone, Copy, PartialEq, Eq, Structural)]
pub enum ChatScope {
    CurrentFile,
    CurrentFolder,
    All,
}

/// Where a file stands in the indexing pipeline.
#[derive(Debug, Clone, Copy, PartialEq, Eq, Structural)]
pub enum ParseStatus {
    Indexed,
    Changed,
    Queued,
    Failed,
}

impl ParseStatus {
    /// The text stored for the status.
    pub open spec fn db_text(self) -> Seq<char> {
        match self {
            ParseStatus::Indexed => "indexed"@,
            ParseStatus::Changed => "changed"@,
            ParseStatus::Queued => "queued"@,
            ParseStatus::Failed => "failed"@,
        }
    }

    /// The label shown to the user for the status.
    pub open spec fn label_text(self) -> Seq<char> {
        match self {
            ParseStatus::Indexed => "已索引"@,
            ParseStatus::Changed => "已变更"@,
            ParseStatus::Queued => "待解析"@,
            ParseStatus::Failed => "扫描失败"@,
        }
    }

    /// The text stored in the database for this status.
    pub fn as_str(&self) -> (r: &'static str)
        ensures
            r@ == self.db_text(),
    {
        match self {
            ParseStatus::Indexed => "indexed",
            ParseStatus::Changed => "changed",
            ParseStatus::Queued => "queued",
            ParseStatus::Failed => "failed",
        }
    }

    /// The status stored as `value`, if `value` names one.
    pub fn from_db(value: &str) -> (r: Option<ParseStatus>)
        ensures
            r matches Some(s) ==> s.db_text() == value@,
            r is None ==> value@ != "indexed"@ && value@ != "changed"@ && value@ != "queued"@
                && value@ != "failed"@,
    {
        let v = chars_of(value);
        if chars_eq(v.as_slice(), chars_of("indexed").as_slice()) {
            Some(ParseStatus::Indexed)
        } else if chars_eq(v.as_slice(), chars_of("changed").as_slice()) {
            Some(ParseStatus::Changed)
        } else if chars_eq(v.as_slice(), chars_of("queued").as_slice()) {
            Some(ParseStatus::Queued)
        } else if chars_eq(v.as_slice(), chars_of("failed").as_slice()) {
            Some(ParseStatus::Failed)
        } else {
            None
        }
    }

    /// The label shown to the user for this status.
    pub fn label(&self) -> (r: &'static str)
        ensures
            r@ == self.label_text(),
    {
        match self {
            ParseStatus::Indexed => "已索引",
            ParseStatus::Changed => "已变更",
            ParseStatus::Queued => "待解析",
            ParseStatus::Failed => "扫描失败",
        }
    }
}

/// Distinct statuses are stored as distinct texts.
pub proof fn lemma_parse_status_text_distinct(a: ParseStatus, b: ParseStatus)
    ensures
        a.db_text() == b.db_text() ==> a == b,
{
    reveal_strlit("indexed");
    reveal_strlit("changed");
    reveal_strlit("queued");
    reveal_strlit("failed");
    if a != b {
        assert(a.db_text().len() != b.db_text().len() || a.db_text()[0] != b.db_text()[0]);
    }
}

/// Who wrote a chat message.
#[derive(Debug, Clone, Copy, PartialEq, Eq, Structural)]
pub enum ChatRole {
    User,
    Assistant,
    System,
}

/// A folder registered as a knowledge space, with its queue counters.
#[derive(Debug, Clone)]
pub struct KnowledgeSpace {
    pub id: String,
    pub name: String,
    pub path: String,
    pub default_permission: PermissionMode,
    pub changed_file_count: u32,
    pub scan_queue_count: u32,
    pub document_queue_count: u32,
    pub ocr_queue_count: u32,
}

/// A file of a knowledge space as the file list shows it.
#[derive(Debug, Clone)]
pub struct KnowledgeFile {
    pub id: String,
    pub name: String,
    pub extension: String,
    pub status: ParseStatus,
    pub status_label: String,
}

/// The knowledge block shown in the preview pane.
#[derive(Debug, Clone)]
pub struct KnowledgeBlockPreview {
    pub id: String,
    pub title: String,
    pub excerpt: String,
    pub source_file_name: String,
    pub source_locator: String,
}

/// The table insight shown in the preview pane.
#[derive(Debug, Clone)]
pub struct TableInsightPreview {
    pub id: String,
    pub title: String,
    pub description: String,
}

/// A source cited by a chat answer.
#[derive(Debug, Clone)]
pub struct ChatMessageSource {
    pub id: String,
    pub title: String,
    pub excerpt: String,
    pub source_file_name: String,
    pub source_locator: String,
    pub source_kind: String,
}

/// A message of the sidebar chat.
#[derive(Debug, Clone)]
pub struct ChatMessage {
    pub id: String,
    pub role: ChatRole,
    pub content: String,
    pub sources: Vec<ChatMessageSource>,
}

/// An action waiting for the user's approval.
#[derive(Debug, Clone)]
pub struct PendingAction {
    pub id: String,
    pub label: String,
    pub requires_approval: bool,
}

/// The configuration state of the model runtimes.
#[derive(Debug, Clone)]
pub struct RuntimeStatus {
    pub deepseek: DeepSeekRuntimeStatus,
    pub ocr: OcrRuntimeStatus,
    pub vision: VisionRuntimeStatus,
}

/// Whether the DeepSeek chat model is configured, without revealing the key.
#[derive(Debug, Clone)]
pub struct DeepSeekRuntimeStatus {
    pub configured: bool,
    pub model: String,
    pub base_url: String,
    pub key_hint: String,
}

/// Whether the local OCR models are present.
#[derive(Debug, Clone)]
pub struct OcrRuntimeStatus {
    pub configured: bool,
    pub tier: String,
    pub model_dir: String,
    pub missing_models: Vec<String>,
}

/// Whether the local vision model is present.
#[derive(Debug, Clone)]
pub struct VisionRuntimeStatus {
    pub configured: bool,
    pub model_dir: String,
    pub missing_models: bool,
}

/// Everything the workbench window shows.
#[derive(Debug, Clone)]
pub struct WorkbenchSnapshot {
    pub spaces: Vec<KnowledgeSpace>,
    pub active_space_id: String,
    pub active_scope: ChatScope,
    pub session_permission: PermissionMode,
    pub files: Vec<KnowledgeFile>,
    pub parse_jobs: Vec<ParseJobSummary>,
    pub block_preview: KnowledgeBlockPreview,
    pub table_preview: TableInsightPreview,
    pub messages: Vec<ChatMessage>,
    pub pending_action: Option<PendingAction>,
}

/// A request to change the session permission.
#[derive(Debug, Clone)]
pub struct PermissionRequest {
    pub requested: PermissionMode,
}

/// A request to register a folder as a knowledge space.
#[derive(Debug, Clone)]
pub struct CreateKnowledgeSpaceRequest {
    pub name: String,
    pub root_path: String,
    pub default_permission: PermissionMode,
}

/// A request to scan a knowledge space.
#[derive(Debug, Clone)]
pub struct ScanKnowledgeSpaceRequest {
    pub space_id: String,
}

/// A request to change a knowledge space's default permission.
#[derive(Debug, Clone)]
pub struct DefaultPermissionRequest {
    pub space_id: String,
    pub permission: PermissionMode,
}

/// A request to export a knowledge space.
#[derive(Debug, Clone)]
pub struct ExportSpaceBackupRequest {
    pub space_id: String,
    pub file_name: Option<String>,
}

/// What an export wrote.
#[derive(Debug, Clone)]
pub struct BackupExportResult {
    pub path: String,
    pub file_name: String,
    pub size_bytes: u64,
    pub exported_at: String,
    pub file_count: u32,
    pub knowledge_block_count: u32,
    pub parse_job_count: u32,
}

/// A request to inspect a backup before restoring it.
#[derive(Debug, Clone)]
pub struct PreflightSpaceBackupRestoreRequest {
    pub path: String,
}

/// A request to restore a backup.
#[derive(Debug, Clone)]
pub struct RestoreSpaceBackupRequest {
    pub path: String,
    pub confirm_overwrite: bool,
}

/// What a backup holds, shown before it is restored.
#[derive(Debug, Clone)]
pub struct BackupRestorePreflight {
    pub path: String,
    pub file_name: String,
    pub format: String,
    pub schema_version: u32,
    pub exported_at: String,
    pub space_id: String,
    pub space_name: String,
    pub root_path: String,
    pub default_permission: PermissionMode,
    pub file_count: u32,
    pub knowledge_block_count: u32,
    pub parse_job_count: u32,
    pub trash_entry_count: u32,
    pub will_overwrite: bool,
}

/// What a restore did.
#[derive(Debug, Clone)]
pub struct BackupRestoreResult {
    pub path: String,
    pub file_name: String,
    pub format: String,
    pub schema_version: u32,
    pub exported_at: String,
    pub space_id: String,
    pub space_name: String,
    pub root_path: String,
    pub default_permission: PermissionMode,
    pub file_count: u32,
    pub knowledge_block_count: u32,
    pub parse_job_count: u32,
    pub trash_entry_count: u32,
    pub will_overwrite: bool,
    pub restored_at: String,
    pub overwritten: bool,
}

/// The whole content of a knowledge space, as written to a backup file.
#[derive(Debug, Clone)]
pub struct BackupExport {
    pub format: String,
    pub schema_version: u32,
    pub exported_at: String,
    pub space: BackupExportSpace,
    pub workspace: BackupExportWorkspace,
    pub files: Vec<BackupExportFile>,
    pub markdown_notes: Vec<BackupExportMarkdownNote>,
    pub knowledge_blocks: Vec<BackupExportKnowledgeBlock>,
    pub parse_jobs: Vec<BackupExportParseJob>,
    pub trash_entries: Vec<BackupExportTrashEntry>,
}

/// The knowledge space row of a backup.
#[derive(Debug, Clone)]
pub struct BackupExportSpace {
    pub id: String,
    pub name: String,
    pub root_path: String,
    pub default_permission: PermissionMode,
    pub created_at: String,
    pub updated_at: String,
}

/// The workspace settings of a backup.
#[derive(Debug, Clone)]
pub struct BackupExportWorkspace {
    pub active_space_id: String,
    pub default_permission: PermissionMode,
}

/// A file row of a backup.
#[derive(Debug, Clone)]
pub struct BackupExportFile {
    pub id: String,
    pub relative_path: String,
    pub extension: String,
    pub content_hash: Option<String>,
    pub size_bytes: i64,
    pub modified_at: Option<String>,
    pub parse_status: String,
    pub last_scanned_at: Option<String>,
    pub created_at: String,
    pub updated_at: String,
    pub deleted_at: Option<String>,
}

/// A Markdown note row of a backup.
#[derive(Debug, Clone)]
pub struct BackupExportMarkdownNote {
    pub id: String,
    pub file_id: Option<String>,
    pub relative_path: String,
    pub user_editable: bool,
    pub last_generated_hash: Option<String>,
    pub created_at: String,
    pub updated_at: String,
    pub deleted_at: Option<String>,
}

/// A knowledge block row of a backup.
#[derive(Debug, Clone)]
pub struct BackupExportKnowledgeBlock {
    pub id: String,
    pub file_id: Option<String>,
    pub note_id: Option<String>,
    pub title: String,
    pub body: String,
    pub source_kind: String,
    pub source_locator: String,
    pub searchable: bool,
    pub created_at: String,
    pub updated_at: String,
    pub deleted_at: Option<String>,
}

/// A parse job row of a backup.
#[derive(Debug, Clone)]
pub struct BackupExportParseJob {
    pub id: String,
    pub file_id: Option<String>,
    pub source_locator: Option<String>,
    pub job_type: String,
    pub status: String,
    pub error_message: Option<String>,
    pub started_at: Option<String>,
    pub finished_at: Option<String>,
    pub progress_current: u32,
    pub progress_total: u32,
    pub phase: String,
    pub created_at: String,
    pub updated_at: String,
}

/// A trash entry row of a backup.
#[derive(Debug, Clone)]
pub struct BackupExportTrashEntry {
    pub id: String,
    pub entity_kind: String,
    pub entity_id: String,
    pub display_name: String,
    pub original_locator: String,
    pub deleted_at: String,
    pub restored_at: Option<String>,
}

/// A supported file found by a folder scan.
#[derive(Debug, Clone)]
pub struct ScannedFile {
    pub relative_path: String,
    pub extension: String,
    pub size_bytes: i64,
    pub modified_at: String,
    pub content_hash: String,
}

/// How many files a scan added, changed, deleted, or failed on.
#[derive(Debug, Clone, Copy, PartialEq, Eq, Structural)]
pub struct ScanSummary {
    pub added_count: u32,
    pub changed_count: u32,
    pub deleted_count: u32,
    pub failed_count: u32,
}

/// A file waiting to be parsed.
#[derive(Debug, Clone)]
pub struct FileParseCandidate {
    pub file_id: String,
    pub relative_path: String,
    pub extension: String,
}

/// A queued parse job and the file it is for.
#[derive(Debug, Clone)]
pub struct ParseJobCandidate {
    pub job_id: String,
    pub file_id: String,
    pub relative_path: String,
    pub extension: String,
    pub source_locator: Option<String>,
}

/// The text extracted from a document.
#[derive(Debug, Clone)]
pub struct ParsedDocument {
    pub title: String,
    pub body: String,
    pub summary: String,
    pub source_locator: String,
    pub segments: Vec<ParsedDocumentSegment>,
    pub table_insights: Vec<ParsedTableInsight>,
}

/// A page, image or section of a document.
#[derive(Debug, Clone)]
pub struct ParsedDocumentSegment {
    pub title: String,
    pub body: String,
    pub source_locator: String,
    pub evidence: Option<ParsedEvidenceMetadata>,
}

/// Where a segment's text came from.
#[derive(Debug, Clone)]
pub struct ParsedEvidenceMetadata {
    pub kind: Option<String>,
    pub page_number: Option<u32>,
    pub page_count: Option<u32>,
    pub image_number: Option<u32>,
    pub line_count: Option<u32>,
    pub char_count: Option<u32>,
    pub confidence_percent: Option<u32>,
}

/// The structure of one worksheet.
#[derive(Debug, Clone)]
pub struct ParsedTableInsight {
    pub title: String,
    pub body: String,
    pub summary: String,
    pub source_locator: String,
}

/// A knowledge block found by a search.
#[derive(Debug, Clone)]
pub struct KnowledgeBlockSearchHit {
    pub id: String,
    pub title: String,
    pub excerpt: String,
    pub source_file_name: String,
    pub source_locator: String,
    pub source_kind: String,
}

/// The blocks of one file around a selected block.
#[derive(Debug, Clone)]
pub struct KnowledgeBlockContext {
    pub current_index: u32,
    pub total_count: u32,
    pub blocks: Vec<KnowledgeBlockSearchHit>,
}

/// A request to index a knowledge space.
#[derive(Debug, Clone)]
pub struct IndexKnowledgeSpaceRequest {
    pub space_id: String,
}

/// A question for the assistant.
#[derive(Debug, Clone)]
pub struct AskAgentRequest {
    pub space_id: String,
    pub question: String,
}

/// A request to open a cited source file.
#[derive(Debug, Clone)]
pub struct OpenSourceFileRequest {
    pub space_id: String,
    pub source_locator: String,
}

/// A request for the blocks around a block.
#[derive(Debug, Clone)]
pub struct KnowledgeBlockContextRequest {
    pub space_id: String,
    pub block_id: String,
}

/// A request to queue OCR for a file or an embedded image.
#[derive(Debug, Clone)]
pub struct EnqueueOcrJobRequest {
    pub space_id: String,
    pub file_id: String,
    pub source_locator: Option<String>,
}

/// A request to start the OCR worker.
#[derive(Debug, Clone)]
pub struct StartOcrWorkerRequest {
    pub space_id: String,
}

/// A request to cancel a parse job.
#[derive(Debug, Clone)]
pub struct CancelParseJobRequest {
    pub job_id: String,
}

/// What the OCR sidecar is asked to do.
#[derive(Debug, Clone, PartialEq, Eq)]
pub struct OcrSidecarRequest {
    pub file_path: String,
    pub model_dir: String,
    pub tier: String,
    pub max_pdf_pages: u32,
    pub max_image_pixels: u64,
    pub progress: bool,
    pub temp_dir: Option<String>,
}

/// One page recognised by the OCR sidecar; the confidence is kept as a whole percentage.
#[derive(Debug, Clone)]
pub struct OcrPageResult {
    pub page_index: u32,
    pub text: String,
    pub confidence_percent: Option<u32>,
    pub line_count: Option<u32>,
    pub char_count: Option<u32>,
}

/// The text recognised by the OCR sidecar.
#[derive(Debug, Clone)]
pub struct OcrSidecarResult {
    pub text: String,
    pub page_count: u32,
    pub pages: Vec<OcrPageResult>,
}

/// A parse job as the job list shows it.
#[derive(Debug, Clone)]
pub struct ParseJobSummary {
    pub id: String,
    pub file_id: Option<String>,
    pub file_name: String,
    pub source_locator: Option<String>,
    pub job_type: String,
    pub status: String,
    pub error_message: Option<String>,
    pub started_at: Option<String>,
    pub finished_at: Option<String>,
    pub progress_current: u32,
    pub progress_total: u32,
    pub phase: String,
}

/// Whether a session may work at `requested` under a folder whose default is
/// `folder_default`: a session may never exceed the folder's default.
pub open spec fn session_permission_allowed(
    folder_default: PermissionMode,
    requested: PermissionMode,
) -> bool {
    permission_rank(requested) <= permission_rank(folder_default)
}

/// Whether the session may be raised (or lowered) to `requested`.
pub fn can_request_session_permission(
    folder_default: &PermissionMode,
    requested: &PermissionMode,
) -> (r: bool)
    ensures
        r == session_permission_allowed(*folder_default, *requested),
{
    match folder_default {
        PermissionMode::Readonly => matches!(requested, PermissionMode::Readonly),
        PermissionMode::Approval => matches!(
            requested,
            PermissionMode::Readonly | PermissionMode::Approval
        ),
        PermissionMode::Full => true,
    }
}

/// A session may always keep the folder's own default, and read-only is always allowed.
pub proof fn law_session_permission_reflexive(mode: PermissionMode)
    ensures
        session_permission_allowed(mode, mode),
        session_permission_allowed(mode, PermissionMode::Readonly),
{
}

/// What a folder allows, any folder with a wider default allows too; and a session allowed
/// under a narrower permission stays allowed under a wider one.
pub proof fn law_session_permission_transitive(a: PermissionMode, b: PermissionMode, c: PermissionMode)
    requires
        session_permission_allowed(a, b),
        session_permission_allowed(b, c),
    ensures
        session_permission_allowed(a, c),
{
}

/// Two modes that allow each other are the same mode.
pub proof fn law_session_permission_antisymmetric(a: PermissionMode, b: PermissionMode)
    requires
        session_permission_allowed(a, b),
        session_permission_allowed(b, a),
    ensures
        a == b,
{
}

/// A stored permission mode reads back as itself: any result that `from_db` may give for
/// the text `as_str` stores is `Some` of the same mode.
pub proof fn law_permission_mode_roundtrip(mode: PermissionMode, read: Option<PermissionMode>)
    requires
        read matches Some(m) ==> m.db_text() == mode.db_text(),
        read is None ==> mode.db_text() != "readonly"@ && mode.db_text() != "approval"@
            && mode.db_text() != "full"@,
    ensures
        read == Some(mode),
{
    if let Some(m) = read {
        lemma_permission_text_distinct(m, mode);
    }
}

/// A stored parse status reads back as itself: any result that `from_db` may give for the
/// text `as_str` stores is `Some` of the same status.
pub proof fn law_parse_status_roundtrip(status: ParseStatus, read: Option<ParseStatus>)
    requires
        read matches Some(s) ==> s.db_text() == status.db_text(),
        read is None ==> status.db_text() != "indexed"@ && status.db_text() != "changed"@
            && status.db_text() != "queued"@ && status.db_text() != "failed"@,
    ensures
        read == Some(status),
{
    if let Some(s) = read {
        lemma_parse_status_text_distinct(s, status);
    }
}

} // verus!
