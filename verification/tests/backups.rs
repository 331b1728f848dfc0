use knowledge_base::backup::build_backup_export;
use knowledge_base::backup::select_backup_files;
use knowledge_base::backup::select_backup_trash;
use knowledge_base::models::BackupExportFile;
use knowledge_base::models::BackupExportKnowledgeBlock;
use knowledge_base::models::BackupExportMarkdownNote;
use knowledge_base::models::BackupExportParseJob;
use knowledge_base::models::BackupExportSpace;
use knowledge_base::models::BackupExportTrashEntry;
use knowledge_base::models::PermissionMode;
use knowledge_base::error::AppError;
use knowledge_base::restore::confirm_backup_restore;
use knowledge_base::restore::is_safe_relative_path;
use knowledge_base::restore::preflight_backup_restore;
use knowledge_base::models::BackupExport;

const TEST_TIME: &str = "2026-05-08T00:00:00Z";

fn file(id: &str, relative_path: &str) -> BackupExportFile {
    BackupExportFile {
        id: id.to_string(),
        relative_path: relative_path.to_string(),
        extension: "md".to_string(),
        content_hash: Some("hash".to_string()),
        size_bytes: 10,
        modified_at: Some(TEST_TIME.to_string()),
        parse_status: "indexed".to_string(),
        last_scanned_at: Some(TEST_TIME.to_string()),
        created_at: TEST_TIME.to_string(),
        updated_at: TEST_TIME.to_string(),
        deleted_at: None,
    }
}

fn note(id: &str, file_id: Option<&str>, relative_path: &str) -> BackupExportMarkdownNote {
    BackupExportMarkdownNote {
        id: id.to_string(),
        file_id: file_id.map(|value| value.to_string()),
        relative_path: relative_path.to_string(),
        user_editable: true,
        last_generated_hash: None,
        created_at: TEST_TIME.to_string(),
        updated_at: TEST_TIME.to_string(),
        deleted_at: None,
    }
}

fn block(id: &str, file_id: Option<&str>, note_id: Option<&str>, body: &str, source_locator: &str) -> BackupExportKnowledgeBlock {
    BackupExportKnowledgeBlock {
        id: id.to_string(),
        file_id: file_id.map(|value| value.to_string()),
        note_id: note_id.map(|value| value.to_string()),
        title: id.to_string(),
        body: body.to_string(),
        source_kind: "original_file".to_string(),
        source_locator: source_locator.to_string(),
        searchable: true,
        created_at: TEST_TIME.to_string(),
        updated_at: TEST_TIME.to_string(),
        deleted_at: None,
    }
}

fn trash(id: &str, kind: &str, entity_id: &str, original_locator: &str) -> BackupExportTrashEntry {
    BackupExportTrashEntry {
        id: id.to_string(),
        entity_kind: kind.to_string(),
        entity_id: entity_id.to_string(),
        display_name: original_locator.to_string(),
        original_locator: original_locator.to_string(),
        deleted_at: TEST_TIME.to_string(),
        restored_at: None,
    }
}

fn failed_job() -> BackupExportParseJob {
    BackupExportParseJob {
        id: "job-1".to_string(),
        file_id: Some("file-redis".to_string()),
        source_locator: None,
        job_type: "document".to_string(),
        status: "failed".to_string(),
        error_message: Some(
            "OCR_RUNTIME_ERROR：DEEPSEEK_API_KEY .env E:\\CodeHome\\Library\\models\\ocr\\pp-ocrv6\\library-ocr-runs\\page.png"
                .to_string(),
        ),
        started_at: Some(TEST_TIME.to_string()),
        finished_at: Some(TEST_TIME.to_string()),
        progress_current: 0,
        progress_total: 1,
        phase: "失败".to_string(),
        created_at: TEST_TIME.to_string(),
        updated_at: TEST_TIME.to_string(),
    }
}

#[test]
fn exports_space_backup_with_metadata_blocks_jobs_and_workspace_settings() {
    let space = BackupExportSpace {
        id: "space-1".to_string(),
        name: "面试".to_string(),
        root_path: "D:\\知识库\\Redis".to_string(),
        default_permission: PermissionMode::Approval,
        created_at: TEST_TIME.to_string(),
        updated_at: TEST_TIME.to_string(),
    };
    let backup = build_backup_export(
        space,
        TEST_TIME.to_string(),
        vec![file("file-redis", "Redis面试.md"), file("file-env", ".env")],
        vec![
            note("note-safe", Some("file-redis"), "Redis面试.note.md"),
            note("note-sensitive", Some("file-env"), "models\\ocr\\pp-ocrv6\\secret-note.md"),
        ],
        vec![
            block("block-redis", Some("file-redis"), None, "缓存穿透需要空值缓存和布隆过滤器。", "Redis面试.md"),
            block("block-sensitive", Some("file-env"), None, "should-not-export", ".env#block-001"),
        ],
        vec![failed_job()],
        vec![
            trash("trash-safe", "file", "file-redis", "Redis面试.md"),
            trash("trash-sensitive", "file", "file-env", "library-ocr-runs\\page.png"),
        ],
    );
    let serialized = format!("{backup:?}");

    assert_eq!(backup.format, "library.backup.v1");
    assert_eq!(backup.schema_version, 1);
    assert_eq!(backup.space.id, "space-1");
    assert_eq!(backup.space.name, "面试");
    assert_eq!(backup.workspace.active_space_id, "space-1");
    assert_eq!(backup.workspace.default_permission, PermissionMode::Approval);
    assert_eq!(backup.files.len(), 1);
    assert_eq!(backup.files[0].relative_path, "Redis面试.md");
    assert_eq!(backup.markdown_notes.len(), 1);
    assert_eq!(backup.markdown_notes[0].relative_path, "Redis面试.note.md");
    assert_eq!(backup.knowledge_blocks.len(), 1);
    assert!(backup.knowledge_blocks[0].body.contains("布隆过滤器"));
    assert_eq!(backup.parse_jobs.len(), 1);
    assert_eq!(backup.parse_jobs[0].job_type, "document");
    assert_eq!(backup.parse_jobs[0].status, "failed");
    assert!(backup.parse_jobs[0].error_message.is_none());
    assert_eq!(backup.trash_entries.len(), 1);
    assert_eq!(backup.trash_entries[0].original_locator, "Redis面试.md");
    assert!(!serialized.contains("DEEPSEEK_API_KEY"));
    assert!(!serialized.contains(".env"));
    assert!(!serialized.contains("models"));
    assert!(!serialized.contains("secret-note"));
    assert!(!serialized.contains("library-ocr-runs"));
    assert!(!serialized.contains("should-not-export"));
}

#[test]
fn rows_pointing_at_left_out_rows_are_left_out() {
    let files = select_backup_files(vec![file("a", "docs\\a.md"), file("env", "config\\.env.local")]);
    assert_eq!(files.len(), 1);
    let notes = vec![note("n1", None, "free.md")];
    let blocks = vec![block("b1", None, Some("n1"), "x", "free.md")];
    let entries = select_backup_trash(
        vec![
            trash("t1", "file", "a", "docs\\a.md"),
            trash("t2", "file", "env", "config\\x.md"),
            trash("t3", "markdown_note", "n1", "free.md"),
            trash("t4", "knowledge_block", "b1", "free.md"),
            trash("t5", "folder", "a", "docs"),
        ],
        &files,
        &notes,
        &blocks,
    );
    let ids: Vec<&str> = entries.iter().map(|entry| entry.id.as_str()).collect();
    assert_eq!(ids, vec!["t1", "t3", "t4"]);

    let backup = build_backup_export(
        BackupExportSpace {
            id: "s".to_string(),
            name: "s".to_string(),
            root_path: "D:\\s".to_string(),
            default_permission: PermissionMode::Full,
            created_at: TEST_TIME.to_string(),
            updated_at: TEST_TIME.to_string(),
        },
        TEST_TIME.to_string(),
        vec![file("a", "a.md")],
        vec![note("n-missing-file", Some("gone"), "n.md"), note("n-ok", Some("a"), "n2.md")],
        vec![
            block("b-missing-note", Some("a"), Some("n-missing-file"), "x", "a.md"),
            block("b-ok", Some("a"), Some("n-ok"), "y", "a.md#block-001"),
        ],
        Vec::new(),
        Vec::new(),
    );
    assert_eq!(backup.markdown_notes.len(), 1);
    assert_eq!(backup.markdown_notes[0].id, "n-ok");
    assert_eq!(backup.knowledge_blocks.len(), 1);
    assert_eq!(backup.knowledge_blocks[0].id, "b-ok");
    assert_eq!(backup.workspace.default_permission, PermissionMode::Full);
}

fn restore_space() -> BackupExportSpace {
    BackupExportSpace {
        id: "backup-space".to_string(),
        name: "备份空间".to_string(),
        root_path: "D:\\知识库\\备份".to_string(),
        default_permission: PermissionMode::Readonly,
        created_at: TEST_TIME.to_string(),
        updated_at: TEST_TIME.to_string(),
    }
}

fn exported_backup() -> BackupExport {
    build_backup_export(
        restore_space(),
        TEST_TIME.to_string(),
        vec![file("file-redis", "docs\\Redis面试.md")],
        vec![note("note-redis", Some("file-redis"), "docs\\Redis面试.note.md")],
        vec![block("block-redis", Some("file-redis"), Some("note-redis"), "空值缓存", "docs\\Redis面试.md#block-001")],
        vec![failed_job()],
        vec![trash("trash-redis", "knowledge_block", "block-redis", "docs\\Redis面试.md#block-001")],
    )
}

fn filesystem_message(result: Result<knowledge_base::models::BackupRestorePreflight, AppError>) -> String {
    match result {
        Err(AppError::Filesystem(message)) => message,
        Err(other) => panic!("unexpected error {other:?}"),
        Ok(preflight) => panic!("backup was accepted: {preflight:?}"),
    }
}

#[test]
fn exported_backup_passes_restore_preflight() {
    let backup = exported_backup();
    let preflight = preflight_backup_restore(&backup, "D:\\备份\\space.json".to_string(), "space.json".to_string(), true)
        .expect("exported backup passes preflight");
    assert_eq!(preflight.format, "library.backup.v1");
    assert_eq!(preflight.schema_version, 1);
    assert_eq!(preflight.space_id, "backup-space");
    assert_eq!(preflight.space_name, "备份空间");
    assert_eq!(preflight.default_permission, PermissionMode::Readonly);
    assert_eq!(preflight.file_count, 1);
    assert_eq!(preflight.knowledge_block_count, 1);
    assert_eq!(preflight.parse_job_count, 1);
    assert_eq!(preflight.trash_entry_count, 1);
    assert!(preflight.will_overwrite);
    assert_eq!(preflight.file_name, "space.json");
}

#[test]
fn restore_preflight_rejects_incompatible_export_versions() {
    let mut backup = exported_backup();
    backup.schema_version = 2;
    let message = filesystem_message(preflight_backup_restore(&backup, "a.json".to_string(), "a.json".to_string(), false));
    assert_eq!(message, "备份格式版本不受支持");

    let mut backup = exported_backup();
    backup.format = "library.backup.v2".to_string();
    let message = filesystem_message(preflight_backup_restore(&backup, "a.json".to_string(), "a.json".to_string(), false));
    assert_eq!(message, "备份格式版本不受支持");
}

#[test]
fn restore_preflight_rejects_path_traversal() {
    for path in ["..\\secret.md", "docs/../../secret.md", "C:\\Windows\\notes.md", "/etc/notes.md", "\\\\server\\share.md"] {
        let mut backup = exported_backup();
        backup.files[0].relative_path = path.to_string();
        let message = filesystem_message(preflight_backup_restore(&backup, "a.json".to_string(), "a.json".to_string(), false));
        assert_eq!(message, "备份包含超出知识库目录的相对路径", "{path}");
    }
    let mut backup = exported_backup();
    backup.trash_entries[0].original_locator = "..\\page.png".to_string();
    let message = filesystem_message(preflight_backup_restore(&backup, "a.json".to_string(), "a.json".to_string(), false));
    assert_eq!(message, "备份包含超出知识库目录的相对路径");
}

#[test]
fn restore_preflight_rejects_broken_references() {
    let mut backup = exported_backup();
    backup.markdown_notes[0].file_id = Some("file-missing".to_string());
    let message = filesystem_message(preflight_backup_restore(&backup, "a.json".to_string(), "a.json".to_string(), false));
    assert_eq!(message, "备份中的引用结构不完整");

    let mut backup = exported_backup();
    backup.trash_entries[0].entity_kind = "markdown_note".to_string();
    let message = filesystem_message(preflight_backup_restore(&backup, "a.json".to_string(), "a.json".to_string(), false));
    assert_eq!(message, "备份中的引用结构不完整");

    let mut backup = exported_backup();
    backup.workspace.active_space_id = "other-space".to_string();
    let message = filesystem_message(preflight_backup_restore(&backup, "a.json".to_string(), "a.json".to_string(), false));
    assert_eq!(message, "备份中的引用结构不完整");
}

#[test]
fn restore_needs_confirmation_only_to_overwrite() {
    let backup = exported_backup();
    let preflight = preflight_backup_restore(&backup, "a.json".to_string(), "a.json".to_string(), true).expect("preflight");
    match confirm_backup_restore(preflight.clone(), false, "2026-05-09T00:00:00Z".to_string()) {
        Err(AppError::PermissionDenied(message)) => assert_eq!(message, "恢复会覆盖同 ID 知识库，请先确认覆盖"),
        other => panic!("unconfirmed overwrite was not refused: {other:?}"),
    }
    let result = confirm_backup_restore(preflight, true, "2026-05-09T00:00:00Z".to_string()).expect("confirmed restore");
    assert!(result.overwritten);
    assert_eq!(result.restored_at, "2026-05-09T00:00:00Z");
    assert_eq!(result.space_id, "backup-space");

    let fresh = preflight_backup_restore(&backup, "a.json".to_string(), "a.json".to_string(), false).expect("preflight");
    let result = confirm_backup_restore(fresh, false, "2026-05-09T00:00:00Z".to_string()).expect("new space restores");
    assert!(!result.overwritten);
    assert!(!result.will_overwrite);
}

#[test]
fn relative_paths_stay_inside_the_space() {
    assert!(is_safe_relative_path("docs\\Redis面试.md#block-001"));
    assert!(is_safe_relative_path("a..b\\c"));
    assert!(is_safe_relative_path("..hidden/notes.md"));
    assert!(is_safe_relative_path("notes.."));
    assert!(!is_safe_relative_path(".."));
    assert!(!is_safe_relative_path("a/.."));
    assert!(!is_safe_relative_path("a\\..\\b"));
    assert!(!is_safe_relative_path("D:notes.md"));
    assert!(!is_safe_relative_path("/notes.md"));
}
