use knowledge_base::error::AppError;
use knowledge_base::jobs::complete_if_running;
use knowledge_base::jobs::completion_write;
use knowledge_base::jobs::enqueue_parse_job;
use knowledge_base::jobs::LiveBlock;
use knowledge_base::jobs::enqueue_job;
use knowledge_base::jobs::embedded_image_job_locators;
use knowledge_base::jobs::is_auto_ocr_extension;
use knowledge_base::jobs::is_document_parse_extension;
use knowledge_base::jobs::is_sensitive_backup_locator;
use knowledge_base::jobs::running_job_outcome;
use knowledge_base::jobs::CompletionWrite;
use knowledge_base::jobs::JobStatus;
use knowledge_base::jobs::ParseJobRecord;
use knowledge_base::jobs::ParseJobWriteOutcome;
use knowledge_base::jobs::QueuedJob;
use knowledge_base::locator::normalize_lookup_key;
use knowledge_base::models::ChatRole;
use knowledge_base::models::ChatScope;
use knowledge_base::models::KnowledgeSpace;
use knowledge_base::models::ParseStatus;
use knowledge_base::models::ParsedDocument;
use knowledge_base::models::ParsedDocumentSegment;
use knowledge_base::models::ParsedEvidenceMetadata;
use knowledge_base::models::PermissionMode;
use knowledge_base::models::ScannedFile;
use knowledge_base::reconcile::plan_scan_results;
use knowledge_base::reconcile::scan_summary_message;
use knowledge_base::reconcile::ExistingFile;
use knowledge_base::reconcile::ScanAction;
use knowledge_base::vector::LanceVectorStore;
use knowledge_base::workbench::build_snapshot;
use knowledge_base::workbench::index_summary_message;
use knowledge_base::workbench::prepare_question;
use knowledge_base::workbench::validate_folder_path;
use knowledge_base::workbench::Workbench;

const TEST_TIME: &str = "2026-05-08T00:00:00Z";

#[test]
fn moves_queued_parse_job_through_running_and_succeeded_states() {
    let mut job = ParseJobRecord::queued(TEST_TIME);
    let started = job.mark_running(TEST_TIME);
    let progressed = job.update_progress("正在执行本地 OCR", 0, 1, TEST_TIME);
    let succeeded = job.mark_succeeded(TEST_TIME);

    assert!(started);
    assert!(progressed);
    assert!(succeeded);
    assert_eq!(job.status.as_str(), "succeeded");
    assert!(job.error_message.is_none());
    assert!(job.started_at.is_some());
    assert!(job.finished_at.is_some());
    assert_eq!(job.progress_current, 1);
    assert_eq!(job.progress_total, 1);
    assert_eq!(job.phase, "已完成");
}

#[test]
fn records_failed_parse_job_message() {
    let mut job = ParseJobRecord::queued(TEST_TIME);
    job.mark_running(TEST_TIME);
    let failed = job.mark_failed("OCR_EMPTY_RESULT", TEST_TIME);

    assert!(failed);
    assert_eq!(job.status.as_str(), "failed");
    assert_eq!(job.error_message.as_deref(), Some("OCR_EMPTY_RESULT"));
    assert!(job.finished_at.is_some());
    assert_eq!(job.phase, "失败");
}

#[test]
fn cancels_running_parse_job_without_allowing_success_transition() {
    let mut job = ParseJobRecord::queued(TEST_TIME);
    job.mark_running(TEST_TIME);
    job.update_progress("正在执行本地 OCR", 0, 1, TEST_TIME);
    let cancelled = job.cancel(TEST_TIME);
    let succeeded = job.mark_succeeded(TEST_TIME);

    assert!(cancelled);
    assert!(!succeeded);
    assert_eq!(job.status.as_str(), "cancelled");
    assert_eq!(job.phase, "已取消");
    assert_eq!(JobStatus::from_db(job.status.as_str()), Some(JobStatus::Cancelled));
}

#[test]
fn enqueues_and_cancels_parse_job() {
    let mut job = ParseJobRecord::queued(TEST_TIME);
    assert_eq!(job.status, JobStatus::Queued);
    assert_eq!(job.phase, "等待执行");
    assert!(job.cancel("2026-05-08T00:01:00Z"));
    assert_eq!(job.status, JobStatus::Cancelled);
    assert_eq!(job.finished_at.as_deref(), Some("2026-05-08T00:01:00Z"));
    assert!(!job.cancel("2026-05-08T00:02:00Z"));
    assert!(!job.mark_running("2026-05-08T00:02:00Z"));
    assert_eq!(job.updated_at, "2026-05-08T00:01:00Z");
}

#[test]
fn finished_jobs_ignore_every_later_event() {
    let mut job = ParseJobRecord::queued(TEST_TIME);
    job.mark_running(TEST_TIME);
    job.mark_failed("boom", TEST_TIME);
    assert!(!job.update_progress("again", 1, 2, "later"));
    assert!(!job.mark_succeeded("later"));
    assert!(!job.mark_running("later"));
    assert!(!job.cancel("later"));
    assert_eq!(job.status, JobStatus::Failed);
    assert_eq!(job.updated_at, TEST_TIME);
}

#[test]
fn a_zero_total_counts_as_one_step() {
    let mut job = ParseJobRecord::queued(TEST_TIME);
    job.progress_total = 0;
    job.mark_running(TEST_TIME);
    assert_eq!(job.progress_total, 1);
    job.update_progress("step", 0, 0, TEST_TIME);
    job.mark_succeeded(TEST_TIME);
    assert_eq!(job.progress_total, 1);
    assert_eq!(job.progress_current, 1);
}

#[test]
fn job_writes_need_a_running_job() {
    assert_eq!(running_job_outcome(Some("running")), None);
    assert_eq!(running_job_outcome(Some("cancelled")), Some(ParseJobWriteOutcome::Cancelled));
    assert_eq!(running_job_outcome(Some("queued")), Some(ParseJobWriteOutcome::NotRunning));
    assert_eq!(running_job_outcome(None), Some(ParseJobWriteOutcome::NotRunning));
}

#[test]
fn completed_jobs_choose_what_they_replace() {
    match completion_write(Some("ocr"), Some("scan.pdf#ocr".to_string())) {
        CompletionWrite::ReplaceSource { source_locator } => assert_eq!(source_locator, "scan.pdf#ocr"),
        other => panic!("unexpected write {other:?}"),
    }
    match completion_write(Some("document"), None) {
        CompletionWrite::ReplaceFile { queue_embedded_images } => assert!(queue_embedded_images),
        other => panic!("unexpected write {other:?}"),
    }
    match completion_write(Some("ocr"), None) {
        CompletionWrite::ReplaceFile { queue_embedded_images } => assert!(!queue_embedded_images),
        other => panic!("unexpected write {other:?}"),
    }
}

#[test]
fn parse_and_ocr_extensions_are_told_apart() {
    for extension in ["pdf", "docx", "xlsx", "md", "txt"] {
        assert!(is_document_parse_extension(extension));
        assert!(!is_auto_ocr_extension(extension));
    }
    for extension in ["png", "jpg", "jpeg", "bmp", "tif", "tiff", "webp"] {
        assert!(is_auto_ocr_extension(extension));
        assert!(!is_document_parse_extension(extension));
    }
    assert!(is_document_parse_extension(".PDF"));
    assert!(!is_document_parse_extension("pptx"));
}

#[test]
fn embedded_image_segments_become_ocr_jobs() {
    let segment = |locator: &str, kind: Option<&str>| ParsedDocumentSegment {
        title: String::new(),
        body: String::new(),
        source_locator: locator.to_string(),
        evidence: kind.map(|kind| ParsedEvidenceMetadata {
            kind: Some(kind.to_string()),
            page_number: None,
            page_count: None,
            image_number: None,
            line_count: None,
            char_count: None,
            confidence_percent: None,
        }),
    };
    let document = ParsedDocument {
        title: "说明".to_string(),
        body: String::new(),
        summary: String::new(),
        source_locator: "说明.docx".to_string(),
        segments: vec![
            segment("说明.docx#page-001", Some("pdf_page")),
            segment("说明.docx#image-001", Some("embedded_image")),
            segment("说明.docx#image-003", None),
            segment("说明.docx", Some("embedded_image")),
            segment("说明.docx#image-002", Some("embedded_image")),
        ],
        table_insights: Vec::new(),
    };
    assert_eq!(
        embedded_image_job_locators(&document),
        vec!["说明.docx#image-001".to_string(), "说明.docx#image-002".to_string()]
    );
}

#[test]
fn backups_leave_out_secrets_and_model_files() {
    assert!(is_sensitive_backup_locator("config\\.env"));
    assert!(is_sensitive_backup_locator("config/.env.local#block-001"));
    assert!(is_sensitive_backup_locator("tools\\models\\ocr\\det.onnx"));
    assert!(is_sensitive_backup_locator("Library-OCR-Runs\\run1\\out.txt"));
    assert!(!is_sensitive_backup_locator("docs\\readme.md"));
    assert!(!is_sensitive_backup_locator("models\\vision\\a.bin"));
    assert!(!is_sensitive_backup_locator("   "));
}

fn scanned_file(relative_path: &str, extension: &str, size_bytes: i64, content_hash: &str) -> ScannedFile {
    ScannedFile {
        relative_path: relative_path.to_string(),
        extension: extension.to_string(),
        size_bytes,
        modified_at: TEST_TIME.to_string(),
        content_hash: content_hash.to_string(),
    }
}

fn recorded(id: &str, file: &ScannedFile, deleted: bool) -> ExistingFile {
    ExistingFile {
        id: id.to_string(),
        lookup_key: normalize_lookup_key(&file.relative_path),
        content_hash: Some(file.content_hash.clone()),
        modified_at: Some(file.modified_at.clone()),
        size_bytes: file.size_bytes,
        parse_status: ParseStatus::Indexed,
        deleted,
    }
}

#[test]
fn scan_results_upsert_changed_files_and_soft_delete_missing_files() {
    let first_scan = vec![
        scanned_file("README.md", "md", 10, "hash-a"),
        scanned_file("资料\\Redis.pdf", "pdf", 20, "hash-b"),
    ];
    let first = plan_scan_results(&[], &first_scan);
    assert_eq!(first.summary.added_count, 2);
    assert_eq!(first.actions, vec![ScanAction::Insert, ScanAction::Insert]);

    let existing = vec![recorded("file-readme", &first_scan[0], false), recorded("file-redis", &first_scan[1], false)];
    let second_scan = vec![
        scanned_file("README.md", "md", 11, "hash-a2"),
        scanned_file("面试题.xlsx", "xlsx", 30, "hash-c"),
    ];
    let second = plan_scan_results(&existing, &second_scan);

    assert_eq!(second.summary.added_count, 1);
    assert_eq!(second.summary.changed_count, 1);
    assert_eq!(second.summary.deleted_count, 1);
    assert_eq!(
        second.actions,
        vec![
            ScanAction::Refresh { existing: 0, status: ParseStatus::Changed, changed: true },
            ScanAction::Insert,
        ]
    );
    assert_eq!(second.deletions, vec![1]);
    assert_eq!(scan_summary_message(&second.summary), "新增 1 个，变更 1 个，删除 1 个");
}

#[test]
fn unchanged_rescan_keeps_status_and_restores_deleted_files() {
    let readme = scanned_file("Docs/README.md", "md", 10, "hash-a");
    let old = scanned_file("old.txt", "txt", 5, "hash-o");
    let existing = vec![recorded("a", &readme, false), recorded("b", &old, true)];
    let rescan = vec![scanned_file("docs\\readme.MD", "md", 10, "hash-a"), old.clone()];
    let plan = plan_scan_results(&existing, &rescan);
    assert_eq!(
        plan.actions,
        vec![
            ScanAction::Refresh { existing: 0, status: ParseStatus::Indexed, changed: false },
            ScanAction::Restore { existing: 1 },
        ]
    );
    assert!(plan.deletions.is_empty());
    assert_eq!(plan.summary.added_count, 1);
    assert_eq!(plan.summary.changed_count, 0);
    assert_eq!(plan.summary.deleted_count, 0);
}

fn space(id: &str, default_permission: PermissionMode) -> KnowledgeSpace {
    KnowledgeSpace {
        id: id.to_string(),
        name: id.to_string(),
        path: format!("D:\\知识库\\{id}"),
        default_permission,
        changed_file_count: 0,
        scan_queue_count: 0,
        document_queue_count: 0,
        ocr_queue_count: 0,
    }
}

#[test]
fn snapshot_starts_empty_without_mock_spaces() {
    let mut workbench = Workbench::new();
    let active = workbench.resolve_active_space_id(&[]);
    let permission = workbench.resolve_session_permission(None);
    let snapshot = build_snapshot(
        Vec::new(),
        active,
        workbench.active_scope,
        permission,
        Vec::new(),
        Vec::new(),
        None,
        workbench.messages.clone(),
    );

    assert!(snapshot.spaces.is_empty());
    assert!(snapshot.files.is_empty());
    assert_eq!(snapshot.active_space_id, "");
    assert_eq!(snapshot.session_permission, PermissionMode::Readonly);
    assert!(snapshot.pending_action.is_none());
    assert_eq!(snapshot.block_preview.title, "暂无知识块");
    assert_eq!(snapshot.messages.len(), 1);
    assert_eq!(snapshot.messages[0].content, "请点击新建选择一个真实文件夹。");
}

#[test]
fn default_permission_change_can_limit_session_permission() {
    let mut workbench = Workbench::new();
    let full_space = space("完全访问空间", PermissionMode::Full);
    let active = workbench.resolve_active_space_id(std::slice::from_ref(&full_space));
    assert_eq!(active, "完全访问空间");
    workbench
        .request_session_permission(Some(&full_space), PermissionMode::Full)
        .expect("full session allowed");
    assert_eq!(workbench.session_permission, PermissionMode::Full);

    workbench.limit_session_permission(PermissionMode::Readonly);

    assert_eq!(workbench.session_permission, PermissionMode::Readonly);
}

#[test]
fn session_permission_cannot_exceed_the_folder_default() {
    let mut workbench = Workbench::new();
    let approval = space("审批空间", PermissionMode::Approval);
    match workbench.request_session_permission(Some(&approval), PermissionMode::Full) {
        Err(AppError::PermissionDenied(message)) => {
            assert_eq!(message, "当前文件夹默认权限不允许这样临时升权")
        },
        other => panic!("unexpected result {other:?}"),
    }
    assert_eq!(workbench.session_permission, PermissionMode::Readonly);
    match workbench.request_session_permission(None, PermissionMode::Readonly) {
        Err(AppError::Storage(message)) => assert_eq!(message, "找不到当前知识库"),
        other => panic!("unexpected result {other:?}"),
    }
}

#[test]
fn the_active_space_falls_back_to_the_first_listed() {
    let mut workbench = Workbench::new();
    workbench.active_space_id = Some("gone".to_string());
    let spaces = vec![space("a", PermissionMode::Readonly), space("b", PermissionMode::Full)];
    assert_eq!(workbench.resolve_active_space_id(&spaces), "a");
    workbench.active_space_id = Some("b".to_string());
    assert_eq!(workbench.resolve_active_space_id(&spaces), "b");
}

#[test]
fn chat_history_keeps_the_latest_messages() {
    let mut workbench = Workbench::new();
    for index in 0..30 {
        workbench.push_chat_message(ChatRole::User, format!("问题 {index}"), &index.to_string());
    }
    assert_eq!(workbench.messages.len(), 24);
    assert_eq!(workbench.messages[0].content, "问题 6");
    assert_eq!(workbench.messages[23].id, "msg-29");
    assert_eq!(workbench.active_scope, ChatScope::CurrentFolder);
}

#[test]
fn workbench_messages_report_their_counts() {
    assert_eq!(index_summary_message(3, 1), "索引/摘要完成：成功 3 个，失败 1 个。");
    match prepare_question("   ") {
        Err(AppError::Storage(message)) => assert_eq!(message, "请输入问题"),
        other => panic!("unexpected result {other:?}"),
    }
    assert_eq!(prepare_question("  营收是多少？ ").expect("question kept"), "营收是多少？");
}

#[test]
fn folder_paths_are_checked_in_order() {
    match validate_folder_path(true, false, false) {
        Err(AppError::Filesystem(message)) => assert_eq!(message, "请选择有效文件夹"),
        other => panic!("unexpected result {other:?}"),
    }
    match validate_folder_path(false, false, false) {
        Err(AppError::Filesystem(message)) => assert_eq!(message, "文件夹不存在"),
        other => panic!("unexpected result {other:?}"),
    }
    match validate_folder_path(false, true, false) {
        Err(AppError::Filesystem(message)) => assert_eq!(message, "请选择文件夹而不是文件"),
        other => panic!("unexpected result {other:?}"),
    }
    assert!(validate_folder_path(false, true, true).is_ok());
}

#[test]
fn rejects_remote_lancedb_uri() {
    let store = LanceVectorStore::new("db://personal-knowledge".to_string());
    let error = store.local_uri().expect_err("remote uri is rejected");

    assert!(error.message().contains("禁止使用远程 URI"));
}

#[test]
fn rejects_cloud_object_store_uri() {
    let store = LanceVectorStore::new("s3://bucket/vectors".to_string());
    let error = store.local_uri().expect_err("cloud uri is rejected");

    assert!(error.message().contains("禁止使用远程 URI"));
}

#[test]
fn rejects_relative_db_like_path() {
    let store = LanceVectorStore::new("database/vectors.lance".to_string());
    let error = store.local_uri().expect_err("relative local path is rejected");

    assert!(error.message().contains("绝对路径"));
}

#[test]
fn accepts_absolute_local_path_without_uri_scheme() {
    let temp_dir = tempfile::tempdir().expect("temp dir");
    let path = temp_dir.path().join("vectors.lance").to_string_lossy().to_string();
    let store = LanceVectorStore::new(path);

    let uri = store.local_uri().expect("absolute local path is accepted");

    assert!(uri.contains("vectors.lance"));
    assert!(std::path::Path::new(store.path()).is_absolute());
}

fn enqueue_for(queue: &mut Vec<QueuedJob>, files: &[ScannedFile], job_type: &str, wanted: fn(&str) -> bool) -> usize {
    let mut inserted = 0;
    for file in files {
        if wanted(&file.extension) {
            let id = format!("{job_type}-{}-{}", file.relative_path, queue.len());
            if enqueue_job(queue, id, Some(file.relative_path.clone()), job_type.to_string(), None).inserted {
                inserted += 1;
            }
        }
    }
    inserted
}

#[test]
fn enqueues_document_parse_jobs_for_scanned_candidates_without_duplicates() {
    let scanned = vec![
        scanned_file("README.md", "md", 10, "hash-a"),
        scanned_file("资料\\Redis.docx", "docx", 20, "hash-b"),
        scanned_file("截图.png", "png", 30, "hash-image"),
    ];
    let plan = plan_scan_results(&[], &scanned);
    assert_eq!(plan.summary.added_count, 3);

    let mut queue: Vec<QueuedJob> = Vec::new();
    let inserted = enqueue_for(&mut queue, &scanned, "document", is_document_parse_extension);
    let inserted_again = enqueue_for(&mut queue, &scanned, "document", is_document_parse_extension);
    let ocr_inserted = enqueue_for(&mut queue, &scanned, "ocr", is_auto_ocr_extension);
    let ocr_inserted_again = enqueue_for(&mut queue, &scanned, "ocr", is_auto_ocr_extension);

    assert_eq!(inserted, 2);
    assert_eq!(inserted_again, 0);
    assert_eq!(ocr_inserted, 1);
    assert_eq!(ocr_inserted_again, 0);
    assert_eq!(
        queue.iter().filter(|job| job.job_type == "document" && job.status == JobStatus::Queued).count(),
        2
    );
    assert!(queue
        .iter()
        .any(|job| job.job_type == "ocr" && job.status == JobStatus::Queued && job.file_id.as_deref() == Some("截图.png")));
}

#[test]
fn queued_jobs_reuse_active_ones_and_trim_locators() {
    let mut queue: Vec<QueuedJob> = Vec::new();
    let first = enqueue_job(&mut queue, "job-1".to_string(), Some("file-a".to_string()), "document".to_string(), None);
    assert!(first.inserted);
    assert_eq!(first.id, "job-1");

    let again = enqueue_job(&mut queue, "job-2".to_string(), Some("file-a".to_string()), "document".to_string(), Some("  "));
    assert!(!again.inserted);
    assert_eq!(again.id, "job-1");
    assert_eq!(queue.len(), 1);

    let image = enqueue_job(
        &mut queue,
        "job-4".to_string(),
        Some("file-a".to_string()),
        "ocr".to_string(),
        Some(" a.docx#image-001 "),
    );
    assert!(image.inserted);
    assert_eq!(queue[1].source_locator.as_deref(), Some("a.docx#image-001"));
    let same_image = enqueue_job(
        &mut queue,
        "job-5".to_string(),
        Some("file-a".to_string()),
        "ocr".to_string(),
        Some("a.docx#image-001"),
    );
    assert_eq!(same_image.id, "job-4");
    assert!(!same_image.inserted);
}

#[test]
fn failed_jobs_can_be_queued_again() {
    let mut queue: Vec<QueuedJob> = Vec::new();
    enqueue_job(&mut queue, "job-1".to_string(), Some("file-a".to_string()), "ocr".to_string(), None);
    queue[0].status = JobStatus::Failed;
    let retry = enqueue_job(&mut queue, "job-2".to_string(), Some("file-a".to_string()), "ocr".to_string(), None);
    assert!(retry.inserted);
    assert_eq!(retry.id, "job-2");
    queue[1].status = JobStatus::Running;
    let running = enqueue_job(&mut queue, "job-3".to_string(), Some("file-a".to_string()), "ocr".to_string(), None);
    assert_eq!(running.id, "job-2");

    let space_job = enqueue_job(&mut queue, "scan-1".to_string(), None, "scan".to_string(), None);
    assert!(space_job.inserted);
    let space_again = enqueue_job(&mut queue, "scan-2".to_string(), None, "scan".to_string(), None);
    assert_eq!(space_again.id, "scan-1");
}

#[test]
fn enqueueing_a_parse_job_gives_the_new_row_or_reuses_the_active_one() {
    let mut queue: Vec<QueuedJob> = Vec::new();
    let (first, record) = enqueue_parse_job(
        &mut queue,
        "job-1".to_string(),
        Some("file-scan".to_string()),
        "ocr".to_string(),
        Some("  scan.pdf  "),
        TEST_TIME,
    );
    assert!(first.inserted);
    let record = record.expect("a new job has a record");
    assert_eq!(record.status, JobStatus::Queued);
    assert_eq!(record.phase, "等待执行");
    assert_eq!((record.progress_current, record.progress_total), (0, 1));
    assert_eq!(queue[0].source_locator.as_deref(), Some("scan.pdf"));

    let (again, record) = enqueue_parse_job(
        &mut queue,
        "job-2".to_string(),
        Some("file-scan".to_string()),
        "ocr".to_string(),
        Some("scan.pdf"),
        TEST_TIME,
    );
    assert!(!again.inserted);
    assert_eq!(again.id, "job-1");
    assert!(record.is_none());
    assert_eq!(queue.len(), 1);
}

fn live(id: &str, locator: &str) -> LiveBlock {
    LiveBlock { id: id.to_string(), source_locator: locator.to_string() }
}

#[test]
fn completing_a_running_ocr_job_retires_only_its_source_blocks() {
    let blocks = vec![
        live("plain", "docs\\a.docx#block-001"),
        live("image-1", "docs\\a.docx#image-001#ocr-block-001"),
        live("image-2", "docs\\a.docx#image-002#ocr-block-001"),
        live("image-1-page", "docs\\a.docx#image-001#ocr-page-001"),
    ];
    let mut job = ParseJobRecord::queued(TEST_TIME);
    job.mark_running(TEST_TIME);
    let plan = complete_if_running(
        &mut job,
        Some("ocr"),
        Some("docs\\a.docx#image-001".to_string()),
        &blocks,
        "2026-05-09T00:00:00Z",
    )
    .expect("a running job completes");
    assert_eq!(plan.retired_block_ids, vec!["image-1".to_string(), "image-1-page".to_string()]);
    assert!(matches!(plan.write, CompletionWrite::ReplaceSource { .. }));
    assert_eq!(job.status, JobStatus::Succeeded);
    assert_eq!(job.phase, "已完成");
    assert_eq!(job.progress_current, job.progress_total);
    assert!(job.progress_total >= 1);

    let mut document_job = ParseJobRecord::queued(TEST_TIME);
    document_job.mark_running(TEST_TIME);
    let plan = complete_if_running(&mut document_job, Some("document"), None, &blocks, TEST_TIME).expect("completes");
    assert_eq!(plan.retired_block_ids.len(), 4);
    assert!(matches!(plan.write, CompletionWrite::ReplaceFile { queue_embedded_images: true }));
}

#[test]
fn completing_a_job_that_is_not_running_changes_nothing() {
    let blocks = vec![live("plain", "a.md#block-001")];
    let mut cancelled = ParseJobRecord::queued(TEST_TIME);
    cancelled.cancel(TEST_TIME);
    let before = cancelled.clone();
    let outcome = complete_if_running(&mut cancelled, Some("ocr"), None, &blocks, TEST_TIME);
    assert!(matches!(outcome, Err(ParseJobWriteOutcome::Cancelled)));
    assert_eq!(cancelled.status, before.status);
    assert_eq!(cancelled.updated_at, before.updated_at);

    let mut queued = ParseJobRecord::queued(TEST_TIME);
    let outcome = complete_if_running(&mut queued, Some("ocr"), None, &blocks, TEST_TIME);
    assert!(matches!(outcome, Err(ParseJobWriteOutcome::NotRunning)));
    assert_eq!(queued.status, JobStatus::Queued);
}
