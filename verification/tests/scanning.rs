use knowledge_base::models::ScannedFile;
use knowledge_base::scanner::content_hash;
use knowledge_base::scanner::format_byte_limit;
use knowledge_base::scanner::normalized_relative_path;
use knowledge_base::scanner::should_visit;
use knowledge_base::scanner::sort_scanned_files;
use knowledge_base::scanner::supported_extension;
use knowledge_base::scanner::ContentHasher;
use knowledge_base::scanner::ScanLimits;
use knowledge_base::scanner::ScanTally;

fn found(relative_path: &str) -> ScannedFile {
    ScannedFile {
        relative_path: relative_path.to_string(),
        extension: String::new(),
        size_bytes: 0,
        modified_at: String::new(),
        content_hash: String::new(),
    }
}

#[test]
fn scans_supported_files_and_skips_hidden_or_unsupported_entries() {
    assert!(should_visit(0, ".hidden-root", true));
    assert!(!should_visit(1, ".git", true));
    assert!(!should_visit(2, ".env", false));
    assert!(!should_visit(1, "Node_Modules", true));
    assert!(!should_visit(1, "TARGET", true));
    assert!(should_visit(1, "target", false));
    assert!(should_visit(1, "资料", true));

    assert_eq!(supported_extension(Some("PDF")), Some("pdf".to_string()));
    assert_eq!(supported_extension(Some("md")), Some("md".to_string()));
    assert_eq!(supported_extension(Some("exe")), None);
    assert_eq!(supported_extension(None), None);

    let sorted = sort_scanned_files(vec![found("资料\\Redis.PDF"), found("README.md"), found("image.png")]);
    let relative_paths = sorted.iter().map(|file| file.relative_path.as_str()).collect::<Vec<_>>();
    assert_eq!(relative_paths, vec!["image.png", "README.md", "资料\\Redis.PDF"]);
}

#[test]
fn files_with_equal_keys_keep_their_order() {
    let mut first = found("A.md");
    first.size_bytes = 1;
    let mut second = found("a.md");
    second.size_bytes = 2;
    let sorted = sort_scanned_files(vec![found("b.md"), first, second]);
    assert_eq!(sorted[0].size_bytes, 1);
    assert_eq!(sorted[1].size_bytes, 2);
    assert_eq!(sorted[2].relative_path, "b.md");
}

#[test]
fn relative_paths_join_components_with_backslashes() {
    let components = vec!["资料".to_string(), "年度".to_string(), "Redis.PDF".to_string()];
    assert_eq!(normalized_relative_path(&components), "资料\\年度\\Redis.PDF");
    assert_eq!(normalized_relative_path(&vec!["README.md".to_string()]), "README.md");
}

#[test]
fn hash_changes_when_file_content_changes() {
    let first_hash = content_hash(b"first");
    let second_hash = content_hash(b"second");

    assert_ne!(first_hash, second_hash);
    assert_eq!(first_hash, blake3::hash(b"first").to_hex().to_string());
    assert_eq!(
        content_hash(b""),
        "af1349b9f5f9a1a6a0404dea36dcc9499bcb25c9adc112b7cc9a93cae41f3262"
    );
}

#[test]
fn hashing_in_pieces_matches_hashing_at_once() {
    let mut hasher = ContentHasher::new();
    hasher.update(b"sec");
    hasher.update(b"ond");
    assert_eq!(hasher.finish(), content_hash(b"second"));
}

#[test]
fn rejects_scan_when_supported_file_count_exceeds_limit() {
    let limits = ScanLimits { max_files: 2, max_total_bytes: u64::MAX };
    let mut tally = ScanTally::new();
    tally.admit_file(&limits, 3).expect("first file fits");
    tally.admit_file(&limits, 3).expect("second file fits");
    let message = tally.admit_file(&limits, 5).expect_err("scan limit rejects too many files");

    assert!(message.contains("SCAN_TOO_MANY_FILES"));
    assert_eq!(message, "SCAN_TOO_MANY_FILES：扫描文件数量超过 2 个上限，请拆分目录后再扫描");
    assert_eq!(tally.files, 2);
}

#[test]
fn rejects_scan_when_supported_total_size_exceeds_limit() {
    let limits = ScanLimits { max_files: 10, max_total_bytes: 7 };
    let mut tally = ScanTally::new();
    tally.admit_file(&limits, 5).expect("first file fits");
    let message = tally.admit_file(&limits, 5).expect_err("scan limit rejects too many bytes");

    assert!(message.contains("SCAN_TOTAL_BYTES_TOO_LARGE"));
    assert_eq!(message, "SCAN_TOTAL_BYTES_TOO_LARGE：扫描文件总大小超过 7 字节 上限，请缩小目录范围后再扫描");
    assert_eq!(tally.total_bytes, 5);
}

#[test]
fn byte_totals_saturate_and_default_limits_are_large() {
    let limits = ScanLimits::default_limits();
    assert_eq!(limits.max_files, 10_000);
    assert_eq!(limits.max_total_bytes, 10 * 1024 * 1024 * 1024);
    assert_eq!(format_byte_limit(limits.max_total_bytes), "10240 MB");
    assert_eq!(format_byte_limit(1024 * 1024), "1 MB");
    assert_eq!(format_byte_limit(1024), "1024 字节");

    let mut tally = ScanTally { files: 0, total_bytes: u64::MAX - 1 };
    let unlimited = ScanLimits { max_files: 5, max_total_bytes: u64::MAX };
    tally.admit_file(&unlimited, 10).expect("saturating total stays within the limit");
    assert_eq!(tally.total_bytes, u64::MAX);
}
