use std::io::Cursor;
use std::io::Write;

use knowledge_base::error::AppError;
use knowledge_base::models::FileParseCandidate;
use knowledge_base::models::OcrPageResult;
use knowledge_base::models::OcrSidecarResult;
use knowledge_base::models::ParsedDocument;
use knowledge_base::models::ParsedDocumentSegment;
use knowledge_base::models::ParsedEvidenceMetadata;
use knowledge_base::ocr::build_ocr_document;
use knowledge_base::ocr::build_ocr_request;
use knowledge_base::ocr::docx_embedded_image_target;
use knowledge_base::ocr::docx_image_bytes;
use knowledge_base::ocr::image_extension;
use knowledge_base::ocr::is_docx_image_target;
use knowledge_base::ocr::may_remove_ocr_temp_dir;
use knowledge_base::ocr::normalize_docx_relationship_target;
use knowledge_base::ocr::ocr_image_pixel_limit;
use knowledge_base::ocr::ocr_model_files;
use knowledge_base::ocr::ocr_pdf_page_limit;
use knowledge_base::ocr::ocr_temp_dir_name;
use knowledge_base::ocr::plan_docx_embedded_image_ocr;
use knowledge_base::ocr::prepare_file_ocr_request;
use knowledge_base::ocr::request_with_temp_dir;
use knowledge_base::ocr::validate_ocr_inputs;
use knowledge_base::ocr::OcrSidecarTempDir;
use knowledge_base::parser::check_within_root;
use knowledge_base::parser::parse_file;
use knowledge_base::parser::read_docx_text;
use knowledge_base::sidecar::envelope_result;
use knowledge_base::sidecar::explicit_path;
use knowledge_base::sidecar::final_stream_result;
use knowledge_base::sidecar::last_output_line;
use knowledge_base::sidecar::parser_python_executable;
use knowledge_base::sidecar::python_executable;
use knowledge_base::sidecar::resolve_ocr_environment_checker;
use knowledge_base::sidecar::resolve_ocr_sidecar_script;
use knowledge_base::sidecar::resolve_parser_sidecar_script;
use knowledge_base::sidecar::resolve_vision_sidecar_script;
use knowledge_base::sidecar::sidecar_exit_message;
use knowledge_base::sidecar::sidecar_timeout_millis;
use knowledge_base::sidecar::stop_error;
use knowledge_base::sidecar::wait_step;
use knowledge_base::sidecar::PathCheck;
use knowledge_base::sidecar::SidecarFailure;
use knowledge_base::sidecar::SidecarKind;
use knowledge_base::sidecar::WaitStep;
use knowledge_base::vision::append_image_caption;
use knowledge_base::vision::caption_document;
use knowledge_base::vision::embedded_images_to_caption;
use knowledge_base::vision::is_image_extension;
use knowledge_base::vision::reply_failure_with_log;
use knowledge_base::vision::vision_envelope_result;
use knowledge_base::vision::vision_unconfigured_document;
use knowledge_base::vision::VisionSidecarResult;

fn archive(entries: &[(&str, &[u8])]) -> Vec<u8> {
    let mut zip = zip::ZipWriter::new(Cursor::new(Vec::new()));
    let options = zip::write::SimpleFileOptions::default().compression_method(zip::CompressionMethod::Stored);
    for (name, bytes) in entries {
        zip.start_file(*name, options).expect("entry starts");
        zip.write_all(bytes).expect("entry written");
    }
    zip.finish().expect("archive finalized").into_inner()
}

fn candidate(relative_path: &str, extension: &str) -> FileParseCandidate {
    FileParseCandidate {
        file_id: format!("file-{relative_path}"),
        relative_path: relative_path.to_string(),
        extension: extension.to_string(),
    }
}

fn filesystem_message(error: AppError) -> String {
    match error {
        AppError::Filesystem(message) => message,
        other => panic!("unexpected error {other:?}"),
    }
}

#[test]
fn parses_markdown_as_structured_document() {
    let document = parse_file(
        &candidate("Redis面试.md", "md"),
        "# Redis\n\n缓存穿透需要空值缓存和布隆过滤器。".as_bytes(),
    )
    .expect("markdown parses");

    assert_eq!(document.title, "Redis面试.md");
    assert!(document.body.contains("缓存穿透"));
    assert!(document.summary.contains("Redis"));
    assert_eq!(document.body, "# Redis 缓存穿透需要空值缓存和布隆过滤器。");
    assert_eq!(document.source_locator, "Redis面试.md");
}

#[test]
fn extracts_literal_text_from_lightweight_pdf() {
    let document = parse_file(
        &candidate("note.pdf", "pdf"),
        "%PDF-1.4\nBT (缓存穿透 需要参数校验) Tj ET\n%%EOF".as_bytes(),
    )
    .expect("pdf parses");

    assert!(document.body.contains("缓存穿透"));
    assert_eq!(document.segments.len(), 1);
    assert_eq!(document.segments[0].source_locator, "note.pdf#page-001");
    assert_eq!(
        document.segments[0].evidence.as_ref().and_then(|evidence| evidence.page_number),
        Some(1)
    );
}

fn test_xlsx() -> Vec<u8> {
    archive(&[
        (
            "xl/sharedStrings.xml",
            r#"<?xml version="1.0" encoding="UTF-8"?>
<sst xmlns="http://schemas.openxmlformats.org/spreadsheetml/2006/main">
  <si><t></t></si>
  <si><t>月份</t></si>
  <si><t>营收</t></si>
  <si><t>成本</t></si>
  <si><t>2026-06</t></si>
  <si><t>2026-07</t></si>
</sst>"#
                .as_bytes(),
        ),
        (
            "xl/worksheets/sheet1.xml",
            r#"<?xml version="1.0" encoding="UTF-8"?>
<worksheet xmlns="http://schemas.openxmlformats.org/spreadsheetml/2006/main">
  <sheetData>
    <row r="1">
      <c r="A1" t="s"><v>1</v></c>
      <c r="B1" t="s"><v>2</v></c>
      <c r="C1" t="s"><v>3</v></c>
    </row>
    <row r="2">
      <c r="A2" t="s"><v>4</v></c>
      <c r="B2"><v>120</v></c>
      <c r="C2"><v>70</v></c>
    </row>
    <row r="3">
      <c r="A3" t="s"><v>5</v></c>
      <c r="B3"><v>140</v></c>
      <c r="C3"><v>80</v></c>
    </row>
  </sheetData>
</worksheet>"#
                .as_bytes(),
        ),
    ])
}

#[test]
fn extracts_xlsx_worksheet_table_insight() {
    let document = parse_file(&candidate("经营报表.xlsx", "xlsx"), &test_xlsx()).expect("xlsx parses");

    assert_eq!(document.title, "经营报表.xlsx");
    assert_eq!(document.table_insights.len(), 1);
    assert!(document.body.contains("经营报表.xlsx · 工作表 1"));
    assert!(document.body.contains("月份、营收、成本"));
    assert!(document.body.contains("2026-06 | 120 | 70"));

    let insight = &document.table_insights[0];
    assert_eq!(insight.source_locator, "经营报表.xlsx#sheet-001");
    assert!(insight.summary.contains("3 行、3 列"));
    assert!(insight.body.contains("可问答字段：月份、营收、成本"));
}

#[test]
fn unsupported_and_empty_files_are_refused() {
    let error = parse_file(&candidate("a.pptx", "pptx"), b"data").expect_err("pptx is refused");
    assert_eq!(filesystem_message(error), "暂不支持解析 pptx 文件");

    let empty = parse_file(&candidate("docs\\empty.txt", "txt"), b"  \n\t ").expect_err("blank text is refused");
    assert!(filesystem_message(empty).contains("empty.txt"));
}

#[test]
fn word_documents_are_read_from_their_body() {
    let docx = archive(&[(
        "word/document.xml",
        r#"<w:document><w:body><w:p><w:r><w:t>Redis &amp; 缓存</w:t></w:r></w:p><w:p><w:r><w:t>布隆过滤器</w:t></w:r></w:p></w:body></w:document>"#.as_bytes(),
    )]);
    let document = parse_file(&candidate("说明.docx", "docx"), &docx).expect("docx parses");
    assert!(document.body.contains("Redis & 缓存"));
    assert!(document.body.contains("布隆过滤器"));
    assert!(read_docx_text(&docx).is_ok());

    let broken = parse_file(&candidate("坏.docx", "docx"), b"not a zip").expect_err("broken docx is refused");
    assert!(matches!(broken, AppError::Filesystem(_)));
}

fn medium_model_dirs() -> Vec<String> {
    vec!["PP-OCRv6_medium_det".to_string(), "PP-OCRv6_medium_rec".to_string()]
}

#[test]
fn validates_existing_file_and_model_dir() {
    let files = ocr_model_files("medium");
    validate_ocr_inputs(true, 3, true, "medium", &medium_model_dirs(), &files).expect("inputs valid");
    let request = build_ocr_request(
        "D:\\知识库\\scan.pdf".to_string(),
        "D:\\models".to_string(),
        "medium",
        ocr_pdf_page_limit(Some("12")),
        ocr_image_pixel_limit(Some("25000000")),
    );

    assert_eq!(request.tier, "medium");
    assert_eq!(request.max_pdf_pages, 12);
    assert_eq!(request.max_image_pixels, 25_000_000);
    assert!(request.progress);
    assert!(request.file_path.ends_with("scan.pdf"));
    assert!(request.temp_dir.is_none());
}

#[test]
fn rejects_incomplete_model_files() {
    let error = validate_ocr_inputs(true, 3, true, "medium", &medium_model_dirs(), &[])
        .expect_err("incomplete model files are rejected");

    let message = filesystem_message(error);
    assert!(message.contains("inference.json"));
    assert!(message.starts_with("OCR 模型文件不完整，缺少 PP-OCRv6_medium_det/inference.json、"));
}

#[test]
fn rejects_missing_model_folders_and_files() {
    let missing_dir = validate_ocr_inputs(true, 3, true, "small", &[], &[]).expect_err("missing folders");
    assert_eq!(
        filesystem_message(missing_dir),
        "OCR 模型不完整，缺少 PP-OCRv6_small_det、PP-OCRv6_small_rec"
    );
    let no_input = validate_ocr_inputs(false, 0, true, "medium", &[], &[]).expect_err("missing input");
    assert_eq!(filesystem_message(no_input), "OCR 输入文件不存在");
    let no_models = validate_ocr_inputs(true, 1, false, "medium", &[], &[]).expect_err("missing model folder");
    assert_eq!(filesystem_message(no_models), "OCR 模型目录不存在");
}

#[test]
fn rejects_ocr_input_over_50_mb_before_model_validation() {
    let error = validate_ocr_inputs(true, 50 * 1024 * 1024 + 1, false, "medium", &[], &[])
        .expect_err("oversized OCR input is rejected");

    let message = filesystem_message(error);
    assert!(message.contains("OCR_INPUT_TOO_LARGE"));
    assert!(message.contains("50 MB"));
}

#[test]
fn ocr_limits_fall_back_to_their_defaults() {
    assert_eq!(ocr_pdf_page_limit(None), 12);
    assert_eq!(ocr_pdf_page_limit(Some("abc")), 12);
    assert_eq!(ocr_pdf_page_limit(Some(" 7 ")), 7);
    assert_eq!(ocr_pdf_page_limit(Some("0")), 12);
    assert_eq!(ocr_pdf_page_limit(Some("99999999999")), 12);
    assert_eq!(ocr_image_pixel_limit(None), 25_000_000);
    assert_eq!(ocr_image_pixel_limit(Some("100")), 100);
}

#[test]
fn prepared_requests_carry_the_locator() {
    let prepared = prepare_file_ocr_request(
        "D:\\scan.pdf".to_string(),
        "scan.pdf#ocr",
        "D:\\models".to_string(),
        "medium",
        20,
        40_000_000,
        true,
        10,
        true,
        &medium_model_dirs(),
        &ocr_model_files("medium"),
    )
    .expect("request prepared");
    assert_eq!(prepared.source_locator(), "scan.pdf#ocr");
    assert_eq!(prepared.request().file_path, "D:\\scan.pdf");
}

#[test]
fn resource_sidecar_path_wins_over_invalid_env_path() {
    let resolved = resolve_ocr_sidecar_script(
        Some(PathCheck { path: "C:\\app\\resources\\ocr_sidecar.py".to_string(), is_file: true }),
        Some(PathCheck { path: "Z:\\missing\\ocr_sidecar.py".to_string(), is_file: false }),
        None,
    )
    .expect("resource path resolves");

    assert_eq!(resolved, "C:\\app\\resources\\ocr_sidecar.py");

    let invalid = resolve_ocr_sidecar_script(
        None,
        Some(PathCheck { path: "Z:\\missing\\ocr_sidecar.py".to_string(), is_file: false }),
        Some("D:\\project\\sidecars\\ocr_sidecar.py".to_string()),
    )
    .expect_err("missing explicit path is reported");
    assert_eq!(filesystem_message(invalid), "OCR_SIDECAR_PATH 指向的 sidecar 不存在：Z:\\missing\\ocr_sidecar.py");
}

#[test]
fn resource_environment_checker_path_is_used_first() {
    let resolved = resolve_ocr_environment_checker(
        Some(PathCheck { path: "C:\\app\\check_ocr_environment.py".to_string(), is_file: true }),
        Some("D:\\project\\check_ocr_environment.py".to_string()),
    )
    .expect("checker resolves");

    assert_eq!(resolved, "C:\\app\\check_ocr_environment.py");
    let missing = resolve_ocr_environment_checker(None, None).expect_err("no checker");
    assert_eq!(filesystem_message(missing), "找不到项目根目录下的 OCR sidecar");
}

#[test]
fn explicit_parser_sidecar_path_wins_over_resource_path() {
    let resolved = resolve_parser_sidecar_script(
        Some(PathCheck { path: "D:\\explicit_parser.py".to_string(), is_file: true }),
        Some(PathCheck { path: "D:\\resource_parser.py".to_string(), is_file: true }),
        None,
    )
    .expect("explicit parser sidecar path resolves");

    assert_eq!(resolved, "D:\\explicit_parser.py");
    let fallback = resolve_parser_sidecar_script(
        None,
        Some(PathCheck { path: "D:\\resource_parser.py".to_string(), is_file: false }),
        Some("D:\\project\\sidecars\\parser_sidecar.py".to_string()),
    )
    .expect("project script resolves");
    assert_eq!(fallback, "D:\\project\\sidecars\\parser_sidecar.py");
}

#[test]
fn invalid_explicit_parser_python_path_is_reported() {
    let error = parser_python_executable(
        Some(PathCheck { path: "D:\\missing-python.exe".to_string(), is_file: false }),
        None,
    )
    .expect_err("invalid explicit parser Python path is rejected");

    assert!(filesystem_message(error).contains("PARSER_PYTHON_PATH"));
    assert_eq!(parser_python_executable(None, None).expect("default python"), "python");
    assert_eq!(
        python_executable(
            Some(PathCheck { path: "D:\\missing.exe".to_string(), is_file: false }),
            Some(PathCheck { path: "D:\\.venv\\Scripts\\python.exe".to_string(), is_file: true }),
        ),
        "D:\\.venv\\Scripts\\python.exe"
    );
    assert_eq!(explicit_path(Some("  D:\\py.exe ")), Some("D:\\py.exe".to_string()));
    assert_eq!(explicit_path(Some("   ")), None);
}

#[test]
fn vision_script_is_found_under_resources_or_project() {
    let found = resolve_vision_sidecar_script(
        Some(PathCheck { path: "R\\vision_sidecar.py".to_string(), is_file: false }),
        Some(PathCheck { path: "P\\vision_sidecar.py".to_string(), is_file: true }),
    )
    .expect("project script resolves");
    assert_eq!(found, "P\\vision_sidecar.py");
    let missing = resolve_vision_sidecar_script(None, None).expect_err("no script");
    assert_eq!(filesystem_message(missing), "无法找到 vision_sidecar.py");
}

#[test]
fn parser_sidecar_timeout_is_reported() {
    let timeout = sidecar_timeout_millis(SidecarKind::Parser);
    assert_eq!(wait_step(SidecarKind::Parser, false, false, 50, 50), WaitStep::TimedOut);
    assert_eq!(wait_step(SidecarKind::Parser, false, false, 10, timeout), WaitStep::KeepWaiting);
    assert_eq!(wait_step(SidecarKind::Parser, true, true, 99_999, 50), WaitStep::Finished);
    assert_eq!(wait_step(SidecarKind::Parser, false, true, 10, 50), WaitStep::KeepWaiting);
    assert_eq!(wait_step(SidecarKind::Ocr, false, true, 10, 50), WaitStep::Cancelled);

    let error = stop_error(SidecarKind::Parser, WaitStep::TimedOut);
    assert!(filesystem_message(error).contains("PARSER_TIMEOUT"));
    let cancelled = stop_error(SidecarKind::Vision, WaitStep::Cancelled);
    assert_eq!(filesystem_message(cancelled), "VISION_CANCELLED：用户取消了 Vision 任务");
    assert_eq!(sidecar_timeout_millis(SidecarKind::Ocr), 120_000);
    assert_eq!(sidecar_timeout_millis(SidecarKind::Vision), 300_000);
}

#[test]
fn maps_sidecar_error_to_app_error() {
    let failure = SidecarFailure { code: "OCR_EMPTY_RESULT".to_string(), message: "没有从文件中识别到文字".to_string() };
    let error = envelope_result::<String>(false, None, Some(failure), "OCR sidecar").expect_err("sidecar error maps");

    let message = filesystem_message(error);
    assert!(message.contains("OCR_EMPTY_RESULT"));
    assert!(message.contains("没有从文件中识别到文字"));

    let missing = envelope_result::<String>(true, None, None, "OCR sidecar").expect_err("missing result");
    assert_eq!(filesystem_message(missing), "OCR sidecar 缺少 result");
    let silent = envelope_result::<String>(false, None, None, "文档解析 sidecar").expect_err("missing error");
    assert_eq!(filesystem_message(silent), "文档解析 sidecar 返回失败但缺少错误信息");
    assert_eq!(envelope_result(true, Some(7), None, "x").expect("value kept"), 7);
}

#[test]
fn sidecar_output_lines_and_exit_messages() {
    assert_eq!(last_output_line("progress\n{\"ok\":true}\r\n  "), Some("{\"ok\":true}".to_string()));
    assert_eq!(last_output_line("   \n"), None);
    assert_eq!(sidecar_exit_message("OCR sidecar", "  boom \n"), "OCR sidecar 退出失败：boom");
    let result: Result<u32, AppError> = final_stream_result(None);
    assert_eq!(filesystem_message(result.expect_err("no result")), "OCR sidecar 未返回最终结果");
    assert_eq!(final_stream_result(Some(Ok::<u32, AppError>(3))).expect("reported"), 3);
}

fn page(page_index: u32, text: &str, confidence_percent: Option<u32>, counts: Option<(u32, u32)>) -> OcrPageResult {
    OcrPageResult {
        page_index,
        text: text.to_string(),
        confidence_percent,
        line_count: counts.map(|c| c.0),
        char_count: counts.map(|c| c.1),
    }
}

#[test]
fn builds_parsed_document_from_ocr_result() {
    let result = OcrSidecarResult {
        text: "第一页文字\n\n第二页文字".to_string(),
        page_count: 2,
        pages: vec![
            page(0, "第一页文字", Some(90), Some((1, 5))),
            page(1, "第二页文字", Some(80), Some((1, 5))),
        ],
    };

    let document = build_ocr_document("扫描资料.pdf", &result).expect("document builds");

    assert_eq!(document.title, "扫描资料.pdf");
    assert_eq!(document.source_locator, "扫描资料.pdf#ocr");
    assert_eq!(document.segments.len(), 2);
    assert_eq!(document.segments[0].source_locator, "扫描资料.pdf#ocr-page-001");
    assert_eq!(
        document.segments[0].evidence.as_ref().and_then(|evidence| evidence.confidence_percent),
        Some(90)
    );
    assert_eq!(document.segments[0].evidence.as_ref().and_then(|evidence| evidence.page_count), Some(2));
    assert_eq!(document.segments[1].title, "扫描资料.pdf · OCR 第 2 页");
    assert!(document.body.contains("第一页文字"));
    assert!(document.summary.contains("第一页文字"));
}

#[test]
fn builds_ocr_evidence_metadata_from_legacy_sidecar_page_shape() {
    let result = OcrSidecarResult {
        text: "第一行文字\n第二行文字".to_string(),
        page_count: 1,
        pages: vec![page(0, "第一行文字\n第二行文字", Some(91), None)],
    };

    let document = build_ocr_document("扫描资料.pdf", &result).expect("document builds");
    let evidence = document.segments[0].evidence.as_ref().expect("evidence metadata is generated");

    assert_eq!(evidence.page_number, Some(1));
    assert_eq!(evidence.page_count, Some(1));
    assert_eq!(evidence.line_count, Some(2));
    assert_eq!(evidence.char_count, Some(11));
    assert_eq!(evidence.confidence_percent, Some(91));
}

#[test]
fn empty_ocr_results_are_refused_and_blank_pages_dropped() {
    let empty = OcrSidecarResult { text: " \n ".to_string(), page_count: 0, pages: Vec::new() };
    assert_eq!(filesystem_message(build_ocr_document("a.png", &empty).expect_err("empty")), "OCR 结果为空");

    let result = OcrSidecarResult {
        text: "文字".to_string(),
        page_count: 2,
        pages: vec![page(0, "  ", None, None), page(1, "文字", None, None)],
    };
    let document = build_ocr_document("docs\\a.pdf", &result).expect("document builds");
    assert_eq!(document.segments.len(), 1);
    assert_eq!(document.segments[0].source_locator, "docs\\a.pdf#ocr-page-002");
    assert_eq!(document.title, "a.pdf");
}

#[test]
fn sidecar_request_payload_contains_owned_temp_dir() {
    let temp_dir = OcrSidecarTempDir::new(format!("C:\\Temp\\{}", ocr_temp_dir_name("1234")));
    let request = build_ocr_request(
        "E:\\Knowledge\\scan.pdf".to_string(),
        "E:\\CodeHome\\Library\\models\\ocr\\pp-ocrv6".to_string(),
        "medium",
        20,
        40_000_000,
    );

    let payload = request_with_temp_dir(&request, temp_dir.path());

    assert_eq!(payload.temp_dir.as_deref(), Some(temp_dir.path()));
    assert_eq!(payload.file_path, request.file_path);
    assert!(temp_dir.path().ends_with("1234"));
}

#[test]
fn only_owned_temp_dirs_are_removed() {
    let name = ocr_temp_dir_name("abc");
    assert!(may_remove_ocr_temp_dir(true, Some(name.as_str())));
    assert!(!may_remove_ocr_temp_dir(false, Some(name.as_str())));
    assert!(!may_remove_ocr_temp_dir(true, Some("Documents")));
    assert!(!may_remove_ocr_temp_dir(true, None));
}

const DOCUMENT_WITH_ONE_IMAGE: &[u8] = br#"<w:document xmlns:w="http://schemas.openxmlformats.org/wordprocessingml/2006/main" xmlns:a="http://schemas.openxmlformats.org/drawingml/2006/main" xmlns:r="http://schemas.openxmlformats.org/officeDocument/2006/relationships" xmlns:wp="http://schemas.openxmlformats.org/drawingml/2006/wordprocessingDrawing"><w:body><w:p><w:r><w:drawing><wp:inline><wp:docPr id="1" name="Picture 1" descr="Architecture diagram"/><a:graphic><a:graphicData><a:pic><a:blipFill><a:blip r:embed="rId5"/></a:blipFill></a:pic></a:graphicData></a:graphic></wp:inline></w:drawing></w:r></w:p></w:body></w:document>"#;

const DOCUMENT_WITH_TWO_IMAGES: &[u8] = br#"<w:document xmlns:w="http://schemas.openxmlformats.org/wordprocessingml/2006/main" xmlns:a="http://schemas.openxmlformats.org/drawingml/2006/main" xmlns:r="http://schemas.openxmlformats.org/officeDocument/2006/relationships" xmlns:wp="http://schemas.openxmlformats.org/drawingml/2006/wordprocessingDrawing"><w:body><w:p><w:r><w:drawing><wp:inline><a:graphic><a:graphicData><a:pic><a:blipFill><a:blip r:embed="rIdSvg"/></a:blipFill></a:pic></a:graphicData></a:graphic></wp:inline></w:drawing></w:r></w:p><w:p><w:r><w:drawing><wp:inline><a:graphic><a:graphicData><a:pic><a:blipFill><a:blip r:embed="rIdPng"/></a:blipFill></a:pic></a:graphicData></a:graphic></wp:inline></w:drawing></w:r></w:p></w:body></w:document>"#;

fn docx_with_referenced_and_unused_images() -> Vec<u8> {
    archive(&[
        ("word/document.xml", DOCUMENT_WITH_ONE_IMAGE),
        (
            "word/_rels/document.xml.rels",
            br#"<Relationships xmlns="http://schemas.openxmlformats.org/package/2006/relationships"><Relationship Id="rId5" Type="http://schemas.openxmlformats.org/officeDocument/2006/relationships/image" Target="media/image1.png"/><Relationship Id="rId6" Type="http://schemas.openxmlformats.org/officeDocument/2006/relationships/image" Target="media/unused.png"/></Relationships>"#,
        ),
        ("word/media/image1.png", b"referenced"),
        ("word/media/unused.png", b"unused"),
    ])
}

fn docx_with_svg_then_png() -> Vec<u8> {
    archive(&[
        ("word/document.xml", DOCUMENT_WITH_TWO_IMAGES),
        (
            "word/_rels/document.xml.rels",
            br#"<Relationships xmlns="http://schemas.openxmlformats.org/package/2006/relationships"><Relationship Id="rIdSvg" Type="http://schemas.openxmlformats.org/officeDocument/2006/relationships/image" Target="media/diagram.svg"/><Relationship Id="rIdPng" Type="http://schemas.openxmlformats.org/officeDocument/2006/relationships/image" Target="media/scan.png"/></Relationships>"#,
        ),
        ("word/media/diagram.svg", b"<svg></svg>"),
        ("word/media/scan.png", b"second-png"),
    ])
}

#[test]
fn extracts_referenced_docx_embedded_image_for_ocr_request() {
    let docx = docx_with_referenced_and_unused_images();

    let plan = plan_docx_embedded_image_ocr("docs\\report.docx#image-001", &docx)
        .expect("embedded image ocr request is planned");

    assert_eq!(plan.image_number, 1);
    assert_eq!(plan.target, "word/media/image1.png");
    assert_eq!(plan.file_name, "embedded-image-001.png");
    assert_eq!(docx_image_bytes(&docx, &plan.target).expect("extracted image reads"), b"referenced");
    assert!(docx_embedded_image_target(&docx, 2).is_err());
}

#[test]
fn unsupported_embedded_image_names_its_number_and_format() {
    let docx = docx_with_svg_then_png();
    match plan_docx_embedded_image_ocr("docs\\mixed.docx#image-001", &docx) {
        Ok(_) => panic!("svg image is not read by OCR"),
        Err(error) => assert_eq!(filesystem_message(error), "DOCX 第 1 张内嵌图片格式 .svg 当前不支持 OCR"),
    }
}

#[test]
fn preserves_docx_embedded_image_numbering_when_unsupported_images_come_first() {
    let docx = docx_with_svg_then_png();

    match plan_docx_embedded_image_ocr("docs\\mixed.docx#image-001", &docx) {
        Ok(_) => panic!("svg image should be rejected without renumbering later images"),
        Err(error) => assert!(filesystem_message(error).contains("不支持 OCR")),
    }

    let plan = plan_docx_embedded_image_ocr("docs\\mixed.docx#image-002", &docx)
        .expect("second embedded image keeps parser numbering");

    assert_eq!(plan.file_name, "embedded-image-002.png");
    assert_eq!(docx_image_bytes(&docx, &plan.target).expect("extracted image reads"), b"second-png");
}

#[test]
fn embedded_image_locators_must_name_an_image() {
    let docx = docx_with_referenced_and_unused_images();
    let error = plan_docx_embedded_image_ocr("docs\\report.docx", &docx).expect_err("locator without image");
    assert_eq!(filesystem_message(error), "DOCX 内嵌图片 OCR 缺少有效的 #image-N 来源定位");
}

#[test]
fn relationship_targets_stay_inside_the_archive() {
    assert_eq!(normalize_docx_relationship_target("media/image1.png"), Some("word/media/image1.png".to_string()));
    assert_eq!(normalize_docx_relationship_target("/word/media/a.jpg"), Some("word/media/a.jpg".to_string()));
    assert_eq!(normalize_docx_relationship_target("media\\b.png"), Some("word/media/b.png".to_string()));
    assert_eq!(normalize_docx_relationship_target("../secret.png"), None);
    assert_eq!(normalize_docx_relationship_target("http://example.com/a.png"), None);
    assert_eq!(normalize_docx_relationship_target("  "), None);
    assert!(is_docx_image_target("word/media/image1.png"));
    assert_eq!(image_extension("word/media/Photo.JPG"), "jpg");
    assert_eq!(image_extension("word/media/noext"), "png");
}

#[test]
fn vision_results_and_captions() {
    assert!(is_image_extension("PNG"));
    assert!(!is_image_extension("pdf"));
    let ok = vision_envelope_result(true, Some(VisionSidecarResult { caption: "图".to_string() }), None).expect("caption");
    assert_eq!(ok.caption, "图");
    let failed = vision_envelope_result(false, None, Some("模型缺失".to_string())).expect_err("failure");
    assert_eq!(filesystem_message(failed), "Vision sidecar 错误：模型缺失");
    let unknown = vision_envelope_result(false, None, None).expect_err("failure");
    assert_eq!(filesystem_message(unknown), "Vision sidecar 错误：未知错误");

    let logged = reply_failure_with_log(&AppError::Filesystem("坏了".to_string()), "  trace  ");
    assert_eq!(filesystem_message(logged), "本地文件错误：坏了；日志：trace");

    let unconfigured = vision_unconfigured_document("imgs\\a.png");
    assert_eq!(unconfigured.title, "a.png");
    assert_eq!(unconfigured.summary, "Vision 模型未配置");
    let captioned = caption_document("imgs\\a.png", "一张图".to_string());
    assert_eq!(captioned.body, "一张图");
    assert_eq!(captioned.source_locator, "imgs\\a.png");
}

#[test]
fn embedded_images_get_their_captions() {
    let image_evidence = ParsedEvidenceMetadata {
        kind: Some("embedded_image".to_string()),
        page_number: None,
        page_count: None,
        image_number: Some(2),
        line_count: None,
        char_count: None,
        confidence_percent: None,
    };
    let mut document = ParsedDocument {
        title: "说明.docx".to_string(),
        body: String::new(),
        summary: String::new(),
        source_locator: "说明.docx".to_string(),
        segments: vec![
            ParsedDocumentSegment {
                title: "正文".to_string(),
                body: "正文".to_string(),
                source_locator: "说明.docx#page-001".to_string(),
                evidence: None,
            },
            ParsedDocumentSegment {
                title: "图片".to_string(),
                body: "图片占位".to_string(),
                source_locator: "说明.docx#image-002".to_string(),
                evidence: Some(image_evidence),
            },
        ],
        table_insights: Vec::new(),
    };
    assert_eq!(embedded_images_to_caption(&document), vec![(1, 2)]);
    append_image_caption(&mut document.segments[1], "架构图");
    assert_eq!(document.segments[1].body, "图片占位\n\n[图片描述] 架构图");
    append_image_caption(&mut document.segments[0], "");
    assert_eq!(document.segments[0].body, "正文");
}

fn parts(values: &[&str]) -> Vec<String> {
    values.iter().map(|value| value.to_string()).collect()
}

#[test]
fn files_must_stay_inside_the_space_folder() {
    let root = parts(&["/", "data", "知识库"]);
    assert!(check_within_root(&root, &parts(&["/", "data", "知识库", "docs", "a.md"])).is_ok());
    assert!(check_within_root(&root, &parts(&["/", "data", "知识库"])).is_ok());
    let outside = check_within_root(&root, &parts(&["/", "data", "其他", "a.md"])).expect_err("outside the root");
    match outside {
        AppError::PermissionDenied(message) => assert_eq!(message, "文件路径超出知识库目录边界"),
        other => panic!("unexpected error {other:?}"),
    }
    assert!(check_within_root(&root, &parts(&["/", "data"])).is_err());
}
