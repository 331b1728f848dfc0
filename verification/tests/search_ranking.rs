use knowledge_base::chunking::document_knowledge_blocks;
use knowledge_base::chunking::evidence_metadata_summary;
use knowledge_base::chunking::segmented_knowledge_blocks;
use knowledge_base::chunking::segmented_knowledge_blocks_with_evidence;
use knowledge_base::chunking::split_knowledge_block_body;
use knowledge_base::locator::append_source_block_locator;
use knowledge_base::locator::display_extension;
use knowledge_base::locator::display_parse_job_file_name;
use knowledge_base::locator::display_source_file_name;
use knowledge_base::locator::embedded_image_number_from_locator;
use knowledge_base::locator::is_ocr_source_locator;
use knowledge_base::locator::normalize_lookup_key;
use knowledge_base::locator::normalize_optional_source_locator;
use knowledge_base::models::KnowledgeBlockSearchHit;
use knowledge_base::models::ParsedDocument;
use knowledge_base::models::ParsedDocumentSegment;
use knowledge_base::models::ParsedEvidenceMetadata;
use knowledge_base::search::append_unique_hits;
use knowledge_base::search::block_context;
use knowledge_base::search::build_excerpt;
use knowledge_base::search::make_search_hit;
use knowledge_base::search::merge_search_hits;
use knowledge_base::search::query_contains_ocr_intent;
use knowledge_base::search::rank_search_hits;
use knowledge_base::search::search_terms;

fn ranked_hit(id: &str, source_kind: &str, source_locator: &str) -> KnowledgeBlockSearchHit {
    KnowledgeBlockSearchHit {
        id: id.to_string(),
        title: id.to_string(),
        excerpt: id.to_string(),
        source_file_name: display_source_file_name(source_locator),
        source_locator: source_locator.to_string(),
        source_kind: source_kind.to_string(),
    }
}

fn ids(hits: &[KnowledgeBlockSearchHit]) -> Vec<&str> {
    hits.iter().map(|hit| hit.id.as_str()).collect()
}

#[test]
fn source_ranking_promotes_adjacent_structured_sources_only() {
    let mut hits = vec![
        ranked_hit("plain-close", "original_file", "经营报表.md"),
        ranked_hit("table-close", "table", "经营报表.xlsx#sheet-001"),
    ];

    rank_search_hits(&mut hits, "营收");

    assert_eq!(hits[0].id, "table-close");
    assert_eq!(hits[1].id, "plain-close");
}

#[test]
fn source_ranking_keeps_clear_relevance_leaders_first() {
    let mut hits = vec![
        ranked_hit("plain-strong", "original_file", "经营报表.md#block-001"),
        ranked_hit("plain-next", "original_file", "经营报表.md#block-002"),
        ranked_hit("plain-third", "original_file", "经营报表.md#block-003"),
        ranked_hit("table-weak", "table", "历史报表.xlsx#sheet-001"),
    ];

    rank_search_hits(&mut hits, "营收");

    assert_eq!(hits[0].id, "plain-strong");
    assert_eq!(hits[1].id, "plain-next");
    assert_eq!(hits[2].id, "table-weak");
}

#[test]
fn source_file_name_hides_ocr_locator_suffix() {
    assert_eq!(display_source_file_name("扫描资料\\scan.pdf#ocr"), "scan.pdf");
    assert_eq!(display_source_file_name("扫描资料\\scan.pdf#ocr-block-002"), "scan.pdf");
    assert_eq!(display_source_file_name("扫描资料\\scan.pdf#ocr-page-002"), "scan.pdf");
    assert_eq!(display_source_file_name("扫描资料\\report.pdf#page-003"), "report.pdf");
    assert_eq!(display_source_file_name("docs\\Redis面试.md#block-001"), "Redis面试.md");
    assert_eq!(display_source_file_name("reports\\经营报表.xlsx#sheet-001"), "经营报表.xlsx");
    assert_eq!(display_source_file_name("docs\\架构说明.docx#image-001"), "架构说明.docx");
    assert_eq!(display_source_file_name("Redis面试.md"), "Redis面试.md");
}

#[test]
fn ocr_sources_move_ahead_only_for_scan_queries() {
    let mut plain_query = vec![
        ranked_hit("plain", "original_file", "scan.pdf"),
        ranked_hit("ocr", "ocr", "scan.pdf#ocr"),
    ];
    rank_search_hits(&mut plain_query, "发票金额");
    assert_eq!(ids(&plain_query), vec!["plain", "ocr"]);

    let mut scan_query = vec![
        ranked_hit("plain", "original_file", "scan.pdf"),
        ranked_hit("ocr", "ocr", "scan.pdf#ocr"),
    ];
    rank_search_hits(&mut scan_query, "扫描 发票金额");
    assert_eq!(ids(&scan_query), vec!["ocr", "plain"]);

    let mut upper_case_query = vec![
        ranked_hit("plain", "original_file", "scan.pdf"),
        ranked_hit("ocr", "ocr", "scan.pdf#ocr"),
    ];
    rank_search_hits(&mut upper_case_query, "OCR 结果");
    assert_eq!(ids(&upper_case_query), vec!["ocr", "plain"]);
}

#[test]
fn ranking_leaves_plain_hits_in_their_order() {
    let mut hits = vec![
        ranked_hit("a", "original_file", "a.md"),
        ranked_hit("b", "original_file", "b.md"),
        ranked_hit("c", "original_file", "c.md"),
    ];
    rank_search_hits(&mut hits, "任意");
    assert_eq!(ids(&hits), vec!["a", "b", "c"]);
}

#[test]
fn ocr_intent_tokens_are_detected() {
    assert!(query_contains_ocr_intent("ocr"));
    assert!(query_contains_ocr_intent("这张截图"));
    assert!(query_contains_ocr_intent("识别结果"));
    assert!(!query_contains_ocr_intent("营收"));
}

#[test]
fn search_terms_add_the_whole_query_parts_and_windows() {
    assert_eq!(
        search_terms("2026-06 营收"),
        vec![
            "2026-06 营收",
            "2026-06",
            "2026",
            "026-",
            "26-0",
            "6-06",
            "202",
            "026",
            "26-",
            "6-0",
            "-06",
            "营收",
        ]
    );
    assert!(search_terms("   ").is_empty());
    assert_eq!(search_terms("营收？"), vec!["营收"]);
    assert!(search_terms("a").is_empty());
}

#[test]
fn excerpt_starts_at_the_term_and_keeps_the_evidence_range() {
    assert_eq!(
        build_excerpt("第一行\n证据范围：OCR 第 1 页\n正文：发票金额 100 元", "发票"),
        "证据范围：OCR 第 1 页 正文摘录：发票金额 100 元"
    );
    assert_eq!(build_excerpt("alpha   beta\ngamma", "beta"), "beta gamma");
    assert_eq!(build_excerpt("alpha beta", "missing"), "alpha beta");
    let long = "a".repeat(200);
    let excerpt = build_excerpt(&long, "");
    assert_eq!(excerpt, format!("{}…", "a".repeat(180)));
}

#[test]
fn search_hits_from_ocr_locators_are_reported_as_ocr() {
    let hit = make_search_hit(
        "block-1".to_string(),
        "扫描件".to_string(),
        "发票金额 100 元",
        "扫描资料\\scan.pdf#ocr-block-002".to_string(),
        "original_file".to_string(),
        "发票",
    );
    assert_eq!(hit.source_kind, "ocr");
    assert_eq!(hit.source_file_name, "scan.pdf");
    assert_eq!(hit.excerpt, "发票金额 100 元");

    let plain = make_search_hit(
        "block-2".to_string(),
        "报表".to_string(),
        "营收",
        "报表.xlsx#sheet-001".to_string(),
        "table".to_string(),
        "营收",
    );
    assert_eq!(plain.source_kind, "table");
}

#[test]
fn unique_hits_are_appended_up_to_the_limit() {
    let mut current = vec![ranked_hit("a", "original_file", "a.md")];
    let incoming = vec![
        ranked_hit("a", "original_file", "a.md"),
        ranked_hit("b", "original_file", "b.md"),
        ranked_hit("c", "original_file", "c.md"),
        ranked_hit("d", "original_file", "d.md"),
    ];
    append_unique_hits(&mut current, incoming, 3);
    assert_eq!(ids(&current), vec!["a", "b", "c"]);
}

#[test]
fn merged_search_hits_are_ranked_and_cut_to_the_limit() {
    let full_text = vec![vec![
        ranked_hit("plain", "original_file", "经营报表.xlsx"),
        ranked_hit("table", "table", "经营报表.xlsx#sheet-001"),
    ]];
    let substring = vec![vec![
        ranked_hit("table", "table", "经营报表.xlsx#sheet-001"),
        ranked_hit("other", "original_file", "其他.md"),
    ]];
    let hits = merge_search_hits(full_text, substring, "2026-06 营收", 2);
    assert_eq!(ids(&hits), vec!["table", "plain"]);

    let none = merge_search_hits(vec![vec![ranked_hit("a", "table", "a.xlsx")]], Vec::new(), "  ", 4);
    assert!(none.is_empty());
}

#[test]
fn locators_get_block_fragments() {
    assert_eq!(append_source_block_locator("scan.pdf#ocr", 2), "scan.pdf#ocr-block-002");
    assert_eq!(
        append_source_block_locator("report.pdf#page-003", 1),
        "report.pdf#page-003#block-001"
    );
    assert_eq!(append_source_block_locator(" notes.md ", 12), "notes.md#block-012");
    assert_eq!(append_source_block_locator("notes.md#block-001", 3), "notes.md#block-003");
}

#[test]
fn locator_fragments_are_recognised() {
    assert!(is_ocr_source_locator("scan.pdf#ocr"));
    assert!(is_ocr_source_locator("scan.pdf#ocr-page-001"));
    assert!(!is_ocr_source_locator("scan.pdf#page-001"));
    assert_eq!(embedded_image_number_from_locator("a.docx#image-007"), Some(7));
    assert_eq!(embedded_image_number_from_locator("a.docx#image-x"), None);
    assert_eq!(
        display_parse_job_file_name("docs\\架构说明.docx", Some("docs\\架构说明.docx#image-002")),
        "架构说明.docx · 文档图片 2"
    );
    assert_eq!(display_parse_job_file_name("docs\\架构说明.docx", None), "架构说明.docx");
    assert_eq!(display_extension("md".to_string()), ".md");
    assert_eq!(display_extension(".md".to_string()), ".md");
    assert_eq!(normalize_lookup_key("Docs/Readme.MD"), "docs\\readme.md");
    assert_eq!(normalize_optional_source_locator(Some("  a#ocr ")), Some("a#ocr".to_string()));
    assert_eq!(normalize_optional_source_locator(Some("   ")), None);
    assert_eq!(normalize_optional_source_locator(None), None);
}

#[test]
fn short_bodies_stay_in_one_normalized_chunk() {
    assert_eq!(split_knowledge_block_body("  a \n b\tc  "), vec!["a b c"]);
    assert_eq!(split_knowledge_block_body(""), vec![""]);
}

#[test]
fn long_bodies_split_at_sentence_ends() {
    let sentence = format!("{}。", "字".repeat(999));
    let body = sentence.repeat(3);
    let chunks = split_knowledge_block_body(&body);
    assert_eq!(chunks.len(), 3);
    for chunk in &chunks {
        assert_eq!(chunk, &sentence);
    }

    let unbroken = "x".repeat(4000);
    let pieces = split_knowledge_block_body(&unbroken);
    assert_eq!(pieces.len(), 3);
    assert_eq!(pieces[0].chars().count(), 1800);
    assert_eq!(pieces[1].chars().count(), 1800);
    assert_eq!(pieces[2].chars().count(), 400);
}

#[test]
fn segmented_blocks_number_their_titles_and_locators() {
    let single = segmented_knowledge_blocks("标题", "正文", "a.md");
    assert_eq!(single.len(), 1);
    assert_eq!(single[0].title, "标题");
    assert_eq!(single[0].body, "正文");
    assert_eq!(single[0].source_locator, "a.md");

    let body = "x".repeat(2000);
    let blocks = segmented_knowledge_blocks("标题", &body, "scan.pdf#ocr");
    assert_eq!(blocks.len(), 2);
    assert_eq!(blocks[0].title, "标题 · 片段 1/2");
    assert_eq!(blocks[1].title, "标题 · 片段 2/2");
    assert_eq!(blocks[0].source_locator, "scan.pdf#ocr-block-001");
    assert_eq!(blocks[1].source_locator, "scan.pdf#ocr-block-002");

    let with_evidence = segmented_knowledge_blocks_with_evidence("页", "内容", "a.pdf#page-001", Some(" PDF 第 1 页 "));
    assert_eq!(with_evidence[0].body, "证据范围：PDF 第 1 页\n正文：内容");
    let blank_evidence = segmented_knowledge_blocks_with_evidence("页", "内容", "a.pdf#page-001", Some("  "));
    assert_eq!(blank_evidence[0].body, "内容");
}

fn evidence(kind: Option<&str>) -> ParsedEvidenceMetadata {
    ParsedEvidenceMetadata {
        kind: kind.map(|k| k.to_string()),
        page_number: None,
        page_count: None,
        image_number: None,
        line_count: None,
        char_count: None,
        confidence_percent: None,
    }
}

#[test]
fn evidence_summaries_name_their_source() {
    assert_eq!(evidence_metadata_summary(&evidence(None)), None);

    let mut page = evidence(Some("pdf_page"));
    page.page_number = Some(2);
    page.page_count = Some(5);
    page.line_count = Some(3);
    page.char_count = Some(0);
    page.confidence_percent = Some(130);
    assert_eq!(
        evidence_metadata_summary(&page),
        Some("PDF 第 2/5 页 · 3 行 · 置信度 100%".to_string())
    );

    let mut image = evidence(Some("embedded_image"));
    image.image_number = Some(4);
    image.page_number = Some(9);
    assert_eq!(evidence_metadata_summary(&image), Some("文档图片 4".to_string()));

    let mut pages = evidence(Some("ocr_page"));
    pages.page_count = Some(3);
    assert_eq!(evidence_metadata_summary(&pages), Some("OCR 共 3 页".to_string()));

    let mut single_page = evidence(Some("table_section"));
    single_page.page_number = Some(1);
    single_page.page_count = Some(0);
    assert_eq!(evidence_metadata_summary(&single_page), Some("表格 第 1 页".to_string()));

    let mut other = evidence(Some("note"));
    other.char_count = Some(12);
    assert_eq!(evidence_metadata_summary(&other), Some("12 字".to_string()));
}

#[test]
fn documents_are_split_by_segment_with_their_evidence() {
    let mut page_evidence = evidence(Some("pdf_page"));
    page_evidence.page_number = Some(1);
    let document = ParsedDocument {
        title: "报告".to_string(),
        body: "全文".to_string(),
        summary: String::new(),
        source_locator: "report.pdf".to_string(),
        segments: vec![
            ParsedDocumentSegment {
                title: "报告 · 第 1 页".to_string(),
                body: "第一页".to_string(),
                source_locator: "report.pdf#page-001".to_string(),
                evidence: Some(page_evidence),
            },
            ParsedDocumentSegment {
                title: "报告 · 第 2 页".to_string(),
                body: "第二页".to_string(),
                source_locator: "report.pdf#page-002".to_string(),
                evidence: None,
            },
        ],
        table_insights: Vec::new(),
    };
    let blocks = document_knowledge_blocks(&document);
    assert_eq!(blocks.len(), 2);
    assert_eq!(blocks[0].body, "证据范围：PDF 第 1 页\n正文：第一页");
    assert_eq!(blocks[0].source_locator, "report.pdf#page-001");
    assert_eq!(blocks[1].body, "第二页");

    let plain = ParsedDocument {
        title: "笔记".to_string(),
        body: "内容".to_string(),
        summary: String::new(),
        source_locator: "notes.md".to_string(),
        segments: Vec::new(),
        table_insights: Vec::new(),
    };
    let plain_blocks = document_knowledge_blocks(&plain);
    assert_eq!(plain_blocks.len(), 1);
    assert_eq!(plain_blocks[0].title, "笔记");
    assert_eq!(plain_blocks[0].source_locator, "notes.md");
}

#[test]
fn block_context_places_the_selected_block() {
    let blocks = vec![
        ranked_hit("b1", "original_file", "a.md#block-001"),
        ranked_hit("b2", "original_file", "a.md#block-002"),
        ranked_hit("b3", "original_file", "a.md#block-003"),
    ];
    let context = block_context(blocks.clone(), "b2").expect("block is found");
    assert_eq!(context.current_index, 2);
    assert_eq!(context.total_count, 3);
    assert_eq!(ids(&context.blocks), vec!["b1", "b2", "b3"]);
    assert!(block_context(blocks, "missing").is_none());
}

#[test]
fn chunking_a_long_body_loses_only_whitespace() {
    let sentence = "缓存穿透需要空值缓存和布隆过滤器。 ";
    let body = format!("{}\n\n{}", sentence.repeat(80), "Redis cache penetration. ".repeat(60));
    let chunks = split_knowledge_block_body(&body);
    assert!(chunks.len() > 1);
    let visible = |text: &str| text.chars().filter(|c| !c.is_whitespace()).collect::<String>();
    assert_eq!(visible(&chunks.concat()), visible(&body));
}
