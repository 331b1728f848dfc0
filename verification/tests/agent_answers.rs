use knowledge_base::agent::build_context;
use knowledge_base::agent::build_local_answer;
use knowledge_base::agent::chat_completions_url;
use knowledge_base::agent::final_answer;
use knowledge_base::agent::first_choice_message;
use knowledge_base::agent::source_kind_label;
use knowledge_base::agent::system_prompt;
use knowledge_base::agent::with_system_prompt;
use knowledge_base::agent::ChatChoice;
use knowledge_base::agent::ChatChoiceMessage;
use knowledge_base::agent::ChatCompletionResponse;
use knowledge_base::agent::ChatMessagePayload;
use knowledge_base::agent::ChatRetry;
use knowledge_base::models::KnowledgeBlockSearchHit;

fn hit(id: &str, title: &str, excerpt: &str, file: &str, locator: &str, kind: &str) -> KnowledgeBlockSearchHit {
    KnowledgeBlockSearchHit {
        id: id.to_string(),
        title: title.to_string(),
        excerpt: excerpt.to_string(),
        source_file_name: file.to_string(),
        source_locator: locator.to_string(),
        source_kind: kind.to_string(),
    }
}

#[test]
fn local_answer_includes_source_names() {
    let answer = build_local_answer(
        "缓存穿透",
        &[KnowledgeBlockSearchHit {
            id: "block-1".to_string(),
            title: "Redis面试.md".to_string(),
            excerpt: "缓存穿透需要空值缓存和布隆过滤器。".to_string(),
            source_file_name: "Redis面试.md".to_string(),
            source_locator: "Redis面试.md".to_string(),
            source_kind: "original_file".to_string(),
        }],
    );

    assert!(answer.contains("空值缓存"));
    assert!(answer.contains("来源"));
    assert!(answer.contains("Redis面试.md"));
}

#[test]
fn local_answer_labels_table_sources() {
    let answer = build_local_answer(
        "6月营收",
        &[KnowledgeBlockSearchHit {
            id: "table-1".to_string(),
            title: "经营报表.xlsx · 工作表 1".to_string(),
            excerpt: "表头：月份、营收、成本 样例 1：2026-06 | 120 | 70".to_string(),
            source_file_name: "经营报表.xlsx".to_string(),
            source_locator: "经营报表.xlsx#sheet-001".to_string(),
            source_kind: "table".to_string(),
        }],
    );

    assert!(answer.contains("[表格洞察]"));
    assert!(answer.contains("2026-06 | 120 | 70"));
    assert!(answer.contains("经营报表.xlsx（表格洞察）"));
}

#[test]
fn local_answer_labels_ocr_sources() {
    let answer = build_local_answer(
        "扫描版发票",
        &[KnowledgeBlockSearchHit {
            id: "ocr-1".to_string(),
            title: "scan.pdf · OCR 片段 1/1".to_string(),
            excerpt: "扫描版发票金额为 120 元。".to_string(),
            source_file_name: "scan.pdf".to_string(),
            source_locator: "scan.pdf#ocr-block-001".to_string(),
            source_kind: "ocr".to_string(),
        }],
    );

    assert!(answer.contains("[本地 OCR]"));
    assert!(answer.contains("scan.pdf（本地 OCR）"));
}

#[test]
fn local_answer_without_hits_is_explicitly_evidence_bounded() {
    let answer = build_local_answer("不存在的问题", &[]);

    assert!(answer.contains("没有足够本地证据"));
    assert!(answer.contains("不会编造"));
    assert!(answer.contains("请先扫描并建索引/摘要"));
}

#[test]
fn local_answer_lists_every_source_in_order() {
    let answer = build_local_answer(
        "问题",
        &[
            hit("a", "A", "第一条", "a.md", "a.md", "markdown_note"),
            hit("b", "B", "第二条", "b.pdf", "b.pdf#ocr", "ocr"),
        ],
    );
    assert_eq!(
        answer,
        "根据本地知识库中与“问题”相关的内容：\n1. [Markdown 笔记] 第一条\n2. [本地 OCR] 第二条\n\n来源：a.md（Markdown 笔记）、b.pdf（本地 OCR）"
    );
}

#[test]
fn source_kind_labels_cover_every_kind() {
    assert_eq!(source_kind_label("ocr"), "本地 OCR");
    assert_eq!(source_kind_label("table"), "表格洞察");
    assert_eq!(source_kind_label("markdown_note"), "Markdown 笔记");
    assert_eq!(source_kind_label("original_file"), "原始文件");
    assert_eq!(source_kind_label(""), "原始文件");
}

#[test]
fn context_numbers_entries_with_their_sources() {
    let context = build_context(&[hit("x", "标题", "内容片段", "file.md", "file.md", "table")]);
    assert_eq!(
        context,
        "[来源 1]\n来源类型：表格洞察\n来源文件：file.md\n标题：标题\n内容：内容片段\n\n"
    );
}

#[test]
fn context_is_cut_to_the_character_limit() {
    let long = "长".repeat(5000);
    let hits = vec![
        hit("x", "t", &long, "f.md", "f.md", "ocr"),
        hit("y", "t", "第二条", "g.md", "g.md", "ocr"),
    ];
    let context = build_context(&hits);
    assert_eq!(context.chars().count(), 4000);
    assert!(!context.contains("第二条"));
}

#[test]
fn context_of_no_hits_is_empty() {
    assert_eq!(build_context(&[]), "");
}

#[test]
fn system_prompt_is_added_only_when_missing() {
    let user = ChatMessagePayload {
        role: "user".to_string(),
        content: Some("你好".to_string()),
        name: None,
        tool_calls: None,
        tool_call_id: None,
    };
    let with_prompt = with_system_prompt(vec![user.clone()], Some("友好"));
    assert_eq!(with_prompt.len(), 2);
    assert_eq!(with_prompt[0].role, "system");
    assert!(with_prompt[0].content.as_ref().unwrap().ends_with(" 请保持友好的语气。"));
    assert_eq!(with_prompt[1].role, "user");

    let again = with_system_prompt(with_prompt.clone(), None);
    assert_eq!(again.len(), 2);
    assert!(!system_prompt(None).contains("请保持"));
}

#[test]
fn chat_endpoint_drops_trailing_slashes() {
    assert_eq!(chat_completions_url("https://api.deepseek.com//"), "https://api.deepseek.com/chat/completions");
    assert_eq!(chat_completions_url("https://api.deepseek.com"), "https://api.deepseek.com/chat/completions");
}

#[test]
fn first_choice_is_the_answer() {
    let response = ChatCompletionResponse {
        choices: vec![
            ChatChoice { message: ChatChoiceMessage { content: Some("一".to_string()), tool_calls: None } },
            ChatChoice { message: ChatChoiceMessage { content: Some("二".to_string()), tool_calls: None } },
        ],
    };
    assert_eq!(first_choice_message(response).unwrap().content.as_deref(), Some("一"));
    assert!(first_choice_message(ChatCompletionResponse { choices: vec![] }).is_none());
}

#[test]
fn chat_retries_wait_one_then_two_seconds() {
    let mut retry = ChatRetry::new();
    assert!(retry.can_attempt());
    assert_eq!(retry.record_failure(), Some(1));
    assert!(retry.can_attempt());
    assert_eq!(retry.record_failure(), Some(2));
    assert!(retry.can_attempt());
    assert_eq!(retry.record_failure(), None);
    assert!(!retry.can_attempt());
}

#[test]
fn chat_replies_fall_back_to_the_local_answer() {
    let hits = vec![hit("b1", "Redis", "缓存穿透需要空值缓存", "Redis面试.md", "Redis面试.md", "original_file")];
    let reply = ChatChoiceMessage { content: Some("模型回答".to_string()), tool_calls: None };
    assert_eq!(final_answer(Some(reply), "缓存穿透", &hits), "模型回答");

    let blank = ChatChoiceMessage { content: Some("  \n".to_string()), tool_calls: None };
    let fallback = final_answer(Some(blank), "缓存穿透", &hits);
    assert_eq!(fallback, build_local_answer("缓存穿透", &hits));
    assert!(fallback.contains("Redis面试.md（原始文件）"));

    let silent = ChatChoiceMessage { content: None, tool_calls: None };
    assert_eq!(final_answer(Some(silent), "缓存穿透", &hits), build_local_answer("缓存穿透", &hits));
    assert_eq!(final_answer(None, "缓存穿透", &[]), build_local_answer("缓存穿透", &[]));
}
