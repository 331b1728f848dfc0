use knowledge_base::runtime::DeepSeekConfig;
use knowledge_base::error::error_response;
use knowledge_base::error::AppError;
use knowledge_base::models::can_request_session_permission;
use knowledge_base::models::ParseStatus;
use knowledge_base::models::PermissionMode;
use knowledge_base::runtime::build_runtime_status;
use knowledge_base::runtime::config_value;
use knowledge_base::runtime::deepseek_config;
use knowledge_base::runtime::normalize_ocr_tier;
use knowledge_base::runtime::ocr_config;
use knowledge_base::runtime::parse_local_env_content;
use knowledge_base::runtime::redact_key;
use knowledge_base::runtime::LocalEnv;
use knowledge_base::settings::settings_to_store;
use knowledge_base::settings::user_settings_from;
use knowledge_base::settings::UpdateUserSettingsPayload;

#[test]
fn permission_session_matrix_matches_domain_boundary() {
    let cases = [
        (PermissionMode::Readonly, PermissionMode::Readonly, true),
        (PermissionMode::Readonly, PermissionMode::Approval, false),
        (PermissionMode::Readonly, PermissionMode::Full, false),
        (PermissionMode::Approval, PermissionMode::Readonly, true),
        (PermissionMode::Approval, PermissionMode::Approval, true),
        (PermissionMode::Approval, PermissionMode::Full, false),
        (PermissionMode::Full, PermissionMode::Readonly, true),
        (PermissionMode::Full, PermissionMode::Approval, true),
        (PermissionMode::Full, PermissionMode::Full, true),
    ];

    for (folder_default, requested, expected) in cases {
        assert_eq!(
            can_request_session_permission(&folder_default, &requested),
            expected,
            "folder_default={folder_default:?}, requested={requested:?}"
        );
    }
}

#[test]
fn permission_modes_round_trip_through_their_stored_text() {
    for mode in [PermissionMode::Readonly, PermissionMode::Approval, PermissionMode::Full] {
        assert_eq!(PermissionMode::from_db(mode.as_str()), Some(mode));
    }
    assert_eq!(PermissionMode::from_db("admin"), None);
    for status in [ParseStatus::Indexed, ParseStatus::Changed, ParseStatus::Queued, ParseStatus::Failed] {
        assert_eq!(ParseStatus::from_db(status.as_str()), Some(status));
    }
    assert_eq!(ParseStatus::Queued.label(), "待解析");
}

#[test]
fn error_messages_carry_their_kind() {
    assert_eq!(AppError::PermissionDenied("x".to_string()).message(), "权限不足：x");
    assert_eq!(AppError::Storage("y".to_string()).message(), "本地存储错误：y");
    assert_eq!(error_response(&AppError::Filesystem("z".to_string())).message, "本地文件错误：z");
}

#[test]
fn falls_back_to_medium_for_invalid_ocr_tiers() {
    assert_eq!(normalize_ocr_tier(Some("tiny")), "tiny");
    assert_eq!(normalize_ocr_tier(Some("small")), "small");
    assert_eq!(normalize_ocr_tier(Some("medium")), "medium");
    assert_eq!(normalize_ocr_tier(Some("large")), "medium");
    assert_eq!(normalize_ocr_tier(None), "medium");
}

#[test]
fn parses_local_env_without_including_comments() {
    let values = parse_local_env_content(
        "# DeepSeek API Key, 仅本机使用\nDEEPSEEK_API_KEY=local-test-key\nDEEPSEEK_MODEL=\"deepseek-v4-flash\"\n",
    );

    assert_eq!(
        values.get("DEEPSEEK_API_KEY").map(String::as_str),
        Some("local-test-key")
    );
    assert_eq!(
        values.get("DEEPSEEK_MODEL").map(String::as_str),
        Some("deepseek-v4-flash")
    );
    assert!(!values.contains_key("# DeepSeek API Key"));
}

#[test]
fn later_env_lines_override_earlier_ones_and_quotes_are_removed() {
    let values = parse_local_env_content("A=1\r\n =skip\nnoequals\nA = '2' \nB=\"\n");
    assert_eq!(values.get("A").map(String::as_str), Some("2"));
    assert_eq!(values.get("B").map(String::as_str), Some("\""));
    assert_eq!(values.len(), 3);
}

fn present(paths: &[&str]) -> Vec<String> {
    paths.iter().map(|p| p.to_string()).collect()
}

#[test]
fn redacts_deepseek_key_and_reports_missing_ocr_models() {
    let status = build_runtime_status(
        Some("test-key-12345678"),
        "deepseek-v4-flash".to_string(),
        "https://api.deepseek.com".to_string(),
        "medium".to_string(),
        "/tmp/models".to_string(),
        "/tmp/models".to_string(),
        &[],
        &[],
    );

    assert!(status.deepseek.configured);
    assert_eq!(status.deepseek.key_hint, "tes...5678");
    assert!(!status.ocr.configured);
    assert_eq!(status.ocr.missing_models.len(), 2);
}

#[test]
fn redacts_non_ascii_key_without_panicking() {
    let status = build_runtime_status(
        Some("测试占位密钥很长文本"),
        "deepseek-v4-flash".to_string(),
        "https://api.deepseek.com".to_string(),
        "medium".to_string(),
        "/tmp/models".to_string(),
        "/tmp/models".to_string(),
        &[],
        &[],
    );

    assert!(status.deepseek.configured);
    assert_eq!(status.deepseek.key_hint, "测试占...很长文本");
}

#[test]
fn empty_deepseek_key_is_not_reported_as_configured() {
    let status = build_runtime_status(
        Some("   "),
        "deepseek-v4-flash".to_string(),
        "https://api.deepseek.com".to_string(),
        "medium".to_string(),
        "/tmp/models".to_string(),
        "/tmp/models".to_string(),
        &[],
        &[],
    );

    assert!(!status.deepseek.configured);
    assert_eq!(status.deepseek.key_hint, "未配置");
}

#[test]
fn detects_downloaded_ocr_model_folders() {
    let mut found = present(&["PP-OCRv6_medium_det", "PP-OCRv6_medium_rec"]);
    for model_name in ["PP-OCRv6_medium_det", "PP-OCRv6_medium_rec"] {
        for file_name in ["inference.json", "inference.pdiparams", "inference.yml"] {
            found.push(format!("{model_name}/{file_name}"));
        }
    }

    let status = build_runtime_status(
        None,
        "deepseek-v4-flash".to_string(),
        "https://api.deepseek.com".to_string(),
        "medium".to_string(),
        "/tmp/models".to_string(),
        "/tmp/models".to_string(),
        &found,
        &[],
    );

    assert!(!status.deepseek.configured);
    assert_eq!(status.deepseek.key_hint, "未配置");
    assert!(status.ocr.configured);
    assert!(status.ocr.missing_models.is_empty());
    assert!(!status.vision.configured);
}

#[test]
fn missing_model_files_are_listed_per_folder() {
    let status = build_runtime_status(
        None,
        "m".to_string(),
        "u".to_string(),
        "tiny".to_string(),
        "/d".to_string(),
        "/v".to_string(),
        &present(&["PP-OCRv6_tiny_det", "PP-OCRv6_tiny_det/inference.json"]),
        &present(&["config.json", "model.safetensors", "tokenizer.json"]),
    );
    assert_eq!(
        status.ocr.missing_models,
        vec![
            "PP-OCRv6_tiny_det/inference.pdiparams".to_string(),
            "PP-OCRv6_tiny_det/inference.yml".to_string(),
            "PP-OCRv6_tiny_rec".to_string(),
        ]
    );
    assert!(status.vision.configured);
}

#[test]
fn key_hints_never_show_short_keys() {
    assert_eq!(redact_key(""), "未配置");
    assert_eq!(redact_key("12345678"), "已配置");
    assert_eq!(redact_key(" 123456789 "), "123...6789");
}

#[test]
fn process_environment_wins_over_env_file() {
    let mut process = LocalEnv::new();
    process.insert("DEEPSEEK_MODEL".to_string(), "from-process".to_string());
    process.insert("DEEPSEEK_BASE_URL".to_string(), "  ".to_string());
    let local = parse_local_env_content("DEEPSEEK_API_KEY=k-1\nDEEPSEEK_MODEL=from-file\nDEEPSEEK_BASE_URL=https://x\n");
    assert_eq!(config_value("DEEPSEEK_MODEL", &process, &local).as_deref(), Some("from-process"));
    assert_eq!(config_value("DEEPSEEK_BASE_URL", &process, &local), None);
    let config = deepseek_config(&process, &local).expect("key is configured");
    assert_eq!(config.api_key, "k-1");
    assert_eq!(config.model, "from-process");
    assert_eq!(config.base_url, "https://api.deepseek.com");
    assert!(deepseek_config(&LocalEnv::new(), &LocalEnv::new()).is_none());
    let ocr = ocr_config(&process, &parse_local_env_content("OCR_MODEL_TIER= small \n"), "/default".to_string());
    assert_eq!(ocr.tier, "small");
    assert_eq!(ocr.model_dir, "/default");
}

#[test]
fn user_settings_show_only_the_masked_key() {
    let settings = user_settings_from(Some(DeepSeekConfig {
        api_key: "test-key-12345678".to_string(),
        model: "deepseek-v4-flash".to_string(),
        base_url: "https://api.deepseek.com".to_string(),
    }));
    assert_eq!(settings.deepseek_api_key, "tes...5678");
    assert_eq!(settings.deepseek_model, "deepseek-v4-flash");
    let short = user_settings_from(Some(DeepSeekConfig {
        api_key: "short".to_string(),
        model: "m".to_string(),
        base_url: "u".to_string(),
    }));
    assert_eq!(short.deepseek_api_key, "已配置");
}

#[test]
fn user_settings_fall_back_to_defaults() {
    let settings = user_settings_from(None);
    assert_eq!(settings.deepseek_api_key, "");
    assert_eq!(settings.deepseek_model, "deepseek-v4-flash");
    assert_eq!(settings.deepseek_base_url, "https://api.deepseek.com");
    let stored = settings_to_store(UpdateUserSettingsPayload {
        deepseek_api_key: Some("k".to_string()),
        deepseek_model: None,
        deepseek_base_url: Some("u".to_string()),
    });
    assert_eq!(
        stored,
        vec![
            ("DEEPSEEK_API_KEY".to_string(), "k".to_string()),
            ("DEEPSEEK_BASE_URL".to_string(), "u".to_string())
        ]
    );
}
