use wavis_backend::abuse::abuse_metrics::{AbuseCounter, AbuseMetrics};
use wavis_backend::auth::auth_rate_limiter::{AuthRateLimiter, AuthRateLimiterConfig};
use wavis_backend::auth::extractor::{AuthenticatedUser, Authentication};
use wavis_backend::auth::jwt::sign_access_token;
use wavis_backend::auth::recovery_rate_limiter::{RecoveryRateLimiter, RecoveryRateLimiterConfig};
use wavis_backend::calendar::UtcTime;
use wavis_backend::channel::channel_rate_limiter::{ChannelRateLimiter, ChannelRateLimiterConfig};
use wavis_backend::diagnostics::admin_routes::{
    ban_reason, ban_user, get_bug_report_stats, rank, require_admin, unban_user, BanRequest,
    BannedUserEntry,
};
use wavis_backend::diagnostics::bug_report;
use wavis_backend::diagnostics::bug_report::{
    github_blob_html_url_to_renderable_url, read_issue_url, read_uploaded_url, screenshot_path_for,
    AuthenticatedIdentity, BugReportError, GitHubClient, MockGitHubCall, MockGitHubClient,
    MockGitHubConfig, ValidatedBugReport, PNG_MAGIC,
};
use wavis_backend::diagnostics::bug_report_rate_limiter::{
    BugReportRateLimiter, BugReportRateLimiterConfig,
};
use wavis_backend::diagnostics::llm_client::{
    analysis_from, api_error, build_analysis_prompt, build_issue_body_prompt, content_from,
    issue_body_from, read_analysis, read_issue_body, screen_context_for_route,
    strip_markdown_fences, AppStateSnapshot, BugReportContext, LlmAnalysis, LlmClient, LlmError,
    MockLlmCall, MockLlmClient, NoOpLlmClient, QaPair,
};
use wavis_backend::diagnostics::routes;
use wavis_backend::diagnostics::routes::{
    map_bug_report_error, map_llm_error, payload_too_large, try_extract_auth,
    validate_bug_report_fields, AnalyzeRequest, BugReportRequest, GenerateBodyRequest,
    MAX_BODY_LEN, MAX_CATEGORY_LEN, MAX_DECODED_PAYLOAD_SIZE, MAX_TITLE_LEN,
};
use wavis_backend::diagnostics::test_metrics::{
    reset_rate_limits_handler, test_metrics_handler, RoomReport,
};
use wavis_backend::ids::Uuid;
use wavis_backend::json::{parse, Json};
use wavis_backend::net::IpAddr;
use wavis_backend::redaction::Sensitive;
use wavis_backend::time::{Duration, Instant};

fn start() -> Instant {
    Instant::from_origin(Duration::from_secs(1_000_000))
}

fn ip(n: u8) -> IpAddr {
    IpAddr::v4(10, 0, 0, n)
}

fn uuid_of(text: &str) -> Uuid {
    Uuid::from_u128(uuid::Uuid::parse_str(text).unwrap().as_u128())
}

// What the model is told of a screen.

#[test]
fn route_home_maps_to_channel_list() {
    let ctx = screen_context_for_route("/");
    assert!(ctx.contains("Channel List"), "expected Channel List for '/'");
}

#[test]
fn route_room_maps_to_voice_room() {
    let ctx = screen_context_for_route("/room");
    assert!(ctx.contains("Voice Room"), "expected Voice Room for '/room'");
}

#[test]
fn route_setup_maps_to_device_setup() {
    let ctx = screen_context_for_route("/setup");
    assert!(ctx.contains("Device Setup"), "expected Device Setup for '/setup'");
}

#[test]
fn route_screen_share_maps_to_screen_share_context() {
    for route in ["/screen-share", "/watch-all", "/share-indicator"] {
        let ctx = screen_context_for_route(route);
        assert!(ctx.contains("Screen Share"), "expected Screen Share context for '{route}'");
    }
}

#[test]
fn route_channel_prefix_matches_channel_detail() {
    for route in ["/channel/abc-123", "/channel/room-99", "/channel/"] {
        let ctx = screen_context_for_route(route);
        assert!(ctx.contains("Channel Detail"), "expected Channel Detail for '{route}'");
    }
}

#[test]
fn unknown_route_falls_back_to_unknown_context() {
    for route in ["/nonexistent", "/room/extra", "/settings/foo"] {
        let ctx = screen_context_for_route(route);
        assert!(ctx.contains("Unknown"), "expected Unknown fallback for '{route}'");
    }
}

#[test]
fn hash_prefixed_routes_match_same_context_as_bare_path() {
    for path in ["/", "/room", "/setup", "/login", "/settings"] {
        let bare = screen_context_for_route(path);
        let hashed = screen_context_for_route(&format!("#{path}"));
        assert_eq!(bare, hashed, "hash-prefixed '#{path}' should match bare '{path}'");
    }
}

#[test]
fn every_screen_has_its_own_text() {
    let routes = [
        "/", "/setup", "/login", "/recover", "/pair", "/settings", "/devices", "/phrase", "/room",
        "/screen-share", "/share-picker", "/channel/x", "",
    ];
    for (i, a) in routes.iter().enumerate() {
        for b in &routes[i + 1..] {
            assert_ne!(screen_context_for_route(a), screen_context_for_route(b));
        }
    }
    assert_eq!(
        screen_context_for_route("/login"),
        "Screen: Login (existing device). User logs in with existing credentials.\n\
         Common issues: login rejected, token errors, server unreachable.\n\
         Ask about: whether they previously registered, the error message shown, \
         whether they changed servers or reinstalled."
    );
}

// Code fences.

#[test]
fn strip_plain_json_is_unchanged() {
    let raw = r#"{"category":"audio","questions":[],"needsFollowUp":false}"#;
    assert_eq!(strip_markdown_fences(raw), raw);
}

#[test]
fn strip_json_fence_with_lowercase_language_tag() {
    let raw = "```json\n{\"key\":\"value\"}\n```";
    assert_eq!(strip_markdown_fences(raw), r#"{"key":"value"}"#);
}

#[test]
fn strip_json_fence_with_uppercase_language_tag() {
    let raw = "```JSON\n{\"key\":\"value\"}\n```";
    assert_eq!(strip_markdown_fences(raw), r#"{"key":"value"}"#);
}

#[test]
fn strip_fence_without_language_tag() {
    let raw = "```\n{\"key\":\"value\"}\n```";
    assert_eq!(strip_markdown_fences(raw), r#"{"key":"value"}"#);
}

#[test]
fn strip_fence_with_surrounding_whitespace() {
    let raw = "  ```json\n{\"key\":\"value\"}\n```  ";
    assert_eq!(strip_markdown_fences(raw), r#"{"key":"value"}"#);
}

#[test]
fn strip_fence_result_is_valid_json() {
    let raw = "```json\n{\"category\":\"audio\",\"needsFollowUp\":true}\n```";
    let cleaned = strip_markdown_fences(raw);
    let parsed: serde_json::Value =
        serde_json::from_str(cleaned).expect("stripped output must be valid JSON");
    assert_eq!(parsed["category"].as_str(), Some("audio"));
    assert_eq!(parsed["needsFollowUp"].as_bool(), Some(true));
}

#[test]
fn strip_fence_without_trailing_fence_returns_inner_content() {
    let raw = "```json\n{\"key\":\"value\"}";
    let result = strip_markdown_fences(raw);
    assert!(result.contains(r#"{"key":"value"}"#));
}

#[test]
fn strip_bare_backtick_inline_fence_is_handled() {
    let raw = "```{\"key\":\"value\"}```";
    let result = strip_markdown_fences(raw);
    assert_eq!(result, r#"{"key":"value"}"#);
}

#[test]
fn strip_plain_text_with_preamble_is_returned_as_is() {
    let raw = "Here you go:\n```json\n{\"key\":\"value\"}\n```";
    let result = strip_markdown_fences(raw);
    assert!(result.starts_with("Here you go:"));
}

// Prompts.

fn context() -> BugReportContext {
    BugReportContext {
        js_console_logs: (1..=32).map(|i| format!("js {i}")).collect(),
        rust_logs: vec!["rust 1".to_string()],
        ws_messages: Vec::new(),
        app_state: AppStateSnapshot {
            route: "#/login".to_string(),
            ws_status: "open".to_string(),
            voice_room_state: None,
            platform: "linux".to_string(),
        },
    }
}

fn qa(question: &str, answer: &str) -> QaPair {
    QaPair { question: question.to_string(), answer: answer.to_string() }
}

fn lines(from: usize, to: usize) -> String {
    (from..=to).map(|i| format!("js {i}")).collect::<Vec<_>>().join("\n")
}

#[test]
fn analysis_prompt_holds_everything_in_order() {
    let prompt = build_analysis_prompt("No sound", &context(), None);
    let head = format!(
        "You are a bug report assistant for Wavis, a desktop voice chat application.\n\n\
         The user encountered a bug and provided this description:\n\
         \"No sound\"\n\n\
         Here is the captured diagnostic context:\n\
         ## Console Logs (last 32 lines)\n{}\n\n\
         ## Rust Logs (last 1 lines)\nrust 1\n\n\
         ## WebSocket Messages (last 0)\n\n\n\
         ## App State\nRoute: #/login\nWS Status: open\nVoice Room: none\nPlatform: linux\n\n\
         ## Screen Context\n{}\n\n\
         Use the screen context above to guide your follow-up questions. ",
        lines(13, 32),
        screen_context_for_route("/login"),
    );
    assert!(prompt.starts_with(&head), "{prompt}");
    assert!(prompt.contains("\nPlease respond with valid JSON only (no markdown fences). "));
    assert!(prompt.contains(
        "\n{\n  \"category\": \"<one of: audio, ui, connectivity, crash, performance, other>\",\n  \
         \"questions\": [\n    { \"text\": \"<question>\", "
    ));
    assert!(prompt.contains("MUST include an \\\"options\\\" array with 2–4 short choices."));
    assert!(prompt.ends_with("- Keep option labels short (under 8 words each)."));
    assert_eq!(prompt, build_analysis_prompt("No sound", &context(), Some(&[])));
}

#[test]
fn analysis_prompt_ends_with_earlier_answers() {
    let without = build_analysis_prompt("No sound", &context(), None);
    let answers = [qa("Headset?", "Yes"), qa("Since when?", "Today")];
    let with = build_analysis_prompt("No sound", &context(), Some(&answers));
    let tail = "\n\nThe user already answered these follow-up questions:\n\
                Q: Headset?\nA: Yes\n\nQ: Since when?\nA: Today\n\n\
                Based on these answers, provide additional follow-up questions if needed. \
                Set needsFollowUp to false (this is the final round).";
    assert_eq!(with, format!("{without}{tail}"));
}

#[test]
fn issue_prompt_is_exact() {
    let mut c = context();
    c.app_state.voice_room_state = Some("joined".to_string());
    let rounds = [vec![qa("a?", "b"), qa("c?", "d")], vec![qa("e?", "f")]];
    let prompt = build_issue_body_prompt("No sound", &c, &rounds, "audio");
    let expected = format!(
        "You are a bug report formatter for Wavis, a desktop voice chat application.\n\n\
         Generate a structured GitHub issue body. Respond with valid JSON only (no markdown fences):\n\
         {{\n  \"title\": \"<concise bug title>\",\n  \"body\": \"<full markdown issue body>\"\n}}\n\n\
         The issue body must contain these sections:\n\
         1. ## Bug Report header\n\
         2. ### Category — \"audio\"\n\
         3. ### Description — the user's description\n\
         4. ### Follow-Up Answers — the Q&A rounds (if any)\n\
         5. <details><summary>Diagnostics</summary> — collapsible diagnostics section\n\n\
         User description: \"No sound\"\n\
         Category: audio\n\n\
         Follow-up Q&A:\n\
         **Round 1 — Q:** a?\n**A:** b\n\n**Round 1 — Q:** c?\n**A:** d\n\n\
         **Round 2 — Q:** e?\n**A:** f\n\n\
         Diagnostics:\n\
         ### Console Logs\n```\n{}\n```\n\n\
         ### Rust Logs\n```\nrust 1\n```\n\n\
         ### WebSocket Messages\n```\n\n```\n\n\
         ### App State\n- Route: #/login\n- WS Status: open\n- Voice Room: joined\n- Platform: linux",
        lines(3, 32),
    );
    assert_eq!(prompt, expected);
    let none = build_issue_body_prompt("No sound", &c, &[], "audio");
    assert!(none.contains("Follow-up Q&A:\nNone (offline mode)\n\nDiagnostics:\n"));
}

// Replies.

#[test]
fn analysis_keeps_five_questions_with_text() {
    let reply = "```json\n{\"category\":\"audio\",\"questions\":[\
        {\"text\":\"q1\",\"options\":[\"a\",1,\"b\"]},{\"options\":[]},{\"text\":7},\
        {\"text\":\"q2\"},{\"text\":\"q3\",\"options\":\"no\"},{\"text\":\"q4\"},\
        {\"text\":\"q5\"},{\"text\":\"q6\"}],\"needsFollowUp\":true}\n```";
    let a = read_analysis(reply).unwrap();
    assert_eq!(a.category, "audio");
    assert!(a.needs_follow_up);
    let texts: Vec<&str> = a.questions.iter().map(|q| q.text.as_str()).collect();
    assert_eq!(texts, vec!["q1", "q2", "q3", "q4", "q5"]);
    assert_eq!(a.questions[0].options, Some(vec!["a".to_string(), "b".to_string()]));
    assert_eq!(a.questions[1].options, None);
    assert_eq!(a.questions[2].options, None);
}

#[test]
fn analysis_has_defaults() {
    let a = analysis_from(&Json::Object(Vec::new()));
    assert_eq!(a.category, "other");
    assert!(a.questions.is_empty());
    assert!(!a.needs_follow_up);
    assert!(matches!(read_analysis("no json"), Err(LlmError::ParseError)));
    assert_eq!(read_analysis("[1]").unwrap().category, "other");
}

#[test]
fn issue_falls_back_to_the_description() {
    let given = parse("{\"title\":\"T\",\"body\":\"B\"}").unwrap();
    let issue = issue_body_from(&given, "desc");
    assert_eq!((issue.title.as_str(), issue.body.as_str()), ("T", "B"));
    let long = "x".repeat(90);
    let empty = parse("{\"title\":\"\",\"body\":5}").unwrap();
    let issue = issue_body_from(&empty, &long);
    assert_eq!(issue.title, format!("Bug Report: {}", "x".repeat(80)));
    assert_eq!(issue.body, format!("## Bug Report\n\n### Description\n{long}"));
}

#[test]
fn a_description_that_cannot_be_cut_is_reported() {
    let torn = format!("{}é", "x".repeat(79));
    assert!(read_issue_body("{}", &torn).is_none());
    let given = read_issue_body("{\"title\":\"T\"}", &torn).unwrap().unwrap();
    assert_eq!(given.title, "T");
    assert!(matches!(read_issue_body("oops", &torn), Some(Err(LlmError::ParseError))));
    let whole = format!("{}é and more", "x".repeat(78));
    let issue = read_issue_body("{}", &whole).unwrap().unwrap();
    assert_eq!(issue.title, format!("Bug Report: {}é", "x".repeat(78)));
}

#[test]
fn service_replies_are_read() {
    let ok = parse("{\"content\":[{\"text\":\"hello\"},{\"text\":\"other\"}]}").unwrap();
    assert_eq!(content_from(&ok).unwrap(), "hello");
    for bad in ["{}", "{\"content\":[]}", "{\"content\":[{}]}", "{\"content\":\"x\"}"] {
        assert!(matches!(content_from(&parse(bad).unwrap()), Err(LlmError::ParseError)));
    }
    assert_eq!(api_error(529, "busy").message(), "LLM API error: 529: busy");
    let long = "y".repeat(300);
    assert_eq!(
        api_error(500, &long).message(),
        format!("LLM API error: 500: {}", "y".repeat(200))
    );
}

#[test]
fn llm_errors_in_words_and_status() {
    let cases = [
        (LlmError::ParseError, "LLM response parse error", 502, "LLM response invalid"),
        (LlmError::NetworkError, "LLM network error", 502, "LLM service unreachable"),
        (LlmError::NotConfigured, "LLM not configured", 503, "LLM not configured"),
        (LlmError::ApiError("x".to_string()), "LLM API error: x", 502, "LLM analysis failed"),
    ];
    for (e, text, status, error) in cases {
        assert_eq!(e.message(), text);
        let r = map_llm_error(&e);
        assert_eq!((r.status, r.error.as_str()), (status, error));
    }
}

#[test]
fn test_clients_answer_as_told() {
    let mut none = NoOpLlmClient::new();
    assert!(matches!(
        none.analyze_bug_report("d", &context(), None),
        Err(LlmError::NotConfigured)
    ));
    assert!(matches!(
        none.generate_issue_body("d", &context(), &[], "c"),
        Err(LlmError::NotConfigured)
    ));
    let mut mock = MockLlmClient::new();
    let a: LlmAnalysis = mock.analyze_bug_report("first", &context(), None).unwrap();
    assert_eq!(a.category, "other");
    assert_eq!(a.questions[0].text, "What happened?");
    assert_eq!(a.questions[0].options.as_ref().unwrap().len(), 3);
    mock.generate_result = Err(LlmError::NetworkError);
    assert!(mock.generate_issue_body("second", &context(), &[], "ui").is_err());
    assert_eq!(
        *mock.get_calls(),
        vec![
            MockLlmCall::Analyze { description: "first".to_string() },
            MockLlmCall::GenerateBody {
                description: "second".to_string(),
                category: "ui".to_string()
            },
        ]
    );
}

// The client of the service that keeps the issues.

#[test]
fn mock_github_client_records_upload_contents() {
    let mut mock = MockGitHubClient::new();
    let result = mock.upload_contents(
        "owner/repo",
        "bug-reports/test.png",
        "base64data",
        "upload screenshot",
    );
    assert!(result.is_ok());
    let calls = mock.get_calls();
    assert_eq!(calls.len(), 1);
    assert_eq!(
        calls[0],
        MockGitHubCall::UploadContents {
            repo: "owner/repo".to_string(),
            path: "bug-reports/test.png".to_string(),
            content_base64: "base64data".to_string(),
            message: "upload screenshot".to_string(),
        }
    );
}

#[test]
fn mock_github_client_records_create_issue() {
    let mut mock = MockGitHubClient::new();
    let result = mock.create_issue("owner/repo", "Bug: test", "body text", vec!["bug-report"]);
    assert!(result.is_ok());
    let calls = mock.get_calls();
    assert_eq!(calls.len(), 1);
    assert_eq!(
        calls[0],
        MockGitHubCall::CreateIssue {
            repo: "owner/repo".to_string(),
            title: "Bug: test".to_string(),
            body: "body text".to_string(),
            labels: vec!["bug-report".to_string()],
        }
    );
}

#[test]
fn mock_github_client_returns_configured_error_on_upload() {
    let config = MockGitHubConfig {
        upload_contents_result: Err(BugReportError::ScreenshotUploadFailed),
        ..MockGitHubConfig::default()
    };
    let mut mock = MockGitHubClient::with_config(config);
    let result = mock.upload_contents("owner/repo", "path", "data", "msg");
    assert!(result.is_err());
    assert_eq!(mock.get_calls().len(), 1);
}

#[test]
fn mock_github_client_returns_configured_error_on_create_issue() {
    let config = MockGitHubConfig {
        create_issue_result: Err(BugReportError::IssueCreationFailed),
        ..MockGitHubConfig::default()
    };
    let mut mock = MockGitHubClient::with_config(config);
    let result = mock.create_issue("owner/repo", "title", "body", vec!["bug-report"]);
    assert!(result.is_err());
    assert_eq!(mock.get_calls().len(), 1);
}

#[test]
fn bug_report_error_display() {
    assert_eq!(
        BugReportError::InvalidScreenshot.message(),
        "invalid screenshot: not valid PNG"
    );
    assert_eq!(BugReportError::ScreenshotUploadFailed.message(), "screenshot upload failed");
    assert_eq!(BugReportError::IssueCreationFailed.message(), "issue creation failed");
    assert_eq!(BugReportError::PayloadTooLarge.message(), "payload too large");
}

#[test]
fn real_github_client_wraps_sensitive_token() {
    let token = Sensitive("ghp_test_token_123".to_string());
    assert_eq!(token.shown(), "[REDACTED]");
    assert_eq!(token.inner(), "ghp_test_token_123");
}

#[test]
fn github_blob_html_url_is_converted_to_renderable_url() {
    assert_eq!(
        github_blob_html_url_to_renderable_url(
            "https://github.com/test/repo/blob/main/bug-reports/test.png",
        ),
        "https://github.com/test/repo/blob/main/bug-reports/test.png?raw=1"
    );
    assert_eq!(github_blob_html_url_to_renderable_url("u?a=b"), "u?a=b&raw=1");
}

#[test]
fn github_replies_are_read() {
    let j = parse("{\"content\":{\"html_url\":\"https://x/y\"}}").unwrap();
    assert_eq!(read_uploaded_url(&j), Ok("https://x/y?raw=1".to_string()));
    assert_eq!(read_uploaded_url(&Json::Null), Err(BugReportError::ScreenshotUploadFailed));
    let j = parse("{\"html_url\":\"https://x/1\"}").unwrap();
    assert_eq!(read_issue_url(&j), Ok("https://x/1".to_string()));
    assert_eq!(read_issue_url(&Json::Bool(true)), Err(BugReportError::IssueCreationFailed));
}

fn valid_png_bytes() -> Vec<u8> {
    let mut bytes = PNG_MAGIC.to_vec();
    bytes.extend_from_slice(&[0x00; 32]);
    bytes
}

#[test]
fn submit_bug_report_authenticated_with_screenshot() {
    let mut mock = MockGitHubClient::new();
    let identity = Some(AuthenticatedIdentity {
        user_id: Uuid::nil(),
        device_id: uuid_of("aaaaaaaa-bbbb-cccc-dddd-eeeeeeeeeeee"),
    });
    let request = ValidatedBugReport {
        title: "Audio cuts out".to_string(),
        body: "Steps to reproduce...".to_string(),
        category: "audio".to_string(),
        screenshot: Some(valid_png_bytes()),
    };
    let result = bug_report::submit_bug_report(&mut mock, "owner/repo", request, identity);
    assert!(result.is_ok());
    assert_eq!(result.unwrap(), "https://github.com/test/repo/issues/1");
    let calls = mock.get_calls();
    assert_eq!(calls.len(), 2);
    match &calls[0] {
        MockGitHubCall::UploadContents { repo, path, content_base64, message } => {
            assert_eq!(repo, "owner/repo");
            assert!(path.starts_with("bug-reports/"));
            assert!(path.ends_with(".png"));
            assert_eq!(path.len(), "bug-reports/".len() + 36 + 4);
            // The base64 text of the bytes, not the bytes.
            assert!(content_base64.starts_with("iVBORw0KGgoAAAAA"));
            assert_eq!(content_base64.len(), 56);
            assert_eq!(message, "upload bug report screenshot");
        }
        other => panic!("expected UploadContents, got {:?}", other),
    }
    match &calls[1] {
        MockGitHubCall::CreateIssue { body, labels, .. } => {
            assert!(body.contains("![Screenshot]("));
            assert!(body.contains("_Device ID: aaaaaaaa-bbbb-cccc-dddd-eeeeeeeeeeee_"));
            assert_eq!(labels, &vec!["bug-report".to_string()]);
            assert!(!labels.contains(&"anonymous".to_string()));
            assert_eq!(
                body,
                "Steps to reproduce...\n\n![Screenshot](https://github.com/test/repo/blob/main/bug-reports/test.png?raw=1)\n\n\n---\n_Device ID: aaaaaaaa-bbbb-cccc-dddd-eeeeeeeeeeee_"
            );
        }
        other => panic!("expected CreateIssue, got {:?}", other),
    }
}

#[test]
fn submit_bug_report_anonymous_no_screenshot() {
    let mut mock = MockGitHubClient::new();
    let request = ValidatedBugReport {
        title: "UI glitch".to_string(),
        body: "Something is wrong".to_string(),
        category: "ui".to_string(),
        screenshot: None,
    };
    let result = bug_report::submit_bug_report(&mut mock, "owner/repo", request, None);
    assert!(result.is_ok());
    let calls = mock.get_calls();
    assert_eq!(calls.len(), 1);
    match &calls[0] {
        MockGitHubCall::CreateIssue { body, labels, .. } => {
            assert!(!body.contains("![Screenshot]("));
            assert!(!body.contains("_Device ID:"));
            assert!(labels.contains(&"bug-report".to_string()));
            assert!(labels.contains(&"anonymous".to_string()));
        }
        other => panic!("expected CreateIssue, got {:?}", other),
    }
}

#[test]
fn submit_bug_report_invalid_png_magic_bytes() {
    let mut mock = MockGitHubClient::new();
    let request = ValidatedBugReport {
        title: "Bug".to_string(),
        body: "body".to_string(),
        category: "other".to_string(),
        screenshot: Some(vec![0x00, 0x01, 0x02, 0x03, 0x04, 0x05, 0x06, 0x07]),
    };
    let result = bug_report::submit_bug_report(&mut mock, "owner/repo", request, None);
    assert!(matches!(result, Err(BugReportError::InvalidScreenshot)));
    assert_eq!(mock.get_calls().len(), 0);
}

#[test]
fn submit_bug_report_screenshot_too_short() {
    let mut mock = MockGitHubClient::new();
    let request = ValidatedBugReport {
        title: "Bug".to_string(),
        body: "body".to_string(),
        category: "other".to_string(),
        screenshot: Some(vec![0x89, 0x50, 0x4E]),
    };
    let result = bug_report::submit_bug_report(&mut mock, "owner/repo", request, None);
    assert!(matches!(result, Err(BugReportError::InvalidScreenshot)));
    assert_eq!(mock.get_calls().len(), 0);
}

#[test]
fn submit_bug_report_upload_failure_propagates() {
    let config = MockGitHubConfig {
        upload_contents_result: Err(BugReportError::ScreenshotUploadFailed),
        ..MockGitHubConfig::default()
    };
    let mut mock = MockGitHubClient::with_config(config);
    let request = ValidatedBugReport {
        title: "Bug".to_string(),
        body: "body".to_string(),
        category: "other".to_string(),
        screenshot: Some(valid_png_bytes()),
    };
    let result = bug_report::submit_bug_report(&mut mock, "owner/repo", request, None);
    assert!(matches!(result, Err(BugReportError::ScreenshotUploadFailed)));
    let calls = mock.get_calls();
    assert_eq!(calls.len(), 1);
    assert!(matches!(calls[0], MockGitHubCall::UploadContents { .. }));
}

#[test]
fn submit_bug_report_issue_creation_failure_propagates() {
    let config = MockGitHubConfig {
        create_issue_result: Err(BugReportError::IssueCreationFailed),
        ..MockGitHubConfig::default()
    };
    let mut mock = MockGitHubClient::with_config(config);
    let request = ValidatedBugReport {
        title: "Bug".to_string(),
        body: "body".to_string(),
        category: "other".to_string(),
        screenshot: None,
    };
    let result = bug_report::submit_bug_report(&mut mock, "owner/repo", request, None);
    assert!(matches!(result, Err(BugReportError::IssueCreationFailed)));
    let calls = mock.get_calls();
    assert_eq!(calls.len(), 1);
    assert!(matches!(calls[0], MockGitHubCall::CreateIssue { .. }));
}

// Requests.

fn report(title: &str, body: &str, category: &str, screenshot: Option<&str>) -> BugReportRequest {
    BugReportRequest {
        title: title.to_string(),
        body: body.to_string(),
        category: category.to_string(),
        screenshot: screenshot.map(|s| s.to_string()),
    }
}

fn limiter() -> BugReportRateLimiter {
    BugReportRateLimiter::new(BugReportRateLimiterConfig::default())
}

#[test]
fn fields_are_measured_in_bytes() {
    let max = "é".repeat(MAX_TITLE_LEN / 2);
    assert_eq!(validate_bug_report_fields(&report(&max, "b", "c", None)), None);
    let over = format!("{max}x");
    assert_eq!(validate_bug_report_fields(&report(&over, "b", "c", None)), Some("title too long"));
    let category = "c".repeat(MAX_CATEGORY_LEN + 1);
    assert_eq!(
        validate_bug_report_fields(&report("t", "b", &category, None)),
        Some("category too long")
    );
    let body = "b".repeat(MAX_BODY_LEN + 1);
    assert_eq!(validate_bug_report_fields(&report("t", &body, "c", None)), Some("body too long"));
    assert_eq!(
        validate_bug_report_fields(&report(&over, &body, &category, None)),
        Some("title too long")
    );
}

#[test]
fn size_counts_three_quarters_of_the_screenshot() {
    let b64 = "A".repeat((MAX_DECODED_PAYLOAD_SIZE - 3) / 3 * 4);
    assert!(!payload_too_large(&report("t", "b", "c", Some(&b64))));
    let b64 = "A".repeat(MAX_DECODED_PAYLOAD_SIZE / 3 * 4 + 4);
    assert!(payload_too_large(&report("t", "b", "c", Some(&b64))));
    assert!(payload_too_large(&report("t", &"b".repeat(MAX_DECODED_PAYLOAD_SIZE), "c", None)));
    assert!(!payload_too_large(&report("", &"b".repeat(MAX_DECODED_PAYLOAD_SIZE), "", None)));
}

#[test]
fn a_report_is_submitted_and_counted() {
    let mut limits = limiter();
    let mut github = MockGitHubClient::new();
    let user = AuthenticatedUser { user_id: Uuid::from_u128(1), device_id: Uuid::from_u128(2) };
    // The base64 text of a PNG header and four zero bytes.
    let png = "iVBORw0KGgoAAAAA";
    let payload = report("t", "b", "c", Some(png));
    let (status, body) = routes::submit_bug_report(
        &mut limits,
        &mut github,
        "owner/repo",
        ip(1),
        Some(user),
        payload,
        start(),
    )
    .unwrap();
    assert_eq!(status, 201);
    assert_eq!(body.issue_url, "https://github.com/test/repo/issues/1");
    match &github.get_calls()[0] {
        MockGitHubCall::UploadContents { content_base64, .. } => assert_eq!(content_base64, png),
        other => panic!("expected UploadContents, got {:?}", other),
    }
    for _ in 0..4 {
        assert!(limits.check_ip(ip(1), start()));
        assert!(limits.check_user(user.user_id, start()));
        limits.record_ip(ip(1), start());
        limits.record_user(user.user_id, start());
    }
    assert!(!limits.check_ip(ip(1), start()));
    assert!(!limits.check_user(user.user_id, start()));
}

#[test]
fn screenshots_are_stored_by_id() {
    let id = uuid_of("12345678-9abc-4def-8123-456789abcdef");
    assert_eq!(
        screenshot_path_for(&id),
        "bug-reports/12345678-9abc-4def-8123-456789abcdef.png"
    );
}

#[test]
fn a_report_is_admitted_sent_and_recorded() {
    let mut limits = limiter();
    let mut github = MockGitHubClient::new();
    let user = AuthenticatedUser { user_id: Uuid::from_u128(1), device_id: Uuid::from_u128(2) };
    let payload = report("t", "b", "c", Some("iVBORw0KGgoAAAAA"));
    let request =
        routes::admit_report(&mut limits, ip(1), Some(user), payload, start()).unwrap();
    assert_eq!((request.title.as_str(), request.category.as_str()), ("t", "c"));
    let png = request.screenshot.as_ref().unwrap();
    assert_eq!(png[..8], PNG_MAGIC[..8]);
    assert_eq!(png[8..], [0, 0, 0, 0]);
    let (status, _) =
        routes::send_report(&mut github, "owner/repo", Some(user), request).unwrap();
    assert_eq!(status, 201);
    assert_eq!(github.get_calls().len(), 2);
    for _ in 0..5 {
        assert!(limits.check_ip(ip(1), start()));
        routes::record_report(&mut limits, ip(1), Some(user), start());
    }
    assert!(!limits.check_ip(ip(1), start()));
    assert!(!limits.check_user(user.user_id, start()));
    assert!(limits.check_ip(ip(2), start()));
    let late = report("t", "b", "c", None);
    let e = routes::admit_report(&mut limits, ip(1), None, late, start()).unwrap_err();
    assert_eq!(e.status, 429);
    let e = routes::admit_analysis(&mut limits, ip(1), "a long enough text", start()).unwrap_err();
    assert_eq!(e.status, 429);
    assert!(routes::admit_analysis(&mut limits, ip(2), "a long enough text", start()).is_ok());
    let e = routes::admit_generation(&mut limits, ip(2), "too short", start()).unwrap_err();
    assert_eq!((e.status, e.error.as_str()), (400, "invalid description length"));
}

#[test]
fn reports_are_refused_in_order() {
    let mut github = MockGitHubClient::new();
    let user = AuthenticatedUser { user_id: Uuid::from_u128(1), device_id: Uuid::from_u128(2) };
    let mut by_ip = limiter();
    let mut by_user = limiter();
    for _ in 0..5 {
        by_ip.record_ip(ip(1), start());
        by_user.record_user(user.user_id, start());
    }
    let long = "t".repeat(MAX_TITLE_LEN + 1);
    let huge = "b".repeat(MAX_DECODED_PAYLOAD_SIZE + 1);
    let cases = [
        (&mut by_ip, report(&long, &huge, "c", Some("?")), 429, "rate limit exceeded, retry after 3600s"),
        (&mut by_user, report(&long, &huge, "c", Some("?")), 429, "rate limit exceeded, retry after 3600s"),
        (&mut limiter(), report(&long, &huge, "c", Some("?")), 413, "payload too large"),
        (&mut limiter(), report(&long, "b", "c", Some("?")), 400, "title too long"),
        (&mut limiter(), report("t", "b", "c", Some("?")), 400, "invalid screenshot encoding"),
        (&mut limiter(), report("t", "b", "c", Some("AAAA")), 400, "invalid screenshot"),
    ];
    for (limits, payload, status, error) in cases {
        let r = routes::submit_bug_report(
            limits,
            &mut github,
            "owner/repo",
            ip(1),
            Some(user),
            payload,
            start(),
        )
        .unwrap_err();
        assert_eq!((r.status, r.error.as_str()), (status, error));
    }
    assert!(github.get_calls().is_empty());
}

#[test]
fn report_errors_have_their_status() {
    let cases = [
        (BugReportError::InvalidScreenshot, 400, "invalid screenshot"),
        (BugReportError::ScreenshotUploadFailed, 502, "screenshot upload failed"),
        (BugReportError::IssueCreationFailed, 502, "issue creation failed"),
        (BugReportError::PayloadTooLarge, 413, "payload too large"),
    ];
    for (e, status, error) in cases {
        let r = map_bug_report_error(&e);
        assert_eq!((r.status, r.error.as_str()), (status, error));
    }
}

fn analyze_request(description: &str) -> AnalyzeRequest {
    AnalyzeRequest {
        description: description.to_string(),
        context: context(),
        previous_answers: Some(vec![qa("a", "b")]),
    }
}

#[test]
fn descriptions_are_bounded() {
    let mut llm = MockLlmClient::new();
    let r = routes::analyze_bug_report(&mut limiter(), &mut llm, ip(1), analyze_request("too short"), start());
    let e = r.unwrap_err();
    assert_eq!((e.status, e.error.as_str()), (400, "description too short"));
    let long = "x".repeat(MAX_BODY_LEN + 1);
    let r = routes::analyze_bug_report(&mut limiter(), &mut llm, ip(1), analyze_request(&long), start());
    assert_eq!(r.unwrap_err().error, "description too long");
    for bad in ["too short", long.as_str()] {
        let request = GenerateBodyRequest {
            description: bad.to_string(),
            context: context(),
            qa_rounds: Vec::new(),
            category: "ui".to_string(),
        };
        let r = routes::generate_bug_report_body(&mut limiter(), &mut llm, ip(1), request, start());
        let e = r.unwrap_err();
        assert_eq!((e.status, e.error.as_str()), (400, "invalid description length"));
    }
    assert!(llm.get_calls().is_empty());
    let r = routes::analyze_bug_report(&mut limiter(), &mut llm, ip(1), analyze_request("long enough"), start());
    assert_eq!(r.unwrap().category, "other");
    let request = GenerateBodyRequest {
        description: "long enough".to_string(),
        context: context(),
        qa_rounds: Vec::new(),
        category: "ui".to_string(),
    };
    let r = routes::generate_bug_report_body(&mut limiter(), &mut llm, ip(1), request, start());
    assert_eq!(r.unwrap().title, "Bug Report: test");
    let mut limits = limiter();
    for _ in 0..5 {
        limits.record_ip(ip(1), start());
    }
    let r = routes::analyze_bug_report(&mut limits, &mut llm, ip(1), analyze_request("long enough"), start());
    assert_eq!(r.unwrap_err().status, 429);
}

#[test]
fn no_header_is_anonymous_and_a_bad_one_is_refused() {
    let secret = b"test-auth-secret-at-least-32-bytes!!";
    assert!(try_extract_auth(None, secret, None).is_none());
    for bad in ["", "Bearer", "Basic abc", "Bearer not-a-token"] {
        match try_extract_auth(Some(bad), secret, None) {
            Some(Authentication::Done(Err(e))) => {
                assert_eq!((e.status, e.error.as_str()), (401, "authentication failed"))
            }
            other => panic!("expected a refusal, got {:?}", other),
        }
    }
    let (user, device) = (Uuid::from_u128(1), Uuid::from_u128(2));
    let token = sign_access_token(&user, &device, secret, 900, 4).unwrap();
    match try_extract_auth(Some(&format!("Bearer {token}")), secret, None) {
        Some(Authentication::ReadDevice { user: found, epoch }) => {
            assert_eq!((found.user_id, found.device_id, epoch), (user, device, 4))
        }
        other => panic!("expected to go on, got {:?}", other),
    }
}

// Operators.

#[test]
fn operators_need_the_token() {
    let e = require_admin(Some("Bearer t"), None).unwrap_err();
    assert_eq!((e.status, e.error.as_str()), (503, "admin endpoints not configured"));
    assert!(require_admin(Some("Bearer t"), Some("t")).is_ok());
    for header in [None, Some("t"), Some("Bearer "), Some("Bearer tt")] {
        let e = require_admin(header, Some("t")).unwrap_err();
        assert_eq!((e.status, e.error.as_str()), (401, "unauthorized"));
    }
}

#[test]
fn counts_are_ranked_and_ties_keep_their_order() {
    assert_eq!(rank(&vec![1, 5, 3, 5, 1]), vec![1, 3, 2, 0, 4]);
    let ips: Vec<(String, usize)> =
        vec![("a".to_string(), 1), ("b".to_string(), 5), ("c".to_string(), 5)];
    let users = vec![(Uuid::from_u128(1), 4), (Uuid::from_u128(2), 6)];
    let banned = vec![BannedUserEntry {
        user_id: Uuid::from_u128(9),
        banned_at: UtcTime::new(0, 0).unwrap(),
        reason: "spam".to_string(),
    }];
    let stats = get_bug_report_stats(&ips, &users, 5, Some(banned)).unwrap();
    let shown: Vec<(&str, usize, bool)> =
        stats.active_ip_counts.iter().map(|c| (c.ip.as_str(), c.count, c.at_limit)).collect();
    assert_eq!(shown, vec![("b", 5, true), ("c", 5, true), ("a", 1, false)]);
    assert_eq!(stats.active_user_counts[0].user_id, Uuid::from_u128(2));
    assert!(!stats.active_user_counts[1].at_limit);
    assert_eq!(stats.banned_users.len(), 1);
    let e = get_bug_report_stats(&ips, &users, 5, None).unwrap_err();
    assert_eq!((e.status, e.error.as_str()), (500, "database error"));
}

#[test]
fn bans_are_answered() {
    assert_eq!(ban_reason(BanRequest { reason: None }), "");
    assert_eq!(ban_reason(BanRequest { reason: Some("spam".to_string()) }), "spam");
    let user = Uuid::from_u128(7);
    assert!(ban_user(user, true).unwrap().banned);
    assert!(!unban_user(user, true).unwrap().banned);
    assert_eq!(ban_user(user, false).unwrap_err().error, "database error");
    assert_eq!(unban_user(user, false).unwrap_err().status, 500);
}

// Test harnesses.

#[test]
fn valid_bearer_token_returns_200() {
    let token = "valid-token-test1";
    let header = format!("Bearer {token}");
    let snapshot = AbuseMetrics::new().snapshot();
    assert!(test_metrics_handler(Some(&header), token, Vec::new(), snapshot, false).is_ok());
}

#[test]
fn missing_authorization_header_returns_401() {
    let snapshot = AbuseMetrics::new().snapshot();
    let r = test_metrics_handler(None, "missing-header-test2", Vec::new(), snapshot, false);
    assert_eq!(r.unwrap_err(), 401);
}

#[test]
fn wrong_bearer_token_returns_401() {
    let snapshot = AbuseMetrics::new().snapshot();
    let r = test_metrics_handler(
        Some("Bearer wrong-token-test3"),
        "correct-token-test3",
        Vec::new(),
        snapshot,
        false,
    );
    assert_eq!(r.unwrap_err(), 401);
}

#[test]
fn response_contains_room_state_and_abuse_metrics() {
    let token = "fields-token-test4";
    let rooms = vec![RoomReport {
        room_id: "room-a".to_string(),
        peers: vec!["peer-1".to_string(), "peer-2".to_string()],
        info: Some(("Sfu".to_string(), vec!["peer-1".to_string()])),
    }];
    let mut metrics = AbuseMetrics::new();
    metrics.increment(AbuseCounter::JoinInviteRejections);
    let header = format!("Bearer {token}");
    let m = test_metrics_handler(Some(&header), token, rooms, metrics.snapshot(), true).unwrap();
    assert_eq!(m.total_rooms, 1);
    assert_eq!(m.total_participants, 2);
    assert_eq!(m.rooms[0].0, "room-a");
    assert_eq!(m.rooms[0].1.participant_count, 2);
    assert_eq!(m.rooms[0].1.room_type, "Sfu");
    assert_eq!(m.rooms[0].1.active_shares, vec!["peer-1".to_string()]);
    assert_eq!(m.abuse_metrics.join_invite_rejections, 1);
    assert!(m.sfu_available);
}

#[test]
fn no_token_returns_401_loopback_enforcement_is_at_listener_level() {
    let snapshot = AbuseMetrics::new().snapshot();
    let r = test_metrics_handler(None, "loopback-token-test5", Vec::new(), snapshot, false);
    assert_eq!(r.unwrap_err(), 401);
}

#[test]
fn limits_are_reset_with_the_token_only() {
    let mut auth = AuthRateLimiter::new(AuthRateLimiterConfig::default());
    let mut channel = ChannelRateLimiter::new(ChannelRateLimiterConfig::default());
    let mut recovery = RecoveryRateLimiter::new(RecoveryRateLimiterConfig::default());
    for _ in 0..5 {
        auth.record_register(ip(1), start());
        recovery.record_ip(ip(1), start());
    }
    let r = reset_rate_limits_handler(Some("Bearer x"), "t", &mut auth, &mut channel, &mut recovery);
    assert_eq!(r, Err(401));
    assert!(!auth.check_register(ip(1), start()));
    let r = reset_rate_limits_handler(Some("Bearer t"), "t", &mut auth, &mut channel, &mut recovery);
    assert_eq!(r, Ok(204));
    assert!(auth.check_register(ip(1), start()));
    assert!(recovery.check_ip(ip(1), start()));
}
