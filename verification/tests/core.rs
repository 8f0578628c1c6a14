use lumen::command::{plan_entity, plan_request, prepare_conversation, prompt_kind_of, CommandIntent,
    EntityRequest};
use lumen::conversation::{Conversation, Message, Role};
use lumen::error::LumenError;
use lumen::git_entity::GitEntity;
use lumen::json::{decode_json_string_at, json_escape};
use lumen::prompt::{build_conversation, PromptKind};
use lumen::provider::{build_request, check_status, default_model, endpoint, ProviderConfig,
    ProviderVariant};
use lumen::text::{contains, find_sub, has_prefix, str_eq};

fn key() -> Option<String> {
    Some(String::from("test-api-key"))
}

fn two_message_conv(system: &str, user: &str) -> Conversation {
    let mut c = Conversation::new();
    c.push(Message::new(Role::System, String::from(system)));
    c.push(Message::new(Role::User, String::from(user)));
    c
}

#[test]
fn find_sub_returns_first_occurrence() {
    assert_eq!(find_sub("abcabc", "bc"), Some(1));
    assert_eq!(find_sub("abcabc", "cab"), Some(2));
    assert_eq!(find_sub("abc", "d"), None);
    assert_eq!(find_sub("abc", ""), Some(0));
    assert!(contains("hello world", "lo wo"));
    assert!(!contains("hello", "world"));
    assert!(has_prefix("data: x", "data: "));
    assert!(!has_prefix("dat", "data: "));
    assert!(str_eq("same", "same"));
    assert!(!str_eq("same", "sane"));
}

#[test]
fn json_escape_handles_specials() {
    assert_eq!(json_escape("plain"), "plain");
    assert_eq!(json_escape("a\"b\\c\nd\te\r"), "a\\\"b\\\\c\\nd\\te\\r");
    assert_eq!(json_escape("\u{1}"), "\\u0001");
    assert_eq!(json_escape("\u{1f}"), "\\u001f");
    assert_eq!(json_escape(""), "");
}

#[test]
fn json_decode_reads_string_literal() {
    assert_eq!(decode_json_string_at("abc\" tail", 0), Some(String::from("abc")));
    assert_eq!(decode_json_string_at("a\\nb\"", 0), Some(String::from("a\nb")));
    assert_eq!(decode_json_string_at("\\u0041\"", 0), Some(String::from("A")));
    assert_eq!(decode_json_string_at("x\\\"y\"", 0), Some(String::from("x\"y")));
    assert_eq!(decode_json_string_at("no closing quote", 0), None);
    assert_eq!(decode_json_string_at("bad \\q escape\"", 0), None);
}

#[test]
fn json_escape_then_decode_is_identity() {
    for text in ["", "hello", "a\"b\\c\nd\te", "tab\tnew\nline\u{2}"] {
        let mut lit = json_escape(text);
        lit.push('"');
        assert_eq!(decode_json_string_at(&lit, 0), Some(String::from(text)));
    }
}

#[test]
fn config_requires_key_for_hosted_backends() {
    assert!(matches!(
        ProviderConfig::new(ProviderVariant::Claude, None, None),
        Err(LumenError::ProviderConfigError(_))
    ));
    assert!(matches!(
        ProviderConfig::new(ProviderVariant::Openai, None, None),
        Err(LumenError::ProviderConfigError(_))
    ));
    assert!(matches!(
        ProviderConfig::new(ProviderVariant::Groq, None, None),
        Err(LumenError::ProviderConfigError(_))
    ));
    let ollama = ProviderConfig::new(ProviderVariant::Ollama, None, None).unwrap();
    assert!(matches!(ollama.variant, ProviderVariant::Ollama));
    let phind = ProviderConfig::new(ProviderVariant::Phind, None, None).unwrap();
    assert!(matches!(phind.variant, ProviderVariant::Phind));
    let claude = ProviderConfig::new(ProviderVariant::Claude, key(), None).unwrap();
    assert!(claude.api_key.is_some());
}

#[test]
fn endpoints_and_default_models_are_fixed() {
    assert_eq!(endpoint(ProviderVariant::Openai), "https://api.openai.com/v1/chat/completions");
    assert_eq!(endpoint(ProviderVariant::Ollama), "http://localhost:11434/api/chat");
    assert_eq!(default_model(ProviderVariant::Openai), "gpt-4o-mini");
    assert_eq!(default_model(ProviderVariant::Phind), "Phind-70B");
}

#[test]
fn build_request_openai_schema() {
    let config = ProviderConfig::new(ProviderVariant::Openai, key(), None).unwrap();
    let conv = two_message_conv("sys", "usr \"quoted\"\nline");
    let req = build_request(&conv, &config);
    assert_eq!(req.url, "https://api.openai.com/v1/chat/completions");
    let (name, value) = req.auth.clone().unwrap();
    assert_eq!(name, "Authorization");
    assert_eq!(value, "Bearer test-api-key");
    let v: serde_json::Value = serde_json::from_str(&req.body).unwrap();
    assert_eq!(v["model"], "gpt-4o-mini");
    assert_eq!(v["stream"], true);
    let msgs = v["messages"].as_array().unwrap();
    assert_eq!(msgs.len(), 2);
    assert_eq!(msgs[0]["role"], "system");
    assert_eq!(msgs[0]["content"], "sys");
    assert_eq!(msgs[1]["role"], "user");
    assert_eq!(msgs[1]["content"], "usr \"quoted\"\nline");
}

#[test]
fn build_request_every_variant_is_valid_json_preserving_order() {
    let variants = [
        ProviderVariant::Openai,
        ProviderVariant::Phind,
        ProviderVariant::Groq,
        ProviderVariant::Claude,
        ProviderVariant::Ollama,
    ];
    for v in variants {
        let config = ProviderConfig::new(v, key(), Some(String::from("my-model"))).unwrap();
        let conv = two_message_conv("first message", "second message");
        let req = build_request(&conv, &config);
        let body: serde_json::Value = serde_json::from_str(&req.body).unwrap();
        assert_eq!(body["model"], "my-model");
        assert_eq!(body["stream"], true);
        if matches!(v, ProviderVariant::Phind) {
            assert_eq!(body["prompt"], "first message\n\nsecond message");
        } else {
            let msgs = body["messages"].as_array().unwrap();
            assert_eq!(msgs.len(), 2);
            assert_eq!(msgs[0]["content"], "first message");
            assert_eq!(msgs[1]["content"], "second message");
        }
    }
}

#[test]
fn build_request_auth_conventions() {
    let claude = ProviderConfig::new(ProviderVariant::Claude, key(), None).unwrap();
    let req = build_request(&two_message_conv("s", "u"), &claude);
    let (name, value) = req.auth.clone().unwrap();
    assert_eq!(name, "x-api-key");
    assert_eq!(value, "test-api-key");
    let ollama = ProviderConfig::new(ProviderVariant::Ollama, None, None).unwrap();
    let req = build_request(&two_message_conv("s", "u"), &ollama);
    assert!(req.auth.is_none());
}

#[test]
fn build_request_bodies_match_exactly() {
    let openai = ProviderConfig::new(
        ProviderVariant::Openai,
        key(),
        Some(String::from("m")),
    )
    .unwrap();
    let req = build_request(&two_message_conv("sys", "usr"), &openai);
    assert_eq!(
        req.body,
        "{\"model\":\"m\",\"messages\":[{\"role\":\"system\",\"content\":\"sys\"},{\"role\":\"user\",\"content\":\"usr\"}],\"stream\":true}"
    );
    let phind = ProviderConfig::new(ProviderVariant::Phind, None, Some(String::from("m")))
        .unwrap();
    let req = build_request(&two_message_conv("sys", "usr"), &phind);
    assert_eq!(req.body, "{\"model\":\"m\",\"prompt\":\"sys\\n\\nusr\",\"stream\":true}");
}

#[test]
fn draft_conversation_appends_context() {
    let entity = GitEntity::Diff { staged: true, patch: String::from("+p") };
    let kind = PromptKind::Draft { context: Some(String::from("refactor only")) };
    let conv = build_conversation(&entity, &kind);
    assert!(conv.messages[0].text.contains("commit message"));
    assert!(conv.messages[1].text.ends_with("\n\nContext: refactor only"));
}

#[test]
fn explain_rejects_both_hash_and_diff() {
    let intent = CommandIntent::Explain {
        sha: Some(String::from("abc123")),
        diff: true,
        staged: false,
        query: None,
    };
    assert!(matches!(plan_entity(&intent), Err(LumenError::InvalidArguments(_))));
}

#[test]
fn explain_rejects_neither_hash_nor_diff() {
    let intent = CommandIntent::Explain { sha: None, diff: false, staged: false, query: None };
    assert!(matches!(plan_entity(&intent), Err(LumenError::InvalidArguments(_))));
}

#[test]
fn plan_entity_routes_each_command() {
    let explain = CommandIntent::Explain {
        sha: Some(String::from("abc123")),
        diff: false,
        staged: false,
        query: None,
    };
    match plan_entity(&explain).unwrap() {
        EntityRequest::Commit { sha } => assert_eq!(sha, "abc123"),
        other => panic!("unexpected plan: {other:?}"),
    }
    let diff = CommandIntent::Explain { sha: None, diff: true, staged: true, query: None };
    assert!(matches!(plan_entity(&diff), Ok(EntityRequest::WorkingDiff { staged: true })));
    assert!(matches!(plan_entity(&CommandIntent::List), Ok(EntityRequest::PickCommit)));
    let draft = CommandIntent::Draft { context: None };
    assert!(matches!(plan_entity(&draft), Ok(EntityRequest::WorkingDiff { staged: true })));
}

#[test]
fn draft_with_empty_staged_diff_fails_before_any_request() {
    let entity = GitEntity::Diff { staged: true, patch: String::new() };
    let kind = PromptKind::Draft { context: None };
    assert!(matches!(
        prepare_conversation(&entity, &kind),
        Err(LumenError::InvalidArguments(_))
    ));
    let config = ProviderConfig::new(ProviderVariant::Ollama, None, None).unwrap();
    assert!(matches!(
        plan_request(&entity, &kind, &config),
        Err(LumenError::InvalidArguments(_))
    ));
}

#[test]
fn draft_conversation_embeds_patch_verbatim() {
    let entity = GitEntity::Diff { staged: true, patch: String::from("+foo\n-bar") };
    let kind = prompt_kind_of(&CommandIntent::Draft { context: None });
    let conv = prepare_conversation(&entity, &kind).unwrap();
    assert_eq!(conv.messages.len(), 2);
    assert!(matches!(conv.messages[0].role, Role::System));
    assert!(matches!(conv.messages[1].role, Role::User));
    assert!(conv.messages[1].text.contains("+foo\n-bar"));
}

#[test]
fn explain_conversation_appends_question() {
    let entity = GitEntity::Commit {
        hash: String::from("deadbeef"),
        author: String::from("Sam"),
        message: String::from("fix parser"),
        patch: String::from("+x\n-y"),
    };
    let kind = PromptKind::Explain { query: Some(String::from("why this change?")) };
    let conv = build_conversation(&entity, &kind);
    assert_eq!(conv.messages.len(), 2);
    let user = &conv.messages[1].text;
    assert!(user.contains("deadbeef"));
    assert!(user.contains("+x\n-y"));
    assert!(user.ends_with("\n\nQuestion: why this change?"));
}

#[test]
fn list_reuses_explain_template() {
    let kind = prompt_kind_of(&CommandIntent::List);
    assert!(matches!(kind, PromptKind::Explain { query: None }));
}

#[test]
fn non_success_status_becomes_protocol_error() {
    assert!(check_status(200, "").is_ok());
    assert!(check_status(299, "").is_ok());
    match check_status(429, "rate limited") {
        Err(LumenError::ProviderProtocolError { status, message }) => {
            assert_eq!(status, Some(429));
            assert_eq!(message, "rate limited");
        },
        other => panic!("unexpected result: {other:?}"),
    }
    assert!(check_status(500, "boom").is_err());
}

#[test]
fn errors_describe_themselves_in_one_line() {
    let e = LumenError::NetworkError(String::from("connection refused"));
    assert_eq!(e.describe(), "network: connection refused");
    let e = LumenError::GitEntityError(String::from("unknown revision"));
    assert_eq!(e.describe(), "git: unknown revision");
}
