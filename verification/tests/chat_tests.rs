use codewarp::model::{ChatMessage, LlmProvider, PendingToolCall};
use codewarp::paths::Platform;
use codewarp::selection::StoredCredentials;
use codewarp::state::App;

fn no_credentials() -> StoredCredentials {
    StoredCredentials {
        api_key: Err("OpenRouter API 키가 없습니다".to_string()),
        tabby_base_url: None,
        tabby_token: None,
    }
}

fn user_message(text: &str) -> ChatMessage {
    ChatMessage::text("user", text.to_string())
}

#[test]
fn update_chat_abort_stream_handles_missing_assistant_block() {
    let mut app = App::new(Platform::Windows);
    app.conversation.clear();
    app.blocks.clear();
    app.streaming_block_id = Some(999);
    app.tool_round = 1;
    app.pending_tool_calls = vec![PendingToolCall {
        id: "tc-3".into(),
        name: "grep".into(),
        arguments: "{}".into(),
    }];

    app.abort_active_chat_stream(true);

    assert!(app.streaming_block_id.is_none());
    assert!(app.pending_tool_calls.is_empty());
    assert_eq!(app.tool_round, 0);
    assert!(app.conversation.is_empty());
}

#[test]
fn update_chat_stream_helpers_abort_stream_handles_missing_assistant_block() {
    let mut app = App::new(Platform::Windows);
    app.conversation.clear();
    app.blocks.clear();
    app.streaming_block_id = Some(999);
    app.tool_round = 1;
    app.pending_tool_calls = vec![PendingToolCall {
        id: "tc-3".into(),
        name: "grep".into(),
        arguments: "{}".into(),
    }];

    app.abort_active_chat_stream(true);

    assert!(app.streaming_block_id.is_none());
    assert!(app.pending_tool_calls.is_empty());
    assert_eq!(app.tool_round, 0);
    assert!(app.conversation.is_empty());
}

#[test]
fn update_chat_compare_mode_send_requires_registered_providers() {
    let mut app = App::new(Platform::Windows);
    app.compare_both = true;
    app.input = "compare this".into();
    app.selected_model = None;
    app.model_options.clear();
    let before_blocks = app.blocks.len();

    let _ = app.send_message(&no_credentials());

    assert!(
        app.status.contains("Compare 모드: OpenRouter 모델"),
        "got: {}",
        app.status
    );
    assert_eq!(app.blocks.len(), before_blocks);
}

#[test]
fn update_chat_compare_compare_mode_send_requires_registered_providers() {
    let mut app = App::new(Platform::Windows);
    app.compare_both = true;
    app.input = "compare this".into();
    app.selected_model = None;
    app.model_options.clear();
    let before_blocks = app.blocks.len();

    let _ = app.send_message(&no_credentials());

    assert!(
        app.status.contains("Compare 모드: OpenRouter 모델"),
        "got: {}",
        app.status
    );
    assert_eq!(app.blocks.len(), before_blocks);
}

#[test]
fn tests_compare_mode_send_requires_registered_providers() {
    let mut app = App::new(Platform::Windows);
    app.compare_both = true;
    app.input = "compare this".into();
    app.selected_model = None;
    app.model_options.clear();
    let before_blocks = app.blocks.len();

    let _ = app.send_message(&no_credentials());

    assert!(
        app.status.contains("Compare 모드: OpenRouter 모델"),
        "got: {}",
        app.status
    );
    assert_eq!(app.blocks.len(), before_blocks);
}

#[test]
fn update_chat_send_message_returns_early_when_streaming() {
    let mut app = App::new(Platform::Windows);
    app.conversation.clear();
    app.blocks.clear();
    app.streaming_block_id = Some(42);
    app.input = "hello".into();
    let before = app.conversation.len();

    let _ = app.send_message(&no_credentials());

    assert_eq!(
        app.conversation.len(),
        before,
        "should not send while streaming"
    );
    assert_eq!(app.streaming_block_id, Some(42));
}

#[test]
fn tests_send_message_returns_early_when_streaming() {
    let mut app = App::new(Platform::Windows);
    app.conversation.clear();
    app.blocks.clear();
    app.streaming_block_id = Some(42);
    app.input = "hello".into();
    let before = app.conversation.len();

    let _ = app.send_message(&no_credentials());

    assert_eq!(
        app.conversation.len(),
        before,
        "should not send while streaming"
    );
    assert_eq!(app.streaming_block_id, Some(42));
}

#[test]
fn update_chat_send_message_returns_early_when_input_empty() {
    let mut app = App::new(Platform::Windows);
    app.input.clear();
    let before_status = app.status.clone();

    let _ = app.send_message(&no_credentials());

    assert_eq!(app.status, before_status);
    assert!(
        app.status.is_empty() || app.status == "준비됨" || app.status.starts_with("[복구됨]"),
        "unexpected status: {}",
        app.status
    );
}

#[test]
fn tests_send_message_returns_early_when_input_empty() {
    let mut app = App::new(Platform::Windows);
    app.input.clear();
    let before_status = app.status.clone();

    let _ = app.send_message(&no_credentials());

    assert_eq!(app.status, before_status);
    assert!(
        app.status.is_empty() || app.status == "준비됨" || app.status.starts_with("[복구됨]"),
        "unexpected status: {}",
        app.status
    );
}

#[test]
fn update_chat_regenerate_last_returns_early_when_streaming() {
    let mut app = App::new(Platform::Windows);
    app.conversation.push(user_message("hello"));
    app.streaming_block_id = Some(42);
    let before = app.conversation.len();

    let _ = app.regenerate_last(&no_credentials());

    assert_eq!(app.conversation.len(), before);
}

#[test]
fn tests_regenerate_last_returns_early_when_streaming() {
    let mut app = App::new(Platform::Windows);
    app.conversation.push(user_message("hello"));
    app.streaming_block_id = Some(42);
    let before = app.conversation.len();

    let _ = app.regenerate_last(&no_credentials());

    assert_eq!(app.conversation.len(), before);
}

#[test]
fn update_chat_regenerate_last_returns_early_when_no_user_message() {
    let mut app = App::new(Platform::Windows);
    app.conversation.clear();
    let before_status = app.status.clone();

    let _ = app.regenerate_last(&no_credentials());

    assert_eq!(app.status, before_status);
    assert!(
        app.status.is_empty() || app.status == "준비됨" || app.status.starts_with("[복구됨]"),
        "unexpected status: {}",
        app.status
    );
}

#[test]
fn tests_regenerate_last_returns_early_when_no_user_message() {
    let mut app = App::new(Platform::Windows);
    app.conversation.clear();
    let before_status = app.status.clone();

    let _ = app.regenerate_last(&no_credentials());

    assert_eq!(app.status, before_status);
    assert!(
        app.status.is_empty() || app.status == "준비됨" || app.status.starts_with("[복구됨]"),
        "unexpected status: {}",
        app.status
    );
}

#[test]
fn update_chat_resolve_provider_prefers_current_tabby_inputs_over_keystore() {
    let mut app = App::new(Platform::Windows);
    app.model_options = vec![codewarp::model::oai_opt("local-model", "TabbyAPI")];
    app.selected_model = Some("local-model".into());
    app.selected_model_provider = Some(LlmProvider::OpenAICompat);
    app.tabby_url_input = "http://localhost:5001".into();
    app.tabby_token_input = "live-token".into();
    let stored = StoredCredentials {
        api_key: Err("no key".into()),
        tabby_base_url: Some("http://stored:9999".into()),
        tabby_token: Some("stored-token".into()),
    };

    let (base_url, api_key) = app.resolve_provider(&stored).expect("provider resolves");

    assert_eq!(base_url, "http://localhost:5001/v1");
    assert_eq!(api_key.as_deref(), Some("live-token"));
}

#[test]
fn update_inference_tabby_resolve_provider_prefers_current_tabby_inputs_over_keystore() {
    let mut app = App::new(Platform::Windows);
    app.model_options = vec![codewarp::model::oai_opt("local-model", "TabbyAPI")];
    app.selected_model = Some("local-model".into());
    app.selected_model_provider = Some(LlmProvider::OpenAICompat);
    app.tabby_url_input = "http://localhost:5001".into();
    app.tabby_token_input = "live-token".into();
    let stored = StoredCredentials {
        api_key: Err("no key".into()),
        tabby_base_url: Some("http://stored:9999".into()),
        tabby_token: Some("stored-token".into()),
    };

    let (base_url, api_key) = app.resolve_provider(&stored).expect("provider resolves");

    assert_eq!(base_url, "http://localhost:5001/v1");
    assert_eq!(api_key.as_deref(), Some("live-token"));
}

#[test]
fn tests_resolve_provider_prefers_current_tabby_inputs_over_keystore() {
    let mut app = App::new(Platform::Windows);
    app.model_options = vec![codewarp::model::oai_opt("local-model", "TabbyAPI")];
    app.selected_model = Some("local-model".into());
    app.selected_model_provider = Some(LlmProvider::OpenAICompat);
    app.tabby_url_input = "http://localhost:5001".into();
    app.tabby_token_input = "live-token".into();
    let stored = StoredCredentials {
        api_key: Err("no key".into()),
        tabby_base_url: Some("http://stored:9999".into()),
        tabby_token: Some("stored-token".into()),
    };

    let (base_url, api_key) = app.resolve_provider(&stored).expect("provider resolves");

    assert_eq!(base_url, "http://localhost:5001/v1");
    assert_eq!(api_key.as_deref(), Some("live-token"));
}

#[test]
fn abort_stream_cancels_pending_write_approval() {
    let mut app = App::new(Platform::Windows);
    app.streaming_block_id = Some(42);
    app.pending_write_calls = vec![PendingToolCall {
        id: "write-1".into(),
        name: "write_file".into(),
        arguments: "{}".into(),
    }];
    app.ui.show_write_confirm = true;
    app.ui.expanded_confirm_idx = Some(0);

    app.abort_active_chat_stream(true);

    assert!(app.pending_write_calls.is_empty());
    assert!(!app.ui.show_write_confirm);
    assert!(app.ui.expanded_confirm_idx.is_none());
}

#[test]
fn clear_compare_result_drops_diff_state() {
    let mut app = App::new(Platform::Windows);
    app.compare_old_text = Some("old".into());
    app.compare_new_text = Some("new".into());
    app.compare_block_ids = Some((1, 2));

    app.clear_compare_result();

    assert!(app.compare_old_text.is_none());
    assert!(app.compare_new_text.is_none());
    assert!(app.compare_block_ids.is_none());
}
