use codewarp::chunks::{ChatEvent, ChunkOutcome};
use codewarp::mcp_servers::{McpServer, McpTool};
use codewarp::model::{Block, BlockBody, ChatMessage, LlmProvider, ModelOption, PendingToolCall, ViewMode};
use codewarp::paths::Platform;
use codewarp::selection::StoredCredentials;
use codewarp::state::App;
use codewarp::tool_rounds::{ToolExecutionResult, ToolStep};

fn no_credentials() -> StoredCredentials {
    StoredCredentials {
        api_key: Err("OpenRouter API 키가 없습니다".to_string()),
        tabby_base_url: None,
        tabby_token: None,
    }
}

fn with_key() -> StoredCredentials {
    StoredCredentials {
        api_key: Ok("sk-test".to_string()),
        tabby_base_url: None,
        tabby_token: None,
    }
}

fn new_app() -> App {
    App::new(Platform::Windows)
}

fn assistant_block_with_text(id: u64, text: &str) -> Block {
    Block {
        id,
        body: BlockBody::Assistant(text.to_string()),
        view_mode: ViewMode::Rendered,
        model: None,
    }
}

fn empty_schema() -> serde_json::Value {
    serde_json::Value::Object(serde_json::Map::new())
}

fn mcp_tool(server: &str, name: &str, description: &str) -> McpTool {
    McpTool {
        server_name: server.into(),
        name: name.into(),
        description: description.into(),
        input_schema: empty_schema(),
    }
}

fn app_with_streaming_block() -> App {
    let mut app = new_app();
    app.conversation.clear();
    app.blocks.clear();
    app.stream_generation = 4;
    app.streaming_block_id = Some(42);
    app.streaming_block_idx = Some(0);
    app.blocks.push(Block {
        id: 42,
        body: BlockBody::Assistant(String::new()),
        view_mode: ViewMode::Raw,
        model: None,
    });
    app
}

fn call(id: &str, name: &str, arguments: &str) -> PendingToolCall {
    PendingToolCall { id: id.into(), name: name.into(), arguments: arguments.into() }
}

fn openrouter_option(id: &str) -> ModelOption {
    ModelOption {
        id: id.into(),
        provider: LlmProvider::OpenRouter,
        provider_label: String::new(),
        ko_friendly: false,
        favorite: false,
        context_length: None,
    }
}

#[test]
fn update_chat_abort_stream_keeps_partial_assistant_when_requested() {
    let mut app = new_app();
    app.conversation.clear();
    app.blocks.clear();
    app.streaming_block_id = Some(42);
    app.streaming_block_idx = Some(0);
    app.tool_round = 3;
    app.pending_tool_calls = vec![call("tc-1", "read_file", "{}")];
    app.blocks.push(assistant_block_with_text(42, "partial response"));

    app.abort_active_chat_stream(true);

    assert!(app.streaming_block_id.is_none());
    assert!(app.streaming_block_idx.is_none());
    assert!(app.pending_tool_calls.is_empty());
    assert_eq!(app.tool_round, 0);
    assert_eq!(app.conversation.len(), 1);
    assert_eq!(app.conversation[0].role, "assistant");
    assert_eq!(app.conversation[0].content.as_deref(), Some("partial response"));
}

#[test]
fn update_chat_abort_stream_drops_partial_assistant_when_not_requested() {
    let mut app = new_app();
    app.conversation.clear();
    app.blocks.clear();
    app.streaming_block_id = Some(7);
    app.streaming_block_idx = Some(0);
    app.tool_round = 2;
    app.pending_tool_calls = vec![call("tc-2", "glob", "{}")];
    app.blocks.push(assistant_block_with_text(7, "to be discarded"));

    app.abort_active_chat_stream(false);

    assert!(app.streaming_block_id.is_none());
    assert!(app.streaming_block_idx.is_none());
    assert!(app.pending_tool_calls.is_empty());
    assert_eq!(app.tool_round, 0);
    assert!(app.conversation.is_empty());
}

#[test]
fn update_chat_stream_helpers_abort_stream_keeps_partial_assistant_when_requested() {
    let mut app = new_app();
    app.conversation.clear();
    app.blocks.clear();
    app.streaming_block_id = Some(42);
    app.streaming_block_idx = Some(0);
    app.tool_round = 3;
    app.pending_tool_calls = vec![call("tc-1", "read_file", "{}")];
    app.blocks.push(assistant_block_with_text(42, "partial response"));

    app.abort_active_chat_stream(true);

    assert!(app.streaming_block_id.is_none());
    assert!(app.streaming_block_idx.is_none());
    assert!(app.pending_tool_calls.is_empty());
    assert_eq!(app.tool_round, 0);
    assert_eq!(app.conversation.len(), 1);
    assert_eq!(app.blocks.len(), 1);
    assert_eq!(app.blocks[0].body.to_text(), "partial response");
    assert_eq!(app.conversation[0].role, "assistant");
    assert_eq!(app.conversation[0].content.as_deref(), Some("partial response"));

    let persisted = app.save_session();
    assert_eq!(persisted.sessions[0].blocks.len(), 1);
    assert_eq!(persisted.sessions[0].blocks[0].content, "partial response");
}

#[test]
fn update_chat_stream_helpers_abort_stream_drops_partial_assistant_when_not_requested() {
    let mut app = new_app();
    app.conversation.clear();
    app.blocks.clear();
    app.streaming_block_id = Some(7);
    app.streaming_block_idx = Some(0);
    app.tool_round = 2;
    app.pending_tool_calls = vec![call("tc-2", "glob", "{}")];
    app.blocks.push(assistant_block_with_text(7, "to be discarded"));

    app.abort_active_chat_stream(false);

    assert!(app.streaming_block_id.is_none());
    assert!(app.streaming_block_idx.is_none());
    assert!(app.pending_tool_calls.is_empty());
    assert_eq!(app.tool_round, 0);
    assert!(app.conversation.is_empty());
    assert!(app.blocks.is_empty());
}

#[test]
fn abort_stream_removes_empty_assistant_placeholder() {
    let mut app = new_app();
    app.conversation.clear();
    app.blocks = vec![
        Block {
            id: 1,
            body: BlockBody::User("question".into()),
            view_mode: ViewMode::Rendered,
            model: None,
        },
        assistant_block_with_text(2, ""),
    ];
    app.streaming_block_id = Some(2);
    app.streaming_block_idx = Some(1);

    app.abort_active_chat_stream(true);

    assert_eq!(app.blocks.len(), 1);
    assert_eq!(app.blocks[0].id, 1);
    assert!(app.conversation.is_empty());
}

#[test]
fn abort_compare_removes_pending_blocks_without_persisting_placeholders() {
    let mut app = new_app();
    app.conversation.clear();
    app.blocks = vec![
        Block {
            id: 1,
            body: BlockBody::User("compare this".into()),
            view_mode: ViewMode::Rendered,
            model: None,
        },
        assistant_block_with_text(2, "OpenRouter 응답 대기 중…"),
        assistant_block_with_text(3, "Tabby 응답 대기 중…"),
    ];
    app.ui.compare_pending = true;
    app.compare_block_ids = Some((2, 3));
    app.abort_handle = Some(1);

    app.abort_active_chat_stream(true);

    assert_eq!(app.blocks.len(), 1);
    assert_eq!(app.blocks[0].id, 1);
    assert!(!app.ui.compare_pending);
    assert!(app.compare_block_ids.is_none());
    assert!(app.abort_handle.is_none());
    assert!(app.conversation.is_empty());
}

#[test]
fn compare_completion_releases_abort_handle() {
    let mut app = new_app();
    app.abort_handle = Some(1);
    app.ui.compare_pending = true;
    app.compare_block_ids = Some((1, 2));

    let _ = app.on_compare_responses_loaded(
        1,
        2,
        Ok("OpenRouter response".into()),
        Ok("local response".into()),
    );

    assert!(!app.ui.compare_pending);
    assert!(app.abort_handle.is_none());
    assert!(app.compare_block_ids.is_none());
}

#[test]
fn compare_completion_fills_response_blocks_by_id() {
    let mut app = new_app();
    app.blocks = vec![
        Block {
            id: 10,
            body: BlockBody::Assistant("OpenRouter 응답 대기 중…".into()),
            view_mode: ViewMode::Raw,
            model: None,
        },
        Block {
            id: 11,
            body: BlockBody::Assistant("Tabby 응답 대기 중…".into()),
            view_mode: ViewMode::Raw,
            model: None,
        },
    ];
    app.ui.compare_pending = true;
    app.compare_block_ids = Some((10, 11));

    let _ = app.on_compare_responses_loaded(
        10,
        11,
        Ok("OpenRouter response".into()),
        Ok("local response".into()),
    );

    assert_eq!(app.blocks[0].body.to_text(), "OpenRouter response");
    assert_eq!(app.blocks[1].body.to_text(), "local response");
}

#[test]
fn stale_compare_completion_is_ignored_for_new_request() {
    let mut app = new_app();
    app.ui.compare_pending = true;
    app.compare_block_ids = Some((10, 11));

    let _ = app.on_compare_responses_loaded(
        1,
        2,
        Ok("stale OpenRouter response".into()),
        Ok("stale local response".into()),
    );

    assert!(app.ui.compare_pending);
    assert_eq!(app.compare_block_ids, Some((10, 11)));
    assert!(app.conversation.is_empty());
}

#[test]
fn update_chat_chat_chunk_tokens_append_to_assistant_block_without_editor_focus() {
    let mut app = new_app();
    app.conversation.clear();
    app.blocks.clear();
    app.streaming_block_id = Some(42);
    app.streaming_block_idx = Some(0);
    app.blocks.push(Block {
        id: 42,
        body: BlockBody::Assistant(String::new()),
        view_mode: ViewMode::Rendered,
        model: None,
    });

    let _ = app.on_chat_chunk(ChatEvent::Token("hel".into()));
    let _ = app.on_chat_chunk(ChatEvent::Token("lo".into()));

    assert_eq!(app.streaming_raw, "hello");
}

#[test]
fn update_chat_stream_chat_chunk_tokens_append_to_assistant_block_without_editor_focus() {
    let mut app = new_app();
    app.conversation.clear();
    app.blocks.clear();
    app.streaming_block_id = Some(42);
    app.streaming_block_idx = Some(0);
    app.blocks.push(Block {
        id: 42,
        body: BlockBody::Assistant(String::new()),
        view_mode: ViewMode::Rendered,
        model: None,
    });

    let _ = app.on_chat_chunk(ChatEvent::Token("hel".into()));
    let _ = app.on_chat_chunk(ChatEvent::Token("lo".into()));

    assert_eq!(app.streaming_raw, "hello");
}

#[test]
fn late_mcp_result_is_ignored_after_close_starts() {
    let mut app = new_app();
    app.close_in_progress = true;
    let conversation_len = app.conversation.len();

    let _ = app.on_mcp_tool_result(0, "late-call", "late-result".to_string(), &no_credentials());

    assert_eq!(app.conversation.len(), conversation_len);
}

#[test]
fn stale_mcp_result_is_ignored_after_stream_stop() {
    let mut app = new_app();
    app.mcp_request_generation = 2;
    app.streaming_block_id = Some(42);
    let conversation_len = app.conversation.len();

    let _ = app.on_mcp_tool_result(1, "late-call", "late-result".to_string(), &no_credentials());

    assert_eq!(app.conversation.len(), conversation_len);
    assert!(app.streaming_block_id.is_some());
}

#[test]
fn mcp_results_wait_for_all_calls_before_starting_next_stream() {
    let mut app = new_app();
    app.mcp_request_generation = 1;
    app.mcp_pending_results = 2;

    let _ = app.on_mcp_tool_result(1, "first", "one".into(), &no_credentials());

    assert_eq!(app.mcp_pending_results, 1);
    assert_eq!(app.tool_round, 0);
    assert_eq!(app.conversation.len(), 1);

    let _ = app.on_mcp_tool_result(1, "second", "two".into(), &no_credentials());

    assert_eq!(app.mcp_pending_results, 0);
    assert_eq!(app.tool_round, 1);
    assert_eq!(app.conversation.len(), 2);
}

#[test]
fn approved_tool_execution_is_scheduled_off_the_update_path() {
    let mut app = app_with_streaming_block();
    app.pending_write_calls = vec![call("call-1", "run_command", r#"{"command":"echo ready"}"#)];

    let _step = app.continue_after_writes(true, &no_credentials());

    assert!(app.tool_execution_pending);
    assert!(app.conversation.is_empty());
    assert!(app.blocks[0].body.to_text().is_empty());
}

#[test]
fn approved_tool_results_wait_for_mcp_before_starting_next_stream() {
    let mut app = app_with_streaming_block();
    app.tool_execution_pending = true;
    app.mcp_pending_results = 1;

    let _step = app.on_approved_tools_finished(
        4,
        Ok(vec![ToolExecutionResult {
            id: "call-1".into(),
            name: "run_command".into(),
            arguments: r#"{"command":"echo ready"}"#.into(),
            result: "ready".into(),
        }]),
        &no_credentials(),
    );

    assert!(!app.tool_execution_pending);
    assert_eq!(app.mcp_pending_results, 1);
    assert_eq!(app.tool_round, 0);
    assert_eq!(app.conversation.len(), 1);
    assert!(app.blocks.iter().any(|block| matches!(
        block.body,
        BlockBody::ToolResult { ref name, .. } if name == "run_command"
    )));
}

#[test]
fn stale_approved_tool_results_are_ignored_after_stream_switch() {
    let mut app = app_with_streaming_block();
    app.tool_execution_pending = true;

    let _step = app.on_approved_tools_finished(
        3,
        Ok(vec![ToolExecutionResult {
            id: "late".into(),
            name: "run_command".into(),
            arguments: "{}".into(),
            result: "late result".into(),
        }]),
        &no_credentials(),
    );

    assert!(app.tool_execution_pending);
    assert!(app.conversation.is_empty());
    assert_eq!(app.blocks.len(), 1);
}

#[test]
fn update_settings_mcp_on_mcp_tools_loaded_removes_old_tools_and_updates_status() {
    let mut app = new_app();
    app.mcp_servers.push(McpServer { name: "fs".into(), command: "fixture".into() });
    app.mcp_tool_load_generations.push(("fs".into(), 1));
    app.mcp_tools.push(mcp_tool("fs", "read", ""));
    app.mcp_tools.push(mcp_tool("old-server", "list", ""));

    let new_tools = vec![mcp_tool("fs", "read", "read file"), mcp_tool("fs", "write", "write file")];

    app.on_mcp_tools_loaded(1, "fs", new_tools);
    assert_eq!(app.mcp_tools.len(), 3);
    assert!(app.mcp_tools.iter().any(|t| t.server_name == "old-server"));
    assert!(app.mcp_tools.iter().any(|t| t.name == "write"));
    assert!(app.status.contains("MCP"));
}

#[test]
fn update_settings_mcp_on_mcp_tools_failed_shows_error_in_status() {
    let mut app = new_app();
    app.mcp_servers.push(McpServer { name: "fs".into(), command: "fixture".into() });
    app.mcp_tool_load_generations.push(("fs".into(), 1));
    app.on_mcp_tools_failed(1, "fs", "connection refused");
    assert!(app.status.contains("MCP tool 로드 실패"));
    assert!(app.status.contains("connection refused"));
}

#[test]
fn stale_mcp_tool_list_is_ignored_after_server_removal() {
    let mut app = new_app();
    app.mcp_servers.push(McpServer { name: "fs".into(), command: "fixture".into() });
    app.mcp_tool_load_generations.push(("fs".into(), 1));
    app.mcp_servers.clear();
    app.mcp_tool_load_generations.push(("fs".into(), 2));

    app.on_mcp_tools_loaded(1, "fs", vec![mcp_tool("fs", "read", "")]);

    assert!(app.mcp_tools.is_empty());
}

#[test]
fn duplicate_mcp_server_name_is_rejected() {
    let mut app = new_app();
    app.mcp_servers.push(McpServer { name: "fs".into(), command: "fixture".into() });
    app.mcp_input.name_input = "fs".into();
    app.mcp_input.command_input = "another-fixture".into();

    let _ = app.add_mcp_server();

    assert_eq!(app.mcp_servers.len(), 1);
    assert!(app.status.contains("이미 사용 중"));
}

// Further cases.

#[test]
fn adding_an_mcp_server_hands_out_a_fresh_load_generation() {
    let mut app = new_app();
    app.mcp_input.name_input = "  fs ".into();
    app.mcp_input.command_input = " npx server ".into();

    let load = app.add_mcp_server().expect("server is added");

    assert_eq!(load.server.name, "fs");
    assert_eq!(load.server.command, "npx server");
    assert_eq!(load.generation, 1);
    assert_eq!(app.mcp_servers.len(), 1);
    assert!(app.mcp_input.name_input.is_empty());
    assert_eq!(app.status, "MCP 서버 추가됨: fs — tool 목록 로드 중…");

    // An answer of that generation is taken; after removal it is stale.
    app.on_mcp_tools_loaded(1, "fs", vec![mcp_tool("fs", "read", "")]);
    assert_eq!(app.mcp_tools.len(), 1);
    assert_eq!(app.status, "MCP [fs] tool 1개 로드 완료");
    assert!(app.remove_mcp_server(0));
    assert!(app.mcp_tools.is_empty());
    assert_eq!(app.status, "MCP 서버 제거됨: fs");
    app.on_mcp_tools_loaded(1, "fs", vec![mcp_tool("fs", "read", "")]);
    assert!(app.mcp_tools.is_empty());
}

#[test]
fn adding_an_mcp_server_needs_name_and_command() {
    let mut app = new_app();
    app.mcp_input.name_input = "fs".into();
    assert!(app.add_mcp_server().is_none());
    assert_eq!(app.status, "MCP 서버 이름과 명령을 모두 입력하세요.");
    assert!(app.mcp_servers.is_empty());
    assert!(!app.remove_mcp_server(0));
}

#[test]
fn mcp_save_failure_is_reported() {
    let mut app = new_app();
    app.report_mcp_save_failure("disk full");
    assert_eq!(app.status, "MCP 저장 실패: disk full");
}

#[test]
fn tool_call_pieces_assemble_into_pending_calls() {
    let mut app = app_with_streaming_block();
    let r = app.on_chat_chunk(ChatEvent::ToolCallDelta {
        index: 1,
        id: Some("c2".into()),
        name: Some("read_file".into()),
        arguments: Some("{\"pa".into()),
    });
    assert!(matches!(r, ChunkOutcome::Taken));
    let _ = app.on_chat_chunk(ChatEvent::ToolCallDelta {
        index: 1,
        id: None,
        name: None,
        arguments: Some("th\":\"a\"}".into()),
    });
    assert_eq!(app.pending_tool_calls.len(), 2);
    assert_eq!(app.pending_tool_calls[0].id, "");
    assert_eq!(app.pending_tool_calls[1].id, "c2");
    assert_eq!(app.pending_tool_calls[1].name, "read_file");
    assert_eq!(app.pending_tool_calls[1].arguments, "{\"path\":\"a\"}");
}

#[test]
fn stream_end_and_failure_are_handed_back() {
    let mut app = app_with_streaming_block();
    match app.on_chat_chunk(ChatEvent::Done { finish_reason: Some("stop".into()), generation_id: None }) {
        ChunkOutcome::Finished { block_id, finish_reason, .. } => {
            assert_eq!(block_id, 42);
            assert_eq!(finish_reason.as_deref(), Some("stop"));
        }
        _ => panic!("expected the end of the stream"),
    }
    match app.on_chat_chunk(ChatEvent::Error("boom".into())) {
        ChunkOutcome::Failed { block_id, error } => {
            assert_eq!(block_id, 42);
            assert_eq!(error, "boom");
        }
        _ => panic!("expected a failure"),
    }
    let mut idle = new_app();
    assert!(matches!(idle.on_chat_chunk(ChatEvent::Token("x".into())), ChunkOutcome::Ignored));
}

#[test]
fn read_only_calls_are_answered_and_the_next_round_starts() {
    let mut app = app_with_streaming_block();
    app.model_options = vec![openrouter_option("m")];
    app.selected_model = Some("m".into());
    app.selected_model_provider = Some(LlmProvider::OpenRouter);
    app.pending_tool_calls = vec![call("c1", "read_file", "{}"), call("c2", "glob", "{}")];

    let step = app.run_tool_round("thinking".into(), &vec![true, true], vec!["one".into(), "two".into()], &with_key());

    assert_eq!(app.conversation.len(), 3);
    assert_eq!(app.conversation[0].role, "assistant");
    assert_eq!(app.conversation[0].content.as_deref(), Some("thinking"));
    assert_eq!(app.conversation[0].tool_calls.len(), 2);
    assert_eq!(app.conversation[1].tool_call_id.as_deref(), Some("c1"));
    assert_eq!(app.conversation[2].content.as_deref(), Some("two"));
    assert_eq!(app.tool_round, 1);
    assert_eq!(app.status, "응답 생성 중… (도구 라운드 1/10)");
    match step {
        ToolStep::Stream(next) => {
            assert_eq!(next.stream_generation, 5);
            assert_eq!(next.request.block_id, 42);
            assert_eq!(next.request.messages.len(), 3);
            assert!(next.request.with_tools);
            assert_eq!(app.abort_handle, Some(5));
        }
        _ => panic!("expected the next reply"),
    }
}

#[test]
fn writing_calls_wait_for_approval_and_denial_records_refusals() {
    let mut app = app_with_streaming_block();
    app.pending_tool_calls = vec![call("w1", "write_file", "{}")];

    let step = app.run_tool_round(String::new(), &vec![false], Vec::new(), &no_credentials());

    assert!(matches!(step, ToolStep::Wait));
    assert!(app.conversation[0].content.is_none());
    assert_eq!(app.pending_write_calls.len(), 1);
    assert!(app.ui.show_write_confirm);
    assert_eq!(app.status, "파일 쓰기 승인 대기");

    let _ = app.deny_pending_writes(&no_credentials());
    assert!(app.pending_write_calls.is_empty());
    assert!(!app.ui.show_write_confirm);
    assert_eq!(app.conversation.len(), 2);
    assert_eq!(app.conversation[1].content.as_deref(), Some("[denied] 사용자가 파일 쓰기를 거부했습니다."));
    assert_eq!(app.blocks.last().unwrap().body.to_text(), "denied");
    // No model is selected, so the next reply cannot be requested.
    assert_eq!(app.tool_round, 1);
    assert_eq!(app.status, "모델 미선택");
    assert!(app.streaming_block_id.is_none());
}

#[test]
fn mcp_calls_go_to_their_server() {
    let mut app = app_with_streaming_block();
    app.mcp_servers.push(McpServer { name: "fs".into(), command: "fixture".into() });
    app.mcp_tools.push(mcp_tool("fs", "list", ""));
    app.pending_tool_calls = vec![call("m1", "list", "{\"dir\":\".\"}"), call("w1", "write_file", "{}")];

    let step = app.run_tool_round(String::new(), &vec![false, false], Vec::new(), &no_credentials());

    match step {
        ToolStep::CallMcp { generation, calls } => {
            assert_eq!(generation, 1);
            assert_eq!(calls.len(), 1);
            assert_eq!(calls[0].call_id, "m1");
            assert_eq!(calls[0].server.as_ref().map(|s| s.command.as_str()), Some("fixture"));
        }
        _ => panic!("expected MCP calls"),
    }
    assert!(app.is_mcp_tool("list"));
    assert!(!app.is_mcp_tool("write_file"));
    assert_eq!(app.mcp_pending_results, 1);
    assert_eq!(app.mcp_abort_handle, Some(1));
    assert_eq!(app.pending_write_calls.len(), 1);
    assert_eq!(app.status, "MCP tool 실행 중…");
}

#[test]
fn discarding_the_last_write_runs_the_empty_approval() {
    let mut app = app_with_streaming_block();
    app.pending_write_calls = vec![call("w1", "write_file", "{}"), call("w2", "write_file", "{}")];
    app.ui.expanded_confirm_idx = Some(1);

    let step = app.discard_write_call(0, &no_credentials());
    assert!(matches!(step, ToolStep::Wait));
    assert_eq!(app.ui.expanded_confirm_idx, Some(0));
    assert_eq!(app.conversation[0].content.as_deref(), Some("[denied] 사용자가 이 도구 호출을 제외했습니다."));

    match app.discard_write_call(0, &no_credentials()) {
        ToolStep::RunApproved { generation, approved } => {
            assert_eq!(generation, 4);
            assert!(approved.is_empty());
        }
        _ => panic!("expected the approved run"),
    }
    assert!(app.tool_execution_pending);
    assert_eq!(app.abort_handle, Some(4));
}

#[test]
fn failed_approved_run_fails_the_reply() {
    let mut app = app_with_streaming_block();
    app.tool_execution_pending = true;
    app.abort_handle = Some(4);
    match app.on_approved_tools_finished(4, Err("worker failed".into()), &no_credentials()) {
        ToolStep::Failed { block_id, error } => {
            assert_eq!(block_id, 42);
            assert_eq!(error, "worker failed");
        }
        _ => panic!("expected the failure"),
    }
    assert!(!app.tool_execution_pending);
    assert!(app.abort_handle.is_none());
}

#[test]
fn kicking_without_a_stream_does_nothing() {
    let mut app = new_app();
    app.conversation.push(ChatMessage::text("user", "hi".into()));
    assert!(app.kick_chat_stream(&with_key()).is_none());
    assert_eq!(app.stream_generation, 0);
}
