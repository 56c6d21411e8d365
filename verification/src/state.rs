//! The application state that every update rule reads and changes.
use crate::file_tree::FileTreeItem;
use crate::hf_download::HfDownload;
use crate::mcp_servers::{McpServer, McpTool};
use crate::model::{
    AgentMode, Block, ChatMessage, CloseLifecycleEvent, InactiveSession, InferenceEngine,
    LlmProvider, ModelOption, PendingToolCall,
};
use crate::paths::Platform;
use crate::ui_events::TldrFileEntry;
use vstd::prelude::*;

verus! {

/// Transient interface state.
pub struct UiState {
    pub show_write_confirm: bool,
    pub expanded_confirm_idx: Option<usize>,
    pub compare_pending: bool,
    pub theme_hex_inputs: Vec<String>,
    /// The session whose delete button awaits a confirming second click.
    pub pending_delete_session: Option<u64>,
    pub show_settings: bool,
    pub show_command_palette: bool,
    pub command_palette_input: String,
    /// The highlighted entry of the command palette's filtered list.
    pub active_palette_idx: Option<usize>,
    /// Whether the terminal panel is shown.
    pub pty_visible: bool,
    /// The phase, 0 to 3, of the loading skeleton's animation.
    pub skeleton_phase: u8,
    /// The code blocks under the mouse, each once.
    pub hovered_code_blocks: Vec<u64>,
    /// The message of the toast shown, if any.
    pub toast: Option<String>,
    /// The blocks whose change summary is expanded, each once.
    pub tldr_expanded: Vec<u64>,
    /// The computed change summaries, by block.
    pub tldr_data: Vec<(u64, Vec<TldrFileEntry>)>,
}

/// The whole application state.
pub struct App {
    pub platform: Platform,
    pub status: String,
    pub cwd: String,
    /// The text of the chat input box.
    pub input: String,
    /// Whether the chat stream keeps scrolling to its end.
    pub follow_bottom: bool,
    pub agent_mode: AgentMode,
    pub model_options: Vec<ModelOption>,
    pub selected_model: Option<String>,
    pub selected_model_provider: Option<LlmProvider>,
    pub favorites: Vec<String>,
    pub tabby_url_input: String,
    pub tabby_token_input: String,
    pub tabby_status: Option<Result<String, String>>,
    pub tabby_retry_generation: u64,
    pub tabby_connect_retry_left: u8,
    pub openai_compat_label: String,
    pub inference_engine: InferenceEngine,
    pub inference_selected_model: String,
    pub inference_command_input: String,
    pub inference_binary_path: String,
    pub inference_port_input: String,
    pub model_dir_input: String,
    pub inference_log: Vec<String>,
    pub inference_pid: Option<u32>,
    pub inference_process: InferenceProcess,
    pub conversation: Vec<ChatMessage>,
    pub blocks: Vec<Block>,
    pub next_block_id: u64,
    pub streaming_block_id: Option<u64>,
    pub streaming_block_idx: Option<usize>,
    pub streaming_raw: String,
    pub pending_tool_calls: Vec<PendingToolCall>,
    pub pending_write_calls: Vec<PendingToolCall>,
    pub tool_round: u32,
    pub mid_stream_retries: u32,
    pub stream_generation: u64,
    pub mcp_request_generation: u64,
    pub mcp_pending_results: usize,
    pub mcp_pending_call_ids: Vec<String>,
    pub generation_lookup_generation: u64,
    pub compare_generation: u64,
    pub compare_both: bool,
    pub compare_block_ids: Option<(u64, u64)>,
    pub compare_old_text: Option<String>,
    pub compare_new_text: Option<String>,
    pub current_session_id: u64,
    pub current_session_title: String,
    pub next_session_id: u64,
    pub inactive_sessions: Vec<InactiveSession>,
    /// The scroll offset of the chat stream, as the bit pattern of the `f32`
    /// the view reports.
    pub current_scroll_y_bits: u32,
    pub attached_files: Vec<(String, String)>,
    pub show_mention: bool,
    pub mention_query: String,
    pub mention_selected: usize,
    /// The workspace paths the @-mention picker chooses from.
    pub mention_candidates: Vec<String>,
    /// The command palette entry under the mouse.
    pub hovered_palette_idx: Option<usize>,
    pub pty_output: Vec<String>,
    /// The terminal session's bookkeeping.
    pub pty: PtyState,
    pub file_tree_items: Vec<FileTreeItem>,
    pub file_tree_expanded: Vec<String>,
    pub mcp_tool_load_generations: Vec<(String, u64)>,
    pub close_in_progress: bool,
    pub close_lifecycle_events: Vec<CloseLifecycleEvent>,
    /// The key under which the surrounding program keeps the abort handle of
    /// the chat request or tool run in flight.
    pub abort_handle: Option<u64>,
    /// The key of the abort handle of the MCP tool calls in flight.
    pub mcp_abort_handle: Option<u64>,
    /// Whether approved tool calls are running.
    pub tool_execution_pending: bool,
    pub mcp_servers: Vec<McpServer>,
    pub mcp_tools: Vec<McpTool>,
    /// The name and command typed for a new MCP server.
    pub mcp_input: McpInput,
    pub hf: HfState,
    pub ui: UiState,
}

/// The bookkeeping of the terminal session.
pub struct PtyState {
    /// The generation the session's line and exit events are tagged with.
    pub generation: u64,
    /// Whether the surrounding program holds a running shell session.
    pub session: bool,
}

/// The bookkeeping of the owned runtime process.
pub struct InferenceProcess {
    /// The generation the process's log and exit events are tagged with.
    pub generation: u64,
    /// Whether the surrounding program holds the stop handle of the process.
    pub stop_handle: bool,
    /// Whether the process was asked to stop.
    pub stopping: bool,
}

/// The name and command typed for a new MCP server.
pub struct McpInput {
    pub name_input: String,
    pub command_input: String,
}

/// The model download settings and the download in progress.
pub struct HfState {
    /// The download in progress, if any.
    pub dl: Option<HfDownload>,
    /// Whether the surrounding program holds the abort handle of a download.
    pub abort_handle: bool,
    pub repo_input: String,
    pub token_input: String,
    /// The folder the next download goes to, when a preset chose one.
    pub folder_name: Option<String>,
    /// The revision the next download fetches, when a preset chose one.
    pub revision: Option<String>,
}

/// A generation counter advanced by one step; it stays at the largest value
/// once it gets there.
pub open spec fn next_generation(g: u64) -> u64 {
    if g == u64::MAX {
        g
    } else {
        (g + 1) as u64
    }
}

impl App {
    /// A fresh application on platform `platform`: no models, no conversation,
    /// an empty workspace path and settings, session 0 titled "새 채팅".
    pub fn new(platform: Platform) -> (r: App)
        ensures
            r.platform == platform,
            r.status@ == Seq::<char>::empty(),
            r.cwd@ == Seq::<char>::empty(),
            r.input@ == Seq::<char>::empty(),
            r.follow_bottom,
            r.agent_mode == AgentMode::Build,
            r.model_options@.len() == 0,
            r.selected_model is None,
            r.selected_model_provider is None,
            r.favorites@.len() == 0,
            r.tabby_url_input@ == Seq::<char>::empty(),
            r.tabby_token_input@ == Seq::<char>::empty(),
            r.tabby_status is None,
            r.tabby_retry_generation == 0,
            r.tabby_connect_retry_left == 0,
            r.openai_compat_label@ == Seq::<char>::empty(),
            r.inference_engine == InferenceEngine::XLlm,
            r.inference_selected_model@ == Seq::<char>::empty(),
            r.inference_command_input@ == Seq::<char>::empty(),
            r.inference_binary_path@ == Seq::<char>::empty(),
            r.inference_port_input@ == Seq::<char>::empty(),
            r.model_dir_input@ == Seq::<char>::empty(),
            r.inference_log@.len() == 0,
            r.inference_pid is None,
            r.inference_process == (InferenceProcess { generation: 0, stop_handle: false, stopping: false }),
            r.conversation@.len() == 0,
            r.blocks@.len() == 0,
            r.next_block_id == 0,
            r.streaming_block_id is None,
            r.streaming_block_idx is None,
            r.streaming_raw@ == Seq::<char>::empty(),
            r.pending_tool_calls@.len() == 0,
            r.pending_write_calls@.len() == 0,
            r.tool_round == 0,
            r.mid_stream_retries == 0,
            r.stream_generation == 0,
            r.mcp_request_generation == 0,
            r.mcp_pending_results == 0,
            r.mcp_pending_call_ids@.len() == 0,
            r.generation_lookup_generation == 0,
            r.compare_generation == 0,
            !r.compare_both,
            r.compare_block_ids is None,
            r.compare_old_text is None,
            r.compare_new_text is None,
            r.current_session_id == 0,
            r.current_session_title@ == "새 채팅"@,
            r.next_session_id == 1,
            r.inactive_sessions@.len() == 0,
            r.current_scroll_y_bits == 0,
            r.attached_files@.len() == 0,
            !r.show_mention,
            r.mention_query@ == Seq::<char>::empty(),
            r.mention_selected == 0,
            r.mention_candidates@.len() == 0,
            r.hovered_palette_idx is None,
            r.pty_output@.len() == 0,
            r.pty == (PtyState { generation: 0, session: false }),
            r.file_tree_items@.len() == 0,
            r.file_tree_expanded@.len() == 0,
            r.mcp_tool_load_generations@.len() == 0,
            !r.close_in_progress,
            r.close_lifecycle_events@.len() == 0,
            r.abort_handle is None,
            r.mcp_abort_handle is None,
            !r.tool_execution_pending,
            r.mcp_servers@.len() == 0,
            r.mcp_tools@.len() == 0,
            r.mcp_input.name_input@ == Seq::<char>::empty(),
            r.mcp_input.command_input@ == Seq::<char>::empty(),
            r.hf.dl is None,
            !r.hf.abort_handle,
            r.hf.repo_input@ == Seq::<char>::empty(),
            r.hf.token_input@ == Seq::<char>::empty(),
            r.hf.folder_name is None,
            r.hf.revision is None,
            !r.ui.show_write_confirm,
            r.ui.expanded_confirm_idx is None,
            !r.ui.compare_pending,
            r.ui.theme_hex_inputs@.len() == 0,
            r.ui.pending_delete_session is None,
            !r.ui.show_settings,
            !r.ui.show_command_palette,
            r.ui.command_palette_input@ == Seq::<char>::empty(),
            r.ui.active_palette_idx is None,
            !r.ui.pty_visible,
            r.ui.skeleton_phase == 0,
            r.ui.hovered_code_blocks@.len() == 0,
            r.ui.toast is None,
            r.ui.tldr_expanded@.len() == 0,
            r.ui.tldr_data@.len() == 0,
    {
        App {
            platform,
            status: String::new(),
            cwd: String::new(),
            input: String::new(),
            follow_bottom: true,
            agent_mode: AgentMode::Build,
            model_options: Vec::new(),
            selected_model: None,
            selected_model_provider: None,
            favorites: Vec::new(),
            tabby_url_input: String::new(),
            tabby_token_input: String::new(),
            tabby_status: None,
            tabby_retry_generation: 0,
            tabby_connect_retry_left: 0,
            openai_compat_label: String::new(),
            inference_engine: InferenceEngine::XLlm,
            inference_selected_model: String::new(),
            inference_command_input: String::new(),
            inference_binary_path: String::new(),
            inference_port_input: String::new(),
            model_dir_input: String::new(),
            inference_log: Vec::new(),
            inference_pid: None,
            inference_process: InferenceProcess { generation: 0, stop_handle: false, stopping: false },
            conversation: Vec::new(),
            blocks: Vec::new(),
            next_block_id: 0,
            streaming_block_id: None,
            streaming_block_idx: None,
            streaming_raw: String::new(),
            pending_tool_calls: Vec::new(),
            pending_write_calls: Vec::new(),
            tool_round: 0,
            mid_stream_retries: 0,
            stream_generation: 0,
            mcp_request_generation: 0,
            mcp_pending_results: 0,
            mcp_pending_call_ids: Vec::new(),
            generation_lookup_generation: 0,
            compare_generation: 0,
            compare_both: false,
            compare_block_ids: None,
            compare_old_text: None,
            compare_new_text: None,
            current_session_id: 0,
            current_session_title: String::from_str("새 채팅"),
            next_session_id: 1,
            inactive_sessions: Vec::new(),
            current_scroll_y_bits: 0,
            attached_files: Vec::new(),
            show_mention: false,
            mention_query: String::new(),
            mention_selected: 0,
            mention_candidates: Vec::new(),
            hovered_palette_idx: None,
            pty_output: Vec::new(),
            pty: PtyState { generation: 0, session: false },
            file_tree_items: Vec::new(),
            file_tree_expanded: Vec::new(),
            mcp_tool_load_generations: Vec::new(),
            close_in_progress: false,
            close_lifecycle_events: Vec::new(),
            abort_handle: None,
            mcp_abort_handle: None,
            tool_execution_pending: false,
            mcp_servers: Vec::new(),
            mcp_tools: Vec::new(),
            mcp_input: McpInput { name_input: String::new(), command_input: String::new() },
            hf: HfState {
                dl: None,
                abort_handle: false,
                repo_input: String::new(),
                token_input: String::new(),
                folder_name: None,
                revision: None,
            },
            ui: UiState {
                show_write_confirm: false,
                expanded_confirm_idx: None,
                compare_pending: false,
                theme_hex_inputs: Vec::new(),
                pending_delete_session: None,
                show_settings: false,
                show_command_palette: false,
                command_palette_input: String::new(),
                active_palette_idx: None,
                pty_visible: false,
                skeleton_phase: 0,
                hovered_code_blocks: Vec::new(),
                toast: None,
                tldr_expanded: Vec::new(),
                tldr_data: Vec::new(),
            },
        }
    }
}

} // verus!
