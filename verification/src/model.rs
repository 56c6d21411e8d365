//! The records the application keeps: model options, chat messages and blocks,
//! pending tool calls, stored sessions, and the effects that the surrounding
//! program carries out on the application's behalf.
use vstd::prelude::*;

verus! {

/// Where a model is served from.
#[derive(Clone, Copy, Debug, PartialEq, Eq, Structural)]
pub enum LlmProvider {
    OpenRouter,
    OpenAICompat,
}

/// One entry of the model selector.
pub struct ModelOption {
    pub id: String,
    pub provider: LlmProvider,
    pub provider_label: String,
    pub ko_friendly: bool,
    pub favorite: bool,
    pub context_length: Option<u64>,
}

/// An OpenRouter model option named `id`.
pub fn or_opt(id: &str) -> (r: ModelOption)
    ensures
        r.id@ == id@,
        r.provider == LlmProvider::OpenRouter,
        r.provider_label@ == Seq::<char>::empty(),
        !r.ko_friendly,
        !r.favorite,
        r.context_length is None,
{
    ModelOption {
        id: String::from_str(id),
        provider: LlmProvider::OpenRouter,
        provider_label: String::new(),
        ko_friendly: false,
        favorite: false,
        context_length: None,
    }
}

/// An OpenAI-compatible model option named `id`, shown under `label`.
pub fn oai_opt(id: &str, label: &str) -> (r: ModelOption)
    ensures
        r.id@ == id@,
        r.provider == LlmProvider::OpenAICompat,
        r.provider_label@ == label@,
        !r.ko_friendly,
        !r.favorite,
        r.context_length is None,
{
    ModelOption {
        id: String::from_str(id),
        provider: LlmProvider::OpenAICompat,
        provider_label: String::from_str(label),
        ko_friendly: false,
        favorite: false,
        context_length: None,
    }
}

/// One message of the conversation sent to the model: its role and text, the
/// tool call it answers (for a tool result), and the tool calls it makes (for
/// an assistant message).
pub struct ChatMessage {
    pub role: String,
    pub content: Option<String>,
    pub tool_call_id: Option<String>,
    pub tool_calls: Vec<PendingToolCall>,
}

impl ChatMessage {
    /// A plain message with role `role` and text `content`.
    pub fn text(role: &str, content: String) -> (m: ChatMessage)
        ensures
            m.role@ == role@,
            m.content == Some(content),
            m.tool_call_id is None,
            m.tool_calls@.len() == 0,
    {
        ChatMessage { role: String::from_str(role), content: Some(content), tool_call_id: None, tool_calls: Vec::new() }
    }

    /// The result `result` of tool call `id`.
    pub fn tool_result(id: &str, result: String) -> (m: ChatMessage)
        ensures
            m.role@ == "tool"@,
            m.content == Some(result),
            m.tool_call_id matches Some(i) && i@ == id@,
            m.tool_calls@.len() == 0,
    {
        ChatMessage {
            role: String::from_str("tool"),
            content: Some(result),
            tool_call_id: Some(String::from_str(id)),
            tool_calls: Vec::new(),
        }
    }
}

/// A copy of the tool calls `v`.
pub(crate) fn copy_calls(v: &Vec<PendingToolCall>) -> (r: Vec<PendingToolCall>)
    ensures
        r@ == v@,
{
    let mut out: Vec<PendingToolCall> = Vec::new();
    let n = v.len();
    let mut i: usize = 0;
    while i < n
        invariant
            n == v@.len(),
            i <= n,
            out@ == v@.take(i as int),
        decreases n - i,
    {
        out.push(
            PendingToolCall {
                id: copy_string(&v[i].id),
                name: copy_string(&v[i].name),
                arguments: copy_string(&v[i].arguments),
            },
        );
        assert(out@ =~= v@.take(i + 1));
        i = i + 1;
    }
    assert(v@.take(n as int) =~= v@);
    out
}

/// A message as values: role, text, answered tool call and tool calls.
pub type MessageView = (String, Option<String>, Option<String>, Seq<PendingToolCall>);

/// The values of message `m`.
pub open spec fn message_view(m: ChatMessage) -> MessageView {
    (m.role, m.content, m.tool_call_id, m.tool_calls@)
}

/// The values of messages `s`, in order.
pub open spec fn messages_view(s: Seq<ChatMessage>) -> Seq<MessageView> {
    s.map_values(|m: ChatMessage| message_view(m))
}

/// A copy of message `m`.
pub(crate) fn copy_message(m: &ChatMessage) -> (r: ChatMessage)
    ensures
        message_view(r) == message_view(*m),
{
    ChatMessage {
        role: copy_string(&m.role),
        content: copy_opt(&m.content),
        tool_call_id: copy_opt(&m.tool_call_id),
        tool_calls: copy_calls(&m.tool_calls),
    }
}

/// A copy of `s`.
pub(crate) fn copy_string(s: &String) -> (r: String)
    ensures
        r == *s,
{
    s.clone()
}

/// A copy of `o`.
pub(crate) fn copy_opt(o: &Option<String>) -> (r: Option<String>)
    ensures
        r == *o,
{
    match o {
        Some(s) => Some(s.clone()),
        None => None,
    }
}

/// A copy of the messages `v`.
pub(crate) fn copy_messages(v: &Vec<ChatMessage>) -> (r: Vec<ChatMessage>)
    ensures
        messages_view(r@) == messages_view(v@),
{
    let mut out: Vec<ChatMessage> = Vec::new();
    let n = v.len();
    let mut i: usize = 0;
    while i < n
        invariant
            n == v@.len(),
            i <= n,
            messages_view(out@) == messages_view(v@.take(i as int)),
        decreases n - i,
    {
        let ghost before = out@;
        out.push(copy_message(&v[i]));
        assert(messages_view(out@) =~= messages_view(before).push(message_view(v@[i as int])));
        assert(messages_view(v@.take(i + 1)) =~= messages_view(v@.take(i as int)).push(
            message_view(v@[i as int]),
        ));
        i = i + 1;
    }
    assert(v@.take(n as int) =~= v@);
    out
}

/// A tool call the model asked for that has not run yet.
pub struct PendingToolCall {
    pub id: String,
    pub name: String,
    pub arguments: String,
}

/// How an assistant block is displayed.
#[derive(Clone, Copy, Debug, PartialEq, Eq, Structural)]
pub enum ViewMode {
    Rendered,
    Raw,
}

/// What a chat block holds.
pub enum BlockBody {
    User(String),
    Assistant(String),
    ToolResult { name: String, summary: String, success: bool },
}

/// One block of the chat stream.
pub struct Block {
    pub id: u64,
    pub body: BlockBody,
    pub view_mode: ViewMode,
    pub model: Option<String>,
}

/// The text a block body shows: the message for user and assistant blocks, the
/// summary for a tool result.
pub open spec fn body_text(b: BlockBody) -> Seq<char> {
    match b {
        BlockBody::User(s) => s@,
        BlockBody::Assistant(s) => s@,
        BlockBody::ToolResult { summary, .. } => summary@,
    }
}

impl BlockBody {
    /// The text the body shows (see `body_text`).
    pub fn to_text(&self) -> (r: String)
        ensures
            r@ == body_text(*self),
    {
        match self {
            BlockBody::User(s) => s.clone(),
            BlockBody::Assistant(s) => s.clone(),
            BlockBody::ToolResult { summary, .. } => summary.clone(),
        }
    }
}

/// A chat block as it is stored with its session.
pub struct PersistedBlock {
    pub id: u64,
    pub role: String,
    pub content: String,
    pub model: String,
}

/// A session that is not on screen.
pub struct InactiveSession {
    pub id: u64,
    pub title: String,
    pub conversation: Vec<ChatMessage>,
    pub blocks: Vec<PersistedBlock>,
    pub next_block_id: u64,
    /// The scroll offset, kept as the bit pattern of the `f32` the view reports.
    pub scroll_y_bits: u32,
}

/// A session as it is written to disk.
pub struct PersistedSessionData {
    pub id: u64,
    pub title: String,
    pub conversation: Vec<ChatMessage>,
    pub blocks: Vec<PersistedBlock>,
    pub next_block_id: u64,
    pub scroll_y_bits: u32,
}

/// Every session as it is written to disk, with the index of the one on screen.
pub struct PersistedAllSessions {
    pub sessions: Vec<PersistedSessionData>,
    pub active_idx: usize,
}

/// Whether the assistant may change files and run commands.
#[derive(Clone, Copy, Debug, PartialEq, Eq, Structural)]
pub enum AgentMode {
    Plan,
    Build,
}

/// The local inference engines the runtime tab can start.
#[derive(Clone, Copy, Debug, PartialEq, Eq, Structural)]
pub enum InferenceEngine {
    XLlm,
    VLlm,
    LlamaServer,
    TabbyMl,
    TabbyApi,
    Ollama,
    Custom,
}

/// Whether `e` serves models from the local model directory.
pub open spec fn is_local_dir_engine(e: InferenceEngine) -> bool {
    e == InferenceEngine::XLlm || e == InferenceEngine::VLlm || e == InferenceEngine::LlamaServer
}

/// The steps of closing the window, in the order they happen.
#[derive(Clone, Copy, Debug, PartialEq, Eq, Structural)]
pub enum CloseLifecycleEvent {
    CancelStreamAndMcp,
    ReapInferenceAndPty,
    Persist,
    MarkClean,
    CloseWindow,
}

/// Outside work the application asks the surrounding program to carry out.
pub enum Effect {
    /// Abort the chat stream request and the MCP tool calls in flight, if any.
    AbortChatRequests,
    /// Stop the owned inference runtime and terminal, then report back.
    ReapOwnedProcesses,
    /// Store the provider base URL.
    PersistTabbyBaseUrl(String),
    /// Store the OpenAI-compatible provider label.
    PersistOpenAiCompatLabel(String),
    /// Remove the stored provider base URL.
    ClearStoredTabbyBaseUrl,
    /// Remove the stored provider token.
    ClearStoredTabbyToken,
    /// Store the selected model id.
    PersistSelectedModel(String),
    /// Store the model download directory.
    PersistModelDir(String),
    /// List the provider's models at `url`, then report the result.
    FetchTabbyModels { url: String, token: Option<String> },
    /// Wait `delay_secs` seconds, then retry listing the provider's models if
    /// the retry generation is still `generation`.
    RetryTabbyModels { delay_secs: u64, generation: u64 },
    /// Store the path of the inference binary or launcher script.
    PersistInferenceBinary(String),
    /// Remove the stored path of the inference binary or launcher script.
    ClearStoredInferenceBinary,
    /// Store the start command of the custom engine.
    PersistInferenceCommand(String),
    /// Store the provider URL and token, then report the outcome.
    SaveTabbySettings { url: String, token_text: String },
}

} // verus!
