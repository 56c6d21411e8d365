//! The tool exchange of a streamed reply: the tool calls the model asked for
//! are answered (read-only ones at once, MCP ones by their servers, writing
//! ones after the user approves them), and the next reply is then requested.
use crate::mcp_servers::{McpServer, McpTool};
use crate::model::{
    copy_calls, copy_messages, copy_string, messages_view, Block, BlockBody, ChatMessage,
    LlmProvider, PendingToolCall, ViewMode,
};
use crate::selection::{provider_route, selected_index, StoredCredentials};
use crate::seqs::{first_where, lemma_first_where, lemma_first_where_is, lemma_first_where_none};
use crate::send::{model_or_empty, ChatRequest};
use crate::state::{next_generation, App, UiState};
use crate::summary::{summarize_tool_result, tool_succeeded, tool_summary};
use crate::text::{dec, decimal, opt_view, str_equals};
use vstd::prelude::*;

verus! {

/// The number of tool rounds the status line counts against.
pub const MAX_TOOL_ROUNDS: u32 = 10;

/// The next reply of a tool exchange: the request, and the stream generation
/// its chunks are tagged with.
pub struct NextStream {
    pub request: ChatRequest,
    pub stream_generation: u64,
}

/// One MCP tool call: the server that offers the tool, if it is still
/// registered, the tool, the call id and the JSON arguments.
pub struct McpCall {
    pub server: Option<McpServer>,
    pub tool_name: String,
    pub call_id: String,
    pub arguments: String,
}

/// A tool call that ran after the user approved it, with what it returned.
pub struct ToolExecutionResult {
    pub id: String,
    pub name: String,
    pub arguments: String,
    pub result: String,
}

/// What a step of the tool exchange asks the surrounding program to do.
pub enum ToolStep {
    /// Nothing now: answers or an approval are awaited, or the event was stale.
    Wait,
    /// Call these MCP tools; each answer comes back under `generation`.
    CallMcp { generation: u64, calls: Vec<McpCall> },
    /// Run these approved calls; their results come back under `generation`.
    RunApproved { generation: u64, approved: Vec<PendingToolCall> },
    /// Stream the next reply.
    Stream(NextStream),
    /// Running the approved calls of the reply streaming into block
    /// `block_id` failed with `error`; the reply is to be failed with it.
    Failed { block_id: u64, error: String },
}

/// The status line while the reply of tool round `n` is generated.
pub open spec fn round_status(n: nat) -> Seq<char> {
    "응답 생성 중… (도구 라운드 "@ + dec(n) + "/"@ + dec(MAX_TOOL_ROUNDS as nat) + ")"@
}

/// Whether `f` and `r` are the outcome of requesting the next reply of the
/// tool exchange in state `o`, the status reading `status` unless the provider
/// cannot be used: with no reply streaming nothing is requested; when the
/// provider route fails its reason is shown and the stream is given up;
/// otherwise the conversation goes to the selected model under a new stream
/// generation, whose key replaces that of the request in flight.
pub open spec fn stream_kicked(
    o: App,
    f: App,
    stored: StoredCredentials,
    r: Option<NextStream>,
    status: Seq<char>,
) -> bool {
    match o.streaming_block_id {
        None => {
            &&& r is None
            &&& f.status@ == status
            &&& f == (App { status: f.status, ..o })
        },
        Some(block_id) => match provider_route(o, stored) {
            Err(e) => {
                &&& r is None
                &&& f.status@ == e
                &&& f.streaming_block_id is None
                &&& f.streaming_block_idx is None
                &&& f.streaming_raw@.len() == 0
                &&& f.abort_handle is None
                &&& f == (App {
                    status: f.status,
                    streaming_block_id: f.streaming_block_id,
                    streaming_block_idx: f.streaming_block_idx,
                    streaming_raw: f.streaming_raw,
                    abort_handle: f.abort_handle,
                    ..o
                })
            },
            Ok(route) => {
                &&& r matches Some(s) && {
                    &&& s.request.base_url@ == route.0
                    &&& opt_view(s.request.api_key) == route.1
                    &&& s.request.model@ == model_or_empty(o.selected_model)
                    &&& messages_view(s.request.messages@) == messages_view(o.conversation@)
                    &&& s.request.with_tools == (selected_index(o) >= 0 && o.model_options@[selected_index(
                        o,
                    )].provider == LlmProvider::OpenRouter)
                    &&& s.request.block_id == block_id
                    &&& s.stream_generation == next_generation(o.stream_generation)
                    &&& f.stream_generation == s.stream_generation
                    &&& f.abort_handle == Some(s.stream_generation)
                }
                &&& f.status@ == status
                &&& f == (App {
                    status: f.status,
                    stream_generation: f.stream_generation,
                    abort_handle: f.abort_handle,
                    ..o
                })
            },
        },
    }
}

/// Whether `m` is the result `text` of tool call `id`.
pub open spec fn is_tool_result(m: ChatMessage, id: Seq<char>, text: Seq<char>) -> bool {
    &&& m.role@ == "tool"@
    &&& m.content matches Some(c) && c@ == text
    &&& m.tool_call_id matches Some(i) && i@ == id
    &&& m.tool_calls@.len() == 0
}

/// Whether `after` is `before` followed by the result `texts[j]` of call
/// `ids[j]` for each `j`, in order.
pub open spec fn results_appended(
    before: Seq<ChatMessage>,
    after: Seq<ChatMessage>,
    ids: Seq<Seq<char>>,
    texts: Seq<Seq<char>>,
) -> bool {
    &&& ids.len() == texts.len()
    &&& after.len() == before.len() + ids.len()
    &&& after.take(before.len() as int) == before
    &&& forall|j: int|
        0 <= j < ids.len() ==> is_tool_result(
            #[trigger] after.skip(before.len() as int)[j],
            ids[j],
            texts[j],
        )
}

/// Whether `b` is the tool-result block `id` for tool `name` with chip text
/// `summary` and success flag `ok`.
pub open spec fn is_result_block(b: Block, id: int, name: Seq<char>, summary: Seq<char>, ok: bool) -> bool {
    &&& b.id == id
    &&& b.view_mode == ViewMode::Rendered
    &&& b.model is None
    &&& b.body matches BlockBody::ToolResult { name: n, summary: s, success: k } && n@ == name && s@
        == summary && k == ok
}

/// Whether `after` is `before` followed by one tool-result block per entry of
/// `names`, with ids counting up from `first_id`.
pub open spec fn result_blocks_appended(
    before: Seq<Block>,
    after: Seq<Block>,
    first_id: int,
    names: Seq<Seq<char>>,
    summaries: Seq<Seq<char>>,
    oks: Seq<bool>,
) -> bool {
    &&& names.len() == summaries.len() == oks.len()
    &&& after.len() == before.len() + names.len()
    &&& after.take(before.len() as int) == before
    &&& forall|j: int|
        0 <= j < names.len() ==> is_result_block(
            #[trigger] after.skip(before.len() as int)[j],
            first_id + j,
            names[j],
            summaries[j],
            oks[j],
        )
}

/// The ids of `calls`.
pub open spec fn call_ids(calls: Seq<PendingToolCall>) -> Seq<Seq<char>> {
    calls.map_values(|c: PendingToolCall| c.id@)
}

/// The tool names of `calls`.
pub open spec fn call_names(calls: Seq<PendingToolCall>) -> Seq<Seq<char>> {
    calls.map_values(|c: PendingToolCall| c.name@)
}

/// `n` copies of `t`.
pub open spec fn repeated<T>(t: T, n: nat) -> Seq<T> {
    Seq::new(n, |j: int| t)
}

proof fn lemma_results_push(
    before: Seq<ChatMessage>,
    after: Seq<ChatMessage>,
    ids: Seq<Seq<char>>,
    texts: Seq<Seq<char>>,
    m: ChatMessage,
    id: Seq<char>,
    text: Seq<char>,
)
    requires
        results_appended(before, after, ids, texts),
        is_tool_result(m, id, text),
    ensures
        results_appended(before, after.push(m), ids.push(id), texts.push(text)),
{
    let a = after.push(m);
    let k = before.len() as int;
    assert(a.take(k) =~= after.take(k));
    assert forall|j: int| 0 <= j < ids.len() + 1 implies is_tool_result(
        #[trigger] a.skip(k)[j],
        ids.push(id)[j],
        texts.push(text)[j],
    ) by {
        if j < ids.len() {
            assert(a.skip(k)[j] == after.skip(k)[j]);
        } else {
            assert(a.skip(k)[j] == m);
        }
    }
}

proof fn lemma_result_blocks_push(
    before: Seq<Block>,
    after: Seq<Block>,
    first_id: int,
    names: Seq<Seq<char>>,
    summaries: Seq<Seq<char>>,
    oks: Seq<bool>,
    b: Block,
    name: Seq<char>,
    summary: Seq<char>,
    ok: bool,
)
    requires
        result_blocks_appended(before, after, first_id, names, summaries, oks),
        is_result_block(b, first_id + names.len(), name, summary, ok),
    ensures
        result_blocks_appended(
            before,
            after.push(b),
            first_id,
            names.push(name),
            summaries.push(summary),
            oks.push(ok),
        ),
{
    let a = after.push(b);
    let k = before.len() as int;
    assert(a.take(k) =~= after.take(k));
    assert forall|j: int| 0 <= j < names.len() + 1 implies is_result_block(
        #[trigger] a.skip(k)[j],
        first_id + j,
        names.push(name)[j],
        summaries.push(summary)[j],
        oks.push(ok)[j],
    ) by {
        if j < names.len() {
            assert(a.skip(k)[j] == after.skip(k)[j]);
        } else {
            assert(a.skip(k)[j] == b);
        }
    }
}

fn round_status_text(n: u32) -> (r: String)
    ensures
        r@ == round_status(n as nat),
{
    let mut s = String::from_str("응답 생성 중… (도구 라운드 ");
    s.append(decimal(n as u64).as_str());
    s.append("/");
    s.append(decimal(MAX_TOOL_ROUNDS as u64).as_str());
    s.append(")");
    s
}

impl App {
    /// Requests the next reply of the tool exchange (see `stream_kicked`, the
    /// status unchanged when it goes out).
    pub fn kick_chat_stream(&mut self, stored: &StoredCredentials) -> (r: Option<NextStream>)
        ensures
            stream_kicked(*old(self), *final(self), *stored, r, old(self).status@),
    {
        let block_id = match self.streaming_block_id {
            Some(id) => id,
            None => {
                return None;
            },
        };
        self.abort_handle = None;
        let (base_url, api_key) = match self.resolve_provider(stored) {
            Ok(v) => v,
            Err(e) => {
                self.status = e;
                self.streaming_block_id = None;
                self.streaming_block_idx = None;
                self.streaming_raw = String::new();
                return None;
            },
        };
        let model = match &self.selected_model {
            Some(m) => copy_string(m),
            None => String::new(),
        };
        let messages = copy_messages(&self.conversation);
        let with_tools = self.selected_model_supports_tools();
        let stream_generation = self.next_stream_generation();
        self.abort_handle = Some(stream_generation);
        Some(
            NextStream {
                request: ChatRequest { base_url, api_key, model, messages, with_tools, block_id },
                stream_generation,
            },
        )
    }

    /// Counts a finished tool round and requests the next reply, the status
    /// showing the round.
    fn next_round(&mut self, stored: &StoredCredentials) -> (r: Option<NextStream>)
        requires
            old(self).tool_round < u32::MAX,
        ensures
            stream_kicked(
                App { tool_round: (old(self).tool_round + 1) as u32, ..*old(self) },
                *final(self),
                *stored,
                r,
                round_status((old(self).tool_round + 1) as nat),
            ),
    {
        self.tool_round = self.tool_round + 1;
        self.status = round_status_text(self.tool_round);
        self.kick_chat_stream(stored)
    }
}

/// The reply a tool step asks to stream, if any.
pub open spec fn streamed(r: ToolStep) -> Option<NextStream> {
    match r {
        ToolStep::Stream(n) => Some(n),
        _ => None,
    }
}

/// A tool step that streams `s` when there is one, else waits.
fn stream_or_wait(s: Option<NextStream>) -> (r: ToolStep)
    ensures
        r is Wait || r is Stream,
        streamed(r) == s,
{
    match s {
        Some(n) => ToolStep::Stream(n),
        None => ToolStep::Wait,
    }
}

/// Whether an MCP answer tagged `generation` is awaited in `o`: the window is
/// not closing, the tag is the current MCP request generation and answers are
/// outstanding.
pub open spec fn mcp_answer_awaited(o: App, generation: u64) -> bool {
    &&& !o.close_in_progress
    &&& generation == o.mcp_request_generation
    &&& o.mcp_pending_results > 0
}

/// The tool result recorded when the user turns down a write.
pub open spec fn denied_text() -> Seq<char> {
    "[denied] 사용자가 파일 쓰기를 거부했습니다."@
}

/// The tool result recorded when the user leaves one call out.
pub open spec fn discarded_text() -> Seq<char> {
    "[denied] 사용자가 이 도구 호출을 제외했습니다."@
}

/// Whether `f` and `r` are the outcome, from `o`, of going on once the user
/// decided on the pending writes. Approved writes are handed out to run,
/// tagged with the stream generation, whose key then marks the run in flight.
/// Turned-down writes each get a `denied` chip and a refusal as their result;
/// then, unless MCP answers are still outstanding, the next round starts.
pub open spec fn writes_continued(o: App, f: App, stored: StoredCredentials, approved: bool, r: ToolStep) -> bool {
    let calls = o.pending_write_calls@;
    let n = calls.len();
    let ui = UiState { show_write_confirm: false, ..o.ui };
    &&& f.pending_write_calls@.len() == 0
    &&& approved ==> {
        &&& r matches ToolStep::RunApproved { generation, approved: a } && a@ == calls
            && generation == o.stream_generation
        &&& f.status@ == "도구 실행 중…"@
        &&& f == (App {
            pending_write_calls: f.pending_write_calls,
            ui,
            tool_execution_pending: true,
            status: f.status,
            abort_handle: Some(o.stream_generation),
            ..o
        })
    }
    &&& !approved ==> {
        let mid = App {
            conversation: f.conversation,
            blocks: f.blocks,
            next_block_id: (o.next_block_id + n) as u64,
            pending_write_calls: f.pending_write_calls,
            ui,
            tool_execution_pending: false,
            ..o
        };
        &&& results_appended(
            o.conversation@,
            f.conversation@,
            call_ids(calls),
            repeated(denied_text(), n),
        )
        &&& result_blocks_appended(
            o.blocks@,
            f.blocks@,
            o.next_block_id as int,
            call_names(calls),
            repeated("denied"@, n),
            repeated(false, n),
        )
        &&& o.mcp_pending_results > 0 ==> {
            &&& r is Wait
            &&& f.status@ == "MCP tool 실행 중…"@
            &&& f == (App { status: f.status, ..mid })
        }
        &&& o.mcp_pending_results == 0 ==> {
            &&& r is Wait || r is Stream
            &&& stream_kicked(
                App { tool_round: (o.tool_round + 1) as u32, ..mid },
                f,
                stored,
                streamed(r),
                round_status((o.tool_round + 1) as nat),
            )
        }
    }
}

/// Whether `o` can take the user's decision on its pending writes without an
/// overflow: room for a block id per turned-down write, and for one more tool
/// round when it starts.
pub open spec fn writes_decidable(o: App, approved: bool) -> bool {
    !approved ==> {
        &&& o.next_block_id + o.pending_write_calls@.len() < u64::MAX
        &&& o.mcp_pending_results == 0 ==> o.tool_round < u32::MAX
    }
}

/// The confirm row to keep open once row `idx` leaves the list.
pub open spec fn expansion_after_removal(e: Option<usize>, idx: usize) -> Option<usize> {
    match e {
        Some(x) => if x == idx {
            None
        } else if x > idx {
            Some((x - 1) as usize)
        } else {
            Some(x)
        },
        None => None,
    }
}

impl App {
    /// Takes the answer `result` of MCP call `tool_call_id` tagged
    /// `generation`. An answer that is not awaited (see `mcp_answer_awaited`)
    /// changes nothing. Otherwise it joins the conversation; once the last
    /// outstanding answer is in, the MCP key is dropped and, unless writes
    /// await approval, the next round starts.
    pub fn on_mcp_tool_result(
        &mut self,
        generation: u64,
        tool_call_id: &str,
        result: String,
        stored: &StoredCredentials,
    ) -> (r: ToolStep)
        requires
            mcp_answer_awaited(*old(self), generation) && old(self).mcp_pending_results == 1
                && old(self).pending_write_calls@.len() == 0 ==> old(self).tool_round < u32::MAX,
        ensures
            ({
                let o = *old(self);
                let f = *final(self);
                &&& !mcp_answer_awaited(o, generation) ==> r is Wait && f == o
                &&& mcp_answer_awaited(o, generation) ==> {
                    let left = (o.mcp_pending_results - 1) as usize;
                    &&& f.conversation@.len() == o.conversation@.len() + 1
                    &&& f.conversation@.drop_last() == o.conversation@
                    &&& is_tool_result(f.conversation@.last(), tool_call_id@, result@)
                    &&& left > 0 ==> r is Wait && f == (App {
                        conversation: f.conversation,
                        mcp_pending_results: left,
                        ..o
                    })
                    &&& left == 0 && o.pending_write_calls@.len() > 0 ==> r is Wait && f == (App {
                        conversation: f.conversation,
                        mcp_pending_results: 0,
                        mcp_abort_handle: None,
                        ..o
                    })
                    &&& left == 0 && o.pending_write_calls@.len() == 0 ==> {
                        &&& r is Wait || r is Stream
                        &&& stream_kicked(
                            App {
                                conversation: f.conversation,
                                mcp_pending_results: 0,
                                mcp_abort_handle: None,
                                tool_round: (o.tool_round + 1) as u32,
                                ..o
                            },
                            f,
                            *stored,
                            streamed(r),
                            o.status@,
                        )
                    }
                }
            }),
    {
        if self.close_in_progress || generation != self.mcp_request_generation
            || self.mcp_pending_results == 0 {
            return ToolStep::Wait;
        }
        let ghost before = self.conversation@;
        self.conversation.push(ChatMessage::tool_result(tool_call_id, result));
        assert(self.conversation@.drop_last() =~= before);
        self.mcp_pending_results = self.mcp_pending_results - 1;
        if self.mcp_pending_results > 0 {
            return ToolStep::Wait;
        }
        self.mcp_abort_handle = None;
        if self.pending_write_calls.len() > 0 {
            return ToolStep::Wait;
        }
        self.tool_round = self.tool_round + 1;
        let s = self.kick_chat_stream(stored);
        stream_or_wait(s)
    }

    /// Goes on once the user decided on the pending writes (see
    /// `writes_continued`).
    pub fn continue_after_writes(&mut self, approved: bool, stored: &StoredCredentials) -> (r: ToolStep)
        requires
            writes_decidable(*old(self), approved),
        ensures
            writes_continued(*old(self), *final(self), *stored, approved, r),
    {
        let mut calls: Vec<PendingToolCall> = Vec::new();
        std::mem::swap(&mut calls, &mut self.pending_write_calls);
        self.ui.show_write_confirm = false;
        if approved {
            self.tool_execution_pending = true;
            self.status = String::from_str("도구 실행 중…");
            let generation = self.stream_generation;
            self.abort_handle = Some(generation);
            return ToolStep::RunApproved { generation, approved: calls };
        }
        self.tool_execution_pending = false;
        let ghost o = *old(self);
        let ghost conv0 = self.conversation@;
        let ghost blocks0 = self.blocks@;
        let ghost mid0 = *self;
        let n = calls.len();
        let mut j: usize = 0;
        assert(conv0.take(conv0.len() as int) =~= conv0);
        assert(blocks0.take(blocks0.len() as int) =~= blocks0);
        assert(call_ids(calls@).take(0) =~= Seq::<Seq<char>>::empty());
        assert(call_names(calls@).take(0) =~= Seq::<Seq<char>>::empty());
        assert(repeated(denied_text(), 0) =~= Seq::<Seq<char>>::empty());
        assert(repeated("denied"@, 0) =~= Seq::<Seq<char>>::empty());
        assert(repeated(false, 0) =~= Seq::<bool>::empty());
        while j < n
            invariant
                n == calls@.len(),
                j <= n,
                calls@ == o.pending_write_calls@,
                conv0 == o.conversation@,
                blocks0 == o.blocks@,
                o.next_block_id + n < u64::MAX,
                self.next_block_id == o.next_block_id + j,
                results_appended(
                    conv0,
                    self.conversation@,
                    call_ids(calls@).take(j as int),
                    repeated(denied_text(), j as nat),
                ),
                result_blocks_appended(
                    blocks0,
                    self.blocks@,
                    o.next_block_id as int,
                    call_names(calls@).take(j as int),
                    repeated("denied"@, j as nat),
                    repeated(false, j as nat),
                ),
                *self == (App {
                    conversation: self.conversation,
                    blocks: self.blocks,
                    next_block_id: self.next_block_id,
                    ..mid0
                }),
            decreases n - j,
        {
            let ghost blocks_before = self.blocks@;
            let ghost conv_before = self.conversation@;
            self.push_tool_result_block(calls[j].name.as_str(), "denied", false);
            self.conversation.push(
                ChatMessage::tool_result(
                    calls[j].id.as_str(),
                    String::from_str("[denied] 사용자가 파일 쓰기를 거부했습니다."),
                ),
            );
            proof {
                reveal_strlit("denied");
                reveal_strlit("[denied] 사용자가 파일 쓰기를 거부했습니다.");
                assert(blocks_before.push(self.blocks@.last()) =~= self.blocks@);
                lemma_result_blocks_push(
                    blocks0,
                    blocks_before,
                    o.next_block_id as int,
                    call_names(calls@).take(j as int),
                    repeated("denied"@, j as nat),
                    repeated(false, j as nat),
                    self.blocks@.last(),
                    calls@[j as int].name@,
                    "denied"@,
                    false,
                );
                assert(call_names(calls@).take(j as int).push(calls@[j as int].name@) =~= call_names(
                    calls@,
                ).take(j + 1));
                assert(repeated("denied"@, j as nat).push("denied"@) =~= repeated("denied"@, (j + 1) as nat));
                assert(repeated(false, j as nat).push(false) =~= repeated(false, (j + 1) as nat));
                lemma_results_push(
                    conv0,
                    conv_before,
                    call_ids(calls@).take(j as int),
                    repeated(denied_text(), j as nat),
                    self.conversation@.last(),
                    calls@[j as int].id@,
                    denied_text(),
                );
                assert(conv_before.push(self.conversation@.last()) =~= self.conversation@);
                assert(call_ids(calls@).take(j as int).push(calls@[j as int].id@) =~= call_ids(
                    calls@,
                ).take(j + 1));
                assert(repeated(denied_text(), j as nat).push(denied_text()) =~= repeated(
                    denied_text(),
                    (j + 1) as nat,
                ));
            }
            j = j + 1;
        }
        assert(call_ids(calls@).take(n as int) =~= call_ids(calls@));
        assert(call_names(calls@).take(n as int) =~= call_names(calls@));
        if self.mcp_pending_results > 0 {
            self.status = String::from_str("MCP tool 실행 중…");
            return ToolStep::Wait;
        }
        let s = self.next_round(stored);
        stream_or_wait(s)
    }

    /// Approves the pending writes (see `writes_continued`).
    pub fn approve_pending_writes(&mut self, stored: &StoredCredentials) -> (r: ToolStep)
        ensures
            writes_continued(
                App { ui: UiState { expanded_confirm_idx: None, ..old(self).ui }, ..*old(self) },
                *final(self),
                *stored,
                true,
                r,
            ),
    {
        self.ui.expanded_confirm_idx = None;
        self.continue_after_writes(true, stored)
    }

    /// Turns down the pending writes (see `writes_continued`).
    pub fn deny_pending_writes(&mut self, stored: &StoredCredentials) -> (r: ToolStep)
        requires
            writes_decidable(*old(self), false),
        ensures
            writes_continued(
                App { ui: UiState { expanded_confirm_idx: None, ..old(self).ui }, ..*old(self) },
                *final(self),
                *stored,
                false,
                r,
            ),
    {
        self.ui.expanded_confirm_idx = None;
        self.continue_after_writes(false, stored)
    }

    /// Leaves pending write `idx` out, if there is one: it gets a `discarded`
    /// chip and a refusal as its result, the open confirm row follows the
    /// list, and when it was the last one the (now empty) approval goes on.
    #[verifier::rlimit(50)]
    #[verifier::spinoff_prover]
    pub fn discard_write_call(&mut self, idx: usize, stored: &StoredCredentials) -> (r: ToolStep)
        requires
            old(self).next_block_id < u64::MAX,
        ensures
            ({
                let o = *old(self);
                let f = *final(self);
                &&& idx >= o.pending_write_calls@.len() ==> r is Wait && f == o
                &&& idx < o.pending_write_calls@.len() ==> {
                    let tc = o.pending_write_calls@[idx as int];
                    let rest = o.pending_write_calls@.remove(idx as int);
                    &&& f.blocks@.len() == o.blocks@.len() + 1
                    &&& f.blocks@.drop_last() == o.blocks@
                    &&& is_result_block(
                        f.blocks@.last(),
                        o.next_block_id as int,
                        tc.name@,
                        "discarded"@,
                        false,
                    )
                    &&& f.conversation@.len() == o.conversation@.len() + 1
                    &&& f.conversation@.drop_last() == o.conversation@
                    &&& is_tool_result(f.conversation@.last(), tc.id@, discarded_text())
                    &&& f.next_block_id == o.next_block_id + 1
                    &&& f.ui.expanded_confirm_idx == expansion_after_removal(
                        o.ui.expanded_confirm_idx,
                        idx,
                    )
                    &&& rest.len() > 0 ==> {
                        &&& r is Wait
                        &&& f.pending_write_calls@ == rest
                        &&& f == (App {
                            blocks: f.blocks,
                            conversation: f.conversation,
                            next_block_id: f.next_block_id,
                            pending_write_calls: f.pending_write_calls,
                            ui: UiState { expanded_confirm_idx: f.ui.expanded_confirm_idx, ..o.ui },
                            ..o
                        })
                    }
                    &&& rest.len() == 0 ==> writes_continued(
                        App {
                            blocks: f.blocks,
                            conversation: f.conversation,
                            next_block_id: f.next_block_id,
                            pending_write_calls: f.pending_write_calls,
                            ui: UiState { expanded_confirm_idx: f.ui.expanded_confirm_idx, ..o.ui },
                            ..o
                        },
                        f,
                        *stored,
                        true,
                        r,
                    )
                }
            }),
    {
        if idx >= self.pending_write_calls.len() {
            return ToolStep::Wait;
        }
        let tc = self.pending_write_calls.remove(idx);
        let ghost blocks0 = self.blocks@;
        let ghost conv0 = self.conversation@;
        self.push_tool_result_block(tc.name.as_str(), "discarded", false);
        self.conversation.push(
            ChatMessage::tool_result(
                tc.id.as_str(),
                String::from_str("[denied] 사용자가 이 도구 호출을 제외했습니다."),
            ),
        );
        assert(self.conversation@.drop_last() =~= conv0);
        proof {
            reveal_strlit("discarded");
            reveal_strlit("[denied] 사용자가 이 도구 호출을 제외했습니다.");
        }
        self.ui.expanded_confirm_idx = match self.ui.expanded_confirm_idx {
            Some(e) => if e == idx {
                None
            } else if e > idx {
                Some(e - 1)
            } else {
                Some(e)
            },
            None => None,
        };
        if self.pending_write_calls.len() == 0 {
            let ghost mid = *self;
            let r = self.continue_after_writes(true, stored);
            assert(mid.pending_write_calls@ =~= self.pending_write_calls@);
            assert(writes_continued(mid, *self, *stored, true, r));
            assert(mid == (App {
                blocks: self.blocks,
                conversation: self.conversation,
                next_block_id: self.next_block_id,
                pending_write_calls: mid.pending_write_calls,
                ui: UiState { expanded_confirm_idx: self.ui.expanded_confirm_idx, ..old(self).ui },
                ..*old(self)
            }));
            return r;
        }
        ToolStep::Wait
    }
}

/// The ids of the executed calls `rs`.
pub open spec fn executed_ids(rs: Seq<ToolExecutionResult>) -> Seq<Seq<char>> {
    rs.map_values(|t: ToolExecutionResult| t.id@)
}

/// The tool names of the executed calls `rs`.
pub open spec fn executed_names(rs: Seq<ToolExecutionResult>) -> Seq<Seq<char>> {
    rs.map_values(|t: ToolExecutionResult| t.name@)
}

/// What the executed calls `rs` returned.
pub open spec fn executed_texts(rs: Seq<ToolExecutionResult>) -> Seq<Seq<char>> {
    rs.map_values(|t: ToolExecutionResult| t.result@)
}

/// The chip texts of the executed calls `rs`.
pub open spec fn executed_summaries(rs: Seq<ToolExecutionResult>) -> Seq<Seq<char>> {
    rs.map_values(|t: ToolExecutionResult| tool_summary(t.name@, t.arguments@, t.result@))
}

/// The success flags of the executed calls `rs`.
pub open spec fn executed_oks(rs: Seq<ToolExecutionResult>) -> Seq<bool> {
    rs.map_values(|t: ToolExecutionResult| tool_succeeded(t.result@))
}

/// Whether the outcome of approved calls tagged `generation` is awaited in
/// `o`: the tag is the current stream generation and a reply is streaming.
pub open spec fn approved_run_awaited(o: App, generation: u64) -> bool {
    generation == o.stream_generation && o.streaming_block_id is Some
}

impl App {
    /// Takes the outcome of the approved calls tagged `generation`. A stale
    /// outcome changes nothing. Otherwise the run is over and its key is
    /// dropped; a failed run fails the reply; each result gets its chip and
    /// joins the conversation, and then, unless MCP answers are still
    /// outstanding, the next round starts.
    pub fn on_approved_tools_finished(
        &mut self,
        generation: u64,
        result: Result<Vec<ToolExecutionResult>, String>,
        stored: &StoredCredentials,
    ) -> (r: ToolStep)
        requires
            approved_run_awaited(*old(self), generation) ==> match result {
                Ok(rs) => {
                    &&& old(self).next_block_id + rs@.len() < u64::MAX
                    &&& old(self).mcp_pending_results == 0 ==> old(self).tool_round < u32::MAX
                },
                Err(_) => true,
            },
        ensures
            ({
                let o = *old(self);
                let f = *final(self);
                &&& !approved_run_awaited(o, generation) ==> r is Wait && f == o
                &&& approved_run_awaited(o, generation) ==> match result {
                    Err(e) => {
                        &&& r matches ToolStep::Failed { block_id, error } && block_id
                            == o.streaming_block_id->0 && error == e
                        &&& f == (App { tool_execution_pending: false, abort_handle: None, ..o })
                    },
                    Ok(rs) => {
                        let n = rs@.len();
                        let mid = App {
                            conversation: f.conversation,
                            blocks: f.blocks,
                            next_block_id: (o.next_block_id + n) as u64,
                            tool_execution_pending: false,
                            abort_handle: None,
                            ..o
                        };
                        &&& results_appended(
                            o.conversation@,
                            f.conversation@,
                            executed_ids(rs@),
                            executed_texts(rs@),
                        )
                        &&& result_blocks_appended(
                            o.blocks@,
                            f.blocks@,
                            o.next_block_id as int,
                            executed_names(rs@),
                            executed_summaries(rs@),
                            executed_oks(rs@),
                        )
                        &&& o.mcp_pending_results > 0 ==> {
                            &&& r is Wait
                            &&& f.status@ == "MCP tool 실행 중…"@
                            &&& f == (App { status: f.status, ..mid })
                        }
                        &&& o.mcp_pending_results == 0 ==> {
                            &&& r is Wait || r is Stream
                            &&& stream_kicked(
                                App { tool_round: (o.tool_round + 1) as u32, ..mid },
                                f,
                                *stored,
                                streamed(r),
                                round_status((o.tool_round + 1) as nat),
                            )
                        }
                    },
                }
            }),
    {
        let block_id = match self.streaming_block_id {
            Some(id) => id,
            None => {
                return ToolStep::Wait;
            },
        };
        if generation != self.stream_generation {
            return ToolStep::Wait;
        }
        self.tool_execution_pending = false;
        self.abort_handle = None;
        let results = match result {
            Ok(rs) => rs,
            Err(error) => {
                return ToolStep::Failed { block_id, error };
            },
        };
        let ghost o = *old(self);
        let ghost conv0 = self.conversation@;
        let ghost blocks0 = self.blocks@;
        let ghost mid0 = *self;
        let ghost rs = results@;
        let n = results.len();
        let mut j: usize = 0;
        assert(conv0.take(conv0.len() as int) =~= conv0);
        assert(blocks0.take(blocks0.len() as int) =~= blocks0);
        assert(executed_ids(rs).take(0) =~= Seq::<Seq<char>>::empty());
        assert(executed_texts(rs).take(0) =~= Seq::<Seq<char>>::empty());
        assert(executed_names(rs).take(0) =~= Seq::<Seq<char>>::empty());
        assert(executed_summaries(rs).take(0) =~= Seq::<Seq<char>>::empty());
        assert(executed_oks(rs).take(0) =~= Seq::<bool>::empty());
        while j < n
            invariant
                n == results@.len(),
                rs == results@,
                j <= n,
                conv0 == o.conversation@,
                blocks0 == o.blocks@,
                o.next_block_id + n < u64::MAX,
                self.next_block_id == o.next_block_id + j,
                results_appended(
                    conv0,
                    self.conversation@,
                    executed_ids(rs).take(j as int),
                    executed_texts(rs).take(j as int),
                ),
                result_blocks_appended(
                    blocks0,
                    self.blocks@,
                    o.next_block_id as int,
                    executed_names(rs).take(j as int),
                    executed_summaries(rs).take(j as int),
                    executed_oks(rs).take(j as int),
                ),
                *self == (App {
                    conversation: self.conversation,
                    blocks: self.blocks,
                    next_block_id: self.next_block_id,
                    ..mid0
                }),
            decreases n - j,
        {
            let ghost blocks_before = self.blocks@;
            let ghost conv_before = self.conversation@;
            let t = &results[j];
            let (summary, success) = summarize_tool_result(
                t.name.as_str(),
                t.arguments.as_str(),
                t.result.as_str(),
            );
            self.push_tool_result_block(t.name.as_str(), summary.as_str(), success);
            self.conversation.push(ChatMessage::tool_result(t.id.as_str(), copy_string(&t.result)));
            proof {
                assert(blocks_before.push(self.blocks@.last()) =~= self.blocks@);
                lemma_result_blocks_push(
                    blocks0,
                    blocks_before,
                    o.next_block_id as int,
                    executed_names(rs).take(j as int),
                    executed_summaries(rs).take(j as int),
                    executed_oks(rs).take(j as int),
                    self.blocks@.last(),
                    rs[j as int].name@,
                    summary@,
                    success,
                );
                assert(executed_names(rs).take(j as int).push(rs[j as int].name@) =~= executed_names(
                    rs,
                ).take(j + 1));
                assert(executed_summaries(rs).take(j as int).push(summary@) =~= executed_summaries(
                    rs,
                ).take(j + 1));
                assert(executed_oks(rs).take(j as int).push(success) =~= executed_oks(rs).take(
                    j + 1,
                ));
                lemma_results_push(
                    conv0,
                    conv_before,
                    executed_ids(rs).take(j as int),
                    executed_texts(rs).take(j as int),
                    self.conversation@.last(),
                    rs[j as int].id@,
                    rs[j as int].result@,
                );
                assert(conv_before.push(self.conversation@.last()) =~= self.conversation@);
                assert(executed_ids(rs).take(j as int).push(rs[j as int].id@) =~= executed_ids(
                    rs,
                ).take(j + 1));
                assert(executed_texts(rs).take(j as int).push(rs[j as int].result@)
                    =~= executed_texts(rs).take(j + 1));
            }
            j = j + 1;
        }
        assert(executed_ids(rs).take(n as int) =~= executed_ids(rs));
        assert(executed_texts(rs).take(n as int) =~= executed_texts(rs));
        assert(executed_names(rs).take(n as int) =~= executed_names(rs));
        assert(executed_summaries(rs).take(n as int) =~= executed_summaries(rs));
        assert(executed_oks(rs).take(n as int) =~= executed_oks(rs));
        if self.mcp_pending_results > 0 {
            self.status = String::from_str("MCP tool 실행 중…");
            return ToolStep::Wait;
        }
        let s = self.next_round(stored);
        stream_or_wait(s)
    }
}

/// How a requested tool call is answered.
#[derive(Clone, Copy, Debug, PartialEq, Eq, Structural)]
pub enum ToolClass {
    /// By the MCP server that offers it.
    Mcp,
    /// At once, by a built-in tool that only reads.
    Read,
    /// By a built-in tool that writes, once the user approves.
    Write,
}

/// Whether a tool is named `name`.
pub open spec fn tool_named(name: Seq<char>) -> spec_fn(McpTool) -> bool {
    |t: McpTool| t.name@ == name
}

/// Whether a server is named `name`.
pub open spec fn server_called(name: Seq<char>) -> spec_fn(McpServer) -> bool {
    |s: McpServer| s.name@ == name
}

/// Whether an MCP server offers a tool named `name`.
pub open spec fn is_mcp_name(tools: Seq<McpTool>, name: Seq<char>) -> bool {
    first_where(tools, tool_named(name)) >= 0
}

/// How call `c` is answered, `read_only` telling whether its built-in tool
/// only reads: MCP tools go to their server, built-in ones are read or write.
pub open spec fn class_of(tools: Seq<McpTool>, c: PendingToolCall, read_only: bool) -> ToolClass {
    if is_mcp_name(tools, c.name@) {
        ToolClass::Mcp
    } else if read_only {
        ToolClass::Read
    } else {
        ToolClass::Write
    }
}

/// The calls of `calls` answered as `k`, in order, `read_only[i]` telling
/// whether the built-in tool of call `i` only reads.
pub open spec fn calls_of(
    tools: Seq<McpTool>,
    calls: Seq<PendingToolCall>,
    read_only: Seq<bool>,
    k: ToolClass,
) -> Seq<PendingToolCall>
    decreases calls.len(),
{
    if calls.len() == 0 {
        Seq::empty()
    } else {
        let rest = calls_of(tools, calls.drop_last(), read_only, k);
        if class_of(tools, calls.last(), read_only[calls.len() - 1]) == k {
            rest.push(calls.last())
        } else {
            rest
        }
    }
}

/// The index of the server that offers the MCP tool `tool`, or -1: the server
/// named by the first tool so named.
pub open spec fn server_index(o: App, tool: Seq<char>) -> int {
    let t = first_where(o.mcp_tools@, tool_named(tool));
    if t < 0 {
        -1
    } else {
        first_where(o.mcp_servers@, server_called(o.mcp_tools@[t].server_name@))
    }
}

/// Whether `m` is MCP call `c` as sent from state `o`.
pub open spec fn is_mcp_call(o: App, m: McpCall, c: PendingToolCall) -> bool {
    let k = server_index(o, c.name@);
    &&& m.tool_name@ == c.name@
    &&& m.call_id@ == c.id@
    &&& m.arguments@ == c.arguments@
    &&& k < 0 ==> m.server is None
    &&& k >= 0 ==> (m.server matches Some(sv) && sv.name@ == o.mcp_servers@[k].name@
        && sv.command@ == o.mcp_servers@[k].command@)
}

/// Whether `m` is the assistant message that asks for `calls`, with the
/// partial reply as its text when there is one.
pub open spec fn is_tool_call_message(m: ChatMessage, partial: Seq<char>, calls: Seq<PendingToolCall>) -> bool {
    &&& m.role@ == "assistant"@
    &&& partial.len() == 0 ==> m.content is None
    &&& partial.len() > 0 ==> (m.content matches Some(c) && c@ == partial)
    &&& m.tool_call_id is None
    &&& m.tool_calls@ == calls
}

/// The texts of `v`.
pub open spec fn texts(v: Seq<String>) -> Seq<Seq<char>> {
    v.map_values(|s: String| s@)
}

/// Whether `f` and `r` are the outcome of a tool round in state `o`, the reply
/// so far being `partial`, `read_only` classifying the built-in tools and
/// `read_results` holding what the read-only built-in calls returned. The
/// assistant message asking for the calls and the read results join the
/// conversation. MCP calls then go out under a new MCP generation, writes
/// waiting for approval beside them; with no MCP call, writes wait for
/// approval, or else the next round starts.
pub open spec fn tool_round_run(
    o: App,
    f: App,
    stored: StoredCredentials,
    partial: Seq<char>,
    read_only: Seq<bool>,
    read_results: Seq<String>,
    r: ToolStep,
) -> bool {
    let calls = o.pending_tool_calls@;
    let tools = o.mcp_tools@;
    let mcp = calls_of(tools, calls, read_only, ToolClass::Mcp);
    let reads = calls_of(tools, calls, read_only, ToolClass::Read);
    let writes = calls_of(tools, calls, read_only, ToolClass::Write);
    let k = o.conversation@.len() as int;
    let show = UiState { show_write_confirm: true, ..o.ui };
    &&& f.conversation@.take(k) == o.conversation@
    &&& f.conversation@.len() > k
    &&& is_tool_call_message(f.conversation@[k], partial, calls)
    &&& results_appended(
        f.conversation@.take(k + 1),
        f.conversation@,
        call_ids(reads),
        texts(read_results),
    )
    &&& f.pending_tool_calls@.len() == 0
    &&& mcp.len() > 0 ==> {
        let g = next_generation(o.mcp_request_generation);
        &&& r matches ToolStep::CallMcp { generation, calls: sent } && generation == g
            && sent@.len() == mcp.len() && forall|j: int|
            0 <= j < mcp.len() ==> is_mcp_call(o, #[trigger] sent@[j], mcp[j])
        &&& f.mcp_request_generation == g
        &&& f.mcp_pending_results == mcp.len()
        &&& f.mcp_abort_handle == Some(g)
        &&& f.status@ == "MCP tool 실행 중…"@
        &&& writes.len() > 0 ==> f.pending_write_calls@ == writes && f.ui == show
        &&& writes.len() == 0 ==> f.pending_write_calls == o.pending_write_calls && f.ui == o.ui
        &&& f == (App {
            conversation: f.conversation,
            pending_tool_calls: f.pending_tool_calls,
            mcp_request_generation: f.mcp_request_generation,
            mcp_pending_results: f.mcp_pending_results,
            mcp_abort_handle: f.mcp_abort_handle,
            status: f.status,
            pending_write_calls: f.pending_write_calls,
            ui: f.ui,
            ..o
        })
    }
    &&& mcp.len() == 0 && writes.len() > 0 ==> {
        &&& r is Wait
        &&& f.pending_write_calls@ == writes
        &&& f.ui == show
        &&& f.status@ == "파일 쓰기 승인 대기"@
        &&& f == (App {
            conversation: f.conversation,
            pending_tool_calls: f.pending_tool_calls,
            pending_write_calls: f.pending_write_calls,
            ui: f.ui,
            status: f.status,
            ..o
        })
    }
    &&& mcp.len() == 0 && writes.len() == 0 ==> {
        &&& r is Wait || r is Stream
        &&& stream_kicked(
            App {
                conversation: f.conversation,
                pending_tool_calls: f.pending_tool_calls,
                tool_round: (o.tool_round + 1) as u32,
                ..o
            },
            f,
            stored,
            streamed(r),
            round_status((o.tool_round + 1) as nat),
        )
    }
}

fn copy_call(c: &PendingToolCall) -> (r: PendingToolCall)
    ensures
        r == *c,
{
    PendingToolCall {
        id: copy_string(&c.id),
        name: copy_string(&c.name),
        arguments: copy_string(&c.arguments),
    }
}

fn first_tool_named(tools: &Vec<McpTool>, name: &str) -> (r: Option<usize>)
    ensures
        match r {
            Some(i) => i == first_where(tools@, tool_named(name@)),
            None => first_where(tools@, tool_named(name@)) == -1,
        },
{
    let mut i: usize = 0;
    while i < tools.len()
        invariant
            i <= tools@.len(),
            forall|j: int| 0 <= j < i ==> !tool_named(name@)(#[trigger] tools@[j]),
        decreases tools@.len() - i,
    {
        if str_equals(tools[i].name.as_str(), name) {
            proof {
                lemma_first_where_is(tools@, tool_named(name@), i as int);
            }
            return Some(i);
        }
        i = i + 1;
    }
    proof {
        lemma_first_where_none(tools@, tool_named(name@));
    }
    None
}

fn first_server_called(servers: &Vec<McpServer>, name: &str) -> (r: Option<usize>)
    ensures
        match r {
            Some(i) => i == first_where(servers@, server_called(name@)),
            None => first_where(servers@, server_called(name@)) == -1,
        },
{
    let mut i: usize = 0;
    while i < servers.len()
        invariant
            i <= servers@.len(),
            forall|j: int| 0 <= j < i ==> !server_called(name@)(#[trigger] servers@[j]),
        decreases servers@.len() - i,
    {
        if str_equals(servers[i].name.as_str(), name) {
            proof {
                lemma_first_where_is(servers@, server_called(name@), i as int);
            }
            return Some(i);
        }
        i = i + 1;
    }
    proof {
        lemma_first_where_none(servers@, server_called(name@));
    }
    None
}

proof fn lemma_calls_of_step(
    tools: Seq<McpTool>,
    calls: Seq<PendingToolCall>,
    read_only: Seq<bool>,
    k: ToolClass,
    i: int,
)
    requires
        0 <= i < calls.len(),
    ensures
        calls_of(tools, calls.take(i + 1), read_only, k) == if class_of(
            tools,
            calls[i],
            read_only[i],
        ) == k {
            calls_of(tools, calls.take(i), read_only, k).push(calls[i])
        } else {
            calls_of(tools, calls.take(i), read_only, k)
        },
{
    assert(calls.take(i + 1).drop_last() =~= calls.take(i));
    assert(calls.take(i + 1).last() == calls[i]);
}

impl App {
    /// Whether an MCP server offers a tool named `name`; such calls go to
    /// their server, the others to the built-in tools.
    pub fn is_mcp_tool(&self, name: &str) -> (r: bool)
        ensures
            r == is_mcp_name(self.mcp_tools@, name@),
    {
        first_tool_named(&self.mcp_tools, name).is_some()
    }

    fn mcp_call(&self, c: &PendingToolCall) -> (m: McpCall)
        ensures
            is_mcp_call(*self, m, *c),
    {
        proof {
            lemma_first_where(self.mcp_tools@, tool_named(c.name@));
        }
        let mut server: Option<McpServer> = None;
        if let Some(t) = first_tool_named(&self.mcp_tools, c.name.as_str()) {
            proof {
                lemma_first_where(
                    self.mcp_servers@,
                    server_called(self.mcp_tools@[t as int].server_name@),
                );
            }
            if let Some(k) = first_server_called(
                &self.mcp_servers,
                self.mcp_tools[t].server_name.as_str(),
            ) {
                server = Some(
                    McpServer {
                        name: copy_string(&self.mcp_servers[k].name),
                        command: copy_string(&self.mcp_servers[k].command),
                    },
                );
            }
        }
        McpCall {
            server,
            tool_name: copy_string(&c.name),
            call_id: copy_string(&c.id),
            arguments: copy_string(&c.arguments),
        }
    }

    /// Answers the tool calls of the reply that just ended (see
    /// `tool_round_run`). `read_only[i]` tells whether the built-in tool of
    /// pending call `i` only reads, and `read_results` holds, in order, what
    /// the read-only built-in calls returned.
    #[verifier::rlimit(40)]
    pub fn run_tool_round(
        &mut self,
        assistant_partial: String,
        read_only: &Vec<bool>,
        read_results: Vec<String>,
        stored: &StoredCredentials,
    ) -> (r: ToolStep)
        requires
            read_only@.len() == old(self).pending_tool_calls@.len(),
            read_results@.len() == calls_of(
                old(self).mcp_tools@,
                old(self).pending_tool_calls@,
                read_only@,
                ToolClass::Read,
            ).len(),
            calls_of(old(self).mcp_tools@, old(self).pending_tool_calls@, read_only@, ToolClass::Mcp).len()
                == 0 && calls_of(
                old(self).mcp_tools@,
                old(self).pending_tool_calls@,
                read_only@,
                ToolClass::Write,
            ).len() == 0 ==> old(self).tool_round < u32::MAX,
        ensures
            tool_round_run(
                *old(self),
                *final(self),
                *stored,
                assistant_partial@,
                read_only@,
                read_results@,
                r,
            ),
    {
        let ghost o = *self;
        let ghost tools = self.mcp_tools@;
        let mut calls: Vec<PendingToolCall> = Vec::new();
        std::mem::swap(&mut calls, &mut self.pending_tool_calls);
        let content = if assistant_partial.as_str().unicode_len() == 0 {
            None
        } else {
            Some(assistant_partial)
        };
        let ghost conv0 = self.conversation@;
        self.conversation.push(
            ChatMessage {
                role: String::from_str("assistant"),
                content,
                tool_call_id: None,
                tool_calls: copy_calls(&calls),
            },
        );
        proof {
            reveal_strlit("assistant");
        }
        let ghost k = conv0.len() as int;
        assert(self.conversation@.take(k) =~= conv0);
        let n = calls.len();
        let mut mcp: Vec<PendingToolCall> = Vec::new();
        let mut reads: Vec<PendingToolCall> = Vec::new();
        let mut writes: Vec<PendingToolCall> = Vec::new();
        let mut i: usize = 0;
        assert(calls@.take(0) =~= Seq::<PendingToolCall>::empty());
        while i < n
            invariant
                n == calls@.len(),
                n == read_only@.len(),
                calls@ == o.pending_tool_calls@,
                tools == self.mcp_tools@,
                i <= n,
                mcp@ == calls_of(tools, calls@.take(i as int), read_only@, ToolClass::Mcp),
                reads@ == calls_of(tools, calls@.take(i as int), read_only@, ToolClass::Read),
                writes@ == calls_of(tools, calls@.take(i as int), read_only@, ToolClass::Write),
            decreases n - i,
        {
            proof {
                lemma_calls_of_step(tools, calls@, read_only@, ToolClass::Mcp, i as int);
                lemma_calls_of_step(tools, calls@, read_only@, ToolClass::Read, i as int);
                lemma_calls_of_step(tools, calls@, read_only@, ToolClass::Write, i as int);
            }
            let c = copy_call(&calls[i]);
            if self.is_mcp_tool(calls[i].name.as_str()) {
                mcp.push(c);
            } else if read_only[i] {
                reads.push(c);
            } else {
                writes.push(c);
            }
            i = i + 1;
        }
        assert(calls@.take(n as int) =~= calls@);
        let ghost conv1 = self.conversation@;
        let ghost mid0 = *self;
        let m = reads.len();
        let mut j: usize = 0;
        assert(conv1.take(conv1.len() as int) =~= conv1);
        assert(call_ids(reads@).take(0) =~= Seq::<Seq<char>>::empty());
        assert(texts(read_results@).take(0) =~= Seq::<Seq<char>>::empty());
        while j < m
            invariant
                m == reads@.len(),
                m == read_results@.len(),
                j <= m,
                conv1.len() == k + 1,
                results_appended(
                    conv1,
                    self.conversation@,
                    call_ids(reads@).take(j as int),
                    texts(read_results@).take(j as int),
                ),
                *self == (App { conversation: self.conversation, ..mid0 }),
            decreases m - j,
        {
            let ghost before = self.conversation@;
            self.conversation.push(
                ChatMessage::tool_result(reads[j].id.as_str(), copy_string(&read_results[j])),
            );
            proof {
                lemma_results_push(
                    conv1,
                    before,
                    call_ids(reads@).take(j as int),
                    texts(read_results@).take(j as int),
                    self.conversation@.last(),
                    reads@[j as int].id@,
                    read_results@[j as int]@,
                );
                assert(before.push(self.conversation@.last()) =~= self.conversation@);
                assert(call_ids(reads@).take(j as int).push(reads@[j as int].id@) =~= call_ids(
                    reads@,
                ).take(j + 1));
                assert(texts(read_results@).take(j as int).push(read_results@[j as int]@) =~= texts(
                    read_results@,
                ).take(j + 1));
            }
            j = j + 1;
        }
        assert(call_ids(reads@).take(m as int) =~= call_ids(reads@));
        assert(texts(read_results@).take(m as int) =~= texts(read_results@));
        assert(self.conversation@.take(k + 1) =~= conv1) by {
            assert(self.conversation@.take(conv1.len() as int) == conv1);
        }
        assert(self.conversation@.take(k) =~= conv0) by {
            assert(self.conversation@.take(k) =~= conv1.take(k));
        }
        assert(self.conversation@[k] == conv1[k]) by {
            assert(self.conversation@.take(k + 1)[k] == self.conversation@[k]);
        }
        if mcp.len() > 0 {
            self.mcp_request_generation = self.mcp_request_generation.saturating_add(1);
            let generation = self.mcp_request_generation;
            self.mcp_pending_results = mcp.len();
            if writes.len() > 0 {
                self.pending_write_calls = writes;
                self.ui.show_write_confirm = true;
            }
            let mut sent: Vec<McpCall> = Vec::new();
            let mut t: usize = 0;
            while t < mcp.len()
                invariant
                    t <= mcp@.len(),
                    sent@.len() == t,
                    self.mcp_tools@ == o.mcp_tools@,
                    self.mcp_servers@ == o.mcp_servers@,
                    forall|q: int| 0 <= q < t ==> is_mcp_call(o, #[trigger] sent@[q], mcp@[q]),
                decreases mcp@.len() - t,
            {
                let c = self.mcp_call(&mcp[t]);
                sent.push(c);
                t = t + 1;
            }
            self.status = String::from_str("MCP tool 실행 중…");
            self.mcp_abort_handle = Some(generation);
            return ToolStep::CallMcp { generation, calls: sent };
        }
        if writes.len() > 0 {
            self.pending_write_calls = writes;
            self.ui.show_write_confirm = true;
            self.status = String::from_str("파일 쓰기 승인 대기");
            return ToolStep::Wait;
        }
        let s = self.next_round(stored);
        stream_or_wait(s)
    }
}

} // verus!
