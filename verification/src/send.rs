//! Sending a chat turn: the system prompt, slash commands, the user turn, the
//! request for a single model or for a compare exchange between OpenRouter and
//! the OpenAI-compatible provider, regenerating the last reply and editing the
//! last user message.
use crate::mention::{build_file_context, file_context, pair_views};
use crate::model::{
    body_text, copy_messages, copy_opt, copy_string, AgentMode, Block, BlockBody, ChatMessage,
    LlmProvider, ModelOption, PendingToolCall, ViewMode,
};
use crate::selection::{
    chat_base, chat_base_url, live_or_stored, openrouter_base_url, provider_route, selected_index,
    StoredCredentials,
};
use crate::seqs::{
    first_where, last_where, lemma_first_where, lemma_first_where_is, lemma_first_where_none,
    lemma_last_where, lemma_last_where_is, lemma_last_where_none,
};
use crate::state::App;
use crate::text::{opt_view, str_equals, trim, trim_seq};
use vstd::prelude::*;

verus! {

pub const PROMPT_INTRO: &'static str = "당신은 CodeWarp의 코딩 어시스턴트입니다.\n\n작업 디렉토리: '";
pub const PROMPT_AFTER_DIR: &'static str = "'\n\n";
pub const PROMPT_TOOLS: &'static str = "사용 가능한 도구 (적극적으로 호출하세요):\n- read_file(path): 파일 내용 읽기 (즉시 실행)\n- write_file(path, content): 파일 작성/덮어쓰기 (Build 모드 + 사용자 승인)\n- run_command(command): 셸 명령 실행 (Build 모드 + 사용자 승인)\n- glob(pattern): 패턴 매칭 파일 리스트 (예: '**/*.rs', 'examples/**/*')\n- grep(pattern): 정규식으로 모든 파일 검색\n\n규칙:\n1. 파일 시스템을 살펴봐야 할 때는 '확인하겠습니다' 같은 말 없이 즉시 도구를 호출하세요.\n2. 새 파일을 만들기 전에 glob으로 기존 구조를 먼저 확인하세요.\n3. 모든 path 인자는 작업 디렉토리 기준 상대 경로 (절대 경로 거부).\n4. 도구 결과를 받은 뒤 그것을 근거로 한국어로 답하세요.\n5. **마크다운 형식 제약** (한국어 폰트 한계): italic(*text* 또는 _text_)은 사용하지 마세요. 강조는 오직 **굵게**만 사용. 별표 한 개로 감싸지 말고, 정말 강조가 필요하면 두 개로 감싸세요.\n6. **Apply 가능한 코드 블록**: 사용자가 그대로 파일에 적용할 수 있도록, 새 파일/덮어쓸 파일의 코드 블록은 첫 줄에 다음 주석을 포함하세요:\n- Rust/JS/C 계열: `// path: 상대경로`\n- Python/shell/yaml: `# path: 상대경로`\n예) ```rust\\n// path: src/foo.rs\\nfn main() {}\\n```\n그러면 코드 블록 옆에 'Apply' 버튼이 노출되어 사용자가 한 번에 적용할 수 있습니다. 단순 예시 코드(개념 설명용)에는 path 주석을 넣지 마세요.";
pub const PLAN_MODE_TEXT: &'static str = "현재 모드: Plan (분석/계획 전용)\nPlan 모드에서는 read_file/glob/grep으로 코드를 조사하고 변경 계획만 제시하세요. 실제 파일 변경이나 명령 실행은 Build 모드에서만 가능하므로, 계획에 '필요한 변경'을 명확히 적고 사용자가 Build로 전환하기를 기다리세요.\n\n";
pub const BUILD_MODE_TEXT: &'static str = "현재 모드: Build (실행 가능)\nBuild 모드에서는 write_file/run_command를 사용해 실제 변경을 적용할 수 있습니다. 단, 두 도구 모두 사용자 승인을 거치므로 부담 없이 호출하세요.\n\n";

/// What the system prompt says about the agent mode.
pub open spec fn mode_text(m: AgentMode) -> Seq<char> {
    match m {
        AgentMode::Plan => PLAN_MODE_TEXT@,
        AgentMode::Build => BUILD_MODE_TEXT@,
    }
}

/// The system prompt for the workspace `cwd` in agent mode `m`.
pub open spec fn system_prompt(cwd: Seq<char>, m: AgentMode) -> Seq<char> {
    PROMPT_INTRO@ + cwd + PROMPT_AFTER_DIR@ + mode_text(m) + PROMPT_TOOLS@
}

/// The name of an agent mode.
pub open spec fn mode_label(m: AgentMode) -> Seq<char> {
    match m {
        AgentMode::Plan => "Plan"@,
        AgentMode::Build => "Build"@,
    }
}

/// Whether `after` is the conversation `before` led by the system message
/// `prompt`: a leading system message gets the prompt as its text and keeps
/// its other fields, otherwise a system message with the prompt and no tool
/// call id or tool calls is put in front.
pub open spec fn system_ensured(before: Seq<ChatMessage>, after: Seq<ChatMessage>, prompt: Seq<char>) -> bool {
    let led = before.len() > 0 && before[0].role@ == "system"@;
    &&& after.len() > 0
    &&& after[0].role@ == "system"@
    &&& after[0].content is Some
    &&& after[0].content->0@ == prompt
    &&& led ==> after.drop_first() == before.drop_first()
    &&& led ==> after[0].role == before[0].role && after[0].tool_call_id == before[0].tool_call_id
        && after[0].tool_calls@ == before[0].tool_calls@
    &&& !led ==> after.drop_first() == before
    &&& !led ==> after[0].tool_call_id is None && after[0].tool_calls@.len() == 0
}

/// A message as the texts it holds.
pub open spec fn message_text_view(m: ChatMessage) -> (Seq<char>, Option<Seq<char>>, Option<Seq<char>>, Seq<PendingToolCall>) {
    (m.role@, opt_view(m.content), opt_view(m.tool_call_id), m.tool_calls@)
}

/// A conversation as the texts its messages hold, in order.
pub open spec fn conversation_text(s: Seq<ChatMessage>) -> Seq<(Seq<char>, Option<Seq<char>>, Option<Seq<char>>, Seq<PendingToolCall>)> {
    s.map_values(|m: ChatMessage| message_text_view(m))
}

/// The text sent for the typed `text`: the framed attachments, a blank line
/// and the text when files are attached, the text alone otherwise.
pub open spec fn user_turn_text(app: App, text: Seq<char>) -> Seq<char> {
    if app.attached_files@.len() == 0 {
        text
    } else {
        file_context(pair_views(app.attached_files@)) + "\n\n"@ + text
    }
}

/// Whether `f` is `o` once the user turn `text` is committed: the system
/// message is in place and the user message appended, the attachments, the
/// mention picker and the tool state are cleared, and a user block with the
/// next block id follows the existing blocks.
pub open spec fn turn_committed(o: App, f: App, text: Seq<char>) -> bool {
    let conv = f.conversation@;
    let n = o.blocks@.len() as int;
    &&& conv.len() >= 1
    &&& system_ensured(o.conversation@, conv.drop_last(), system_prompt(o.cwd@, o.agent_mode))
    &&& conv.last().role@ == "user"@
    &&& conv.last().content is Some
    &&& conv.last().content->0@ == user_turn_text(o, text)
    &&& f.attached_files@.len() == 0
    &&& !f.show_mention
    &&& f.mention_query@.len() == 0
    &&& f.mention_selected == 0
    &&& f.pending_tool_calls@.len() == 0
    &&& f.tool_round == 0
    &&& f.mid_stream_retries == 0
    &&& f.blocks@.len() > n
    &&& f.blocks@.take(n) == o.blocks@
    &&& f.blocks@[n].id == o.next_block_id
    &&& f.blocks@[n].body is User
    &&& body_text(f.blocks@[n].body) == text
    &&& f.blocks@[n].view_mode == ViewMode::Rendered
    &&& f.blocks@[n].model is None
}

/// Whether `b` is an empty assistant block with id `id` for model `model`,
/// shown raw while it streams.
pub open spec fn is_reply_placeholder(b: Block, id: u64, model: Option<String>) -> bool {
    &&& b.id == id
    &&& b.body is Assistant
    &&& body_text(b.body) == Seq::<char>::empty()
    &&& b.view_mode == ViewMode::Raw
    &&& b.model == model
}

/// A chat request: where it goes, with which credential and model, the
/// messages, whether the built-in tools are offered, and the block the reply
/// streams into.
pub struct ChatRequest {
    pub base_url: String,
    pub api_key: Option<String>,
    pub model: String,
    pub messages: Vec<ChatMessage>,
    pub with_tools: bool,
    pub block_id: u64,
}

/// One side of a compare exchange: its label, endpoint, credential and model.
pub struct ChatRoute {
    pub label: String,
    pub base_url: String,
    pub api_key: Option<String>,
    pub model: String,
}

/// A compare exchange: the same messages sent to OpenRouter and to the
/// OpenAI-compatible provider, each answered in its own block.
pub struct CompareRequest {
    pub openrouter: ChatRoute,
    pub tabby: ChatRoute,
    pub messages: Vec<ChatMessage>,
    pub openrouter_block_id: u64,
    pub tabby_block_id: u64,
}

/// What sending asks the surrounding program to do.
pub enum SendOutcome {
    /// Nothing to send.
    Nothing,
    /// Stream one reply.
    Stream(ChatRequest),
    /// Collect both replies of a compare exchange.
    Compare(CompareRequest),
}

/// A route as plain values: label, endpoint, credential and model.
pub type RouteView = (Seq<char>, Seq<char>, Option<Seq<char>>, Seq<char>);

/// The plain values of a route.
pub open spec fn route_view(r: ChatRoute) -> RouteView {
    (r.label@, r.base_url@, opt_view(r.api_key), r.model@)
}

/// Whether a model option is offered by provider `p`.
pub open spec fn offered_by(p: LlmProvider) -> spec_fn(ModelOption) -> bool {
    |o: ModelOption| o.provider == p
}

/// The option a compare exchange uses for provider `p`: the selected option
/// when it is offered by `p`, else the first option `p` offers; -1 if none.
pub open spec fn compare_option(app: App, p: LlmProvider) -> int {
    let k = selected_index(app);
    if k >= 0 && app.model_options@[k].provider == p {
        k
    } else {
        first_where(app.model_options@, offered_by(p))
    }
}

/// The provider label shown for the OpenAI-compatible side: the option's
/// trimmed label, or `Local` when it is blank.
pub open spec fn local_label(label: Seq<char>) -> Seq<char> {
    if trim_seq(label).len() == 0 {
        "Local"@
    } else {
        trim_seq(label)
    }
}

/// The two routes of a compare exchange, or why there are none.
pub open spec fn compare_plan(app: App, stored: StoredCredentials) -> Result<(RouteView, RouteView), Seq<char>> {
    let a = compare_option(app, LlmProvider::OpenRouter);
    let b = compare_option(app, LlmProvider::OpenAICompat);
    if a < 0 {
        Err(
            "Compare 모드: OpenRouter 모델이 없습니다. OpenRouter 키/모델 목록을 먼저 불러와 주세요."@,
        )
    } else if b < 0 {
        Err(
            "Compare 모드: Tabby 모델이 없습니다. Provider 연결 테스트로 Tabby 모델을 먼저 불러와 주세요."@,
        )
    } else {
        match stored.api_key {
            Err(e) => Err(e@),
            Ok(key) => match live_or_stored(app.tabby_url_input@, stored.tabby_base_url) {
                None => Err("Compare 모드: Tabby URL 미설정"@),
                Some(base) => Ok(
                    (
                        (
                            "OpenRouter"@,
                            openrouter_base_url(),
                            Some(key@),
                            app.model_options@[a].id@,
                        ),
                        (
                            local_label(app.model_options@[b].provider_label@),
                            chat_base_url(base),
                            live_or_stored(app.tabby_token_input@, stored.tabby_token),
                            app.model_options@[b].id@,
                        ),
                    ),
                ),
            },
        }
    }
}

/// Whether the trimmed input `text` is a message rather than a command.
pub open spec fn is_chat_text(text: Seq<char>) -> bool {
    text.len() > 0 && text[0] != '/'
}

/// Whether `o` may send a message now: no reply is streaming and no compare
/// exchange is pending.
pub open spec fn can_send(o: App) -> bool {
    o.streaming_block_id is None && !o.ui.compare_pending
}

/// Whether `f` and `r` are the outcome of sending `text` to the selected model.
pub open spec fn single_sent(o: App, f: App, stored: StoredCredentials, text: Seq<char>, r: SendOutcome) -> bool {
    match provider_route(o, stored) {
        Err(e) => {
            &&& r is Nothing
            &&& f.status@ == e
            &&& f == (App { status: f.status, ..o })
        },
        Ok(route) => {
            let n = o.blocks@.len() as int;
            &&& r matches SendOutcome::Stream(req) && {
                &&& req.base_url@ == route.0
                &&& opt_view(req.api_key) == route.1
                &&& o.selected_model is Some
                &&& req.model@ == o.selected_model->0@
                &&& crate::model::messages_view(req.messages@) == crate::model::messages_view(f.conversation@)
                &&& req.with_tools == (selected_index(o) >= 0 && o.model_options@[selected_index(
                    o,
                )].provider == LlmProvider::OpenRouter)
                &&& req.block_id == o.next_block_id + 1
            }
            &&& turn_committed(o, f, text)
            &&& f.blocks@.len() == n + 2
            &&& is_reply_placeholder(
                f.blocks@[n + 1],
                (o.next_block_id + 1) as u64,
                o.selected_model,
            )
            &&& f.next_block_id == o.next_block_id + 2
            &&& f.streaming_block_id == Some((o.next_block_id + 1) as u64)
            &&& f.streaming_block_idx == Some((n + 1) as usize)
            &&& f.input@.len() == 0
            &&& f.status@ == "응답 생성 중…"@
            &&& f.follow_bottom
            &&& f == (App {
                conversation: f.conversation,
                attached_files: f.attached_files,
                show_mention: f.show_mention,
                mention_query: f.mention_query,
                mention_selected: f.mention_selected,
                pending_tool_calls: f.pending_tool_calls,
                tool_round: f.tool_round,
                mid_stream_retries: f.mid_stream_retries,
                blocks: f.blocks,
                next_block_id: f.next_block_id,
                streaming_block_id: f.streaming_block_id,
                streaming_block_idx: f.streaming_block_idx,
                input: f.input,
                status: f.status,
                follow_bottom: f.follow_bottom,
                ..o
            })
        },
    }
}

/// The label of a compare reply block: the route label, `: ` and the model.
pub open spec fn compare_block_model(route: RouteView) -> Seq<char> {
    route.0 + ": "@ + route.3
}

/// Whether `f` and `r` are the outcome of sending `text` as a compare exchange.
pub open spec fn compare_sent(o: App, f: App, stored: StoredCredentials, text: Seq<char>, r: SendOutcome) -> bool {
    match compare_plan(o, stored) {
        Err(e) => {
            &&& r is Nothing
            &&& f.status@ == e
            &&& f == (App { status: f.status, ..o })
        },
        Ok(routes) => {
            let n = o.blocks@.len() as int;
            let a_id = (o.next_block_id + 1) as u64;
            let b_id = (o.next_block_id + 2) as u64;
            &&& r matches SendOutcome::Compare(req) && {
                &&& route_view(req.openrouter) == routes.0
                &&& route_view(req.tabby) == routes.1
                &&& crate::model::messages_view(req.messages@) == crate::model::messages_view(f.conversation@)
                &&& req.openrouter_block_id == a_id
                &&& req.tabby_block_id == b_id
            }
            &&& turn_committed(o, f, text)
            &&& f.blocks@.len() == n + 3
            &&& f.blocks@[n + 1].id == a_id
            &&& f.blocks@[n + 1].body is Assistant
            &&& body_text(f.blocks@[n + 1].body) == "OpenRouter 응답 대기 중…"@
            &&& f.blocks@[n + 1].view_mode == ViewMode::Raw
            &&& f.blocks@[n + 1].model matches Some(m) && m@ == compare_block_model(routes.0)
            &&& f.blocks@[n + 2].id == b_id
            &&& f.blocks@[n + 2].body is Assistant
            &&& body_text(f.blocks@[n + 2].body) == "Tabby 응답 대기 중…"@
            &&& f.blocks@[n + 2].view_mode == ViewMode::Raw
            &&& f.blocks@[n + 2].model matches Some(m) && m@ == compare_block_model(routes.1)
            &&& f.next_block_id == o.next_block_id + 3
            &&& f.compare_block_ids == Some((a_id, b_id))
            &&& f.ui.compare_pending
            &&& f.ui == (crate::state::UiState { compare_pending: true, ..o.ui })
            &&& f.input@.len() == 0
            &&& f.status@ == "Compare 응답 생성 중…"@
            &&& f.follow_bottom
            &&& f == (App {
                conversation: f.conversation,
                attached_files: f.attached_files,
                show_mention: f.show_mention,
                mention_query: f.mention_query,
                mention_selected: f.mention_selected,
                pending_tool_calls: f.pending_tool_calls,
                tool_round: f.tool_round,
                mid_stream_retries: f.mid_stream_retries,
                blocks: f.blocks,
                next_block_id: f.next_block_id,
                compare_block_ids: f.compare_block_ids,
                ui: f.ui,
                input: f.input,
                status: f.status,
                follow_bottom: f.follow_bottom,
                ..o
            })
        },
    }
}

fn offered_position(opts: &Vec<ModelOption>, p: LlmProvider) -> (r: Option<usize>)
    ensures
        match r {
            Some(i) => i < opts@.len() && i == first_where(opts@, offered_by(p)),
            None => first_where(opts@, offered_by(p)) == -1,
        },
{
    let n = opts.len();
    let mut i: usize = 0;
    while i < n
        invariant
            n == opts@.len(),
            i <= n,
            forall|j: int| 0 <= j < i ==> !offered_by(p)(#[trigger] opts@[j]),
        decreases n - i,
    {
        if opts[i].provider == p {
            proof {
                lemma_first_where_is(opts@, offered_by(p), i as int);
            }
            return Some(i);
        }
        i = i + 1;
    }
    proof {
        lemma_first_where_none(opts@, offered_by(p));
    }
    None
}

fn live_or_stored_text(input: &String, stored: &Option<String>) -> (r: Option<String>)
    ensures
        opt_view(r) == live_or_stored(input@, *stored),
{
    if trim(input.as_str()).unicode_len() > 0 {
        Some(input.clone())
    } else {
        match stored {
            Some(v) => if trim(v.as_str()).unicode_len() > 0 {
                Some(v.clone())
            } else {
                None
            },
            None => None,
        }
    }
}

fn labelled_model(label: &str, model: &str) -> (r: String)
    ensures
        r@ == label@ + ": "@ + model@,
{
    let mut s = String::from_str(label);
    s.append(": ");
    s.append(model);
    s
}

impl App {
    /// Puts the system prompt for the current workspace and agent mode at the
    /// head of the conversation.
    pub fn ensure_system_message(&mut self)
        ensures
            system_ensured(
                old(self).conversation@,
                final(self).conversation@,
                system_prompt(old(self).cwd@, old(self).agent_mode),
            ),
            *final(self) == (App { conversation: final(self).conversation, ..*old(self) }),
    {
        let mut prompt = String::from_str(PROMPT_INTRO);
        prompt.append(self.cwd.as_str());
        prompt.append(PROMPT_AFTER_DIR);
        match self.agent_mode {
            AgentMode::Plan => prompt.append(PLAN_MODE_TEXT),
            AgentMode::Build => prompt.append(BUILD_MODE_TEXT),
        }
        prompt.append(PROMPT_TOOLS);
        if self.conversation.len() > 0 && str_equals(self.conversation[0].role.as_str(), "system") {
            let role = copy_string(&self.conversation[0].role);
            let first = ChatMessage {
                role,
                content: Some(prompt),
                tool_call_id: crate::model::copy_opt(&self.conversation[0].tool_call_id),
                tool_calls: crate::model::copy_calls(&self.conversation[0].tool_calls),
            };
            self.conversation.set(0, first);
            assert(self.conversation@.drop_first() =~= old(self).conversation@.drop_first());
        } else {
            self.conversation.insert(
                0,
                ChatMessage::text("system", prompt),
            );
            assert(self.conversation@.drop_first() =~= old(self).conversation@);
        }
    }

    /// The two routes of a compare exchange: the selected option, or else the
    /// first option, of OpenRouter and of the OpenAI-compatible provider, the
    /// OpenRouter key from `stored`, and the provider URL and token, the text
    /// inputs taking precedence over what is stored.
    pub fn compare_routes(&self, stored: &StoredCredentials) -> (r: Result<(ChatRoute, ChatRoute), String>)
        ensures
            match r {
                Ok((a, b)) => compare_plan(*self, *stored) == Ok::<
                    (RouteView, RouteView),
                    Seq<char>,
                >((route_view(a), route_view(b))),
                Err(e) => compare_plan(*self, *stored) == Err::<
                    (RouteView, RouteView),
                    Seq<char>,
                >(e@),
            },
    {
        let selected = self.selected_option();
        let a = match selected {
            Some(o) if o.provider == LlmProvider::OpenRouter => Some(o),
            _ => match offered_position(&self.model_options, LlmProvider::OpenRouter) {
                Some(i) => Some(&self.model_options[i]),
                None => None,
            },
        };
        let a = match a {
            Some(o) => o,
            None => {
                return Err(
                    String::from_str(
                        "Compare 모드: OpenRouter 모델이 없습니다. OpenRouter 키/모델 목록을 먼저 불러와 주세요.",
                    ),
                )
            },
        };
        let b = match selected {
            Some(o) if o.provider == LlmProvider::OpenAICompat => Some(o),
            _ => match offered_position(&self.model_options, LlmProvider::OpenAICompat) {
                Some(i) => Some(&self.model_options[i]),
                None => None,
            },
        };
        let b = match b {
            Some(o) => o,
            None => {
                return Err(
                    String::from_str(
                        "Compare 모드: Tabby 모델이 없습니다. Provider 연결 테스트로 Tabby 모델을 먼저 불러와 주세요.",
                    ),
                )
            },
        };
        let key = match &stored.api_key {
            Ok(k) => copy_string(k),
            Err(e) => return Err(copy_string(e)),
        };
        let base = match live_or_stored_text(&self.tabby_url_input, &stored.tabby_base_url) {
            Some(u) => u,
            None => return Err(String::from_str("Compare 모드: Tabby URL 미설정")),
        };
        let token = live_or_stored_text(&self.tabby_token_input, &stored.tabby_token);
        let label = trim(b.provider_label.as_str());
        let label = if label.unicode_len() == 0 {
            String::from_str("Local")
        } else {
            String::from_str(label)
        };
        let first = ChatRoute {
            label: String::from_str("OpenRouter"),
            base_url: String::from_str("https://openrouter.ai/api/v1"),
            api_key: Some(key),
            model: copy_string(&a.id),
        };
        let second = ChatRoute {
            label,
            base_url: chat_base(base.as_str()),
            api_key: token,
            model: copy_string(&b.id),
        };
        Ok((first, second))
    }
}


/// What sending the typed input does to `o`, giving `f` and the outcome `r`:
/// an empty input does nothing; `/plan` and `/build` switch the agent mode;
/// another slash command is reported as unknown; while a reply streams or a
/// compare exchange is pending nothing happens; otherwise the text is sent as
/// a compare exchange in compare mode, or to the selected model.
pub open spec fn sent(o: App, f: App, stored: StoredCredentials, r: SendOutcome) -> bool {
    let text = trim_seq(o.input@);
    if text.len() == 0 {
        r is Nothing && f == o
    } else if text == "/plan"@ || text == "/build"@ {
        let m = if text == "/plan"@ {
            AgentMode::Plan
        } else {
            AgentMode::Build
        };
        &&& r is Nothing
        &&& f.input@.len() == 0
        &&& f.status@ == mode_label(m) + " 모드"@
        &&& f == (App { agent_mode: m, input: f.input, status: f.status, ..o })
    } else if text[0] == '/' {
        &&& r is Nothing
        &&& f.status@ == "알 수 없는 슬래시 명령: "@ + text
        &&& f == (App { status: f.status, ..o })
    } else if !can_send(o) {
        r is Nothing && f == o
    } else if o.compare_both {
        compare_sent(o, f, stored, text, r)
    } else {
        single_sent(o, f, stored, text, r)
    }
}

/// Whether a block is the user's.
pub open spec fn is_user_block() -> spec_fn(Block) -> bool {
    |b: Block| b.body is User
}

/// The conversation up to and including its last user message; all of it
/// when it has none.
pub open spec fn through_last_user(conv: Seq<ChatMessage>) -> Seq<ChatMessage> {
    let k = last_where(conv, crate::chat::is_user_message());
    if k >= 0 {
        conv.take(k + 1)
    } else {
        conv
    }
}

/// `s` without its last element, when it has one.
pub open spec fn popped<A>(s: Seq<A>) -> Seq<A> {
    if s.len() > 0 {
        s.drop_last()
    } else {
        s
    }
}

/// The text a request names as its model when none is selected: empty.
pub open spec fn model_or_empty(m: Option<String>) -> Seq<char> {
    match m {
        Some(s) => s@,
        None => Seq::empty(),
    }
}

/// The text shown for one side of a compare exchange: the reply when it has
/// more than white space, `empty` when it has not, `[ERROR] ` and the
/// explained error when the request failed.
pub open spec fn compare_reply_text(result: Result<String, String>, empty: Seq<char>) -> Seq<char> {
    match result {
        Ok(t) => if trim_seq(t@).len() > 0 {
            t@
        } else {
            empty
        },
        Err(e) => "[ERROR] "@ + e@,
    }
}

/// The assistant message that records both replies of a compare exchange.
pub open spec fn compare_transcript(a: Seq<char>, b: Seq<char>) -> Seq<char> {
    "[OpenRouter]\n"@ + a + "\n\n[Tabby]\n"@ + b
}

fn compare_reply(result: Result<String, String>, empty: &str) -> (r: String)
    ensures
        r@ == compare_reply_text(result, empty@),
{
    match result {
        Ok(t) => if trim(t.as_str()).unicode_len() > 0 {
            t
        } else {
            String::from_str(empty)
        },
        Err(e) => {
            let mut m = String::from_str("[ERROR] ");
            m.append(e.as_str());
            m
        },
    }
}

fn last_user_message(conv: &Vec<ChatMessage>) -> (r: Option<usize>)
    ensures
        match r {
            Some(i) => i < conv@.len() && i == last_where(conv@, crate::chat::is_user_message()),
            None => last_where(conv@, crate::chat::is_user_message()) == -1,
        },
{
    let mut i = conv.len();
    while i > 0
        invariant
            i <= conv@.len(),
            forall|j: int| i <= j < conv@.len() ==> !crate::chat::is_user_message()(#[trigger] conv@[j]),
        decreases i,
    {
        if str_equals(conv[i - 1].role.as_str(), "user") {
            proof {
                lemma_last_where_is(conv@, crate::chat::is_user_message(), i - 1);
            }
            return Some(i - 1);
        }
        i = i - 1;
    }
    proof {
        lemma_last_where_none(conv@, crate::chat::is_user_message());
    }
    None
}

fn last_user_block(blocks: &Vec<Block>) -> (r: Option<usize>)
    ensures
        match r {
            Some(i) => i < blocks@.len() && i == last_where(blocks@, is_user_block()),
            None => last_where(blocks@, is_user_block()) == -1,
        },
{
    let mut i = blocks.len();
    while i > 0
        invariant
            i <= blocks@.len(),
            forall|j: int| i <= j < blocks@.len() ==> !is_user_block()(#[trigger] blocks@[j]),
        decreases i,
    {
        if matches!(blocks[i - 1].body, BlockBody::User(_)) {
            proof {
                lemma_last_where_is(blocks@, is_user_block(), i - 1);
            }
            return Some(i - 1);
        }
        i = i - 1;
    }
    proof {
        lemma_last_where_none(blocks@, is_user_block());
    }
    None
}

fn truncate_after_last_user(conv: &mut Vec<ChatMessage>)
    ensures
        final(conv)@ == through_last_user(old(conv)@),
{
    let n = conv.len();
    if let Some(k) = last_user_message(conv) {
        assert(k < n);
        conv.truncate(k + 1);
        assert(conv@ =~= old(conv)@.take(k + 1));
    }
}

impl App {
    fn begin_turn(&mut self, text: &str) -> (messages: Vec<ChatMessage>)
        requires
            old(self).next_block_id < u64::MAX,
        ensures
            turn_committed(*old(self), *final(self), text@),
            crate::model::messages_view(messages@) == crate::model::messages_view(final(self).conversation@),
            final(self).blocks@.len() == old(self).blocks@.len() + 1,
            final(self).next_block_id == old(self).next_block_id + 1,
            *final(self) == (App {
                conversation: final(self).conversation,
                attached_files: final(self).attached_files,
                show_mention: final(self).show_mention,
                mention_query: final(self).mention_query,
                mention_selected: final(self).mention_selected,
                pending_tool_calls: final(self).pending_tool_calls,
                tool_round: final(self).tool_round,
                mid_stream_retries: final(self).mid_stream_retries,
                blocks: final(self).blocks,
                next_block_id: final(self).next_block_id,
                ..*old(self)
            }),
    {
        self.ensure_system_message();
        let msg = if self.attached_files.len() == 0 {
            String::from_str(text)
        } else {
            let mut c = build_file_context(&self.attached_files);
            c.append("\n\n");
            c.append(text);
            c
        };
        let ghost after_system = self.conversation@;
        self.conversation.push(ChatMessage::text("user", msg));
        assert(self.conversation@.drop_last() =~= after_system);
        self.attached_files = Vec::new();
        self.close_mention();
        self.pending_tool_calls = Vec::new();
        self.tool_round = 0;
        self.mid_stream_retries = 0;
        let messages = copy_messages(&self.conversation);
        let user_id = self.next_id();
        self.blocks.push(
            Block {
                id: user_id,
                body: BlockBody::User(String::from_str(text)),
                view_mode: ViewMode::Rendered,
                model: None,
            },
        );
        assert(self.blocks@.take(old(self).blocks@.len() as int) =~= old(self).blocks@);
        messages
    }

    /// Sends the typed input (see `sent`). The credentials the provider needs
    /// are read from `stored`.
    pub fn send_message(&mut self, stored: &StoredCredentials) -> (r: SendOutcome)
        requires
            old(self).next_block_id < u64::MAX - 2,
        ensures
            sent(*old(self), *final(self), *stored, r),
    {
        let text = String::from_str(trim(self.input.as_str()));
        let n = text.as_str().unicode_len();
        if n == 0 {
            return SendOutcome::Nothing;
        }
        if str_equals(text.as_str(), "/plan") || str_equals(text.as_str(), "/build") {
            let plan = str_equals(text.as_str(), "/plan");
            self.agent_mode = if plan {
                AgentMode::Plan
            } else {
                AgentMode::Build
            };
            self.input = String::new();
            self.status = String::from_str(
                if plan {
                    "Plan 모드"
                } else {
                    "Build 모드"
                },
            );
            proof {
                reveal_strlit("Plan 모드");
                reveal_strlit("Build 모드");
                reveal_strlit("Plan");
                reveal_strlit("Build");
                reveal_strlit(" 모드");
                assert("Plan 모드"@ =~= "Plan"@ + " 모드"@);
                assert("Build 모드"@ =~= "Build"@ + " 모드"@);
            }
            return SendOutcome::Nothing;
        }
        if text.as_str().get_char(0) == '/' {
            let mut m = String::from_str("알 수 없는 슬래시 명령: ");
            m.append(text.as_str());
            self.status = m;
            return SendOutcome::Nothing;
        }
        if self.streaming_block_id.is_some() || self.ui.compare_pending {
            return SendOutcome::Nothing;
        }
        if self.compare_both {
            return self.compare_send_message(text, stored);
        }
        let (base_url, api_key) = match self.resolve_provider(stored) {
            Ok(v) => v,
            Err(e) => {
                self.status = e;
                return SendOutcome::Nothing;
            },
        };
        let model = match &self.selected_model {
            Some(m) => copy_string(m),
            None => {
                self.status = String::from_str("모델을 먼저 선택해주세요.");
                return SendOutcome::Nothing;
            },
        };
        let with_tools = self.selected_model_supports_tools();
        let model_opt = copy_opt(&self.selected_model);
        let ghost o = *old(self);
        let messages = self.begin_turn(text.as_str());
        let ai_id = self.next_id();
        self.blocks.push(
            Block {
                id: ai_id,
                body: BlockBody::Assistant(String::new()),
                view_mode: ViewMode::Raw,
                model: model_opt,
            },
        );
        self.streaming_block_id = Some(ai_id);
        self.streaming_block_idx = Some(self.blocks.len() - 1);
        self.input = String::new();
        self.status = String::from_str("응답 생성 중…");
        self.follow_bottom = true;
        assert(self.blocks@.take(o.blocks@.len() as int) =~= o.blocks@);
        SendOutcome::Stream(
            ChatRequest { base_url, api_key, model, messages, with_tools, block_id: ai_id },
        )
    }

    /// Sends `text` as a compare exchange: both routes get the same messages,
    /// each reply has its placeholder block, and the exchange stays pending
    /// until both replies are in. When a route is missing the reason goes to
    /// the status and nothing changes otherwise.
    pub fn compare_send_message(&mut self, text: String, stored: &StoredCredentials) -> (r: SendOutcome)
        requires
            old(self).next_block_id < u64::MAX - 2,
        ensures
            compare_sent(*old(self), *final(self), *stored, text@, r),
    {
        let (a, b) = match self.compare_routes(stored) {
            Ok(v) => v,
            Err(e) => {
                self.status = e;
                return SendOutcome::Nothing;
            },
        };
        let ghost o = *old(self);
        let messages = self.begin_turn(text.as_str());
        let a_id = self.next_id();
        self.blocks.push(
            Block {
                id: a_id,
                body: BlockBody::Assistant(String::from_str("OpenRouter 응답 대기 중…")),
                view_mode: ViewMode::Raw,
                model: Some(labelled_model(a.label.as_str(), a.model.as_str())),
            },
        );
        let b_id = self.next_id();
        self.blocks.push(
            Block {
                id: b_id,
                body: BlockBody::Assistant(String::from_str("Tabby 응답 대기 중…")),
                view_mode: ViewMode::Raw,
                model: Some(labelled_model(b.label.as_str(), b.model.as_str())),
            },
        );
        self.compare_block_ids = Some((a_id, b_id));
        self.ui.compare_pending = true;
        self.input = String::new();
        self.status = String::from_str("Compare 응답 생성 중…");
        self.follow_bottom = true;
        assert(self.blocks@.take(o.blocks@.len() as int) =~= o.blocks@);
        SendOutcome::Compare(
            CompareRequest {
                openrouter: a,
                tabby: b,
                messages,
                openrouter_block_id: a_id,
                tabby_block_id: b_id,
            },
        )
    }
}


/// What regenerating the last reply does to `o`, giving `f` and the request
/// `r`: nothing while a reply streams or when no user message was sent;
/// otherwise the conversation is cut after its last user message and, when a
/// user block exists, the blocks after the last one go, the tool state resets,
/// and a new reply streams from the selected model into a new block.
pub open spec fn regenerated(o: App, f: App, stored: StoredCredentials, r: Option<ChatRequest>) -> bool {
    let conv = through_last_user(o.conversation@);
    let k = last_where(o.blocks@, is_user_block());
    if o.streaming_block_id is Some || first_where(o.conversation@, crate::chat::is_user_message())
        < 0 {
        r is None && f == o
    } else if k < 0 {
        &&& r is None
        &&& f.conversation@ == conv
        &&& f == (App { conversation: f.conversation, ..o })
    } else {
        &&& f.conversation@ == conv
        &&& f.blocks@.take(k + 1) == o.blocks@.take(k + 1)
        &&& f.tool_round == 0
        &&& f.mid_stream_retries == 0
        &&& f.pending_tool_calls@.len() == 0
        &&& match provider_route(o, stored) {
            Err(e) => {
                &&& r is None
                &&& f.blocks@.len() == k + 1
                &&& f.status@ == e
                &&& f == (App {
                    conversation: f.conversation,
                    blocks: f.blocks,
                    tool_round: f.tool_round,
                    mid_stream_retries: f.mid_stream_retries,
                    pending_tool_calls: f.pending_tool_calls,
                    status: f.status,
                    ..o
                })
            },
            Ok(route) => {
                &&& r matches Some(req) && {
                    &&& req.base_url@ == route.0
                    &&& opt_view(req.api_key) == route.1
                    &&& req.model@ == model_or_empty(o.selected_model)
                    &&& crate::model::messages_view(req.messages@) == crate::model::messages_view(f.conversation@)
                    &&& req.with_tools == (selected_index(o) >= 0 && o.model_options@[selected_index(
                        o,
                    )].provider == LlmProvider::OpenRouter)
                    &&& req.block_id == o.next_block_id
                }
                &&& f.blocks@.len() == k + 2
                &&& is_reply_placeholder(f.blocks@[k + 1], o.next_block_id, o.selected_model)
                &&& f.next_block_id == o.next_block_id + 1
                &&& f.streaming_block_id == Some(o.next_block_id)
                &&& f.streaming_block_idx == Some((k + 1) as usize)
                &&& f.status@ == "응답 다시 생성 중…"@
                &&& f.follow_bottom
                &&& f == (App {
                    conversation: f.conversation,
                    blocks: f.blocks,
                    tool_round: f.tool_round,
                    mid_stream_retries: f.mid_stream_retries,
                    pending_tool_calls: f.pending_tool_calls,
                    next_block_id: f.next_block_id,
                    streaming_block_id: f.streaming_block_id,
                    streaming_block_idx: f.streaming_block_idx,
                    status: f.status,
                    follow_bottom: f.follow_bottom,
                    ..o
                })
            },
        }
    }
}

impl App {
    /// Streams a new reply to the last user message (see `regenerated`).
    pub fn regenerate_last(&mut self, stored: &StoredCredentials) -> (r: Option<ChatRequest>)
        requires
            old(self).next_block_id < u64::MAX,
        ensures
            regenerated(*old(self), *final(self), *stored, r),
    {
        if self.streaming_block_id.is_some() {
            return None;
        }
        proof {
            lemma_first_where(self.conversation@, crate::chat::is_user_message());
            lemma_last_where(self.conversation@, crate::chat::is_user_message());
        }
        match last_user_message(&self.conversation) {
            None => {
                proof {
                    if first_where(self.conversation@, crate::chat::is_user_message()) >= 0 {
                        let j = first_where(self.conversation@, crate::chat::is_user_message());
                        assert(crate::chat::is_user_message()(self.conversation@[j]));
                    }
                }
                return None;
            },
            Some(_) => {},
        }
        truncate_after_last_user(&mut self.conversation);
        let idx = match last_user_block(&self.blocks) {
            Some(i) => i,
            None => return None,
        };
        assert(idx < self.blocks.len());
        self.blocks.truncate(idx + 1);
        assert(self.blocks@ =~= old(self).blocks@.take(idx + 1));
        assert(self.blocks@.take(idx + 1) =~= self.blocks@);
        self.tool_round = 0;
        self.mid_stream_retries = 0;
        self.pending_tool_calls = Vec::new();
        assert(selected_index(*self) == selected_index(*old(self)));
        assert(provider_route(*self, *stored) == provider_route(*old(self), *stored));
        let (base_url, api_key) = match self.resolve_provider(stored) {
            Ok(v) => v,
            Err(e) => {
                self.status = e;
                return None;
            },
        };
        let model = match &self.selected_model {
            Some(m) => copy_string(m),
            None => String::new(),
        };
        let with_tools = self.selected_model_supports_tools();
        let messages = copy_messages(&self.conversation);
        let ai_id = self.next_id();
        self.blocks.push(
            Block {
                id: ai_id,
                body: BlockBody::Assistant(String::new()),
                view_mode: ViewMode::Raw,
                model: copy_opt(&self.selected_model),
            },
        );
        self.streaming_block_id = Some(ai_id);
        self.streaming_block_idx = Some(self.blocks.len() - 1);
        self.status = String::from_str("응답 다시 생성 중…");
        self.follow_bottom = true;
        assert(self.blocks@.take(idx + 1) =~= old(self).blocks@.take(idx + 1));
        Some(ChatRequest { base_url, api_key, model, messages, with_tools, block_id: ai_id })
    }

    /// Takes the last user message back into the input for editing: its block
    /// and everything after it go, as does the conversation from that message
    /// on. Nothing happens while a reply streams or when there is no user
    /// block.
    pub fn edit_last_user(&mut self)
        ensures
            ({
                let o = *old(self);
                let f = *final(self);
                let k = last_where(o.blocks@, is_user_block());
                &&& (o.streaming_block_id is Some || k < 0) ==> f == o
                &&& !(o.streaming_block_id is Some || k < 0) ==> {
                    &&& f.blocks@ == o.blocks@.take(k)
                    &&& f.conversation@ == popped(through_last_user(o.conversation@))
                    &&& f.tool_round == 0
                    &&& f.pending_tool_calls@.len() == 0
                    &&& f.input@ == body_text(o.blocks@[k].body)
                    &&& f.status@ == "편집 모드 — 수정 후 Enter"@
                    &&& f == (App {
                        blocks: f.blocks,
                        conversation: f.conversation,
                        tool_round: f.tool_round,
                        pending_tool_calls: f.pending_tool_calls,
                        input: f.input,
                        status: f.status,
                        ..o
                    })
                }
            }),
    {
        if self.streaming_block_id.is_some() {
            return;
        }
        let idx = match last_user_block(&self.blocks) {
            Some(i) => i,
            None => return,
        };
        proof {
            lemma_last_where(self.blocks@, is_user_block());
        }
        let user_text = match &self.blocks[idx].body {
            BlockBody::User(s) => copy_string(s),
            _ => return,
        };
        self.blocks.truncate(idx);
        truncate_after_last_user(&mut self.conversation);
        let ghost cut = self.conversation@;
        let _ = self.conversation.pop();
        assert(self.conversation@ =~= popped(cut));
        self.tool_round = 0;
        self.pending_tool_calls = Vec::new();
        self.input = user_text;
        self.status = String::from_str("편집 모드 — 수정 후 Enter");
    }

    /// Takes in both replies of the compare exchange whose reply blocks are
    /// `openrouter_block_id` and `tabby_block_id`; each result holds the reply
    /// or the explained error. A reply for an exchange that is not the pending
    /// one is ignored. Otherwise both blocks show their reply, the conversation
    /// records both, the exchange ends and its abort key is dropped, the session
    /// title is derived, and what is to be written to disk is returned.
    pub fn on_compare_responses_loaded(
        &mut self,
        openrouter_block_id: u64,
        tabby_block_id: u64,
        openrouter_result: Result<String, String>,
        tabby_result: Result<String, String>,
    ) -> (r: Option<crate::model::PersistedAllSessions>)
        ensures
            ({
                let o = *old(self);
                let f = *final(self);
                let a = compare_reply_text(openrouter_result, "[OpenRouter] 빈 응답"@);
                let b = compare_reply_text(tabby_result, "[Tabby] 빈 응답"@);
                let current = o.ui.compare_pending && o.compare_block_ids == Some(
                    (openrouter_block_id, tabby_block_id),
                );
                &&& !current ==> r is None && f == o
                &&& current ==> {
                    &&& exists|mid: Seq<Block>|
                        #[trigger] crate::chat::reply_filled(o.blocks@, mid, openrouter_block_id, a)
                            && crate::chat::reply_filled(mid, f.blocks@, tabby_block_id, b)
                    &&& f.conversation@.drop_last() == o.conversation@
                    &&& f.conversation@.last().role@ == "assistant"@
                    &&& f.conversation@.last().content is Some
                    &&& f.conversation@.last().content->0@ == compare_transcript(a, b)
                    &&& f.current_session_title@ == crate::chat::retitled_from(
                        o.current_session_title@,
                        f.conversation@,
                    )
                    &&& f.status@ == "Compare 응답 완료"@
                    &&& f.compare_block_ids is None
                    &&& (o.streaming_block_id == Some(openrouter_block_id) || o.streaming_block_id
                        == Some(tabby_block_id)) ==> f.streaming_raw@.len() == 0
                    &&& !(o.streaming_block_id == Some(openrouter_block_id) || o.streaming_block_id
                        == Some(tabby_block_id)) ==> f.streaming_raw == o.streaming_raw
                    &&& f.ui == (crate::state::UiState { compare_pending: false, ..o.ui })
                    &&& f == (App {
                        blocks: f.blocks,
                        conversation: f.conversation,
                        current_session_title: f.current_session_title,
                        status: f.status,
                        compare_block_ids: f.compare_block_ids,
                        streaming_raw: f.streaming_raw,
                        ui: f.ui,
                        abort_handle: None,
                        ..o
                    })
                    &&& r matches Some(p) && crate::sessions::saved_as(f, p)
                }
            }),
    {
        let current = self.ui.compare_pending && match self.compare_block_ids {
            Some((x, y)) => x == openrouter_block_id && y == tabby_block_id,
            None => false,
        };
        if !current {
            return None;
        }
        let a = compare_reply(openrouter_result, "[OpenRouter] 빈 응답");
        let b = compare_reply(tabby_result, "[Tabby] 빈 응답");
        let ghost before = self.blocks@;
        self.fill_assistant_block(openrouter_block_id, a.as_str());
        let ghost mid = self.blocks@;
        self.fill_assistant_block(tabby_block_id, b.as_str());
        assert(crate::chat::reply_filled(before, mid, openrouter_block_id, a@));
        let mut t = String::from_str("[OpenRouter]\n");
        t.append(a.as_str());
        t.append("\n\n[Tabby]\n");
        t.append(b.as_str());
        self.conversation.push(ChatMessage::text("assistant", t));
        assert(self.conversation@.drop_last() =~= old(self).conversation@);
        self.ui.compare_pending = false;
        self.compare_block_ids = None;
        self.abort_handle = None;
        self.status = String::from_str("Compare 응답 완료");
        self.maybe_update_title();
        assert(self.current_session_title@ == crate::chat::retitled_from(
            old(self).current_session_title@,
            self.conversation@,
        ));
        assert(crate::chat::reply_filled(mid, self.blocks@, tabby_block_id, b@));
        let p = self.save_session();
        assert(crate::sessions::saved_as(*self, p));
        Some(p)
    }

    /// Stops the reply being streamed at the user's request, keeping its partial
    /// text, and returns what is to be written to disk.
    pub fn stop_stream(&mut self) -> (p: crate::model::PersistedAllSessions)
        ensures
            exists|mid: App|
                #[trigger] crate::chat::stream_stopped(*old(self), mid, true) && *final(self) == (
                App {
                    status: final(self).status,
                    current_session_title: final(self).current_session_title,
                    ..mid
                }) && final(self).current_session_title@ == crate::chat::retitled(mid),
            final(self).status@ == "중지됨"@,
            crate::sessions::saved_as(*final(self), p),
    {
        self.abort_active_chat_stream(true);
        let ghost mid = *self;
        self.status = String::from_str("중지됨");
        self.maybe_update_title();
        assert(crate::chat::stream_stopped(*old(self), mid, true));
        self.save_session()
    }
}

} // verus!
