//! The chat stream: replies streamed into assistant blocks, stopping a stream,
//! the blocks of a compare exchange, tool result blocks and the session title.
use crate::model::{body_text, copy_opt, Block, BlockBody, ChatMessage, ViewMode};
use crate::seqs::{
    first_where, lemma_filter_take_step, lemma_first_where, lemma_first_where_is,
    lemma_first_where_none,
};
use crate::state::{next_generation, App, UiState};
use crate::text::{starts_with, str_equals};
use vstd::prelude::*;

verus! {

/// Whether a block has id `id`.
pub open spec fn has_id(id: u64) -> spec_fn(Block) -> bool {
    |b: Block| b.id == id
}

/// Whether a block has an id other than `id`.
pub open spec fn lacks_id(id: u64) -> spec_fn(Block) -> bool {
    |b: Block| b.id != id
}

/// Index of the first block with id `id`, or -1.
pub open spec fn block_index(blocks: Seq<Block>, id: u64) -> int {
    first_where(blocks, has_id(id))
}

/// `blocks` without the blocks whose id is `id`, in their order.
pub open spec fn without_block(blocks: Seq<Block>, id: u64) -> Seq<Block> {
    blocks.filter(lacks_id(id))
}

/// Whether `after` is `before` with the first block of id `id` showing `text`,
/// when that block is an assistant reply; every other block is unchanged.
pub open spec fn reply_filled(before: Seq<Block>, after: Seq<Block>, id: u64, text: Seq<char>) -> bool {
    let k = block_index(before, id);
    &&& after.len() == before.len()
    &&& forall|i: int| 0 <= i < before.len() && i != k ==> after[i] == before[i]
    &&& k >= 0 ==> if before[k].body is Assistant {
        &&& after[k].id == before[k].id
        &&& after[k].view_mode == before[k].view_mode
        &&& after[k].model == before[k].model
        &&& after[k].body is Assistant
        &&& body_text(after[k].body) == text
    } else {
        after[k] == before[k]
    }
}

/// The blocks left once the placeholders of a pending compare exchange go.
pub open spec fn blocks_without_compare(app: App) -> Seq<Block> {
    if app.ui.compare_pending {
        match app.compare_block_ids {
            Some(ids) => without_block(without_block(app.blocks@, ids.0), ids.1),
            None => app.blocks@,
        }
    } else {
        app.blocks@
    }
}

/// The reply text streamed so far into block `ai_id`: the raw stream text when
/// any arrived, else the text of the block at the streaming index of `blocks`
/// when that block is the streaming one, else nothing.
pub open spec fn streamed_text(app: App, blocks: Seq<Block>, ai_id: u64) -> Seq<char> {
    if app.streaming_raw@.len() > 0 {
        app.streaming_raw@
    } else {
        match app.streaming_block_idx {
            Some(idx) => if idx < blocks.len() && blocks[idx as int].id == ai_id {
                body_text(blocks[idx as int].body)
            } else {
                Seq::empty()
            },
            None => Seq::empty(),
        }
    }
}

/// Whether `f` is `o` with `text` added to the raw reply text, which happens
/// when `text` is not empty and the block at the streaming index is the
/// assistant block `block_id`.
pub open spec fn text_appended(o: App, f: App, block_id: u64, text: Seq<char>) -> bool {
    let appends = text.len() > 0 && o.streaming_block_idx is Some && o.streaming_block_idx->0
        < o.blocks@.len() && o.blocks@[o.streaming_block_idx->0 as int].id == block_id
        && o.blocks@[o.streaming_block_idx->0 as int].body is Assistant;
    &&& appends ==> f.streaming_raw@ == o.streaming_raw@ + text
    &&& !appends ==> f.streaming_raw == o.streaming_raw
    &&& f == (App { streaming_raw: f.streaming_raw, ..o })
}

/// The partial reply a stopped stream leaves behind.
pub open spec fn partial_reply(app: App) -> Seq<char> {
    streamed_text(app, blocks_without_compare(app), app.streaming_block_id->0)
}

/// Whether stopping the stream keeps its partial reply: a reply is streaming,
/// the caller asked to keep it, and some text arrived.
pub open spec fn keeps_reply(app: App, keep: bool) -> bool {
    app.streaming_block_id is Some && keep && partial_reply(app).len() > 0
}

/// Whether a message is the user's.
pub open spec fn is_user_message() -> spec_fn(ChatMessage) -> bool {
    |m: ChatMessage| m.role@ == "user"@
}

/// At most the first 30 characters of `s`.
pub open spec fn title_snippet(s: Seq<char>) -> Seq<char> {
    if s.len() <= 30 {
        s
    } else {
        s.take(30)
    }
}

/// The session title `title` once it is derived from the conversation
/// `conv`: a title that is empty or still the default one becomes the start of
/// the first user message, when that message has text.
pub open spec fn retitled_from(title: Seq<char>, conv: Seq<ChatMessage>) -> Seq<char> {
    let k = first_where(conv, is_user_message());
    if (title.len() == 0 || "새 채팅"@.is_prefix_of(title)) && k >= 0 && conv[k].content is Some {
        title_snippet(conv[k].content->0@)
    } else {
        title
    }
}

/// The session title of `app` once it is derived from its conversation.
pub open spec fn retitled(app: App) -> Seq<char> {
    retitled_from(app.current_session_title@, app.conversation@)
}

/// Whether `f` is `o` once its stream is stopped, keeping the partial reply
/// when `keep` asks for it (see `App::abort_active_chat_stream`).
pub open spec fn stream_stopped(o: App, f: App, keep: bool) -> bool {
    let bwc = blocks_without_compare(o);
    &&& f.mcp_request_generation == next_generation(o.mcp_request_generation)
    &&& f.mcp_pending_results == 0
    &&& f.mcp_pending_call_ids@.len() == 0
    &&& f.generation_lookup_generation == next_generation(o.generation_lookup_generation)
    &&& f.compare_generation == next_generation(o.compare_generation)
    &&& o.ui.compare_pending ==> f.compare_block_ids is None && f.compare_old_text is None
        && f.compare_new_text is None
    &&& !o.ui.compare_pending ==> f.compare_block_ids == o.compare_block_ids && f.compare_old_text
        == o.compare_old_text && f.compare_new_text == o.compare_new_text
    &&& o.streaming_block_id is None ==> f.blocks@ == bwc && f.conversation == o.conversation
    &&& keeps_reply(o, keep) ==> {
        &&& reply_filled(bwc, f.blocks@, o.streaming_block_id->0, partial_reply(o))
        &&& f.conversation@.len() == o.conversation@.len() + 1
        &&& f.conversation@.drop_last() == o.conversation@
        &&& f.conversation@.last().role@ == "assistant"@
        &&& f.conversation@.last().content is Some
        &&& f.conversation@.last().content->0@ == partial_reply(o)
    }
    &&& o.streaming_block_id is Some && !keeps_reply(o, keep) ==> {
        &&& f.blocks@ == without_block(bwc, o.streaming_block_id->0)
        &&& f.conversation == o.conversation
    }
    &&& f.streaming_block_id is None
    &&& f.streaming_block_idx is None
    &&& f.streaming_raw@ == Seq::<char>::empty()
    &&& f.pending_tool_calls@.len() == 0
    &&& f.pending_write_calls@.len() == 0
    &&& f.tool_round == 0
    &&& f.mid_stream_retries == 0
    &&& f.abort_handle is None
    &&& f.mcp_abort_handle is None
    &&& f.ui == (UiState {
        show_write_confirm: false,
        expanded_confirm_idx: None,
        compare_pending: false,
        ..o.ui
    })
    &&& f == (App {
        mcp_request_generation: f.mcp_request_generation,
        mcp_pending_results: f.mcp_pending_results,
        mcp_pending_call_ids: f.mcp_pending_call_ids,
        generation_lookup_generation: f.generation_lookup_generation,
        compare_generation: f.compare_generation,
        compare_block_ids: f.compare_block_ids,
        compare_old_text: f.compare_old_text,
        compare_new_text: f.compare_new_text,
        blocks: f.blocks,
        conversation: f.conversation,
        streaming_block_id: f.streaming_block_id,
        streaming_block_idx: f.streaming_block_idx,
        streaming_raw: f.streaming_raw,
        pending_tool_calls: f.pending_tool_calls,
        pending_write_calls: f.pending_write_calls,
        tool_round: f.tool_round,
        mid_stream_retries: f.mid_stream_retries,
        abort_handle: f.abort_handle,
        mcp_abort_handle: f.mcp_abort_handle,
        ui: f.ui,
        ..o
    })
}

pub(crate) fn block_position(blocks: &Vec<Block>, id: u64) -> (r: Option<usize>)
    ensures
        match r {
            Some(i) => i == block_index(blocks@, id),
            None => block_index(blocks@, id) == -1,
        },
{
    let n = blocks.len();
    let mut i: usize = 0;
    while i < n
        invariant
            n == blocks@.len(),
            i <= n,
            forall|j: int| 0 <= j < i ==> !has_id(id)(#[trigger] blocks@[j]),
        decreases n - i,
    {
        if blocks[i].id == id {
            proof {
                lemma_first_where_is(blocks@, has_id(id), i as int);
            }
            return Some(i);
        }
        i = i + 1;
    }
    proof {
        lemma_first_where_none(blocks@, has_id(id));
    }
    None
}

fn remove_block(blocks: &mut Vec<Block>, id: u64)
    ensures
        final(blocks)@ == without_block(old(blocks)@, id),
{
    let ghost orig = blocks@;
    assert(orig.len() == blocks.len());
    let mut rest: Vec<Block> = Vec::new();
    std::mem::swap(&mut rest, blocks);
    let mut k: usize = 0;
    assert(orig.take(0).filter(lacks_id(id)) =~= Seq::<Block>::empty()) by {
        reveal(Seq::filter);
    }
    while rest.len() > 0
        invariant
            k <= orig.len() <= usize::MAX,
            rest@.len() == orig.len() - k,
            rest@ == orig.skip(k as int),
            blocks@ == orig.take(k as int).filter(lacks_id(id)),
        decreases rest@.len(),
    {
        let b = rest.remove(0);
        proof {
            assert(orig.skip(k as int)[0] == orig[k as int]);
            assert(orig.skip(k as int).drop_first() =~= orig.skip(k + 1));
            lemma_filter_take_step(orig, lacks_id(id), k as int);
        }
        if b.id != id {
            blocks.push(b);
        }
        k = k + 1;
    }
    assert(orig.take(orig.len() as int) =~= orig);
}

impl App {
    /// Advances the stream generation, so that chunks of earlier streams are
    /// recognised as stale, and returns it.
    pub fn next_stream_generation(&mut self) -> (g: u64)
        ensures
            g == next_generation(old(self).stream_generation),
            *final(self) == (App { stream_generation: g, ..*old(self) }),
    {
        self.stream_generation = self.stream_generation.saturating_add(1);
        self.stream_generation
    }

    /// Forgets the result of the last compare exchange.
    pub fn clear_compare_result(&mut self)
        ensures
            *final(self) == (App {
                compare_old_text: None,
                compare_new_text: None,
                compare_block_ids: None,
                ..*old(self)
            }),
    {
        self.compare_old_text = None;
        self.compare_new_text = None;
        self.compare_block_ids = None;
    }

    /// Removes the two reply blocks of the compare exchange, if any, and
    /// forgets its result.
    pub fn discard_compare_blocks(&mut self)
        ensures
            final(self).blocks@ == match old(self).compare_block_ids {
                Some(ids) => without_block(without_block(old(self).blocks@, ids.0), ids.1),
                None => old(self).blocks@,
            },
            *final(self) == (App {
                blocks: final(self).blocks,
                compare_old_text: None,
                compare_new_text: None,
                compare_block_ids: None,
                ..*old(self)
            }),
    {
        if let Some((first, second)) = self.compare_block_ids {
            remove_block(&mut self.blocks, first);
            remove_block(&mut self.blocks, second);
        }
        self.clear_compare_result();
    }

    /// Shows `text` in the assistant block `block_id`, found by its id, and
    /// drops the raw stream text when that block is the one being streamed.
    pub fn fill_assistant_block(&mut self, block_id: u64, text: &str)
        ensures
            reply_filled(old(self).blocks@, final(self).blocks@, block_id, text@),
            old(self).streaming_block_id == Some(block_id) ==> final(self).streaming_raw@
                == Seq::<char>::empty(),
            old(self).streaming_block_id != Some(block_id) ==> final(self).streaming_raw
                == old(self).streaming_raw,
            *final(self) == (App {
                blocks: final(self).blocks,
                streaming_raw: final(self).streaming_raw,
                ..*old(self)
            }),
    {
        let ghost before = self.blocks@;
        proof {
            lemma_first_where(before, has_id(block_id));
        }
        if let Some(idx) = block_position(&self.blocks, block_id) {
            if matches!(self.blocks[idx].body, BlockBody::Assistant(_)) {
                let nb = Block {
                    id: self.blocks[idx].id,
                    body: BlockBody::Assistant(String::from_str(text)),
                    view_mode: self.blocks[idx].view_mode,
                    model: copy_opt(&self.blocks[idx].model),
                };
                self.blocks.set(idx, nb);
            }
        }
        let streaming = match self.streaming_block_id {
            Some(s) => s == block_id,
            None => false,
        };
        if streaming {
            self.streaming_raw = String::new();
        }
    }

    /// Adds `text` to the raw text of the reply being streamed, when the block
    /// at the streaming index is the assistant block `block_id`.
    pub fn append_assistant_block_text(&mut self, block_id: u64, text: &str)
        ensures
            text_appended(*old(self), *final(self), block_id, text@),
    {
        if text.unicode_len() == 0 {
            return;
        }
        if let Some(idx) = self.streaming_block_idx {
            if idx < self.blocks.len() && self.blocks[idx].id == block_id && matches!(
                self.blocks[idx].body,
                BlockBody::Assistant(_)
            ) {
                self.streaming_raw.append(text);
            }
        }
    }

    /// Drops the requests of the stream: the abort keys go, every generation
    /// counter advances, and a pending compare exchange is discarded with its
    /// placeholder blocks.
    fn drop_stream_requests(&mut self)
        ensures
            ({
                let o = *old(self);
                let f = *final(self);
                &&& f.blocks@ == blocks_without_compare(o)
                &&& f.mcp_request_generation == next_generation(o.mcp_request_generation)
                &&& f.mcp_pending_results == 0
                &&& f.mcp_pending_call_ids@.len() == 0
                &&& f.generation_lookup_generation == next_generation(o.generation_lookup_generation)
                &&& f.compare_generation == next_generation(o.compare_generation)
                &&& o.ui.compare_pending ==> f.compare_block_ids is None && f.compare_old_text is None
                    && f.compare_new_text is None
                &&& !o.ui.compare_pending ==> f.compare_block_ids == o.compare_block_ids
                    && f.compare_old_text == o.compare_old_text && f.compare_new_text
                    == o.compare_new_text
                &&& f.ui == (UiState { compare_pending: false, ..o.ui })
                &&& f == (App {
                    abort_handle: None,
                    mcp_abort_handle: None,
                    mcp_request_generation: f.mcp_request_generation,
                    mcp_pending_results: 0,
                    mcp_pending_call_ids: f.mcp_pending_call_ids,
                    generation_lookup_generation: f.generation_lookup_generation,
                    compare_generation: f.compare_generation,
                    compare_block_ids: f.compare_block_ids,
                    compare_old_text: f.compare_old_text,
                    compare_new_text: f.compare_new_text,
                    blocks: f.blocks,
                    ui: f.ui,
                    ..o
                })
            }),
    {
        let ghost o = *self;
        self.abort_handle = None;
        self.mcp_abort_handle = None;
        self.mcp_request_generation = self.mcp_request_generation.saturating_add(1);
        self.mcp_pending_results = 0;
        self.mcp_pending_call_ids = Vec::new();
        self.generation_lookup_generation = self.generation_lookup_generation.saturating_add(1);
        self.compare_generation = self.compare_generation.saturating_add(1);
        if self.ui.compare_pending {
            self.discard_compare_blocks();
        }
        self.ui.compare_pending = false;
    }

    /// Stops the reply being streamed: the stream and tool bookkeeping is reset,
    /// every generation counter advances so that late results are ignored, the
    /// placeholders of a pending compare exchange go, and the partial reply is
    /// kept as an assistant message when `keep_partial_assistant` asks for it
    /// and some text arrived, or its block is removed otherwise. The keys of
    /// the abort handles are dropped; the caller aborts the requests it kept
    /// under them.
    #[verifier::rlimit(60)]
    #[verifier::spinoff_prover]
    pub fn abort_active_chat_stream(&mut self, keep_partial_assistant: bool)
        ensures
            stream_stopped(*old(self), *final(self), keep_partial_assistant),
    {
        let ghost o = *self;
        let streaming_block_id = self.streaming_block_id;
        self.drop_stream_requests();
        assert(self.blocks@ == blocks_without_compare(o));
        if let Some(ai_id) = streaming_block_id {
            let txt = if self.streaming_raw.as_str().unicode_len() > 0 {
                self.streaming_raw.clone()
            } else {
                match self.streaming_block_idx {
                    Some(idx) => if idx < self.blocks.len() && self.blocks[idx].id == ai_id {
                        self.blocks[idx].body.to_text()
                    } else {
                        String::new()
                    },
                    None => String::new(),
                }
            };
            assert(txt@ == partial_reply(o));
            if keep_partial_assistant && txt.as_str().unicode_len() > 0 {
                self.fill_assistant_block(ai_id, txt.as_str());
                self.conversation.push(ChatMessage::text("assistant", txt));
                assert(self.conversation@.drop_last() =~= o.conversation@);
            } else {
                remove_block(&mut self.blocks, ai_id);
            }
        }
        self.streaming_block_id = None;
        self.streaming_block_idx = None;
        self.streaming_raw = String::new();
        self.pending_tool_calls = Vec::new();
        self.pending_write_calls = Vec::new();
        self.ui.show_write_confirm = false;
        self.ui.expanded_confirm_idx = None;
        self.tool_round = 0;
        self.mid_stream_retries = 0;
    }

    /// Hands out the next block id.
    pub fn next_id(&mut self) -> (id: u64)
        requires
            old(self).next_block_id < u64::MAX,
        ensures
            id == old(self).next_block_id,
            *final(self) == (App { next_block_id: (id + 1) as u64, ..*old(self) }),
    {
        let id = self.next_block_id;
        self.next_block_id = self.next_block_id + 1;
        id
    }

    /// Adds a tool result block, with the next block id, to the chat stream.
    pub fn push_tool_result_block(&mut self, name: &str, summary: &str, success: bool)
        requires
            old(self).next_block_id < u64::MAX,
        ensures
            final(self).blocks@.len() == old(self).blocks@.len() + 1,
            final(self).blocks@.drop_last() == old(self).blocks@,
            ({
                let b = final(self).blocks@.last();
                &&& b.id == old(self).next_block_id
                &&& b.view_mode == ViewMode::Rendered
                &&& b.model is None
                &&& b.body matches BlockBody::ToolResult { name: n, summary: s, success: ok } && n@
                    == name@ && s@ == summary@ && ok == success
            }),
            *final(self) == (App {
                blocks: final(self).blocks,
                next_block_id: (old(self).next_block_id + 1) as u64,
                ..*old(self)
            }),
    {
        let id = self.next_id();
        self.blocks.push(
            Block {
                id,
                body: BlockBody::ToolResult {
                    name: String::from_str(name),
                    summary: String::from_str(summary),
                    success,
                },
                view_mode: ViewMode::Rendered,
                model: None,
            },
        );
        assert(self.blocks@.drop_last() =~= old(self).blocks@);
    }

    /// Names a session that still has the default title after the start of its
    /// first user message.
    pub fn maybe_update_title(&mut self)
        ensures
            final(self).current_session_title@ == retitled(*old(self)),
            *final(self) == (App {
                current_session_title: final(self).current_session_title,
                ..*old(self)
            }),
    {
        let t = self.current_session_title.as_str();
        if !(t.unicode_len() == 0 || starts_with(t, "새 채팅")) {
            return;
        }
        let ghost conv = self.conversation@;
        let n = self.conversation.len();
        let mut i: usize = 0;
        while i < n
            invariant
                n == conv.len(),
                *self == *old(self),
                conv == self.conversation@,
                old(self).current_session_title@.len() == 0 || "새 채팅"@.is_prefix_of(
                    old(self).current_session_title@,
                ),
                i <= n,
                forall|j: int| 0 <= j < i ==> !is_user_message()(#[trigger] conv[j]),
            decreases n - i,
        {
            if str_equals(self.conversation[i].role.as_str(), "user") {
                proof {
                    lemma_first_where_is(conv, is_user_message(), i as int);
                }
                match &self.conversation[i].content {
                    Some(c) => {
                        let cs = c.as_str();
                        let snippet = if cs.unicode_len() <= 30 {
                            cs
                        } else {
                            cs.substring_char(0, 30)
                        };
                        self.current_session_title = String::from_str(snippet);
                    },
                    None => {},
                }
                return;
            }
            i = i + 1;
        }
        proof {
            lemma_first_where_none(conv, is_user_message());
        }
    }
}

} // verus!
