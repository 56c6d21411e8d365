//! Chat sessions: the session on screen, the sessions kept aside, what is
//! written to disk, and starting, deleting and switching sessions.
use crate::chat::stream_stopped;
use crate::model::{
    messages_view, CloseLifecycleEvent, Effect, body_text, copy_messages, copy_string, Block, BlockBody, InactiveSession, PersistedAllSessions,
    PersistedBlock, PersistedSessionData, ViewMode,
};
use crate::seqs::{first_where, lemma_first_where, lemma_first_where_is, lemma_first_where_none};
use crate::state::{App, InferenceProcess, PtyState, UiState};
use crate::text::str_equals;
use vstd::prelude::*;

verus! {

/// A stored block as plain values: id, role, text and model.
pub type BlockRecord = (u64, Seq<char>, Seq<char>, Seq<char>);

/// The plain values of a stored block.
pub open spec fn record_of(b: PersistedBlock) -> BlockRecord {
    (b.id, b.role@, b.content@, b.model@)
}

/// The plain values of stored blocks.
pub open spec fn records(v: Seq<PersistedBlock>) -> Seq<BlockRecord> {
    v.map_values(|b: PersistedBlock| record_of(b))
}

/// How a chat block is stored: user and assistant blocks keep their id, role,
/// text (the raw stream text for the block being streamed, `sid`) and model
/// (empty when none); tool results are not stored.
pub open spec fn stored_block(b: Block, sid: Option<u64>, raw: Seq<char>) -> Option<BlockRecord> {
    let content = if sid == Some(b.id) {
        raw
    } else {
        body_text(b.body)
    };
    let model = match b.model {
        Some(m) => m@,
        None => Seq::empty(),
    };
    match b.body {
        BlockBody::User(_) => Some((b.id, "user"@, content, model)),
        BlockBody::Assistant(_) => Some((b.id, "assistant"@, content, model)),
        BlockBody::ToolResult { .. } => None,
    }
}

/// How a run of chat blocks is stored, in order.
pub open spec fn stored_blocks(blocks: Seq<Block>, sid: Option<u64>, raw: Seq<char>) -> Seq<
    BlockRecord,
>
    decreases blocks.len(),
{
    if blocks.len() == 0 {
        Seq::empty()
    } else {
        let rest = stored_blocks(blocks.drop_last(), sid, raw);
        match stored_block(blocks.last(), sid, raw) {
            Some(r) => rest.push(r),
            None => rest,
        }
    }
}

/// The blocks of the session on screen as they are stored.
pub open spec fn current_records(app: App) -> Seq<BlockRecord> {
    stored_blocks(app.blocks@, app.streaming_block_id, app.streaming_raw@)
}

/// Whether the kept session `s` records the session on screen of `app`.
pub open spec fn records_current(s: InactiveSession, app: App) -> bool {
    &&& s.id == app.current_session_id
    &&& s.title@ == app.current_session_title@
    &&& messages_view(s.conversation@) == messages_view(app.conversation@)
    &&& records(s.blocks@) == current_records(app)
    &&& s.next_block_id == app.next_block_id
    &&& s.scroll_y_bits == app.current_scroll_y_bits
}

/// Whether a kept session has id `id`.
pub open spec fn session_has_id(id: u64) -> spec_fn(InactiveSession) -> bool {
    |s: InactiveSession| s.id == id
}

/// Whether a kept session has an id other than `id`.
pub open spec fn session_lacks_id(id: u64) -> spec_fn(InactiveSession) -> bool {
    |s: InactiveSession| s.id != id
}

/// Whether `after` is the kept sessions of `app` once the session on screen is
/// put among them: an empty session is not kept; otherwise it replaces the
/// kept session with its id, or is added at the end.
pub open spec fn snapshot_stored(app: App, after: Seq<InactiveSession>) -> bool {
    let before = app.inactive_sessions@;
    let k = first_where(before, session_has_id(app.current_session_id));
    let at = if k >= 0 {
        k
    } else {
        before.len() as int
    };
    if app.conversation@.len() == 0 && app.blocks@.len() == 0 {
        after == before
    } else {
        &&& after.len() == if k >= 0 {
            before.len() as int
        } else {
            before.len() + 1int
        }
        &&& forall|i: int| 0 <= i < before.len() && i != at ==> after[i] == before[i]
        &&& records_current(after[at], app)
    }
}

/// Whether stored session data `d` holds the kept session `s`.
pub open spec fn data_of_kept(d: PersistedSessionData, s: InactiveSession) -> bool {
    &&& d.id == s.id
    &&& d.title@ == s.title@
    &&& messages_view(d.conversation@) == messages_view(s.conversation@)
    &&& d.blocks@ == s.blocks@
    &&& d.next_block_id == s.next_block_id
    &&& d.scroll_y_bits == s.scroll_y_bits
}

/// Whether stored session data `d` holds the session on screen of `app`.
pub open spec fn data_of_current(d: PersistedSessionData, app: App) -> bool {
    &&& d.id == app.current_session_id
    &&& d.title@ == app.current_session_title@
    &&& messages_view(d.conversation@) == messages_view(app.conversation@)
    &&& records(d.blocks@) == current_records(app)
    &&& d.next_block_id == app.next_block_id
    &&& d.scroll_y_bits == app.current_scroll_y_bits
}

/// Whether `p` is what `app` writes to disk: the kept sessions in order, then
/// the session on screen, with the index of the first session that has the
/// id of the one on screen.
pub open spec fn saved_as(app: App, p: PersistedAllSessions) -> bool {
    let kept = app.inactive_sessions@;
    let k = first_where(kept, session_has_id(app.current_session_id));
    &&& p.sessions@.len() == kept.len() + 1
    &&& forall|i: int| 0 <= i < kept.len() ==> data_of_kept(#[trigger] p.sessions@[i], kept[i])
    &&& data_of_current(p.sessions@.last(), app)
    &&& p.active_idx == if k >= 0 {
        k
    } else {
        kept.len() as int
    }
}

/// Whether `b` is the chat block brought back from the stored block `p`: a
/// user block for role `user`, an assistant block otherwise, shown rendered,
/// with no model when the stored model is empty.
pub open spec fn restored_from(b: Block, p: PersistedBlock) -> bool {
    &&& b.id == p.id
    &&& p.role@ == "user"@ ==> b.body is User
    &&& p.role@ != "user"@ ==> b.body is Assistant
    &&& body_text(b.body) == p.content@
    &&& b.view_mode == ViewMode::Rendered
    &&& p.model@.len() == 0 ==> b.model is None
    &&& p.model@.len() > 0 ==> b.model is Some && b.model->0@ == p.model@
}

proof fn lemma_stored_blocks_step(blocks: Seq<Block>, sid: Option<u64>, raw: Seq<char>, i: int)
    requires
        0 <= i < blocks.len(),
    ensures
        stored_blocks(blocks.take(i + 1), sid, raw) == match stored_block(blocks[i], sid, raw) {
            Some(r) => stored_blocks(blocks.take(i), sid, raw).push(r),
            None => stored_blocks(blocks.take(i), sid, raw),
        },
{
    assert(blocks.take(i + 1).drop_last() =~= blocks.take(i));
    assert(blocks.take(i + 1).last() == blocks[i]);
}

fn copy_records(v: &Vec<PersistedBlock>) -> (r: Vec<PersistedBlock>)
    ensures
        r@ == v@,
{
    let mut out: Vec<PersistedBlock> = Vec::new();
    let n = v.len();
    let mut i: usize = 0;
    while i < n
        invariant
            n == v@.len(),
            i <= n,
            out@ == v@.take(i as int),
        decreases n - i,
    {
        let b = PersistedBlock {
            id: v[i].id,
            role: copy_string(&v[i].role),
            content: copy_string(&v[i].content),
            model: copy_string(&v[i].model),
        };
        out.push(b);
        assert(out@ =~= v@.take(i + 1));
        i = i + 1;
    }
    assert(v@.take(n as int) =~= v@);
    out
}

fn kept_position(kept: &Vec<InactiveSession>, id: u64) -> (r: Option<usize>)
    ensures
        match r {
            Some(i) => i == first_where(kept@, session_has_id(id)),
            None => first_where(kept@, session_has_id(id)) == -1,
        },
{
    let n = kept.len();
    let mut i: usize = 0;
    while i < n
        invariant
            n == kept@.len(),
            i <= n,
            forall|j: int| 0 <= j < i ==> !session_has_id(id)(#[trigger] kept@[j]),
        decreases n - i,
    {
        if kept[i].id == id {
            proof {
                lemma_first_where_is(kept@, session_has_id(id), i as int);
            }
            return Some(i);
        }
        i = i + 1;
    }
    proof {
        lemma_first_where_none(kept@, session_has_id(id));
    }
    None
}

fn kept_data(s: &InactiveSession) -> (d: PersistedSessionData)
    ensures
        data_of_kept(d, *s),
{
    PersistedSessionData {
        id: s.id,
        title: copy_string(&s.title),
        conversation: copy_messages(&s.conversation),
        blocks: copy_records(&s.blocks),
        next_block_id: s.next_block_id,
        scroll_y_bits: s.scroll_y_bits,
    }
}

/// The chat block brought back from the stored block `p`.
pub fn restore_block(p: &PersistedBlock) -> (b: Block)
    ensures
        restored_from(b, *p),
{
    let text = copy_string(&p.content);
    let body = if str_equals(p.role.as_str(), "user") {
        BlockBody::User(text)
    } else {
        BlockBody::Assistant(text)
    };
    let model = if p.model.as_str().unicode_len() == 0 {
        None
    } else {
        Some(copy_string(&p.model))
    };
    Block { id: p.id, body, view_mode: ViewMode::Rendered, model }
}

fn restore_blocks(v: &Vec<PersistedBlock>) -> (r: Vec<Block>)
    ensures
        r@.len() == v@.len(),
        forall|i: int| 0 <= i < v@.len() ==> restored_from(#[trigger] r@[i], v@[i]),
{
    let mut out: Vec<Block> = Vec::new();
    let n = v.len();
    let mut i: usize = 0;
    while i < n
        invariant
            n == v@.len(),
            i <= n,
            out@.len() == i,
            forall|j: int| 0 <= j < i ==> restored_from(#[trigger] out@[j], v@[j]),
        decreases n - i,
    {
        out.push(restore_block(&v[i]));
        i = i + 1;
    }
    out
}

impl App {
    /// The blocks of the session on screen as they are stored.
    pub fn persisted_blocks(&self) -> (r: Vec<PersistedBlock>)
        ensures
            records(r@) == current_records(*self),
    {
        let mut out: Vec<PersistedBlock> = Vec::new();
        let n = self.blocks.len();
        let mut i: usize = 0;
        assert(self.blocks@.take(0) =~= Seq::<Block>::empty());
        assert(records(out@) =~= Seq::<BlockRecord>::empty());
        while i < n
            invariant
                n == self.blocks@.len(),
                i <= n,
                records(out@) == stored_blocks(
                    self.blocks@.take(i as int),
                    self.streaming_block_id,
                    self.streaming_raw@,
                ),
            decreases n - i,
        {
            proof {
                lemma_stored_blocks_step(
                    self.blocks@,
                    self.streaming_block_id,
                    self.streaming_raw@,
                    i as int,
                );
            }
            let b = &self.blocks[i];
            let streaming = match self.streaming_block_id {
                Some(s) => s == b.id,
                None => false,
            };
            let content = if streaming {
                copy_string(&self.streaming_raw)
            } else {
                match &b.body {
                    BlockBody::User(s) => copy_string(s),
                    BlockBody::Assistant(s) => copy_string(s),
                    BlockBody::ToolResult { summary, .. } => copy_string(summary),
                }
            };
            let model = match &b.model {
                Some(m) => copy_string(m),
                None => String::new(),
            };
            let ghost before = out@;
            match &b.body {
                BlockBody::User(_) => {
                    out.push(
                        PersistedBlock { id: b.id, role: String::from_str("user"), content, model },
                    );
                    assert(records(out@) =~= records(before).push(record_of(out@.last())));
                },
                BlockBody::Assistant(_) => {
                    out.push(
                        PersistedBlock {
                            id: b.id,
                            role: String::from_str("assistant"),
                            content,
                            model,
                        },
                    );
                    assert(records(out@) =~= records(before).push(record_of(out@.last())));
                },
                BlockBody::ToolResult { .. } => {},
            }
            i = i + 1;
        }
        assert(self.blocks@.take(n as int) =~= self.blocks@);
        out
    }

    /// Puts the session on screen among the kept sessions, replacing the kept
    /// copy of it; an empty session is not kept.
    pub fn snapshot_current_to_inactive(&mut self)
        ensures
            snapshot_stored(*old(self), final(self).inactive_sessions@),
            *final(self) == (App { inactive_sessions: final(self).inactive_sessions, ..*old(self) }),
    {
        if self.conversation.len() == 0 && self.blocks.len() == 0 {
            return;
        }
        let blocks = self.persisted_blocks();
        let snap = InactiveSession {
            id: self.current_session_id,
            title: copy_string(&self.current_session_title),
            conversation: copy_messages(&self.conversation),
            blocks,
            next_block_id: self.next_block_id,
            scroll_y_bits: self.current_scroll_y_bits,
        };
        proof {
            lemma_first_where(self.inactive_sessions@, session_has_id(self.current_session_id));
        }
        match kept_position(&self.inactive_sessions, self.current_session_id) {
            Some(idx) => {
                self.inactive_sessions.set(idx, snap);
            },
            None => {
                self.inactive_sessions.push(snap);
            },
        }
    }

    /// Everything that is written to disk: the kept sessions, then the session
    /// on screen, with the index of the session on screen.
    pub fn save_session(&self) -> (p: PersistedAllSessions)
        ensures
            saved_as(*self, p),
    {
        let mut sessions: Vec<PersistedSessionData> = Vec::new();
        let n = self.inactive_sessions.len();
        let mut i: usize = 0;
        while i < n
            invariant
                n == self.inactive_sessions@.len(),
                i <= n,
                sessions@.len() == i,
                forall|j: int|
                    0 <= j < i ==> data_of_kept(
                        #[trigger] sessions@[j],
                        self.inactive_sessions@[j],
                    ),
            decreases n - i,
        {
            sessions.push(kept_data(&self.inactive_sessions[i]));
            i = i + 1;
        }
        sessions.push(
            PersistedSessionData {
                id: self.current_session_id,
                title: copy_string(&self.current_session_title),
                conversation: copy_messages(&self.conversation),
                blocks: self.persisted_blocks(),
                next_block_id: self.next_block_id,
                scroll_y_bits: self.current_scroll_y_bits,
            },
        );
        let active_idx = match kept_position(&self.inactive_sessions, self.current_session_id) {
            Some(k) => k,
            None => n,
        };
        PersistedAllSessions { sessions, active_idx }
    }

    /// Hands out the next session id.
    pub fn allocate_session_id(&mut self) -> (id: u64)
        requires
            old(self).next_session_id < u64::MAX,
        ensures
            id == old(self).next_session_id,
            *final(self) == (App { next_session_id: (id + 1) as u64, ..*old(self) }),
    {
        let id = self.next_session_id;
        self.next_session_id = self.next_session_id + 1;
        id
    }

    /// Starts a new, empty session: the stream stops keeping its partial reply,
    /// the session on screen is kept aside, and the new session gets the next
    /// session id and the default title. Returns what is to be written to disk.
    pub fn new_chat(&mut self) -> (p: PersistedAllSessions)
        requires
            old(self).next_session_id < u64::MAX,
        ensures
            exists|mid: App|
                #[trigger] stream_stopped(*old(self), mid, true) && snapshot_stored(
                    mid,
                    final(self).inactive_sessions@,
                ) && *final(self) == (App {
                    inactive_sessions: final(self).inactive_sessions,
                    blocks: final(self).blocks,
                    conversation: final(self).conversation,
                    next_block_id: 0,
                    input: final(self).input,
                    current_session_id: old(self).next_session_id,
                    next_session_id: (old(self).next_session_id + 1) as u64,
                    current_session_title: final(self).current_session_title,
                    status: final(self).status,
                    ui: UiState { pending_delete_session: None, ..mid.ui },
                    ..mid
                }),
            final(self).blocks@.len() == 0,
            final(self).conversation@.len() == 0,
            final(self).input@ == Seq::<char>::empty(),
            final(self).current_session_title@ == "새 채팅"@,
            final(self).status@ == "새 채팅"@,
            saved_as(*final(self), p),
    {
        self.abort_active_chat_stream(true);
        let ghost mid = *self;
        self.snapshot_current_to_inactive();
        self.blocks = Vec::new();
        self.conversation = Vec::new();
        self.next_block_id = 0;
        self.input = String::new();
        self.ui.pending_delete_session = None;
        self.current_session_id = self.allocate_session_id();
        self.current_session_title = String::from_str("새 채팅");
        self.status = String::from_str("새 채팅");
        assert(stream_stopped(*old(self), mid, true));
        self.save_session()
    }

    /// Deletes session `target_id`: the session on screen is emptied and given
    /// a new id and the default title, a kept one is dropped. Returns what is to
    /// be written to disk.
    #[verifier::rlimit(60)]
    pub fn delete_session(&mut self, target_id: u64) -> (p: PersistedAllSessions)
        requires
            old(self).next_session_id < u64::MAX,
        ensures
            final(self).ui == (UiState { pending_delete_session: None, ..old(self).ui }),
            target_id == old(self).current_session_id ==> {
                &&& final(self).blocks@.len() == 0
                &&& final(self).conversation@.len() == 0
                &&& final(self).current_session_title@ == "새 채팅"@
                &&& *final(self) == (App {
                    blocks: final(self).blocks,
                    conversation: final(self).conversation,
                    next_block_id: 0,
                    current_session_id: old(self).next_session_id,
                    next_session_id: (old(self).next_session_id + 1) as u64,
                    current_session_title: final(self).current_session_title,
                    ui: final(self).ui,
                    ..*old(self)
                })
            },
            target_id != old(self).current_session_id ==> {
                &&& final(self).inactive_sessions@ == old(self).inactive_sessions@.filter(
                    session_lacks_id(target_id),
                )
                &&& *final(self) == (App {
                    inactive_sessions: final(self).inactive_sessions,
                    ui: final(self).ui,
                    ..*old(self)
                })
            },
            saved_as(*final(self), p),
    {
        self.ui.pending_delete_session = None;
        if target_id == self.current_session_id {
            self.blocks = Vec::new();
            self.conversation = Vec::new();
            self.next_block_id = 0;
            self.current_session_id = self.allocate_session_id();
            self.current_session_title = String::from_str("새 채팅");
        } else {
            let ghost orig = self.inactive_sessions@;
            let ghost keep = session_lacks_id(target_id);
            let mut rest: Vec<InactiveSession> = Vec::new();
            std::mem::swap(&mut rest, &mut self.inactive_sessions);
            let mut k: usize = 0;
            assert(orig.len() == rest.len());
            assert(orig.take(0).filter(keep) =~= Seq::<InactiveSession>::empty()) by {
                reveal(Seq::filter);
            }
            while rest.len() > 0
                invariant
                    k <= orig.len() <= usize::MAX,
                    rest@.len() == orig.len() - k,
                    rest@ == orig.skip(k as int),
                    self.inactive_sessions@ == orig.take(k as int).filter(keep),
                    *self == (App {
                        inactive_sessions: self.inactive_sessions,
                        ui: UiState { pending_delete_session: None, ..old(self).ui },
                        ..*old(self)
                    }),
                    old(self).current_session_id != target_id,
                    keep == session_lacks_id(target_id),
                decreases rest@.len(),
            {
                let s = rest.remove(0);
                proof {
                    assert(orig.skip(k as int)[0] == orig[k as int]);
                    assert(orig.skip(k as int).drop_first() =~= orig.skip(k + 1));
                    crate::seqs::lemma_filter_take_step(orig, keep, k as int);
                }
                if s.id != target_id {
                    self.inactive_sessions.push(s);
                }
                k = k + 1;
            }
            assert(orig.take(orig.len() as int) =~= orig);
        }
        self.save_session()
    }

    /// Brings the kept session `target_id` on screen: the stream stops keeping
    /// its partial reply, the session on screen is kept aside, and the target
    /// leaves the kept sessions. Returns what is to be written to disk and the
    /// scroll offset to restore, or `None` when the target is the session on
    /// screen or is not kept, in which case nothing changes.
    pub fn switch_session(&mut self, target_id: u64) -> (r: Option<(PersistedAllSessions, u32)>)
        ensures
            ({
                let k = first_where(old(self).inactive_sessions@, session_has_id(target_id));
                &&& (target_id == old(self).current_session_id || k < 0) ==> (r is None
                    && *final(self) == *old(self))
                &&& !(target_id == old(self).current_session_id || k < 0) ==> {
                    let target = old(self).inactive_sessions@[k];
                    &&& r matches Some(out) && out.1 == target.scroll_y_bits && saved_as(
                        *final(self),
                        out.0,
                    )
                    &&& final(self).current_session_id == target_id
                    &&& final(self).current_session_title@ == target.title@
                    &&& final(self).conversation@ == target.conversation@
                    &&& final(self).next_block_id == target.next_block_id
                    &&& final(self).current_scroll_y_bits == target.scroll_y_bits
                    &&& final(self).blocks@.len() == target.blocks@.len()
                    &&& forall|i: int|
                        0 <= i < target.blocks@.len() ==> restored_from(
                            #[trigger] final(self).blocks@[i],
                            target.blocks@[i],
                        )
                    &&& final(self).status@ == "세션 전환됨"@
                    &&& final(self).input@ == Seq::<char>::empty()
                    &&& exists|mid: App|
                        #[trigger] stream_stopped(*old(self), mid, true) && snapshot_stored(
                            mid,
                            final(self).inactive_sessions@.insert(k, target),
                        ) && *final(self) == (App {
                            inactive_sessions: final(self).inactive_sessions,
                            blocks: final(self).blocks,
                            conversation: final(self).conversation,
                            next_block_id: final(self).next_block_id,
                            input: final(self).input,
                            current_session_id: final(self).current_session_id,
                            current_session_title: final(self).current_session_title,
                            current_scroll_y_bits: final(self).current_scroll_y_bits,
                            status: final(self).status,
                            ui: UiState { pending_delete_session: None, ..mid.ui },
                            ..mid
                        })
                }
            }),
    {
        proof {
            lemma_first_where(old(self).inactive_sessions@, session_has_id(target_id));
        }
        if target_id == self.current_session_id {
            return None;
        }
        let idx = match kept_position(&self.inactive_sessions, target_id) {
            Some(i) => i,
            None => return None,
        };
        let ghost target = self.inactive_sessions@[idx as int];
        self.abort_active_chat_stream(true);
        let ghost mid = *self;
        self.snapshot_current_to_inactive();
        proof {
            lemma_first_where(mid.inactive_sessions@, session_has_id(mid.current_session_id));
            assert(self.inactive_sessions@[idx as int] == target);
        }
        let ghost snap = self.inactive_sessions@;
        let t = self.inactive_sessions.remove(idx);
        assert(self.inactive_sessions@.insert(idx as int, target) =~= snap);
        self.current_session_id = t.id;
        self.current_session_title = t.title;
        self.next_block_id = t.next_block_id;
        self.blocks = restore_blocks(&t.blocks);
        self.conversation = t.conversation;
        self.current_scroll_y_bits = t.scroll_y_bits;
        self.input = String::new();
        self.ui.pending_delete_session = None;
        self.status = String::from_str("세션 전환됨");
        assert(stream_stopped(*old(self), mid, true));
        let p = self.save_session();
        Some((p, t.scroll_y_bits))
    }
}


/// `app` once its close has started, with the close events of `later` (the
/// stream bookkeeping is untouched by that step).
pub open spec fn closing(app: App, later: App) -> App {
    App { close_in_progress: true, close_lifecycle_events: later.close_lifecycle_events, ..app }
}

impl App {
    fn record_close_event(&mut self, event: CloseLifecycleEvent)
        ensures
            final(self).close_lifecycle_events@ == old(self).close_lifecycle_events@.push(event),
            *final(self) == (App {
                close_lifecycle_events: final(self).close_lifecycle_events,
                ..*old(self)
            }),
    {
        self.close_lifecycle_events.push(event);
    }

    /// Starts closing the window, unless a close is under way: the stream
    /// stops keeping its partial reply, and the surrounding program is asked
    /// to abort the requests in flight and to stop the app's own runtime and
    /// terminal, whose handles it is handed.
    pub fn begin_window_close(&mut self) -> (effects: Vec<Effect>)
        ensures
            old(self).close_in_progress ==> effects@.len() == 0 && *final(self) == *old(self),
            !old(self).close_in_progress ==> {
                &&& effects@.len() == 2
                &&& effects@[0] is AbortChatRequests
                &&& effects@[1] is ReapOwnedProcesses
                &&& final(self).close_lifecycle_events@ == old(self).close_lifecycle_events@.push(
                    CloseLifecycleEvent::CancelStreamAndMcp,
                ).push(CloseLifecycleEvent::ReapInferenceAndPty)
                &&& exists|mid: App|
                    #[trigger] stream_stopped(closing(*old(self), mid), mid, true) && *final(self) == (App {
                        close_lifecycle_events: final(self).close_lifecycle_events,
                        inference_process: InferenceProcess { stop_handle: false, ..mid.inference_process },
                        pty: PtyState { session: false, ..mid.pty },
                        ..mid
                    })
            },
    {
        let mut effects: Vec<Effect> = Vec::new();
        if self.close_in_progress {
            return effects;
        }
        self.close_in_progress = true;
        self.record_close_event(CloseLifecycleEvent::CancelStreamAndMcp);
        let ghost pre = *self;
        self.abort_active_chat_stream(true);
        let ghost mid = *self;
        self.inference_process.stop_handle = false;
        self.pty.session = false;
        self.record_close_event(CloseLifecycleEvent::ReapInferenceAndPty);
        effects.push(Effect::AbortChatRequests);
        effects.push(Effect::ReapOwnedProcesses);
        assert(pre == closing(*old(self), mid));
        assert(stream_stopped(pre, mid, true));
        effects
    }

    /// Takes in the outcome of stopping the app's own processes before the
    /// window closes; `inference_back` and `pty_back` tell whether the runtime
    /// and terminal handles came back unstopped, in which case they are held
    /// again. A failure ends the close and is reported; otherwise the
    /// sessions are to be written to disk, which is returned.
    pub fn on_close_processes_reaped(
        &mut self,
        result: Result<(), String>,
        inference_back: bool,
        pty_back: bool,
    ) -> (p: Option<PersistedAllSessions>)
        ensures
            ({
                let o = *old(self);
                let f = *final(self);
                let held = App {
                    inference_process: InferenceProcess {
                        stop_handle: o.inference_process.stop_handle || inference_back,
                        ..o.inference_process
                    },
                    pty: PtyState { session: o.pty.session || pty_back, ..o.pty },
                    ..o
                };
                match result {
                    Err(e) => {
                        &&& p is None
                        &&& f.status@ == "종료 전 프로세스 정리 실패: "@ + e@
                        &&& f == (App { close_in_progress: false, status: f.status, ..held })
                    },
                    Ok(_) => {
                        &&& f.close_lifecycle_events@ == o.close_lifecycle_events@.push(
                            CloseLifecycleEvent::Persist,
                        )
                        &&& f == (App { close_lifecycle_events: f.close_lifecycle_events, ..held })
                        &&& p matches Some(s) && saved_as(f, s)
                    },
                }
            }),
    {
        if inference_back {
            self.inference_process.stop_handle = true;
        }
        if pty_back {
            self.pty.session = true;
        }
        match result {
            Err(e) => {
                self.close_in_progress = false;
                let mut st = String::from_str("종료 전 프로세스 정리 실패: ");
                st.append(e.as_str());
                self.status = st;
                None
            },
            Ok(_) => {
                self.record_close_event(CloseLifecycleEvent::Persist);
                Some(self.save_session())
            },
        }
    }

    /// Takes in whether the sessions were written to disk while closing:
    /// when they were not the close ends; otherwise the clean shutdown is to be
    /// marked next, and true is returned.
    pub fn on_close_persisted(&mut self, saved: bool) -> (mark_clean: bool)
        ensures
            mark_clean == saved,
            !saved ==> *final(self) == (App { close_in_progress: false, ..*old(self) }),
            saved ==> final(self).close_lifecycle_events@ == old(self).close_lifecycle_events@.push(
                CloseLifecycleEvent::MarkClean,
            ) && *final(self) == (App {
                close_lifecycle_events: final(self).close_lifecycle_events,
                ..*old(self)
            }),
    {
        if !saved {
            self.close_in_progress = false;
            return false;
        }
        self.record_close_event(CloseLifecycleEvent::MarkClean);
        true
    }

    /// Takes in the outcome of marking the clean shutdown, reporting a
    /// failure; the window then closes.
    pub fn on_close_marked_clean(&mut self, result: Result<(), String>)
        ensures
            final(self).close_lifecycle_events@ == old(self).close_lifecycle_events@.push(
                CloseLifecycleEvent::CloseWindow,
            ),
            match result {
                Ok(_) => final(self).status == old(self).status,
                Err(e) => final(self).status@ == "정상 종료 표시 실패: "@ + e@,
            },
            *final(self) == (App {
                close_lifecycle_events: final(self).close_lifecycle_events,
                status: final(self).status,
                ..*old(self)
            }),
    {
        if let Err(e) = result {
            let mut st = String::from_str("정상 종료 표시 실패: ");
            st.append(e.as_str());
            self.status = st;
        }
        self.record_close_event(CloseLifecycleEvent::CloseWindow);
    }
}

} // verus!
