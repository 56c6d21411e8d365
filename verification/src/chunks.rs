//! The events of a streamed reply: text arrives, tool calls are assembled
//! piece by piece, and the stream ends or fails.
use crate::chat::text_appended;
use crate::model::{copy_string, PendingToolCall};
use crate::state::App;
use vstd::prelude::*;

verus! {

/// One event of a streamed reply.
pub enum ChatEvent {
    /// More reply text.
    Token(String),
    /// A piece of tool call `index`: its id or tool name when they are given,
    /// and more of its JSON arguments.
    ToolCallDelta { index: u32, id: Option<String>, name: Option<String>, arguments: Option<String> },
    /// The stream ended, for the reason given, under the generation id given.
    Done { finish_reason: Option<String>, generation_id: Option<String> },
    /// The stream failed.
    Error(String),
}

/// What an event of the stream asks the surrounding program to do.
pub enum ChunkOutcome {
    /// No reply is streaming; nothing changed.
    Ignored,
    /// The event was taken in.
    Taken,
    /// The reply streaming into block `block_id` is complete.
    Finished { block_id: u64, finish_reason: Option<String>, generation_id: Option<String> },
    /// The reply streaming into block `block_id` failed with `error`.
    Failed { block_id: u64, error: String },
}

/// `new` when it is given, else `old`.
pub open spec fn given_or(new: Option<String>, old: Seq<char>) -> Seq<char> {
    match new {
        Some(s) => s@,
        None => old,
    }
}

/// Whether `c` has no id, no name and no arguments yet.
pub open spec fn is_blank_call(c: PendingToolCall) -> bool {
    c.id@.len() == 0 && c.name@.len() == 0 && c.arguments@.len() == 0
}

/// Whether `f` is the pending tool calls `o` with a piece of call `i` taken in:
/// blank calls fill the list up to `i`, the id and name of call `i` are
/// replaced when given, and `arguments` is added to its arguments.
pub open spec fn delta_applied(
    o: Seq<PendingToolCall>,
    f: Seq<PendingToolCall>,
    i: int,
    id: Option<String>,
    name: Option<String>,
    arguments: Option<String>,
) -> bool {
    let prev = if i < o.len() {
        (o[i].id@, o[i].name@, o[i].arguments@)
    } else {
        (Seq::<char>::empty(), Seq::<char>::empty(), Seq::<char>::empty())
    };
    &&& f.len() == if i < o.len() {
        o.len() as int
    } else {
        i + 1
    }
    &&& forall|j: int|
        0 <= j < f.len() && j != i ==> if j < o.len() {
            #[trigger] f[j] == o[j]
        } else {
            is_blank_call(f[j])
        }
    &&& f[i].id@ == given_or(id, prev.0)
    &&& f[i].name@ == given_or(name, prev.1)
    &&& f[i].arguments@ == prev.2 + given_or(arguments, Seq::empty())
}

impl App {
    /// Takes in event `event` of the reply streaming now: text is added to the
    /// reply, a tool-call piece to the pending calls (see `delta_applied`);
    /// the end or failure of the stream is handed back, nothing changed.
    pub fn on_chat_chunk(&mut self, event: ChatEvent) -> (r: ChunkOutcome)
        ensures
            ({
                let o = *old(self);
                let f = *final(self);
                match o.streaming_block_id {
                    None => r is Ignored && f == o,
                    Some(ai_id) => match event {
                        ChatEvent::Token(t) => r is Taken && text_appended(o, f, ai_id, t@),
                        ChatEvent::ToolCallDelta { index, id, name, arguments } => {
                            &&& r is Taken
                            &&& delta_applied(
                                o.pending_tool_calls@,
                                f.pending_tool_calls@,
                                index as int,
                                id,
                                name,
                                arguments,
                            )
                            &&& f == (App { pending_tool_calls: f.pending_tool_calls, ..o })
                        },
                        ChatEvent::Done { finish_reason, generation_id } => {
                            &&& r == (ChunkOutcome::Finished {
                                block_id: ai_id,
                                finish_reason,
                                generation_id,
                            })
                            &&& f == o
                        },
                        ChatEvent::Error(e) => {
                            &&& r == (ChunkOutcome::Failed { block_id: ai_id, error: e })
                            &&& f == o
                        },
                    },
                }
            }),
    {
        let ai_id = match self.streaming_block_id {
            Some(id) => id,
            None => {
                return ChunkOutcome::Ignored;
            },
        };
        match event {
            ChatEvent::Token(t) => {
                self.append_assistant_block_text(ai_id, t.as_str());
                ChunkOutcome::Taken
            },
            ChatEvent::ToolCallDelta { index, id, name, arguments } => {
                self.take_tool_call_delta(index as usize, id, name, arguments);
                ChunkOutcome::Taken
            },
            ChatEvent::Done { finish_reason, generation_id } => {
                ChunkOutcome::Finished { block_id: ai_id, finish_reason, generation_id }
            },
            ChatEvent::Error(error) => ChunkOutcome::Failed { block_id: ai_id, error },
        }
    }

    fn take_tool_call_delta(
        &mut self,
        i: usize,
        id: Option<String>,
        name: Option<String>,
        arguments: Option<String>,
    )
        ensures
            delta_applied(
                old(self).pending_tool_calls@,
                final(self).pending_tool_calls@,
                i as int,
                id,
                name,
                arguments,
            ),
            *final(self) == (App { pending_tool_calls: final(self).pending_tool_calls, ..*old(self) }),
    {
        let ghost o = self.pending_tool_calls@;
        while self.pending_tool_calls.len() <= i
            invariant
                o.len() <= self.pending_tool_calls@.len() <= if i < o.len() {
                    o.len() as int
                } else {
                    i + 1
                },
                forall|j: int|
                    0 <= j < self.pending_tool_calls@.len() ==> if j < o.len() {
                        #[trigger] self.pending_tool_calls@[j] == o[j]
                    } else {
                        is_blank_call(self.pending_tool_calls@[j])
                    },
                *self == (App { pending_tool_calls: self.pending_tool_calls, ..*old(self) }),
            decreases i + 1 - self.pending_tool_calls@.len(),
        {
            self.pending_tool_calls.push(
                PendingToolCall { id: String::new(), name: String::new(), arguments: String::new() },
            );
        }
        let ghost grown = self.pending_tool_calls@;
        let old_call = &self.pending_tool_calls[i];
        let new_id = match &id {
            Some(s) => copy_string(s),
            None => copy_string(&old_call.id),
        };
        let new_name = match &name {
            Some(s) => copy_string(s),
            None => copy_string(&old_call.name),
        };
        let mut new_arguments = copy_string(&old_call.arguments);
        if let Some(a) = &arguments {
            new_arguments.append(a.as_str());
        }
        proof {
            if i >= o.len() {
                assert(is_blank_call(self.pending_tool_calls@[i as int]));
            }
        }
        self.pending_tool_calls.set(
            i,
            PendingToolCall { id: new_id, name: new_name, arguments: new_arguments },
        );
        proof {
            let f = self.pending_tool_calls@;
            assert(f.len() == grown.len());
            assert forall|j: int| 0 <= j < f.len() && j != i implies if j < o.len() {
                #[trigger] f[j] == o[j]
            } else {
                is_blank_call(f[j])
            } by {
                assert(f[j] == grown[j]);
            }
            let prev_args = if (i as int) < o.len() {
                o[i as int].arguments@
            } else {
                Seq::<char>::empty()
            };
            assert(grown[i as int].arguments@ == prev_args);
            assert(prev_args + Seq::<char>::empty() =~= prev_args);
            assert(f.len() == if (i as int) < o.len() { o.len() as int } else { i + 1 });
            assert(f[i as int].id@ == given_or(id, if (i as int) < o.len() { o[i as int].id@ } else { Seq::<char>::empty() }));
            assert(f[i as int].name@ == given_or(name, if (i as int) < o.len() { o[i as int].name@ } else { Seq::<char>::empty() }));
            assert(f[i as int].arguments@ == prev_args + given_or(arguments, Seq::empty()));
        }
    }
}

} // verus!
