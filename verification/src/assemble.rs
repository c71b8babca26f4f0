//! The chunk assembler: consumes chunks tagged by session and request
//! identity and mutates session history or title incrementally.

use vstd::prelude::*;
use vstd::string::StringExecFns;
use crate::msg::{
    Chunk, ChunkView, Dispatch, DispatchView, MessageView, OutboundRequestView, PendingRequest,
    RequestKind,
};
use crate::registry::{State, StateView, lemma_update_keeps_wf};
use crate::session::ChatView;
use crate::dispatch::{submit_title_request, title_prompt_text, transcript, transcript_text};

verus! {

/// What one assembly step asks of the surrounding units: a persistence
/// checkpoint, and possibly a follow-up title-generation request.
pub struct ApplyOutcome {
    pub checkpoint: bool,
    pub follow_up: Option<Dispatch>,
}

/// How one chunk transforms the session it is tagged for.  A chunk that
/// cannot be placed (an insertion index that does not meet the history, or a
/// close notice) leaves the session as it is.
pub open spec fn assemble_chat(c: ChatView, kind: RequestKind, chunk: ChunkView) -> ChatView {
    match kind {
        RequestKind::ChatReply { insertion_index } => match chunk {
            ChunkView::BeginResponse { role } => {
                if insertion_index == c.history.len() {
                    ChatView {
                        history: c.history.push(MessageView { role, content: Seq::<char>::empty() }),
                        ..c
                    }
                } else {
                    c
                }
            },
            ChunkView::Content { delta } => {
                if insertion_index < c.history.len() {
                    let m = c.history[insertion_index as int];
                    ChatView {
                        history: c.history.update(
                            insertion_index as int,
                            MessageView { role: m.role, content: m.content + delta },
                        ),
                        ..c
                    }
                } else {
                    c
                }
            },
            ChunkView::Done => c,
            ChunkView::CloseResponse => c,
        },
        RequestKind::TitleReply => match chunk {
            ChunkView::BeginResponse { role } => ChatView { title: Seq::<char>::empty(), ..c },
            ChunkView::Content { delta } => ChatView { title: c.title + delta, ..c },
            ChunkView::Done => c,
            ChunkView::CloseResponse => c,
        },
    }
}

/// What one tagged chunk does to the whole registry: the post state, whether
/// a persistence checkpoint is due, and the follow-up title request, if any.
pub open spec fn apply_spec(pre: StateView, pending: PendingRequest, chunk: ChunkView) -> (
    StateView,
    bool,
    Option<DispatchView>,
) {
    if !pre.has_chat(pending.session_id) {
        (pre, false, None)
    } else {
        let i = pre.chat_idx(pending.session_id);
        let c0 = pre.chats[i];
        let post = StateView {
            chats: pre.chats.update(i, assemble_chat(c0, pending.kind, chunk)),
            current_chat_id: pre.current_chat_id,
        };
        let follow_up = if chunk is Done && pending.kind is ChatReply && c0.history.len() == 3 {
            Some(DispatchView {
                pending: PendingRequest { session_id: pending.session_id, kind: RequestKind::TitleReply },
                request: OutboundRequestView::ChatTitleRequest {
                    id: pending.session_id,
                    system_message: title_prompt_text() + transcript_text(c0.history),
                },
            })
        } else {
            None
        };
        (post, chunk is Done, follow_up)
    }
}

/// One chunk keeps a well-formed session well formed.
pub proof fn lemma_assemble_chat_wf(c: ChatView, kind: RequestKind, chunk: ChunkView)
    requires
        c.wf(),
    ensures
        assemble_chat(c, kind, chunk).wf(),
        assemble_chat(c, kind, chunk).id == c.id,
{
}

impl State {
    /// Feed one tagged chunk into the registry.
    ///
    /// A chunk tagged for an absent session changes nothing and asks for
    /// nothing.  For a present session the tagged chat reply grows at its
    /// recorded insertion index, a title reply rebuilds the title, a `Done`
    /// asks for a persistence checkpoint, and a `Done` that completes the
    /// first exchange (history length exactly three) additionally emits the
    /// title-generation request.
    pub fn apply(&mut self, pending: PendingRequest, chunk: Chunk) -> (r: ApplyOutcome)
        requires
            old(self)@.wf(),
        ensures
            final(self)@.wf(),
            final(self)@ == apply_spec(old(self)@, pending, chunk@).0,
            r.checkpoint == apply_spec(old(self)@, pending, chunk@).1,
            r.follow_up.deep_view() == apply_spec(old(self)@, pending, chunk@).2,
            !old(self)@.has_chat(pending.session_id) ==> *final(self) == *old(self)
                && !r.checkpoint
                && r.follow_up is None,
            old(self)@.has_chat(pending.session_id) ==> final(self)@ == (StateView {
                chats: old(self)@.chats.update(
                    old(self)@.chat_idx(pending.session_id),
                    assemble_chat(old(self)@.chat_of(pending.session_id), pending.kind, chunk@),
                ),
                current_chat_id: old(self)@.current_chat_id,
            }),
            r.checkpoint <==> (old(self)@.has_chat(pending.session_id) && chunk@ is Done),
            (r.follow_up is Some) <==> (old(self)@.has_chat(pending.session_id)
                && chunk@ is Done
                && pending.kind is ChatReply
                && old(self)@.chat_of(pending.session_id).history.len() == 3),
            r.follow_up matches Some(d) ==> d.pending == (PendingRequest {
                session_id: pending.session_id,
                kind: RequestKind::TitleReply,
            }) && d@.request == (OutboundRequestView::ChatTitleRequest {
                id: pending.session_id,
                system_message: title_prompt_text() + transcript_text(
                    old(self)@.chat_of(pending.session_id).history,
                ),
            }),
    {
        let ghost pre = self@;
        let idx_opt = self.chat_idx_of(pending.session_id);
        if idx_opt.is_none() {
            return ApplyOutcome { checkpoint: false, follow_up: None };
        }
        let i = idx_opt.unwrap();
        let ghost c0 = pre.chats[i as int];
        let ghost c1 = assemble_chat(c0, pending.kind, chunk@);
        let outcome: ApplyOutcome;
        match pending.kind {
            RequestKind::ChatReply { insertion_index } => {
                match chunk {
                    Chunk::BeginResponse { role } => {
                        let c = &mut self.chats[i];
                        if insertion_index == c.history.len() {
                            c.history.push(crate::msg::Message::new(role, String::new()));
                            proof {
                                assert(c@.history =~= c1.history);
                            }
                        }
                        outcome = ApplyOutcome { checkpoint: false, follow_up: None };
                    },
                    Chunk::Content { delta } => {
                        let c = &mut self.chats[i];
                        if insertion_index < c.history.len() {
                            let m = &mut c.history[insertion_index];
                            m.content.append(delta.as_str());
                            proof {
                                assert(c@.history =~= c1.history);
                            }
                        }
                        outcome = ApplyOutcome { checkpoint: false, follow_up: None };
                    },
                    Chunk::Done => {
                        let follow_up: Option<Dispatch> = if self.chats[i].history.len() == 3 {
                            let t = transcript(&self.chats[i].history);
                            Some(submit_title_request(pending.session_id, t))
                        } else {
                            None
                        };
                        outcome = ApplyOutcome { checkpoint: true, follow_up };
                    },
                    Chunk::CloseResponse => {
                        outcome = ApplyOutcome { checkpoint: false, follow_up: None };
                    },
                }
            },
            RequestKind::TitleReply => {
                match chunk {
                    Chunk::BeginResponse { role: _ } => {
                        let c = &mut self.chats[i];
                        c.title = String::new();
                        outcome = ApplyOutcome { checkpoint: false, follow_up: None };
                    },
                    Chunk::Content { delta } => {
                        let c = &mut self.chats[i];
                        c.title.append(delta.as_str());
                        outcome = ApplyOutcome { checkpoint: false, follow_up: None };
                    },
                    Chunk::Done => {
                        outcome = ApplyOutcome { checkpoint: true, follow_up: None };
                    },
                    Chunk::CloseResponse => {
                        outcome = ApplyOutcome { checkpoint: false, follow_up: None };
                    },
                }
            },
        }
        proof {
            assert(c1 == assemble_chat(pre.chat_of(pending.session_id), pending.kind, chunk@));
            assert(self.chats.deep_view() =~= pre.chats.update(i as int, c1));
            lemma_assemble_chat_wf(c0, pending.kind, chunk@);
            lemma_update_keeps_wf(pre, i as int, c1);
        }
        outcome
    }
}

} // verus!
