//! The request dispatcher: turns user actions into outbound completion
//! requests, recording where the forthcoming reply is to be inserted.

use vstd::prelude::*;
use vstd::string::StringExecFns;
use crate::ids::SessionId;
use crate::msg::{
    Dispatch, DispatchView, Message, MessageView, OutboundRequest, OutboundRequestView,
    PendingRequest, RequestKind, Role, copy_messages, role_label, role_name,
};
use crate::registry::{State, StateView, lemma_chat_idx_unique, lemma_update_keeps_wf};
use crate::session::{ChatView, is_blank};

verus! {

/// The role-prefixed flattening of a history, used as the instruction context
/// of a title-generation exchange.
pub open spec fn transcript_text(h: Seq<MessageView>) -> Seq<char>
    decreases h.len(),
{
    if h.len() == 0 {
        Seq::<char>::empty()
    } else {
        transcript_text(h.drop_last()) + role_label(h.last().role) + ": "@ + h.last().content
    }
}

/// Executable counterpart of [`transcript_text`].
pub fn transcript(history: &Vec<Message>) -> (r: String)
    ensures
        r@ == transcript_text(history.deep_view()),
{
    let ghost hv = history.deep_view();
    let mut acc = String::new();
    let mut i: usize = 0;
    while i < history.len()
        invariant
            0 <= i <= hv.len(),
            hv == history.deep_view(),
            hv.len() == history@.len(),
            acc@ == transcript_text(hv.take(i as int)),
        decreases hv.len() - i,
    {
        let m = &history[i];
        acc.append(role_name(m.role));
        acc.append(": ");
        acc.append(m.content.as_str());
        proof {
            assert(hv.take(i + 1).drop_last() =~= hv.take(i as int));
            assert(hv.take(i + 1).last() == hv[i as int]);
        }
        i = i + 1;
    }
    proof {
        assert(hv.take(hv.len() as int) =~= hv);
    }
    acc
}

/// The markdown rendering of a history handed to the drawing collaborator:
/// each message under a role heading.
pub open spec fn markdown_transcript_text(h: Seq<MessageView>) -> Seq<char>
    decreases h.len(),
{
    if h.len() == 0 {
        Seq::<char>::empty()
    } else {
        markdown_transcript_text(h.drop_last()) + "\n\n## "@ + role_label(h.last().role) + ":\n\n"@
            + h.last().content
    }
}

/// Executable counterpart of [`markdown_transcript_text`].
pub fn markdown_transcript(history: &Vec<Message>) -> (r: String)
    ensures
        r@ == markdown_transcript_text(history.deep_view()),
{
    let ghost hv = history.deep_view();
    let mut acc = String::new();
    let mut i: usize = 0;
    while i < history.len()
        invariant
            0 <= i <= hv.len(),
            hv == history.deep_view(),
            hv.len() == history@.len(),
            acc@ == markdown_transcript_text(hv.take(i as int)),
        decreases hv.len() - i,
    {
        let m = &history[i];
        acc.append("\n\n## ");
        acc.append(role_name(m.role));
        acc.append(":\n\n");
        acc.append(m.content.as_str());
        proof {
            assert(hv.take(i + 1).drop_last() =~= hv.take(i as int));
            assert(hv.take(i + 1).last() == hv[i as int]);
        }
        i = i + 1;
    }
    proof {
        assert(hv.take(hv.len() as int) =~= hv);
    }
    acc
}

/// The fixed instruction that precedes the transcript in a title-generation
/// request.
pub open spec fn title_prompt_text() -> Seq<char> {
    "Provide a useful and very descriptive title with max 4 words for the following chat, where System: <text> at the beginning of a line describes what you, the Assistant should be, and User: <text> at the beginning of a line denotes what the User asked, and Assistant: <text> at the beginning of a line denotes what your answer is, everything after the following colon is the chat:\n"@
}

/// Executable counterpart of [`title_prompt_text`].
pub fn title_prompt() -> (r: String)
    ensures
        r@ == title_prompt_text(),
{
    "Provide a useful and very descriptive title with max 4 words for the following chat, where System: <text> at the beginning of a line describes what you, the Assistant should be, and User: <text> at the beginning of a line denotes what the User asked, and Assistant: <text> at the beginning of a line denotes what your answer is, everything after the following colon is the chat:\n".to_owned()
}

/// What submitting a user message does to the registry: the session named
/// gains the user message, its draft is cleared.  Meaningful only when the
/// session is present.
pub open spec fn submit_state_spec(pre: StateView, session_id: SessionId, text: Seq<char>) -> StateView {
    let i = pre.chat_idx(session_id);
    let c1 = ChatView {
        history: pre.chats[i].history.push(MessageView { role: Role::User, content: text }),
        input: Seq::<char>::empty(),
        input_pos: 0,
        ..pre.chats[i]
    };
    StateView { chats: pre.chats.update(i, c1), current_chat_id: pre.current_chat_id }
}

/// The request that submitting a user message dispatches: the payload is the
/// whole history after the append, and the correlation record fixes the
/// session-local index at which the forthcoming reply is to be inserted.
pub open spec fn submit_dispatch_spec(pre: StateView, session_id: SessionId, text: Seq<char>) -> DispatchView {
    let i = pre.chat_idx(session_id);
    DispatchView {
        pending: PendingRequest {
            session_id,
            kind: RequestKind::ChatReply {
                insertion_index: (pre.chats[i].history.len() + 1) as usize,
            },
        },
        request: OutboundRequestView::ChatRequest {
            id: session_id,
            messages: pre.chats[i].history.push(MessageView { role: Role::User, content: text }),
        },
    }
}

impl State {
    /// Append `text` as a user message to the named session, clear that
    /// session's draft, and return the dispatched completion request.  The
    /// correlation record fixes, at submission time, the session-local index
    /// at which the forthcoming reply is to be inserted.
    pub fn submit_user_message(&mut self, session_id: SessionId, text: String) -> (d: Dispatch)
        requires
            old(self)@.wf(),
            old(self)@.has_chat(session_id),
            !is_blank(text@),
        ensures
            final(self)@.wf(),
            final(self)@ == submit_state_spec(old(self)@, session_id, text@),
            d@ == submit_dispatch_spec(old(self)@, session_id, text@),
    {
        let ghost pre = self@;
        let i = self.chat_idx_of(session_id).unwrap();
        let c = &mut self.chats[i];
        c.history.push(Message::new(Role::User, text));
        let insertion_index = c.history.len();
        c.clear_input();
        let messages = copy_messages(&c.history);
        proof {
            let c1 = ChatView {
                history: pre.chats[i as int].history.push(
                    MessageView { role: Role::User, content: text@ },
                ),
                input: Seq::<char>::empty(),
                input_pos: 0,
                ..pre.chats[i as int]
            };
            assert(c@.history =~= c1.history);
            assert(c@ == c1);
            assert(self.chats.deep_view() =~= pre.chats.update(i as int, c1));
            lemma_update_keeps_wf(pre, i as int, c1);
            assert(messages.deep_view() =~= c1.history);
        }
        Dispatch {
            pending: PendingRequest {
                session_id,
                kind: RequestKind::ChatReply { insertion_index },
            },
            request: OutboundRequest::ChatRequest { id: session_id, messages },
        }
    }
}

/// Build the one-shot title-generation request for a session: a distinct
/// request kind whose reply never enters the visible history.
pub fn submit_title_request(session_id: SessionId, context_text: String) -> (d: Dispatch)
    ensures
        d.pending == (PendingRequest { session_id, kind: RequestKind::TitleReply }),
        d.request@ == (OutboundRequestView::ChatTitleRequest {
            id: session_id,
            system_message: title_prompt_text() + context_text@,
        }),
{
    let mut system_message = title_prompt();
    system_message.append(context_text.as_str());
    Dispatch {
        pending: PendingRequest { session_id, kind: RequestKind::TitleReply },
        request: OutboundRequest::ChatTitleRequest { id: session_id, system_message },
    }
}

} // verus!
