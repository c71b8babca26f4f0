//! Messages, streamed chunks, and request correlation records.

use vstd::prelude::*;
use crate::ids::SessionId;

verus! {

/// Who produced a message.
#[derive(Clone, Copy, PartialEq, Eq, Structural, Debug)]
pub enum Role {
    System,
    User,
    Assistant,
}

/// The name of a role, as transcripts render it.
pub open spec fn role_label(role: Role) -> Seq<char> {
    match role {
        Role::System => "System"@,
        Role::User => "User"@,
        Role::Assistant => "Assistant"@,
    }
}

/// Executable counterpart of [`role_label`].
pub fn role_name(role: Role) -> (r: &'static str)
    ensures
        r@ == role_label(role),
{
    match role {
        Role::System => "System",
        Role::User => "User",
        Role::Assistant => "Assistant",
    }
}

/// One entry of a session's history: a role and its text.
pub struct Message {
    pub role: Role,
    pub content: String,
}

/// Mathematical model of a [`Message`].
pub struct MessageView {
    pub role: Role,
    pub content: Seq<char>,
}

impl View for Message {
    type V = MessageView;

    open spec fn view(&self) -> MessageView {
        MessageView { role: self.role, content: self.content@ }
    }
}

impl DeepView for Message {
    type V = MessageView;

    open spec fn deep_view(&self) -> MessageView {
        self.view()
    }
}

impl Message {
    pub fn new(role: Role, content: String) -> (r: Message)
        ensures
            r@ == (MessageView { role, content: content@ }),
    {
        Message { role, content }
    }

    /// A fresh message equal to this one.
    pub fn duplicate(&self) -> (r: Message)
        ensures
            r == *self,
    {
        Message { role: self.role, content: self.content.clone() }
    }
}

/// A fresh vector of messages equal to `msgs`.
pub fn copy_messages(msgs: &Vec<Message>) -> (r: Vec<Message>)
    ensures
        r@ == msgs@,
{
    let mut out: Vec<Message> = Vec::new();
    let mut i: usize = 0;
    while i < msgs.len()
        invariant
            0 <= i <= msgs@.len(),
            out@ == msgs@.take(i as int),
        decreases msgs@.len() - i,
    {
        out.push(msgs[i].duplicate());
        proof {
            assert(out@ =~= msgs@.take(i + 1));
        }
        i = i + 1;
    }
    proof {
        assert(msgs@.take(msgs@.len() as int) =~= msgs@);
    }
    out
}

/// One increment of a streamed backend response.
///
/// A well-behaved stream produces exactly one `BeginResponse`, then zero or
/// more `Content` chunks, then exactly one `Done`, optionally followed by
/// `CloseResponse`.  The assembler tolerates every other order by ignoring
/// chunks it cannot place.
pub enum Chunk {
    BeginResponse { role: Role },
    Content { delta: String },
    Done,
    CloseResponse,
}

/// Mathematical model of a [`Chunk`].
pub enum ChunkView {
    BeginResponse { role: Role },
    Content { delta: Seq<char> },
    Done,
    CloseResponse,
}

impl View for Chunk {
    type V = ChunkView;

    open spec fn view(&self) -> ChunkView {
        match self {
            Chunk::BeginResponse { role } => ChunkView::BeginResponse { role: *role },
            Chunk::Content { delta } => ChunkView::Content { delta: delta@ },
            Chunk::Done => ChunkView::Done,
            Chunk::CloseResponse => ChunkView::CloseResponse,
        }
    }
}

/// What kind of exchange a pending request belongs to.
#[derive(Clone, Copy, PartialEq, Eq, Structural, Debug)]
pub enum RequestKind {
    /// An ordinary chat reply, to be assembled into history at the recorded
    /// session-local index, fixed at submission time.
    ChatReply { insertion_index: usize },
    /// A one-shot title generation; its text replaces the session title and
    /// never enters the visible history.
    TitleReply,
}

/// Ephemeral correlation record linking an outbound request to the chunks of
/// its response stream.
#[derive(Clone, Copy, PartialEq, Eq, Structural, Debug)]
pub struct PendingRequest {
    pub session_id: SessionId,
    pub kind: RequestKind,
}

/// An outbound completion request, handed to the backend-dispatch unit.
pub enum OutboundRequest {
    ChatRequest { id: SessionId, messages: Vec<Message> },
    ChatTitleRequest { id: SessionId, system_message: String },
}

/// Mathematical model of an [`OutboundRequest`].
pub enum OutboundRequestView {
    ChatRequest { id: SessionId, messages: Seq<MessageView> },
    ChatTitleRequest { id: SessionId, system_message: Seq<char> },
}

impl View for OutboundRequest {
    type V = OutboundRequestView;

    open spec fn view(&self) -> OutboundRequestView {
        match self {
            OutboundRequest::ChatRequest { id, messages } => OutboundRequestView::ChatRequest {
                id: *id,
                messages: messages.deep_view(),
            },
            OutboundRequest::ChatTitleRequest { id, system_message } => OutboundRequestView::ChatTitleRequest {
                id: *id,
                system_message: system_message@,
            },
        }
    }
}

/// A dispatched request: the correlation record and the payload the backend
/// is to receive.
pub struct Dispatch {
    pub pending: PendingRequest,
    pub request: OutboundRequest,
}

/// Mathematical model of a [`Dispatch`].
pub struct DispatchView {
    pub pending: PendingRequest,
    pub request: OutboundRequestView,
}

impl View for Dispatch {
    type V = DispatchView;

    open spec fn view(&self) -> DispatchView {
        DispatchView { pending: self.pending, request: self.request@ }
    }
}

impl DeepView for Dispatch {
    type V = DispatchView;

    open spec fn deep_view(&self) -> DispatchView {
        self.view()
    }
}

} // verus!
