//! Laws that relate several operations of the library.
//!
//! Each proof function here states a guarantee over whole exchanges or whole
//! scheduling rounds, proved from the contracts the operations carry.

use vstd::prelude::*;
use crate::ids::SessionId;
use crate::msg::{ChunkView, MessageView, PendingRequest, RequestKind, Role};
use crate::registry::{StateView, lemma_chat_idx_unique, lemma_update_keeps_wf};
use crate::session::{ChatView, is_blank};
use crate::dispatch::{submit_dispatch_spec, submit_state_spec};
use crate::assemble::apply_spec;
use crate::multiplex::{MultiplexerView, StreamView, first_ready_in, next_ready, poll_spec};

verus! {

/// The concatenation of a sequence of deltas, in order.
pub open spec fn concat_deltas(deltas: Seq<Seq<char>>) -> Seq<char>
    decreases deltas.len(),
{
    if deltas.len() == 0 {
        Seq::<char>::empty()
    } else {
        concat_deltas(deltas.drop_last()) + deltas.last()
    }
}

/// The registry after assembling one `Content` chunk per delta, in order,
/// all tagged with the same pending request.
pub open spec fn feed_contents(s: StateView, pending: PendingRequest, deltas: Seq<Seq<char>>) -> StateView
    decreases deltas.len(),
{
    if deltas.len() == 0 {
        s
    } else {
        apply_spec(
            feed_contents(s, pending, deltas.drop_last()),
            pending,
            ChunkView::Content { delta: deltas.last() },
        ).0
    }
}

/// Feeding `Content` chunks at a valid insertion index accumulates exactly
/// their concatenation into that one message and touches nothing else.
proof fn lemma_feed_contents(s: StateView, id: SessionId, ii: usize, deltas: Seq<Seq<char>>)
    requires
        s.wf(),
        s.has_chat(id),
        ii < s.chat_of(id).history.len(),
    ensures
        ({
            let pending = PendingRequest {
                session_id: id,
                kind: RequestKind::ChatReply { insertion_index: ii },
            };
            let post = feed_contents(s, pending, deltas);
            let i = s.chat_idx(id);
            let c0 = s.chats[i];
            let m0 = c0.history[ii as int];
            &&& post.wf()
            &&& post.has_chat(id)
            &&& post.chat_idx(id) == i
            &&& post.chats =~= s.chats.update(
                i,
                (ChatView {
                    history: c0.history.update(
                        ii as int,
                        (MessageView { role: m0.role, content: m0.content + concat_deltas(deltas) }),
                    ),
                    ..c0
                }),
            )
            &&& post.current_chat_id == s.current_chat_id
        }),
    decreases deltas.len(),
{
    let pending = PendingRequest {
        session_id: id,
        kind: RequestKind::ChatReply { insertion_index: ii },
    };
    let i = s.chat_idx(id);
    let c0 = s.chats[i];
    let m0 = c0.history[ii as int];
    if deltas.len() == 0 {
        assert(m0.content + concat_deltas(deltas) =~= m0.content);
        assert(c0.history.update(ii as int, (MessageView { role: m0.role, content: m0.content })) =~= c0.history);
        assert(s.chats.update(i, (ChatView { history: c0.history, ..c0 })) =~= s.chats);
    } else {
        lemma_feed_contents(s, id, ii, deltas.drop_last());
        let mid = feed_contents(s, pending, deltas.drop_last());
        let c_mid = mid.chats[i];
        assert(c_mid.id == id);
        lemma_chat_idx_unique(mid, id, i);
        let d = deltas.last();
        let c_fin = crate::assemble::assemble_chat(c_mid, pending.kind, ChunkView::Content { delta: d });
        assert(feed_contents(s, pending, deltas) == apply_spec(mid, pending, ChunkView::Content { delta: d }).0);
        assert(c_mid.history.len() == c0.history.len());
        assert(c_mid.history[ii as int].content == m0.content + concat_deltas(deltas.drop_last()));
        assert((m0.content + concat_deltas(deltas.drop_last())) + d =~= m0.content + concat_deltas(deltas));
        assert(c_fin.history =~= c0.history.update(
            ii as int,
            (MessageView { role: m0.role, content: m0.content + concat_deltas(deltas) }),
        ));
        assert(mid.chats.update(i, c_fin) =~= s.chats.update(i, c_fin));
        lemma_update_keeps_wf(mid, i, c_fin);
    }
}

/// One whole exchange assembles one message: submitting a user message and
/// then feeding the reply stream `BeginResponse`, every `Content` delta in
/// order, and `Done` leaves the session's history with exactly one message
/// beyond the submission, whose content is the concatenation of the deltas.
pub proof fn lemma_exchange_appends_one_message(
    pre: StateView,
    id: SessionId,
    text: Seq<char>,
    role: Role,
    deltas: Seq<Seq<char>>,
)
    requires
        pre.wf(),
        pre.has_chat(id),
        !is_blank(text),
        pre.chat_of(id).history.len() < usize::MAX,
    ensures
        ({
            let d = submit_dispatch_spec(pre, id, text);
            let s1 = submit_state_spec(pre, id, text);
            let s2 = apply_spec(s1, d.pending, ChunkView::BeginResponse { role }).0;
            let s3 = feed_contents(s2, d.pending, deltas);
            let s4 = apply_spec(s3, d.pending, ChunkView::Done).0;
            let h1 = s1.chat_of(id).history;
            &&& s4.has_chat(id)
            &&& s4.chat_of(id).history.len() == h1.len() + 1
            &&& s4.chat_of(id).history =~= h1.push(
                (MessageView { role, content: concat_deltas(deltas) }),
            )
        }),
{
    let i = pre.chat_idx(id);
    let c0 = pre.chats[i];
    let d = submit_dispatch_spec(pre, id, text);
    let ii = (c0.history.len() + 1) as usize;
    let s1 = submit_state_spec(pre, id, text);
    let c1 = ChatView {
        history: c0.history.push(MessageView { role: Role::User, content: text }),
        input: Seq::<char>::empty(),
        input_pos: 0,
        ..c0
    };
    assert(c1.wf());
    lemma_update_keeps_wf(pre, i, c1);
    lemma_chat_idx_unique(s1, id, i);
    let h1 = c1.history;
    assert(ii == h1.len());

    // BeginResponse appends the empty reply message.
    let s2 = apply_spec(s1, d.pending, ChunkView::BeginResponse { role }).0;
    let c2 = ChatView {
        history: h1.push(MessageView { role, content: Seq::<char>::empty() }),
        ..c1
    };
    assert(crate::assemble::assemble_chat(c1, d.pending.kind, ChunkView::BeginResponse { role }) == c2);
    assert(c2.wf());
    lemma_update_keeps_wf(s1, i, c2);
    assert(s2.chats == s1.chats.update(i, c2));
    lemma_chat_idx_unique(s2, id, i);
    assert(s2.chats.update(i, c2) =~= pre.chats.update(i, c2));
    assert(s2.chat_of(id) == c2);

    // The deltas accumulate into that one message.
    assert(ii < c2.history.len());
    lemma_feed_contents(s2, id, ii, deltas);
    let s3 = feed_contents(s2, d.pending, deltas);
    let m0 = c2.history[ii as int];
    assert(m0 == MessageView { role, content: Seq::<char>::empty() });
    let c3 = ChatView {
        history: c2.history.update(
            ii as int,
            (MessageView { role, content: Seq::<char>::empty() + concat_deltas(deltas) }),
        ),
        ..c2
    };
    assert(s3.chats =~= s2.chats.update(i, c3));
    assert(s3.chat_idx(id) == i);
    assert(s3.chat_of(id) == c3);
    assert(Seq::<char>::empty() + concat_deltas(deltas) =~= concat_deltas(deltas));
    assert(c3.history =~= h1.push((MessageView { role, content: concat_deltas(deltas) })));

    // Done changes no history.
    let s4 = apply_spec(s3, d.pending, ChunkView::Done).0;
    assert(crate::assemble::assemble_chat(c3, d.pending.kind, ChunkView::Done) == c3);
    assert(s4.chats =~= s3.chats.update(i, c3));
    assert(s3.chats.update(i, c3) =~= s3.chats);
    assert(s4.chats =~= s3.chats);
    assert(s4 == s3);
    assert(s4.chat_of(id) == c3);
}

/// A session's history is never empty: it holds under well-formedness, which
/// every mutating operation of the registry preserves.
pub proof fn lemma_history_never_empty(s: StateView)
    requires
        s.wf(),
    ensures
        forall|i: int| 0 <= i < s.chats.len() ==> (#[trigger] s.chats[i]).history.len() >= 1,
{
}

/// The multiplexer after `k` polls from a fresh round, and what those polls
/// delivered, in order.
pub open spec fn polls(m: MultiplexerView, k: nat) -> (MultiplexerView, Seq<(PendingRequest, ChunkView)>)
    decreases k,
{
    if k == 0 {
        (m, Seq::<(PendingRequest, ChunkView)>::empty())
    } else {
        let prev = polls(m, (k - 1) as nat);
        let stepped = poll_spec(prev.0);
        (
            stepped.0,
            match stepped.1 {
                Some(p) => prev.1.push(p),
                None => prev.1,
            },
        )
    }
}

/// The state a fresh round reaches after its first `k` polls: the first `k`
/// streams have lost their front chunk and the cursor stands at `k`,
/// wrapped to the front at the end of the round.
pub open spec fn round_state(m: MultiplexerView, k: int) -> MultiplexerView {
    MultiplexerView {
        streams: Seq::new(
            m.streams.len(),
            |i: int|
                if i < k {
                    StreamView { queued: m.streams[i].queued.drop_first(), ..m.streams[i] }
                } else {
                    m.streams[i]
                },
        ),
        next_handle: m.next_handle,
        cursor: if k < m.streams.len() {
            k as nat
        } else {
            0nat
        },
    }
}

/// The first `k` polls of a fresh round deliver the front chunk of each of
/// the first `k` streams, in order.
proof fn lemma_round_prefix(m: MultiplexerView, k: int)
    requires
        m.cursor == 0,
        0 <= k <= m.streams.len(),
        forall|i: int| 0 <= i < m.streams.len() ==> (#[trigger] m.streams[i]).queued.len() >= 1,
    ensures
        polls(m, k as nat).0 == round_state(m, k),
        polls(m, k as nat).1.len() == k,
        forall|i: int|
            0 <= i < k ==> polls(m, k as nat).1[i] == ((#[trigger] m.streams[i]).pending,
            m.streams[i].queued[0]),
    decreases k,
{
    let n = m.streams.len() as int;
    if k == 0 {
        assert(round_state(m, 0).streams =~= m.streams);
        assert(round_state(m, 0) == m);
    } else {
        lemma_round_prefix(m, k - 1);
        let mk = polls(m, (k - 1) as nat).0;
        assert(mk == round_state(m, k - 1));
        assert(mk.cursor == k - 1);
        assert(mk.streams[k - 1] == m.streams[k - 1]);
        assert(mk.streams[k - 1].queued.len() > 0);
        assert(first_ready_in(mk.streams, k - 1, n) == Some(k - 1));
        let st = mk.streams[k - 1];
        let stepped = poll_spec(mk);
        assert(stepped.1 == Some((m.streams[k - 1].pending, m.streams[k - 1].queued[0])));
        assert(stepped.0.streams =~= round_state(m, k).streams);
        assert(stepped.0 == round_state(m, k));
    }
}

/// Chunks of one stream are forwarded in the order produced: a poll only
/// ever delivers the front chunk of some stream's queue, removes exactly
/// that chunk, and touches no other stream.
pub proof fn lemma_poll_preserves_stream_order(m: MultiplexerView)
    requires
        m.cursor <= m.streams.len(),
    ensures
        ({
            let (m1, r) = poll_spec(m);
            match r {
                None => m1 == m,
                Some(pc) => exists|i: int|
                    {
                        &&& 0 <= i < m.streams.len()
                        &&& pc.0 == (#[trigger] m.streams[i]).pending
                        &&& pc.1 == m.streams[i].queued[0]
                        &&& m1.streams == m.streams.update(
                            i,
                            (StreamView {
                                queued: m.streams[i].queued.drop_first(),
                                ..m.streams[i]
                            }),
                        )
                    },
            }
        }),
{
    let (m1, r) = poll_spec(m);
    match next_ready(m.streams, m.cursor as int) {
        None => {},
        Some(i) => {
            lemma_first_ready_in_bounds(m.streams, m.cursor as int);
            assert(0 <= i < m.streams.len());
            assert(r == Some((m.streams[i].pending, m.streams[i].queued[0])));
        },
    }
}

/// Whatever `next_ready` picks lies inside the collection.
proof fn lemma_first_ready_in_bounds(s: Seq<StreamView>, cursor: int)
    requires
        0 <= cursor <= s.len(),
    ensures
        next_ready(s, cursor) matches Some(i) ==> 0 <= i < s.len(),
{
    lemma_first_ready_range(s, cursor, s.len() as int);
    lemma_first_ready_range(s, 0, cursor);
}

/// `first_ready_in` only ever picks inside its interval.
proof fn lemma_first_ready_range(s: Seq<StreamView>, lo: int, hi: int)
    ensures
        first_ready_in(s, lo, hi) matches Some(i) ==> lo <= i < hi,
    decreases hi - lo,
{
    if lo < hi && 0 <= lo {
        lemma_first_ready_range(s, lo + 1, hi);
    }
}

/// Round-robin fairness: with `n` open streams each holding at least one
/// chunk, a round of `n` polls delivers a chunk from every stream — the
/// front chunk of stream `i` at poll `i` — so no stream is starved.
pub proof fn lemma_round_robin_fair(m: MultiplexerView)
    requires
        m.cursor == 0,
        forall|i: int| 0 <= i < m.streams.len() ==> (#[trigger] m.streams[i]).queued.len() >= 1,
    ensures
        polls(m, m.streams.len() as nat).1.len() == m.streams.len(),
        forall|i: int|
            0 <= i < m.streams.len() ==> polls(m, m.streams.len() as nat).1[i] == ((
            #[trigger] m.streams[i]).pending, m.streams[i].queued[0]),
{
    lemma_round_prefix(m, m.streams.len() as int);
}

} // verus!
