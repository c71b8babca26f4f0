//! The stream multiplexer: an unbounded collection of in-flight response
//! streams, drained fairly.
//!
//! The backend-dispatch unit registers a stream per outbound request, feeds
//! the chunks the network produces into it in order, and marks it exhausted
//! when the network stream ends.  Draining polls the open streams round
//! robin, so a burst of new streams can never starve an older one; exhausted,
//! empty streams are pruned.

use vstd::prelude::*;
use crate::msg::{Chunk, ChunkView, PendingRequest};

verus! {

/// One in-flight response stream: its registration handle, the request its
/// chunks answer, the chunks received and not yet forwarded, and whether the
/// network side has ended.
pub struct OpenStream {
    pub handle: u64,
    pub pending: PendingRequest,
    pub queued: Vec<Chunk>,
    pub exhausted: bool,
}

/// Mathematical model of an [`OpenStream`].
#[verifier::ext_equal]
pub struct StreamView {
    pub handle: u64,
    pub pending: PendingRequest,
    pub queued: Seq<ChunkView>,
    pub exhausted: bool,
}

impl View for OpenStream {
    type V = StreamView;

    open spec fn view(&self) -> StreamView {
        StreamView {
            handle: self.handle,
            pending: self.pending,
            queued: self.queued.deep_view(),
            exhausted: self.exhausted,
        }
    }
}

impl DeepView for OpenStream {
    type V = StreamView;

    open spec fn deep_view(&self) -> StreamView {
        self.view()
    }
}

impl DeepView for Chunk {
    type V = ChunkView;

    open spec fn deep_view(&self) -> ChunkView {
        self.view()
    }
}

/// The collection of open streams, with the round-robin cursor.
pub struct Multiplexer {
    pub streams: Vec<OpenStream>,
    pub next_handle: u64,
    pub cursor: usize,
}

/// Mathematical model of a [`Multiplexer`].
pub struct MultiplexerView {
    pub streams: Seq<StreamView>,
    pub next_handle: u64,
    pub cursor: nat,
}

impl View for Multiplexer {
    type V = MultiplexerView;

    open spec fn view(&self) -> MultiplexerView {
        MultiplexerView {
            streams: self.streams.deep_view(),
            next_handle: self.next_handle,
            cursor: self.cursor as nat,
        }
    }
}

/// No two streams share a handle.
pub open spec fn unique_handles(streams: Seq<StreamView>) -> bool {
    forall|i: int, j: int|
        0 <= i < j < streams.len() ==> (#[trigger] streams[i]).handle != (#[trigger] streams[j]).handle
}

impl MultiplexerView {
    /// Some stream carries `handle`.
    pub open spec fn has_stream(self, handle: u64) -> bool {
        exists|i: int| 0 <= i < self.streams.len() && self.streams[i].handle == handle
    }

    /// The position of the stream carrying `handle`; meaningful only when
    /// [`Self::has_stream`] holds.
    pub open spec fn stream_idx(self, handle: u64) -> int {
        choose|i: int| 0 <= i < self.streams.len() && self.streams[i].handle == handle
    }

    /// Handles are unique and below the next to be given out, and the cursor
    /// stays inside the collection.
    pub open spec fn wf(self) -> bool {
        &&& unique_handles(self.streams)
        &&& forall|i: int|
            0 <= i < self.streams.len() ==> (#[trigger] self.streams[i]).handle < self.next_handle
        &&& self.cursor <= self.streams.len()
    }
}

/// Under unique handles, any index holding `handle` is the index
/// `stream_idx` picks.
pub proof fn lemma_stream_idx_unique(m: MultiplexerView, handle: u64, i: int)
    requires
        unique_handles(m.streams),
        0 <= i < m.streams.len(),
        m.streams[i].handle == handle,
    ensures
        m.has_stream(handle),
        m.stream_idx(handle) == i,
{
    assert(m.has_stream(handle));
    let j = m.stream_idx(handle);
    if i < j {
        assert(m.streams[i].handle != m.streams[j].handle);
    } else if j < i {
        assert(m.streams[j].handle != m.streams[i].handle);
    }
}

/// The first stream in `[lo, hi)` with a chunk waiting.
pub open spec fn first_ready_in(streams: Seq<StreamView>, lo: int, hi: int) -> Option<int>
    decreases hi - lo,
{
    if lo >= hi || lo < 0 {
        None
    } else if streams[lo].queued.len() > 0 {
        Some(lo)
    } else {
        first_ready_in(streams, lo + 1, hi)
    }
}

/// The stream the round-robin cursor picks next: the first ready stream at
/// or after the cursor, wrapping around to the front.
pub open spec fn next_ready(streams: Seq<StreamView>, cursor: int) -> Option<int> {
    match first_ready_in(streams, cursor, streams.len() as int) {
        Some(i) => Some(i),
        None => first_ready_in(streams, 0, cursor),
    }
}

/// What one poll does: the picked stream loses its front chunk, which is
/// forwarded tagged with the stream's originating request, and the cursor
/// moves just past the picked stream.
pub open spec fn poll_spec(m: MultiplexerView) -> (MultiplexerView, Option<(PendingRequest, ChunkView)>) {
    match next_ready(m.streams, m.cursor as int) {
        None => (m, None),
        Some(i) => {
            let st = m.streams[i];
            let m1 = MultiplexerView {
                streams: m.streams.update(i, StreamView { queued: st.queued.drop_first(), ..st }),
                next_handle: m.next_handle,
                cursor: if i + 1 < m.streams.len() {
                    (i + 1) as nat
                } else {
                    0nat
                },
            };
            (m1, Some((st.pending, st.queued[0])))
        },
    }
}

/// The streams that stay after pruning: all but the exhausted, empty ones.
pub open spec fn live_streams(s: Seq<StreamView>) -> Seq<StreamView>
    decreases s.len(),
{
    if s.len() == 0 {
        Seq::<StreamView>::empty()
    } else {
        let rest = live_streams(s.drop_last());
        if s.last().exhausted && s.last().queued.len() == 0 {
            rest
        } else {
            rest.push(s.last())
        }
    }
}

/// Every stream that survives pruning was present before, and distinct
/// handles stay distinct.
pub proof fn lemma_live_streams_sub(s: Seq<StreamView>)
    ensures
        forall|k: int| 0 <= k < live_streams(s).len() ==> s.contains(#[trigger] live_streams(s)[k]),
        unique_handles(s) ==> unique_handles(live_streams(s)),
    decreases s.len(),
{
    if s.len() == 0 {
    } else {
        let rest = live_streams(s.drop_last());
        lemma_live_streams_sub(s.drop_last());
        assert forall|k: int| 0 <= k < live_streams(s).len() implies s.contains(
            #[trigger] live_streams(s)[k],
        ) by {
            if k < rest.len() {
                assert(s.drop_last().contains(rest[k]));
                let j = choose|j: int| 0 <= j < s.drop_last().len() && s.drop_last()[j] == rest[k];
                assert(s[j] == rest[k]);
            } else {
                assert(live_streams(s)[k] == s.last());
                assert(s[s.len() - 1] == s.last());
            }
        }
        if unique_handles(s) {
            assert(unique_handles(s.drop_last()));
            if !(s.last().exhausted && s.last().queued.len() == 0) {
                assert forall|i: int, j: int|
                    0 <= i < j < live_streams(s).len() implies (#[trigger] live_streams(s)[i]).handle
                    != (#[trigger] live_streams(s)[j]).handle by {
                    if j < rest.len() {
                    } else {
                        assert(live_streams(s)[j] == s.last());
                        assert(s.drop_last().contains(rest[i]));
                        let w = choose|w: int|
                            0 <= w < s.drop_last().len() && s.drop_last()[w] == rest[i];
                        assert(s[w].handle != s[s.len() - 1].handle);
                    }
                }
            }
        }
    }
}

impl Multiplexer {
    /// An empty multiplexer.
    pub fn new() -> (m: Multiplexer)
        ensures
            m@.streams == Seq::<StreamView>::empty(),
            m@.next_handle == 0,
            m@.cursor == 0,
            m@.wf(),
    {
        let m = Multiplexer { streams: Vec::new(), next_handle: 0, cursor: 0 };
        proof {
            assert(m.streams.deep_view() =~= Seq::<StreamView>::empty());
        }
        m
    }

    /// Register the stream of a freshly opened backend call and return its
    /// handle.
    pub fn begin(&mut self, pending: PendingRequest) -> (h: u64)
        requires
            old(self)@.wf(),
            old(self)@.next_handle < u64::MAX,
        ensures
            final(self)@.wf(),
            h == old(self)@.next_handle,
            final(self)@.streams == old(self)@.streams.push(
                StreamView { handle: h, pending, queued: Seq::<ChunkView>::empty(), exhausted: false },
            ),
            final(self)@.next_handle == old(self)@.next_handle + 1,
            final(self)@.cursor == old(self)@.cursor,
    {
        let h = self.next_handle;
        self.streams.push(OpenStream { handle: h, pending, queued: Vec::new(), exhausted: false });
        self.next_handle = self.next_handle + 1;
        proof {
            assert(self.streams.deep_view() =~~= old(self)@.streams.push(
                StreamView { handle: h, pending, queued: Seq::<ChunkView>::empty(), exhausted: false },
            ));
            let post = self@;
            let pre = old(self)@;
            assert forall|i: int, j: int|
                0 <= i < j < post.streams.len() implies (#[trigger] post.streams[i]).handle
                != (#[trigger] post.streams[j]).handle by {
                if j < pre.streams.len() {
                    assert(pre.streams[i].handle != pre.streams[j].handle);
                } else {
                    assert(pre.streams[i].handle < pre.next_handle);
                }
            }
        }
        h
    }

    /// Queue a chunk the network produced for the stream carrying `handle`.
    /// A handle no longer present changes nothing.
    pub fn push_chunk(&mut self, handle: u64, chunk: Chunk) -> (ok: bool)
        requires
            old(self)@.wf(),
        ensures
            final(self)@.wf(),
            ok == old(self)@.has_stream(handle),
            ok ==> final(self)@ == (MultiplexerView {
                streams: old(self)@.streams.update(
                    old(self)@.stream_idx(handle),
                    (StreamView {
                        queued: old(self)@.streams[old(self)@.stream_idx(handle)].queued.push(chunk@),
                        ..old(self)@.streams[old(self)@.stream_idx(handle)]
                    }),
                ),
                ..old(self)@
            }),
            !ok ==> *final(self) == *old(self),
    {
        let ghost pre = self@;
        let mut i: usize = 0;
        while i < self.streams.len()
            invariant
                self == old(self),
                0 <= i <= pre.streams.len(),
                pre == self@,
                pre.wf(),
                forall|j: int| 0 <= j < i ==> (#[trigger] pre.streams[j]).handle != handle,
            decreases pre.streams.len() - i,
        {
            if self.streams[i].handle == handle {
                proof {
                    lemma_stream_idx_unique(pre, handle, i as int);
                }
                let st = &mut self.streams[i];
                st.queued.push(chunk);
                proof {
                    assert(st@.queued =~= pre.streams[i as int].queued.push(chunk@));
                    assert(self.streams.deep_view() =~= pre.streams.update(
                        i as int,
                        (StreamView {
                            queued: pre.streams[i as int].queued.push(chunk@),
                            ..pre.streams[i as int]
                        }),
                    ));
                    assert(forall|k: int|
                        0 <= k < self@.streams.len() ==> (#[trigger] self@.streams[k]).handle
                            == pre.streams[k].handle);
                }
                return true;
            }
            i = i + 1;
        }
        false
    }

    /// Mark the stream carrying `handle` exhausted: the network side has
    /// ended and no further chunk will be queued.
    pub fn finish(&mut self, handle: u64) -> (ok: bool)
        requires
            old(self)@.wf(),
        ensures
            final(self)@.wf(),
            ok == old(self)@.has_stream(handle),
            ok ==> final(self)@ == (MultiplexerView {
                streams: old(self)@.streams.update(
                    old(self)@.stream_idx(handle),
                    (StreamView { exhausted: true, ..old(self)@.streams[old(self)@.stream_idx(handle)] }),
                ),
                ..old(self)@
            }),
            !ok ==> *final(self) == *old(self),
    {
        let ghost pre = self@;
        let mut i: usize = 0;
        while i < self.streams.len()
            invariant
                self == old(self),
                0 <= i <= pre.streams.len(),
                pre == self@,
                pre.wf(),
                forall|j: int| 0 <= j < i ==> (#[trigger] pre.streams[j]).handle != handle,
            decreases pre.streams.len() - i,
        {
            if self.streams[i].handle == handle {
                proof {
                    lemma_stream_idx_unique(pre, handle, i as int);
                }
                let st = &mut self.streams[i];
                st.exhausted = true;
                proof {
                    assert(self.streams.deep_view() =~= pre.streams.update(
                        i as int,
                        (StreamView { exhausted: true, ..pre.streams[i as int] }),
                    ));
                    assert(forall|k: int|
                        0 <= k < self@.streams.len() ==> (#[trigger] self@.streams[k]).handle
                            == pre.streams[k].handle);
                }
                return true;
            }
            i = i + 1;
        }
        false
    }

    /// Forward the next chunk, round robin: the first stream at or after the
    /// cursor with a chunk waiting, wrapping around once.  `None` when no
    /// stream has anything waiting.
    pub fn poll_next(&mut self) -> (r: Option<(PendingRequest, Chunk)>)
        requires
            old(self)@.wf(),
        ensures
            final(self)@.wf(),
            final(self)@ == poll_spec(old(self)@).0,
            match r {
                Some(pc) => poll_spec(old(self)@).1 == Some((pc.0, pc.1@)),
                None => poll_spec(old(self)@).1 is None,
            },
    {
        let ghost pre = self@;
        let n = self.streams.len();
        let mut i: usize = self.cursor;
        while i < n
            invariant
                self == old(self),
                pre == self@,
                pre.wf(),
                n == pre.streams.len(),
                pre.cursor <= i <= n,
                first_ready_in(pre.streams, pre.cursor as int, i as int) is None,
            decreases n - i,
        {
            if self.streams[i].queued.len() > 0 {
                proof {
                    lemma_first_ready_found(pre.streams, pre.cursor as int, i as int, n as int);
                }
                return self.take_from(i);
            }
            proof {
                lemma_first_ready_extend(pre.streams, pre.cursor as int, i as int);
            }
            i = i + 1;
        }
        let mut j: usize = 0;
        while j < self.cursor
            invariant
                self == old(self),
                pre == self@,
                pre.wf(),
                n == pre.streams.len(),
                pre.cursor <= n,
                0 <= j <= pre.cursor,
                first_ready_in(pre.streams, pre.cursor as int, n as int) is None,
                first_ready_in(pre.streams, 0, j as int) is None,
            decreases pre.cursor - j,
        {
            if self.streams[j].queued.len() > 0 {
                proof {
                    lemma_first_ready_found(pre.streams, 0, j as int, pre.cursor as int);
                }
                return self.take_from(j);
            }
            proof {
                lemma_first_ready_extend(pre.streams, 0, j as int);
            }
            j = j + 1;
        }
        None
    }

    /// Dequeue the front chunk of the ready stream at `i` and advance the
    /// cursor past it.
    fn take_from(&mut self, i: usize) -> (r: Option<(PendingRequest, Chunk)>)
        requires
            old(self)@.wf(),
            i < old(self)@.streams.len(),
            old(self)@.streams[i as int].queued.len() > 0,
            next_ready(old(self)@.streams, old(self)@.cursor as int) == Some(i as int),
        ensures
            final(self)@.wf(),
            final(self)@ == poll_spec(old(self)@).0,
            match r {
                Some(pc) => poll_spec(old(self)@).1 == Some((pc.0, pc.1@)),
                None => poll_spec(old(self)@).1 is None,
            },
    {
        let ghost pre = self@;
        let n = self.streams.len();
        let st = &mut self.streams[i];
        let chunk = st.queued.remove(0);
        let pending = st.pending;
        proof {
            assert(st@.queued =~= pre.streams[i as int].queued.drop_first());
        }
        self.cursor = if i + 1 < n {
            i + 1
        } else {
            0
        };
        proof {
            assert(self.streams.deep_view() =~= pre.streams.update(
                i as int,
                (StreamView {
                    queued: pre.streams[i as int].queued.drop_first(),
                    ..pre.streams[i as int]
                }),
            ));
            assert(self@ == poll_spec(pre).0);
        }
        Some((pending, chunk))
    }

    /// Drop every exhausted, drained stream and restart the cursor.
    pub fn prune(&mut self)
        requires
            old(self)@.wf(),
        ensures
            final(self)@.wf(),
            final(self)@ == (MultiplexerView {
                streams: live_streams(old(self)@.streams),
                next_handle: old(self)@.next_handle,
                cursor: 0,
            }),
    {
        let ghost pre = self@;
        let mut kept: Vec<OpenStream> = Vec::new();
        let mut i: usize = 0;
        proof {
            assert(kept.deep_view() =~= live_streams(pre.streams.take(0)));
        }
        while i < self.streams.len()
            invariant
                self == old(self),
                pre == self@,
                0 <= i <= pre.streams.len(),
                kept.deep_view() == live_streams(pre.streams.take(i as int)),
            decreases pre.streams.len() - i,
        {
            let st = &self.streams[i];
            if !(st.exhausted && st.queued.len() == 0) {
                let copy = OpenStream {
                    handle: st.handle,
                    pending: st.pending,
                    queued: copy_chunks(&st.queued),
                    exhausted: st.exhausted,
                };
                kept.push(copy);
            }
            proof {
                assert(pre.streams.take(i + 1).drop_last() =~= pre.streams.take(i as int));
                assert(pre.streams.take(i + 1).last() == pre.streams[i as int]);
                assert(kept.deep_view() =~= live_streams(pre.streams.take(i + 1)));
            }
            i = i + 1;
        }
        self.streams = kept;
        self.cursor = 0;
        proof {
            assert(pre.streams.take(pre.streams.len() as int) =~= pre.streams);
            lemma_live_streams_sub(pre.streams);
            let post = self@;
            assert forall|k: int|
                0 <= k < post.streams.len() implies (#[trigger] post.streams[k]).handle
                < post.next_handle by {
                let j = choose|j: int|
                    0 <= j < pre.streams.len() && live_streams(pre.streams)[k] == pre.streams[j];
                assert(pre.streams[j].handle < pre.next_handle);
            }
        }
    }
}

/// `first_ready_in` finds nothing on an interval of unready streams, so
/// extending such an interval by one unready stream keeps it empty-handed.
proof fn lemma_first_ready_extend(s: Seq<StreamView>, lo: int, i: int)
    requires
        0 <= lo <= i < s.len(),
        first_ready_in(s, lo, i) is None,
        s[i].queued.len() == 0,
    ensures
        first_ready_in(s, lo, i + 1) is None,
    decreases i - lo,
{
    if lo < i {
        lemma_first_ready_extend(s, lo + 1, i);
    } else {
        assert(first_ready_in(s, i + 1, i + 1) is None);
    }
}

/// `first_ready_in` returns the first ready stream: nothing ready in
/// `[lo, i)` and `s[i]` ready pins the result to `i`.
proof fn lemma_first_ready_found(s: Seq<StreamView>, lo: int, i: int, hi: int)
    requires
        0 <= lo <= i < hi,
        first_ready_in(s, lo, i) is None,
        i < s.len(),
        s[i].queued.len() > 0,
    ensures
        first_ready_in(s, lo, hi) == Some(i),
    decreases i - lo,
{
    if lo < i {
        lemma_first_ready_found(s, lo + 1, i, hi);
    }
}

/// A fresh vector of chunks equal to `cs`.
fn copy_chunks(cs: &Vec<Chunk>) -> (r: Vec<Chunk>)
    ensures
        r@ == cs@,
{
    let mut out: Vec<Chunk> = Vec::new();
    let mut i: usize = 0;
    while i < cs.len()
        invariant
            0 <= i <= cs@.len(),
            out@ == cs@.take(i as int),
        decreases cs@.len() - i,
    {
        let c = match &cs[i] {
            Chunk::BeginResponse { role } => Chunk::BeginResponse { role: *role },
            Chunk::Content { delta } => Chunk::Content { delta: delta.clone() },
            Chunk::Done => Chunk::Done,
            Chunk::CloseResponse => Chunk::CloseResponse,
        };
        proof {
            assert(c == cs@[i as int]);
        }
        out.push(c);
        proof {
            assert(out@ =~= cs@.take(i + 1));
        }
        i = i + 1;
    }
    proof {
        assert(cs@.take(cs@.len() as int) =~= cs@);
    }
    out
}

} // verus!
