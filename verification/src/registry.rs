//! The session registry: the full application state.
//!
//! An insertion-ordered collection of sessions plus the currently selected
//! session.  Lookup is always by identifier, never positional across
//! components; the selection list shows sessions most recent first.

use vstd::prelude::*;
use crate::ids::SessionId;
use crate::session::{Chat, ChatView};

verus! {

/// The complete in-memory and persisted state: every session plus the active
/// selection.
pub struct State {
    pub chats: Vec<Chat>,
    pub current_chat_id: Option<SessionId>,
}

/// Mathematical model of a [`State`].
pub struct StateView {
    pub chats: Seq<ChatView>,
    pub current_chat_id: Option<SessionId>,
}

impl View for State {
    type V = StateView;

    open spec fn view(&self) -> StateView {
        StateView { chats: self.chats.deep_view(), current_chat_id: self.current_chat_id }
    }
}

impl DeepView for Chat {
    type V = ChatView;

    open spec fn deep_view(&self) -> ChatView {
        self.view()
    }
}

impl StateView {
    /// Some session carries `id`.
    pub open spec fn has_chat(self, id: SessionId) -> bool {
        exists|i: int| 0 <= i < self.chats.len() && self.chats[i].id == id
    }

    /// The position of the session carrying `id`; meaningful only when
    /// [`Self::has_chat`] holds (identifiers are unique under [`Self::wf`]).
    pub open spec fn chat_idx(self, id: SessionId) -> int {
        choose|i: int| 0 <= i < self.chats.len() && self.chats[i].id == id
    }

    /// The session carrying `id`; meaningful only when [`Self::has_chat`] holds.
    pub open spec fn chat_of(self, id: SessionId) -> ChatView {
        self.chats[self.chat_idx(id)]
    }

    /// Every session is well formed, identifiers are unique, and the active
    /// identifier, when set, names a present session.
    pub open spec fn wf(self) -> bool {
        &&& forall|i: int| 0 <= i < self.chats.len() ==> (#[trigger] self.chats[i]).wf()
        &&& unique_ids(self.chats)
        &&& self.current_chat_id matches Some(id) ==> self.has_chat(id)
    }
}

/// No two sessions carry the same identifier.
pub open spec fn unique_ids(chats: Seq<ChatView>) -> bool {
    forall|i: int, j: int|
        0 <= i < j < chats.len() ==> (#[trigger] chats[i]).id != (#[trigger] chats[j]).id
}

/// What moving the selection one session up (most recent first) does.
pub open spec fn select_up_spec(pre: StateView) -> StateView {
    let n = pre.chats.len() as int;
    match pre.current_chat_id {
        Some(id) => {
            let idx = pre.chat_idx(id);
            let new_idx: int = if idx == n - 1 {
                0
            } else {
                idx + 1
            };
            StateView { chats: pre.chats, current_chat_id: Some(pre.chats[new_idx].id) }
        },
        None => {
            if n > 0 {
                StateView { chats: pre.chats, current_chat_id: Some(pre.chats[n - 1].id) }
            } else {
                pre
            }
        },
    }
}

/// What moving the selection one session down does.
pub open spec fn select_down_spec(pre: StateView) -> StateView {
    let n = pre.chats.len() as int;
    match pre.current_chat_id {
        Some(id) => {
            let idx = pre.chat_idx(id);
            let new_idx: int = if idx == 0 {
                n - 1
            } else {
                idx - 1
            };
            StateView { chats: pre.chats, current_chat_id: Some(pre.chats[new_idx].id) }
        },
        None => {
            if n > 0 {
                StateView { chats: pre.chats, current_chat_id: Some(pre.chats[n - 1].id) }
            } else {
                pre
            }
        },
    }
}

/// What storing a returned view offset into the active session does.
pub open spec fn store_scroll_spec(pre: StateView, scroll: nat) -> StateView {
    match pre.current_chat_id {
        Some(id) => StateView {
            chats: pre.chats.update(
                pre.chat_idx(id),
                ChatView { scroll, ..pre.chat_of(id) },
            ),
            current_chat_id: pre.current_chat_id,
        },
        None => pre,
    }
}

/// How a freshly created session relates registry states: either a new,
/// well-formed, seeded session carrying an unused identifier was appended and
/// selected, or nothing changed — and then only because the drawn identifier
/// named a session already present.  On an empty registry no identifier can
/// collide, so there creation always succeeds.
pub open spec fn created_chat_rel(pre: StateView, post: StateView, r: Result<SessionId, SessionId>) -> bool {
    match r {
        Ok(id) => {
            &&& !pre.has_chat(id)
            &&& post.chats.len() == pre.chats.len() + 1
            &&& post.chats.take(pre.chats.len() as int) == pre.chats
            &&& post.current_chat_id == Some(id)
            &&& {
                let c = post.chats.last();
                &&& c.id == id
                &&& c.wf()
                &&& c.history.len() == 1
                &&& c.history[0].role == crate::msg::Role::System
                &&& crate::session::seed_prefix_text().is_prefix_of(c.history[0].content)
                &&& c.title == crate::ids::uuid_display(id.raw)
                &&& c.input == Seq::<char>::empty()
                &&& c.input_pos == 0
                &&& c.scroll == 0
            }
        },
        Err(id) => post == pre && pre.has_chat(id),
    }
}

/// Under unique identifiers, any index holding `id` is the index `chat_idx`
/// picks.
pub proof fn lemma_chat_idx_unique(s: StateView, id: SessionId, i: int)
    requires
        unique_ids(s.chats),
        0 <= i < s.chats.len(),
        s.chats[i].id == id,
    ensures
        s.has_chat(id),
        s.chat_idx(id) == i,
{
    assert(s.has_chat(id));
    let j = s.chat_idx(id);
    if i < j {
        assert(s.chats[i].id != s.chats[j].id);
    } else if j < i {
        assert(s.chats[j].id != s.chats[i].id);
    }
}

/// Replacing a session by a well-formed one with the same identifier keeps
/// the registry well formed and leaves membership as it was.
pub proof fn lemma_update_keeps_wf(pre: StateView, i: int, c: ChatView)
    requires
        pre.wf(),
        0 <= i < pre.chats.len(),
        c.id == pre.chats[i].id,
        c.wf(),
    ensures
        (StateView { chats: pre.chats.update(i, c), current_chat_id: pre.current_chat_id }).wf(),
        forall|id: SessionId|
            (StateView { chats: pre.chats.update(i, c), current_chat_id: pre.current_chat_id }).has_chat(id)
                == pre.has_chat(id),
{
    let post = StateView { chats: pre.chats.update(i, c), current_chat_id: pre.current_chat_id };
    assert forall|id: SessionId| post.has_chat(id) == pre.has_chat(id) by {
        if pre.has_chat(id) {
            let w = pre.chat_idx(id);
            assert(post.chats[w].id == id);
        }
        if post.has_chat(id) {
            let w = post.chat_idx(id);
            assert(pre.chats[w].id == id);
        }
    }
    assert forall|k: int| 0 <= k < post.chats.len() implies (#[trigger] post.chats[k]).wf() by {
        if k != i {
            assert(pre.chats[k].wf());
        }
    }
    match pre.current_chat_id {
        Some(id) => {
            assert(pre.has_chat(id));
        },
        None => {},
    }
}

impl State {
    /// The empty registry: no sessions, nothing selected.
    pub fn empty() -> (s: State)
        ensures
            s@ == (StateView { chats: Seq::<ChatView>::empty(), current_chat_id: None::<SessionId> }),
            s@.wf(),
    {
        let s = State { chats: Vec::new(), current_chat_id: None };
        proof {
            assert(s.chats.deep_view() =~= Seq::<ChatView>::empty());
        }
        s
    }

    /// The position, in insertion order, of the session carrying `id`.
    pub fn chat_idx_of(&self, id: SessionId) -> (r: Option<usize>)
        requires
            self@.wf(),
        ensures
            match r {
                Some(i) => self@.has_chat(id) && i == self@.chat_idx(id) && i < self@.chats.len(),
                None => !self@.has_chat(id),
            },
    {
        let mut i: usize = 0;
        while i < self.chats.len()
            invariant
                self@.wf(),
                0 <= i <= self@.chats.len(),
                forall|j: int| 0 <= j < i ==> self@.chats[j].id != id,
            decreases self@.chats.len() - i,
        {
            if self.chats[i].id == id {
                proof {
                    lemma_chat_idx_unique(self@, id, i as int);
                }
                return Some(i);
            }
            i = i + 1;
        }
        None
    }

    /// Look a session up by identifier.  Absence is represented, never an
    /// error.
    pub fn chat(&self, id: SessionId) -> (r: Option<&Chat>)
        requires
            self@.wf(),
        ensures
            match r {
                Some(c) => self@.has_chat(id) && c@ == self@.chat_of(id) && c.id == id,
                None => !self@.has_chat(id),
            },
    {
        match self.chat_idx_of(id) {
            Some(i) => Some(&self.chats[i]),
            None => None,
        }
    }

    /// The active session's position in insertion order.
    pub fn current_chat_idx(&self) -> (r: Option<usize>)
        requires
            self@.wf(),
        ensures
            match self@.current_chat_id {
                Some(id) => r matches Some(i) && i == self@.chat_idx(id) && self@.has_chat(id),
                None => r is None,
            },
    {
        match self.current_chat_id {
            Some(id) => self.chat_idx_of(id),
            None => None,
        }
    }

    /// The active session, if one is selected.
    pub fn current_chat(&self) -> (r: Option<&Chat>)
        requires
            self@.wf(),
        ensures
            match self@.current_chat_id {
                Some(id) => r matches Some(c) && c@ == self@.chat_of(id) && c.id == id,
                None => r is None,
            },
    {
        match self.current_chat_id {
            Some(id) => self.chat(id),
            None => None,
        }
    }

    /// Append a session.  The caller keeps identifiers unique.
    pub fn insert(&mut self, chat: Chat)
        requires
            old(self)@.wf(),
            chat@.wf(),
            !old(self)@.has_chat(chat@.id),
        ensures
            final(self)@ == (StateView {
                chats: old(self)@.chats.push(chat@),
                current_chat_id: old(self)@.current_chat_id,
            }),
            final(self)@.wf(),
    {
        self.chats.push(chat);
        proof {
            assert(self.chats.deep_view() =~= old(self).chats.deep_view().push(self.chats@.last()@));
            let post = self@;
            let pre = old(self)@;
            assert forall|i: int| 0 <= i < post.chats.len() implies (#[trigger] post.chats[i]).wf() by {
                if i < pre.chats.len() {
                    assert(pre.chats[i].wf());
                }
            }
            match pre.current_chat_id {
                Some(id) => {
                    let w = pre.chat_idx(id);
                    assert(post.chats[w].id == id);
                },
                None => {},
            }
        }
    }

    /// Create a brand-new session and select it.  Returns its identifier,
    /// or — in the vanishing case that the freshly drawn identifier is
    /// already taken — that identifier as the error, with nothing changed.
    pub fn create_chat(&mut self) -> (r: Result<SessionId, SessionId>)
        requires
            old(self)@.wf(),
        ensures
            final(self)@.wf(),
            created_chat_rel(old(self)@, final(self)@, r),
    {
        let chat = Chat::fresh();
        let id = chat.id;
        if self.chat_idx_of(id).is_some() {
            return Err(id);
        }
        self.insert(chat);
        self.current_chat_id = Some(id);
        proof {
            let post = self@;
            lemma_chat_idx_unique(post, id, post.chats.len() - 1);
            assert(post.chats.take(old(self)@.chats.len() as int) =~= old(self)@.chats);
        }
        Ok(id)
    }

    /// Move the selection one session up in the list (most recent first), or
    /// to the oldest when it is at the most recent, or to the most recent
    /// when nothing is selected.  With no sessions, nothing changes.
    pub fn select_up(&mut self)
        requires
            old(self)@.wf(),
        ensures
            final(self)@.wf(),
            final(self)@ == select_up_spec(old(self)@),
    {
        match self.current_chat_idx() {
            Some(idx) => {
                let new_idx: usize = if idx == self.chats.len() - 1 { 0 } else { idx + 1 };
                let id = self.chats[new_idx].id;
                self.current_chat_id = Some(id);
                proof {
                    lemma_chat_idx_unique(self@, id, new_idx as int);
                }
            },
            None => {
                if self.chats.len() > 0 {
                    let id = self.chats[self.chats.len() - 1].id;
                    self.current_chat_id = Some(id);
                    proof {
                        lemma_chat_idx_unique(self@, id, self@.chats.len() - 1);
                    }
                }
            },
        }
    }

    /// Move the selection one session down in the list, symmetric to
    /// [`Self::select_up`].
    pub fn select_down(&mut self)
        requires
            old(self)@.wf(),
        ensures
            final(self)@.wf(),
            final(self)@ == select_down_spec(old(self)@),
    {
        match self.current_chat_idx() {
            Some(idx) => {
                let new_idx: usize = if idx == 0 { self.chats.len() - 1 } else { idx - 1 };
                let id = self.chats[new_idx].id;
                self.current_chat_id = Some(id);
                proof {
                    lemma_chat_idx_unique(self@, id, new_idx as int);
                }
            },
            None => {
                if self.chats.len() > 0 {
                    let id = self.chats[self.chats.len() - 1].id;
                    self.current_chat_id = Some(id);
                    proof {
                        lemma_chat_idx_unique(self@, id, self@.chats.len() - 1);
                    }
                }
            },
        }
    }

    /// Store the view offset the rendering collaborator handed back, into the
    /// active session; with none, nothing changes.
    pub fn store_scroll(&mut self, scroll: usize)
        requires
            old(self)@.wf(),
        ensures
            final(self)@.wf(),
            final(self)@ == store_scroll_spec(old(self)@, scroll as nat),
    {
        match self.current_chat_idx() {
            Some(idx) => {
                let c = &mut self.chats[idx];
                c.scroll = scroll;
                proof {
                    assert(self.chats.deep_view() =~= old(self)@.chats.update(
                        idx as int,
                        (ChatView { scroll: scroll as nat, ..old(self)@.chats[idx as int] }),
                    ));
                    let post = self@;
                    let pre = old(self)@;
                    assert forall|i: int| 0 <= i < post.chats.len() implies (#[trigger] post.chats[i]).wf() by {
                        assert(pre.chats[i].wf());
                    }
                    match pre.current_chat_id {
                        Some(id) => {
                            assert(post.chats[pre.chat_idx(id)].id == id);
                        },
                        None => {},
                    }
                }
            },
            None => {},
        }
    }

    /// Session titles in display order: the reverse of insertion order.
    pub fn display_titles(&self) -> (r: Vec<String>)
        ensures
            r@.len() == self@.chats.len(),
            forall|i: int|
                0 <= i < r@.len() ==> (#[trigger] r@[i])@ == self@.chats[self@.chats.len() - 1 - i].title,
    {
        let n = self.chats.len();
        let mut out: Vec<String> = Vec::new();
        let mut i: usize = 0;
        while i < n
            invariant
                0 <= i <= n,
                n == self@.chats.len(),
                out@.len() == i,
                forall|j: int|
                    0 <= j < i ==> (#[trigger] out@[j])@ == self@.chats[self@.chats.len() - 1 - j].title,
            decreases n - i,
        {
            out.push(self.chats[n - 1 - i].title.clone());
            i = i + 1;
        }
        out
    }

    /// The active session's position in display order, for the selection
    /// list.
    pub fn active_index_in_display_order(&self) -> (r: Option<usize>)
        requires
            self@.wf(),
        ensures
            match self@.current_chat_id {
                Some(id) => r matches Some(i) && i == self@.chats.len() - 1 - self@.chat_idx(id),
                None => r is None,
            },
    {
        match self.current_chat_idx() {
            Some(idx) => Some(self.chats.len() - 1 - idx),
            None => None,
        }
    }
}

} // verus!
