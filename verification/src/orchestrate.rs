//! The orchestrator: the single consumer of the ordered inbound event stream.
//!
//! One step takes the next inbound event — or the news that the event source
//! is exhausted — mutates the registry it exclusively owns, and returns the
//! ordered actions the surrounding units are to perform: persistence
//! checkpoints, outbound completion requests, and quitting.

use vstd::prelude::*;
use crate::ids::SessionId;
use crate::msg::{Chunk, ChunkView, Dispatch, DispatchView, PendingRequest};
use crate::registry::{
    State, StateView, created_chat_rel, select_down_spec, select_up_spec, store_scroll_spec,
};
use crate::session::{
    Chat, ChatView, backspace_spec, is_blank, push_char_spec, scroll_down_spec, scroll_up_spec,
    input_is_blank,
};
use crate::dispatch::{submit_dispatch_spec, submit_state_spec};
use crate::assemble::apply_spec;
use crate::shutdown::{ShutdownSignal, fire_spec};

verus! {

/// Which pane the user is interacting with.
#[derive(Clone, Copy, PartialEq, Eq, Structural, Debug)]
pub enum UiMode {
    ChatSelection,
    Chat,
}

/// A discrete key press, already freed of terminal escape sequences.
#[derive(Clone, Copy, PartialEq, Eq, Structural, Debug)]
pub enum Key {
    Enter,
    Up,
    Down,
    Esc,
    Backspace,
    Char(char),
    Other,
}

/// One inbound event: a key press, a resize notice, or a backend chunk
/// tagged with its originating request.
pub enum AppMessage {
    KeyEvent(Key),
    ResizeEvent,
    ChunkReceived { pending: PendingRequest, chunk: Chunk },
}

/// Mathematical model of an [`AppMessage`].
pub enum AppMessageView {
    KeyEvent(Key),
    ResizeEvent,
    ChunkReceived { pending: PendingRequest, chunk: ChunkView },
}

impl View for AppMessage {
    type V = AppMessageView;

    open spec fn view(&self) -> AppMessageView {
        match self {
            AppMessage::KeyEvent(k) => AppMessageView::KeyEvent(*k),
            AppMessage::ResizeEvent => AppMessageView::ResizeEvent,
            AppMessage::ChunkReceived { pending, chunk } => AppMessageView::ChunkReceived {
                pending: *pending,
                chunk: chunk@,
            },
        }
    }
}

impl DeepView for AppMessage {
    type V = AppMessageView;

    open spec fn deep_view(&self) -> AppMessageView {
        self.view()
    }
}

/// One action a step asks of the surrounding units, in order.
pub enum Action {
    /// Write the whole registry durably.
    SaveState,
    /// Hand a completion request to the backend-dispatch unit.
    Send(Dispatch),
    /// Fire the shutdown signal outward and end the loop.
    Quit,
}

/// Mathematical model of an [`Action`].
pub enum ActionView {
    SaveState,
    Send(DispatchView),
    Quit,
}

impl View for Action {
    type V = ActionView;

    open spec fn view(&self) -> ActionView {
        match self {
            Action::SaveState => ActionView::SaveState,
            Action::Send(d) => ActionView::Send(d@),
            Action::Quit => ActionView::Quit,
        }
    }
}

impl DeepView for Action {
    type V = ActionView;

    open spec fn deep_view(&self) -> ActionView {
        self.view()
    }
}

/// The orchestrator's whole state: the registry it owns, the pane mode, and
/// the shutdown signal.
pub struct App {
    pub ui_mode: UiMode,
    pub state: State,
    pub quit: ShutdownSignal,
}

/// Mathematical model of an [`App`].
pub struct AppView {
    pub ui_mode: UiMode,
    pub state: StateView,
    pub quit: ShutdownSignal,
}

impl View for App {
    type V = AppView;

    open spec fn view(&self) -> AppView {
        AppView { ui_mode: self.ui_mode, state: self.state@, quit: self.quit }
    }
}

/// The registry with its active session replaced; the registry itself when
/// nothing is selected.
pub open spec fn with_active_chat(pre: StateView, c1: ChatView) -> StateView {
    match pre.current_chat_id {
        Some(id) => StateView {
            chats: pre.chats.update(pre.chat_idx(id), c1),
            current_chat_id: pre.current_chat_id,
        },
        None => pre,
    }
}

/// The registry's active session; meaningful only when one is selected.
pub open spec fn active_chat(pre: StateView) -> ChatView {
    pre.chat_of(pre.current_chat_id.unwrap())
}

/// What a key does while the selection list is shown.
pub open spec fn selection_key_rel(pre: AppView, key: Key, post: AppView, acts: Seq<ActionView>) -> bool {
    match key {
        Key::Enter => post == (AppView { ui_mode: UiMode::Chat, ..pre }) && acts.len() == 0,
        Key::Up => post == (AppView { state: select_up_spec(pre.state), ..pre }) && acts.len() == 0,
        Key::Down => post == (AppView { state: select_down_spec(pre.state), ..pre }) && acts.len() == 0,
        Key::Esc => post == (AppView { quit: fire_spec(pre.quit), ..pre }) && acts == seq![ActionView::Quit],
        Key::Char(c) => {
            if c == 'q' {
                post == (AppView { quit: fire_spec(pre.quit), ..pre }) && acts == seq![ActionView::Quit]
            } else if c == 'n' {
                &&& post.ui_mode == pre.ui_mode
                &&& post.quit == pre.quit
                &&& exists|r: Result<SessionId, SessionId>| created_chat_rel(pre.state, post.state, r)
                &&& acts.len() == 0
            } else {
                post == pre && acts.len() == 0
            }
        },
        _ => post == pre && acts.len() == 0,
    }
}

/// What a key does inside a conversation.
pub open spec fn chat_key_rel(pre: AppView, key: Key, post: AppView, acts: Seq<ActionView>) -> bool {
    match key {
        Key::Enter => {
            match pre.state.current_chat_id {
                None => {
                    // A session is created on demand; its draft starts blank,
                    // so nothing is submitted yet.
                    &&& post.ui_mode == pre.ui_mode
                    &&& post.quit == pre.quit
                    &&& exists|r: Result<SessionId, SessionId>| created_chat_rel(pre.state, post.state, r)
                    &&& acts.len() == 0
                },
                Some(id) => {
                    let draft = pre.state.chat_of(id).input;
                    if is_blank(draft) {
                        post == pre && acts.len() == 0
                    } else {
                        &&& post == (AppView { state: submit_state_spec(pre.state, id, draft), ..pre })
                        &&& acts == seq![
                            ActionView::Send(submit_dispatch_spec(pre.state, id, draft)),
                            ActionView::SaveState,
                        ]
                    }
                },
            }
        },
        Key::Char(c) => {
            match pre.state.current_chat_id {
                Some(id) => post == (AppView {
                    state: with_active_chat(pre.state, push_char_spec(active_chat(pre.state), c)),
                    ..pre
                }) && acts.len() == 0,
                None => post == pre && acts.len() == 0,
            }
        },
        Key::Backspace => {
            match pre.state.current_chat_id {
                Some(id) => post == (AppView {
                    state: with_active_chat(pre.state, backspace_spec(active_chat(pre.state))),
                    ..pre
                }) && acts.len() == 0,
                None => post == pre && acts.len() == 0,
            }
        },
        Key::Esc => {
            &&& post == (AppView { ui_mode: UiMode::ChatSelection, ..pre })
            &&& if pre.state.current_chat_id matches Some(id) && pre.state.chat_of(id).history.len() > 1 {
                acts == seq![ActionView::SaveState]
            } else {
                acts.len() == 0
            }
        },
        Key::Up => {
            match pre.state.current_chat_id {
                Some(id) => post == (AppView {
                    state: with_active_chat(pre.state, scroll_up_spec(active_chat(pre.state))),
                    ..pre
                }) && acts.len() == 0,
                None => post == pre && acts.len() == 0,
            }
        },
        Key::Down => {
            match pre.state.current_chat_id {
                Some(id) => post == (AppView {
                    state: with_active_chat(pre.state, scroll_down_spec(active_chat(pre.state))),
                    ..pre
                }) && acts.len() == 0,
                None => post == pre && acts.len() == 0,
            }
        },
        Key::Other => post == pre && acts.len() == 0,
    }
}

/// What one tagged chunk does: the assembler runs, a checkpoint is asked for
/// exactly on `Done`, and the follow-up title request, if any, is sent after
/// the checkpoint.
pub open spec fn chunk_rel(
    pre: AppView,
    pending: PendingRequest,
    chunk: ChunkView,
    post: AppView,
    acts: Seq<ActionView>,
) -> bool {
    let (s1, checkpoint, follow_up) = apply_spec(pre.state, pending, chunk);
    &&& post == (AppView { state: s1, ..pre })
    &&& acts == {
        let save: Seq<ActionView> = if checkpoint {
            seq![ActionView::SaveState]
        } else {
            Seq::<ActionView>::empty()
        };
        let send: Seq<ActionView> = match follow_up {
            Some(d) => seq![ActionView::Send(d)],
            None => Seq::<ActionView>::empty(),
        };
        save + send
    }
}

/// The whole orchestrator transition: what one inbound event (or the
/// exhaustion of the event source, `None`) does to the state, and which
/// actions it emits, in order.
pub open spec fn step_rel(
    pre: AppView,
    msg: Option<AppMessageView>,
    post: AppView,
    acts: Seq<ActionView>,
) -> bool {
    match msg {
        None => post == (AppView { quit: fire_spec(pre.quit), ..pre }) && acts == seq![ActionView::Quit],
        Some(AppMessageView::KeyEvent(key)) => match pre.ui_mode {
            UiMode::ChatSelection => selection_key_rel(pre, key, post, acts),
            UiMode::Chat => chat_key_rel(pre, key, post, acts),
        },
        Some(AppMessageView::ResizeEvent) => post == pre && acts.len() == 0,
        Some(AppMessageView::ChunkReceived { pending, chunk }) => chunk_rel(pre, pending, chunk, post, acts),
    }
}

impl App {
    /// A fresh orchestrator around a loaded (or defaulted) registry, showing
    /// the selection list, with the shutdown signal unfired.
    pub fn new(state: State) -> (app: App)
        ensures
            app@ == (AppView {
                ui_mode: UiMode::ChatSelection,
                state: state@,
                quit: ShutdownSignal { fired: false },
            }),
    {
        App { ui_mode: UiMode::ChatSelection, state, quit: ShutdownSignal::new() }
    }

    /// The active session's position in insertion order.
    pub fn current_chat_idx(&self) -> (r: Option<usize>)
        requires
            self@.state.wf(),
        ensures
            match self@.state.current_chat_id {
                Some(id) => r matches Some(i) && i == self@.state.chat_idx(id),
                None => r is None,
            },
    {
        self.state.current_chat_idx()
    }

    /// The active session, if one is selected.
    pub fn current_chat(&self) -> (r: Option<&Chat>)
        requires
            self@.state.wf(),
        ensures
            match self@.state.current_chat_id {
                Some(id) => r matches Some(c) && c@ == self@.state.chat_of(id) && c.id == id,
                None => r is None,
            },
    {
        self.state.current_chat()
    }

    /// Look a session up by identifier.
    pub fn chat(&self, id: SessionId) -> (r: Option<&Chat>)
        requires
            self@.state.wf(),
        ensures
            match r {
                Some(c) => self@.state.has_chat(id) && c@ == self@.state.chat_of(id) && c.id == id,
                None => !self@.state.has_chat(id),
            },
    {
        self.state.chat(id)
    }

    /// Look a session up by identifier, for in-place mutation.
    pub fn chat_mut(&mut self, id: SessionId) -> (r: Option<&mut Chat>)
        requires
            old(self)@.state.wf(),
        ensures
            (old(self)@.state.has_chat(id) <==> r is Some),
            r matches Some(c) ==> {
                &&& *c == old(self).state.chats@[old(self)@.state.chat_idx(id)]
                &&& final(self).state.chats@ == old(self).state.chats@.update(
                    old(self)@.state.chat_idx(id),
                    *final(c),
                )
                &&& final(self).state.current_chat_id == old(self).state.current_chat_id
                &&& final(self).ui_mode == old(self).ui_mode
                &&& final(self).quit == old(self).quit
            },
            r is None ==> *final(self) == *old(self),
    {
        match self.state.chat_idx_of(id) {
            Some(i) => Some(&mut self.state.chats[i]),
            None => None,
        }
    }

    /// The active session, for in-place mutation.
    pub fn current_chat_mut(&mut self) -> (r: Option<&mut Chat>)
        requires
            old(self)@.state.wf(),
        ensures
            (old(self)@.state.current_chat_id is Some <==> r is Some),
            r matches Some(c) ==> {
                let id = old(self)@.state.current_chat_id.unwrap();
                &&& *c == old(self).state.chats@[old(self)@.state.chat_idx(id)]
                &&& final(self).state.chats@ == old(self).state.chats@.update(
                    old(self)@.state.chat_idx(id),
                    *final(c),
                )
                &&& final(self).state.current_chat_id == old(self).state.current_chat_id
                &&& final(self).ui_mode == old(self).ui_mode
                &&& final(self).quit == old(self).quit
            },
            r is None ==> *final(self) == *old(self),
    {
        let cur = self.state.current_chat_id;
        match cur {
            Some(id) => self.chat_mut(id),
            None => None,
        }
    }

    /// Consume one inbound event, or the news that the source is exhausted.
    pub fn step(&mut self, msg: Option<AppMessage>) -> (actions: Vec<Action>)
        requires
            old(self)@.state.wf(),
        ensures
            final(self)@.state.wf(),
            step_rel(old(self)@, msg.deep_view(), final(self)@, actions.deep_view()),
    {
        let ghost pre = self@;
        match msg {
            None => {
                self.quit.fire();
                let actions = vec![Action::Quit];
                proof {
                    assert(actions.deep_view() =~= seq![ActionView::Quit]);
                }
                actions
            },
            Some(AppMessage::ResizeEvent) => {
                let actions: Vec<Action> = Vec::new();
                actions
            },
            Some(AppMessage::ChunkReceived { pending, chunk }) => {
                let outcome = self.state.apply(pending, chunk);
                let mut actions: Vec<Action> = Vec::new();
                if outcome.checkpoint {
                    actions.push(Action::SaveState);
                }
                let ghost save = actions.deep_view();
                match outcome.follow_up {
                    Some(d) => {
                        actions.push(Action::Send(d));
                    },
                    None => {},
                }
                proof {
                    let (s1, checkpoint, follow_up) = apply_spec(pre.state, pending, chunk@);
                    let save_s: Seq<ActionView> = if checkpoint {
                        seq![ActionView::SaveState]
                    } else {
                        Seq::<ActionView>::empty()
                    };
                    let send_s: Seq<ActionView> = match follow_up {
                        Some(d) => seq![ActionView::Send(d)],
                        None => Seq::<ActionView>::empty(),
                    };
                    assert(save =~= save_s);
                    assert(actions.deep_view() =~= save_s + send_s);
                }
                actions
            },
            Some(AppMessage::KeyEvent(key)) => {
                match self.ui_mode {
                    UiMode::ChatSelection => self.selection_key(key),
                    UiMode::Chat => self.chat_key(key),
                }
            },
        }
    }

    /// Consume one key press while the selection list is shown.
    pub fn selection_key(&mut self, key: Key) -> (actions: Vec<Action>)
        requires
            old(self)@.state.wf(),
        ensures
            final(self)@.state.wf(),
            selection_key_rel(old(self)@, key, final(self)@, actions.deep_view()),
    {
        let ghost pre = self@;
        match key {
            Key::Enter => {
                self.ui_mode = UiMode::Chat;
                Vec::new()
            },
            Key::Up => {
                self.state.select_up();
                Vec::new()
            },
            Key::Down => {
                self.state.select_down();
                Vec::new()
            },
            Key::Esc => {
                self.quit.fire();
                let actions = vec![Action::Quit];
                proof {
                    assert(actions.deep_view() =~= seq![ActionView::Quit]);
                }
                actions
            },
            Key::Char(c) => {
                if c == 'q' {
                    self.quit.fire();
                    let actions = vec![Action::Quit];
                    proof {
                        assert(actions.deep_view() =~= seq![ActionView::Quit]);
                    }
                    actions
                } else if c == 'n' {
                    let r = self.state.create_chat();
                    proof {
                        assert(created_chat_rel(pre.state, self@.state, r));
                    }
                    Vec::new()
                } else {
                    Vec::new()
                }
            },
            _ => Vec::new(),
        }
    }

    /// Consume one key press inside a conversation.
    pub fn chat_key(&mut self, key: Key) -> (actions: Vec<Action>)
        requires
            old(self)@.state.wf(),
        ensures
            final(self)@.state.wf(),
            chat_key_rel(old(self)@, key, final(self)@, actions.deep_view()),
    {
        let ghost pre = self@;
        match key {
            Key::Enter => {
                let cur = self.state.current_chat_id;
                match cur {
                    None => {
                        let r = self.state.create_chat();
                        proof {
                            assert(created_chat_rel(pre.state, self@.state, r));
                        }
                        Vec::new()
                    },
                    Some(id) => {
                        let i = self.state.chat_idx_of(id).unwrap();
                        if input_is_blank(&self.state.chats[i].input) {
                            Vec::new()
                        } else {
                            let text = self.state.chats[i].input_text();
                            let d = self.state.submit_user_message(id, text);
                            let actions = vec![Action::Send(d), Action::SaveState];
                            proof {
                                assert(actions.deep_view() =~= seq![
                                    ActionView::Send(submit_dispatch_spec(pre.state, id, pre.state.chat_of(id).input)),
                                    ActionView::SaveState,
                                ]);
                            }
                            actions
                        }
                    },
                }
            },
            Key::Char(c) => {
                match self.state.current_chat_idx() {
                    Some(i) => {
                        let ch = &mut self.state.chats[i];
                        ch.push_input_char(c);
                        proof {
                            self.lemma_active_update(pre, i as int);
                        }
                    },
                    None => {},
                }
                Vec::new()
            },
            Key::Backspace => {
                match self.state.current_chat_idx() {
                    Some(i) => {
                        let ch = &mut self.state.chats[i];
                        ch.backspace();
                        proof {
                            self.lemma_active_update(pre, i as int);
                        }
                    },
                    None => {},
                }
                Vec::new()
            },
            Key::Esc => {
                self.ui_mode = UiMode::ChatSelection;
                let mut save = false;
                match self.state.current_chat() {
                    Some(c) => {
                        if c.history.len() > 1 {
                            save = true;
                        }
                    },
                    None => {},
                }
                if save {
                    let actions = vec![Action::SaveState];
                    proof {
                        assert(actions.deep_view() =~= seq![ActionView::SaveState]);
                    }
                    actions
                } else {
                    Vec::new()
                }
            },
            Key::Up => {
                match self.state.current_chat_idx() {
                    Some(i) => {
                        let ch = &mut self.state.chats[i];
                        ch.scroll_up();
                        proof {
                            self.lemma_active_update(pre, i as int);
                        }
                    },
                    None => {},
                }
                Vec::new()
            },
            Key::Down => {
                match self.state.current_chat_idx() {
                    Some(i) => {
                        let ch = &mut self.state.chats[i];
                        ch.scroll_down();
                        proof {
                            self.lemma_active_update(pre, i as int);
                        }
                    },
                    None => {},
                }
                Vec::new()
            },
            Key::Other => Vec::new(),
        }
    }

    /// After replacing the active session in place by a well-formed session
    /// with the same identifier, the state matches [`with_active_chat`] and
    /// stays well formed.
    proof fn lemma_active_update(&self, pre: AppView, i: int)
        requires
            pre.state.wf(),
            pre.state.current_chat_id is Some,
            i == pre.state.chat_idx(pre.state.current_chat_id.unwrap()),
            self@.state.chats =~= pre.state.chats.update(i, self@.state.chats[i]),
            self@.state.chats.len() == pre.state.chats.len(),
            self@.state.current_chat_id == pre.state.current_chat_id,
            self@.state.chats[i].wf(),
            self@.state.chats[i].id == pre.state.chats[i].id,
        ensures
            self@.state.wf(),
            self@.state == with_active_chat(pre.state, self@.state.chats[i]),
    {
        crate::registry::lemma_update_keeps_wf(pre.state, i, self@.state.chats[i]);
    }

    /// Store the view offset the rendering collaborator handed back.
    pub fn store_scroll(&mut self, scroll: usize)
        requires
            old(self)@.state.wf(),
        ensures
            final(self)@.state.wf(),
            final(self)@ == (AppView { state: store_scroll_spec(old(self)@.state, scroll as nat), ..old(self)@ }),
    {
        self.state.store_scroll(scroll);
    }
}

} // verus!
