use chat_orchestrator::assemble::ApplyOutcome;
use chat_orchestrator::dispatch::{markdown_transcript, transcript};
use chat_orchestrator::ids::{SessionId, session_id_text};
use chat_orchestrator::msg::{Chunk, Message, OutboundRequest, PendingRequest, RequestKind, Role};
use chat_orchestrator::multiplex::Multiplexer;
use chat_orchestrator::orchestrate::{Action, App, AppMessage, Key, UiMode};
use chat_orchestrator::registry::State;
use chat_orchestrator::session::{Chat, input_is_blank, whitespace_char};
use chat_orchestrator::shutdown::ShutdownSignal;

fn sid(n: u128) -> SessionId {
    SessionId { raw: n }
}

fn seeded(n: u128, seed: &str) -> Chat {
    Chat::seeded(sid(n), format!("chat-{}", n), seed.to_string())
}

fn one_chat_state(n: u128, seed: &str) -> State {
    let mut st = State::empty();
    st.insert(seeded(n, seed));
    st.current_chat_id = Some(sid(n));
    st
}

#[test]
fn scenario_single_exchange() {
    let mut st = one_chat_state(1, "sys");
    assert_eq!(st.chats[0].history.len(), 1);
    let d = st.submit_user_message(sid(1), "hi".to_string());
    assert_eq!(st.chats[0].history.len(), 2);
    assert_eq!(st.chats[0].history[1].content, "hi");
    assert!(matches!(st.chats[0].history[1].role, Role::User));
    assert_eq!(st.chats[0].input.len(), 0);
    let pending = d.pending;
    assert_eq!(pending.session_id, sid(1));
    assert!(matches!(pending.kind, RequestKind::ChatReply { insertion_index: 2 }));
    match d.request {
        OutboundRequest::ChatRequest { id, messages } => {
            assert_eq!(id, sid(1));
            assert_eq!(messages.len(), 2);
            assert_eq!(messages[1].content, "hi");
        }
        _ => panic!("expected a chat request"),
    }

    let o1 = st.apply(pending, Chunk::BeginResponse { role: Role::Assistant });
    assert!(!o1.checkpoint);
    assert!(o1.follow_up.is_none());
    st.apply(pending, Chunk::Content { delta: "he".to_string() });
    st.apply(pending, Chunk::Content { delta: "llo".to_string() });
    let done: ApplyOutcome = st.apply(pending, Chunk::Done);

    assert_eq!(st.chats[0].history.len(), 3);
    assert_eq!(st.chats[0].history[2].content, "hello");
    assert!(matches!(st.chats[0].history[2].role, Role::Assistant));
    assert!(done.checkpoint);
    let f = done.follow_up.expect("a title request after the first exchange");
    assert_eq!(f.pending.session_id, sid(1));
    assert!(matches!(f.pending.kind, RequestKind::TitleReply));
    match f.request {
        OutboundRequest::ChatTitleRequest { id, system_message } => {
            assert_eq!(id, sid(1));
            assert!(system_message.starts_with("Provide a useful"));
            assert!(system_message.ends_with("System: sysUser: hiAssistant: hello"));
        }
        _ => panic!("expected a title request"),
    }
}

#[test]
fn interleaved_streams_stay_separate() {
    let mut st = State::empty();
    st.insert(seeded(1, "a"));
    st.insert(seeded(2, "b"));
    st.current_chat_id = Some(sid(1));
    let d1 = st.submit_user_message(sid(1), "one".to_string());
    let d2 = st.submit_user_message(sid(2), "two".to_string());
    st.apply(d1.pending, Chunk::BeginResponse { role: Role::Assistant });
    st.apply(d2.pending, Chunk::BeginResponse { role: Role::Assistant });
    st.apply(d1.pending, Chunk::Content { delta: "alpha".to_string() });
    st.apply(d2.pending, Chunk::Content { delta: "beta".to_string() });
    st.apply(d1.pending, Chunk::Content { delta: "!".to_string() });
    st.apply(d2.pending, Chunk::Content { delta: "?".to_string() });
    assert_eq!(st.chats[0].history[2].content, "alpha!");
    assert_eq!(st.chats[1].history[2].content, "beta?");
    assert_eq!(st.chats[0].history.len(), 3);
    assert_eq!(st.chats[1].history.len(), 3);
    assert_eq!(st.chats[0].history[1].content, "one");
    assert_eq!(st.chats[1].history[1].content, "two");
}

#[test]
fn title_request_iff_history_reaches_three() {
    // First exchange completed: length 3 at Done emits exactly one request.
    let mut st = one_chat_state(1, "s");
    let d = st.submit_user_message(sid(1), "q".to_string());
    st.apply(d.pending, Chunk::BeginResponse { role: Role::Assistant });
    let done = st.apply(d.pending, Chunk::Done);
    assert!(done.follow_up.is_some());

    // Second exchange: length 5 at Done emits nothing.
    let d2 = st.submit_user_message(sid(1), "again".to_string());
    st.apply(d2.pending, Chunk::BeginResponse { role: Role::Assistant });
    let done2 = st.apply(d2.pending, Chunk::Done);
    assert_eq!(st.chats[0].history.len(), 5);
    assert!(done2.follow_up.is_none());
    assert!(done2.checkpoint);

    // A title reply's Done never emits a follow-up.
    let tp = PendingRequest { session_id: sid(1), kind: RequestKind::TitleReply };
    let done3 = st.apply(tp, Chunk::Done);
    assert!(done3.follow_up.is_none());
    assert!(done3.checkpoint);
}

#[test]
fn title_reply_rebuilds_title() {
    let mut st = one_chat_state(1, "s");
    let tp = PendingRequest { session_id: sid(1), kind: RequestKind::TitleReply };
    st.apply(tp, Chunk::BeginResponse { role: Role::Assistant });
    assert_eq!(st.chats[0].title, "");
    st.apply(tp, Chunk::Content { delta: "Greet".to_string() });
    st.apply(tp, Chunk::Content { delta: "ing".to_string() });
    assert_eq!(st.chats[0].title, "Greeting");
    st.apply(tp, Chunk::CloseResponse);
    assert_eq!(st.chats[0].title, "Greeting");
    assert_eq!(st.chats[0].history.len(), 1);
}

#[test]
fn absent_session_chunks_are_dropped() {
    let mut st = one_chat_state(1, "s");
    let ghostly = PendingRequest {
        session_id: sid(99),
        kind: RequestKind::ChatReply { insertion_index: 1 },
    };
    let o1 = st.apply(ghostly, Chunk::BeginResponse { role: Role::Assistant });
    let o2 = st.apply(ghostly, Chunk::Content { delta: "x".to_string() });
    let o3 = st.apply(ghostly, Chunk::Done);
    assert!(!o1.checkpoint && o1.follow_up.is_none());
    assert!(!o2.checkpoint && o2.follow_up.is_none());
    assert!(!o3.checkpoint && o3.follow_up.is_none());
    assert_eq!(st.chats.len(), 1);
    assert_eq!(st.chats[0].history.len(), 1);
    assert_eq!(st.chats[0].history[0].content, "s");
}

#[test]
fn misplaced_chunks_are_tolerated() {
    let mut st = one_chat_state(1, "s");
    // An insertion index that does not meet the history: ignored.
    let stale = PendingRequest { session_id: sid(1), kind: RequestKind::ChatReply { insertion_index: 7 } };
    st.apply(stale, Chunk::BeginResponse { role: Role::Assistant });
    assert_eq!(st.chats[0].history.len(), 1);
    st.apply(stale, Chunk::Content { delta: "lost".to_string() });
    assert_eq!(st.chats[0].history.len(), 1);
    assert_eq!(st.chats[0].history[0].content, "s");
}

#[test]
fn shutdown_is_idempotent() {
    let mut once = ShutdownSignal::new();
    assert!(!once.is_fired());
    once.fire();
    let mut twice = ShutdownSignal::new();
    twice.fire();
    twice.fire();
    assert_eq!(once.is_fired(), twice.is_fired());
    assert!(twice.is_fired());
}

#[test]
fn histories_never_empty() {
    let mut st = State::empty();
    st.create_chat().expect("fresh identifier");
    assert!(!st.chats[0].history.is_empty());
    let id = st.current_chat_id.unwrap();
    let d = st.submit_user_message(id, "x".to_string());
    st.apply(d.pending, Chunk::BeginResponse { role: Role::Assistant });
    st.apply(d.pending, Chunk::Done);
    for chat in &st.chats {
        assert!(!chat.history.is_empty());
    }
}

#[test]
fn created_chat_is_seeded_and_titled() {
    let mut st = State::empty();
    let id = st.create_chat().expect("fresh identifier");
    assert_eq!(st.chats.len(), 1);
    assert_eq!(st.current_chat_id, Some(id));
    assert_eq!(st.chats[0].id, id);
    // The title is the identifier's hyphenated text form.
    assert_eq!(st.chats[0].title.len(), 36);
    assert_eq!(st.chats[0].title, session_id_text(id));
    assert!(matches!(st.chats[0].history[0].role, Role::System));
    assert!(st.chats[0].history[0]
        .content
        .starts_with("You are ChatGPT, an AI model developed by OpenAI."));
}

#[test]
fn create_on_empty_registry_succeeds() {
    // With no sessions present no identifier can collide, so creation is owed.
    let mut st = State::empty();
    assert!(st.create_chat().is_ok());
}

#[test]
fn blankness_follows_unicode_whitespace() {
    assert!(whitespace_char('\u{a0}'));
    assert!(whitespace_char('\u{3000}'));
    assert!(whitespace_char(' '));
    assert!(whitespace_char('\t'));
    assert!(!whitespace_char('x'));
    assert!(input_is_blank(&vec![' ', '\u{a0}', '\u{2003}']));
    assert!(!input_is_blank(&vec![' ', 'x']));
}

#[test]
fn unicode_blank_draft_is_not_submitted() {
    let mut app = App::new(one_chat_state(1, "s"));
    app.ui_mode = UiMode::Chat;
    for c in ['\u{a0}', '\u{3000}'] {
        app.step(Some(AppMessage::KeyEvent(Key::Char(c))));
    }
    let acts = app.step(Some(AppMessage::KeyEvent(Key::Enter)));
    assert!(acts.is_empty());
    assert_eq!(app.state.chats[0].history.len(), 1);
}

#[test]
fn session_id_text_is_hyphenated() {
    assert_eq!(
        session_id_text(SessionId { raw: 0 }),
        "00000000-0000-0000-0000-000000000000"
    );
    assert_eq!(
        session_id_text(SessionId { raw: u128::MAX }),
        "ffffffff-ffff-ffff-ffff-ffffffffffff"
    );
}

#[test]
fn transcript_is_role_prefixed() {
    let h = vec![
        Message::new(Role::System, "a".to_string()),
        Message::new(Role::User, "b".to_string()),
        Message::new(Role::Assistant, "c".to_string()),
    ];
    assert_eq!(transcript(&h), "System: aUser: bAssistant: c");
}

#[test]
fn markdown_transcript_uses_headings() {
    let h = vec![Message::new(Role::System, "a".to_string())];
    assert_eq!(markdown_transcript(&h), "\n\n## System:\n\na");
    let empty: Vec<Message> = Vec::new();
    assert_eq!(markdown_transcript(&empty), "");
}

#[test]
fn round_robin_delivers_from_every_stream() {
    let mut mux = Multiplexer::new();
    let mut handles = Vec::new();
    for n in 0..3u128 {
        let p = PendingRequest { session_id: sid(n), kind: RequestKind::TitleReply };
        handles.push(mux.begin(p));
    }
    for (n, h) in handles.iter().enumerate() {
        assert!(mux.push_chunk(*h, Chunk::Content { delta: format!("{}", n) }));
    }
    // One chunk per stream, one scheduling round: every stream delivers.
    let mut seen = Vec::new();
    for _ in 0..3 {
        let (p, c) = mux.poll_next().expect("a chunk each poll");
        match c {
            Chunk::Content { delta } => seen.push((p.session_id, delta)),
            _ => panic!("unexpected chunk"),
        }
    }
    assert_eq!(seen.len(), 3);
    for n in 0..3u128 {
        assert!(seen.iter().any(|(s, d)| *s == sid(n) && *d == format!("{}", n)));
    }
    assert!(mux.poll_next().is_none());
}

#[test]
fn round_robin_is_not_starved_by_a_busy_stream() {
    let mut mux = Multiplexer::new();
    let p0 = PendingRequest { session_id: sid(0), kind: RequestKind::TitleReply };
    let p1 = PendingRequest { session_id: sid(1), kind: RequestKind::TitleReply };
    let h0 = mux.begin(p0);
    let h1 = mux.begin(p1);
    for _ in 0..5 {
        mux.push_chunk(h0, Chunk::Done);
    }
    mux.push_chunk(h1, Chunk::Done);
    // The busy first stream cannot keep the second from its turn.
    let first = mux.poll_next().unwrap().0;
    let second = mux.poll_next().unwrap().0;
    assert_eq!(first.session_id, sid(0));
    assert_eq!(second.session_id, sid(1));
}

#[test]
fn chunks_of_one_stream_keep_their_order() {
    let mut mux = Multiplexer::new();
    let p = PendingRequest { session_id: sid(1), kind: RequestKind::TitleReply };
    let h = mux.begin(p);
    for part in ["a", "b", "c"] {
        mux.push_chunk(h, Chunk::Content { delta: part.to_string() });
    }
    let mut seen = String::new();
    while let Some((_, chunk)) = mux.poll_next() {
        match chunk {
            Chunk::Content { delta } => seen.push_str(&delta),
            _ => panic!("unexpected chunk"),
        }
    }
    assert_eq!(seen, "abc");
}

#[test]
fn exhausted_streams_are_pruned() {
    let mut mux = Multiplexer::new();
    let p0 = PendingRequest { session_id: sid(0), kind: RequestKind::TitleReply };
    let p1 = PendingRequest { session_id: sid(1), kind: RequestKind::TitleReply };
    let h0 = mux.begin(p0);
    let h1 = mux.begin(p1);
    assert!(mux.finish(h0));
    mux.push_chunk(h1, Chunk::Done);
    mux.prune();
    assert_eq!(mux.streams.len(), 1);
    assert_eq!(mux.streams[0].handle, h1);
    // A finished stream with chunks still queued survives until drained.
    assert!(mux.finish(h1));
    mux.prune();
    assert_eq!(mux.streams.len(), 1);
    mux.poll_next().expect("the queued chunk");
    mux.prune();
    assert_eq!(mux.streams.len(), 0);
}

#[test]
fn unknown_handles_are_rejected() {
    let mut mux = Multiplexer::new();
    assert!(!mux.push_chunk(7, Chunk::Done));
    assert!(!mux.finish(7));
    assert!(mux.poll_next().is_none());
}

#[test]
fn draft_editing_tracks_the_cursor() {
    let mut c = seeded(1, "s");
    c.push_input_char('h');
    c.push_input_char('i');
    assert_eq!(c.input, vec!['h', 'i']);
    assert_eq!(c.input_pos, 2);
    c.backspace();
    assert_eq!(c.input, vec!['h']);
    assert_eq!(c.input_pos, 1);
    c.backspace();
    c.backspace();
    assert_eq!(c.input.len(), 0);
    assert_eq!(c.input_pos, 0);
    assert_eq!(c.input_text(), "");
}

#[test]
fn scrolling_saturates_at_the_top() {
    let mut c = seeded(1, "s");
    c.scroll_up();
    assert_eq!(c.scroll, 0);
    c.scroll_down();
    c.scroll_down();
    assert_eq!(c.scroll, 2);
    c.scroll_up();
    assert_eq!(c.scroll, 1);
}

#[test]
fn selection_cycles_through_display_order() {
    let mut st = State::empty();
    st.insert(seeded(1, "a"));
    st.insert(seeded(2, "b"));
    st.insert(seeded(3, "c"));
    st.current_chat_id = None;
    st.select_up();
    assert_eq!(st.current_chat_id, Some(sid(3)));
    st.select_up();
    assert_eq!(st.current_chat_id, Some(sid(1)));
    st.select_down();
    assert_eq!(st.current_chat_id, Some(sid(3)));
    st.select_down();
    assert_eq!(st.current_chat_id, Some(sid(2)));

    let titles = st.display_titles();
    assert_eq!(titles, vec!["chat-3".to_string(), "chat-2".to_string(), "chat-1".to_string()]);
    assert_eq!(st.active_index_in_display_order(), Some(1));
}

#[test]
fn selection_on_empty_registry_changes_nothing() {
    let mut st = State::empty();
    st.select_up();
    assert_eq!(st.current_chat_id, None);
    st.select_down();
    assert_eq!(st.current_chat_id, None);
    assert!(st.active_index_in_display_order().is_none());
    assert!(st.display_titles().is_empty());
}

#[test]
fn lookups_follow_the_identifier() {
    let st = {
        let mut st = State::empty();
        st.insert(seeded(1, "a"));
        st.insert(seeded(2, "b"));
        st.current_chat_id = Some(sid(2));
        st
    };
    let app = App::new(st);
    assert!(matches!(app.ui_mode, UiMode::ChatSelection));
    assert_eq!(app.chat(sid(1)).unwrap().id, sid(1));
    assert!(app.chat(sid(9)).is_none());
    assert_eq!(app.current_chat().unwrap().id, sid(2));
    assert_eq!(app.current_chat_idx(), Some(1));
}

#[test]
fn mutable_lookup_edits_in_place() {
    let mut app = App::new(one_chat_state(1, "s"));
    match app.chat_mut(sid(1)) {
        Some(c) => c.scroll = 9,
        None => panic!("the session exists"),
    }
    assert_eq!(app.state.chats[0].scroll, 9);
    assert!(app.chat_mut(sid(9)).is_none());
    match app.current_chat_mut() {
        Some(c) => c.title = "renamed".to_string(),
        None => panic!("a session is active"),
    }
    assert_eq!(app.state.chats[0].title, "renamed");
}

#[test]
fn store_scroll_reaches_the_active_session() {
    let mut app = App::new(one_chat_state(1, "s"));
    app.store_scroll(12);
    assert_eq!(app.state.chats[0].scroll, 12);
    app.state.current_chat_id = None;
    app.store_scroll(99);
    assert_eq!(app.state.chats[0].scroll, 12);
}

#[test]
fn step_quits_when_the_source_is_exhausted() {
    let mut app = App::new(one_chat_state(1, "s"));
    let acts = app.step(None);
    assert_eq!(acts.len(), 1);
    assert!(matches!(acts[0], Action::Quit));
    assert!(app.quit.is_fired());
    // Firing again observes the same state: the signal is one-shot.
    let acts2 = app.step(None);
    assert_eq!(acts2.len(), 1);
    assert!(app.quit.is_fired());
}

#[test]
fn step_quit_keys_fire_the_signal() {
    let mut app = App::new(one_chat_state(1, "s"));
    let acts = app.step(Some(AppMessage::KeyEvent(Key::Char('q'))));
    assert!(matches!(acts[0], Action::Quit));
    assert!(app.quit.is_fired());

    let mut app2 = App::new(one_chat_state(1, "s"));
    let acts2 = app2.step(Some(AppMessage::KeyEvent(Key::Esc)));
    assert!(matches!(acts2[0], Action::Quit));
    assert!(app2.quit.is_fired());
}

#[test]
fn step_enter_submits_a_typed_draft() {
    let mut app = App::new(one_chat_state(1, "s"));
    app.step(Some(AppMessage::KeyEvent(Key::Enter)));
    assert!(matches!(app.ui_mode, UiMode::Chat));

    // A blank draft is not submitted.
    let acts = app.step(Some(AppMessage::KeyEvent(Key::Enter)));
    assert!(acts.is_empty());
    assert_eq!(app.state.chats[0].history.len(), 1);

    for k in ['h', 'e', 'y'] {
        app.step(Some(AppMessage::KeyEvent(Key::Char(k))));
    }
    let acts = app.step(Some(AppMessage::KeyEvent(Key::Enter)));
    assert_eq!(acts.len(), 2);
    assert!(matches!(acts[0], Action::Send(_)));
    assert!(matches!(acts[1], Action::SaveState));
    assert_eq!(app.state.chats[0].history.len(), 2);
    assert_eq!(app.state.chats[0].history[1].content, "hey");
    assert!(app.state.chats[0].input.is_empty());
}

#[test]
fn step_new_chat_key_creates_and_selects() {
    let mut app = App::new(State::empty());
    let acts = app.step(Some(AppMessage::KeyEvent(Key::Char('n'))));
    assert!(acts.is_empty());
    assert_eq!(app.state.chats.len(), 1);
    assert!(app.state.current_chat_id.is_some());
}

#[test]
fn step_chunk_asks_for_checkpoint_then_title() {
    let mut app = App::new(one_chat_state(1, "s"));
    app.ui_mode = UiMode::Chat;
    let d = app.state.submit_user_message(sid(1), "hi".to_string());
    app.step(Some(AppMessage::ChunkReceived {
        pending: d.pending,
        chunk: Chunk::BeginResponse { role: Role::Assistant },
    }));
    app.step(Some(AppMessage::ChunkReceived {
        pending: d.pending,
        chunk: Chunk::Content { delta: "yo".to_string() },
    }));
    let acts = app.step(Some(AppMessage::ChunkReceived { pending: d.pending, chunk: Chunk::Done }));
    assert_eq!(acts.len(), 2);
    assert!(matches!(acts[0], Action::SaveState));
    match &acts[1] {
        Action::Send(f) => assert!(matches!(f.pending.kind, RequestKind::TitleReply)),
        _ => panic!("expected the title request after the checkpoint"),
    }
    assert_eq!(app.state.chats[0].history[2].content, "yo");
}

#[test]
fn step_esc_saves_only_used_sessions() {
    let mut app = App::new(one_chat_state(1, "s"));
    app.ui_mode = UiMode::Chat;
    let acts = app.step(Some(AppMessage::KeyEvent(Key::Esc)));
    assert!(acts.is_empty());
    assert!(matches!(app.ui_mode, UiMode::ChatSelection));

    app.ui_mode = UiMode::Chat;
    app.state.submit_user_message(sid(1), "hi".to_string());
    let acts = app.step(Some(AppMessage::KeyEvent(Key::Esc)));
    assert_eq!(acts.len(), 1);
    assert!(matches!(acts[0], Action::SaveState));
}

#[test]
fn resize_events_change_nothing() {
    let mut app = App::new(one_chat_state(1, "s"));
    let acts = app.step(Some(AppMessage::ResizeEvent));
    assert!(acts.is_empty());
    assert_eq!(app.state.chats.len(), 1);
    assert!(!app.quit.is_fired());
}
