//! One conversation: its history, title, draft input, and view offset.

use vstd::prelude::*;
use vstd::string::StringExecFns;
use crate::ids::{SessionId, uuid_display, fresh_session_id, session_id_text};
use crate::msg::{Message, MessageView, Role};

verus! {

/// One independent conversation.
pub struct Chat {
    /// Ordered messages, append-only but for in-place growth of the last
    /// assistant message while it streams.  Never empty after creation.
    pub history: Vec<Message>,
    /// Short mutable label; initially the identifier's text form, replaced
    /// wholesale once a title-generation exchange completes.
    pub title: String,
    /// Draft text of the next user message, held as characters so that the
    /// cursor is a plain character index.
    pub input: Vec<char>,
    /// Edit position within `input`.
    pub input_pos: usize,
    /// View offset, owned by the rendering collaborator and merely carried.
    pub scroll: usize,
    /// Immutable correlation key.
    pub id: SessionId,
}

/// Mathematical model of a [`Chat`].
pub struct ChatView {
    pub history: Seq<MessageView>,
    pub title: Seq<char>,
    pub input: Seq<char>,
    pub input_pos: nat,
    pub scroll: nat,
    pub id: SessionId,
}

impl View for Chat {
    type V = ChatView;

    open spec fn view(&self) -> ChatView {
        ChatView {
            history: self.history.deep_view(),
            title: self.title@,
            input: self.input@,
            input_pos: self.input_pos as nat,
            scroll: self.scroll as nat,
            id: self.id,
        }
    }
}

impl ChatView {
    /// A session is well formed when it keeps its seed message and its edit
    /// cursor stays inside the draft.
    pub open spec fn wf(self) -> bool {
        &&& self.history.len() >= 1
        &&& self.input_pos <= self.input.len()
    }
}

/// Fixed first part of the instruction that seeds every new session; the
/// current local time is appended to it.
pub open spec fn seed_prefix_text() -> Seq<char> {
    "You are ChatGPT, an AI model developed by OpenAI. Answer as concisely as possible. Today is: "@
}

/// Relies on `chrono::Local::now` and `chrono::DateTime::format`: renders the
/// current local time.  The result depends on the clock and the machine's
/// time zone, so nothing is promised of it.
#[verifier::external_body]
fn clock_text() -> String {
    chrono::Local::now().format("%d/%m/%Y %H:%M").to_string()
}

/// The full seed instruction: the fixed prefix followed by the current time.
pub fn seed_message_text() -> (r: String)
    ensures
        seed_prefix_text().is_prefix_of(r@),
{
    let mut s: String = "You are ChatGPT, an AI model developed by OpenAI. Answer as concisely as possible. Today is: ".to_owned();
    let now = clock_text();
    s.append(now.as_str());
    s
}

/// What inserting a draft character at the cursor does; a cursor already at
/// the numeric limit leaves the session as it is.
pub open spec fn push_char_spec(c: ChatView, ch: char) -> ChatView {
    if c.input_pos < usize::MAX {
        ChatView {
            input: c.input.insert(c.input_pos as int, ch),
            input_pos: (c.input_pos + 1) as nat,
            ..c
        }
    } else {
        c
    }
}

/// What removing the draft character before the cursor does.
pub open spec fn backspace_spec(c: ChatView) -> ChatView {
    if c.input_pos > 0 {
        ChatView {
            input: c.input.remove(c.input_pos - 1),
            input_pos: (c.input_pos - 1) as nat,
            ..c
        }
    } else {
        c
    }
}

/// What scrolling one line up does.
pub open spec fn scroll_up_spec(c: ChatView) -> ChatView {
    ChatView { scroll: if c.scroll > 0 { (c.scroll - 1) as nat } else { 0nat }, ..c }
}

/// What scrolling one line down does.
pub open spec fn scroll_down_spec(c: ChatView) -> ChatView {
    ChatView { scroll: if c.scroll < usize::MAX { (c.scroll + 1) as nat } else { c.scroll }, ..c }
}

impl Chat {
    /// A new session around `id`, holding exactly the given seed instruction
    /// as its system message.
    pub fn seeded(id: SessionId, title: String, seed_text: String) -> (c: Chat)
        ensures
            c@ == (ChatView {
                history: seq![MessageView { role: Role::System, content: seed_text@ }],
                title: title@,
                input: Seq::<char>::empty(),
                input_pos: 0,
                scroll: 0,
                id,
            }),
            c@.wf(),
    {
        let history = vec![Message::new(Role::System, seed_text)];
        proof {
            assert(history.deep_view() =~= seq![
                MessageView { role: Role::System, content: seed_text@ },
            ]);
        }
        Chat { history, title, input: Vec::new(), input_pos: 0, scroll: 0, id }
    }

    /// A brand-new session: a fresh random identifier, titled with the
    /// identifier's text form and seeded with the system instruction.
    pub fn fresh() -> (c: Chat)
        ensures
            c@.wf(),
            c@.history.len() == 1,
            c@.history[0].role == Role::System,
            seed_prefix_text().is_prefix_of(c@.history[0].content),
            c@.title == uuid_display(c@.id.raw),
            c@.input == Seq::<char>::empty(),
            c@.input_pos == 0,
            c@.scroll == 0,
    {
        let id = fresh_session_id();
        let title = session_id_text(id);
        let seed = seed_message_text();
        Chat::seeded(id, title, seed)
    }

    /// Insert a character of draft text at the cursor.
    pub fn push_input_char(&mut self, c: char)
        requires
            old(self)@.wf(),
        ensures
            final(self)@.wf(),
            final(self)@ == push_char_spec(old(self)@, c),
    {
        if self.input_pos < usize::MAX {
            self.input.insert(self.input_pos, c);
            self.input_pos = self.input_pos + 1;
        }
    }

    /// Remove the draft character before the cursor, if any.
    pub fn backspace(&mut self)
        requires
            old(self)@.wf(),
        ensures
            final(self)@.wf(),
            final(self)@ == backspace_spec(old(self)@),
    {
        if self.input_pos > 0 {
            self.input.remove(self.input_pos - 1);
            self.input_pos = self.input_pos - 1;
        }
    }

    /// Clear the draft and reset the cursor.
    pub fn clear_input(&mut self)
        ensures
            final(self)@ == (ChatView { input: Seq::<char>::empty(), input_pos: 0, ..old(self)@ }),
    {
        self.input.clear();
        self.input_pos = 0;
    }

    /// Scroll one line up, stopping at the top.
    pub fn scroll_up(&mut self)
        ensures
            final(self)@ == scroll_up_spec(old(self)@),
    {
        self.scroll = if self.scroll > 0 { self.scroll - 1 } else { 0 };
    }

    /// Scroll one line down, saturating.
    pub fn scroll_down(&mut self)
        ensures
            final(self)@ == scroll_down_spec(old(self)@),
    {
        self.scroll = if self.scroll < usize::MAX { self.scroll + 1 } else { self.scroll };
    }

    /// The draft as a fresh string.
    pub fn input_text(&self) -> (r: String)
        ensures
            r@ == self@.input,
    {
        let mut s = String::new();
        let mut i: usize = 0;
        while i < self.input.len()
            invariant
                0 <= i <= self.input@.len(),
                s@ == self.input@.take(i as int),
            decreases self.input@.len() - i,
        {
            string_push(&mut s, self.input[i]);
            proof {
                assert(s@ =~= self.input@.take(i + 1));
            }
            i = i + 1;
        }
        proof {
            assert(self.input@.take(self.input@.len() as int) =~= self.input@);
        }
        s
    }
}

/// A character is draft whitespace when trimming would remove it: the
/// Unicode White_Space set, as Rust's trimming sees it.
pub open spec fn is_space(c: char) -> bool {
    let n = c as u32;
    ||| n == 0x20
    ||| (0x09 <= n && n <= 0x0D)
    ||| n == 0x85
    ||| n == 0xA0
    ||| n == 0x1680
    ||| (0x2000 <= n && n <= 0x200A)
    ||| n == 0x2028
    ||| n == 0x2029
    ||| n == 0x202F
    ||| n == 0x205F
    ||| n == 0x3000
}

/// Text is blank when it trims to nothing.
pub open spec fn is_blank(s: Seq<char>) -> bool {
    forall|i: int| 0 <= i < s.len() ==> is_space(s[i])
}

/// Executable counterpart of [`is_space`].
pub fn whitespace_char(c: char) -> (r: bool)
    ensures
        r == is_space(c),
{
    let n: u32 = c as u32;
    n == 0x20 || (0x09 <= n && n <= 0x0D) || n == 0x85 || n == 0xA0 || n == 0x1680
        || (0x2000 <= n && n <= 0x200A) || n == 0x2028 || n == 0x2029 || n == 0x202F
        || n == 0x205F || n == 0x3000
}

/// Executable counterpart of [`is_blank`] on a draft.
pub fn input_is_blank(input: &Vec<char>) -> (r: bool)
    ensures
        r == is_blank(input@),
{
    let mut i: usize = 0;
    while i < input.len()
        invariant
            0 <= i <= input@.len(),
            forall|j: int| 0 <= j < i ==> is_space(input@[j]),
        decreases input@.len() - i,
    {
        if !whitespace_char(input[i]) {
            return false;
        }
        i = i + 1;
    }
    true
}

/// Relies on `alloc::string::String::push`: appends one character.
#[verifier::external_body]
fn string_push(s: &mut String, c: char)
    ensures
        final(s)@ == old(s)@.push(c),
{
    s.push(c);
}

} // verus!
