//! The line editor of the terminal, without the terminal.
//!
//! The editor is fed the bytes that the keyboard sends, one at a time. For
//! each byte it changes the line that is being edited and says what is to
//! be written to the screen, and whether the line has been entered. Raw
//! mode, reading and writing are left to the caller.

use vstd::prelude::*;
use vstd::utf8::encode_utf8;
use crate::ascii::Cursor;
use crate::history::{History, HistoryView};
use crate::line::{Line, lossy_text};
use crate::text::push_char;

verus! {

/// A key, as the editor understands it.
#[derive(Debug, Clone, Copy, PartialEq, Eq)]
pub enum Key {
    /// Control-C.
    Interrupt,
    Enter,
    Up,
    Down,
    Right,
    Left,
    Backspace,
    /// Any other byte, which goes into the line.
    Byte(u8),
}

/// How far an escape sequence has been read.
#[derive(Debug, Clone, Copy, PartialEq, Eq)]
pub enum Sequence {
    /// No sequence has been started.
    Ground,
    /// The escape byte has been read.
    Escape,
    /// The escape byte and `[` have been read.
    Bracket,
}

/// What a byte does to the reading of keys: the state after it, and the
/// key that it completes. An arrow key is the escape byte, `[`, and one of
/// `A`, `B`, `C`, `D`; a sequence that goes on otherwise is dropped.
pub open spec fn key_of(sequence: Sequence, byte: u8) -> (Sequence, Option<Key>) {
    match sequence {
        Sequence::Ground => if byte == 27 {
            (Sequence::Escape, None)
        } else if byte == 3 {
            (Sequence::Ground, Some(Key::Interrupt))
        } else if byte == 10 {
            (Sequence::Ground, Some(Key::Enter))
        } else if byte == 127 {
            (Sequence::Ground, Some(Key::Backspace))
        } else {
            (Sequence::Ground, Some(Key::Byte(byte)))
        },
        Sequence::Escape => if byte == 91 {
            (Sequence::Bracket, None)
        } else {
            (Sequence::Ground, None)
        },
        Sequence::Bracket => if byte == 65 {
            (Sequence::Ground, Some(Key::Up))
        } else if byte == 66 {
            (Sequence::Ground, Some(Key::Down))
        } else if byte == 67 {
            (Sequence::Ground, Some(Key::Right))
        } else if byte == 68 {
            (Sequence::Ground, Some(Key::Left))
        } else {
            (Sequence::Ground, None)
        },
    }
}

/// What has become of the line.
#[derive(Debug, PartialEq)]
pub enum Outcome {
    /// It is still being edited.
    Continue,
    /// It has been entered, with this text.
    Submit(String),
    /// The user has asked to leave the shell.
    Exit,
}

pub enum OutcomeView {
    Continue,
    Submit(Seq<char>),
    Exit,
}

impl View for Outcome {
    type V = OutcomeView;

    open spec fn view(&self) -> OutcomeView {
        match self {
            Outcome::Continue => OutcomeView::Continue,
            Outcome::Submit(s) => OutcomeView::Submit(s@),
            Outcome::Exit => OutcomeView::Exit,
        }
    }
}

/// What the editor answers to a byte: the text to write to the screen, and
/// what has become of the line.
#[derive(Debug, PartialEq)]
pub struct Reaction {
    pub output: String,
    pub outcome: Outcome,
}

pub struct ReactionView {
    pub output: Seq<char>,
    pub outcome: OutcomeView,
}

impl View for Reaction {
    type V = ReactionView;

    open spec fn view(&self) -> ReactionView {
        ReactionView { output: self.output@, outcome: self.outcome@ }
    }
}

/// The editor as contracts see it.
pub struct TerminalView {
    pub prompt: Seq<char>,
    pub history: Option<HistoryView>,
    pub cursor: nat,
    pub bytes: Seq<u8>,
    pub sequence: Sequence,
}

/// The code of `Backspace`, `n` times.
pub open spec fn backspaces(n: nat) -> Seq<char>
    decreases n,
{
    if n == 0 {
        Seq::empty()
    } else {
        backspaces((n - 1) as nat) + Cursor::Backspace.code()
    }
}

/// The line drawn anew: back to the first column, the prompt, and the
/// text of the line.
pub open spec fn redrawn(prompt: Seq<char>, bytes: Seq<u8>) -> Seq<char> {
    seq!['\r'] + prompt + lossy_text(bytes)
}

/// One less than `n`, and 0 for 0.
pub open spec fn less_one(n: nat) -> nat {
    if n > 0 {
        (n - 1) as nat
    } else {
        0
    }
}

/// `n`, but not more than the largest column that can be named.
pub open spec fn column(n: int) -> usize {
    if n > usize::MAX {
        usize::MAX
    } else if n < 0 {
        0
    } else {
        n as usize
    }
}

/// The code that puts the cursor into `column` where the cursor does not
/// stand at the end of the line; nothing where it does.
pub open spec fn placed(t: TerminalView, at: int) -> Seq<char> {
    if t.cursor < t.bytes.len() {
        Cursor::Move(column(at)).code()
    } else {
        Seq::empty()
    }
}

/// The editor with the line replaced by an entry of the history, and the
/// cursor at its end.
pub open spec fn recalled(t: TerminalView, history: HistoryView, entry: Option<Seq<char>>) -> (
    TerminalView,
    Seq<char>,
) {
    match entry {
        Some(e) => {
            let bytes = encode_utf8(e);
            (
                TerminalView { history: Some(history), cursor: bytes.len(), bytes, ..t },
                Cursor::ClearLine.code() + redrawn(t.prompt, bytes),
            )
        },
        None => (TerminalView { history: Some(history), ..t }, Seq::empty()),
    }
}

/// What a key does: the editor after it, and the reaction.
///
/// A byte goes into the line at the cursor. `Backspace` takes out the byte
/// before the cursor. `Left` and `Right` move the cursor within the line.
/// `Up` and `Down` replace the line by the entry of the history before or
/// after the place. `Enter` hands the line out and adds it to the history.
/// `Interrupt` asks to leave. After each change the line is drawn anew.
pub open spec fn pressed(t: TerminalView, key: Key) -> (TerminalView, ReactionView) {
    match key {
        Key::Interrupt => (t, ReactionView { output: seq!['\n'], outcome: OutcomeView::Exit }),
        Key::Enter => (
            TerminalView {
                history: match t.history {
                    Some(h) => Some(h.with(lossy_text(t.bytes))),
                    None => None,
                },
                ..t
            },
            ReactionView {
                output: seq!['\n'],
                outcome: OutcomeView::Submit(lossy_text(t.bytes)),
            },
        ),
        Key::Up => match t.history {
            Some(h) => (
                recalled(t, h.back(), h.before()).0,
                ReactionView {
                    output: recalled(t, h.back(), h.before()).1,
                    outcome: OutcomeView::Continue,
                },
            ),
            None => (t, ReactionView { output: Seq::empty(), outcome: OutcomeView::Continue }),
        },
        Key::Down => match t.history {
            Some(h) => (
                recalled(t, h.forth(), h.after()).0,
                ReactionView {
                    output: recalled(t, h.forth(), h.after()).1,
                    outcome: OutcomeView::Continue,
                },
            ),
            None => (t, ReactionView { output: Seq::empty(), outcome: OutcomeView::Continue }),
        },
        Key::Right => if t.cursor < t.bytes.len() {
            (
                TerminalView { cursor: t.cursor + 1, ..t },
                ReactionView { output: Cursor::Right.code(), outcome: OutcomeView::Continue },
            )
        } else {
            (t, ReactionView { output: Seq::empty(), outcome: OutcomeView::Continue })
        },
        Key::Left => if t.cursor > 0 {
            (
                TerminalView { cursor: (t.cursor - 1) as nat, ..t },
                ReactionView { output: Cursor::Left.code(), outcome: OutcomeView::Continue },
            )
        } else {
            (t, ReactionView { output: Seq::empty(), outcome: OutcomeView::Continue })
        },
        Key::Backspace => if t.cursor > 0 {
            let after = TerminalView {
                cursor: (t.cursor - 1) as nat,
                bytes: t.bytes.remove(t.cursor - 1),
                ..t
            };
            (
                after,
                ReactionView {
                    output: backspaces(less_one(t.bytes.len())) + redrawn(t.prompt, t.bytes)
                        + Cursor::Backspace.code() + redrawn(t.prompt, after.bytes) + placed(
                        after,
                        encode_utf8(t.prompt).len() + after.cursor - 1,
                    ),
                    outcome: OutcomeView::Continue,
                },
            )
        } else {
            (t, ReactionView { output: Seq::empty(), outcome: OutcomeView::Continue })
        },
        Key::Byte(c) => {
            let after = TerminalView {
                cursor: t.cursor + 1,
                bytes: t.bytes.insert(t.cursor as int, c),
                ..t
            };
            (
                after,
                ReactionView {
                    output: backspaces(less_one(after.bytes.len())) + redrawn(
                        t.prompt,
                        after.bytes,
                    ) + placed(after, (after.bytes.len() + after.cursor) as int),
                    outcome: OutcomeView::Continue,
                },
            )
        },
    }
}

/// What a byte does: it is read as a key, or as a part of one, and a key
/// that is complete is pressed.
pub open spec fn fed(t: TerminalView, byte: u8) -> (TerminalView, ReactionView) {
    let (sequence, key) = key_of(t.sequence, byte);
    match key {
        Some(k) => pressed(TerminalView { sequence, ..t }, k),
        None => (
            TerminalView { sequence, ..t },
            ReactionView { output: Seq::empty(), outcome: OutcomeView::Continue },
        ),
    }
}

#[derive(Debug)]
pub struct Terminal {
    prompt: String,
    history: Option<History>,
    line: Line,
    sequence: Sequence,
}

impl View for Terminal {
    type V = TerminalView;

    closed spec fn view(&self) -> TerminalView {
        TerminalView {
            prompt: self.prompt@,
            history: match self.history {
                Some(h) => Some(h@),
                None => None,
            },
            cursor: self.line.0 as nat,
            bytes: self.line.1@,
            sequence: self.sequence,
        }
    }
}

/// Appends the code of `Backspace` `n` times.
fn push_backspaces(output: &mut String, n: usize)
    ensures
        final(output)@ == old(output)@ + backspaces(n as nat),
{
    let mut i: usize = 0;
    assert(output@ =~= old(output)@ + backspaces(0));
    while i < n
        invariant
            i <= n,
            output@ == old(output)@ + backspaces(i as nat),
        decreases n - i,
    {
        let code = Cursor::Backspace.get_esc_code();
        output.append(code.as_str());
        assert(output@ =~= old(output)@ + backspaces((i + 1) as nat));
        i = i + 1;
    }
}

/// Appends the code of a movement.
fn push_code(output: &mut String, cursor: Cursor)
    ensures
        final(output)@ == old(output)@ + cursor.code(),
{
    let code = cursor.get_esc_code();
    output.append(code.as_str());
}

impl Terminal {
    /// The invariant of an editor: the cursor is within the line or at its
    /// end.
    pub closed spec fn wf(&self) -> bool {
        self.line.wf()
    }

    /// An editor with no prompt and no history.
    pub fn new() -> (r: Terminal)
        ensures
            r.wf(),
            r@ == (TerminalView {
                prompt: Seq::empty(),
                history: None,
                cursor: 0,
                bytes: Seq::empty(),
                sequence: Sequence::Ground,
            }),
    {
        Terminal {
            prompt: String::new(),
            history: None,
            line: Line::new(),
            sequence: Sequence::Ground,
        }
    }

    pub fn set_prompt(&mut self, prompt: &str)
        ensures
            final(self).wf() == old(self).wf(),
            final(self)@ == (TerminalView { prompt: prompt@, ..old(self)@ }),
    {
        self.prompt = String::from_str(prompt);
    }

    /// Gives the editor a history. Without one, `Up` and `Down` do
    /// nothing and nothing is remembered.
    pub fn set_history(&mut self, history: History)
        ensures
            final(self).wf() == old(self).wf(),
            final(self)@ == (TerminalView { history: Some(history@), ..old(self)@ }),
    {
        self.history = Some(history);
    }

    /// Whether an escape sequence has been started and is not complete.
    pub fn in_sequence(&self) -> (r: bool)
        ensures
            r == (self@.sequence != Sequence::Ground),
    {
        match self.sequence {
            Sequence::Ground => false,
            _ => true,
        }
    }

    /// Starts a new line, and returns what is written first: the prompt.
    pub fn begin(&mut self) -> (r: String)
        ensures
            final(self).wf(),
            final(self)@ == (TerminalView {
                cursor: 0,
                bytes: Seq::empty(),
                sequence: Sequence::Ground,
                ..old(self)@
            }),
            r@ == old(self)@.prompt,
    {
        self.line.clear();
        self.sequence = Sequence::Ground;
        self.prompt.clone()
    }

    /// Appends the line, drawn anew.
    fn push_redraw(&self, output: &mut String)
        ensures
            final(output)@ == old(output)@ + redrawn(self@.prompt, self@.bytes),
    {
        push_char(output, '\r');
        output.append(self.prompt.as_str());
        let text = self.line.to_string();
        output.append(text.as_str());
        assert(output@ =~= old(output)@ + redrawn(self@.prompt, self@.bytes));
    }

    /// Replaces the line by `entry`.
    fn load(&mut self, entry: &String)
        ensures
            final(self).wf(),
            final(self)@ == (TerminalView {
                cursor: encode_utf8(entry@).len(),
                bytes: encode_utf8(entry@),
                ..old(self)@
            }),
    {
        self.line.clear();
        let bytes = entry.as_str().as_bytes();
        let n = bytes.len();
        let mut i: usize = 0;
        while i < n
            invariant
                i <= n,
                n == bytes@.len(),
                bytes@ == encode_utf8(entry@),
                self.line.wf(),
                self.line.0 == i,
                self.line.1@ == bytes@.take(i as int),
                self.prompt == old(self).prompt,
                self.history == old(self).history,
                self.sequence == old(self).sequence,
            decreases n - i,
        {
            self.line.insert(bytes[i]);
            assert(self.line.1@ =~= bytes@.take(i + 1));
            i = i + 1;
        }
        assert(bytes@.take(n as int) =~= bytes@);
    }

    /// Presses a key.
    pub fn press(&mut self, key: Key) -> (r: Reaction)
        requires
            old(self).wf(),
        ensures
            final(self).wf(),
            (final(self)@, r@) == pressed(old(self)@, key),
    {
        let mut output = String::new();
        let ghost t = self@;
        match key {
            Key::Interrupt => {
                push_char(&mut output, '\n');
                assert(output@ =~= seq!['\n']);
                Reaction { output, outcome: Outcome::Exit }
            },
            Key::Enter => {
                let text = self.line.to_string();
                match &mut self.history {
                    Some(history) => {
                        history.push(text.as_str());
                    },
                    None => {},
                }
                push_char(&mut output, '\n');
                assert(output@ =~= seq!['\n']);
                Reaction { output, outcome: Outcome::Submit(text) }
            },
            Key::Up => {
                let entry = match &mut self.history {
                    Some(history) => match history.prev() {
                        Some(e) => Some(e.clone()),
                        None => None,
                    },
                    None => None,
                };
                match entry {
                    Some(e) => {
                        self.load(&e);
                        push_code(&mut output, Cursor::ClearLine);
                        self.push_redraw(&mut output);
                        assert(output@ =~= Cursor::ClearLine.code() + redrawn(
                            t.prompt,
                            encode_utf8(e@),
                        ));
                    },
                    None => {},
                }
                Reaction { output, outcome: Outcome::Continue }
            },
            Key::Down => {
                let entry = match &mut self.history {
                    Some(history) => match history.next() {
                        Some(e) => Some(e.clone()),
                        None => None,
                    },
                    None => None,
                };
                match entry {
                    Some(e) => {
                        self.load(&e);
                        push_code(&mut output, Cursor::ClearLine);
                        self.push_redraw(&mut output);
                        assert(output@ =~= Cursor::ClearLine.code() + redrawn(
                            t.prompt,
                            encode_utf8(e@),
                        ));
                    },
                    None => {},
                }
                Reaction { output, outcome: Outcome::Continue }
            },
            Key::Right => {
                if self.line.position() < self.line.len() {
                    self.line.right();
                    push_code(&mut output, Cursor::Right);
                    assert(output@ =~= Cursor::Right.code());
                }
                Reaction { output, outcome: Outcome::Continue }
            },
            Key::Left => {
                if self.line.position() > 0 {
                    push_code(&mut output, Cursor::Left);
                    assert(output@ =~= Cursor::Left.code());
                    self.line.left();
                }
                Reaction { output, outcome: Outcome::Continue }
            },
            Key::Backspace => {
                if self.line.position() > 0 {
                    let n = self.line.len();
                    push_backspaces(&mut output, n - 1);
                    self.push_redraw(&mut output);
                    self.line.backspace();
                    push_code(&mut output, Cursor::Backspace);
                    self.push_redraw(&mut output);
                    if self.line.position() < self.line.len() {
                        let width = self.prompt.as_str().as_bytes().len();
                        let at: usize = match width.checked_add(self.line.position()) {
                            Some(sum) => if sum > 0 {
                                sum - 1
                            } else {
                                0
                            },
                            None => usize::MAX,
                        };
                        push_code(&mut output, Cursor::Move(at));
                    }
                    assert(output@ =~= pressed(t, key).1.output);
                }
                Reaction { output, outcome: Outcome::Continue }
            },
            Key::Byte(c) => {
                self.line.insert(c);
                let n = self.line.len();
                push_backspaces(&mut output, n - 1);
                self.push_redraw(&mut output);
                if self.line.position() < n {
                    let at: usize = match n.checked_add(self.line.position()) {
                        Some(sum) => sum,
                        None => usize::MAX,
                    };
                    push_code(&mut output, Cursor::Move(at));
                }
                assert(output@ =~= pressed(t, key).1.output);
                Reaction { output, outcome: Outcome::Continue }
            },
        }
    }

    /// Takes one byte from the keyboard.
    pub fn feed(&mut self, byte: u8) -> (r: Reaction)
        requires
            old(self).wf(),
        ensures
            final(self).wf(),
            (final(self)@, r@) == fed(old(self)@, byte),
    {
        let key = match self.sequence {
            Sequence::Ground => {
                if byte == 27 {
                    self.sequence = Sequence::Escape;
                    None
                } else if byte == 3 {
                    Some(Key::Interrupt)
                } else if byte == 10 {
                    Some(Key::Enter)
                } else if byte == 127 {
                    Some(Key::Backspace)
                } else {
                    Some(Key::Byte(byte))
                }
            },
            Sequence::Escape => {
                if byte == 91 {
                    self.sequence = Sequence::Bracket;
                } else {
                    self.sequence = Sequence::Ground;
                }
                None
            },
            Sequence::Bracket => {
                self.sequence = Sequence::Ground;
                if byte == 65 {
                    Some(Key::Up)
                } else if byte == 66 {
                    Some(Key::Down)
                } else if byte == 67 {
                    Some(Key::Right)
                } else if byte == 68 {
                    Some(Key::Left)
                } else {
                    None
                }
            },
        };
        match key {
            Some(k) => self.press(k),
            None => Reaction { output: String::new(), outcome: Outcome::Continue },
        }
    }
}

} // verus!
