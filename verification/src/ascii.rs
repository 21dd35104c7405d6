//! The escape codes that move the cursor of a terminal.

use vstd::prelude::*;
use crate::text::{decimal, push_char, usize_to_string};

verus! {

/// A movement of the cursor.
#[derive(Debug, Clone, Copy, PartialEq, Eq)]
pub enum Cursor {
    /// To the given column of the line.
    Move(usize),
    /// One back, blanking the character there.
    Backspace,
    /// One to the left.
    Left,
    /// One to the right.
    Right,
    /// Erase the whole line.
    ClearLine,
}

/// The escape character.
pub open spec fn esc() -> char {
    '\x1b'
}

impl Cursor {
    /// The escape code of a movement.
    pub open spec fn code(self) -> Seq<char> {
        match self {
            Cursor::Move(position) => seq![esc(), '['] + decimal(position as nat) + seq!['G'],
            Cursor::Backspace => seq!['\x08', ' '],
            Cursor::Left => seq![esc(), '[', '1', 'D'],
            Cursor::Right => seq![esc(), '[', '1', 'C'],
            Cursor::ClearLine => seq![esc(), '[', '2', 'K'],
        }
    }

    pub fn get_esc_code(&self) -> (r: String)
        ensures
            r@ == self.code(),
    {
        let mut s = String::new();
        match self {
            Cursor::Move(position) => {
                push_char(&mut s, '\x1b');
                push_char(&mut s, '[');
                let digits = usize_to_string(*position);
                s.append(digits.as_str());
                push_char(&mut s, 'G');
            },
            Cursor::Backspace => {
                push_char(&mut s, '\x08');
                push_char(&mut s, ' ');
            },
            Cursor::Left => {
                push_char(&mut s, '\x1b');
                push_char(&mut s, '[');
                push_char(&mut s, '1');
                push_char(&mut s, 'D');
            },
            Cursor::Right => {
                push_char(&mut s, '\x1b');
                push_char(&mut s, '[');
                push_char(&mut s, '1');
                push_char(&mut s, 'C');
            },
            Cursor::ClearLine => {
                push_char(&mut s, '\x1b');
                push_char(&mut s, '[');
                push_char(&mut s, '2');
                push_char(&mut s, 'K');
            },
        }
        assert(s@ =~= self.code());
        s
    }
}

} // verus!
