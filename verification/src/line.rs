//! The line that is being edited: its bytes, and the position of the
//! cursor in it.

use vstd::prelude::*;
use vstd::utf8::{decode_utf8, valid_utf8};

verus! {

/// The cursor position and the bytes of the line.
#[derive(Debug, PartialEq)]
pub struct Line(pub usize, pub Vec<u8>);

/// The text that the bytes stand for, with every sequence that is not
/// valid UTF-8 replaced by the replacement character.
///
/// This names what `String::from_utf8_lossy` returns for these bytes.
pub uninterp spec fn lossy_text(bytes: Seq<u8>) -> Seq<char>;

/// Trusted: `String::from_utf8_lossy` of the standard library, which
/// decodes the bytes and depends on nothing else. Bytes that are valid
/// UTF-8 are decoded as they are.
#[verifier::external_body]
fn from_utf8_lossy(bytes: &Vec<u8>) -> (r: String)
    ensures
        r@ == lossy_text(bytes@),
        valid_utf8(bytes@) ==> r@ == decode_utf8(bytes@),
{
    String::from_utf8_lossy(bytes).into_owned()
}

impl Line {
    /// The invariant of a line: the cursor is within the line or at its
    /// end.
    pub open spec fn wf(&self) -> bool {
        self.0 <= self.1@.len()
    }

    /// An empty line.
    pub fn new() -> (r: Line)
        ensures
            r.wf(),
            r.0 == 0,
            r.1@ == Seq::<u8>::empty(),
    {
        Line(0, Vec::new())
    }

    /// Puts `c` in at the cursor and moves the cursor behind it.
    pub fn insert(&mut self, c: u8)
        requires
            old(self).wf(),
        ensures
            final(self).wf(),
            final(self).1@ == old(self).1@.insert(old(self).0 as int, c),
            final(self).0 == old(self).0 + 1,
    {
        self.1.insert(self.0, c);
        let n = self.1.len();
        assert(self.0 < n);
        self.0 = self.0 + 1;
    }

    /// Removes the byte before the cursor and moves the cursor back.
    pub fn backspace(&mut self)
        requires
            old(self).wf(),
            old(self).0 > 0,
        ensures
            final(self).wf(),
            final(self).1@ == old(self).1@.remove(old(self).0 - 1),
            final(self).0 == old(self).0 - 1,
    {
        self.1.remove(self.0 - 1);
        self.0 = self.0 - 1;
    }

    /// Moves the cursor one to the left.
    pub fn left(&mut self)
        requires
            old(self).wf(),
            old(self).0 > 0,
        ensures
            final(self).wf(),
            final(self).1@ == old(self).1@,
            final(self).0 == old(self).0 - 1,
    {
        self.0 = self.0 - 1;
    }

    /// Moves the cursor one to the right.
    pub fn right(&mut self)
        requires
            old(self).wf(),
            old(self).0 < old(self).1@.len(),
        ensures
            final(self).wf(),
            final(self).1@ == old(self).1@,
            final(self).0 == old(self).0 + 1,
    {
        let n = self.1.len();
        assert(self.0 < n);
        self.0 = self.0 + 1;
    }

    /// Empties the line.
    pub fn clear(&mut self)
        ensures
            final(self).wf(),
            final(self).0 == 0,
            final(self).1@ == Seq::<u8>::empty(),
    {
        self.0 = 0;
        self.1.clear();
    }

    pub fn len(&self) -> (r: usize)
        ensures
            r == self.1@.len(),
    {
        self.1.len()
    }

    pub fn position(&self) -> (r: usize)
        ensures
            r == self.0,
    {
        self.0
    }

    /// The text of the line.
    pub fn to_string(&self) -> (r: String)
        ensures
            r@ == lossy_text(self.1@),
            valid_utf8(self.1@) ==> r@ == decode_utf8(self.1@),
    {
        from_utf8_lossy(&self.1)
    }
}

/// A byte that is put in and then taken out by `backspace` leaves the line
/// and the cursor as they were.
pub proof fn lemma_insert_backspace(bytes: Seq<u8>, position: int, c: u8)
    requires
        0 <= position <= bytes.len(),
    ensures
        bytes.insert(position, c).remove(position) == bytes,
{
    assert(bytes.insert(position, c).remove(position) =~= bytes);
}

} // verus!
