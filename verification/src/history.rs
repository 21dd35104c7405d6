//! The lines that were entered before, and the place in them of a user
//! who walks back and forth with the arrow keys.

use vstd::prelude::*;
use crate::text::string_views;
use crate::utils::{lines, lines_of};

verus! {

#[derive(Debug)]
pub struct History {
    pub entries: Vec<String>,
    pub current: usize,
}

/// Every entry followed by a line feed, in their order.
pub open spec fn joined(entries: Seq<Seq<char>>) -> Seq<char>
    decreases entries.len(),
{
    if entries.len() == 0 {
        Seq::empty()
    } else {
        joined(entries.drop_last()) + entries.last() + seq!['\n']
    }
}

/// A history as contracts see it.
pub struct HistoryView {
    pub entries: Seq<Seq<char>>,
    pub current: nat,
}

impl View for History {
    type V = HistoryView;

    open spec fn view(&self) -> HistoryView {
        HistoryView { entries: string_views(self.entries@), current: self.current as nat }
    }
}

impl HistoryView {
    /// The history after a step back: the place moves one entry back,
    /// unless it is at the first entry.
    pub open spec fn back(self) -> HistoryView {
        if self.current > 0 {
            HistoryView { current: (self.current - 1) as nat, ..self }
        } else {
            self
        }
    }

    /// The entry that a step back returns: the one at the new place, if
    /// the place has moved and there is an entry.
    pub open spec fn before(self) -> Option<Seq<char>> {
        if 0 < self.current <= self.entries.len() {
            Some(self.entries[self.current - 1])
        } else {
            None
        }
    }

    /// The history after a step on: the place moves one entry on, unless
    /// it is behind the last entry.
    pub open spec fn forth(self) -> HistoryView {
        if self.current < self.entries.len() {
            HistoryView { current: self.current + 1, ..self }
        } else {
            self
        }
    }

    /// The entry that a step on returns: the one at the new place, if the
    /// place has moved and there is an entry.
    pub open spec fn after(self) -> Option<Seq<char>> {
        if self.current + 1 < self.entries.len() {
            Some(self.entries[self.current as int + 1])
        } else {
            None
        }
    }

    /// The history with one more entry at its end, and the place behind
    /// it.
    pub open spec fn with(self, entry: Seq<char>) -> HistoryView {
        HistoryView { entries: self.entries.push(entry), current: self.entries.len() + 1 }
    }
}

/// Whether `r` is the entry that `expected` says, or none.
pub open spec fn gives(r: Option<&String>, expected: Option<Seq<char>>) -> bool {
    match expected {
        Some(e) => r is Some && r->0@ == e,
        None => r is None,
    }
}

impl History {
    /// An empty history.
    pub fn new() -> (r: History)
        ensures
            r.entries@.len() == 0,
            r.current == 0,
    {
        History { entries: Vec::new(), current: 0 }
    }

    /// The history that a text holds, one entry on each line, with the
    /// place before the first entry.
    pub fn from_text(text: &str) -> (r: History)
        ensures
            string_views(r.entries@) == lines_of(text@),
            r.current == 0,
    {
        History { entries: lines(text), current: 0 }
    }

    /// The text that holds the history, one entry on each line.
    pub fn to_text(&self) -> (r: String)
        ensures
            r@ == joined(string_views(self.entries@)),
    {
        let mut r = String::new();
        let ghost views = string_views(self.entries@);
        assert(views.take(0) =~= Seq::<Seq<char>>::empty());
        for i in 0..self.entries.len()
            invariant
                views == string_views(self.entries@),
                r@ == joined(views.take(i as int)),
        {
            proof {
                let t = views.take(i + 1);
                assert(t.drop_last() =~= views.take(i as int));
                assert(t.last() == self.entries@[i as int]@);
            }
            r.append(self.entries[i].as_str());
            r.append("\n");
            proof {
                reveal_strlit("\n");
                assert("\n"@ =~= seq!['\n']);
            }
        }
        assert(views.take(views.len() as int) =~= views);
        r
    }

    /// Adds an entry at the end, and moves the place behind it.
    pub fn push(&mut self, entry: &str)
        ensures
            final(self)@ == old(self)@.with(entry@),
    {
        self.entries.push(String::from_str(entry));
        self.current = self.entries.len();
        assert(string_views(self.entries@) =~= string_views(old(self).entries@).push(entry@));
        assert(self.entries@.len() == old(self).entries@.len() + 1);
    }

    /// Moves the place one entry back and returns the entry there; at the
    /// first entry nothing moves and nothing is returned.
    pub fn prev(&mut self) -> (r: Option<&String>)
        ensures
            final(self).entries == old(self).entries,
            final(self)@ == old(self)@.back(),
            gives(r, old(self)@.before()),
    {
        if self.current > 0 {
            self.current = self.current - 1;
            if self.current < self.entries.len() {
                Some(&self.entries[self.current])
            } else {
                None
            }
        } else {
            None
        }
    }

    /// Moves the place one entry on and returns the entry there; behind the
    /// last entry nothing moves, and stepping behind the last entry returns
    /// nothing.
    pub fn next(&mut self) -> (r: Option<&String>)
        ensures
            final(self).entries == old(self).entries,
            final(self)@ == old(self)@.forth(),
            gives(r, old(self)@.after()),
    {
        if self.current < self.entries.len() {
            self.current = self.current + 1;
            if self.current < self.entries.len() {
                Some(&self.entries[self.current])
            } else {
                None
            }
        } else {
            None
        }
    }
}

} // verus!
