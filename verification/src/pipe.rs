//! The single-slot cell that hands one file descriptor from the standard
//! output of a pipeline stage to the standard input of the next.
//!
//! The cell is closed, open and empty (`Sendable`), or holds exactly one
//! descriptor (`Recvable`). A pipeline alternates `send` and `recv`; any
//! other order is a protocol violation and is answered with `BrokenPipe`.
//! The cell never touches the operating system: where a descriptor has to
//! be closed, it is handed to the caller.

use vstd::prelude::*;
use crate::error::{Error, ErrorKind, error_of};

verus! {

/// The three states of the cell, without the descriptor.
#[derive(Debug, Clone, Copy, PartialEq, Eq, Structural)]
pub enum PipeState {
    Closed,
    Sendable,
    Recvable,
}

impl PipeState {
    /// The numeric tag of a state: 0 for closed, 1 for sendable, 2 for
    /// recvable.
    pub open spec fn tag(self) -> int {
        match self {
            PipeState::Closed => 0,
            PipeState::Sendable => 1,
            PipeState::Recvable => 2,
        }
    }

    /// The state with the given tag, if there is one.
    pub open spec fn of_tag(tag: int) -> Option<PipeState> {
        if tag == 0 {
            Some(PipeState::Closed)
        } else if tag == 1 {
            Some(PipeState::Sendable)
        } else if tag == 2 {
            Some(PipeState::Recvable)
        } else {
            None
        }
    }

    pub fn as_u32(self) -> (r: u32)
        ensures
            r == self.tag(),
    {
        match self {
            PipeState::Closed => 0,
            PipeState::Sendable => 1,
            PipeState::Recvable => 2,
        }
    }

    pub fn as_usize(self) -> (r: usize)
        ensures
            r == self.tag(),
    {
        match self {
            PipeState::Closed => 0,
            PipeState::Sendable => 1,
            PipeState::Recvable => 2,
        }
    }

    pub fn from_u32(value: u32) -> (r: Result<PipeState, Error>)
        ensures
            match PipeState::of_tag(value as int) {
                Some(s) => r == Ok::<PipeState, Error>(s),
                None => r is Err && r->Err_0@ == error_of(
                    ErrorKind::InvalidInput,
                    "Invalid PipeState"@,
                ),
            },
    {
        match value {
            0 => Ok(PipeState::Closed),
            1 => Ok(PipeState::Sendable),
            2 => Ok(PipeState::Recvable),
            _ => Err(Error::new(ErrorKind::InvalidInput, "Invalid PipeState")),
        }
    }

    pub fn from_usize(value: usize) -> (r: Result<PipeState, Error>)
        ensures
            match PipeState::of_tag(value as int) {
                Some(s) => r == Ok::<PipeState, Error>(s),
                None => r is Err && r->Err_0@ == error_of(
                    ErrorKind::InvalidInput,
                    "Invalid PipeState"@,
                ),
            },
    {
        match value {
            0 => Ok(PipeState::Closed),
            1 => Ok(PipeState::Sendable),
            2 => Ok(PipeState::Recvable),
            _ => Err(Error::new(ErrorKind::InvalidInput, "Invalid PipeState")),
        }
    }
}

/// Converting a state to its tag and back gives the state again.
pub proof fn lemma_tag_round_trip(s: PipeState)
    ensures
        PipeState::of_tag(s.tag()) == Some(s),
        0 <= s.tag() <= 2,
{
}

/// The cell as contracts see it: its state, with the pending descriptor
/// where it holds one.
#[derive(Debug, Clone, Copy, PartialEq, Eq, Structural)]
pub enum Handoff {
    Closed,
    Sendable,
    Recvable(i32),
}

impl Handoff {
    /// The cell after `send(fd)`: only a sendable cell takes the descriptor.
    pub open spec fn sent(self, fd: i32) -> Option<Handoff> {
        match self {
            Handoff::Sendable => Some(Handoff::Recvable(fd)),
            _ => None,
        }
    }

    /// The descriptor that `recv` returns, and the cell after it: only a
    /// recvable cell gives one.
    pub open spec fn received(self) -> Option<(i32, Handoff)> {
        match self {
            Handoff::Recvable(fd) => Some((fd, Handoff::Sendable)),
            _ => None,
        }
    }

    /// The state of the cell, without the descriptor.
    pub open spec fn state(self) -> PipeState {
        match self {
            Handoff::Closed => PipeState::Closed,
            Handoff::Sendable => PipeState::Sendable,
            Handoff::Recvable(_) => PipeState::Recvable,
        }
    }

    /// The pending descriptor, if the cell holds one.
    pub open spec fn pending(self) -> Option<i32> {
        match self {
            Handoff::Recvable(fd) => Some(fd),
            _ => None,
        }
    }
}

/// The handoff cell.
#[derive(Debug, PartialEq)]
pub struct Pipe {
    cell: Handoff,
}

impl View for Pipe {
    type V = Handoff;

    closed spec fn view(&self) -> Handoff {
        self.cell
    }
}

/// The message of the error that `send` gives in the state `cell`.
pub open spec fn send_refusal(cell: Handoff) -> Seq<char> {
    if cell is Closed {
        "Pipe is closed"@
    } else {
        "Pipe is broken"@
    }
}

impl Pipe {
    /// A closed cell.
    pub fn new() -> (r: Pipe)
        ensures
            r@ == Handoff::Closed,
    {
        Pipe { cell: Handoff::Closed }
    }

    /// A cell opened for one pipeline: sendable, nothing pending.
    pub fn open() -> (r: Pipe)
        ensures
            r@ == Handoff::Sendable,
    {
        Pipe { cell: Handoff::Sendable }
    }

    pub fn state(&self) -> (r: PipeState)
        ensures
            r == self@.state(),
    {
        match self.cell {
            Handoff::Closed => PipeState::Closed,
            Handoff::Sendable => PipeState::Sendable,
            Handoff::Recvable(_) => PipeState::Recvable,
        }
    }

    /// The pending descriptor, if there is one.
    pub fn fd(&self) -> (r: Option<i32>)
        ensures
            r == self@.pending(),
    {
        match self.cell {
            Handoff::Recvable(fd) => Some(fd),
            _ => None,
        }
    }

    pub fn is_sendable(&self) -> (r: bool)
        ensures
            r == (self@ == Handoff::Sendable),
    {
        match self.cell {
            Handoff::Sendable => true,
            _ => false,
        }
    }

    pub fn is_recvable(&self) -> (r: bool)
        ensures
            r == (self@ is Recvable),
    {
        match self.cell {
            Handoff::Recvable(_) => true,
            _ => false,
        }
    }

    /// Puts `fd` into a sendable cell, which becomes recvable. In any other
    /// state the cell stays as it is and the call fails with `BrokenPipe`.
    pub fn send(&mut self, fd: i32) -> (r: Result<(), Error>)
        ensures
            match old(self)@.sent(fd) {
                Some(next) => r is Ok && final(self)@ == next,
                None => r is Err && final(self)@ == old(self)@ && r->Err_0@ == error_of(
                    ErrorKind::BrokenPipe,
                    send_refusal(old(self)@),
                ),
            },
    {
        match self.cell {
            Handoff::Sendable => {
                self.cell = Handoff::Recvable(fd);
                Ok(())
            },
            Handoff::Closed => Err(Error::new(ErrorKind::BrokenPipe, "Pipe is closed")),
            Handoff::Recvable(_) => Err(Error::new(ErrorKind::BrokenPipe, "Pipe is broken")),
        }
    }

    /// Takes the pending descriptor out of a recvable cell, which becomes
    /// sendable. In any other state the cell stays as it is and the call
    /// fails with `BrokenPipe`.
    pub fn recv(&mut self) -> (r: Result<i32, Error>)
        ensures
            match old(self)@.received() {
                Some((fd, next)) => r == Ok::<i32, Error>(fd) && final(self)@ == next,
                None => r is Err && final(self)@ == old(self)@ && r->Err_0@ == error_of(
                    ErrorKind::BrokenPipe,
                    "Pipe is broken"@,
                ),
            },
    {
        match self.cell {
            Handoff::Recvable(fd) => {
                self.cell = Handoff::Sendable;
                Ok(fd)
            },
            _ => Err(Error::new(ErrorKind::BrokenPipe, "Pipe is broken")),
        }
    }

    /// Closes the cell, from any state. A pending descriptor is handed to
    /// the caller, who closes it; one that is negative cannot be closed,
    /// and is reported as `BrokenPipe`.
    pub fn close(&mut self) -> (r: Result<Option<i32>, Error>)
        ensures
            final(self)@ == Handoff::Closed,
            match old(self)@.pending() {
                Some(fd) => if fd >= 0 {
                    r == Ok::<Option<i32>, Error>(Some(fd))
                } else {
                    r is Err && r->Err_0@ == error_of(ErrorKind::BrokenPipe, "Pipe is broken"@)
                },
                None => r == Ok::<Option<i32>, Error>(None),
            },
    {
        let pending = self.fd();
        self.cell = Handoff::Closed;
        match pending {
            Some(fd) => {
                if fd >= 0 {
                    Ok(Some(fd))
                } else {
                    Err(Error::new(ErrorKind::BrokenPipe, "Pipe is broken"))
                }
            },
            None => Ok(None),
        }
    }

    /// Closes the cell and hands out the pending descriptor whatever its
    /// value.
    pub fn quit(&mut self) -> (r: Option<i32>)
        ensures
            final(self)@ == Handoff::Closed,
            r == old(self)@.pending(),
    {
        let pending = self.fd();
        self.cell = Handoff::Closed;
        pending
    }

    /// Gives the cell up and hands out the pending descriptor whatever its
    /// value.
    pub fn cancel(self) -> (r: Option<i32>)
        ensures
            r == self@.pending(),
    {
        self.fd()
    }
}

/// A descriptor can be sent exactly when the cell is sendable, and received
/// exactly when the cell is recvable: `send` on a cell that holds a
/// descriptor is refused, and so is `recv` on a closed or a sendable cell.
pub proof fn lemma_protocol(cell: Handoff, fd: i32)
    ensures
        cell.sent(fd) is Some <==> cell == Handoff::Sendable,
        cell.received() is Some <==> cell is Recvable,
        cell is Recvable ==> cell.sent(fd) is None,
        cell == Handoff::Sendable || cell == Handoff::Closed ==> cell.received() is None,
{
}

/// What is sent is what is received: after `send(fd)` on a sendable cell,
/// `recv` returns `fd` and leaves the cell sendable again.
pub proof fn lemma_round_trip(fd: i32)
    ensures
        Handoff::Sendable.sent(fd) == Some(Handoff::Recvable(fd)),
        Handoff::Recvable(fd).received() == Some((fd, Handoff::Sendable)),
{
}

} // verus!
