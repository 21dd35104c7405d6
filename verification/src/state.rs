//! What a shell session carries from one command line to the next.

use vstd::prelude::*;
use crate::pipe::Pipe;
use crate::process_handler::ProcessHandler;

verus! {

/// The state of a session: the children it tracks, the handoff cell of the
/// pipeline that is being run, and the working directory.
#[derive(Debug)]
pub struct State {
    pub handler: ProcessHandler,
    pub pipe: Pipe,
    pub current_dir: String,
}

impl State {
    /// A fresh session: no child, a closed cell, no working directory yet.
    pub fn new() -> (r: State)
        ensures
            r.handler@.len() == 0,
            r.pipe@ == crate::pipe::Handoff::Closed,
            r.current_dir@.len() == 0,
    {
        State { handler: ProcessHandler::new(), pipe: Pipe::new(), current_dir: String::new() }
    }

    pub fn handler(&self) -> (r: &ProcessHandler)
        ensures
            r == &self.handler,
    {
        &self.handler
    }

    pub fn handler_mut(&mut self) -> (r: &mut ProcessHandler)
        ensures
            *r == old(self).handler,
            *final(self) == (State { handler: *final(r), ..*old(self) }),
    {
        &mut self.handler
    }

    pub fn pipe(&self) -> (r: &Pipe)
        ensures
            r == &self.pipe,
    {
        &self.pipe
    }

    pub fn pipe_mut(&mut self) -> (r: &mut Pipe)
        ensures
            *r == old(self).pipe,
            *final(self) == (State { pipe: *final(r), ..*old(self) }),
    {
        &mut self.pipe
    }

    pub fn current_dir(&self) -> (r: &str)
        ensures
            r@ == self.current_dir@,
    {
        self.current_dir.as_str()
    }

    pub fn current_dir_mut(&mut self) -> (r: &mut String)
        ensures
            *r == old(self).current_dir,
            *final(self) == (State { current_dir: *final(r), ..*old(self) }),
    {
        &mut self.current_dir
    }
}

} // verus!
