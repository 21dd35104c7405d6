//! The children that the shell has started and not yet reaped.
//!
//! The handler keeps, for each child, its process id and whether it runs in
//! the background. The handles themselves stay with the caller, who signals
//! and waits as the handler asks and reports what the operating system
//! answered: the handler decides how each child is waited for, which
//! statuses are handed out, and which children stay for a later call.

use vstd::prelude::*;
use crate::error::{Error, ErrorKind, error_of};

verus! {

/// One child: its process id, and whether it runs in the background.
#[derive(Debug, Clone, Copy, PartialEq, Eq)]
pub struct Process {
    pub pid: u32,
    pub is_background: bool,
}

/// How a child ended: with an exit code, or without one (by a signal).
#[derive(Debug, Clone, Copy, PartialEq, Eq)]
pub struct ExitStatus {
    pub code: Option<i32>,
}

impl ExitStatus {
    pub open spec fn is_success(self) -> bool {
        self.code == Some(0i32)
    }

    /// Whether the child ended with exit code 0.
    pub fn success(&self) -> (r: bool)
        ensures
            r == self.is_success(),
    {
        match self.code {
            Some(c) => c == 0,
            None => false,
        }
    }
}

/// How to wait for a child: until it ends, or not at all.
#[derive(Debug, Clone, Copy, PartialEq, Eq)]
pub enum WaitMode {
    /// Block until the child has ended.
    Block,
    /// Ask once whether the child has ended.
    Poll,
}

/// The request to wait for one child.
#[derive(Debug, Clone, Copy, PartialEq, Eq)]
pub struct WaitRequest {
    pub pid: u32,
    pub mode: WaitMode,
}

/// What the operating system answered to one request.
#[derive(Debug, Clone, Copy, PartialEq, Eq)]
pub enum WaitOutcome {
    /// The child has ended and has been reaped.
    Exited(ExitStatus),
    /// The child is still running.
    Running,
    /// The call failed.
    Failed,
}

/// How the child `p` is waited for: a background child is only polled.
pub open spec fn mode_of(p: Process) -> WaitMode {
    if p.is_background {
        WaitMode::Poll
    } else {
        WaitMode::Block
    }
}

/// The requests for the children `entries`, one each, in their order.
pub open spec fn requests_for(entries: Seq<Process>) -> Seq<WaitRequest> {
    entries.map_values(|p: Process| WaitRequest { pid: p.pid, mode: mode_of(p) })
}

/// The answer to the request at `i`; a request that got no answer counts as
/// a child that is still running.
pub open spec fn outcome_at(outcomes: Seq<WaitOutcome>, i: int) -> WaitOutcome {
    if 0 <= i < outcomes.len() {
        outcomes[i]
    } else {
        WaitOutcome::Running
    }
}

/// Whether the handle of `p` is released after the answer `o`: a child that
/// has ended is released; a foreground child is released also where the
/// wait failed; anything else stays for a later call.
pub open spec fn released(p: Process, o: WaitOutcome) -> bool {
    match o {
        WaitOutcome::Exited(_) => true,
        WaitOutcome::Failed => !p.is_background,
        WaitOutcome::Running => false,
    }
}

/// The statuses that `wait` hands out: one for each child that has ended,
/// in the order of the children.
pub open spec fn reaped(entries: Seq<Process>, outcomes: Seq<WaitOutcome>) -> Seq<
    (u32, ExitStatus),
>
    decreases entries.len(),
{
    if entries.len() == 0 {
        Seq::empty()
    } else {
        let rest = reaped(entries.drop_last(), outcomes);
        match outcome_at(outcomes, entries.len() - 1) {
            WaitOutcome::Exited(s) => rest.push((entries.last().pid, s)),
            _ => rest,
        }
    }
}

/// The children that stay after `wait`, in their order.
pub open spec fn kept(entries: Seq<Process>, outcomes: Seq<WaitOutcome>) -> Seq<Process>
    decreases entries.len(),
{
    if entries.len() == 0 {
        Seq::empty()
    } else {
        let rest = kept(entries.drop_last(), outcomes);
        if released(entries.last(), outcome_at(outcomes, entries.len() - 1)) {
            rest
        } else {
            rest.push(entries.last())
        }
    }
}

/// Whether a signal was accepted for each of `n` children.
pub open spec fn all_delivered(n: nat, delivered: Seq<bool>) -> bool {
    delivered.len() >= n && forall|j: int| 0 <= j < n ==> #[trigger] delivered[j]
}

/// The first child with the process id `pid`.
pub open spec fn first_with(entries: Seq<Process>, pid: u32) -> Option<Process>
    decreases entries.len(),
{
    if entries.len() == 0 {
        None
    } else if entries[0].pid == pid {
        Some(entries[0])
    } else {
        first_with(entries.drop_first(), pid)
    }
}

/// A child with the given process id is found exactly when one is recorded.
pub proof fn lemma_first_with(entries: Seq<Process>, pid: u32)
    ensures
        first_with(entries, pid) is Some <==> exists|i: int|
            0 <= i < entries.len() && entries[i].pid == pid,
        first_with(entries, pid) matches Some(p) ==> p.pid == pid && entries.contains(p),
    decreases entries.len(),
{
    if entries.len() > 0 {
        if entries[0].pid == pid {
        } else {
            let rest = entries.drop_first();
            lemma_first_with(rest, pid);
            if first_with(rest, pid) is Some {
                let i = choose|i: int| 0 <= i < rest.len() && rest[i].pid == pid;
                assert(entries[i + 1].pid == pid);
                let p = first_with(rest, pid)->0;
                let j = choose|j: int| 0 <= j < rest.len() && rest[j] == p;
                assert(entries[j + 1] == p);
            }
            if exists|i: int| 0 <= i < entries.len() && entries[i].pid == pid {
                let i = choose|i: int| 0 <= i < entries.len() && entries[i].pid == pid;
                assert(rest[i - 1].pid == pid);
            }
        }
    }
}

#[derive(Debug)]
pub struct ProcessHandler {
    entries: Vec<Process>,
}

impl View for ProcessHandler {
    type V = Seq<Process>;

    closed spec fn view(&self) -> Seq<Process> {
        self.entries@
    }
}

impl ProcessHandler {
    /// A handler that tracks no child.
    pub fn new() -> (r: ProcessHandler)
        ensures
            r@ == Seq::<Process>::empty(),
    {
        ProcessHandler { entries: Vec::new() }
    }

    /// A handler that tracks no child, with room for `capacity` children.
    pub fn new_with_capacity(capacity: usize) -> (r: ProcessHandler)
        ensures
            r@ == Seq::<Process>::empty(),
    {
        ProcessHandler { entries: Vec::with_capacity(capacity) }
    }

    /// Records a child that has just been started, and returns its process
    /// id.
    pub fn push(&mut self, pid: u32, is_background: bool) -> (r: u32)
        ensures
            r == pid,
            final(self)@ == old(self)@.push(Process { pid, is_background }),
    {
        self.entries.push(Process { pid, is_background });
        pid
    }

    /// Takes the child that was recorded last.
    pub fn pop(&mut self) -> (r: Option<Process>)
        ensures
            old(self)@.len() == 0 ==> r is None && final(self)@ == old(self)@,
            old(self)@.len() > 0 ==> r == Some(old(self)@.last()) && final(self)@ == old(
                self,
            )@.drop_last(),
    {
        self.entries.pop()
    }

    /// The first child with the process id `pid`.
    pub fn get(&self, pid: u32) -> (r: Option<Process>)
        ensures
            r == first_with(self@, pid),
    {
        let mut i: usize = 0;
        assert(self.entries@.skip(0) == self.entries@);
        while i < self.entries.len()
            invariant
                i <= self.entries@.len(),
                first_with(self.entries@, pid) == first_with(self.entries@.skip(i as int), pid),
            decreases self.entries@.len() - i,
        {
            let ghost rest = self.entries@.skip(i as int);
            assert(rest[0] == self.entries@[i as int]);
            if self.entries[i].pid == pid {
                return Some(self.entries[i]);
            }
            assert(rest.drop_first() == self.entries@.skip(i + 1));
            i = i + 1;
        }
        None
    }

    /// Whether a child with the process id `pid` is recorded.
    pub fn contains(&self, pid: u32) -> (r: bool)
        ensures
            r == (first_with(self@, pid) is Some),
    {
        self.get(pid).is_some()
    }

    /// The children, in the order in which they were recorded.
    pub fn entries(&self) -> (r: Vec<Process>)
        ensures
            r@ == self@,
    {
        let mut r: Vec<Process> = Vec::new();
        for i in 0..self.entries.len()
            invariant
                r@ == self.entries@.take(i as int),
        {
            r.push(self.entries[i]);
            assert(self.entries@.take(i + 1) == self.entries@.take(i as int).push(
                self.entries@[i as int],
            ));
        }
        assert(self.entries@.take(self.entries@.len() as int) == self.entries@);
        r
    }

    pub fn is_empty(&self) -> (r: bool)
        ensures
            r == (self@.len() == 0),
    {
        self.entries.len() == 0
    }

    pub fn len(&self) -> (r: usize)
        ensures
            r == self@.len(),
    {
        self.entries.len()
    }

    /// The result of asking for the child `pid` to be ended. The caller
    /// sends the signal to a child that is recorded and says in `delivered`
    /// whether the operating system accepted it; a signal that was not
    /// accepted is a `Failure`. A child that is not recorded gets no signal,
    /// and nothing fails.
    pub fn kill(&self, pid: u32, delivered: bool) -> (r: Result<(), Error>)
        ensures
            first_with(self@, pid) is Some && !delivered ==> r is Err && r->Err_0@ == error_of(
                ErrorKind::Failure,
                "Failed to kill the process."@,
            ),
            !(first_with(self@, pid) is Some && !delivered) ==> r is Ok,
    {
        if self.contains(pid) && !delivered {
            Err(Error::new(ErrorKind::Failure, "Failed to kill the process."))
        } else {
            Ok(())
        }
    }

    /// The result of asking for every child to be ended. The caller sends
    /// the signal to each child in turn and says in `delivered`, in the
    /// order of the children, whether the operating system accepted it. A
    /// signal that was not accepted, or not reported, is a `Failure`.
    pub fn kill_all(&self, delivered: &Vec<bool>) -> (r: Result<(), Error>)
        ensures
            all_delivered(self@.len(), delivered@) ==> r is Ok,
            !all_delivered(self@.len(), delivered@) ==> r is Err && r->Err_0@ == error_of(
                ErrorKind::Failure,
                "Failed to kill the process."@,
            ),
    {
        let n = self.entries.len();
        let mut i: usize = 0;
        while i < n
            invariant
                i <= n,
                n == self.entries@.len(),
                i <= delivered@.len(),
                forall|j: int| 0 <= j < i ==> #[trigger] delivered@[j],
            decreases n - i,
        {
            if i >= delivered.len() || !delivered[i] {
                proof {
                    if i < delivered@.len() {
                        assert(!delivered@[i as int]);
                    }
                    assert(!all_delivered(self@.len(), delivered@));
                }
                return Err(Error::new(ErrorKind::Failure, "Failed to kill the process."));
            }
            i = i + 1;
        }
        assert(all_delivered(self@.len(), delivered@));
        Ok(())
    }

    /// How each child is to be waited for: a foreground child until it
    /// ends, a background child by one poll that does not block.
    pub fn wait_requests(&self) -> (r: Vec<WaitRequest>)
        ensures
            r@ == requests_for(self@),
    {
        let mut r: Vec<WaitRequest> = Vec::new();
        for i in 0..self.entries.len()
            invariant
                r@.len() == i,
                forall|j: int| 0 <= j < i ==> r@[j] == requests_for(self.entries@)[j],
        {
            let p = self.entries[i];
            let mode = if p.is_background {
                WaitMode::Poll
            } else {
                WaitMode::Block
            };
            r.push(WaitRequest { pid: p.pid, mode });
        }
        assert(r@ =~= requests_for(self@));
        r
    }

    /// Takes the answers to the requests of `wait_requests`, in the same
    /// order, and returns the process id and the status of each child that
    /// has ended. Those children leave the handler, and so does a
    /// foreground child whose wait failed; a child that is still running
    /// stays for a later call.
    pub fn wait(&mut self, outcomes: &Vec<WaitOutcome>) -> (r: Vec<(u32, ExitStatus)>)
        ensures
            r@ == reaped(old(self)@, outcomes@),
            final(self)@ == kept(old(self)@, outcomes@),
    {
        let mut statuses: Vec<(u32, ExitStatus)> = Vec::new();
        let mut remaining: Vec<Process> = Vec::new();
        let n = self.entries.len();
        for i in 0..n
            invariant
                n == self.entries@.len(),
                self.entries@ == old(self)@,
                statuses@ == reaped(self.entries@.take(i as int), outcomes@),
                remaining@ == kept(self.entries@.take(i as int), outcomes@),
        {
            let p = self.entries[i];
            let o = if i < outcomes.len() {
                outcomes[i]
            } else {
                WaitOutcome::Running
            };
            proof {
                let t = self.entries@.take(i + 1);
                assert(t.drop_last() == self.entries@.take(i as int));
                assert(t.last() == p);
                assert(o == outcome_at(outcomes@, t.len() - 1));
            }
            match o {
                WaitOutcome::Exited(s) => {
                    statuses.push((p.pid, s));
                },
                WaitOutcome::Failed => {
                    if p.is_background {
                        remaining.push(p);
                    }
                },
                WaitOutcome::Running => {
                    remaining.push(p);
                },
            }
        }
        assert(self.entries@.take(n as int) == self.entries@);
        self.entries = remaining;
        statuses
    }
}

/// The children that are handed out and the children that are kept are
/// together no more than were recorded, and every child that is kept was
/// recorded before: `wait` invents no child.
pub proof fn lemma_wait_partitions(entries: Seq<Process>, outcomes: Seq<WaitOutcome>)
    ensures
        reaped(entries, outcomes).len() + kept(entries, outcomes).len() <= entries.len(),
        forall|i: int|
            0 <= i < kept(entries, outcomes).len() ==> entries.contains(
                #[trigger] kept(entries, outcomes)[i],
            ),
    decreases entries.len(),
{
    if entries.len() > 0 {
        let front = entries.drop_last();
        lemma_wait_partitions(front, outcomes);
        assert forall|i: int| 0 <= i < kept(entries, outcomes).len() implies entries.contains(
            #[trigger] kept(entries, outcomes)[i],
        ) by {
            let k = kept(entries, outcomes)[i];
            if i < kept(front, outcomes).len() {
                assert(kept(front, outcomes)[i] == k);
                let j = choose|j: int| 0 <= j < front.len() && front[j] == k;
                assert(entries[j] == k);
            } else {
                assert(entries[entries.len() - 1] == k);
            }
        }
    }
}

/// The request for a child that runs in the background never blocks: it
/// is a poll, for the process id of that child.
pub proof fn lemma_background_is_polled(entries: Seq<Process>, i: int)
    requires
        0 <= i < entries.len(),
        entries[i].is_background,
    ensures
        requests_for(entries)[i].mode == WaitMode::Poll,
        requests_for(entries)[i].pid == entries[i].pid,
{
}


/// A child whose answer is that it still runs is neither handed out nor
/// released: the call that polled it changes nothing about it.
pub proof fn lemma_running_child_stays(p: Process, outcomes: Seq<WaitOutcome>)
    requires
        outcome_at(outcomes, 0) == WaitOutcome::Running,
    ensures
        reaped(seq![p], outcomes) == Seq::<(u32, ExitStatus)>::empty(),
        kept(seq![p], outcomes) == seq![p],
{
    reveal_with_fuel(kept, 2);
    reveal_with_fuel(reaped, 2);
    assert(seq![p].drop_last() == Seq::<Process>::empty());
    assert(seq![p].last() == p);
    assert(kept(seq![p], outcomes) =~= seq![p]);
    assert(reaped(seq![p], outcomes) =~= Seq::<(u32, ExitStatus)>::empty());
}

} // verus!
