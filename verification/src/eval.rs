//! The evaluator.
//!
//! Running a command line alternates decisions with work that only the
//! operating system can do: starting a program, waiting for it, closing a
//! descriptor, changing directory. The decisions are made here. Each call
//! of `eval` takes what the last piece of outside work gave (the `Event`),
//! carries the evaluation on until outside work is needed again, and
//! returns that work (the `Action`). The caller performs the action and
//! calls again with its result, until the action is `Done`.
//!
//! A failure ends the evaluation: the steps that are left are dropped and
//! the error is handed out. The session survives, and the next command
//! line is evaluated independently. Children that were started before the
//! failure are not ended; they stay recorded and are waited for together
//! with the children of the next command. A descriptor that the failure
//! has left in the handoff cell is handed out to be closed before the next
//! command runs.

use vstd::prelude::*;
use crate::ast::{Assign, Ast, Command, CommandView, Redirect, redirect_views};
use crate::builtin::{Builtin, BuiltinView, builtin_of, execute, printed, printenv};
use crate::error::{Error, ErrorKind, ErrorView, error_of};
use crate::extract::{
    args_error,
    assign_error,
    assigned,
    extract_assign,
    extract_command_args,
    extract_command_name,
    has_descriptor,
    name_error,
    plain,
    resolved,
};
use crate::pipe::{Handoff, Pipe, send_refusal};
use crate::process_handler::{
    Process,
    WaitOutcome,
    WaitRequest,
    kept,
    requests_for,
};
use crate::program::{Op, OpView, compile, op_views, program};
use crate::redirect::{Remap, RemapView, redirect_error, remap_views, remaps, remaps_of};
use crate::sh_vars::ShVars;
use crate::state::State;
use crate::text::string_views;

verus! {

/// Where a standard stream of a child comes from or goes to.
#[derive(Debug, Clone, Copy, PartialEq, Eq)]
pub enum Stdio {
    /// The stream of the shell itself.
    Inherit,
    /// A new pipe, whose other end the shell keeps.
    Piped,
    /// The descriptor that the previous stage left in the handoff cell.
    FromFd(i32),
}

/// Everything that is needed to start one program.
#[derive(Debug)]
pub struct SpawnRequest {
    pub program: String,
    pub args: Vec<String>,
    pub stdin: Stdio,
    pub stdout: Stdio,
    pub stderr: Stdio,
    /// The environment of the child: the shell's variables at this moment.
    pub envs: ShVars,
    pub current_dir: String,
    /// The remaps that the child applies before it runs the program.
    pub redirects: Vec<Remap>,
    pub background: bool,
}

pub struct SpawnView {
    pub program: Seq<char>,
    pub args: Seq<Seq<char>>,
    pub stdin: Stdio,
    pub stdout: Stdio,
    pub stderr: Stdio,
    pub envs: Map<Seq<char>, Seq<char>>,
    pub current_dir: Seq<char>,
    pub redirects: Seq<RemapView>,
    pub background: bool,
}

impl View for SpawnRequest {
    type V = SpawnView;

    open spec fn view(&self) -> SpawnView {
        SpawnView {
            program: self.program@,
            args: string_views(self.args@),
            stdin: self.stdin,
            stdout: self.stdout,
            stderr: self.stderr,
            envs: self.envs@,
            current_dir: self.current_dir@,
            redirects: remap_views(self.redirects@),
            background: self.background,
        }
    }
}

/// The outside work that the evaluator asks for.
#[derive(Debug)]
pub enum Action {
    /// Start a program. Answered by `Spawned` or `SpawnFailed`.
    Spawn(SpawnRequest),
    /// Change the working directory from `current` to `target`. Answered
    /// by `DirChanged` with the new directory, or by `Failed`.
    ChangeDir { current: String, target: String },
    /// End the shell with this code.
    Exit(i32),
    /// End the shell at once, abnormally.
    Abort,
    /// Print these variables, one `name=value` on each line. Answered by
    /// `Done`.
    Print(ShVars),
    /// Close this descriptor. Answered by `Done`, or by `Failed`.
    Close(i32),
    /// Wait for these children. Answered by `Waited` with one outcome for
    /// each request, in the same order.
    Wait(Vec<WaitRequest>),
    /// The evaluation is over, with this result.
    Done(Result<(), Error>),
}

pub enum ActionView {
    Spawn(SpawnView),
    ChangeDir { current: Seq<char>, target: Seq<char> },
    Exit(i32),
    Abort,
    Print(Map<Seq<char>, Seq<char>>),
    Close(i32),
    Wait(Seq<WaitRequest>),
    Done(Result<(), ErrorView>),
}

impl View for Action {
    type V = ActionView;

    open spec fn view(&self) -> ActionView {
        match self {
            Action::Spawn(r) => ActionView::Spawn(r@),
            Action::ChangeDir { current, target } => ActionView::ChangeDir {
                current: current@,
                target: target@,
            },
            Action::Exit(c) => ActionView::Exit(*c),
            Action::Abort => ActionView::Abort,
            Action::Print(v) => ActionView::Print(v@),
            Action::Close(fd) => ActionView::Close(*fd),
            Action::Wait(r) => ActionView::Wait(r@),
            Action::Done(Ok(_)) => ActionView::Done(Ok(())),
            Action::Done(Err(e)) => ActionView::Done(Err(e@)),
        }
    }
}

/// What the outside work gave.
#[derive(Debug)]
pub enum Event {
    /// Nothing yet: the first call of an evaluation.
    Begin,
    /// The program runs as process `pid`. Where its standard output was
    /// asked to be `Piped`, `stdout` is the descriptor of the reading end.
    Spawned { pid: u32, stdout: Option<i32> },
    /// The program could not be started; `not_found` tells whether the
    /// operating system found no such file.
    SpawnFailed { not_found: bool },
    /// The working directory is now this one.
    DirChanged(String),
    /// The outcomes of the wait requests, in the order of the requests.
    Waited(Vec<WaitOutcome>),
    /// The action has been performed and has nothing to report.
    Done,
    /// The action failed with this error.
    Failed(Error),
}

pub enum EventView {
    Begin,
    Spawned { pid: u32, stdout: Option<i32> },
    SpawnFailed { not_found: bool },
    DirChanged(Seq<char>),
    Waited(Seq<WaitOutcome>),
    Done,
    Failed(ErrorView),
}

impl View for Event {
    type V = EventView;

    open spec fn view(&self) -> EventView {
        match self {
            Event::Begin => EventView::Begin,
            Event::Spawned { pid, stdout } => EventView::Spawned { pid: *pid, stdout: *stdout },
            Event::SpawnFailed { not_found } => EventView::SpawnFailed { not_found: *not_found },
            Event::DirChanged(d) => EventView::DirChanged(d@),
            Event::Waited(o) => EventView::Waited(o@),
            Event::Done => EventView::Done,
            Event::Failed(e) => EventView::Failed(e@),
        }
    }
}

/// The action whose answer the evaluator is waiting for.
#[derive(Debug, Clone, Copy, PartialEq, Eq)]
pub enum Pending {
    /// None.
    Idle,
    /// A `Spawn`, of a child that runs in the background or not.
    Spawn { background: bool },
    /// The action of a builtin.
    Builtin,
    /// A `Close`.
    Close,
    /// A `Wait`.
    Wait,
}

/// One evaluation of a command tree: its steps, how far it has come, and
/// what it is waiting for.
#[derive(Debug)]
pub struct Evaluation {
    ops: Vec<Op>,
    next: usize,
    pending: Pending,
}

pub struct EvaluationView {
    pub ops: Seq<OpView>,
    pub next: nat,
    pub pending: Pending,
}

impl View for Evaluation {
    type V = EvaluationView;

    closed spec fn view(&self) -> EvaluationView {
        EvaluationView { ops: op_views(self.ops@), next: self.next as nat, pending: self.pending }
    }
}

impl Evaluation {
    /// The evaluation of `ast`, before its first step.
    pub fn new(ast: &Ast) -> (r: Evaluation)
        ensures
            r@ == (EvaluationView { ops: program(*ast), next: 0, pending: Pending::Idle }),
    {
        Evaluation { ops: compile(ast), next: 0, pending: Pending::Idle }
    }

    /// Whether every step has been taken or dropped.
    pub fn is_finished(&self) -> (r: bool)
        ensures
            r == (self@.next >= self@.ops.len() && self@.pending == Pending::Idle),
    {
        self.next >= self.ops.len() && match self.pending {
            Pending::Idle => true,
            _ => false,
        }
    }
}

/// The session as the evaluator sees it: the children, the handoff cell,
/// the working directory and the variables.
pub struct Session {
    pub handler: Seq<Process>,
    pub pipe: Handoff,
    pub dir: Seq<char>,
    pub vars: Map<Seq<char>, Seq<char>>,
}

/// The session that a state and a variable store make.
pub open spec fn session(state: State, vars: ShVars) -> Session {
    Session {
        handler: state.handler@,
        pipe: state.pipe@,
        dir: state.current_dir@,
        vars: vars@,
    }
}

/// The standard streams of a stage, and the handoff cell after they have
/// been chosen.
pub struct Wiring {
    pub stdin: Stdio,
    pub stdout: Stdio,
    pub stderr: Stdio,
    pub pipe: Handoff,
    /// The cell held a descriptor that cannot be one: a negative number.
    pub broken: bool,
}

/// How a stage is wired. Its input is the descriptor that the cell holds,
/// which is taken out of the cell, or the shell's input where the cell
/// holds none. Its output is a new pipe where the cell can take a
/// descriptor and the stage is not the last one; the last stage, and any
/// stage outside a pipeline, writes to the shell's output. Errors go to
/// the shell's error stream.
pub open spec fn wiring(pipe: Handoff, is_last: bool) -> Wiring {
    let after = match pipe {
        Handoff::Recvable(_) => Handoff::Sendable,
        _ => pipe,
    };
    Wiring {
        stdin: match pipe {
            Handoff::Recvable(fd) if fd >= 0 => Stdio::FromFd(fd),
            _ => Stdio::Inherit,
        },
        stdout: if after == Handoff::Sendable && !is_last {
            Stdio::Piped
        } else {
            Stdio::Inherit
        },
        stderr: Stdio::Inherit,
        pipe: after,
        broken: pipe matches Handoff::Recvable(fd) && fd < 0,
    }
}

/// The error for a descriptor in the cell that cannot be one.
pub open spec fn broken_pipe() -> ErrorView {
    error_of(ErrorKind::BrokenPipe, "Pipe is broken"@)
}

/// The error for a program that could not be started.
pub open spec fn spawn_error(not_found: bool) -> ErrorView {
    if not_found {
        error_of(ErrorKind::NotFound, "Command not found"@)
    } else {
        error_of(ErrorKind::EngineError, "Command execution failed"@)
    }
}

/// The error for an event that does not answer the pending action.
pub open spec fn unexpected_event() -> ErrorView {
    error_of(ErrorKind::EngineError, "Unexpected event"@)
}

/// The directory that a child is started in: the working directory of the
/// session, or `/` where the session has none.
pub open spec fn child_dir(dir: Seq<char>) -> Seq<char> {
    if dir.len() == 0 {
        "/"@
    } else {
        dir
    }
}

/// The session after an event, and the failure that the event brought.
pub struct Absorbed {
    pub session: Session,
    pub failure: Option<ErrorView>,
}

/// What an event does to the session, given the action that was pending.
///
/// A child that was started is recorded with its process id, and the
/// descriptor of its standard output, if it has one, is put into the
/// handoff cell. A program that could not be started records nothing and
/// fails with `NotFound` or `EngineError`. A wait releases the children
/// that have ended. An event that does not answer the pending action is an
/// `EngineError`.
pub open spec fn absorbed(pending: Pending, event: EventView, s: Session) -> Absorbed {
    match event {
        EventView::Failed(e) => Absorbed { session: s, failure: Some(e) },
        EventView::Begin => if pending == Pending::Idle {
            Absorbed { session: s, failure: None }
        } else {
            Absorbed { session: s, failure: Some(unexpected_event()) }
        },
        EventView::Spawned { pid, stdout } => match pending {
            Pending::Spawn { background } => {
                let recorded = Session {
                    handler: s.handler.push(Process { pid, is_background: background }),
                    ..s
                };
                match stdout {
                    None => Absorbed { session: recorded, failure: None },
                    Some(fd) => match s.pipe.sent(fd) {
                        Some(p) => Absorbed {
                            session: Session { pipe: p, ..recorded },
                            failure: None,
                        },
                        None => Absorbed {
                            session: recorded,
                            failure: Some(
                                error_of(ErrorKind::BrokenPipe, send_refusal(s.pipe)),
                            ),
                        },
                    },
                }
            },
            _ => Absorbed { session: s, failure: Some(unexpected_event()) },
        },
        EventView::SpawnFailed { not_found } => match pending {
            Pending::Spawn { .. } => Absorbed { session: s, failure: Some(spawn_error(not_found)) },
            _ => Absorbed { session: s, failure: Some(unexpected_event()) },
        },
        EventView::DirChanged(d) => if pending == Pending::Builtin {
            Absorbed { session: Session { dir: d, ..s }, failure: None }
        } else {
            Absorbed { session: s, failure: Some(unexpected_event()) }
        },
        EventView::Waited(o) => if pending == Pending::Wait {
            Absorbed { session: Session { handler: kept(s.handler, o), ..s }, failure: None }
        } else {
            Absorbed { session: s, failure: Some(unexpected_event()) }
        },
        EventView::Done => if pending == Pending::Builtin || pending == Pending::Close {
            Absorbed { session: s, failure: None }
        } else {
            Absorbed { session: s, failure: Some(unexpected_event()) }
        },
    }
}

/// How far the evaluation gets without outside work.
pub struct Settled {
    pub next: nat,
    pub session: Session,
    pub failure: Option<ErrorView>,
}

/// Takes the steps from `next` on that need no outside work: an
/// assignment sets its variable; `Open` makes the cell sendable; `Close`
/// closes a cell that holds no descriptor; `Wait` is skipped while no child
/// is recorded. It stops before the first step that needs outside work, at
/// the end of the steps, or at an assignment that fails.
pub open spec fn settle(ops: Seq<OpView>, next: nat, s: Session) -> Settled
    decreases ops.len() - next,
{
    if next >= ops.len() {
        Settled { next, session: s, failure: None }
    } else {
        match ops[next as int] {
            OpView::Assign(a) => match assigned(a) {
                Some((key, value)) => settle(
                    ops,
                    next + 1,
                    Session { vars: s.vars.insert(key, value), ..s },
                ),
                None => Settled { next, session: s, failure: Some(assign_error()) },
            },
            OpView::Open => settle(ops, next + 1, Session { pipe: Handoff::Sendable, ..s }),
            OpView::Close => if s.pipe is Recvable {
                Settled { next, session: s, failure: None }
            } else {
                settle(ops, next + 1, Session { pipe: Handoff::Closed, ..s })
            },
            OpView::Wait => if s.handler.len() == 0 {
                settle(ops, next + 1, s)
            } else {
                Settled { next, session: s, failure: None }
            },
            OpView::Stage(_, _) => Settled { next, session: s, failure: None },
        }
    }
}

/// The action that a builtin asks for.
pub open spec fn builtin_action(b: BuiltinView, s: Session) -> ActionView {
    match b {
        BuiltinView::Abort => ActionView::Abort,
        BuiltinView::Exit(code) => ActionView::Exit(code),
        BuiltinView::ChangeDir(target) => ActionView::ChangeDir { current: s.dir, target },
        BuiltinView::PrintEnv(key) => ActionView::Print(printed(key, s.vars)),
    }
}

/// A step that fails: the session stays as it is, nothing is pending, and
/// the error is handed out.
pub open spec fn fails(
    s: Session,
    s2: Session,
    pending: Pending,
    action: ActionView,
    e: ErrorView,
) -> bool {
    s2 == s && pending == Pending::Idle && action == ActionView::Done(Err(e))
}

/// What a stage does once its program and its arguments are resolved.
///
/// A name of the builtin table is answered by the builtin. Any other name
/// is a program to start: with the name and the arguments as its argument
/// vector, the streams of `wiring`, the variables as its environment, the
/// working directory of the session, and the remaps of its redirects.
pub open spec fn dispatched(
    name: Seq<char>,
    args: Seq<Seq<char>>,
    command: CommandView,
    is_last: bool,
    s: Session,
    s2: Session,
    pending: Pending,
    action: ActionView,
) -> bool {
    match builtin_of(name, args) {
        Some(b) => s2 == s && pending == Pending::Builtin && action == builtin_action(b, s),
        None => match remaps_of(command.redirects) {
            None => fails(s, s2, pending, action, redirect_error()),
            Some(redirects) => {
                let w = wiring(s.pipe, is_last);
                &&& s2 == Session { pipe: w.pipe, ..s }
                &&& if w.broken {
                    pending == Pending::Idle && action == ActionView::Done(Err(broken_pipe()))
                } else {
                    &&& pending == Pending::Spawn { background: command.background }
                    &&& action == ActionView::Spawn(
                        SpawnView {
                            program: name,
                            args,
                            stdin: w.stdin,
                            stdout: w.stdout,
                            stderr: w.stderr,
                            envs: s.vars,
                            current_dir: child_dir(s.dir),
                            redirects,
                            background: command.background,
                        },
                    )
                }
            },
        },
    }
}

/// What a stage does: its program and its arguments are resolved, at this
/// moment and not before, and the result is dispatched. A descriptor in
/// the place of the program or of an argument is an `EngineError`.
pub open spec fn staged(
    command: CommandView,
    is_last: bool,
    s: Session,
    s2: Session,
    pending: Pending,
    action: ActionView,
) -> bool {
    match plain(command.expr, s.vars) {
        None => fails(s, s2, pending, action, name_error()),
        Some(name) => if has_descriptor(command.args) {
            fails(s, s2, pending, action, args_error())
        } else {
            exists|args: Seq<Seq<char>>|
                resolved(command.args, s.vars, args) && dispatched(
                    name,
                    args,
                    command,
                    is_last,
                    s,
                    s2,
                    pending,
                    action,
                )
        },
    }
}

/// What the step `op` does where it needs outside work or fails.
pub open spec fn acts(
    op: OpView,
    s: Session,
    s2: Session,
    pending: Pending,
    action: ActionView,
) -> bool {
    match op {
        OpView::Stage(command, is_last) => staged(command, is_last, s, s2, pending, action),
        OpView::Close => match s.pipe {
            Handoff::Recvable(fd) => {
                &&& s2 == Session { pipe: Handoff::Closed, ..s }
                &&& if fd >= 0 {
                    pending == Pending::Close && action == ActionView::Close(fd)
                } else {
                    pending == Pending::Idle && action == ActionView::Done(Err(broken_pipe()))
                }
            },
            _ => false,
        },
        OpView::Wait => {
            &&& s2 == s
            &&& pending == Pending::Wait
            &&& action == ActionView::Wait(requests_for(s.handler))
        },
        OpView::Assign(_) => false,
        OpView::Open => false,
    }
}

/// The evaluation after a failure or at its end: the steps that are left
/// are dropped.
pub open spec fn ended(t: EvaluationView) -> EvaluationView {
    EvaluationView { ops: t.ops, next: t.ops.len(), pending: Pending::Idle }
}

/// One call of `eval`: from the evaluation `t`, the session `s` and the
/// event `e` to the evaluation `t2`, the session `s2` and the action.
///
/// The event is absorbed; the steps that need no outside work are taken;
/// the first step that needs some gives the action. A failure on the way,
/// and the end of the steps, give `Done` and end the evaluation.
pub open spec fn steps(
    t: EvaluationView,
    s: Session,
    e: EventView,
    t2: EvaluationView,
    s2: Session,
    action: ActionView,
) -> bool {
    let a = absorbed(t.pending, e, s);
    if a.failure is Some {
        t2 == ended(t) && s2 == a.session && action == ActionView::Done(Err(a.failure->0))
    } else {
        let q = settle(t.ops, t.next, a.session);
        if q.failure is Some {
            t2 == ended(t) && s2 == q.session && action == ActionView::Done(Err(q.failure->0))
        } else if q.next >= t.ops.len() {
            t2 == ended(t) && s2 == q.session && action == ActionView::Done(Ok(()))
        } else {
            &&& acts(t.ops[q.next as int], q.session, s2, t2.pending, action)
            &&& if action is Done {
                t2 == ended(t)
            } else {
                t2.ops == t.ops && t2.next == q.next + 1
            }
        }
    }
}

/// Chooses the standard streams of a stage and takes the pending
/// descriptor, if there is one, out of the handoff cell. A descriptor that
/// is negative is a `BrokenPipe`.
pub fn set_command_stdio(state: &mut State, is_last: bool) -> (r: Result<
    (Stdio, Stdio, Stdio),
    Error,
>)
    ensures
        final(state).pipe@ == wiring(old(state).pipe@, is_last).pipe,
        final(state).handler == old(state).handler,
        final(state).current_dir == old(state).current_dir,
        match r {
            Ok((stdin, stdout, stderr)) => {
                let w = wiring(old(state).pipe@, is_last);
                !w.broken && stdin == w.stdin && stdout == w.stdout && stderr == w.stderr
            },
            Err(e) => wiring(old(state).pipe@, is_last).broken && e@ == broken_pipe(),
        },
{
    let mut broken = false;
    let stdin = if state.pipe.is_recvable() {
        match state.pipe.recv() {
            Ok(fd) => {
                if fd >= 0 {
                    Stdio::FromFd(fd)
                } else {
                    broken = true;
                    Stdio::Inherit
                }
            },
            Err(_) => Stdio::Inherit,
        }
    } else {
        Stdio::Inherit
    };
    let stdout = if state.pipe.is_sendable() && !is_last {
        Stdio::Piped
    } else {
        Stdio::Inherit
    };
    if broken {
        Err(Error::new(ErrorKind::BrokenPipe, "Pipe is broken"))
    } else {
        Ok((stdin, stdout, Stdio::Inherit))
    }
}

/// Sets the variable of an assignment.
pub fn eval_assign(assign: Assign, sh_vars: &mut ShVars) -> (r: Result<(), Error>)
    requires
        old(sh_vars).wf(),
    ensures
        final(sh_vars).wf(),
        match assigned(assign@) {
            Some((key, value)) => r is Ok && final(sh_vars)@ == old(sh_vars)@.insert(key, value),
            None => r is Err && r->Err_0@ == assign_error() && final(sh_vars)@ == old(sh_vars)@,
        },
{
    match extract_assign(assign) {
        Ok((key, value)) => {
            sh_vars.insert(key, value);
            Ok(())
        },
        Err(e) => Err(e),
    }
}

/// Answers a command of the builtin table with the action of the builtin;
/// `None` for any other command.
pub fn eval_builtin_command(
    name: &String,
    args: &Vec<String>,
    state: &State,
    sh_vars: &ShVars,
) -> (r: Option<Action>)
    requires
        sh_vars.wf(),
    ensures
        match builtin_of(name@, string_views(args@)) {
            Some(b) => r is Some && r->0@ == builtin_action(b, session(*state, *sh_vars)),
            None => r is None,
        },
{
    match execute(name.as_str(), args) {
        Some(Builtin::Abort) => Some(Action::Abort),
        Some(Builtin::Exit(code)) => Some(Action::Exit(code)),
        Some(Builtin::ChangeDir(target)) => Some(
            Action::ChangeDir { current: state.current_dir.clone(), target },
        ),
        Some(Builtin::PrintEnv(key)) => Some(Action::Print(printenv(key.as_str(), sh_vars))),
        None => None,
    }
}

/// Prepares the start of a program: its streams, its environment, its
/// directory and its remaps.
pub fn eval_process_command(
    name: String,
    args: Vec<String>,
    redirects: &Vec<Redirect>,
    is_background: bool,
    state: &mut State,
    sh_vars: &ShVars,
    is_last: bool,
) -> (r: Result<SpawnRequest, Error>)
    requires
        sh_vars.wf(),
    ensures
        final(state).handler == old(state).handler,
        final(state).current_dir == old(state).current_dir,
        match remaps_of(redirect_views(redirects@)) {
            None => r is Err && r->Err_0@ == redirect_error() && final(state).pipe@ == old(
                state,
            ).pipe@,
            Some(ms) => {
                let w = wiring(old(state).pipe@, is_last);
                &&& final(state).pipe@ == w.pipe
                &&& if w.broken {
                    r is Err && r->Err_0@ == broken_pipe()
                } else {
                    r is Ok && r->Ok_0@ == (SpawnView {
                        program: name@,
                        args: string_views(args@),
                        stdin: w.stdin,
                        stdout: w.stdout,
                        stderr: w.stderr,
                        envs: sh_vars@,
                        current_dir: child_dir(old(state).current_dir@),
                        redirects: ms,
                        background: is_background,
                    })
                }
            },
        },
{
    let redirects = match remaps(redirects) {
        Ok(ms) => ms,
        Err(e) => {
            return Err(e);
        },
    };
    let (stdin, stdout, stderr) = match set_command_stdio(state, is_last) {
        Ok(streams) => streams,
        Err(e) => {
            return Err(e);
        },
    };
    let current_dir = if state.current_dir.as_str().is_empty() {
        String::from_str("/")
    } else {
        state.current_dir.clone()
    };
    Ok(
        SpawnRequest {
            program: name,
            args,
            stdin,
            stdout,
            stderr,
            envs: sh_vars.clone(),
            current_dir,
            redirects,
            background: is_background,
        },
    )
}

/// Runs one stage as far as it goes without outside work: resolves the
/// program and the arguments, and answers with the action of a builtin or
/// with the start of a program.
pub fn eval_command(command: &Command, state: &mut State, sh_vars: &ShVars, is_last: bool) -> (r:
    (Action, Pending))
    requires
        sh_vars.wf(),
    ensures
        staged(
            command@,
            is_last,
            session(*old(state), *sh_vars),
            session(*final(state), *sh_vars),
            r.1,
            r.0@,
        ),
{
    let name = match extract_command_name(command, sh_vars) {
        Ok(name) => name,
        Err(e) => {
            return (Action::Done(Err(e)), Pending::Idle);
        },
    };
    let args = match extract_command_args(command, sh_vars) {
        Ok(args) => args,
        Err(e) => {
            return (Action::Done(Err(e)), Pending::Idle);
        },
    };
    let ghost s = session(*old(state), *sh_vars);
    let ghost resolved_args = string_views(args@);
    assert(command@.redirects == redirect_views(command.redirects@));
    match eval_builtin_command(&name, &args, state, sh_vars) {
        Some(action) => {
            assert(dispatched(
                name@,
                resolved_args,
                command@,
                is_last,
                s,
                session(*state, *sh_vars),
                Pending::Builtin,
                action@,
            ));
            (action, Pending::Builtin)
        },
        None => {
            let background = command.background;
            match eval_process_command(
                name,
                args,
                &command.redirects,
                background,
                state,
                sh_vars,
                is_last,
            ) {
                Ok(request) => {
                    let action = Action::Spawn(request);
                    assert(dispatched(
                        name@,
                        resolved_args,
                        command@,
                        is_last,
                        s,
                        session(*state, *sh_vars),
                        Pending::Spawn { background },
                        action@,
                    ));
                    (action, Pending::Spawn { background })
                },
                Err(e) => {
                    let action = Action::Done(Err(e));
                    assert(dispatched(
                        name@,
                        resolved_args,
                        command@,
                        is_last,
                        s,
                        session(*state, *sh_vars),
                        Pending::Idle,
                        action@,
                    ));
                    (action, Pending::Idle)
                },
            }
        },
    }
}

/// Takes an event into the session.
fn absorb(pending: Pending, event: Event, state: &mut State, sh_vars: &ShVars) -> (r: Option<Error>)
    ensures
        session(*final(state), *sh_vars) == absorbed(
            pending,
            event@,
            session(*old(state), *sh_vars),
        ).session,
        match absorbed(pending, event@, session(*old(state), *sh_vars)).failure {
            Some(e) => r is Some && r->0@ == e,
            None => r is None,
        },
{
    match event {
        Event::Failed(e) => Some(e),
        Event::Begin => match pending {
            Pending::Idle => None,
            _ => Some(Error::new(ErrorKind::EngineError, "Unexpected event")),
        },
        Event::Spawned { pid, stdout } => match pending {
            Pending::Spawn { background } => {
                state.handler.push(pid, background);
                match stdout {
                    None => None,
                    Some(fd) => match state.pipe.send(fd) {
                        Ok(_) => None,
                        Err(e) => Some(e),
                    },
                }
            },
            _ => Some(Error::new(ErrorKind::EngineError, "Unexpected event")),
        },
        Event::SpawnFailed { not_found } => match pending {
            Pending::Spawn { .. } => {
                if not_found {
                    Some(Error::new(ErrorKind::NotFound, "Command not found"))
                } else {
                    Some(Error::new(ErrorKind::EngineError, "Command execution failed"))
                }
            },
            _ => Some(Error::new(ErrorKind::EngineError, "Unexpected event")),
        },
        Event::DirChanged(d) => match pending {
            Pending::Builtin => {
                state.current_dir = d;
                None
            },
            _ => Some(Error::new(ErrorKind::EngineError, "Unexpected event")),
        },
        Event::Waited(outcomes) => match pending {
            Pending::Wait => {
                let _ = state.handler.wait(&outcomes);
                None
            },
            _ => Some(Error::new(ErrorKind::EngineError, "Unexpected event")),
        },
        Event::Done => match pending {
            Pending::Builtin => None,
            Pending::Close => None,
            _ => Some(Error::new(ErrorKind::EngineError, "Unexpected event")),
        },
    }
}

/// Carries an evaluation on by one event.
///
/// The first call takes `Event::Begin`. Each later call takes the answer
/// to the action that the call before it returned. The evaluation is over
/// when the action is `Done`.
pub fn eval(task: &mut Evaluation, state: &mut State, sh_vars: &mut ShVars, event: Event) -> (r:
    Action)
    requires
        old(sh_vars).wf(),
    ensures
        final(sh_vars).wf(),
        steps(
            old(task)@,
            session(*old(state), *old(sh_vars)),
            event@,
            final(task)@,
            session(*final(state), *final(sh_vars)),
            r@,
        ),
{
    let ghost t = task@;
    let ghost ev = event@;
    let ghost s0 = session(*state, *sh_vars);
    let pending = task.pending;
    task.pending = Pending::Idle;
    match absorb(pending, event, state, sh_vars) {
        Some(e) => {
            task.next = task.ops.len();
            return Action::Done(Err(e));
        },
        None => {},
    }
    let ghost start = session(*state, *sh_vars);
    while task.next < task.ops.len()
        invariant
            sh_vars.wf(),
            task.pending == Pending::Idle,
            op_views(task.ops@) == t.ops,
            t == old(task)@,
            ev == event@,
            s0 == session(*old(state), *old(sh_vars)),
            absorbed(t.pending, ev, s0).failure is None,
            start == absorbed(t.pending, ev, s0).session,
            settle(t.ops, t.next, start) == settle(
                t.ops,
                task.next as nat,
                session(*state, *sh_vars),
            ),
        decreases task.ops@.len() - task.next,
    {
        let at = task.next;
        let ghost here = session(*state, *sh_vars);
        assert(t.ops[at as int] == task.ops@[at as int]@);
        match &task.ops[at] {
            Op::Assign(assign) => {
                match eval_assign(assign.clone(), sh_vars) {
                    Ok(_) => {
                        task.next = at + 1;
                    },
                    Err(e) => {
                        task.next = task.ops.len();
                        return Action::Done(Err(e));
                    },
                }
            },
            Op::Open => {
                state.pipe = Pipe::open();
                task.next = at + 1;
            },
            Op::Close => {
                match state.pipe.close() {
                    Ok(None) => {
                        task.next = at + 1;
                    },
                    Ok(Some(fd)) => {
                        task.next = at + 1;
                        task.pending = Pending::Close;
                        return Action::Close(fd);
                    },
                    Err(e) => {
                        task.next = task.ops.len();
                        return Action::Done(Err(e));
                    },
                }
            },
            Op::Wait => {
                if state.handler.is_empty() {
                    task.next = at + 1;
                } else {
                    task.next = at + 1;
                    task.pending = Pending::Wait;
                    return Action::Wait(state.handler.wait_requests());
                }
            },
            Op::Stage(command, is_last) => {
                let (action, pending) = eval_command(command, state, sh_vars, *is_last);
                match action {
                    Action::Done(_) => {
                        task.next = task.ops.len();
                    },
                    _ => {
                        task.next = at + 1;
                        task.pending = pending;
                    },
                }
                return action;
            },
        }
    }
    task.next = task.ops.len();
    Action::Done(Ok(()))
}


/// The handoff cell before stage `k` of a pipeline of `n` programs, where
/// every stage before it was started and stage `j` answered a piped output
/// with the descriptor `fds[j]`.
pub open spec fn cell_before(n: nat, fds: Seq<i32>, k: nat) -> Handoff
    decreases k,
{
    if k == 0 {
        Handoff::Sendable
    } else {
        let j = (k - 1) as nat;
        let w = wiring(cell_before(n, fds, j), j + 1 == n);
        if w.stdout == Stdio::Piped {
            match w.pipe.sent(fds[j as int]) {
                Some(p) => p,
                None => w.pipe,
            }
        } else {
            w.pipe
        }
    }
}

/// The number of descriptors that the first `k` stages of the pipeline
/// took out of the cell: each is one round trip of the cell from sendable
/// to recvable and back.
pub open spec fn handoffs(n: nat, fds: Seq<i32>, k: nat) -> nat
    decreases k,
{
    if k == 0 {
        0
    } else {
        let j = (k - 1) as nat;
        handoffs(n, fds, j) + if cell_before(n, fds, j) is Recvable {
            1nat
        } else {
            0nat
        }
    }
}

/// In a pipeline of `n` programs, every stage but the last writes into a
/// new pipe, and the last one writes to the shell's own output. Every
/// stage but the first reads exactly the descriptor that the stage before
/// it left, and the first reads the shell's input. The cell makes `n - 1`
/// round trips and is sendable, holding nothing, when the last stage has
/// been started.
pub proof fn lemma_pipeline_handoffs(n: nat, fds: Seq<i32>, k: nat)
    requires
        n >= 1,
        fds.len() >= n - 1,
        forall|i: int| 0 <= i < n - 1 ==> fds[i] >= 0,
        k <= n,
    ensures
        k == 0 ==> cell_before(n, fds, k) == Handoff::Sendable,
        0 < k < n ==> cell_before(n, fds, k) == Handoff::Recvable(fds[k - 1]),
        k == n ==> cell_before(n, fds, k) == Handoff::Sendable,
        k < n ==> wiring(cell_before(n, fds, k), k + 1 == n).stdout == (if k + 1 == n {
            Stdio::Inherit
        } else {
            Stdio::Piped
        }),
        k < n ==> wiring(cell_before(n, fds, k), k + 1 == n).stdin == (if k == 0 {
            Stdio::Inherit
        } else {
            Stdio::FromFd(fds[k - 1])
        }),
        k < n ==> !wiring(cell_before(n, fds, k), k + 1 == n).broken,
        0 < k ==> handoffs(n, fds, k) == k - 1,
        k == n ==> handoffs(n, fds, n) == n - 1,
    decreases k,
{
    if k > 0 {
        lemma_pipeline_handoffs(n, fds, (k - 1) as nat);
        assert(handoffs(n, fds, 0) == 0);
    }
}

/// A variable that a statement sets is seen by the command that follows
/// it in the same line: the assignment has been made when the stage is
/// reached, and the stage resolves its words in the session as it is then.
pub proof fn lemma_assignment_is_seen(
    key: Seq<char>,
    value: Seq<char>,
    command: CommandView,
    s: Session,
)
    requires
        !(s.pipe is Recvable),
    ensures
        ({
            let assign = crate::ast::AssignView {
                ident: crate::ast::ExprView::Ident(key),
                expr: crate::ast::ExprView::String(value),
            };
            let ops = seq![OpView::Assign(assign)] + crate::program::alone(command);
            let q = settle(ops, 0, s);
            &&& q.failure is None
            &&& q.next == 2
            &&& ops[2] == OpView::Stage(command, true)
            &&& q.session.vars == s.vars.insert(key, value)
            &&& crate::extract::lookup(q.session.vars, key) == value
        }),
{
    reveal_with_fuel(settle, 4);
}

/// A command that stands alone is wired to the shell's own streams,
/// whatever an earlier evaluation has left in the handoff cell: the cell
/// is closed before the command runs, and a descriptor that it held is
/// handed out to be closed.
pub proof fn lemma_alone_inherits(command: CommandView, s: Session)
    ensures
        ({
            let ops = crate::program::alone(command);
            let q = settle(ops, 0, s);
            &&& q.failure is None
            &&& s.pipe is Recvable ==> q.next == 0 && q.session == s
            &&& !(s.pipe is Recvable) ==> q.next == 1 && q.session.pipe == Handoff::Closed
            &&& wiring(Handoff::Closed, true).stdin == Stdio::Inherit
            &&& wiring(Handoff::Closed, true).stdout == Stdio::Inherit
            &&& wiring(Handoff::Closed, true).pipe == Handoff::Closed
        }),
{
    reveal_with_fuel(settle, 3);
}

/// A program that could not be started leaves no trace: no child is
/// recorded, the cell and the directory stay as they were, and the failure
/// is `NotFound` where the operating system found no such file.
pub proof fn lemma_failed_spawn_records_nothing(background: bool, not_found: bool, s: Session)
    ensures
        absorbed(Pending::Spawn { background }, EventView::SpawnFailed { not_found }, s).session
            == s,
        absorbed(Pending::Spawn { background }, EventView::SpawnFailed { not_found }, s).failure
            == Some(spawn_error(not_found)),
        spawn_error(true).kind == ErrorKind::NotFound,
{
}

/// A child that was started is recorded once, with the background flag of
/// its command, and the descriptor of its piped output is what the next
/// stage reads.
pub proof fn lemma_spawn_hands_over(background: bool, pid: u32, fd: i32, s: Session)
    requires
        s.pipe == Handoff::Sendable,
        fd >= 0,
    ensures
        ({
            let a = absorbed(
                Pending::Spawn { background },
                EventView::Spawned { pid, stdout: Some(fd) },
                s,
            );
            &&& a.failure is None
            &&& a.session.handler == s.handler.push(Process { pid, is_background: background })
            &&& wiring(a.session.pipe, true).stdin == Stdio::FromFd(fd)
            &&& wiring(a.session.pipe, false).stdin == Stdio::FromFd(fd)
        }),
{
}

} // verus!
