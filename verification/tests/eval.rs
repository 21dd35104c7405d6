use fsh::ast::{Assign, Ast, Command, Expr, Pipe, Redirect, RedirectOperator, Statement};
use fsh::error::{Error, ErrorKind};
use fsh::eval::{eval, Action, Evaluation, Event, SpawnRequest, Stdio};
use fsh::parser::Parser;
use fsh::pipe::PipeState;
use fsh::process_handler::{ExitStatus, Process, WaitMode, WaitOutcome, WaitRequest};
use fsh::redirect::{Remap, Source};
use fsh::sh_vars::ShVars;
use fsh::state::State;

fn word(s: &str) -> Expr {
    Expr::String(s.to_string())
}

fn command(name: &str, args: &[&str]) -> Command {
    Command {
        expr: word(name),
        args: args.iter().map(|a| word(a)).collect(),
        redirects: Vec::new(),
        background: false,
    }
}

fn single(command: Command) -> Ast {
    Ast::Statement(Statement::Command(command))
}

fn spawn(action: Action) -> SpawnRequest {
    match action {
        Action::Spawn(request) => request,
        other => panic!("expected a spawn, got {:?}", other),
    }
}

fn done(action: Action) -> Result<(), Error> {
    match action {
        Action::Done(result) => result,
        other => panic!("expected the end, got {:?}", other),
    }
}

fn exited(code: i32) -> WaitOutcome {
    WaitOutcome::Exited(ExitStatus { code: Some(code) })
}

#[test]
fn a_single_command_is_spawned_with_inherited_streams_and_waited_for() {
    let ast = single(command("echo", &["hello"]));
    let mut task = Evaluation::new(&ast);
    let mut state = State::new();
    let mut vars = ShVars::new();
    vars.set("HOME", "/home/me");

    let request = spawn(eval(&mut task, &mut state, &mut vars, Event::Begin));
    assert_eq!(request.program, "echo");
    assert_eq!(request.args, vec!["hello"]);
    assert_eq!(request.stdin, Stdio::Inherit);
    assert_eq!(request.stdout, Stdio::Inherit);
    assert_eq!(request.stderr, Stdio::Inherit);
    assert_eq!(request.current_dir, "/");
    assert_eq!(request.background, false);
    assert_eq!(request.redirects, vec![]);
    assert_eq!(request.envs.get("HOME").unwrap(), "/home/me");
    assert_eq!(request.envs.len(), 1);

    let wait = eval(&mut task, &mut state, &mut vars, Event::Spawned { pid: 77, stdout: None });
    match wait {
        Action::Wait(requests) => {
            assert_eq!(requests, vec![WaitRequest { pid: 77, mode: WaitMode::Block }])
        }
        other => panic!("expected a wait, got {:?}", other),
    }
    assert_eq!(state.handler.len(), 1);
    let statuses = state.handler.entries();
    assert_eq!(statuses, vec![Process { pid: 77, is_background: false }]);

    let end = eval(&mut task, &mut state, &mut vars, Event::Waited(vec![exited(0)]));
    assert!(done(end).is_ok());
    assert!(state.handler.is_empty());
    assert!(task.is_finished());
    assert!(done(eval(&mut task, &mut state, &mut vars, Event::Begin)).is_ok());
}

#[test]
fn a_pipeline_hands_the_output_of_a_stage_to_the_next() {
    let ast = Parser::new("echo hello | cat -b").parse().unwrap();
    let mut task = Evaluation::new(&ast);
    let mut state = State::new();
    let mut vars = ShVars::new();

    let first = spawn(eval(&mut task, &mut state, &mut vars, Event::Begin));
    assert_eq!(first.program, "echo");
    assert_eq!(first.args, vec!["hello"]);
    assert_eq!(first.stdin, Stdio::Inherit);
    assert_eq!(first.stdout, Stdio::Piped);
    assert_eq!(state.pipe.state(), PipeState::Sendable);

    let second = spawn(eval(
        &mut task,
        &mut state,
        &mut vars,
        Event::Spawned { pid: 100, stdout: Some(5) },
    ));
    assert_eq!(second.program, "cat");
    assert_eq!(second.args, vec!["-b"]);
    assert_eq!(second.stdin, Stdio::FromFd(5));
    assert_eq!(second.stdout, Stdio::Inherit);
    assert_eq!(state.pipe.state(), PipeState::Sendable);
    assert_eq!(state.pipe.fd(), None);

    let wait = eval(&mut task, &mut state, &mut vars, Event::Spawned { pid: 101, stdout: None });
    assert_eq!(state.pipe.state(), PipeState::Closed);
    match wait {
        Action::Wait(requests) => assert_eq!(
            requests,
            vec![
                WaitRequest { pid: 100, mode: WaitMode::Block },
                WaitRequest { pid: 101, mode: WaitMode::Block },
            ]
        ),
        other => panic!("expected a wait, got {:?}", other),
    }
    let end = eval(&mut task, &mut state, &mut vars, Event::Waited(vec![exited(0), exited(0)]));
    assert!(done(end).is_ok());
    assert!(state.handler.is_empty());
}

#[test]
fn a_pipeline_of_four_makes_three_handoffs() {
    let ast = Parser::new("a | b | c | d").parse().unwrap();
    let mut task = Evaluation::new(&ast);
    let mut state = State::new();
    let mut vars = ShVars::new();
    let mut event = Event::Begin;
    let mut handoffs = 0;
    for stage in 0..4 {
        let request = spawn(eval(&mut task, &mut state, &mut vars, event));
        if stage == 0 {
            assert_eq!(request.stdin, Stdio::Inherit);
        } else {
            assert_eq!(request.stdin, Stdio::FromFd(10 + stage - 1));
            handoffs += 1;
        }
        if stage == 3 {
            assert_eq!(request.stdout, Stdio::Inherit);
            event = Event::Spawned { pid: 200 + stage as u32, stdout: None };
        } else {
            assert_eq!(request.stdout, Stdio::Piped);
            event = Event::Spawned { pid: 200 + stage as u32, stdout: Some(10 + stage) };
        }
    }
    assert_eq!(handoffs, 3);
    match eval(&mut task, &mut state, &mut vars, event) {
        Action::Wait(requests) => assert_eq!(requests.len(), 4),
        other => panic!("expected a wait, got {:?}", other),
    }
}

#[test]
fn a_variable_set_earlier_in_the_line_is_seen() {
    let ast = Parser::new("$VAR = x; echo $VAR").parse().unwrap();
    let mut task = Evaluation::new(&ast);
    let mut state = State::new();
    let mut vars = ShVars::new();
    let request = spawn(eval(&mut task, &mut state, &mut vars, Event::Begin));
    assert_eq!(request.program, "echo");
    assert_eq!(request.args, vec!["x"]);
    assert_eq!(vars.get("VAR").unwrap(), "x");
    assert_eq!(request.envs.get("VAR").unwrap(), "x");
}

#[test]
fn a_variable_that_is_not_set_is_the_empty_string() {
    let ast = Parser::new("echo $NOPE 12").parse().unwrap();
    let mut task = Evaluation::new(&ast);
    let mut state = State::new();
    let mut vars = ShVars::new();
    let request = spawn(eval(&mut task, &mut state, &mut vars, Event::Begin));
    assert_eq!(request.args, vec!["", "12"]);
}

#[test]
fn a_redirect_becomes_a_remap_of_the_child() {
    let ast = Parser::new("echo hi > out.txt @2 > @1 < 7").parse().unwrap();
    let mut task = Evaluation::new(&ast);
    let mut state = State::new();
    let mut vars = ShVars::new();
    *state.current_dir_mut() = "/tmp".to_string();
    let request = spawn(eval(&mut task, &mut state, &mut vars, Event::Begin));
    assert_eq!(request.program, "echo");
    assert_eq!(request.args, vec!["hi"]);
    assert_eq!(request.current_dir, "/tmp");
    assert_eq!(
        request.redirects,
        vec![
            Remap { source: Source::File("out.txt".to_string()), target: 1 },
            Remap { source: Source::Fd(1), target: 2 },
            Remap { source: Source::File("7".to_string()), target: 0 },
        ]
    );
}

#[test]
fn a_redirect_from_a_variable_is_an_engine_error() {
    let mut echo = command("echo", &[]);
    echo.redirects.push(Redirect {
        left: Expr::FD(1),
        right: Expr::Ident("FILE".to_string()),
        operator: RedirectOperator::Gt,
    });
    let ast = single(echo);
    let mut task = Evaluation::new(&ast);
    let mut state = State::new();
    let mut vars = ShVars::new();
    let err = done(eval(&mut task, &mut state, &mut vars, Event::Begin)).unwrap_err();
    assert_eq!(*err.kind(), ErrorKind::EngineError);
    assert!(task.is_finished());
}

#[test]
fn a_background_command_is_only_polled() {
    let ast = Parser::new("sleep 5 &").parse().unwrap();
    let mut task = Evaluation::new(&ast);
    let mut state = State::new();
    let mut vars = ShVars::new();
    let request = spawn(eval(&mut task, &mut state, &mut vars, Event::Begin));
    assert_eq!(request.program, "sleep");
    assert_eq!(request.args, vec!["5"]);
    assert_eq!(request.background, true);
    let wait = eval(&mut task, &mut state, &mut vars, Event::Spawned { pid: 9, stdout: None });
    assert_eq!(state.handler.get(9), Some(Process { pid: 9, is_background: true }));
    match wait {
        Action::Wait(requests) => {
            assert_eq!(requests, vec![WaitRequest { pid: 9, mode: WaitMode::Poll }])
        }
        other => panic!("expected a wait, got {:?}", other),
    }
    let end = eval(&mut task, &mut state, &mut vars, Event::Waited(vec![WaitOutcome::Running]));
    assert!(done(end).is_ok());
    assert_eq!(state.handler.len(), 1);

    // The next line polls the child again, together with its own.
    let ast = Parser::new("true").parse().unwrap();
    let mut task = Evaluation::new(&ast);
    spawn(eval(&mut task, &mut state, &mut vars, Event::Begin));
    match eval(&mut task, &mut state, &mut vars, Event::Spawned { pid: 10, stdout: None }) {
        Action::Wait(requests) => assert_eq!(
            requests,
            vec![
                WaitRequest { pid: 9, mode: WaitMode::Poll },
                WaitRequest { pid: 10, mode: WaitMode::Block },
            ]
        ),
        other => panic!("expected a wait, got {:?}", other),
    }
    let end = eval(&mut task, &mut state, &mut vars, Event::Waited(vec![exited(0), exited(0)]));
    assert!(done(end).is_ok());
    assert!(state.handler.is_empty());
}

#[test]
fn a_program_that_is_not_found_records_nothing_and_ends_the_line() {
    let ast = Parser::new("no-such-program | cat; echo after").parse().unwrap();
    let mut task = Evaluation::new(&ast);
    let mut state = State::new();
    let mut vars = ShVars::new();
    let request = spawn(eval(&mut task, &mut state, &mut vars, Event::Begin));
    assert_eq!(request.program, "no-such-program");
    let err = done(eval(
        &mut task,
        &mut state,
        &mut vars,
        Event::SpawnFailed { not_found: true },
    ))
    .unwrap_err();
    assert_eq!(*err.kind(), ErrorKind::NotFound);
    assert_eq!(err.message(), "Command not found");
    assert!(state.handler.is_empty());
    assert!(task.is_finished());

    // The session survives: the next line runs.
    let ast = Parser::new("echo again").parse().unwrap();
    let mut task = Evaluation::new(&ast);
    let request = spawn(eval(&mut task, &mut state, &mut vars, Event::Begin));
    assert_eq!(request.program, "echo");
}

#[test]
fn any_other_failure_to_start_is_an_engine_error() {
    let ast = single(command("x", &[]));
    let mut task = Evaluation::new(&ast);
    let mut state = State::new();
    let mut vars = ShVars::new();
    spawn(eval(&mut task, &mut state, &mut vars, Event::Begin));
    let err = done(eval(
        &mut task,
        &mut state,
        &mut vars,
        Event::SpawnFailed { not_found: false },
    ))
    .unwrap_err();
    assert_eq!(*err.kind(), ErrorKind::EngineError);
    assert_eq!(err.message(), "Command execution failed");
}

#[test]
fn builtins_are_answered_without_a_spawn() {
    let mut state = State::new();
    let mut vars = ShVars::new();
    vars.set("A", "1");
    vars.set("B", "2");

    let ast = Parser::new("cd /tmp").parse().unwrap();
    let mut task = Evaluation::new(&ast);
    match eval(&mut task, &mut state, &mut vars, Event::Begin) {
        Action::ChangeDir { current, target } => {
            assert_eq!(current, "");
            assert_eq!(target, "/tmp");
        }
        other => panic!("expected a change of directory, got {:?}", other),
    }
    let end = eval(&mut task, &mut state, &mut vars, Event::DirChanged("/tmp".to_string()));
    assert!(done(end).is_ok());
    assert_eq!(state.current_dir(), "/tmp");

    let ast = Parser::new("cd").parse().unwrap();
    let mut task = Evaluation::new(&ast);
    match eval(&mut task, &mut state, &mut vars, Event::Begin) {
        Action::ChangeDir { current, target } => {
            assert_eq!(current, "/tmp");
            assert_eq!(target, "/");
        }
        other => panic!("expected a change of directory, got {:?}", other),
    }
    let failure = Error::new(ErrorKind::InvalidInput, "invalid input path");
    let err = done(eval(&mut task, &mut state, &mut vars, Event::Failed(failure))).unwrap_err();
    assert_eq!(*err.kind(), ErrorKind::InvalidInput);
    assert_eq!(state.current_dir(), "/tmp");

    let ast = Parser::new("exit 3").parse().unwrap();
    let mut task = Evaluation::new(&ast);
    assert!(matches!(eval(&mut task, &mut state, &mut vars, Event::Begin), Action::Exit(3)));
    let ast = Parser::new("exit x").parse().unwrap();
    let mut task = Evaluation::new(&ast);
    assert!(matches!(eval(&mut task, &mut state, &mut vars, Event::Begin), Action::Exit(0)));
    let ast = Parser::new("abort").parse().unwrap();
    let mut task = Evaluation::new(&ast);
    assert!(matches!(eval(&mut task, &mut state, &mut vars, Event::Begin), Action::Abort));

    let ast = Parser::new("printenv B").parse().unwrap();
    let mut task = Evaluation::new(&ast);
    match eval(&mut task, &mut state, &mut vars, Event::Begin) {
        Action::Print(shown) => {
            assert_eq!(shown.len(), 1);
            assert_eq!(shown.get("B").unwrap(), "2");
        }
        other => panic!("expected a print, got {:?}", other),
    }
    assert!(done(eval(&mut task, &mut state, &mut vars, Event::Done)).is_ok());
    let ast = Parser::new("printenv").parse().unwrap();
    let mut task = Evaluation::new(&ast);
    match eval(&mut task, &mut state, &mut vars, Event::Begin) {
        Action::Print(shown) => assert_eq!(shown.len(), 2),
        other => panic!("expected a print, got {:?}", other),
    }
}

#[test]
fn a_descriptor_as_program_or_argument_is_an_engine_error() {
    let mut state = State::new();
    let mut vars = ShVars::new();
    let mut bad = command("echo", &[]);
    bad.args.push(Expr::FD(1));
    let ast = single(bad);
    let mut task = Evaluation::new(&ast);
    let err = done(eval(&mut task, &mut state, &mut vars, Event::Begin)).unwrap_err();
    assert_eq!(*err.kind(), ErrorKind::EngineError);
    assert_eq!(err.message(), "Extract command args error: Invalid abstract syntax tree");

    let mut bad = command("echo", &[]);
    bad.expr = Expr::FD(1);
    let ast = single(bad);
    let mut task = Evaluation::new(&ast);
    let err = done(eval(&mut task, &mut state, &mut vars, Event::Begin)).unwrap_err();
    assert_eq!(err.message(), "Extract command name error: Invalid abstract syntax tree");

    let ast = Ast::Statement(Statement::Assign(Assign { ident: word("x"), expr: word("y") }));
    let mut task = Evaluation::new(&ast);
    let err = done(eval(&mut task, &mut state, &mut vars, Event::Begin)).unwrap_err();
    assert_eq!(err.message(), "Extract assign error: Invalid abstract syntax tree");
}

#[test]
fn an_event_that_answers_nothing_ends_the_evaluation() {
    let ast = single(command("x", &[]));
    let mut task = Evaluation::new(&ast);
    let mut state = State::new();
    let mut vars = ShVars::new();
    let err = done(eval(&mut task, &mut state, &mut vars, Event::Done)).unwrap_err();
    assert_eq!(*err.kind(), ErrorKind::EngineError);
    assert_eq!(err.message(), "Unexpected event");
    assert!(task.is_finished());
}

#[test]
fn a_descriptor_left_in_the_cell_is_closed_at_the_end_of_the_pipeline() {
    let mut pipe = Pipe::new();
    pipe.push_back(command("a", &[]));
    let ast = Ast::Pipe(pipe);
    let mut task = Evaluation::new(&ast);
    let mut state = State::new();
    let mut vars = ShVars::new();
    let request = spawn(eval(&mut task, &mut state, &mut vars, Event::Begin));
    assert_eq!(request.stdout, Stdio::Inherit);
    // The caller answers with a descriptor although none was asked for.
    match eval(&mut task, &mut state, &mut vars, Event::Spawned { pid: 1, stdout: Some(8) }) {
        Action::Close(fd) => assert_eq!(fd, 8),
        other => panic!("expected a close, got {:?}", other),
    }
    assert_eq!(state.pipe.state(), PipeState::Closed);
    match eval(&mut task, &mut state, &mut vars, Event::Done) {
        Action::Wait(requests) => assert_eq!(requests.len(), 1),
        other => panic!("expected a wait, got {:?}", other),
    }
}

#[test]
fn an_empty_tree_is_done_at_once() {
    let ast = Ast::new();
    let mut task = Evaluation::new(&ast);
    let mut state = State::new();
    let mut vars = ShVars::new();
    assert!(done(eval(&mut task, &mut state, &mut vars, Event::Begin)).is_ok());
    let ast = Ast::Pipe(Pipe::new());
    let mut task = Evaluation::new(&ast);
    assert!(done(eval(&mut task, &mut state, &mut vars, Event::Begin)).is_ok());
    assert_eq!(state.pipe.state(), PipeState::Closed);
}

#[test]
fn wait_returns_one_status_for_the_single_command() {
    let ast = Parser::new("echo hello").parse().unwrap();
    let mut task = Evaluation::new(&ast);
    let mut state = State::new();
    let mut vars = ShVars::new();
    let request = spawn(eval(&mut task, &mut state, &mut vars, Event::Begin));
    assert_eq!(request.program, "echo");
    assert_eq!(request.args, vec!["hello"]);
    state.handler_mut().push(31, request.background);
    let statuses = state.handler_mut().wait(&vec![exited(0)]);
    assert_eq!(statuses.len(), 1);
    assert_eq!(statuses[0].0, 31);
    assert!(statuses[0].1.success());
    assert!(state.handler().is_empty());
}

#[test]
fn what_a_failed_pipeline_left_behind_is_cleaned_up_by_the_next_command() {
    let mut bad = command("second", &[]);
    bad.expr = Expr::FD(4);
    let ast = Ast::Pipe(Pipe::from_commands(vec![command("first", &[]), bad]));
    let mut task = Evaluation::new(&ast);
    let mut state = State::new();
    let mut vars = ShVars::new();
    let first = spawn(eval(&mut task, &mut state, &mut vars, Event::Begin));
    assert_eq!(first.stdout, Stdio::Piped);
    let err = done(eval(
        &mut task,
        &mut state,
        &mut vars,
        Event::Spawned { pid: 50, stdout: Some(6) },
    ))
    .unwrap_err();
    assert_eq!(*err.kind(), ErrorKind::EngineError);
    assert_eq!(state.pipe.fd(), Some(6));
    assert_eq!(state.handler.len(), 1);

    let ast = Parser::new("echo next").parse().unwrap();
    let mut task = Evaluation::new(&ast);
    match eval(&mut task, &mut state, &mut vars, Event::Begin) {
        Action::Close(fd) => assert_eq!(fd, 6),
        other => panic!("expected a close, got {:?}", other),
    }
    let request = spawn(eval(&mut task, &mut state, &mut vars, Event::Done));
    assert_eq!(request.program, "echo");
    assert_eq!(request.stdin, Stdio::Inherit);
    assert_eq!(request.stdout, Stdio::Inherit);
    match eval(&mut task, &mut state, &mut vars, Event::Spawned { pid: 51, stdout: None }) {
        Action::Wait(requests) => assert_eq!(
            requests,
            vec![
                WaitRequest { pid: 50, mode: WaitMode::Block },
                WaitRequest { pid: 51, mode: WaitMode::Block },
            ]
        ),
        other => panic!("expected a wait, got {:?}", other),
    }
}

#[test]
fn a_failure_to_close_ends_the_evaluation() {
    let mut state = State::new();
    let mut vars = ShVars::new();
    *state.pipe_mut() = fsh::pipe::Pipe::open();
    state.pipe_mut().send(12).unwrap();
    let ast = Parser::new("echo x").parse().unwrap();
    let mut task = Evaluation::new(&ast);
    assert!(matches!(eval(&mut task, &mut state, &mut vars, Event::Begin), Action::Close(12)));
    let failure = Error::new(ErrorKind::BrokenPipe, "Pipe is broken");
    let err = done(eval(&mut task, &mut state, &mut vars, Event::Failed(failure))).unwrap_err();
    assert_eq!(*err.kind(), ErrorKind::BrokenPipe);
    assert!(task.is_finished());
}
