use fsh::error::ErrorKind;
use fsh::process_handler::{
    ExitStatus, Process, ProcessHandler, WaitMode, WaitOutcome, WaitRequest,
};

fn ok() -> ExitStatus {
    ExitStatus { code: Some(0) }
}

#[test]
fn process_handler_test_process_handler() {
    let handler = ProcessHandler::new();

    assert_eq!(handler.is_empty(), true);

    assert_eq!(handler.len(), 0);
}

#[test]
fn process_handler_test_process_handler_push() {
    let mut handler = ProcessHandler::new();

    let pid = handler.push(4242, false);

    assert_eq!(handler.len(), 1);

    assert_eq!(handler.get(pid).unwrap().pid, pid);
}

#[test]
fn process_handler_test_process_handler_pop() {
    let mut handler = ProcessHandler::new();

    let pid = handler.push(4242, false);

    assert_eq!(handler.len(), 1);

    assert_eq!(handler.pop().unwrap().pid, pid);

    assert_eq!(handler.len(), 0);
}

#[test]
fn process_handler_test_process_handler_wait() {
    let mut handler = ProcessHandler::new();

    handler.push(10, false);

    handler.push(11, false);

    let requests = handler.wait_requests();
    assert_eq!(
        requests,
        vec![
            WaitRequest { pid: 10, mode: WaitMode::Block },
            WaitRequest { pid: 11, mode: WaitMode::Block },
        ]
    );

    let v = handler.wait(&vec![WaitOutcome::Exited(ok()), WaitOutcome::Exited(ok())]);

    assert_eq!(v.len(), 2);

    for (_, status) in &v {
        assert_eq!(status.success(), true);
    }
    assert_eq!(v[0].0, 10);
    assert_eq!(v[1].0, 11);
    assert!(handler.is_empty());
}

#[test]
fn wait_polls_a_background_child_and_leaves_it_while_it_runs() {
    let mut handler = ProcessHandler::new();
    handler.push(7, true);
    assert_eq!(handler.get(7), Some(Process { pid: 7, is_background: true }));
    assert_eq!(
        handler.wait_requests(),
        vec![WaitRequest { pid: 7, mode: WaitMode::Poll }]
    );
    let none = handler.wait(&vec![WaitOutcome::Running]);
    assert_eq!(none, vec![]);
    assert_eq!(handler.len(), 1);
    let failed = handler.wait(&vec![WaitOutcome::Failed]);
    assert_eq!(failed, vec![]);
    assert_eq!(handler.len(), 1);
    let missing = handler.wait(&vec![]);
    assert_eq!(missing, vec![]);
    assert_eq!(handler.len(), 1);
    let done = handler.wait(&vec![WaitOutcome::Exited(ExitStatus { code: Some(3) })]);
    assert_eq!(done, vec![(7, ExitStatus { code: Some(3) })]);
    assert!(!done[0].1.success());
    assert!(handler.is_empty());
}

#[test]
fn wait_releases_a_foreground_child_whose_wait_failed() {
    let mut handler = ProcessHandler::new_with_capacity(4);
    handler.push(1, false);
    handler.push(2, true);
    handler.push(3, false);
    let v = handler.wait(&vec![
        WaitOutcome::Failed,
        WaitOutcome::Running,
        WaitOutcome::Exited(ExitStatus { code: None }),
    ]);
    assert_eq!(v, vec![(3, ExitStatus { code: None })]);
    assert!(!v[0].1.success());
    assert_eq!(handler.entries(), vec![Process { pid: 2, is_background: true }]);
}

#[test]
fn kill_fails_only_for_a_child_that_took_no_signal() {
    let mut handler = ProcessHandler::new();
    handler.push(5, false);
    assert!(handler.contains(5));
    assert!(!handler.contains(6));
    assert!(handler.kill(5, true).is_ok());
    let err = handler.kill(5, false).unwrap_err();
    assert_eq!(*err.kind(), ErrorKind::Failure);
    assert_eq!(err.message(), "Failed to kill the process.");
    assert!(handler.kill(6, false).is_ok());
    assert_eq!(handler.len(), 1);
    assert_eq!(handler.get(6), None);
    assert_eq!(handler.pop(), Some(Process { pid: 5, is_background: false }));
    assert_eq!(handler.pop(), None);
}

#[test]
fn kill_all_fails_where_a_signal_was_not_accepted() {
    let mut handler = ProcessHandler::new();
    assert!(handler.kill_all(&vec![]).is_ok());
    handler.push(1, false);
    handler.push(2, true);
    assert!(handler.kill_all(&vec![true, true]).is_ok());
    assert!(handler.kill_all(&vec![true, true, false]).is_ok());
    let err = handler.kill_all(&vec![true, false]).unwrap_err();
    assert_eq!(*err.kind(), ErrorKind::Failure);
    assert_eq!(err.message(), "Failed to kill the process.");
    assert!(handler.kill_all(&vec![true]).is_err());
}
