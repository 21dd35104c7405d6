use fsh::pipe::Pipe;
use fsh::state::State;

#[test]
fn a_new_state_is_empty() {
    let mut state = State::new();
    assert!(state.handler().is_empty());
    assert!(!state.pipe().is_sendable());
    assert_eq!(state.current_dir(), "");
    state.handler_mut().push(1, false);
    assert_eq!(state.handler().len(), 1);
    *state.pipe_mut() = Pipe::open();
    assert!(state.pipe().is_sendable());
    state.current_dir_mut().push_str("/tmp");
    assert_eq!(state.current_dir(), "/tmp");
}
