use fsh::error::{Error, ErrorKind};

#[test]
fn errors_carry_their_kind_and_message() {
    let e = Error::new(ErrorKind::NotFound, "gone");
    assert_eq!(*e.kind(), ErrorKind::NotFound);
    assert_eq!(e.message(), "gone");
    assert_eq!(e.clone(), e);
    assert_eq!(*Error::dummy().kind(), ErrorKind::Dummy);
    assert_eq!(Error::dummy().message(), "");
    assert_eq!(*Error::internal().kind(), ErrorKind::Internal);
    let kinds = [
        (ErrorKind::Dummy, "Dummy", "dummy"),
        (ErrorKind::Internal, "Internal", "internal"),
        (ErrorKind::Other, "Other", "other"),
        (ErrorKind::NotFound, "NotFound", "not found"),
        (ErrorKind::PermissionDenied, "PermissionDenied", "permission denied"),
        (ErrorKind::Interrupted, "Interrupted", "interrupted"),
        (ErrorKind::Failure, "Failure", "failure"),
        (ErrorKind::LexerError, "LexerError", "lexer error"),
        (ErrorKind::SyntaxError, "SyntaxError", "syntax error"),
        (ErrorKind::EngineError, "EngineError", "engine error"),
        (ErrorKind::BrokenPipe, "BrokenPipe", "broken pipe"),
        (ErrorKind::InvalidInput, "InvalidInput", "invalid input"),
    ];
    for (kind, name, words) in kinds {
        assert_eq!(kind.as_str(), name);
        assert_eq!(kind.as_str2(), words);
        assert_eq!(kind.to_string(), name);
    }
}
