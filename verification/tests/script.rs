use fsh::error::ErrorKind;
use fsh::script::{Lexer, Run};
use fsh::token::Token;

fn word(s: &str) -> Token {
    Token::String(s.to_string())
}

#[test]
fn a_script_is_cleaned_and_read() {
    let mut lexer =
        Lexer::new("echo 'a b' \"c d\" # comment\n\nls -a | cat; $x1 = 5 > out < @2 &");
    assert_eq!(
        lexer.tokenize().unwrap(),
        vec![
            word("echo"),
            word("a b"),
            word("c d"),
            Token::Semicolon,
            word("ls"),
            word("-a"),
            Token::Pipe,
            word("cat"),
            Token::Semicolon,
            Token::Ident("x1".to_string()),
            Token::Assign,
            Token::Number(5),
            Token::Gt,
            word("out"),
            Token::Lt,
            Token::FD(2),
            Token::Ampersand,
            Token::Semicolon,
            Token::EOF,
        ]
    );
    assert_eq!(lexer.tokenize().unwrap(), vec![Token::EOF]);
}

#[test]
fn semicolons_that_follow_each_other_count_as_one() {
    assert_eq!(
        Lexer::new("a;;\n;b").tokenize().unwrap(),
        vec![word("a"), Token::Semicolon, word("b"), Token::Semicolon, Token::EOF]
    );
    assert_eq!(Lexer::new("").tokenize().unwrap(), vec![Token::EOF]);
    assert_eq!(Lexer::new("  \n \n").tokenize().unwrap(), vec![Token::EOF]);
}

#[test]
fn a_number_that_is_none_is_read_as_a_word() {
    assert_eq!(
        Lexer::new("12ab 7").tokenize().unwrap(),
        vec![word("12ab"), Token::Number(7), Token::Semicolon, Token::EOF]
    );
    assert_eq!(Lexer::new("12").read_number(), Ok(Some(12)));
    assert_eq!(Lexer::new("x").read_number(), Err("invalid number".to_string()));
    assert_eq!(Lexer::new("").read_number(), Ok(None));
    assert_eq!(
        Lexer::new("99999999999999999999999").read_number(),
        Err("invalid number".to_string())
    );
}

#[test]
fn a_lone_sign_is_a_word_before_white_space_and_an_error_otherwise() {
    assert_eq!(
        Lexer::new("$ @ x").tokenize().unwrap(),
        vec![word("$"), word("@"), word("x"), Token::Semicolon, Token::EOF]
    );
    let err = Lexer::new("@x").tokenize().unwrap_err();
    assert_eq!(*err.kind(), ErrorKind::LexerError);
    assert_eq!(err.message(), "invalid file descriptor");
    let err = Lexer::new("$1a").tokenize().unwrap_err();
    assert_eq!(*err.kind(), ErrorKind::LexerError);
    assert_eq!(err.message(), "invalid identifier");
    assert_eq!(Lexer::new("$a_").read_ident(), Err("invalid identifier".to_string()));
    assert_eq!(Lexer::new("$a_1").read_ident(), Ok(Some("a_1".to_string())));
    assert_eq!(Lexer::new("a").read_ident(), Err("invalid identifier".to_string()));
    assert_eq!(Lexer::new("@12").read_fd(), Ok(Some(12)));
    assert_eq!(Lexer::new("12").read_fd(), Err("invalid file descriptor".to_string()));
}

#[test]
fn a_quote_has_to_be_closed() {
    let err = Lexer::new("echo \"abc").tokenize().unwrap_err();
    assert_eq!(*err.kind(), ErrorKind::LexerError);
    assert_eq!(err.message(), "double quote error");
    let err = Lexer::new("'abc").tokenize().unwrap_err();
    assert_eq!(err.message(), "single quote error");
    assert_eq!(Lexer::new("''").read_string(), Ok(Some("".to_string())));
    assert_eq!(Lexer::new("\"a'b\"c").read_string(), Ok(Some("a'b".to_string())));
    assert_eq!(Lexer::new("=").read_string(), Ok(None));
    assert_eq!(Lexer::new("").read_string(), Ok(None));
}

#[test]
fn a_backslash_ends_the_reading() {
    assert_eq!(Lexer::new("a \\ b").tokenize().unwrap(), vec![word("a"), Token::EOF]);
}

#[test]
fn the_small_steps_of_the_lexer() {
    let mut lexer = Lexer::new("ab cd");
    assert_eq!(lexer.current_char(), Some('a'));
    assert_eq!(lexer.peek_char(), Some('b'));
    lexer.advance();
    assert_eq!(lexer.current_char(), Some('b'));
    let (run, next) = lexer.read_while(Run::Bare);
    assert_eq!(run, vec!['b']);
    assert_eq!(next, Some(' '));
    let (run, next) = lexer.read_while(Run::Double);
    assert_eq!(run, vec![' ', 'c', 'd', ';']);
    assert_eq!(next, None);
    assert_eq!(lexer.current_char(), None);
    assert_eq!(lexer.peek_char(), None);
    lexer.advance();
    assert_eq!(lexer.read().unwrap(), Token::EOF);
    assert!(Run::Single.accepts('"') && !Run::Single.accepts('\''));
    assert!(!Run::Bare.accepts('@') && !Run::Bare.accepts('\t') && Run::Bare.accepts('-'));
}

