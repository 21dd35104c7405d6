use fsh::error::ErrorKind;
use fsh::lexer::Lexer;
use fsh::token::Token;

#[test]
fn test_read_string() {
    // string
    assert_eq!(Lexer::new("hello").read_string(), Ok("hello".to_string()));

    // string with whitespace
    assert_eq!(
        Lexer::new("hello world").read_string(),
        Ok("hello".to_string())
    );

    // string with whitespace, first character is whitespace
    assert_eq!(Lexer::new(" hello").read_string(), Ok(String::default()));

    // string with whitespace, last character is whitespace
    assert_eq!(Lexer::new("hello ").read_string(), Ok("hello".to_string()));

    // string with whitespace, first and last character is whitespace
    assert_eq!(Lexer::new(" hello ").read_string(), Ok(String::default()));

    // string with whitespace and double quote
    assert_eq!(
        Lexer::new("\"hello world\"").read_string(),
        Ok("hello world".to_string())
    );

    // string with double quote and number
    assert_eq!(Lexer::new("\"123\"").read_string(), Ok("123".to_string()));
}

#[test]
fn test_read_string_error() {
    // string with number
    assert_eq!(Lexer::new("123").read_string(), Err(()));
}

#[test]
fn test_read_ident() {
    // ident
    assert_eq!(Lexer::new("$hello").read_ident(), Ok("hello".to_string()));

    // ident with whitespace
    assert_eq!(
        Lexer::new("$hello world").read_ident(),
        Ok("hello".to_string())
    );

    // ident with whitespace, last character is whitespace
    assert_eq!(Lexer::new("$hello ").read_ident(), Ok("hello".to_string()));
}

#[test]
fn test_read_ident_error() {
    // ident with string
    assert_eq!(Lexer::new("hello").read_ident(), Err(()));

    // ident with whitespace, first character is whitespace
    assert_eq!(Lexer::new(" $hello").read_ident(), Err(()));

    // ident with whitespace, first and last character is whitespace
    assert_eq!(Lexer::new(" $hello ").read_ident(), Err(()));
}

#[test]
fn test_read_number() {
    // number
    assert_eq!(Lexer::new("123").read_number(), Ok(123));

    // number with whitespace, last character is whitespace
    assert_eq!(Lexer::new("123 ").read_number(), Ok(123));
}

#[test]
fn test_read_number_error() {
    // number with string
    assert_eq!(Lexer::new("hello").read_number(), Err(()));

    // number with whitespace, first character is whitespace
    assert_eq!(Lexer::new(" 123").read_number(), Err(()));

    // number with whitespace, first and last character is whitespace
    assert_eq!(Lexer::new(" 123 ").read_number(), Err(()));
}

#[test]
fn test_read_fd() {
    // fd
    assert_eq!(Lexer::new("@123").read_fd(), Ok(123));

    // fd with whitespace
    assert_eq!(Lexer::new("@123 ").read_fd(), Ok(123));
}

#[test]
fn test_read_fd_error() {
    // fd with string
    assert_eq!(Lexer::new("@hello").read_fd(), Err(()));

    // fd with whitespace, first character is whitespace
    assert_eq!(Lexer::new(" @123").read_fd(), Err(()));

    // fd with whitespace, first and last character is whitespace
    assert_eq!(Lexer::new(" @123 ").read_fd(), Err(()));
}

#[test]
fn test_read_token() {
    // semicolon
    assert_eq!(Lexer::new(";").read_token(), Ok(Token::Semicolon));

    // pipe
    assert_eq!(Lexer::new("|").read_token(), Ok(Token::Pipe));

    // equal
    assert_eq!(Lexer::new("=").read_token(), Ok(Token::Assign));

    // gt
    assert_eq!(Lexer::new(">").read_token(), Ok(Token::Gt));

    // lt
    assert_eq!(Lexer::new("<").read_token(), Ok(Token::Lt));

    // ampersand
    assert_eq!(Lexer::new("&").read_token(), Ok(Token::Ampersand));

    // ident
    assert_eq!(
        Lexer::new("$hello").read_token(),
        Ok(Token::Ident("hello".to_string()))
    );

    // fd
    assert_eq!(Lexer::new("@123").read_token(), Ok(Token::FD(123)));

    // number
    assert_eq!(Lexer::new("123").read_token(), Ok(Token::Number(123)));

    // string
    assert_eq!(
        Lexer::new("hello").read_token(),
        Ok(Token::String("hello".to_string()))
    );

    // string with whitespace
    assert_eq!(
        Lexer::new("hello world").read_token(),
        Ok(Token::String("hello".to_string()))
    );

    // string with whitespace, first character is whitespace
    assert_eq!(
        Lexer::new(" hello").read_token(),
        Ok(Token::String("hello".to_string()))
    );

    // string with whitespace, last character is whitespace
    assert_eq!(
        Lexer::new("hello ").read_token(),
        Ok(Token::String("hello".to_string()))
    );

    // string with whitespace, first and last character is whitespace
    assert_eq!(
        Lexer::new(" hello ").read_token(),
        Ok(Token::String("hello".to_string()))
    );

    // input is empty
    assert_eq!(Lexer::new("").read_token(), Ok(Token::EOF));

    // input is whitespace
    assert_eq!(Lexer::new(" ").read_token(), Ok(Token::EOF));
}

#[test]
fn test_read_token_mixed() {
    let mut lexer = Lexer::new("| = > < ; $ & abcd $abcd 1234 @1");
    for token in vec![
        Token::Pipe,
        Token::Assign,
        Token::Gt,
        Token::Lt,
        Token::Semicolon,
        Token::Dollar,
        Token::Ampersand,
        Token::String("abcd".to_string()),
        Token::Ident("abcd".to_string()),
        Token::Number(1234),
        Token::FD(1),
        Token::EOF,
    ] {
        assert_eq!(lexer.read_token(), Ok(token));
    }
}

#[test]
fn test_read_token_line() {
    // input line
    let mut lexer = Lexer::new("ls;ls -a | cat -b; ping -c 5 127.0.0.1:8080 > test.txt; $A");

    for token in vec![
        Token::String("ls".to_string()),
        Token::Semicolon,
        Token::String("ls".to_string()),
        Token::String("-a".to_string()),
        Token::Pipe,
        Token::String("cat".to_string()),
        Token::String("-b".to_string()),
        Token::Semicolon,
        Token::String("ping".to_string()),
        Token::String("-c".to_string()),
        Token::Number(5),
        Token::String("127.0.0.1:8080".to_string()),
        Token::Gt,
        Token::String("test.txt".to_string()),
        Token::Semicolon,
        Token::Ident("A".to_string()),
        Token::EOF,
    ] {
        assert_eq!(lexer.read_token(), Ok(token));
    }
}

#[test]
fn test_iter() {
    let mut lexer = Lexer::new("ls;ls -a | cat -b; ping -c 5 127.0.0.1:8080 > test.txt; $A");

    for token in vec![
        Token::String("ls".to_string()),
        Token::Semicolon,
        Token::String("ls".to_string()),
        Token::String("-a".to_string()),
        Token::Pipe,
        Token::String("cat".to_string()),
        Token::String("-b".to_string()),
        Token::Semicolon,
        Token::String("ping".to_string()),
        Token::String("-c".to_string()),
        Token::Number(5),
        Token::String("127.0.0.1:8080".to_string()),
        Token::Gt,
        Token::String("test.txt".to_string()),
        Token::Semicolon,
        Token::Ident("A".to_string()),
        Token::EOF,
    ] {
        if let Some(t) = lexer.next() {
            assert_eq!(t, token);
        }
    }

    // After EOF is None
    assert_eq!(lexer.next(), None);

    // After EOF is None forever
    for _ in 0..100 {
        assert_eq!(lexer.next(), None);
    }
}

#[test]
fn test_tokenize() {
    let mut lexer = Lexer::new("ls;ls -a | cat -b; ping -c 5 127.0.0.1:8080 > test.txt; $A");

    let tokens = lexer.tokenize().unwrap();

    assert_eq!(
        tokens,
        vec![
            Token::String("ls".to_string()),
            Token::Semicolon,
            Token::String("ls".to_string()),
            Token::String("-a".to_string()),
            Token::Pipe,
            Token::String("cat".to_string()),
            Token::String("-b".to_string()),
            Token::Semicolon,
            Token::String("ping".to_string()),
            Token::String("-c".to_string()),
            Token::Number(5),
            Token::String("127.0.0.1:8080".to_string()),
            Token::Gt,
            Token::String("test.txt".to_string()),
            Token::Semicolon,
            Token::Ident("A".to_string()),
            Token::EOF,
        ]
    );
}

#[test]
fn lexer_reads_symbols_next_to_words() {
    let mut lexer = Lexer::new("a|b>c;d");
    assert_eq!(
        lexer.tokenize().unwrap(),
        vec![
            Token::String("a".to_string()),
            Token::Pipe,
            Token::String("b".to_string()),
            Token::Gt,
            Token::String("c".to_string()),
            Token::Semicolon,
            Token::String("d".to_string()),
            Token::EOF,
        ]
    );
    assert_eq!(lexer.tokenize().unwrap(), vec![]);
}

#[test]
fn lexer_reads_line_feeds_as_semicolons_and_quotes_as_one_word() {
    let mut lexer = Lexer::new("echo \"a b\"\nls");
    assert_eq!(
        lexer.tokenize().unwrap(),
        vec![
            Token::String("echo".to_string()),
            Token::String("a b".to_string()),
            Token::Semicolon,
            Token::String("ls".to_string()),
            Token::EOF,
        ]
    );
}

#[test]
fn lexer_refuses_a_bare_signed_number_and_a_lone_quote() {
    let err = Lexer::new("ls -5").tokenize().unwrap_err();
    assert_eq!(*err.kind(), ErrorKind::LexerError);
    assert_eq!(err.message(), "Invalid token");
    assert_eq!(*Lexer::new("12;").tokenize().unwrap_err().kind(), ErrorKind::LexerError);
    assert_eq!(*Lexer::new("\"").tokenize().unwrap_err().kind(), ErrorKind::LexerError);
    assert_eq!(Lexer::new("").read_string(), Err(()));
    assert_eq!(Lexer::new("\"abc").read_string(), Ok("ab".to_string()));
}

#[test]
fn lexer_reads_a_lone_dollar_and_a_lone_at() {
    let mut lexer = Lexer::new("$ @ @x @7");
    assert_eq!(
        lexer.tokenize().unwrap(),
        vec![
            Token::Dollar,
            Token::String("@".to_string()),
            Token::String("@".to_string()),
            Token::String("x".to_string()),
            Token::FD(7),
            Token::EOF,
        ]
    );
    assert_eq!(Lexer::new("@-3").read_fd(), Ok(-3));
    assert_eq!(Lexer::new("+12").read_number(), Ok(12));
    assert_eq!(Lexer::new("99999999999999999999999999").read_number(), Err(()));
}
