use fsh::token::Token;
use fsh::utils::{
    lines, recursion_split, remove_comment, remove_empty_line, replace_line_with_semicolon, split,
};

fn word(s: &str) -> Token {
    Token::String(s.to_string())
}

#[test]
fn utils_test_recursion_split() {
    let tokens = vec![
        Token::String("a".to_string()),
        Token::String("b".to_string()),
        Token::Semicolon,
        Token::String("c".to_string()),
        Token::String("d".to_string()),
        Token::Semicolon,
        Token::String("e".to_string()),
        Token::String("f".to_string()),
    ];

    let place = Token::Semicolon;

    let result = recursion_split(&place, &tokens);

    assert_eq!(
        result,
        vec![
            vec![
                Token::String("a".to_string()),
                Token::String("b".to_string())
            ],
            vec![
                Token::String("c".to_string()),
                Token::String("d".to_string())
            ],
            vec![
                Token::String("e".to_string()),
                Token::String("f".to_string())
            ]
        ]
    );
}

#[test]
fn test_recursion_split() {
    let tokens = vec![
        Token::String("A".to_string()),
        Token::Semicolon,
        Token::String("B".to_string()),
        Token::Semicolon,
        Token::String("C".to_string()),
    ];

    let place = &Token::Semicolon;

    let result = recursion_split(place, &tokens);

    assert_eq!(result.len(), 3);
    assert_eq!(result[0], vec![Token::String("A".to_string())]);
    assert_eq!(result[1], vec![Token::String("B".to_string())]);
    assert_eq!(result[2], vec![Token::String("C".to_string())]);
}

#[test]
fn test_recursion_split_no_place() {
    let tokens = vec![
        Token::String("a".to_string()),
        Token::String("b".to_string()),
        Token::String("c".to_string()),
        Token::String("d".to_string()),
    ];

    let place = Token::Semicolon;

    let result = recursion_split(&place, &tokens);

    assert_eq!(
        result,
        vec![vec![
            Token::String("a".to_string()),
            Token::String("b".to_string()),
            Token::String("c".to_string()),
            Token::String("d".to_string())
        ]]
    );
}

#[test]
fn utils_test_split() {
    let tokens = vec![
        Token::String("a".to_string()),
        Token::String("b".to_string()),
        Token::Semicolon,
        Token::String("c".to_string()),
        Token::String("d".to_string()),
    ];

    let place = Token::Semicolon;

    let (left, right) = split(&place, &tokens);

    assert_eq!(
        left,
        vec![
            Token::String("a".to_string()),
            Token::String("b".to_string())
        ]
    );

    assert_eq!(
        right,
        vec![
            Token::String("c".to_string()),
            Token::String("d".to_string())
        ]
    );
}

#[test]
fn test_split() {
    let tokens = vec![
        Token::String("A".to_string()),
        Token::Semicolon,
        Token::String("B".to_string()),
    ];

    let place = &Token::Semicolon;

    let (left, right) = split(place, &tokens);

    assert_eq!(left, vec![Token::String("A".to_string())]);
    assert_eq!(right, vec![Token::String("B".to_string())]);
}

#[test]
fn test_split_no_place() {
    let tokens = vec![
        Token::String("a".to_string()),
        Token::String("b".to_string()),
        Token::String("c".to_string()),
        Token::String("d".to_string()),
    ];

    let place = Token::Semicolon;

    let (left, right) = split(&place, &tokens);

    assert_eq!(
        left,
        vec![
            Token::String("a".to_string()),
            Token::String("b".to_string()),
            Token::String("c".to_string()),
            Token::String("d".to_string())
        ]
    );

    assert_eq!(right, Vec::default());
}

#[test]
fn test_split_no_place_left_and_none_right() {
    let tokens = vec![
        Token::String("a".to_string()),
        Token::String("b".to_string()),
        Token::String("c".to_string()),
        Token::String("d".to_string()),
    ];

    let place = Token::Semicolon;

    let (left, right) = split(&place, &tokens);

    assert_eq!(
        left,
        vec![
            Token::String("a".to_string()),
            Token::String("b".to_string()),
            Token::String("c".to_string()),
            Token::String("d".to_string())
        ]
    );

    assert_eq!(right, Vec::default());
}

#[test]
fn test_split_not_found() {
    let tokens = vec![
        Token::String("A".to_string()),
        Token::String("B".to_string()),
    ];

    let place = &Token::Semicolon;

    let (left, right) = split(place, &tokens);

    assert_eq!(
        left,
        vec![
            Token::String("A".to_string()),
            Token::String("B".to_string())
        ]
    );
    assert_eq!(right, Vec::default());
}

#[test]
fn test_replace_line_with_semicolon() {
    let input = "a\nb\nc";
    let expected = "a;b;c";

    assert_eq!(replace_line_with_semicolon(input), expected);
}

#[test]
fn test_remove_comment() {
    let input = "hello world;\n# this is a comment\nhello world;";

    let expected = "hello world;\nhello world;";

    assert_eq!(remove_comment(input), expected);
}

#[test]
fn test_remove_empty_line() {
    let input = "hello world;\n\nhello world;\n";

    let expected_1 = "hello world;\nhello world;\n";

    assert_eq!(remove_empty_line(input), expected_1);
}

#[test]
fn split_cuts_at_the_first_place_only() {
    let tokens = vec![word("a"), Token::Pipe, word("b"), Token::Pipe, word("c")];
    let (left, right) = split(&Token::Pipe, &tokens);
    assert_eq!(left, vec![word("a")]);
    assert_eq!(right, vec![word("b"), Token::Pipe, word("c")]);
}

#[test]
fn recursion_split_keeps_empty_pieces_but_the_last() {
    let tokens = vec![word("a"), Token::Semicolon, Token::Semicolon, word("b"), Token::Semicolon];
    let result = recursion_split(&Token::Semicolon, &tokens);
    assert_eq!(result, vec![vec![word("a")], vec![], vec![word("b")]]);
    let none: Vec<Token> = Vec::new();
    assert_eq!(recursion_split(&Token::Semicolon, &none), vec![Vec::<Token>::new()]);
    let first = vec![Token::Semicolon, word("b")];
    assert_eq!(recursion_split(&Token::Semicolon, &first), vec![vec![], vec![word("b")]]);
}

#[test]
fn comments_end_at_a_semicolon_and_lines_lose_their_endings() {
    assert_eq!(remove_comment("a # b; c"), "a  c");
    assert_eq!(remove_comment("a#b\rc"), "ac");
    assert_eq!(remove_comment("plain"), "plain");
    assert_eq!(remove_empty_line("a\r\n \t \nb"), "a\nb\n");
    assert_eq!(remove_empty_line(""), "");
    assert_eq!(remove_empty_line("a\r"), "a\r\n");
    assert_eq!(lines("a\nb\r\n\nc"), vec!["a", "b", "", "c"]);
    assert_eq!(lines("a\n"), vec!["a"]);
    assert_eq!(lines("").len(), 0);
    assert_eq!(replace_line_with_semicolon("\n\n"), ";;");
}
