use fsh::ast::{Assign, Ast, Command, Expr, Pipe, Statement};
use fsh::error::ErrorKind;
use fsh::parser::{parse_script, parse_tokens, Parser};
use fsh::token::Token;

#[test]
fn test_parser() {
    let mut parser = Parser::new("echo hello; echo world");

    let ast = parser.parse();

    assert_eq!(ast.is_ok(), true);
}

fn command(name: &str, args: &[&str]) -> Command {
    Command {
        expr: Expr::String(name.to_string()),
        args: args.iter().map(|a| Expr::String(a.to_string())).collect(),
        redirects: Vec::new(),
        background: false,
    }
}

#[test]
fn parser_builds_one_child_for_each_piece() {
    let mut ast = Parser::new("$VAR = x; echo $VAR | cat -b;; ls &").parse().unwrap();
    assert_eq!(
        ast.pop_front(),
        Some(Ast::Statement(Statement::Assign(Assign {
            ident: Expr::Ident("VAR".to_string()),
            expr: Expr::String("x".to_string()),
        })))
    );
    let mut echo = command("echo", &[]);
    echo.args.push(Expr::Ident("VAR".to_string()));
    assert_eq!(
        ast.pop_front(),
        Some(Ast::Pipe(Pipe::from_commands(vec![echo, command("cat", &["-b"])])))
    );
    let mut ls = command("ls", &[]);
    ls.background = true;
    assert_eq!(ast.pop_front(), Some(Ast::Statement(Statement::Command(ls))));
    assert_eq!(ast.pop_front(), None);
    assert!(ast.is_empty());
}

#[test]
fn parser_hands_on_the_error_of_the_lexer_and_of_a_piece() {
    assert_eq!(*Parser::new("ls -5").parse().unwrap_err().kind(), ErrorKind::LexerError);
    assert_eq!(*Parser::new("ls >").parse().unwrap_err().kind(), ErrorKind::Dummy);
    assert_eq!(*Parser::new("= x").parse().unwrap_err().kind(), ErrorKind::SyntaxError);
    let mut empty = Parser::new("");
    assert!(empty.parse().unwrap().is_empty());
    let mut twice = Parser::new("ls");
    let first = twice.parse().unwrap();
    let second = twice.parse().unwrap();
    assert_eq!(first, second);
    assert_eq!(first.clone(), first);
}

#[test]
fn ast_is_a_queue_of_children() {
    let mut ast = Ast::new();
    assert!(ast.is_empty());
    ast.push_back(Ast::Statement(Statement::Command(command("a", &[]))));
    ast.push_back(Ast::Pipe(Pipe::new()));
    assert!(!ast.is_empty());
    assert_eq!(ast.pop_front(), Some(Ast::Statement(Statement::Command(command("a", &[])))));
    assert_eq!(ast.pop_front(), Some(Ast::Pipe(Pipe::new())));
    assert_eq!(ast.pop_front(), None);
    let mut pipe = Pipe::new();
    assert!(pipe.is_empty());
    pipe.push_back(command("x", &[]));
    pipe.push_back(command("y", &[]));
    assert_eq!(pipe.len(), 2);
    assert_eq!(pipe.clone(), pipe);
    assert_eq!(pipe.pop_front(), Some(command("x", &[])));
    assert_eq!(pipe.pop_front(), Some(command("y", &[])));
    assert_eq!(pipe.pop_front(), None);
}

#[test]
fn a_script_is_parsed_line_by_line() {
    let mut ast = parse_script("# set up\n$NAME = 'a b'\n\necho $NAME | cat -b; # show\nls &\n").unwrap();
    assert_eq!(
        ast.pop_front(),
        Some(Ast::Statement(Statement::Assign(Assign {
            ident: Expr::Ident("NAME".to_string()),
            expr: Expr::String("a b".to_string()),
        })))
    );
    let mut echo = command("echo", &[]);
    echo.args.push(Expr::Ident("NAME".to_string()));
    assert_eq!(
        ast.pop_front(),
        Some(Ast::Pipe(Pipe::from_commands(vec![echo, command("cat", &["-b"])])))
    );
    let mut ls = command("ls", &[]);
    ls.background = true;
    assert_eq!(ast.pop_front(), Some(Ast::Statement(Statement::Command(ls))));
    assert_eq!(ast.pop_front(), None);
    assert_eq!(*parse_script("echo 'open").unwrap_err().kind(), ErrorKind::LexerError);
    assert!(parse_script("").unwrap().is_empty());
}

#[test]
fn parse_tokens_adds_to_the_tree_and_stops_at_the_first_error() {
    let mut tree = Ast::new();
    let tokens = vec![
        Token::String("a".to_string()),
        Token::Semicolon,
        Token::Gt,
        Token::Semicolon,
        Token::String("b".to_string()),
    ];
    assert_eq!(*parse_tokens(&tokens, &mut tree).unwrap_err().kind(), ErrorKind::SyntaxError);
    assert_eq!(tree.pop_front(), Some(Ast::Statement(Statement::Command(command("a", &[])))));
    assert_eq!(tree.pop_front(), None);
    assert!(parse_tokens(&[], &mut tree).is_ok());
    assert!(tree.is_empty());
}
