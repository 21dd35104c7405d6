use fsh::ast::{Command, Expr, Pipe, Redirect, RedirectOperator};
use fsh::error::ErrorKind;
use fsh::lite_parser::{
    parse_abbreviated_redirect, parse_assign, parse_command, parse_command_args_and_redirects,
    parse_command_expr, parse_expr, parse_fd, parse_ident, parse_normal_redirect, parse_number,
    parse_pipe, parse_redirect, parse_string,
};
use fsh::token::Token;

#[test]
fn test_parse_string() {
    let token = Token::String("hello".to_string());

    let expr = parse_string(&token).unwrap();

    assert_eq!(expr, Expr::String("hello".to_string()));
}

#[test]
fn test_parse_ident() {
    let token = Token::Ident("hello".to_string());

    let expr = parse_ident(&token).unwrap();

    assert_eq!(expr, Expr::Ident("hello".to_string()));
}

#[test]
fn test_parse_number() {
    let token = Token::Number(100);

    let expr = parse_number(&token).unwrap();

    assert_eq!(expr, Expr::Number(100));
}

#[test]
fn test_parse_fd() {
    let token = Token::FD(1);

    let expr = parse_fd(&token).unwrap();

    assert_eq!(expr, Expr::FD(1));
}

#[test]
fn test_parse_assign() {
    let tokens = [
        Token::Ident("a".to_string()),
        Token::Assign,
        Token::String("hello".to_string()),
    ];

    let assign = parse_assign(&tokens).unwrap();

    assert_eq!(assign.ident, Expr::Ident("a".to_string()));
    assert_eq!(assign.expr, Expr::String("hello".to_string()));
}

#[test]
fn test_parse_abbreviated_redirect() {
    let redirect1 =
        parse_abbreviated_redirect(&[Token::Gt, Token::String("hello".to_string())]).unwrap();

    let redirect2 =
        parse_abbreviated_redirect(&[Token::Lt, Token::String("hello".to_string())]).unwrap();

    assert_eq!(redirect1.left, Expr::FD(1));
    assert_eq!(redirect1.right, Expr::String("hello".to_string()));
    assert_eq!(redirect1.operator, RedirectOperator::Gt);

    assert_eq!(redirect2.left, Expr::FD(0));
    assert_eq!(redirect2.right, Expr::String("hello".to_string()));
    assert_eq!(redirect2.operator, RedirectOperator::Lt);
}

#[test]
fn test_parse_normal_redirect() {
    let redirect1 =
        parse_normal_redirect(&[Token::FD(1), Token::Gt, Token::String("hello".to_string())])
            .unwrap();

    let redirect2 =
        parse_normal_redirect(&[Token::FD(0), Token::Lt, Token::String("hello".to_string())])
            .unwrap();

    assert_eq!(redirect1.left, Expr::FD(1));
    assert_eq!(redirect1.right, Expr::String("hello".to_string()));
    assert_eq!(redirect1.operator, RedirectOperator::Gt);

    assert_eq!(redirect2.left, Expr::FD(0));
    assert_eq!(redirect2.right, Expr::String("hello".to_string()));
    assert_eq!(redirect2.operator, RedirectOperator::Lt);
}

#[test]
fn test_parse_redirect() {
    let redirect1 = parse_redirect(&[Token::Gt, Token::String("hello".to_string())]).unwrap();

    let redirect2 =
        parse_redirect(&[Token::FD(1), Token::Gt, Token::String("hello".to_string())]).unwrap();

    assert_eq!(redirect1.left, Expr::FD(1));
    assert_eq!(redirect1.right, Expr::String("hello".to_string()));
    assert_eq!(redirect1.operator, RedirectOperator::Gt);

    assert_eq!(redirect2.left, Expr::FD(1));
    assert_eq!(redirect2.right, Expr::String("hello".to_string()));
    assert_eq!(redirect2.operator, RedirectOperator::Gt);
}

#[test]
fn test_parse_command_expr() {
    assert_eq!(
        parse_command_expr(&Token::String("hello".to_string())).unwrap(),
        Expr::String("hello".to_string())
    );
    assert_eq!(
        parse_command_expr(&Token::Ident("hello".to_string())).unwrap(),
        Expr::Ident("hello".to_string())
    );
    assert_eq!(
        parse_command_expr(&Token::Number(100)).unwrap(),
        Expr::Number(100)
    );
}

#[test]
fn test_parse_command_expr_error() {
    assert!(parse_command_expr(&Token::FD(0)).is_err());
}

#[test]
fn test_parse_command_args_and_redirects() {
    let tokens = [
        Token::String("hello".to_string()),
        Token::String("world".to_string()),
        Token::Gt,
        Token::String("file".to_string()),
    ];

    let (args, redirects) = parse_command_args_and_redirects(&tokens).unwrap();

    assert_eq!(args.len(), 2);

    assert_eq!(redirects.len(), 1);

    assert_eq!(args[0], Expr::String("hello".to_string()));
    assert_eq!(args[1], Expr::String("world".to_string()));

    assert_eq!(redirects[0].left, Expr::FD(1));
    assert_eq!(redirects[0].right, Expr::String("file".to_string()));
    assert_eq!(redirects[0].operator, RedirectOperator::Gt);
}

#[test]
fn test_parse_command() {
    let command1 = parse_command(&[
        Token::String("echo".to_string()),
        Token::String("hello".to_string()),
        Token::String("world".to_string()),
    ]);

    let command2 = parse_command(&[
        Token::String("echo".to_string()),
        Token::String("hello".to_string()),
        Token::String("world".to_string()),
        Token::Gt,
        Token::String("file".to_string()),
        Token::FD(2),
        Token::Gt,
        Token::String("file2".to_string()),
    ]);

    assert_eq!(
        command1.unwrap(),
        Command {
            expr: Expr::String("echo".to_string()),
            args: vec![
                Expr::String("hello".to_string()),
                Expr::String("world".to_string())
            ],
            redirects: Vec::default(),
            background: false
        }
    );

    assert_eq!(
        command2.unwrap(),
        Command {
            expr: Expr::String("echo".to_string()),
            args: vec![
                Expr::String("hello".to_string()),
                Expr::String("world".to_string())
            ],
            redirects: vec![
                Redirect {
                    left: Expr::FD(1),
                    right: Expr::String("file".to_string()),
                    operator: RedirectOperator::Gt
                },
                Redirect {
                    left: Expr::FD(2),
                    right: Expr::String("file2".to_string()),
                    operator: RedirectOperator::Gt
                }
            ],
            background: false
        }
    );
}

#[test]
fn test_parse_command_background() {
    let command1 = parse_command(&[
        Token::String("echo".to_string()),
        Token::String("hello".to_string()),
        Token::String("world".to_string()),
        Token::Ampersand,
    ]);

    let command2 = parse_command(&[
        Token::String("echo".to_string()),
        Token::String("hello".to_string()),
        Token::String("world".to_string()),
        Token::Gt,
        Token::String("file".to_string()),
        Token::FD(2),
        Token::Gt,
        Token::String("file2".to_string()),
        Token::Ampersand,
    ]);

    assert_eq!(
        command1.unwrap(),
        Command {
            expr: Expr::String("echo".to_string()),
            args: vec![
                Expr::String("hello".to_string()),
                Expr::String("world".to_string())
            ],
            redirects: Vec::default(),
            background: true
        }
    );

    assert_eq!(
        command2.unwrap(),
        Command {
            expr: Expr::String("echo".to_string()),
            args: vec![
                Expr::String("hello".to_string()),
                Expr::String("world".to_string())
            ],
            redirects: vec![
                Redirect {
                    left: Expr::FD(1),
                    right: Expr::String("file".to_string()),
                    operator: RedirectOperator::Gt
                },
                Redirect {
                    left: Expr::FD(2),
                    right: Expr::String("file2".to_string()),
                    operator: RedirectOperator::Gt
                }
            ],
            background: true
        }
    );
}

#[test]
fn test_parse_pipe() {
    let pipe1 = parse_pipe(&[
        Token::String("echo".to_string()),
        Token::String("hello".to_string()),
        Token::Pipe,
        Token::String("cat".to_string()),
        Token::String("-b".to_string()),
    ]);

    let pipe2 = parse_pipe(&[
        Token::String("echo".to_string()),
        Token::String("hello".to_string()),
        Token::Pipe,
        Token::String("cat".to_string()),
        Token::String("-b".to_string()),
        Token::Pipe,
        Token::String("rev".to_string()),
    ]);

    let pipe3 = parse_pipe(&[
        Token::String("echo".to_string()),
        Token::String("hello".to_string()),
        Token::Pipe,
    ]);

    assert_eq!(
        pipe1.unwrap(),
        Pipe::from_commands(
            vec![
                Command {
                    expr: Expr::String("echo".to_string()),
                    args: vec![Expr::String("hello".to_string())],
                    redirects: Vec::default(),
                    background: false
                },
                Command {
                    expr: Expr::String("cat".to_string()),
                    args: vec![Expr::String("-b".to_string())],
                    redirects: Vec::default(),
                    background: false
                }
            ]
        )
    );

    assert_eq!(
        pipe2.unwrap(),
        Pipe::from_commands(
            vec![
                Command {
                    expr: Expr::String("echo".to_string()),
                    args: vec![Expr::String("hello".to_string())],
                    redirects: Vec::default(),
                    background: false
                },
                Command {
                    expr: Expr::String("cat".to_string()),
                    args: vec![Expr::String("-b".to_string())],
                    redirects: Vec::default(),
                    background: false
                },
                Command {
                    expr: Expr::String("rev".to_string()),
                    args: Vec::default(),
                    redirects: Vec::default(),
                    background: false
                }
            ]
        )
    );

    assert_eq!(
        pipe3.unwrap(),
        Pipe::from_commands(
            vec![Command {
                expr: Expr::String("echo".to_string()),
                args: vec![Expr::String("hello".to_string())],
                redirects: Vec::default(),
                background: false
            }]
        )
    );
}

#[test]
fn test_parse_pipe_error() {
    assert!(parse_pipe(&[]).is_err());
    assert!(parse_pipe(&[Token::Pipe]).is_err());
}

#[test]
fn parsers_of_single_tokens_refuse_other_tokens() {
    assert_eq!(parse_string(&Token::Pipe).unwrap_err().message(), "Expected string");
    assert_eq!(parse_ident(&Token::Number(1)).unwrap_err().message(), "Expected ident");
    assert_eq!(parse_number(&Token::FD(1)).unwrap_err().message(), "Expected number");
    let err = parse_fd(&Token::String("x".to_string())).unwrap_err();
    assert_eq!(*err.kind(), ErrorKind::SyntaxError);
    assert_eq!(err.message(), "Expected fd");
    assert_eq!(parse_expr(&Token::Semicolon, vec![]).unwrap_err().message(), "Expected expr");
    assert!(parse_expr(&Token::Gt, vec![Token::Gt]).is_err());
    assert_eq!(parse_expr(&Token::FD(3), vec![Token::FD(0)]).unwrap(), Expr::FD(3));
}

#[test]
fn parse_assign_and_redirect_name_what_is_missing() {
    let no_name = [Token::String("a".to_string()), Token::Assign, Token::String("b".to_string())];
    assert_eq!(parse_assign(&no_name).unwrap_err().message(), "Expected ident");
    let no_sign = [Token::Ident("a".to_string()), Token::Pipe, Token::String("b".to_string())];
    assert_eq!(parse_assign(&no_sign).unwrap_err().message(), "Expected assign");
    let no_value = [Token::Ident("a".to_string()), Token::Assign, Token::Pipe];
    assert_eq!(parse_assign(&no_value).unwrap_err().message(), "Expected expr");
    assert_eq!(parse_redirect(&[Token::Gt]).unwrap_err().message(), "Expected redirect");
    assert_eq!(
        parse_redirect(&[Token::Pipe, Token::String("f".to_string())]).unwrap_err().message(),
        "Expected redirect operator"
    );
    assert_eq!(
        parse_redirect(&[Token::Gt, Token::Gt, Token::Gt]).unwrap_err().message(),
        "Expected fd"
    );
    let fd_to_fd = parse_redirect(&[Token::FD(2), Token::Gt, Token::FD(1)]).unwrap();
    assert_eq!(fd_to_fd.left, Expr::FD(2));
    assert_eq!(fd_to_fd.right, Expr::FD(1));
    let number = parse_redirect(&[Token::Lt, Token::Number(7)]).unwrap();
    assert_eq!(number.left, Expr::FD(0));
    assert_eq!(number.right, Expr::Number(7));
    assert_eq!(number.operator, RedirectOperator::Lt);
}

#[test]
fn parse_command_refuses_an_unfinished_redirect_and_no_tokens() {
    let unfinished = [Token::String("ls".to_string()), Token::Gt];
    assert_eq!(*parse_command(&unfinished).unwrap_err().kind(), ErrorKind::Dummy);
    let short = [Token::String("ls".to_string()), Token::FD(2), Token::Gt];
    assert_eq!(*parse_command(&short).unwrap_err().kind(), ErrorKind::Dummy);
    assert_eq!(*parse_command(&[]).unwrap_err().kind(), ErrorKind::SyntaxError);
    assert!(parse_pipe(&[Token::Pipe, Token::String("ls".to_string())]).is_err());
    let behind = [
        Token::String("sleep".to_string()),
        Token::Number(5),
        Token::Ampersand,
        Token::String("dropped".to_string()),
    ];
    let command = parse_command(&behind).unwrap();
    assert_eq!(command.args, vec![Expr::Number(5)]);
    assert_eq!(command.background, true);
}
