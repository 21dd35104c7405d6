//! The parsers of the parts of a command line: expressions, assignments,
//! redirects, commands and pipelines, each from a list of tokens.

use vstd::prelude::*;
use vstd::slice::slice_subrange;
use crate::ast::{
    Assign,
    AssignView,
    Command,
    CommandView,
    Expr,
    ExprView,
    Pipe,
    Redirect,
    RedirectOperator,
    RedirectView,
    expr_views,
    redirect_views,
};
use crate::error::{Error, ErrorKind, ErrorView, error_of};
use crate::token::{Token, TokenView, token_views};
use crate::utils::{
    before,
    find_token,
    lemma_position_of,
    piece_views,
    pieces,
    recursion_split,
    split,
};

verus! {

/// A syntax error with the given message.
pub open spec fn syntax_error(message: Seq<char>) -> ErrorView {
    error_of(ErrorKind::SyntaxError, message)
}

/// The placeholder error.
pub open spec fn dummy_error() -> ErrorView {
    error_of(ErrorKind::Dummy, Seq::empty())
}

/// Whether the result `r` is what `expected` says: the value with that
/// view, or the error with that view.
pub open spec fn agrees<T: View>(r: Result<T, Error>, expected: Result<T::V, ErrorView>) -> bool {
    match expected {
        Ok(v) => r is Ok && r->Ok_0@ == v,
        Err(e) => r is Err && r->Err_0@ == e,
    }
}

/// The expression that a token stands for: a word, a name, a number or a
/// descriptor. A symbol stands for none.
pub open spec fn expr_of(token: TokenView) -> Option<ExprView> {
    match token {
        TokenView::String(s) => Some(ExprView::String(s)),
        TokenView::Ident(s) => Some(ExprView::Ident(s)),
        TokenView::Number(n) => Some(ExprView::Number(n)),
        TokenView::FD(n) => Some(ExprView::FD(n)),
        _ => None,
    }
}

/// Parses a word.
pub fn parse_string(token: &Token) -> (r: Result<Expr, Error>)
    ensures
        agrees(
            r,
            match token@ {
                TokenView::String(s) => Ok(ExprView::String(s)),
                _ => Err(syntax_error("Expected string"@)),
            },
        ),
{
    match token {
        Token::String(s) => Ok(Expr::String(s.clone())),
        _ => Err(Error::new(ErrorKind::SyntaxError, "Expected string")),
    }
}

/// Parses a name.
pub fn parse_ident(token: &Token) -> (r: Result<Expr, Error>)
    ensures
        agrees(
            r,
            match token@ {
                TokenView::Ident(s) => Ok(ExprView::Ident(s)),
                _ => Err(syntax_error("Expected ident"@)),
            },
        ),
{
    match token {
        Token::Ident(s) => Ok(Expr::Ident(s.clone())),
        _ => Err(Error::new(ErrorKind::SyntaxError, "Expected ident")),
    }
}

/// Parses a number.
pub fn parse_number(token: &Token) -> (r: Result<Expr, Error>)
    ensures
        agrees(
            r,
            match token@ {
                TokenView::Number(n) => Ok(ExprView::Number(n)),
                _ => Err(syntax_error("Expected number"@)),
            },
        ),
{
    match token {
        Token::Number(n) => Ok(Expr::Number(*n)),
        _ => Err(Error::new(ErrorKind::SyntaxError, "Expected number")),
    }
}

/// Parses a descriptor.
pub fn parse_fd(token: &Token) -> (r: Result<Expr, Error>)
    ensures
        agrees(
            r,
            match token@ {
                TokenView::FD(n) => Ok(ExprView::FD(n)),
                _ => Err(syntax_error("Expected fd"@)),
            },
        ),
{
    match token {
        Token::FD(n) => Ok(Expr::FD(*n)),
        _ => Err(Error::new(ErrorKind::SyntaxError, "Expected fd")),
    }
}

/// The expression of a token that is none of the tokens of `exclude`.
pub open spec fn parsed_expr(token: TokenView, exclude: Seq<TokenView>) -> Result<
    ExprView,
    ErrorView,
> {
    if exclude.contains(token) {
        Err(syntax_error("Expected expr"@))
    } else {
        match expr_of(token) {
            Some(e) => Ok(e),
            None => Err(syntax_error("Expected expr"@)),
        }
    }
}

/// Parses an expression. A token that equals one of `exclude_tokens` is
/// refused.
pub fn parse_expr(token: &Token, exclude_tokens: Vec<Token>) -> (r: Result<Expr, Error>)
    ensures
        agrees(r, parsed_expr(token@, token_views(exclude_tokens@))),
{
    let at = find_token(token, exclude_tokens.as_slice());
    proof {
        lemma_position_of(token_views(exclude_tokens@), token@);
    }
    if at < exclude_tokens.len() {
        return Err(Error::new(ErrorKind::SyntaxError, "Expected expr"));
    }
    match token {
        Token::String(s) => Ok(Expr::String(s.clone())),
        Token::Ident(s) => Ok(Expr::Ident(s.clone())),
        Token::Number(n) => Ok(Expr::Number(*n)),
        Token::FD(n) => Ok(Expr::FD(*n)),
        _ => Err(Error::new(ErrorKind::SyntaxError, "Expected expr")),
    }
}

/// The assignment `name = value`: a name, the assign sign, and an
/// expression that is not the empty name.
pub open spec fn parsed_assign(first: TokenView, second: TokenView, third: TokenView) -> Result<
    AssignView,
    ErrorView,
> {
    match first {
        TokenView::Ident(s) => if second != TokenView::Assign {
            Err(syntax_error("Expected assign"@))
        } else {
            match parsed_expr(third, seq![TokenView::Ident(Seq::empty())]) {
                Ok(e) => Ok(AssignView { ident: ExprView::Ident(s), expr: e }),
                Err(e) => Err(e),
            }
        },
        _ => Err(syntax_error("Expected ident"@)),
    }
}

/// Parses an assignment.
pub fn parse_assign(tokens: &[Token; 3]) -> (r: Result<Assign, Error>)
    ensures
        agrees(r, parsed_assign(tokens@[0]@, tokens@[1]@, tokens@[2]@)),
{
    let ident = match &tokens[0] {
        Token::Ident(s) => Expr::Ident(s.clone()),
        _ => {
            return Err(Error::new(ErrorKind::SyntaxError, "Expected ident"));
        },
    };
    match &tokens[1] {
        Token::Assign => {},
        _ => {
            return Err(Error::new(ErrorKind::SyntaxError, "Expected assign"));
        },
    }
    let mut exclude: Vec<Token> = Vec::new();
    exclude.push(Token::Ident(String::new()));
    assert(token_views(exclude@) =~= seq![TokenView::Ident(Seq::empty())]);
    match parse_expr(&tokens[2], exclude) {
        Ok(expr) => Ok(Assign { ident, expr }),
        Err(e) => Err(e),
    }
}

/// The redirect written without a descriptor: `> target` remaps
/// descriptor 1, `< target` remaps descriptor 0.
pub open spec fn parsed_abbreviated(first: TokenView, second: TokenView) -> Result<
    RedirectView,
    ErrorView,
> {
    match first {
        TokenView::Gt => match parsed_expr(second, Seq::empty()) {
            Ok(e) => Ok(
                RedirectView { left: ExprView::FD(1), right: e, operator: RedirectOperator::Gt },
            ),
            Err(e) => Err(e),
        },
        TokenView::Lt => match parsed_expr(second, Seq::empty()) {
            Ok(e) => Ok(
                RedirectView { left: ExprView::FD(0), right: e, operator: RedirectOperator::Lt },
            ),
            Err(e) => Err(e),
        },
        _ => Err(syntax_error("Expected redirect operator"@)),
    }
}

/// The redirect written in full: a descriptor, `>` or `<`, and the target.
pub open spec fn parsed_normal(first: TokenView, second: TokenView, third: TokenView) -> Result<
    RedirectView,
    ErrorView,
> {
    match first {
        TokenView::FD(n) => match second {
            TokenView::Gt => match parsed_expr(third, Seq::empty()) {
                Ok(e) => Ok(
                    RedirectView {
                        left: ExprView::FD(n),
                        right: e,
                        operator: RedirectOperator::Gt,
                    },
                ),
                Err(e) => Err(e),
            },
            TokenView::Lt => match parsed_expr(third, Seq::empty()) {
                Ok(e) => Ok(
                    RedirectView {
                        left: ExprView::FD(n),
                        right: e,
                        operator: RedirectOperator::Lt,
                    },
                ),
                Err(e) => Err(e),
            },
            _ => Err(syntax_error("Expected redirect operator"@)),
        },
        _ => Err(syntax_error("Expected fd"@)),
    }
}

/// The redirect of two or of three tokens.
pub open spec fn parsed_redirect(tokens: Seq<TokenView>) -> Result<RedirectView, ErrorView> {
    if tokens.len() == 2 {
        parsed_abbreviated(tokens[0], tokens[1])
    } else if tokens.len() == 3 {
        parsed_normal(tokens[0], tokens[1], tokens[2])
    } else {
        Err(syntax_error("Expected redirect"@))
    }
}

fn abbreviated(first: &Token, second: &Token) -> (r: Result<Redirect, Error>)
    ensures
        agrees(r, parsed_abbreviated(first@, second@)),
{
    let (left, operator) = match first {
        Token::Gt => (Expr::FD(1), RedirectOperator::Gt),
        Token::Lt => (Expr::FD(0), RedirectOperator::Lt),
        _ => {
            return Err(Error::new(ErrorKind::SyntaxError, "Expected redirect operator"));
        },
    };
    let exclude: Vec<Token> = Vec::new();
    assert(token_views(exclude@) =~= Seq::<TokenView>::empty());
    match parse_expr(second, exclude) {
        Ok(right) => Ok(Redirect { left, right, operator }),
        Err(e) => Err(e),
    }
}

fn normal(first: &Token, second: &Token, third: &Token) -> (r: Result<Redirect, Error>)
    ensures
        agrees(r, parsed_normal(first@, second@, third@)),
{
    let left = match parse_fd(first) {
        Ok(left) => left,
        Err(e) => {
            return Err(e);
        },
    };
    let operator = match second {
        Token::Gt => RedirectOperator::Gt,
        Token::Lt => RedirectOperator::Lt,
        _ => {
            return Err(Error::new(ErrorKind::SyntaxError, "Expected redirect operator"));
        },
    };
    let exclude: Vec<Token> = Vec::new();
    assert(token_views(exclude@) =~= Seq::<TokenView>::empty());
    match parse_expr(third, exclude) {
        Ok(right) => Ok(Redirect { left, right, operator }),
        Err(e) => Err(e),
    }
}

/// Parses a redirect that is written without a descriptor.
pub fn parse_abbreviated_redirect(tokens: &[Token; 2]) -> (r: Result<Redirect, Error>)
    ensures
        agrees(r, parsed_abbreviated(tokens@[0]@, tokens@[1]@)),
{
    abbreviated(&tokens[0], &tokens[1])
}

/// Parses a redirect that is written in full.
pub fn parse_normal_redirect(tokens: &[Token; 3]) -> (r: Result<Redirect, Error>)
    ensures
        agrees(r, parsed_normal(tokens@[0]@, tokens@[1]@, tokens@[2]@)),
{
    normal(&tokens[0], &tokens[1], &tokens[2])
}

/// Parses a redirect of either form.
pub fn parse_redirect(tokens: &[Token]) -> (r: Result<Redirect, Error>)
    ensures
        agrees(r, parsed_redirect(token_views(tokens@))),
{
    if tokens.len() == 2 {
        abbreviated(&tokens[0], &tokens[1])
    } else if tokens.len() == 3 {
        normal(&tokens[0], &tokens[1], &tokens[2])
    } else {
        Err(Error::new(ErrorKind::SyntaxError, "Expected redirect"))
    }
}

/// The expression that names the program of a command: any expression but
/// the descriptor 0.
pub open spec fn parsed_command_expr(token: TokenView) -> Result<ExprView, ErrorView> {
    parsed_expr(token, seq![TokenView::FD(0)])
}

/// Parses the expression that names the program of a command.
pub fn parse_command_expr(token: &Token) -> (r: Result<Expr, Error>)
    ensures
        agrees(r, parsed_command_expr(token@)),
{
    let mut exclude: Vec<Token> = Vec::new();
    exclude.push(Token::FD(0));
    assert(token_views(exclude@) =~= seq![TokenView::FD(0)]);
    parse_expr(token, exclude)
}

/// The arguments and the redirects of the tokens from `i` on, after the
/// arguments `args` and the redirects `redirects` of the tokens before.
/// `>` and `<` start a redirect of two tokens, a descriptor starts one of
/// three; any other token is an argument.
pub open spec fn scanned(
    tokens: Seq<TokenView>,
    i: int,
    args: Seq<ExprView>,
    redirects: Seq<RedirectView>,
) -> Result<(Seq<ExprView>, Seq<RedirectView>), ErrorView>
    decreases tokens.len() - i,
{
    if i < 0 || i >= tokens.len() {
        Ok((args, redirects))
    } else {
        match tokens[i] {
            TokenView::Gt | TokenView::Lt => if i + 1 < tokens.len() {
                match parsed_redirect(tokens.subrange(i, i + 2)) {
                    Ok(r) => scanned(tokens, i + 2, args, redirects.push(r)),
                    Err(e) => Err(e),
                }
            } else {
                Err(dummy_error())
            },
            TokenView::FD(_) => if i + 2 < tokens.len() {
                match parsed_redirect(tokens.subrange(i, i + 3)) {
                    Ok(r) => scanned(tokens, i + 3, args, redirects.push(r)),
                    Err(e) => Err(e),
                }
            } else {
                Err(dummy_error())
            },
            _ => match parsed_expr(
                tokens[i],
                seq![TokenView::Gt, TokenView::Lt, TokenView::FD(0)],
            ) {
                Ok(e) => scanned(tokens, i + 1, args.push(e), redirects),
                Err(e) => Err(e),
            },
        }
    }
}

/// Whether `r` is the pair of lists that `expected` says, or its error.
pub open spec fn agrees_on_lists(
    r: Result<(Vec<Expr>, Vec<Redirect>), Error>,
    expected: Result<(Seq<ExprView>, Seq<RedirectView>), ErrorView>,
) -> bool {
    match expected {
        Ok((args, redirects)) => r is Ok && expr_views(r->Ok_0.0@) == args && redirect_views(
            r->Ok_0.1@,
        ) == redirects,
        Err(e) => r is Err && r->Err_0@ == e,
    }
}

/// Parses what follows the program of a command: its arguments and its
/// redirects.
pub fn parse_command_args_and_redirects(tokens: &[Token]) -> (r: Result<
    (Vec<Expr>, Vec<Redirect>),
    Error,
>)
    ensures
        agrees_on_lists(r, scanned(token_views(tokens@), 0, Seq::empty(), Seq::empty())),
{
    let ghost views = token_views(tokens@);
    let mut args: Vec<Expr> = Vec::new();
    let mut redirects: Vec<Redirect> = Vec::new();
    let n = tokens.len();
    let mut i: usize = 0;
    assert(expr_views(args@) =~= Seq::<ExprView>::empty());
    assert(redirect_views(redirects@) =~= Seq::<RedirectView>::empty());
    while i < n
        invariant
            n == tokens@.len(),
            i <= n,
            views == token_views(tokens@),
            scanned(views, 0, Seq::empty(), Seq::empty()) == scanned(
                views,
                i as int,
                expr_views(args@),
                redirect_views(redirects@),
            ),
        decreases n - i,
    {
        assert(views[i as int] == tokens@[i as int]@);
        let ghost old_args = expr_views(args@);
        let ghost old_redirects = redirect_views(redirects@);
        match &tokens[i] {
            Token::Gt | Token::Lt => {
                if n - i > 1 {
                    let part = slice_subrange(tokens, i, i + 2);
                    assert(token_views(part@) =~= views.subrange(i as int, i + 2));
                    match parse_redirect(part) {
                        Ok(redirect) => {
                            let ghost v = redirect@;
                            redirects.push(redirect);
                            assert(redirect_views(redirects@) =~= old_redirects.push(v));
                            i = i + 2;
                        },
                        Err(e) => {
                            return Err(e);
                        },
                    }
                } else {
                    return Err(Error::dummy());
                }
            },
            Token::FD(_) => {
                if n - i > 2 {
                    let part = slice_subrange(tokens, i, i + 3);
                    assert(token_views(part@) =~= views.subrange(i as int, i + 3));
                    match parse_redirect(part) {
                        Ok(redirect) => {
                            let ghost v = redirect@;
                            redirects.push(redirect);
                            assert(redirect_views(redirects@) =~= old_redirects.push(v));
                            i = i + 3;
                        },
                        Err(e) => {
                            return Err(e);
                        },
                    }
                } else {
                    return Err(Error::dummy());
                }
            },
            _ => {
                let mut exclude: Vec<Token> = Vec::new();
                exclude.push(Token::Gt);
                exclude.push(Token::Lt);
                exclude.push(Token::FD(0));
                assert(token_views(exclude@) =~= seq![
                    TokenView::Gt,
                    TokenView::Lt,
                    TokenView::FD(0),
                ]);
                match parse_expr(&tokens[i], exclude) {
                    Ok(arg) => {
                        let ghost v = arg@;
                        args.push(arg);
                        assert(expr_views(args@) =~= old_args.push(v));
                        i = i + 1;
                    },
                    Err(e) => {
                        return Err(e);
                    },
                }
            },
        }
    }
    Ok((args, redirects))
}

/// The command of a list of tokens: the first names the program, the rest
/// gives the arguments and the redirects. Where an `&` follows, the
/// command runs in the background and what is behind the `&` is dropped.
/// An empty list holds no command.
pub open spec fn parsed_command(tokens: Seq<TokenView>) -> Result<CommandView, ErrorView> {
    if tokens.len() == 0 {
        Err(syntax_error("Expected expr"@))
    } else {
        match parsed_command_expr(tokens[0]) {
            Err(e) => Err(e),
            Ok(expr) => {
                let rest = tokens.skip(1);
                match scanned(before(rest, TokenView::Ampersand), 0, Seq::empty(), Seq::empty()) {
                    Err(e) => Err(e),
                    Ok((args, redirects)) => Ok(
                        CommandView {
                            expr,
                            args,
                            redirects,
                            background: rest.contains(TokenView::Ampersand),
                        },
                    ),
                }
            },
        }
    }
}

/// Parses a command.
pub fn parse_command(tokens: &[Token]) -> (r: Result<Command, Error>)
    ensures
        agrees(r, parsed_command(token_views(tokens@))),
{
    if tokens.len() == 0 {
        return Err(Error::new(ErrorKind::SyntaxError, "Expected expr"));
    }
    let ghost views = token_views(tokens@);
    assert(views[0] == tokens@[0]@);
    let expr = match parse_command_expr(&tokens[0]) {
        Ok(expr) => expr,
        Err(e) => {
            return Err(e);
        },
    };
    let rest = slice_subrange(tokens, 1, tokens.len());
    assert(token_views(rest@) =~= views.skip(1));
    let ampersand = Token::Ampersand;
    let at = find_token(&ampersand, rest);
    proof {
        lemma_position_of(token_views(rest@), TokenView::Ampersand);
    }
    let background = at < rest.len();
    let (body, _) = split(&ampersand, rest);
    match parse_command_args_and_redirects(body.as_slice()) {
        Ok((args, redirects)) => Ok(Command { expr, args, redirects, background }),
        Err(e) => Err(e),
    }
}

/// The commands of the pieces of a pipeline from `i` on, after the
/// commands `done` of the pieces before.
pub open spec fn parsed_commands(
    parts: Seq<Seq<TokenView>>,
    i: int,
    done: Seq<CommandView>,
) -> Result<Seq<CommandView>, ErrorView>
    decreases parts.len() - i,
{
    if i < 0 || i >= parts.len() {
        Ok(done)
    } else {
        match parsed_command(parts[i]) {
            Ok(c) => parsed_commands(parts, i + 1, done.push(c)),
            Err(e) => Err(e),
        }
    }
}

/// The pipeline of a list of tokens: the commands between its `|` signs.
/// No tokens, and a single `|`, hold none.
pub open spec fn parsed_pipe(tokens: Seq<TokenView>) -> Result<Seq<CommandView>, ErrorView> {
    if tokens.len() == 0 || (tokens.len() == 1 && tokens[0] == TokenView::Pipe) {
        Err(dummy_error())
    } else {
        parsed_commands(pieces(tokens, TokenView::Pipe), 0, Seq::empty())
    }
}

/// Parses a pipeline.
pub fn parse_pipe(tokens: &[Token]) -> (r: Result<Pipe, Error>)
    ensures
        agrees(r, parsed_pipe(token_views(tokens@))),
{
    let ghost views = token_views(tokens@);
    if tokens.len() == 0 {
        return Err(Error::dummy());
    }
    assert(views[0] == tokens@[0]@);
    let bar = Token::Pipe;
    if tokens.len() == 1 && tokens[0].same(&bar) {
        return Err(Error::dummy());
    }
    let mut pipe = Pipe::new();
    let parts = recursion_split(&bar, tokens);
    let ghost part_views = piece_views(parts@);
    let mut i: usize = 0;
    while i < parts.len()
        invariant
            i <= parts@.len(),
            part_views == piece_views(parts@),
            views == token_views(tokens@),
            parsed_pipe(views) == parsed_commands(part_views, 0, Seq::empty()),
            parsed_commands(part_views, 0, Seq::empty()) == parsed_commands(
                part_views,
                i as int,
                pipe@,
            ),
        decreases parts@.len() - i,
    {
        assert(part_views[i as int] == token_views(parts@[i as int]@));
        match parse_command(parts[i].as_slice()) {
            Ok(command) => {
                pipe.push_back(command);
                i = i + 1;
            },
            Err(e) => {
                return Err(e);
            },
        }
    }
    Ok(pipe)
}

} // verus!
