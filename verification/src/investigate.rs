//! Error investigation: finds the token at which a command, a redirect or
//! an assignment goes wrong, and words the error so that a user sees the
//! place.

use vstd::prelude::*;
use vstd::slice::slice_subrange;
use crate::error::{Error, ErrorKind, ErrorView, error_of};
use crate::lite_parser::syntax_error;
use crate::text::push_char;
use crate::token::{Token, TokenView, token_views};

verus! {

/// The tokens as they are shown: the text of each, followed by a space.
pub open spec fn shown(tokens: Seq<TokenView>) -> Seq<char>
    decreases tokens.len(),
{
    if tokens.len() == 0 {
        Seq::empty()
    } else {
        shown(tokens.drop_last()) + tokens.last().text() + seq![' ']
    }
}

/// The number of columns that the tokens take when they are shown, as the
/// marker counts them: the width of each, and one for the space.
pub open spec fn columns(tokens: Seq<TokenView>) -> nat
    decreases tokens.len(),
{
    if tokens.len() == 0 {
        0
    } else {
        columns(tokens.drop_last()) + Token::width(tokens.last()) + 1
    }
}

/// `n` spaces.
pub open spec fn spaces(n: nat) -> Seq<char> {
    Seq::new(n, |i: int| ' ')
}

/// The message that points at the token at `position`: the tokens on one
/// line, and below them a marker under that token, followed by `message`.
pub open spec fn pointed(tokens: Seq<TokenView>, position: int, message: Seq<char>) -> Seq<char> {
    shown(tokens) + seq!['\n'] + spaces(columns(tokens.take(position)))
        + "↑--- Error here:"@ + message
}

/// The error that points at the token at `position`: a syntax error, or an
/// internal one where there is no such token.
pub open spec fn positioned(tokens: Seq<TokenView>, position: int, message: Seq<char>) -> ErrorView {
    if 0 <= position < tokens.len() {
        error_of(ErrorKind::SyntaxError, pointed(tokens, position, message))
    } else {
        error_of(ErrorKind::Internal, "Internal error"@)
    }
}

/// The message of the error at `position`, and its tag: 1 for a syntax
/// error, 0 for an internal one, where `position` is past the tokens.
pub fn new_error_message(tokens: &[Token], position: usize, message: &str) -> (r: (String, u8))
    ensures
        position < tokens@.len() ==> r.1 == 1 && r.0@ == pointed(
            token_views(tokens@),
            position as int,
            message@,
        ),
        position >= tokens@.len() ==> r.1 == 0 && r.0@ == "Internal error"@,
{
    if position >= tokens.len() {
        return (String::from_str("Internal error"), 0);
    }
    let ghost views = token_views(tokens@);
    let mut buffer = String::new();
    let mut i: usize = 0;
    assert(views.take(0) =~= Seq::<TokenView>::empty());
    while i < tokens.len()
        invariant
            i <= tokens@.len(),
            views == token_views(tokens@),
            buffer@ == shown(views.take(i as int)),
        decreases tokens@.len() - i,
    {
        let text = tokens[i].to_string();
        proof {
            let t = views.take(i + 1);
            assert(t.drop_last() =~= views.take(i as int));
            assert(t.last() == tokens@[i as int]@);
        }
        buffer.append(text.as_str());
        push_char(&mut buffer, ' ');
        assert(buffer@ =~= shown(views.take(i as int)) + tokens@[i as int]@.text() + seq![' ']);
        i = i + 1;
    }
    assert(views.take(tokens@.len() as int) =~= views);
    push_char(&mut buffer, '\n');
    let ghost head = buffer@;
    let mut k: usize = 0;
    assert(buffer@ =~= head + spaces(columns(views.take(0))));
    while k < position
        invariant
            k <= position < tokens@.len(),
            views == token_views(tokens@),
            buffer@ == head + spaces(columns(views.take(k as int))),
        decreases position - k,
    {
        let width = tokens[k].len();
        let ghost base = buffer@;
        let ghost done = columns(views.take(k as int));
        proof {
            let t = views.take(k + 1);
            assert(t.drop_last() =~= views.take(k as int));
            assert(t.last() == tokens@[k as int]@);
            assert(columns(t) == done + width + 1);
        }
        let mut j: usize = 0;
        while j < width
            invariant
                j <= width,
                buffer@ == base + spaces(j as nat),
            decreases width - j,
        {
            push_char(&mut buffer, ' ');
            assert(base + spaces(j as nat) + seq![' '] =~= base + spaces((j + 1) as nat));
            j = j + 1;
        }
        push_char(&mut buffer, ' ');
        assert(buffer@ =~= head + spaces((done + width + 1) as nat));
        k = k + 1;
    }
    buffer.append("↑--- Error here:");
    buffer.append(message);
    (buffer, 1)
}

/// The error that points at the token at `position`.
pub fn new_error(tokens: &[Token], position: usize, message: &str) -> (r: Error)
    ensures
        r@ == positioned(token_views(tokens@), position as int, message@),
{
    let (msg, tag) = new_error_message(tokens, position, message);
    if tag == 0 {
        Error::new(ErrorKind::Internal, msg.as_str())
    } else {
        Error::new(ErrorKind::SyntaxError, msg.as_str())
    }
}

/// Whether a token can stand for a word of a command: a word, a name or a
/// number.
pub open spec fn is_word(t: TokenView) -> bool {
    t is String || t is Ident || t is Number
}

/// Whether a token is `>` or `<`.
pub open spec fn is_direction(t: TokenView) -> bool {
    t is Gt || t is Lt
}

/// Whether a token can be the target of a redirect.
pub open spec fn is_target(t: TokenView) -> bool {
    is_word(t) || t is FD
}

fn word(t: &Token) -> (r: bool)
    ensures
        r == is_word(t@),
{
    match t {
        Token::String(_) | Token::Ident(_) | Token::Number(_) => true,
        _ => false,
    }
}

fn direction(t: &Token) -> (r: bool)
    ensures
        r == is_direction(t@),
{
    match t {
        Token::Gt | Token::Lt => true,
        _ => false,
    }
}

fn descriptor(t: &Token) -> (r: bool)
    ensures
        r == (t@ is FD),
{
    match t {
        Token::FD(_) => true,
        _ => false,
    }
}

/// Whether `r` is the error that `expected` says, or none.
pub open spec fn finds(r: Option<Error>, expected: Option<ErrorView>) -> bool {
    match expected {
        Some(e) => r is Some && r->0@ == e,
        None => r is None,
    }
}

/// What is wrong with a redirect: of two tokens, the first has to be `>`
/// or `<` and the second a target; of three, the first has to be a
/// descriptor, the second `>` or `<` and the third a target.
pub open spec fn investigated_redirect(tokens: Seq<TokenView>) -> Option<ErrorView> {
    if tokens.len() == 2 {
        if !is_direction(tokens[0]) {
            Some(
                positioned(
                    tokens,
                    0,
                    "The left-hand side of a redirect must be a redirect operator."@,
                ),
            )
        } else if !is_target(tokens[1]) {
            Some(positioned(tokens, 1, "The right-hand side of a redirect must be a string."@))
        } else {
            None
        }
    } else if tokens.len() == 3 {
        if !(tokens[0] is FD) {
            Some(
                positioned(
                    tokens,
                    0,
                    "The left-hand side of a redirect must be a file descriptor."@,
                ),
            )
        } else if !is_direction(tokens[1]) {
            Some(
                positioned(
                    tokens,
                    1,
                    "The middle token of a redirect must be a redirect operator."@,
                ),
            )
        } else if !is_target(tokens[2]) {
            Some(positioned(tokens, 2, "The right-hand side of a redirect must be a string."@))
        } else {
            None
        }
    } else {
        Some(syntax_error("Token length is not equal to 2 or 3."@))
    }
}

/// Looks for what is wrong with a redirect.
pub fn investigate_redirect(tokens: &[Token]) -> (r: Option<Error>)
    ensures
        finds(r, investigated_redirect(token_views(tokens@))),
{
    let n = tokens.len();
    assert(forall|i: int| 0 <= i < n ==> token_views(tokens@)[i] == tokens@[i]@);
    if n == 2 {
        if !direction(&tokens[0]) {
            return Some(
                new_error(
                    tokens,
                    0,
                    "The left-hand side of a redirect must be a redirect operator.",
                ),
            );
        }
        if !(word(&tokens[1]) || descriptor(&tokens[1])) {
            return Some(
                new_error(tokens, 1, "The right-hand side of a redirect must be a string."),
            );
        }
    } else if n == 3 {
        if !descriptor(&tokens[0]) {
            return Some(
                new_error(
                    tokens,
                    0,
                    "The left-hand side of a redirect must be a file descriptor.",
                ),
            );
        }
        if !direction(&tokens[1]) {
            return Some(
                new_error(
                    tokens,
                    1,
                    "The middle token of a redirect must be a redirect operator.",
                ),
            );
        }
        if !(word(&tokens[2]) || descriptor(&tokens[2])) {
            return Some(
                new_error(tokens, 2, "The right-hand side of a redirect must be a string."),
            );
        }
    } else {
        return Some(Error::new(ErrorKind::SyntaxError, "Token length is not equal to 2 or 3."));
    }
    None
}

/// What is wrong with an assignment: it has to be a name, the assign sign,
/// and a word or a number.
pub open spec fn investigated_assignment(tokens: Seq<TokenView>) -> Option<ErrorView> {
    if tokens.len() != 3 {
        Some(syntax_error("Token length is not equal to 3."@))
    } else if !(tokens[0] is Ident) {
        Some(
            positioned(tokens, 0, "The left-hand side of an assignment must be an identifier."@),
        )
    } else if !(tokens[1] is Assign) {
        Some(
            positioned(
                tokens,
                1,
                "The middle token of an assignment must be an assign operator."@,
            ),
        )
    } else if !(tokens[2] is String || tokens[2] is Number) {
        Some(
            positioned(
                tokens,
                2,
                "The right-hand side of an assignment must be a string or a number."@,
            ),
        )
    } else {
        None
    }
}

/// Looks for what is wrong with an assignment.
pub fn investigate_assignment(tokens: &[Token]) -> (r: Option<Error>)
    ensures
        finds(r, investigated_assignment(token_views(tokens@))),
{
    if tokens.len() != 3 {
        return Some(Error::new(ErrorKind::SyntaxError, "Token length is not equal to 3."));
    }
    assert(forall|i: int| 0 <= i < 3 ==> token_views(tokens@)[i] == tokens@[i]@);
    match &tokens[0] {
        Token::Ident(_) => {},
        _ => {
            return Some(
                new_error(
                    tokens,
                    0,
                    "The left-hand side of an assignment must be an identifier.",
                ),
            );
        },
    }
    match &tokens[1] {
        Token::Assign => {},
        _ => {
            return Some(
                new_error(
                    tokens,
                    1,
                    "The middle token of an assignment must be an assign operator.",
                ),
            );
        },
    }
    match &tokens[2] {
        Token::String(_) | Token::Number(_) => {},
        _ => {
            return Some(
                new_error(
                    tokens,
                    2,
                    "The right-hand side of an assignment must be a string or a number.",
                ),
            );
        },
    }
    None
}

/// The message for a token that cannot stand in a command.
pub open spec fn middle_message() -> Seq<char> {
    "The middle token of a command must be an string, identifier, number."@
}

/// What is wrong with the tokens of a command from `i` on. A word is
/// passed over. `>` and `<` need a token after them, and a descriptor
/// needs two; the tokens of such a redirect are passed over once its
/// start has been looked at. Any other token is an error at its place.
pub open spec fn investigated_from(tokens: Seq<TokenView>, i: int) -> Option<ErrorView>
    decreases tokens.len() - i,
{
    if i < 0 || i >= tokens.len() {
        None
    } else if is_direction(tokens[i]) {
        if i + 1 < tokens.len() {
            match investigated_redirect(tokens.subrange(i, i + 1)) {
                Some(_) => investigated_from(tokens, i + 2),
                None => None,
            }
        } else {
            Some(positioned(tokens, i, middle_message()))
        }
    } else if tokens[i] is FD {
        if i + 2 < tokens.len() {
            match investigated_redirect(tokens.subrange(i, i + 2)) {
                Some(_) => investigated_from(tokens, i + 3),
                None => None,
            }
        } else {
            Some(positioned(tokens, i, middle_message()))
        }
    } else if is_word(tokens[i]) {
        investigated_from(tokens, i + 1)
    } else {
        Some(positioned(tokens, i, middle_message()))
    }
}

/// What is wrong with a command: it needs a token; the first has to be a
/// word, a name or a number; the rest is looked at token by token.
pub open spec fn investigated_command(tokens: Seq<TokenView>) -> Option<ErrorView> {
    if tokens.len() == 0 {
        Some(syntax_error("Tokens must be at least 1 len long."@))
    } else if !is_word(tokens[0]) {
        Some(
            positioned(
                tokens,
                0,
                "The first token of a command must be an string, identifier or a number."@,
            ),
        )
    } else {
        investigated_from(tokens, 1)
    }
}

/// Looks for what is wrong with a command.
pub fn investigate_command(tokens: &[Token]) -> (r: Option<Error>)
    ensures
        finds(r, investigated_command(token_views(tokens@))),
{
    let n = tokens.len();
    let ghost views = token_views(tokens@);
    if n == 0 {
        return Some(Error::new(ErrorKind::SyntaxError, "Tokens must be at least 1 len long."));
    }
    assert(views[0] == tokens@[0]@);
    if !word(&tokens[0]) {
        return Some(
            new_error(
                tokens,
                0,
                "The first token of a command must be an string, identifier or a number.",
            ),
        );
    }
    let mut i: usize = 1;
    while i < n
        invariant
            1 <= i,
            n == tokens@.len(),
            views == token_views(tokens@),
            investigated_command(views) == investigated_from(views, i as int),
        decreases n - i,
    {
        assert(views[i as int] == tokens@[i as int]@);
        if direction(&tokens[i]) {
            if n - i > 1 {
                let part = slice_subrange(tokens, i, i + 1);
                assert(token_views(part@) =~= views.subrange(i as int, i + 1));
                match investigate_redirect(part) {
                    Some(_) => {
                        i = i + 2;
                    },
                    None => {
                        return None;
                    },
                }
            } else {
                return Some(
                    new_error(
                        tokens,
                        i,
                        "The middle token of a command must be an string, identifier, number.",
                    ),
                );
            }
        } else if descriptor(&tokens[i]) {
            if n - i > 2 {
                let part = slice_subrange(tokens, i, i + 2);
                assert(token_views(part@) =~= views.subrange(i as int, i + 2));
                match investigate_redirect(part) {
                    Some(_) => {
                        i = i + 3;
                    },
                    None => {
                        return None;
                    },
                }
            } else {
                return Some(
                    new_error(
                        tokens,
                        i,
                        "The middle token of a command must be an string, identifier, number.",
                    ),
                );
            }
        } else if word(&tokens[i]) {
            i = i + 1;
        } else {
            return Some(
                new_error(
                    tokens,
                    i,
                    "The middle token of a command must be an string, identifier, number.",
                ),
            );
        }
    }
    None
}

} // verus!
