//! The parser: from a command line to its command tree.
//!
//! The line is lexed and cut at its semicolons. Each piece that is not
//! empty becomes one child of the tree: a pipeline where it holds a `|`,
//! an assignment where it holds a `=` among exactly three tokens, and a
//! command otherwise.

use vstd::prelude::*;
use crate::ast::{Ast, AstView, Statement, StatementView, lemma_shapes};
use crate::error::{Error, ErrorView};
use crate::lexer::{Lexer, lexed};
use crate::lite_parser::{
    parse_assign,
    parse_command,
    parse_pipe,
    parsed_assign,
    parsed_command,
    parsed_pipe,
};
use crate::token::{Token, TokenView, token_views};
use crate::utils::{find_token, lemma_position_of, piece_views, pieces, recursion_split};

verus! {

/// The node that a piece of a command line stands for; none for an empty
/// piece.
pub open spec fn node_of(piece: Seq<TokenView>) -> Option<Result<AstView, ErrorView>> {
    if piece.len() == 0 {
        None
    } else if piece.contains(TokenView::Pipe) {
        Some(
            match parsed_pipe(piece) {
                Ok(commands) => Ok(AstView::Pipe(commands)),
                Err(e) => Err(e),
            },
        )
    } else if piece.contains(TokenView::Assign) && piece.len() == 3 {
        Some(
            match parsed_assign(piece[0], piece[1], piece[2]) {
                Ok(assign) => Ok(AstView::Statement(StatementView::Assign(assign))),
                Err(e) => Err(e),
            },
        )
    } else {
        Some(
            match parsed_command(piece) {
                Ok(command) => Ok(AstView::Statement(StatementView::Command(command))),
                Err(e) => Err(e),
            },
        )
    }
}

/// The nodes of the pieces from `i` on, after the nodes `done`: all of
/// them, or the first error.
pub open spec fn nodes_of(parts: Seq<Seq<TokenView>>, i: int, done: Seq<AstView>) -> Result<
    Seq<AstView>,
    ErrorView,
>
    decreases parts.len() - i,
{
    if i < 0 || i >= parts.len() {
        Ok(done)
    } else {
        match node_of(parts[i]) {
            None => nodes_of(parts, i + 1, done),
            Some(Ok(node)) => nodes_of(parts, i + 1, done.push(node)),
            Some(Err(e)) => Err(e),
        }
    }
}

/// The children that the tokens of a line add to a tree that holds
/// `done`. The last token, which marks the end of the input, is left out.
pub open spec fn parsed_line(tokens: Seq<TokenView>, done: Seq<AstView>) -> Result<
    Seq<AstView>,
    ErrorView,
> {
    let body = if tokens.len() > 0 {
        tokens.drop_last()
    } else {
        tokens
    };
    nodes_of(pieces(body, TokenView::Semicolon), 0, done)
}

/// The views of the children of a sequence node.
pub open spec fn children_of(tree: Ast) -> Seq<AstView> {
    Ast::shapes(tree->Semicolon_0, 0)
}

/// Adds to the sequence `tree` one child for each piece of `tokens`
/// between semicolons that is not empty. At the first piece that is
/// refused, the children before it have been added.
pub fn parse_tokens(tokens: &[Token], tree: &mut Ast) -> (r: Result<(), Error>)
    requires
        *old(tree) is Semicolon,
    ensures
        *final(tree) is Semicolon,
        match nodes_of(
            pieces(token_views(tokens@), TokenView::Semicolon),
            0,
            children_of(*old(tree)),
        ) {
            Err(e) => r is Err && r->Err_0@ == e,
            Ok(nodes) => r is Ok && children_of(*final(tree)) == nodes,
        },
{
    let ghost before = children_of(*tree);
    let semicolon = Token::Semicolon;
    let entries = recursion_split(&semicolon, tokens);
    let ghost parts = piece_views(entries@);
    let bar = Token::Pipe;
    let equals = Token::Assign;
    let mut i: usize = 0;
    while i < entries.len()
        invariant
            i <= entries@.len(),
            before == children_of(*old(tree)),
            parts == piece_views(entries@),
            parts == pieces(token_views(tokens@), TokenView::Semicolon),
            *tree is Semicolon,
            bar@ == TokenView::Pipe,
            equals@ == TokenView::Assign,
            nodes_of(parts, 0, before) == nodes_of(parts, i as int, children_of(*tree)),
        decreases entries@.len() - i,
    {
        let piece = &entries[i];
        let ghost view = token_views(piece@);
        assert(parts[i as int] == view);
        let ghost done = children_of(*tree);
        if piece.len() == 0 {
            i = i + 1;
            continue ;
        }
        proof {
            lemma_position_of(view, TokenView::Pipe);
            lemma_position_of(view, TokenView::Assign);
        }
        let node = if find_token(&bar, piece.as_slice()) < piece.len() {
            match parse_pipe(piece.as_slice()) {
                Ok(pipe) => Ast::Pipe(pipe),
                Err(e) => {
                    return Err(e);
                },
            }
        } else if find_token(&equals, piece.as_slice()) < piece.len() && piece.len() == 3 {
            assert(view[0] == piece@[0]@ && view[1] == piece@[1]@ && view[2] == piece@[2]@);
            let three: [Token; 3] = [piece[0].clone(), piece[1].clone(), piece[2].clone()];
            match parse_assign(&three) {
                Ok(assign) => Ast::Statement(Statement::Assign(assign)),
                Err(e) => {
                    return Err(e);
                },
            }
        } else {
            match parse_command(piece.as_slice()) {
                Ok(command) => Ast::Statement(Statement::Command(command)),
                Err(e) => {
                    return Err(e);
                },
            }
        };
        assert(node_of(view) == Some(Ok::<AstView, ErrorView>(node@)));
        let ghost children = tree->Semicolon_0;
        tree.push_back(node);
        proof {
            let grown = tree->Semicolon_0;
            lemma_shapes(children, 0);
            lemma_shapes(grown, 0);
            assert(children_of(*tree) =~= done.push(node@));
        }
        i = i + 1;
    }
    Ok(())
}

/// Parses a script and returns its tree. The script is cleaned and read by
/// the lexer of scripts.
pub fn parse_script(source: &str) -> (r: Result<Ast, Error>)
    ensures
        match crate::script::lexed(crate::script::cleaned(source@), 0, Seq::empty()) {
            Err(e) => r is Err && r->Err_0@ == e,
            Ok(tokens) => match parsed_line(tokens, Seq::empty()) {
                Err(e) => r is Err && r->Err_0@ == e,
                Ok(nodes) => r is Ok && r->Ok_0@ == AstView::Semicolon(nodes),
            },
        },
{
    let mut lexer = crate::script::Lexer::new(source);
    let mut tokens = match lexer.tokenize() {
        Ok(tokens) => tokens,
        Err(e) => {
            return Err(e);
        },
    };
    let ghost all = token_views(tokens@);
    let _ = tokens.pop();
    proof {
        if all.len() > 0 {
            assert(token_views(tokens@) =~= all.drop_last());
        } else {
            assert(token_views(tokens@) =~= all);
        }
    }
    let mut tree = Ast::new();
    proof {
        lemma_shapes(tree->Semicolon_0, 0);
        assert(children_of(tree) =~= Seq::<AstView>::empty());
    }
    match parse_tokens(tokens.as_slice(), &mut tree) {
        Ok(_) => Ok(tree),
        Err(e) => Err(e),
    }
}

#[derive(Debug)]
pub struct Parser(Lexer, Ast);

impl Parser {
    /// The lexer of the parser.
    pub closed spec fn lexer(self) -> Lexer {
        self.0
    }

    /// The children of the tree that has been built so far.
    pub closed spec fn nodes(self) -> Seq<AstView> {
        children_of(self.1)
    }

    /// The invariant of a parser: its lexer is well formed and its tree is
    /// a sequence.
    pub closed spec fn wf(self) -> bool {
        self.0.wf() && self.1 is Semicolon
    }

    /// A parser for `input`.
    pub fn new(input: &str) -> (r: Parser)
        ensures
            r.wf(),
            r.lexer()@ == Lexer::new_view(input@),
            r.nodes() == Seq::<AstView>::empty(),
    {
        let tree = Ast::new();
        proof {
            lemma_shapes(tree->Semicolon_0, 0);
            assert(children_of(tree) =~= Seq::<AstView>::empty());
        }
        Parser(Lexer::new(input), tree)
    }

    /// Parses the line and returns its tree: a sequence with one child for
    /// each piece between semicolons. A second call adds nothing.
    pub fn parse(&mut self) -> (r: Result<Ast, Error>)
        requires
            old(self).wf(),
        ensures
            final(self).wf(),
            old(self).lexer()@.is_eof ==> r is Ok && r->Ok_0@ == AstView::Semicolon(
                old(self).nodes(),
            ),
            !old(self).lexer()@.is_eof ==> match lexed(
                old(self).lexer()@.input,
                old(self).lexer()@.position,
                Seq::empty(),
            ) {
                Err(e) => r is Err && r->Err_0@ == e,
                Ok(tokens) => match parsed_line(tokens, old(self).nodes()) {
                    Err(e) => r is Err && r->Err_0@ == e,
                    Ok(nodes) => r is Ok && r->Ok_0@ == AstView::Semicolon(nodes)
                        && final(self).nodes() == nodes,
                },
            },
    {
        let ghost was_eof = self.0@.is_eof;
        let ghost before = self.nodes();
        let mut tokens = match self.0.tokenize() {
            Ok(tokens) => tokens,
            Err(e) => {
                return Err(e);
            },
        };
        let ghost all = token_views(tokens@);
        let _ = tokens.pop();
        let ghost body = token_views(tokens@);
        proof {
            if all.len() > 0 {
                assert(body =~= all.drop_last());
            } else {
                assert(body =~= all);
            }
            if was_eof {
                assert(body.len() == 0);
                lemma_position_of(body, TokenView::Semicolon);
                assert(crate::utils::before(body, TokenView::Semicolon) =~= body);
                assert(crate::utils::after(body, TokenView::Semicolon).len() == 0);
                assert(pieces(body, TokenView::Semicolon) =~= seq![body]);
                reveal_with_fuel(nodes_of, 3);
                assert(nodes_of(pieces(body, TokenView::Semicolon), 0, before) == Ok::<
                    Seq<AstView>,
                    ErrorView,
                >(before));
            }
        }
        match parse_tokens(tokens.as_slice(), &mut self.1) {
            Ok(_) => {},
            Err(e) => {
                return Err(e);
            },
        }
        let tree = self.1.clone();
        Ok(tree)
    }
}

} // verus!
