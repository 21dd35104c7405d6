//! The command tree: what the parser produces and the evaluator consumes.

use vstd::prelude::*;
use std::collections::VecDeque;
use vstd::std_specs::vecdeque::VecDequeAdditionalSpecFns;
use crate::text::reversed;

verus! {

/// A value placeholder, resolved to a string or a descriptor only when the
/// command that holds it is evaluated.
#[derive(Debug, PartialEq)]
pub enum Expr {
    String(String),
    Ident(String),
    Number(usize),
    FD(i32),
}

pub enum ExprView {
    String(Seq<char>),
    Ident(Seq<char>),
    Number(usize),
    FD(i32),
}

impl View for Expr {
    type V = ExprView;

    open spec fn view(&self) -> ExprView {
        match self {
            Expr::String(s) => ExprView::String(s@),
            Expr::Ident(s) => ExprView::Ident(s@),
            Expr::Number(n) => ExprView::Number(*n),
            Expr::FD(n) => ExprView::FD(*n),
        }
    }
}

impl Clone for Expr {
    fn clone(&self) -> (r: Expr)
        ensures
            r@ == self@,
    {
        match self {
            Expr::String(s) => Expr::String(s.clone()),
            Expr::Ident(s) => Expr::Ident(s.clone()),
            Expr::Number(n) => Expr::Number(*n),
            Expr::FD(n) => Expr::FD(*n),
        }
    }
}

/// The views of a sequence of expressions.
pub open spec fn expr_views(s: Seq<Expr>) -> Seq<ExprView> {
    s.map_values(|e: Expr| e@)
}

/// `ident = expr`.
#[derive(Debug, PartialEq)]
pub struct Assign {
    pub ident: Expr,
    pub expr: Expr,
}

pub struct AssignView {
    pub ident: ExprView,
    pub expr: ExprView,
}

impl View for Assign {
    type V = AssignView;

    open spec fn view(&self) -> AssignView {
        AssignView { ident: self.ident@, expr: self.expr@ }
    }
}

impl Clone for Assign {
    fn clone(&self) -> (r: Assign)
        ensures
            r@ == self@,
    {
        Assign { ident: self.ident.clone(), expr: self.expr.clone() }
    }
}

/// The direction of a redirect: `>` or `<`.
#[derive(Debug, Clone, Copy, PartialEq, Eq, Structural)]
pub enum RedirectOperator {
    Gt,
    Lt,
}

/// `left operator right`: descriptor `left` of the child is remapped to
/// `right`, a file name or another descriptor.
#[derive(Debug, PartialEq)]
pub struct Redirect {
    pub left: Expr,
    pub right: Expr,
    pub operator: RedirectOperator,
}

pub struct RedirectView {
    pub left: ExprView,
    pub right: ExprView,
    pub operator: RedirectOperator,
}

impl View for Redirect {
    type V = RedirectView;

    open spec fn view(&self) -> RedirectView {
        RedirectView { left: self.left@, right: self.right@, operator: self.operator }
    }
}

impl Clone for Redirect {
    fn clone(&self) -> (r: Redirect)
        ensures
            r@ == self@,
    {
        Redirect { left: self.left.clone(), right: self.right.clone(), operator: self.operator }
    }
}

/// The views of a sequence of redirects.
pub open spec fn redirect_views(s: Seq<Redirect>) -> Seq<RedirectView> {
    s.map_values(|r: Redirect| r@)
}

/// One command: the program, its arguments, its redirects, and whether it
/// runs in the background.
#[derive(Debug, PartialEq)]
pub struct Command {
    pub expr: Expr,
    pub args: Vec<Expr>,
    pub redirects: Vec<Redirect>,
    pub background: bool,
}

pub struct CommandView {
    pub expr: ExprView,
    pub args: Seq<ExprView>,
    pub redirects: Seq<RedirectView>,
    pub background: bool,
}

impl View for Command {
    type V = CommandView;

    open spec fn view(&self) -> CommandView {
        CommandView {
            expr: self.expr@,
            args: expr_views(self.args@),
            redirects: redirect_views(self.redirects@),
            background: self.background,
        }
    }
}

/// A copy of a list of expressions.
pub fn clone_exprs(v: &Vec<Expr>) -> (r: Vec<Expr>)
    ensures
        expr_views(r@) == expr_views(v@),
{
    let mut r: Vec<Expr> = Vec::new();
    for i in 0..v.len()
        invariant
            r@.len() == i,
            forall|j: int| 0 <= j < i ==> r@[j]@ == v@[j]@,
    {
        r.push(v[i].clone());
    }
    assert(expr_views(r@) =~= expr_views(v@));
    r
}

/// A copy of a list of redirects.
pub fn clone_redirects(v: &Vec<Redirect>) -> (r: Vec<Redirect>)
    ensures
        redirect_views(r@) == redirect_views(v@),
{
    let mut r: Vec<Redirect> = Vec::new();
    for i in 0..v.len()
        invariant
            r@.len() == i,
            forall|j: int| 0 <= j < i ==> r@[j]@ == v@[j]@,
    {
        r.push(v[i].clone());
    }
    assert(redirect_views(r@) =~= redirect_views(v@));
    r
}

impl Clone for Command {
    fn clone(&self) -> (r: Command)
        ensures
            r@ == self@,
    {
        Command {
            expr: self.expr.clone(),
            args: clone_exprs(&self.args),
            redirects: clone_redirects(&self.redirects),
            background: self.background,
        }
    }
}

/// The views of a sequence of commands.
pub open spec fn command_views(s: Seq<Command>) -> Seq<CommandView> {
    s.map_values(|c: Command| c@)
}

/// A statement that stands alone: a command or an assignment.
#[derive(Debug, PartialEq)]
pub enum Statement {
    Command(Command),
    Assign(Assign),
}

pub enum StatementView {
    Command(CommandView),
    Assign(AssignView),
}

impl View for Statement {
    type V = StatementView;

    open spec fn view(&self) -> StatementView {
        match self {
            Statement::Command(c) => StatementView::Command(c@),
            Statement::Assign(a) => StatementView::Assign(a@),
        }
    }
}

impl Clone for Statement {
    fn clone(&self) -> (r: Statement)
        ensures
            r@ == self@,
    {
        match self {
            Statement::Command(c) => Statement::Command(c.clone()),
            Statement::Assign(a) => Statement::Assign(a.clone()),
        }
    }
}

/// A pipeline: commands whose standard streams are chained, first to last.
#[derive(Debug, PartialEq)]
pub struct Pipe {
    commands: VecDeque<Command>,
}

impl View for Pipe {
    type V = Seq<CommandView>;

    closed spec fn view(&self) -> Seq<CommandView> {
        command_views(self.commands@)
    }
}

impl Pipe {
    pub fn new() -> (r: Pipe)
        ensures
            r@ == Seq::<CommandView>::empty(),
    {
        let r = Pipe { commands: VecDeque::new() };
        assert(r@ =~= Seq::<CommandView>::empty());
        r
    }

    pub fn is_empty(&self) -> (r: bool)
        ensures
            r == (self@.len() == 0),
    {
        self.commands.len() == 0
    }

    /// The number of commands that are left.
    pub fn len(&self) -> (r: usize)
        ensures
            r == self@.len(),
    {
        self.commands.len()
    }

    pub fn push_back(&mut self, command: Command)
        ensures
            final(self)@ == old(self)@.push(command@),
    {
        self.commands.push_back(command);
        assert(self@ =~= old(self)@.push(command@));
    }

    pub fn pop_front(&mut self) -> (r: Option<Command>)
        ensures
            old(self)@.len() == 0 ==> r is None && final(self)@ == old(self)@,
            old(self)@.len() > 0 ==> r is Some && r->0@ == old(self)@[0] && final(self)@ == old(
                self,
            )@.drop_first(),
    {
        let r = self.commands.pop_front();
        assert(old(self)@.len() > 0 ==> self@ =~= old(self)@.drop_first());
        r
    }

    /// The pipeline of the given commands, in their order.
    pub fn from_commands(commands: Vec<Command>) -> (r: Pipe)
        ensures
            r@ == command_views(commands@),
    {
        let mut r = Pipe::new();
        let ghost all = commands@;
        let mut rest = reversed(commands);
        while rest.len() > 0
            invariant
                rest@.len() <= all.len(),
                rest@ == all.reverse().take(rest@.len() as int),
                r@ == command_views(all.take(all.len() - rest@.len())),
            decreases rest@.len(),
        {
            let ghost k = all.len() - rest@.len();
            let c = rest.pop().unwrap();
            assert(c == all[k]);
            r.push_back(c);
            assert(command_views(all.take(k + 1)) =~= command_views(all.take(k)).push(c@));
        }
        assert(all.take(all.len() as int) == all);
        r
    }
}

impl Clone for Pipe {
    fn clone(&self) -> (r: Pipe)
        ensures
            r@ == self@,
    {
        let mut r = Pipe::new();
        for i in 0..self.commands.len()
            invariant
                r@ == self@.take(i as int),
        {
            r.push_back(self.commands[i].clone());
            assert(self@.take(i + 1) =~= self@.take(i as int).push(self.commands@[i as int]@));
        }
        assert(self@.take(self@.len() as int) == self@);
        r
    }
}

/// A node of the command tree.
#[derive(Debug, PartialEq)]
pub enum Ast {
    Semicolon(VecDeque<Ast>),
    Pipe(Pipe),
    Statement(Statement),
}

/// A node of the command tree as contracts see it.
pub enum AstView {
    Semicolon(Seq<AstView>),
    Pipe(Seq<CommandView>),
    Statement(StatementView),
}

impl View for Ast {
    type V = AstView;

    open spec fn view(&self) -> AstView {
        self.shape()
    }
}

impl Clone for Ast {
    fn clone(&self) -> (r: Ast)
        ensures
            r@ == self@,
        decreases self,
    {
        match self {
            Ast::Semicolon(children) => {
                let mut copies: VecDeque<Ast> = VecDeque::new();
                let n = children.len();
                let mut i: usize = 0;
                while i < n
                    invariant
                        i <= n,
                        n == children@.len(),
                        *self == Ast::Semicolon(*children),
                        copies@.len() == i,
                        forall|j: int| 0 <= j < i ==> copies@[j]@ == children@[j]@,
                    decreases n - i,
                {
                    assert(decreases_to!(*children => children[i as int]));
                    assert(self->Semicolon_0 == *children);
                    assert(decreases_to!(*self => self->Semicolon_0));
                    copies.push_back(children[i].clone());
                    i = i + 1;
                }
                let r = Ast::Semicolon(copies);
                proof {
                    lemma_shapes(copies, 0);
                    lemma_shapes(*children, 0);
                    assert(Ast::shapes(copies, 0) =~= Ast::shapes(*children, 0));
                }
                r
            },
            Ast::Pipe(pipe) => Ast::Pipe(pipe.clone()),
            Ast::Statement(statement) => Ast::Statement(statement.clone()),
        }
    }
}

/// The shapes of the children from `from` on are the shapes of each, in
/// their order.
pub proof fn lemma_shapes(children: VecDeque<Ast>, from: int)
    requires
        0 <= from <= children.len(),
    ensures
        Ast::shapes(children, from).len() == children.len() - from,
        forall|j: int|
            0 <= j < children.len() - from ==> (#[trigger] Ast::shapes(children, from)[j])
                == children@[from + j]@,
    decreases children.len() - from,
{
    if from < children.len() {
        lemma_shapes(children, from + 1);
        assert forall|j: int| 0 <= j < children.len() - from implies (#[trigger] Ast::shapes(
            children,
            from,
        )[j]) == children@[from + j]@ by {
            if j > 0 {
                assert(Ast::shapes(children, from)[j] == Ast::shapes(children, from + 1)[j - 1]);
            }
        }
    }
}

impl Ast {
    /// The view of a node.
    pub open spec fn shape(self) -> AstView
        decreases self,
    {
        match self {
            Ast::Semicolon(children) => AstView::Semicolon(Ast::shapes(children, 0)),
            Ast::Pipe(pipe) => AstView::Pipe(pipe@),
            Ast::Statement(statement) => AstView::Statement(statement@),
        }
    }

    /// The views of the children `children[from..]` of a sequence node.
    pub open spec fn shapes(children: VecDeque<Ast>, from: int) -> Seq<AstView>
        decreases children, children.len() - from,
    {
        if 0 <= from < children.len() {
            seq![children[from].shape()] + Ast::shapes(children, from + 1)
        } else {
            Seq::empty()
        }
    }

    /// The children of a sequence node; none for any other node.
    pub open spec fn children(self) -> Seq<Ast> {
        match self {
            Ast::Semicolon(v) => v@,
            _ => Seq::empty(),
        }
    }

    /// An empty sequence node.
    pub fn new() -> (r: Ast)
        ensures
            r is Semicolon,
            r.children().len() == 0,
    {
        Ast::Semicolon(VecDeque::new())
    }

    pub fn is_empty(&self) -> (r: bool)
        ensures
            r == (*self is Semicolon && self.children().len() == 0),
    {
        match self {
            Ast::Semicolon(v) => v.len() == 0,
            _ => false,
        }
    }

    /// Appends a child to a sequence node.
    pub fn push_back(&mut self, ast: Ast)
        requires
            *old(self) is Semicolon,
        ensures
            *final(self) is Semicolon,
            final(self).children() == old(self).children().push(ast),
    {
        match self {
            Ast::Semicolon(v) => {
                v.push_back(ast);
            },
            _ => {},
        }
    }

    /// Takes the first child off a sequence node.
    pub fn pop_front(&mut self) -> (r: Option<Ast>)
        requires
            *old(self) is Semicolon,
        ensures
            *final(self) is Semicolon,
            old(self).children().len() == 0 ==> r is None && final(self).children() == old(
                self,
            ).children(),
            old(self).children().len() > 0 ==> r == Some(old(self).children()[0])
                && final(self).children() == old(self).children().drop_first(),
    {
        match self {
            Ast::Semicolon(v) => {
                let r = v.pop_front();
                assert(old(self).children().len() > 0 ==> v@ =~= old(self).children().drop_first());
                r
            },
            _ => None,
        }
    }
}

} // verus!
