//! The command tree as a flat list of steps, in the order in which the
//! evaluator takes them.
//!
//! A sequence gives the steps of its children one after the other. A
//! pipeline closes the handoff cell, in case an evaluation that failed has
//! left something in it, opens it, runs its commands from left to right as
//! stages, the last of them marked, closes the cell and waits. A command
//! that stands alone closes the cell, runs as a single stage, marked as the
//! last, and waits. An assignment is one step.

use vstd::prelude::*;
use std::collections::VecDeque;
use vstd::std_specs::vecdeque::VecDequeAdditionalSpecFns;
use crate::ast::{Assign, AssignView, Ast, Command, CommandView, Pipe, Statement};

verus! {

/// One step of the evaluator.
#[derive(Debug, PartialEq)]
pub enum Op {
    /// Set a variable.
    Assign(Assign),
    /// Open the handoff cell for a pipeline.
    Open,
    /// Run one command; the flag marks the last stage of its pipeline.
    Stage(Command, bool),
    /// Close the handoff cell.
    Close,
    /// Wait for the children that have been started.
    Wait,
}

pub enum OpView {
    Assign(AssignView),
    Open,
    Stage(CommandView, bool),
    Close,
    Wait,
}

impl View for Op {
    type V = OpView;

    open spec fn view(&self) -> OpView {
        match self {
            Op::Assign(a) => OpView::Assign(a@),
            Op::Open => OpView::Open,
            Op::Stage(c, last) => OpView::Stage(c@, *last),
            Op::Close => OpView::Close,
            Op::Wait => OpView::Wait,
        }
    }
}

/// The views of a sequence of steps.
pub open spec fn op_views(s: Seq<Op>) -> Seq<OpView> {
    s.map_values(|o: Op| o@)
}

/// The stages of a pipeline: one for each command, the last one marked.
pub open spec fn stages(commands: Seq<CommandView>) -> Seq<OpView> {
    Seq::new(commands.len(), |i: int| OpView::Stage(commands[i], i == commands.len() - 1))
}

/// The steps of a pipeline.
pub open spec fn pipeline(commands: Seq<CommandView>) -> Seq<OpView> {
    seq![OpView::Close, OpView::Open] + stages(commands) + seq![OpView::Close, OpView::Wait]
}

/// The steps of a command that stands alone.
pub open spec fn alone(command: CommandView) -> Seq<OpView> {
    seq![OpView::Close, OpView::Stage(command, true), OpView::Wait]
}

/// The steps of a command tree.
pub open spec fn program(ast: Ast) -> Seq<OpView>
    decreases ast,
{
    match ast {
        Ast::Semicolon(children) => programs(children, 0),
        Ast::Pipe(pipe) => pipeline(pipe@),
        Ast::Statement(Statement::Command(command)) => alone(command@),
        Ast::Statement(Statement::Assign(assign)) => seq![OpView::Assign(assign@)],
    }
}

/// The steps of the children `children[from..]` of a sequence.
pub open spec fn programs(children: VecDeque<Ast>, from: int) -> Seq<OpView>
    decreases children, children.len() - from,
{
    if 0 <= from < children.len() {
        program(children[from]) + programs(children, from + 1)
    } else {
        Seq::empty()
    }
}

/// Appends the steps of a pipeline to `ops`.
fn compile_pipe(pipe: &Pipe, ops: &mut Vec<Op>)
    ensures
        op_views(final(ops)@) == op_views(old(ops)@) + pipeline(pipe@),
{
    let ghost before = op_views(ops@);
    let mut rest = pipe.clone();
    ops.push(Op::Close);
    ops.push(Op::Open);
    assert(op_views(ops@) =~= before + seq![OpView::Close, OpView::Open]);
    let ghost all = pipe@;
    while rest.len() > 0
        invariant
            rest@.len() <= all.len(),
            rest@ == all.skip(all.len() - rest@.len()),
            op_views(ops@) == before + seq![OpView::Close, OpView::Open] + stages(all).take(
                all.len() - rest@.len(),
            ),
        decreases rest@.len(),
    {
        let ghost k = all.len() - rest@.len();
        let ghost current = op_views(ops@);
        let command = rest.pop_front().unwrap();
        let last = rest.is_empty();
        assert(command@ == all[k]);
        assert(rest@ =~= all.skip(k + 1));
        ops.push(Op::Stage(command, last));
        assert(op_views(ops@) =~= current.push(OpView::Stage(all[k], last)));
        assert(stages(all).take(k + 1) =~= stages(all).take(k).push(stages(all)[k]));
    }
    assert(stages(all).take(all.len() as int) =~= stages(all));
    let ghost current = op_views(ops@);
    ops.push(Op::Close);
    ops.push(Op::Wait);
    assert(op_views(ops@) =~= current + seq![OpView::Close, OpView::Wait]);
    assert(op_views(ops@) =~= before + pipeline(all));
}

/// Appends the steps of a command tree to `ops`.
fn compile_into(ast: &Ast, ops: &mut Vec<Op>)
    ensures
        op_views(final(ops)@) == op_views(old(ops)@) + program(*ast),
    decreases ast,
{
    let ghost before = op_views(ops@);
    match ast {
        Ast::Semicolon(children) => {
            let n = children.len();
            let mut i: usize = 0;
            assert(op_views(ops@) =~= before + Seq::<OpView>::empty());
            while i < n
                invariant
                    i <= n,
                    n == children@.len(),
                    *ast == Ast::Semicolon(*children),
                    op_views(ops@) + programs(*children, i as int) == before + programs(
                        *children,
                        0,
                    ),
                decreases n - i,
            {
                let ghost current = op_views(ops@);
                assert(decreases_to!(*children => children[i as int]));
                assert(ast->Semicolon_0 == *children);
                assert(decreases_to!(*ast => ast->Semicolon_0));
                compile_into(&children[i], ops);
                assert(current + programs(*children, i as int) =~= op_views(ops@) + programs(
                    *children,
                    i + 1,
                ));
                i = i + 1;
            }
            assert(op_views(ops@) + programs(*children, n as int) =~= op_views(ops@));
        },
        Ast::Pipe(pipe) => {
            compile_pipe(pipe, ops);
        },
        Ast::Statement(Statement::Command(command)) => {
            ops.push(Op::Close);
            ops.push(Op::Stage(command.clone(), true));
            ops.push(Op::Wait);
            assert(op_views(ops@) =~= before + program(*ast));
        },
        Ast::Statement(Statement::Assign(assign)) => {
            ops.push(Op::Assign(assign.clone()));
            assert(op_views(ops@) =~= before + program(*ast));
        },
    }
}

/// The steps of a command tree, in the order in which they are taken.
pub fn compile(ast: &Ast) -> (ops: Vec<Op>)
    ensures
        op_views(ops@) == program(*ast),
{
    let mut ops: Vec<Op> = Vec::new();
    compile_into(ast, &mut ops);
    assert(op_views(ops@) =~= program(*ast));
    ops
}

/// A pipeline of `n` commands has `n` stages, of which the last one, and
/// no other, is marked as the last.
pub proof fn lemma_stages(commands: Seq<CommandView>, k: int)
    requires
        0 <= k < commands.len(),
    ensures
        stages(commands).len() == commands.len(),
        stages(commands)[k] == OpView::Stage(commands[k], k == commands.len() - 1),
        pipeline(commands).len() == commands.len() + 4,
        pipeline(commands)[0] == OpView::Close,
        pipeline(commands)[1] == OpView::Open,
        pipeline(commands)[k + 2] == stages(commands)[k],
        pipeline(commands)[commands.len() as int + 2] == OpView::Close,
        pipeline(commands)[commands.len() as int + 3] == OpView::Wait,
{
}

} // verus!
