//! The expression resolver: from the placeholders of a command to the
//! strings that the command is run with.
//!
//! Nothing is resolved before the command that holds it is evaluated, so a
//! variable that an earlier statement of the same line has set is seen.

use vstd::prelude::*;
use crate::ast::{Assign, AssignView, Command, Expr, ExprView};
use crate::error::{Error, ErrorKind, ErrorView, error_of};
use crate::path::{expands_to, globbing};
use crate::sh_vars::ShVars;
use crate::text::{decimal, string_views, usize_to_string};

verus! {

/// The value of the variable `name`: the empty string where it is not set.
pub open spec fn lookup(vars: Map<Seq<char>, Seq<char>>, name: Seq<char>) -> Seq<char> {
    if vars.dom().contains(name) {
        vars[name]
    } else {
        Seq::empty()
    }
}

/// The error for a descriptor where an argument is expected.
pub open spec fn args_error() -> ErrorView {
    error_of(
        ErrorKind::EngineError,
        "Extract command args error: Invalid abstract syntax tree"@,
    )
}

/// The error for a descriptor where the program is expected.
pub open spec fn name_error() -> ErrorView {
    error_of(
        ErrorKind::EngineError,
        "Extract command name error: Invalid abstract syntax tree"@,
    )
}

/// The error for an assignment that is not `name = word`.
pub open spec fn assign_error() -> ErrorView {
    error_of(ErrorKind::EngineError, "Extract assign error: Invalid abstract syntax tree"@)
}

/// The string that stands for `expr` where no expansion applies: a word as
/// it is, the value of a variable, a number in decimal. A descriptor has
/// none.
pub open spec fn plain(expr: ExprView, vars: Map<Seq<char>, Seq<char>>) -> Option<Seq<char>> {
    match expr {
        ExprView::String(s) => Some(s),
        ExprView::Ident(name) => Some(lookup(vars, name)),
        ExprView::Number(n) => Some(decimal(n as nat)),
        ExprView::FD(_) => None,
    }
}

/// Whether `part` is what the argument `arg` may resolve to: a word
/// expands against the file system; a variable and a number give one
/// string each; a descriptor gives nothing.
pub open spec fn resolves(
    arg: ExprView,
    vars: Map<Seq<char>, Seq<char>>,
    part: Seq<Seq<char>>,
) -> bool {
    match arg {
        ExprView::String(s) => expands_to(s, part),
        ExprView::FD(_) => false,
        _ => part == seq![plain(arg, vars)->0],
    }
}

/// Whether `strings` is what the arguments `args` may resolve to: each
/// argument gives its part, and the parts follow each other in the order
/// of the arguments.
pub open spec fn resolved(
    args: Seq<ExprView>,
    vars: Map<Seq<char>, Seq<char>>,
    strings: Seq<Seq<char>>,
) -> bool {
    exists|parts: Seq<Seq<Seq<char>>>|
        {
            &&& parts.len() == args.len()
            &&& strings == parts.flatten()
            &&& forall|i: int| 0 <= i < args.len() ==> resolves(args[i], vars, #[trigger] parts[i])
        }
}

/// Whether one of the arguments is a descriptor.
pub open spec fn has_descriptor(args: Seq<ExprView>) -> bool {
    exists|i: int| 0 <= i < args.len() && #[trigger] args[i] is FD
}

/// The value of a variable for a command: the empty string where it is not
/// set.
fn value_of(sh_vars: &ShVars, name: &String) -> (r: String)
    requires
        sh_vars.wf(),
    ensures
        r@ == lookup(sh_vars@, name@),
{
    match sh_vars.get(name.as_str()) {
        Ok(v) => String::from_str(v),
        Err(_) => String::new(),
    }
}

/// Resolves the arguments of a command, in their order. A word is expanded
/// against the file system and may give several strings. A descriptor
/// among the arguments is an `EngineError`.
pub fn extract_command_args(command: &Command, sh_vars: &ShVars) -> (r: Result<
    Vec<String>,
    Error,
>)
    requires
        sh_vars.wf(),
    ensures
        has_descriptor(command@.args) ==> r is Err && r->Err_0@ == args_error(),
        !has_descriptor(command@.args) ==> r is Ok && resolved(
            command@.args,
            sh_vars@,
            string_views(r->Ok_0@),
        ),
{
    let mut v: Vec<String> = Vec::new();
    let ghost mut parts: Seq<Seq<Seq<char>>> = Seq::empty();
    let n = command.args.len();
    let mut i: usize = 0;
    while i < n
        invariant
            sh_vars.wf(),
            n == command.args@.len(),
            i <= n,
            parts.len() == i,
            string_views(v@) == parts.flatten(),
            forall|j: int| 0 <= j < i ==> resolves(command@.args[j], sh_vars@, #[trigger] parts[j]),
            forall|j: int| 0 <= j < i ==> !(#[trigger] command@.args[j] is FD),
        decreases n - i,
    {
        let ghost before = v@;
        assert(command@.args[i as int] == command.args@[i as int]@);
        match &command.args[i] {
            Expr::String(string) => {
                let mut found = globbing(string.as_str());
                let ghost part = string_views(found@);
                v.append(&mut found);
                proof {
                    assert(string_views(v@) =~= string_views(before) + part);
                    parts.lemma_flatten_push(part);
                    parts = parts.push(part);
                }
            },
            Expr::Ident(ident) => {
                let s = value_of(sh_vars, ident);
                let ghost part = seq![s@];
                v.push(s);
                proof {
                    assert(string_views(v@) =~= string_views(before) + part);
                    parts.lemma_flatten_push(part);
                    parts = parts.push(part);
                }
            },
            Expr::Number(number) => {
                let s = usize_to_string(*number);
                let ghost part = seq![s@];
                v.push(s);
                proof {
                    assert(string_views(v@) =~= string_views(before) + part);
                    parts.lemma_flatten_push(part);
                    parts = parts.push(part);
                }
            },
            Expr::FD(_) => {
                return Err(
                    Error::new(
                        ErrorKind::EngineError,
                        "Extract command args error: Invalid abstract syntax tree",
                    ),
                );
            },
        }
        i = i + 1;
    }
    Ok(v)
}

/// Resolves the program of a command. The word is taken as it is, without
/// expansion. A descriptor is an `EngineError`.
pub fn extract_command_name(command: &Command, sh_vars: &ShVars) -> (r: Result<String, Error>)
    requires
        sh_vars.wf(),
    ensures
        match plain(command@.expr, sh_vars@) {
            Some(name) => r is Ok && r->Ok_0@ == name,
            None => r is Err && r->Err_0@ == name_error(),
        },
{
    match &command.expr {
        Expr::String(string) => Ok(string.clone()),
        Expr::Ident(ident) => Ok(value_of(sh_vars, ident)),
        Expr::Number(number) => Ok(usize_to_string(*number)),
        Expr::FD(_) => Err(
            Error::new(
                ErrorKind::EngineError,
                "Extract command name error: Invalid abstract syntax tree",
            ),
        ),
    }
}

/// The name and the value of an assignment `name = word`.
pub open spec fn assigned(assign: AssignView) -> Option<(Seq<char>, Seq<char>)> {
    match (assign.ident, assign.expr) {
        (ExprView::Ident(key), ExprView::String(value)) => Some((key, value)),
        _ => None,
    }
}

/// Takes the name and the value out of an assignment. Anything but a name
/// on the left and a word on the right is an `EngineError`.
pub fn extract_assign(assign: Assign) -> (r: Result<(String, String), Error>)
    ensures
        match assigned(assign@) {
            Some((key, value)) => r is Ok && r->Ok_0.0@ == key && r->Ok_0.1@ == value,
            None => r is Err && r->Err_0@ == assign_error(),
        },
{
    let key = match assign.ident {
        Expr::Ident(key) => key,
        _ => {
            return Err(
                Error::new(
                    ErrorKind::EngineError,
                    "Extract assign error: Invalid abstract syntax tree",
                ),
            );
        },
    };
    let value = match assign.expr {
        Expr::String(value) => value,
        _ => {
            return Err(
                Error::new(
                    ErrorKind::EngineError,
                    "Extract assign error: Invalid abstract syntax tree",
                ),
            );
        },
    };
    Ok((key, value))
}

} // verus!
