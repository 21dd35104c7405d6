//! The commands that the shell runs itself rather than as a program.
//!
//! The table is fixed: `cd`, `exit`, `abort` and `printenv`. Looking a
//! command up decides what is to be done; doing it (changing directory,
//! ending the process, writing to the terminal) is left to the caller.

use vstd::prelude::*;
use crate::sh_vars::ShVars;
use crate::text::{chars_of, parse_i32, parsed_i32, same_text, string_views};

verus! {

/// What a builtin command asks for.
#[derive(Debug, PartialEq)]
pub enum Builtin {
    /// End the shell at once, abnormally.
    Abort,
    /// Change the working directory to the given path.
    ChangeDir(String),
    /// End the shell with the given code.
    Exit(i32),
    /// Print the variable of the given name, or every variable where the
    /// name is empty.
    PrintEnv(String),
}

pub enum BuiltinView {
    Abort,
    ChangeDir(Seq<char>),
    Exit(i32),
    PrintEnv(Seq<char>),
}

impl View for Builtin {
    type V = BuiltinView;

    open spec fn view(&self) -> BuiltinView {
        match self {
            Builtin::Abort => BuiltinView::Abort,
            Builtin::ChangeDir(p) => BuiltinView::ChangeDir(p@),
            Builtin::Exit(c) => BuiltinView::Exit(*c),
            Builtin::PrintEnv(k) => BuiltinView::PrintEnv(k@),
        }
    }
}

/// Whether `command` names a builtin.
pub open spec fn names_builtin(command: Seq<char>) -> bool {
    command == "abort"@ || command == "cd"@ || command == "exit"@ || command == "printenv"@
}

/// The first argument, or `default` where there is none.
pub open spec fn first_or(args: Seq<Seq<char>>, default: Seq<char>) -> Seq<char> {
    if args.len() > 0 {
        args[0]
    } else {
        default
    }
}

/// The code that `exit` ends the shell with: its first argument as a
/// number, and 0 where there is none or it is no number.
pub open spec fn exit_code(args: Seq<Seq<char>>) -> i32 {
    if args.len() > 0 {
        match parsed_i32(args[0]) {
            Some(c) => c,
            None => 0,
        }
    } else {
        0
    }
}

/// What the command `command` asks for, if it is a builtin: `cd` goes to
/// its first argument, or to `/` without one; `exit` ends with its first
/// argument as the code; `printenv` prints the variable that its first
/// argument names, or all of them without one.
pub open spec fn builtin_of(command: Seq<char>, args: Seq<Seq<char>>) -> Option<BuiltinView> {
    if command == "cd"@ {
        Some(BuiltinView::ChangeDir(first_or(args, "/"@)))
    } else if command == "abort"@ {
        Some(BuiltinView::Abort)
    } else if command == "exit"@ {
        Some(BuiltinView::Exit(exit_code(args)))
    } else if command == "printenv"@ {
        Some(BuiltinView::PrintEnv(first_or(args, Seq::empty())))
    } else {
        None
    }
}

pub fn is_builtin(command: &str) -> (r: bool)
    ensures
        r == names_builtin(command@),
{
    same_text(command, "abort") || same_text(command, "cd") || same_text(command, "exit")
        || same_text(command, "printenv")
}

/// Looks `command` up in the table of builtins.
pub fn execute(command: &str, args: &Vec<String>) -> (r: Option<Builtin>)
    ensures
        match builtin_of(command@, string_views(args@)) {
            Some(b) => r is Some && r->0@ == b,
            None => r is None,
        },
{
    assert(args@.len() > 0 ==> string_views(args@)[0] == args@[0]@);
    if same_text(command, "cd") {
        let target = if args.len() > 0 {
            args[0].clone()
        } else {
            String::from_str("/")
        };
        Some(Builtin::ChangeDir(target))
    } else if same_text(command, "abort") {
        Some(Builtin::Abort)
    } else if same_text(command, "exit") {
        let code: i32 = if args.len() > 0 {
            let chars = chars_of(args[0].as_str());
            match parse_i32(chars.as_slice()) {
                Some(c) => c,
                None => 0,
            }
        } else {
            0
        };
        Some(Builtin::Exit(code))
    } else if same_text(command, "printenv") {
        let key = if args.len() > 0 {
            args[0].clone()
        } else {
            String::new()
        };
        Some(Builtin::PrintEnv(key))
    } else {
        None
    }
}

/// The variables that `printenv key` prints: all of them where `key` is
/// empty, else the one of that name, if it is set.
pub open spec fn printed(key: Seq<char>, vars: Map<Seq<char>, Seq<char>>) -> Map<
    Seq<char>,
    Seq<char>,
> {
    if key.len() == 0 {
        vars
    } else if vars.dom().contains(key) {
        Map::empty().insert(key, vars[key])
    } else {
        Map::empty()
    }
}

/// The variables that `printenv key` prints.
pub fn printenv(key: &str, vars: &ShVars) -> (r: ShVars)
    requires
        vars.wf(),
    ensures
        r.wf(),
        r@ == printed(key@, vars@),
{
    if key.is_empty() {
        vars.clone()
    } else {
        let mut r = ShVars::new();
        match vars.get(key) {
            Ok(value) => {
                r.set(key, value);
            },
            Err(_) => {},
        }
        r
    }
}

} // verus!
