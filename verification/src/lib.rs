//! Execution core of an interactive command shell, together with the
//! front end that turns a command line into the command tree it runs.
//!
//! The core decides. Whatever needs a process, a descriptor or a directory
//! is handed to the caller as an action, and comes back as an event. The
//! one thing that the library reads itself is the file system, where a
//! word of a command line is expanded as a wildcard pattern.

pub mod text;
pub mod error;
pub mod ast;
pub mod token;
pub mod utils;
pub mod lexer;
pub mod script;
pub mod lite_parser;
pub mod parser;
pub mod investigate;
pub mod calc;
pub mod sh_vars;
pub mod path;
pub mod pipe;
pub mod process_handler;
pub mod state;
pub mod extract;
pub mod redirect;
pub mod builtin;
pub mod program;
pub mod eval;
pub mod ascii;
pub mod line;
pub mod history;
pub mod prompt;
pub mod terminal;
