//! A small interactive command interpreter: a line is lexed into words,
//! turned into a command descriptor, and dispatched to a builtin, an
//! external program, or a pipeline whose last output may be redirected to
//! a file. The library decides and computes; the caller performs the I/O
//! that its results ask for.
pub mod text;
pub mod lexer;
pub mod command;
pub mod echo;
pub mod calc;
pub mod dispatch;
pub mod pipeline;
pub mod shell;
pub mod help;
pub mod prompt;
pub mod files;
