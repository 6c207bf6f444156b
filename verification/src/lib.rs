//! The rational proof assistant: command-line state, expression parsing and
//! the small text utilities they rest on.

pub mod command;
pub mod database;
pub mod docs;
pub mod expr;
pub mod hash;
pub mod parse;
pub mod shell;
pub mod term;
pub mod text;
pub mod util;
pub mod web;
