//! An interactive C scratchpad: a program model that is built one line at a
//! time, rendered to C source, and the command language that edits it.
pub mod command;
pub mod common;
pub mod config;
pub mod pipeline;
pub mod program;
pub mod render;
pub mod repl;
pub mod text;
