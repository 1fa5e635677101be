use vstd::prelude::*;

pub mod ansi;
pub mod buffer;
pub mod config;
pub mod enums;
pub mod execution;
pub mod gui;
pub mod hints;
pub mod history;
pub mod input;
pub mod parser;
pub mod runtime;
pub mod state;
pub mod utils;
