//! Core logic of a live-process debugger: breakpoint registry, command
//! language, executable-image parsing and symbol resolution, all verified.

pub mod breakpoint;
pub mod command;
pub mod eval;
pub mod events;
pub mod loading;
pub mod memory;
pub mod module;
pub mod name_resolution;
pub mod pe;
pub mod process;
pub mod session;
pub mod symbols;
pub mod text;
