//! Verified core of a terminal resource monitor: bounded metric history,
//! GPU-probe output parsing, unit conversion, text-mode formatting, and the
//! control-loop state machine. I/O (terminal, subprocess, OS stats) lives
//! outside the library and hands plain values in and out.

pub mod cli;
pub mod control;
pub mod history;
pub mod probe;
pub mod render;
pub mod sampler;
pub mod text;
