//! A per-output status bar: generators produce markup text, bars merge it
//! into lines, and a control channel pushes messages into generators.

pub mod text;
pub mod tasks;
pub mod dzen_format;
pub mod x;
pub mod bar;
pub mod config;
