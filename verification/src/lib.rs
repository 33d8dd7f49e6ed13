pub mod text;
pub mod parse;
pub mod paths;
pub mod keyed;
pub mod contracts;
pub mod platform;
pub mod daemon;
pub mod tui;
pub mod cli;
pub mod viewers;
pub mod host_kimi;
