pub mod bundled;
pub mod catalog;
pub mod execution;
pub mod foreign;
pub mod host;
pub mod messages;
pub mod paths;
pub mod runtime;
pub mod text;
pub mod tui;
