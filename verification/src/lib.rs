//! A file-synchronisation helper built on rsync: configured pairs of a local
//! directory and a remote target, a selectable file tree, the rsync command
//! lines and the interpretation of rsync's results, and the state machine of
//! the terminal interface.
pub mod text;
pub mod sync;
pub mod tree;
pub mod config;
pub mod app;
pub mod ui;
pub mod cli;
