//! Verified core of a client library for GNU Guix: the parsers for guix's
//! textual output, the progress state machine, channel-file editing rules,
//! argv builders and the GUI's pure decision logic.

pub mod text;
pub mod lines;
pub mod framer;
pub mod types;
pub mod error;
pub mod sexp;
pub mod repl;
pub mod progress_line;
pub mod repl_op;
pub mod progress;
pub mod paths;
pub mod channels;
pub mod channel_list;
pub mod argv;
pub mod discover;
pub mod operation;
pub mod gc;
pub mod retry;
pub mod recutils;
pub mod tsv;
pub mod package;
pub mod cmd;
pub mod installed;
pub mod building;
pub mod shell;
pub mod humanize;
pub mod recommended;
pub mod desktop;
pub mod discovery;
pub mod app_metadata;
pub mod settings;
pub mod gui_flow;
pub mod terminal;
pub mod app_state;
