//! Verified core of a launcher for llama.cpp servers: the model library and
//! its settings forms, the tokenizer for launch arguments, the splitting of
//! server output into log lines, the bounded log panel and the decisions of
//! the launcher's session.

pub mod text;
pub mod models;
pub mod config;
pub mod launch;
pub mod ui;
pub mod session;
