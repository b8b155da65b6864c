//! The launcher's panels: the log stream of a running server and the
//! settings forms.

pub mod logs;
pub mod settings;
