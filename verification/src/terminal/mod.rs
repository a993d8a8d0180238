//! A terminal: a line shell with history and scrollback, and a screen emulator for remote
//! sessions.

pub mod calc;
pub mod calc_laws;
pub mod console;
pub mod console_laws;
pub mod editor;
pub mod numbers;
pub mod remote;
pub mod sequences;
pub mod shell;
pub mod shell_laws;
pub mod theme;
pub mod toolbar;
pub mod vt;
pub mod vt_laws;
pub mod wrap;
