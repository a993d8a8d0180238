//! The editor's screen on a character grid: bufferline, windows, statusline, command line,
//! touchbar and overlays, and where each of them landed.

pub mod layout;
pub mod touch;
pub mod scroll;
pub mod grid;
pub mod look;
pub mod window;
pub mod bars;
pub mod panels;
pub mod frame;
pub mod view_laws;
