//! A deck of small on-device tools: a modal text editor, a terminal with a line shell and a
//! screen model, and a handful of single-purpose panels. The library holds their state
//! machines, parsers and layout rules; hosts feed it events and draw what it returns.

pub mod color;
pub mod demo;
pub mod hello;
pub mod host;
pub mod json;
pub mod keyboard;
pub mod net;
pub mod palette;
pub mod regexp;
pub mod rvim;
pub mod terminal;
pub mod text;
pub mod unicode;
pub mod utf8;
