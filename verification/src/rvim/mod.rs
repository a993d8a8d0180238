//! A modal text editor: buffers and windows, the key engine, the virtual file store, pickers
//! and the character-grid screen.

pub mod bracket_laws;
pub mod buffer;
pub mod buffer_laws;
pub mod charmap;
pub mod edit_laws;
pub mod editor;
pub mod edits;
pub mod explorer;
pub mod explorer_laws;
pub mod finder;
pub mod fs;
pub mod fuzzy;
pub mod help;
pub mod highlight;
pub mod keys;
pub mod lexer;
pub mod lexer_laws;
pub mod motion;
pub mod motion_laws;
pub mod object_laws;
pub mod objects;
pub mod pattern;
pub mod pattern_laws;
pub mod range_laws;
pub mod session;
pub mod state;
pub mod state_laws;
pub mod theme;
pub mod ui;
pub mod vim;
