//! The editor's palette: dark surfaces with a deep-pink accent, plus the colours of syntax
//! tokens and editor chrome.

use vstd::prelude::*;

verus! {

/// A 24-bit colour: red, green and blue from the high byte down.
pub type Rgb = u32;

pub const BG: Rgb = 0x06060a;
pub const SURFACE: Rgb = 0x313244;
pub const SURFACE_DIM: Rgb = 0x181825;
pub const BORDER_MUTED: Rgb = 0x585b70;
pub const TEXT: Rgb = 0xcdd6f4;
pub const MUTED: Rgb = 0xbac2de;
pub const DIM: Rgb = 0x7f849c;
pub const ACCENT: Rgb = 0xff1493;
pub const TERTIARY: Rgb = 0xcba6f7;
pub const SUCCESS: Rgb = 0xa6e3a1;
pub const ERROR: Rgb = 0xf38ba8;
pub const WARNING: Rgb = 0xf9e2af;
pub const CYAN: Rgb = 0x89dceb;

// Syntax tokens (Catppuccin Mocha).
pub const SYN_KEYWORD: Rgb = 0xcba6f7;
pub const SYN_STRING: Rgb = 0xa6e3a1;
pub const SYN_NUMBER: Rgb = 0xfab387;
pub const SYN_COMMENT: Rgb = 0x7f849c;
pub const SYN_FUNCTION: Rgb = 0x89b4fa;
pub const SYN_TYPE: Rgb = 0xf9e2af;
pub const SYN_MACRO: Rgb = 0x94e2d5;
pub const SYN_LIFETIME: Rgb = 0x89dceb;
pub const SYN_ATTRIBUTE: Rgb = 0xfab387;
pub const SYN_SELF: Rgb = 0xf38ba8;
pub const SYN_OPERATOR: Rgb = 0x9399b2;

// Editor chrome.
pub const CURSORLINE_BG: Rgb = 0x1e1e2e;
pub const VISUAL_BG: Rgb = 0x45475a;
pub const MATCH_BG: Rgb = 0x585b70;
pub const SEARCH_BG: Rgb = 0xf9e2af;
pub const SEARCH_FG: Rgb = 0x06060a;
pub const SEARCH_CUR_BG: Rgb = 0xff1493;
pub const LINENR: Rgb = 0x585b70;
pub const LINENR_CUR: Rgb = 0xff1493;

// Statusline mode chips: (foreground, background).
pub const MODE_NORMAL: (Rgb, Rgb) = (0x06060a, ACCENT);
pub const MODE_INSERT: (Rgb, Rgb) = (0x06060a, SUCCESS);
pub const MODE_VISUAL: (Rgb, Rgb) = (0x06060a, TERTIARY);
pub const MODE_REPLACE: (Rgb, Rgb) = (0x06060a, ERROR);
pub const MODE_COMMAND: (Rgb, Rgb) = (0x06060a, WARNING);

} // verus!
