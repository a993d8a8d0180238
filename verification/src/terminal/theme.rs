//! The terminal's palette.

use vstd::prelude::*;

use crate::rvim::theme::Rgb;

verus! {

pub const BG: Rgb = 0x06060a;
pub const TEXT: Rgb = 0xcdd6f4;
pub const MUTED: Rgb = 0xbac2de;
pub const DIM: Rgb = 0x7f849c;
pub const ACCENT: Rgb = 0xff1493;
pub const TERTIARY: Rgb = 0xcba6f7;
pub const SUCCESS: Rgb = 0xa6e3a1;
pub const ERROR: Rgb = 0xf38ba8;
pub const WARNING: Rgb = 0xf9e2af;
pub const CYAN: Rgb = 0x89dceb;

} // verus!
