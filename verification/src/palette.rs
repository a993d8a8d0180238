//! What terminal colours look like on a screen.

use vstd::prelude::*;

use crate::color::Color;

verus! {

/// Red, green and blue.
pub type Paint = (u8, u8, u8);

/// One of the six steps of the colour cube.
pub open spec fn cube_step(n: int) -> u8 {
    if n <= 0 {
        0
    } else {
        (55 + 40 * n) as u8
    }
}

/// The sixteen first entries of the 256-colour palette.
pub open spec fn first_sixteen(i: u8) -> Paint {
    if i == 0 {
        (0, 0, 0)
    } else if i == 1 {
        (205, 0, 0)
    } else if i == 2 {
        (0, 205, 0)
    } else if i == 3 {
        (205, 205, 0)
    } else if i == 4 {
        (0, 0, 238)
    } else if i == 5 {
        (205, 0, 205)
    } else if i == 6 {
        (0, 205, 205)
    } else if i == 7 {
        (229, 229, 229)
    } else if i == 8 {
        (127, 127, 127)
    } else if i == 9 {
        (255, 0, 0)
    } else if i == 10 {
        (0, 255, 0)
    } else if i == 11 {
        (255, 255, 0)
    } else if i == 12 {
        (92, 92, 255)
    } else if i == 13 {
        (255, 0, 255)
    } else if i == 14 {
        (0, 255, 255)
    } else {
        (255, 255, 255)
    }
}

/// An entry of the 256-colour palette: sixteen named ones, a cube of six steps a side, and a
/// ramp of greys.
pub open spec fn entry(i: u8) -> Paint {
    if i < 16 {
        first_sixteen(i)
    } else if i < 232 {
        let c = i - 16;
        (cube_step(c / 36), cube_step(c % 36 / 6), cube_step(c % 6))
    } else {
        let v = (8 + (i - 232) * 10) as u8;
        (v, v, v)
    }
}

fn step(n: u8) -> (r: u8)
    requires
        n < 6,
    ensures
        r == cube_step(n as int),
{
    if n == 0 {
        0
    } else {
        55 + 40 * n
    }
}

/// Standard xterm 256-color palette approximation.
pub fn indexed(i: u8) -> (r: Paint)
    ensures
        r == entry(i),
{
    if i < 16 {
        match i {
            0 => (0, 0, 0),
            1 => (205, 0, 0),
            2 => (0, 205, 0),
            3 => (205, 205, 0),
            4 => (0, 0, 238),
            5 => (205, 0, 205),
            6 => (0, 205, 205),
            7 => (229, 229, 229),
            8 => (127, 127, 127),
            9 => (255, 0, 0),
            10 => (0, 255, 0),
            11 => (255, 255, 0),
            12 => (92, 92, 255),
            13 => (255, 0, 255),
            14 => (0, 255, 255),
            _ => (255, 255, 255),
        }
    } else if i < 232 {
        let c: u8 = i - 16;
        (step(c / 36), step(c % 36 / 6), step(c % 6))
    } else {
        let v: u8 = 8 + (i - 232) * 10;
        (v, v, v)
    }
}

/// What a colour looks like; `None` where nothing is painted. A foreground left as it is looks
/// like `plain`.
pub open spec fn painted(color: Color, foreground: bool, plain: Paint) -> Option<Paint> {
    match color {
        Color::Reset => if foreground {
            Some(plain)
        } else {
            None
        },
        Color::Black => Some((20, 20, 20)),
        Color::Red => Some((204, 60, 60)),
        Color::Green => Some((70, 190, 90)),
        Color::Yellow => Some((210, 190, 60)),
        Color::Blue => Some((70, 110, 220)),
        Color::Magenta => Some((190, 80, 190)),
        Color::Cyan => Some((70, 190, 200)),
        Color::Gray => Some((170, 170, 170)),
        Color::DarkGray => Some((100, 100, 100)),
        Color::LightRed => Some((240, 110, 110)),
        Color::LightGreen => Some((120, 230, 130)),
        Color::LightYellow => Some((240, 230, 120)),
        Color::LightBlue => Some((120, 160, 250)),
        Color::LightMagenta => Some((230, 130, 230)),
        Color::LightCyan => Some((130, 230, 240)),
        Color::White => Some((235, 235, 235)),
        Color::Rgb(r, g, b) => Some((r, g, b)),
        Color::Indexed(i) => Some(entry(i)),
    }
}

/// Map a color to what it looks like. `None` = transparent/default background.
pub fn color_to_paint(color: Color, foreground: bool, plain: Paint) -> (r: Option<Paint>)
    ensures
        r == painted(color, foreground, plain),
{
    match color {
        Color::Reset => if foreground {
            Some(plain)
        } else {
            None
        },
        Color::Black => Some((20, 20, 20)),
        Color::Red => Some((204, 60, 60)),
        Color::Green => Some((70, 190, 90)),
        Color::Yellow => Some((210, 190, 60)),
        Color::Blue => Some((70, 110, 220)),
        Color::Magenta => Some((190, 80, 190)),
        Color::Cyan => Some((70, 190, 200)),
        Color::Gray => Some((170, 170, 170)),
        Color::DarkGray => Some((100, 100, 100)),
        Color::LightRed => Some((240, 110, 110)),
        Color::LightGreen => Some((120, 230, 130)),
        Color::LightYellow => Some((240, 230, 120)),
        Color::LightBlue => Some((120, 160, 250)),
        Color::LightMagenta => Some((230, 130, 230)),
        Color::LightCyan => Some((130, 230, 240)),
        Color::White => Some((235, 235, 235)),
        Color::Rgb(r, g, b) => Some((r, g, b)),
        Color::Indexed(i) => Some(indexed(i)),
    }
}

/// A 24-bit colour taken apart.
pub open spec fn parts(rgb: u32) -> Paint {
    ((rgb / 65536 % 256) as u8, (rgb / 256 % 256) as u8, (rgb % 256) as u8)
}

/// Take a 24-bit colour apart.
pub fn split_rgb(rgb: u32) -> (r: Paint)
    ensures
        r == parts(rgb),
{
    ((rgb / 65536 % 256) as u8, (rgb / 256 % 256) as u8, (rgb % 256) as u8)
}

/// A cell's foreground and background as they are painted: reversed cells have them swapped,
/// with a light grey for a foreground that has none.
pub open spec fn swapped(fg: Option<Paint>, bg: Option<Paint>, reversed: bool) -> (
    Option<Paint>,
    Option<Paint>,
) {
    if reversed {
        (
            bg,
            Some(
                match fg {
                    Some(p) => p,
                    None => (211, 211, 211),
                },
            ),
        )
    } else {
        (fg, bg)
    }
}

/// Foreground and background to paint a cell with.
pub fn cell_paints(fg: Option<Paint>, bg: Option<Paint>, reversed: bool) -> (r: (
    Option<Paint>,
    Option<Paint>,
))
    ensures
        r == swapped(fg, bg, reversed),
{
    if reversed {
        let back = match fg {
            Some(p) => p,
            None => (211, 211, 211),
        };
        (bg, Some(back))
    } else {
        (fg, bg)
    }
}

/// A grid size held to limits.
pub open spec fn held(n: u16, least: u16, most: u16) -> u16 {
    if n < least {
        least
    } else if n > most {
        most
    } else {
        n
    }
}

/// Hold a grid size to limits.
pub fn fit(n: u16, least: u16, most: u16) -> (r: u16)
    requires
        least <= most,
    ensures
        r == held(n, least, most),
        least <= r <= most,
{
    if n < least {
        least
    } else if n > most {
        most
    } else {
        n
    }
}

/// The colour cube has the entry for red `r`, green `g` and blue `b` at 16 + 36 r + 6 g + b: 0 at
/// the first step, 95 at the next and 40 more at each after that.
pub proof fn law_cube(r: int, g: int, b: int, i: u8)
    requires
        0 <= r < 6,
        0 <= g < 6,
        0 <= b < 6,
        i == 16 + 36 * r + 6 * g + b,
    ensures
        ({
            let (x, y, z) = entry(i);
            &&& r == 0 ==> x == 0
            &&& r > 0 ==> x == 95 + 40 * (r - 1)
            &&& g == 0 ==> y == 0
            &&& g > 0 ==> y == 95 + 40 * (g - 1)
            &&& b == 0 ==> z == 0
            &&& b > 0 ==> z == 95 + 40 * (b - 1)
        }),
{
}

/// The last entries are greys, from 8 up in steps of ten.
pub proof fn law_greys(i: u8)
    requires
        i >= 232,
    ensures
        ({
            let (x, y, z) = entry(i);
            x == y && y == z && x == 8 + 10 * (i - 232)
        }),
{
}

/// A 24-bit colour is its three parts, the red one highest.
pub proof fn law_parts(rgb: u32)
    requires
        rgb < 0x1000000,
    ensures
        parts(rgb).0 * 65536 + parts(rgb).1 * 256 + parts(rgb).2 == rgb,
{
}

/// A reversed cell has its colours swapped, and reversing it again gives them back.
pub proof fn law_reversed(fg: Paint, bg: Paint)
    ensures
        swapped(Some(fg), Some(bg), true) == (Some(bg), Some(fg)),
        swapped(Some(fg), Some(bg), false) == (Some(fg), Some(bg)),
{
}

} // verus!
