//! The demo panel: a list whose selection goes round, and a bounded load history.

use vstd::prelude::*;

use crate::rvim::theme::{
    Rgb, ACCENT, BG, BORDER_MUTED, ERROR, MUTED, SUCCESS, SURFACE, TERTIARY, TEXT, WARNING,
};

verus! {

/// The panel's palette.
pub struct AppTheme {
    pub bg: Rgb,
    pub surface: Rgb,
    pub border_muted: Rgb,
    pub text: Rgb,
    pub text_muted: Rgb,
    pub accent: Rgb,
    pub tertiary: Rgb,
    pub success: Rgb,
    pub error: Rgb,
    pub warning: Rgb,
}

/// How a piece of the panel looks; `None` leaves the background as it is.
#[derive(Clone, Copy, Debug, PartialEq, Eq, Structural)]
pub struct DemoStyle {
    pub fg: Rgb,
    pub bg: Option<Rgb>,
    pub bold: bool,
}

/// The built-in default: pink accent + mauve tertiary on the dark app background.
pub fn default_theme() -> (r: AppTheme)
    ensures
        r.bg == BG,
        r.surface == SURFACE,
        r.border_muted == BORDER_MUTED,
        r.text == TEXT,
        r.text_muted == MUTED,
        r.accent == ACCENT,
        r.tertiary == TERTIARY,
        r.success == SUCCESS,
        r.error == ERROR,
        r.warning == WARNING,
{
    AppTheme {
        bg: BG,
        surface: SURFACE,
        border_muted: BORDER_MUTED,
        text: TEXT,
        text_muted: MUTED,
        accent: ACCENT,
        tertiary: TERTIARY,
        success: SUCCESS,
        error: ERROR,
        warning: WARNING,
    }
}

impl AppTheme {
    pub fn title(&self) -> (r: DemoStyle)
        ensures
            r == (DemoStyle { fg: self.accent, bg: None, bold: true }),
    {
        DemoStyle { fg: self.accent, bg: None, bold: true }
    }

    pub fn border(&self, focused: bool) -> (r: DemoStyle)
        ensures
            r == (DemoStyle {
                fg: if focused {
                    self.accent
                } else {
                    self.border_muted
                },
                bg: None,
                bold: false,
            }),
    {
        DemoStyle {
            fg: if focused {
                self.accent
            } else {
                self.border_muted
            },
            bg: None,
            bold: false,
        }
    }

    pub fn menu_highlight(&self) -> (r: DemoStyle)
        ensures
            r == (DemoStyle { fg: self.accent, bg: Some(self.surface), bold: true }),
    {
        DemoStyle { fg: self.accent, bg: Some(self.surface), bold: true }
    }

    /// Colour of a load by its severity.
    pub fn load(&self, severity: Severity) -> (r: Rgb)
        ensures
            r == (match severity {
                Severity::Critical => self.error,
                Severity::Busy => self.warning,
                Severity::Calm => self.success,
            }),
    {
        match severity {
            Severity::Critical => self.error,
            Severity::Busy => self.warning,
            Severity::Calm => self.success,
        }
    }
}

/// Cap on retained load samples.
pub const HISTORY_CAP: usize = 128;

/// The hosts listed.
pub open spec fn hosts() -> Seq<Seq<char>> {
    seq![
        "web-01.internal"@,
        "web-02.internal"@,
        "db-primary"@,
        "db-replica"@,
        "cache-01"@,
        "builds.local"@,
    ]
}

/// How many hosts are listed.
pub const HOST_COUNT: usize = 6;

/// Name of host `i`.
pub fn host_name(i: usize) -> (r: &'static str)
    requires
        i < HOST_COUNT,
    ensures
        r@ == hosts()[i as int],
{
    match i {
        0 => "web-01.internal",
        1 => "web-02.internal",
        2 => "db-primary",
        3 => "db-replica",
        4 => "cache-01",
        _ => "builds.local",
    }
}

/// How severe a load is.
#[derive(Clone, Copy, Debug, PartialEq, Eq, Structural)]
pub enum Severity {
    Calm,
    Busy,
    Critical,
}

pub struct Demo {
    pub selected: usize,
    pub history: Vec<u64>,
}

/// The selection moved by one, going round at the ends.
pub open spec fn turned(cur: int, down: bool) -> int {
    if down {
        (cur + 1) % HOST_COUNT as int
    } else {
        (cur + HOST_COUNT - 1) % HOST_COUNT as int
    }
}

/// Moving down and up again, or up and down, returns to the same host.
pub proof fn law_selection_returns(cur: int, down: bool)
    requires
        0 <= cur < HOST_COUNT,
    ensures
        turned(turned(cur, down), !down) == cur,
        0 <= turned(cur, down) < HOST_COUNT,
{
}

/// The newest samples, as many as are kept.
pub open spec fn sampled(h: Seq<u64>, level: u64) -> Seq<u64> {
    let all = h.push(level);
    if all.len() > HISTORY_CAP {
        all.skip(1)
    } else {
        all
    }
}

impl Demo {
    pub fn new() -> (r: Self)
        ensures
            r.selected == 0,
            r.history@ == Seq::<u64>::empty(),
    {
        let r = Demo { selected: 0, history: Vec::new() };
        assert(r.history@ =~= Seq::<u64>::empty());
        r
    }

    /// Move the selection.
    pub fn select(&mut self, down: bool)
        requires
            old(self).selected < HOST_COUNT,
        ensures
            final(self).selected == turned(old(self).selected as int, down),
            final(self).selected < HOST_COUNT,
            final(self).history == old(self).history,
    {
        self.selected = if down {
            (self.selected + 1) % HOST_COUNT
        } else {
            (self.selected + HOST_COUNT - 1) % HOST_COUNT
        };
    }

    /// Keep a load sample.
    pub fn sample(&mut self, level: u64)
        ensures
            final(self).history@ == sampled(old(self).history@, level),
            final(self).selected == old(self).selected,
            old(self).history@.len() <= HISTORY_CAP ==> final(self).history@.len() <= HISTORY_CAP,
    {
        self.history.push(level);
        if self.history.len() > HISTORY_CAP {
            self.history.remove(0);
            assert(self.history@ =~= old(self).history@.push(level).skip(1));
        }
    }
}

/// Severity of a load: whether it is above 80, or above 50, percent.
pub fn severity(above_50: bool, above_80: bool) -> (r: Severity)
    ensures
        r == (if above_80 {
            Severity::Critical
        } else if above_50 {
            Severity::Busy
        } else {
            Severity::Calm
        }),
{
    if above_80 {
        Severity::Critical
    } else if above_50 {
        Severity::Busy
    } else {
        Severity::Calm
    }
}

} // verus!
