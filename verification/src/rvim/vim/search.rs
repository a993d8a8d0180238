//! Searching: the search line, n and N, and the word under the cursor.

use vstd::prelude::*;

use crate::host::HostHandle;
use crate::rvim::buffer::{clamped, line_at, min, Pos, Position};
use crate::rvim::keys::{Key, Mode};
use crate::rvim::motion::{char_class, class_of, find_run_end, find_run_start, run_end, run_start};
use crate::rvim::pattern::{find_pattern, found};
use crate::rvim::state::{BufV, EditorState, SearchV, StV};
use crate::rvim::vim::operate::land;
use crate::rvim::vim::{ed, fits, same_replay, Ed, EngV, VimEngine};
use crate::text::{cat, range_string, to_chars};

verus! {

pub open spec fn wrap_message(backwards: bool) -> Seq<char> {
    if backwards {
        "search hit TOP, continuing at BOTTOM"@
    } else {
        "search hit BOTTOM, continuing at TOP"@
    }
}

/// The first word character of `s` at or after `i`, or its length.
pub open spec fn word_char_from(s: Seq<char>, i: int) -> int
    decreases s.len() - i,
{
    if 0 <= i < s.len() && class_of(s[i], false) != 1 {
        word_char_from(s, i + 1)
    } else {
        i
    }
}

/// The word under (or after) column `col`.
pub open spec fn word_at(s: Seq<char>, col: int) -> Option<Seq<char>> {
    let i = word_char_from(s, min(col, s.len() as int));
    if i >= s.len() {
        None
    } else {
        Some(s.subrange(run_start(s, i, 1, false), run_end(s, i, 1, false)))
    }
}

impl Ed {
    pub open spec fn with_pattern(self, p: Seq<char>) -> Ed {
        Ed { s: StV { search: SearchV { pattern: p, ..self.s.search }, ..self.s }, ..self }
    }

    /// A new pattern and direction in force, matches shown.
    pub open spec fn search_set(self, p: Seq<char>, backwards: bool) -> Ed {
        Ed {
            s: StV {
                search: SearchV { pattern: p, backwards, suppressed: false },
                ..self.s
            },
            ..self
        }
    }

    pub open spec fn unsuppressed(self) -> Ed {
        Ed { s: StV { search: SearchV { suppressed: false, ..self.s.search }, ..self.s }, ..self }
    }

    /// The cursor at (the place nearest to) `p`.
    pub open spec fn cursor_at(self, p: Pos) -> Ed {
        if self.has() {
            let b = self.buf();
            self.with(BufV { cursor: clamped(b.text.lines, p, false), ..b })
        } else {
            self
        }
    }

    #[verifier::opaque]
    pub open spec fn into_search(self, backwards: bool) -> Ed {
        if !self.has() {
            self
        } else {
            Ed {
                e: EngV {
                    search_origin: self.buf().cursor,
                    search_prev: self.s.search.pattern,
                    ..self.e.cmd_cleared()
                },
                ..self
            }.into_mode(Mode::Search { backwards }).reset()
        }
    }

    /// The match from `from` on: found or not.
    pub open spec fn finds(self, from: Pos, pat: Seq<char>, backwards: bool) -> bool {
        self.has() && found(self.buf().text.lines, from, pat, backwards) is Some
    }

    /// The cursor on the next match from `from`; a wrap or a failure is reported.
    #[verifier::opaque]
    pub open spec fn jumped(self, from: Pos, pat: Seq<char>, backwards: bool, announce: bool) -> Ed {
        if !self.has() {
            self
        } else {
            let b = self.buf();
            match found(b.text.lines, from, pat, backwards) {
                Some((p, wrapped)) => {
                    let d = self.with(b.landed(b.text, p));
                    if wrapped {
                        d.info(wrap_message(backwards))
                    } else if announce {
                        Ed { s: StV { status: None, ..d.s }, ..d }
                    } else {
                        d
                    }
                },
                None => self.err("E486: Pattern not found: "@ + pat),
            }
        }
    }

    /// Up to `n` matches on, from the cursor each time.
    pub open spec fn jumps(self, pat: Seq<char>, backwards: bool, n: int) -> Ed
        decreases n,
    {
        if n <= 0 || !self.has() {
            self
        } else {
            let from = self.buf().cursor;
            let d = self.jumped(from, pat, backwards, false);
            if self.finds(from, pat, backwards) {
                d.jumps(pat, backwards, n - 1)
            } else {
                d
            }
        }
    }

    /// The search given up: the old pattern back and the cursor where it was.
    #[verifier::opaque]
    pub open spec fn search_dropped(self) -> Ed {
        let d = self.with_pattern(self.e.search_prev).cursor_at(self.e.search_origin);
        Ed { e: EngV { search_prev: Seq::empty(), ..d.e }, ..d }
    }

    /// The cursor on the match for what is typed so far; where the search began when there is
    /// none.
    #[verifier::opaque]
    pub open spec fn previewed(self, backwards: bool) -> Ed {
        self.cursor_at(
            match found(
                self.buf().text.lines,
                self.e.search_origin,
                self.e.cmdline,
                backwards,
            ) {
                Some((p, _)) => p,
                None => self.e.search_origin,
            },
        )
    }

    /// The search line entered: what was typed, or else the old pattern, is searched for.
    #[verifier::opaque]
    pub open spec fn search_committed(self, backwards: bool) -> Ed {
        let e = self.e;
        let d = Ed { e: e.cmd_cleared(), ..self }.into_mode(Mode::Normal);
        let pat = if e.cmdline.len() == 0 {
            e.search_prev
        } else {
            e.cmdline
        };
        if pat.len() == 0 {
            d.err("E35: No previous search pattern"@)
        } else {
            d.search_set(pat, backwards).jumped(e.search_origin, pat, backwards, true)
        }
    }

    /// A key on the search line.
    #[verifier::opaque]
    pub open spec fn search_keyed(self, key: Key, backwards: bool) -> Ed {
        let e = self.e;
        if key == Key::Esc || key == Key::Ctrl('c') {
            let d = self.search_dropped();
            Ed { e: d.e.cmd_cleared(), ..d }.into_mode(Mode::Normal)
        } else if key == Key::Enter {
            self.search_committed(backwards)
        } else if key == Key::Backspace && e.cmdline.len() == 0 {
            self.search_dropped().into_mode(Mode::Normal)
        } else {
            match e.cmd_edited(key) {
                None => self,
                Some(f) => {
                    Ed { e: f, ..self }.with_pattern(f.cmdline).unsuppressed().previewed(backwards)
                },
            }
        }
    }

    /// n / N: the count'th next match in (or against) the search's direction.
    #[verifier::opaque]
    pub open spec fn searched_next(self, reverse: bool) -> Ed {
        let n = self.e.total();
        let d = self.reset();
        let pat = d.s.search.pattern;
        if pat.len() == 0 {
            d.err("E35: No previous search pattern"@)
        } else {
            d.unsuppressed().jumps(pat, d.s.search.backwards != reverse, n)
        }
    }

    /// * / #: the word under (or after) the cursor searched for.
    #[verifier::opaque]
    pub open spec fn searched_word(self, backwards: bool) -> Ed {
        let d = self.reset();
        if !d.has() {
            d
        } else {
            let b = d.buf();
            match word_at(line_at(b.text.lines, b.cursor.line), b.cursor.col) {
                None => d.err("E348: No string under cursor"@),
                Some(w) => d.search_set(w, backwards).jumped(b.cursor, w, backwards, false),
            }
        }
    }
}

fn find_word(s: &[char], col: usize) -> (r: Option<String>)
    ensures
        match r {
            Some(w) => word_at(s@, col as int) == Some(w@),
            None => word_at(s@, col as int) is None,
        },
{
    let n: usize = s.len();
    let start: usize = if col < n {
        col
    } else {
        n
    };
    let mut i: usize = start;
    while i < n && char_class(s[i], false) != 1
        invariant
            n == s@.len(),
            start <= i <= n,
            word_char_from(s@, start as int) == word_char_from(s@, i as int),
        ensures
            i <= n,
            i == word_char_from(s@, start as int),
        decreases n - i,
    {
        i = i + 1;
    }
    if i >= n {
        return None;
    }
    let a: usize = find_run_start(s, i, 1, false);
    let b: usize = find_run_end(s, i, 1, false);
    Some(range_string(s, a, b))
}

impl VimEngine {
    pub(crate) fn enter_search(
        &mut self,
        st: &mut EditorState,
        host: &mut HostHandle,
        backwards: bool,
    )
        requires
            ed(*old(self), *old(st), *old(host)).wf(),
        ensures
            same_replay(old(self)@, final(self)@),
            ed(*final(self), *final(st), *final(host)).sane(),
            ed(*final(self), *final(st), *final(host)) == ed(
                *old(self),
                *old(st),
                *old(host),
            ).into_search(backwards),
    {
        reveal(Ed::into_search);
        match st.buf() {
            Some(buf) => {
                self.search_origin = buf.cursor;
            },
            None => {
                return;
            },
        }
        self.search_prev = st.search.pattern.clone();
        self.clear_cmdline();
        self.set_mode(host, Mode::Search { backwards });
        self.reset();
    }

    /// Move to the next match from `from`; reports wrap or E486.
    fn jump_to_match(
        &mut self,
        st: &mut EditorState,
        host: &mut HostHandle,
        from: Position,
        pat: &str,
        backwards: bool,
        announce: bool,
    ) -> (r: bool)
        requires
            ed(*old(self), *old(st), *old(host)).wf(),
            fits(from@),
        ensures
            same_replay(old(self)@, final(self)@),
            ed(*final(self), *final(st), *final(host)).wf(),
            ed(*final(self), *final(st), *final(host)) == ed(
                *old(self),
                *old(st),
                *old(host),
            ).jumped(from@, pat@, backwards, announce),
            r == ed(*old(self), *old(st), *old(host)).finds(from@, pat@, backwards),
    {
        reveal(Ed::jumped);
        let hit = match st.buf() {
            Some(buf) => find_pattern(&buf.text, from, pat, backwards),
            None => {
                return false;
            },
        };
        match hit {
            Some((p, wrapped)) => {
                if let Some(buf) = st.buf_mut() {
                    land(buf, p);
                }
                if wrapped {
                    if backwards {
                        st.info("search hit TOP, continuing at BOTTOM");
                    } else {
                        st.info("search hit BOTTOM, continuing at TOP");
                    }
                } else if announce {
                    st.status = None;
                }
                true
            },
            None => {
                self.err(st, host, cat("E486: Pattern not found: ", pat).as_str());
                false
            },
        }
    }

    /// Give the search up: the old pattern back and the cursor where it was.
    fn drop_search(&mut self, st: &mut EditorState, host: &mut HostHandle)
        requires
            ed(*old(self), *old(st), *old(host)).wf(),
        ensures
            same_replay(old(self)@, final(self)@),
            ed(*final(self), *final(st), *final(host)).wf(),
            ed(*final(self), *final(st), *final(host)) == ed(
                *old(self),
                *old(st),
                *old(host),
            ).search_dropped(),
    {
        reveal(Ed::search_dropped);
        st.search.pattern = self.search_prev.clone();
        let origin = self.search_origin;
        let ghost d = ed(*self, *st, *host);
        assert(d == ed(*old(self), *old(st), *old(host)).with_pattern(old(self)@.search_prev));
        if let Some(buf) = st.buf_mut() {
            buf.cursor = buf.text.clamp(origin, false);
        }
        assert(ed(*self, *st, *host) == d.cursor_at(origin@));
        self.search_prev = String::new();
        assert(self@ =~= (EngV { search_prev: Seq::empty(), ..old(self)@ }));
    }

    /// Show the match for what is typed so far.
    fn preview_search(&mut self, st: &mut EditorState, backwards: bool)
        requires
            old(self)@.wf(),
            old(st)@.wf(),
        ensures
            same_replay(old(self)@, final(self)@),
            final(self)@ == old(self)@,
            final(st)@.wf(),
            forall|h: Seq<crate::host::CallV>|
                (Ed { e: final(self)@, s: final(st)@, h }) == #[trigger] (Ed {
                    e: old(self)@,
                    s: old(st)@,
                    h,
                }).previewed(backwards),
    {
        reveal(Ed::previewed);
        let origin = self.search_origin;
        if let Some(buf) = st.buf_mut() {
            let hit = find_pattern(&buf.text, origin, self.cmdline.as_str(), backwards);
            let to = match hit {
                Some((p, _)) => p,
                None => origin,
            };
            buf.cursor = buf.text.clamp(to, false);
        }
    }

    /// Search for what was typed, or else for the old pattern.
    fn commit_search(&mut self, st: &mut EditorState, host: &mut HostHandle, backwards: bool)
        requires
            ed(*old(self), *old(st), *old(host)).wf(),
        ensures
            same_replay(old(self)@, final(self)@),
            ed(*final(self), *final(st), *final(host)).wf(),
            ed(*final(self), *final(st), *final(host)) == ed(
                *old(self),
                *old(st),
                *old(host),
            ).search_committed(backwards),
    {
        reveal(Ed::search_committed);
        let typed = self.cmdline.clone();
        self.clear_cmdline();
        self.set_mode(host, Mode::Normal);
        let pat = if typed.as_str().unicode_len() == 0 {
            self.search_prev.clone()
        } else {
            typed
        };
        if pat.as_str().unicode_len() == 0 {
            self.err(st, host, "E35: No previous search pattern");
            return;
        }
        st.search.pattern = pat.clone();
        st.search.backwards = backwards;
        st.search.suppressed = false;
        let origin = self.search_origin;
        self.jump_to_match(st, host, origin, pat.as_str(), backwards, true);
    }

    #[verifier::rlimit(50)]
    pub(crate) fn search_key(
        &mut self,
        st: &mut EditorState,
        host: &mut HostHandle,
        key: Key,
        backwards: bool,
    )
        requires
            ed(*old(self), *old(st), *old(host)).wf(),
        ensures
            same_replay(old(self)@, final(self)@),
            ed(*final(self), *final(st), *final(host)).sane(),
            ed(*final(self), *final(st), *final(host)) == ed(
                *old(self),
                *old(st),
                *old(host),
            ).search_keyed(key, backwards),
    {
        reveal(Ed::search_keyed);
        if key == Key::Esc || key == Key::Ctrl('c') {
            self.drop_search(st, host);
            self.clear_cmdline();
            self.set_mode(host, Mode::Normal);
        } else if key == Key::Enter {
            self.commit_search(st, host, backwards);
        } else if key == Key::Backspace && self.cmdline.as_str().unicode_len() == 0 {
            self.drop_search(st, host);
            self.set_mode(host, Mode::Normal);
        } else if self.edit_cmdline(key) {
            st.search.pattern = self.cmdline.clone();
            st.search.suppressed = false;
            self.preview_search(st, backwards);
        }
    }

    pub(crate) fn search_next(&mut self, st: &mut EditorState, host: &mut HostHandle, reverse: bool)
        requires
            ed(*old(self), *old(st), *old(host)).wf(),
        ensures
            same_replay(old(self)@, final(self)@),
            ed(*final(self), *final(st), *final(host)).wf(),
            ed(*final(self), *final(st), *final(host)) == ed(
                *old(self),
                *old(st),
                *old(host),
            ).searched_next(reverse),
    {
        reveal(Ed::searched_next);
        let n: usize = self.total_count();
        self.reset();
        let pat = st.search.pattern.clone();
        if pat.as_str().unicode_len() == 0 {
            self.err(st, host, "E35: No previous search pattern");
            return;
        }
        st.search.suppressed = false;
        let backwards = st.search.backwards != reverse;
        let ghost start = ed(*self, *st, *host);
        let mut k: usize = 0;
        while k < n
            invariant
                k <= n,
                ed(*self, *st, *host).wf(),
                same_replay(old(self)@, self@),
                start.jumps(pat@, backwards, n as int) == ed(*self, *st, *host).jumps(
                    pat@,
                    backwards,
                    n - k,
                ),
                start.jumps(pat@, backwards, n as int) == ed(
                    *old(self),
                    *old(st),
                    *old(host),
                ).searched_next(reverse),
            decreases n - k,
        {
            let from = match st.buf() {
                Some(buf) => buf.cursor,
                None => {
                    return;
                },
            };
            if !self.jump_to_match(st, host, from, pat.as_str(), backwards, false) {
                return;
            }
            k = k + 1;
        }
    }

    /// * / #: search for the word under (or after) the cursor.
    pub(crate) fn search_word(
        &mut self,
        st: &mut EditorState,
        host: &mut HostHandle,
        backwards: bool,
    )
        requires
            ed(*old(self), *old(st), *old(host)).wf(),
        ensures
            same_replay(old(self)@, final(self)@),
            ed(*final(self), *final(st), *final(host)).wf(),
            ed(*final(self), *final(st), *final(host)) == ed(
                *old(self),
                *old(st),
                *old(host),
            ).searched_word(backwards),
    {
        reveal(Ed::searched_word);
        self.reset();
        let (from, word) = match st.buf() {
            Some(buf) => {
                let chars = to_chars(buf.text.line(buf.cursor.line));
                (buf.cursor, find_word(chars.as_slice(), buf.cursor.col))
            },
            None => {
                return;
            },
        };
        match word {
            None => {
                self.err(st, host, "E348: No string under cursor");
            },
            Some(w) => {
                st.search.pattern = w.clone();
                st.search.backwards = backwards;
                st.search.suppressed = false;
                self.jump_to_match(st, host, from, w.as_str(), backwards, false);
            },
        }
    }
}

} // verus!
