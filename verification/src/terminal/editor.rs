//! A single-line editor with a char-indexed cursor and command history.

use vstd::prelude::*;

use crate::rvim::fs::str_same;
use crate::text::{char_count, copy_range, from_chars, group_texts, texts, to_chars, trim, trim_of};

verus! {

broadcast use group_texts;

pub struct LineEditor {
    chars: Vec<char>,
    /// Cursor position as a char index in `0..=chars.len()`.
    cursor: usize,
    history: Vec<String>,
    /// `Some(i)` while browsing history; `None` when editing a live line.
    browse: Option<usize>,
    /// The live line stashed while browsing history, restored on ArrowDown past the newest.
    stash: Vec<char>,
}

/// Model of the line editor.
#[verifier::ext_equal]
pub struct LineV {
    pub chars: Seq<char>,
    pub cursor: int,
    pub history: Seq<Seq<char>>,
    pub browse: Option<int>,
    pub stash: Seq<char>,
}

impl View for LineEditor {
    type V = LineV;

    closed spec fn view(&self) -> LineV {
        LineV {
            chars: self.chars@,
            cursor: self.cursor as int,
            history: texts(self.history@),
            browse: match self.browse {
                Some(i) => Some(i as int),
                None => None,
            },
            stash: self.stash@,
        }
    }
}

impl LineV {
    pub open spec fn fresh() -> LineV {
        LineV {
            chars: Seq::empty(),
            cursor: 0,
            history: Seq::empty(),
            browse: None,
            stash: Seq::empty(),
        }
    }

    /// The cursor is in the line, and the browsed entry exists.
    pub open spec fn wf(self) -> bool {
        &&& 0 <= self.cursor <= self.chars.len()
        &&& self.browse is Some ==> 0 <= self.browse->0 < self.history.len()
    }

    pub open spec fn inserted(self, c: char) -> LineV {
        LineV { chars: self.chars.insert(self.cursor, c), cursor: self.cursor + 1, ..self }
    }

    pub open spec fn typed(self, s: Seq<char>) -> LineV
        decreases s.len(),
    {
        if s.len() == 0 {
            self
        } else {
            self.typed(s.drop_last()).inserted(s.last())
        }
    }

    pub open spec fn backspaced(self) -> LineV {
        if self.cursor > 0 {
            LineV { chars: self.chars.remove(self.cursor - 1), cursor: self.cursor - 1, ..self }
        } else {
            self
        }
    }

    pub open spec fn deleted(self) -> LineV {
        if self.cursor < self.chars.len() {
            LineV { chars: self.chars.remove(self.cursor), ..self }
        } else {
            self
        }
    }

    pub open spec fn at(self, cursor: int) -> LineV {
        LineV { cursor, ..self }
    }

    pub open spec fn lefted(self) -> LineV {
        self.at(
            if self.cursor > 0 {
                self.cursor - 1
            } else {
                0
            },
        )
    }

    pub open spec fn righted(self) -> LineV {
        self.at(
            if self.cursor < self.chars.len() {
                self.cursor + 1
            } else {
                self.cursor
            },
        )
    }

    /// What stands before the cursor deleted.
    pub open spec fn killed(self) -> LineV {
        LineV { chars: self.chars.skip(self.cursor), cursor: 0, ..self }
    }

    pub open spec fn cleared(self) -> LineV {
        LineV { chars: Seq::empty(), cursor: 0, browse: None, ..self }
    }

    /// The history with a line appended, unless it is blank or the newest entry already.
    pub open spec fn remembered(self) -> Seq<Seq<char>> {
        let h = self.history;
        if trim_of(self.chars).len() == 0 || (h.len() > 0 && h.last() == self.chars) {
            h
        } else {
            h.push(self.chars)
        }
    }

    pub open spec fn taken(self) -> LineV {
        LineV { history: self.remembered(), ..self }.cleared()
    }

    /// A line put in place of the current one, the cursor after it.
    pub open spec fn loaded(self, s: Seq<char>) -> LineV {
        LineV { chars: s, cursor: s.len() as int, ..self }
    }

    /// The previous history entry recalled; the first time, the live line is stashed.
    pub open spec fn recalled_prev(self) -> LineV {
        let h = self.history;
        if h.len() == 0 {
            self
        } else {
            match self.browse {
                None => LineV {
                    stash: self.chars,
                    browse: Some(h.len() - 1),
                    ..self.loaded(h.last())
                },
                Some(i) => {
                    let j = if i == 0 {
                        0
                    } else {
                        i - 1
                    };
                    LineV { browse: Some(j), ..self.loaded(h[j]) }
                },
            }
        }
    }

    /// The next history entry recalled, or the live line past the newest.
    pub open spec fn recalled_next(self) -> LineV {
        match self.browse {
            None => self,
            Some(i) => if i + 1 < self.history.len() {
                LineV { browse: Some(i + 1), ..self.loaded(self.history[i + 1]) }
            } else {
                LineV { browse: None, stash: Seq::empty(), ..self.loaded(self.stash) }
            },
        }
    }

    /// `n` previous entries recalled, one after the other.
    pub open spec fn back(self, n: nat) -> LineV
        decreases n,
    {
        if n == 0 {
            self
        } else {
            self.back((n - 1) as nat).recalled_prev()
        }
    }

    /// `n` next entries recalled, one after the other.
    pub open spec fn forth(self, n: nat) -> LineV
        decreases n,
    {
        if n == 0 {
            self
        } else {
            self.forth((n - 1) as nat).recalled_next()
        }
    }
}

/// Backspace takes back what was just typed.
pub proof fn law_backspace_undoes_insert(l: LineV, c: char)
    requires
        l.wf(),
    ensures
        l.inserted(c).backspaced() == l,
        l.inserted(c).wf(),
{
    assert(l.inserted(c).backspaced() =~= l);
}

/// Going back in the history and forth as often brings the live line back, the cursor at its
/// end.
pub proof fn law_browse_returns(l: LineV, n: nat)
    requires
        l.wf(),
        l.browse is None,
        0 < n <= l.history.len(),
    ensures
        l.back(n).forth(n).chars == l.chars,
        l.back(n).forth(n).cursor == l.chars.len(),
        l.back(n).forth(n).browse is None,
        l.back(n).forth(n).history == l.history,
{
    lemma_back(l, n);
    lemma_forth(l.back(n), n, n);
}

proof fn lemma_back(l: LineV, n: nat)
    requires
        l.wf(),
        l.browse is None,
        0 < n <= l.history.len(),
    ensures
        l.back(n).browse == Some(l.history.len() - n),
        l.back(n).stash == l.chars,
        l.back(n).history == l.history,
        l.back(n).chars == l.history[l.history.len() - n],
    decreases n,
{
    reveal_with_fuel(LineV::back, 2);
    if n > 1 {
        lemma_back(l, (n - 1) as nat);
    }
}

proof fn lemma_forth(l: LineV, n: nat, k: nat)
    requires
        0 < n <= l.history.len(),
        l.browse == Some(l.history.len() - n),
        k <= n,
    ensures
        l.forth(k).history == l.history,
        k < n ==> l.forth(k).browse == Some(l.history.len() - n + k),
        k < n ==> l.forth(k).stash == l.stash,
        k == n ==> l.forth(k).browse is None,
        k == n ==> l.forth(k).chars == l.stash,
        k == n ==> l.forth(k).cursor == l.stash.len(),
    decreases k,
{
    if k > 0 {
        lemma_forth(l, n, (k - 1) as nat);
    }
}

impl LineEditor {
    pub fn new() -> (r: Self)
        ensures
            r@ == LineV::fresh(),
            r@.wf(),
    {
        let r = LineEditor {
            chars: Vec::new(),
            cursor: 0,
            history: Vec::new(),
            browse: None,
            stash: Vec::new(),
        };
        assert(r@ =~= LineV::fresh());
        r
    }

    pub fn text(&self) -> (r: String)
        ensures
            r@ == self@.chars,
    {
        from_chars(self.chars.as_slice())
    }

    pub fn cursor(&self) -> (r: usize)
        ensures
            r == self@.cursor,
    {
        self.cursor
    }

    pub fn chars(&self) -> (r: &[char])
        ensures
            r@ == self@.chars,
    {
        self.chars.as_slice()
    }

    pub fn insert(&mut self, c: char)
        requires
            old(self)@.wf(),
        ensures
            final(self)@ == old(self)@.inserted(c),
            final(self)@.wf(),
    {
        self.chars.insert(self.cursor, c);
        let _n: usize = self.chars.len();
        self.cursor = self.cursor + 1;
    }

    pub fn insert_str(&mut self, s: &str)
        requires
            old(self)@.wf(),
        ensures
            final(self)@ == old(self)@.typed(s@),
            final(self)@.wf(),
    {
        let v = to_chars(s);
        let mut i: usize = 0;
        assert(s@.take(0) =~= Seq::empty());
        while i < v.len()
            invariant
                v@ == s@,
                i <= v@.len(),
                self@.wf(),
                self@ == old(self)@.typed(s@.take(i as int)),
            decreases v@.len() - i,
        {
            self.insert(v[i]);
            proof {
                assert(s@.take(i + 1).drop_last() =~= s@.take(i as int));
            }
            i = i + 1;
        }
        assert(s@.take(i as int) =~= s@);
    }

    pub fn backspace(&mut self)
        requires
            old(self)@.wf(),
        ensures
            final(self)@ == old(self)@.backspaced(),
            final(self)@.wf(),
    {
        if self.cursor > 0 {
            self.cursor = self.cursor - 1;
            self.chars.remove(self.cursor);
        }
    }

    pub fn delete(&mut self)
        requires
            old(self)@.wf(),
        ensures
            final(self)@ == old(self)@.deleted(),
            final(self)@.wf(),
    {
        if self.cursor < self.chars.len() {
            self.chars.remove(self.cursor);
        }
    }

    pub fn left(&mut self)
        requires
            old(self)@.wf(),
        ensures
            final(self)@ == old(self)@.lefted(),
            final(self)@.wf(),
    {
        if self.cursor > 0 {
            self.cursor = self.cursor - 1;
        }
    }

    pub fn right(&mut self)
        requires
            old(self)@.wf(),
        ensures
            final(self)@ == old(self)@.righted(),
            final(self)@.wf(),
    {
        if self.cursor < self.chars.len() {
            self.cursor = self.cursor + 1;
        }
    }

    pub fn home(&mut self)
        requires
            old(self)@.wf(),
        ensures
            final(self)@ == old(self)@.at(0),
            final(self)@.wf(),
    {
        self.cursor = 0;
    }

    pub fn end(&mut self)
        requires
            old(self)@.wf(),
        ensures
            final(self)@ == old(self)@.at(old(self)@.chars.len() as int),
            final(self)@.wf(),
    {
        self.cursor = self.chars.len();
    }

    /// Delete from the cursor to the start of the line (Ctrl+U).
    pub fn kill_to_start(&mut self)
        requires
            old(self)@.wf(),
        ensures
            final(self)@ == old(self)@.killed(),
            final(self)@.wf(),
    {
        let mut rest: Vec<char> = Vec::new();
        let mut i: usize = self.cursor;
        while i < self.chars.len()
            invariant
                *self == *old(self),
                self.cursor <= i <= self.chars@.len(),
                rest@ =~= self.chars@.subrange(self.cursor as int, i as int),
            decreases self.chars@.len() - i,
        {
            rest.push(self.chars[i]);
            i = i + 1;
        }
        self.chars = rest;
        self.cursor = 0;
        assert(self@ =~= old(self)@.killed());
    }

    pub fn clear(&mut self)
        ensures
            final(self)@ == old(self)@.cleared(),
            final(self)@.wf(),
    {
        self.chars = Vec::new();
        self.cursor = 0;
        self.browse = None;
        assert(self@ =~= old(self)@.cleared());
    }

    /// Take the current line, push it to history, and reset for the next line.
    pub fn take(&mut self) -> (r: String)
        ensures
            r@ == old(self)@.chars,
            final(self)@ == old(self)@.taken(),
            final(self)@.wf(),
    {
        let line = self.text();
        let blank = char_count(trim(line.as_str()).as_str()) == 0;
        let n: usize = self.history.len();
        let repeated = n > 0 && str_same(self.history[n - 1].as_str(), line.as_str());
        if !blank && !repeated {
            self.history.push(line.clone());
        }
        assert(self@.history =~= old(self)@.remembered());
        self.clear();
        line
    }

    pub fn history(&self) -> (r: &[String])
        ensures
            texts(r@) == self@.history,
    {
        self.history.as_slice()
    }

    /// Recall the previous history entry (ArrowUp).
    pub fn history_prev(&mut self)
        requires
            old(self)@.wf(),
        ensures
            final(self)@ == old(self)@.recalled_prev(),
            final(self)@.wf(),
    {
        let n: usize = self.history.len();
        if n == 0 {
            return ;
        }
        let next: usize = match self.browse {
            None => {
                self.stash = copy_range(self.chars.as_slice(), 0, self.chars.len());
                n - 1
            },
            Some(i) => if i == 0 {
                0
            } else {
                i - 1
            },
        };
        self.browse = Some(next);
        self.load(next);
        assert(self@ =~= old(self)@.recalled_prev());
    }

    /// Recall the next history entry, or the stashed live line past the newest (ArrowDown).
    pub fn history_next(&mut self)
        requires
            old(self)@.wf(),
        ensures
            final(self)@ == old(self)@.recalled_next(),
            final(self)@.wf(),
    {
        match self.browse {
            None => {},
            Some(i) => {
                let n: usize = self.history.len();
                if i < n - 1 {
                    self.browse = Some(i + 1);
                    self.load(i + 1);
                } else {
                    self.browse = None;
                    let mut stash: Vec<char> = Vec::new();
                    std::mem::swap(&mut self.stash, &mut stash);
                    self.cursor = stash.len();
                    self.chars = stash;
                }
                assert(self@ =~= old(self)@.recalled_next());
            },
        }
    }

    /// Put history entry `i` in place of the line.
    fn load(&mut self, i: usize)
        requires
            i < old(self)@.history.len(),
        ensures
            final(self)@ == old(self)@.loaded(old(self)@.history[i as int]),
    {
        self.chars = to_chars(self.history[i].as_str());
        self.cursor = self.chars.len();
        assert(self@ =~= old(self)@.loaded(old(self)@.history[i as int]));
    }
}

} // verus!
