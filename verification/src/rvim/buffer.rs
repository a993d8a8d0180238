//! Line-based text buffer with char-indexed positions and grouped snapshot undo.
//! All columns are char indices, never byte offsets.

use vstd::prelude::*;

use crate::text::{
    char_count, from_chars, group_texts, join_lines, leading_space, lemma_split_nonempty, lines_of,
    split_lines, texts, to_chars, trim_start_of, unlines, vec_len,
};

verus! {

broadcast use group_texts;

/// Cap on retained undo snapshots.
pub const UNDO_CAP: usize = 200;

/// A place in a text: line and column, both counted from zero.
#[derive(Clone, Copy, PartialEq, Eq, PartialOrd, Ord, Debug, Structural)]
pub struct Position {
    pub line: usize,
    pub col: usize,
}

/// A position as mathematical integers.
pub struct Pos {
    pub line: int,
    pub col: int,
}

impl View for Position {
    type V = Pos;

    open spec fn view(&self) -> Pos {
        Pos { line: self.line as int, col: self.col as int }
    }
}

impl Default for Position {
    fn default() -> (r: Position)
        ensures
            r.line == 0,
            r.col == 0,
    {
        Position { line: 0, col: 0 }
    }
}

impl Position {
    pub fn new(line: usize, col: usize) -> (r: Self)
        ensures
            r.line == line,
            r.col == col,
    {
        Position { line, col }
    }

    /// Whether `self` comes no later than `other` in the text.
    pub fn le(self, other: Position) -> (r: bool)
        ensures
            r == pos_le(self@, other@),
    {
        self.line < other.line || (self.line == other.line && self.col <= other.col)
    }
}

/// Text order of positions.
pub open spec fn pos_le(a: Pos, b: Pos) -> bool {
    a.line < b.line || (a.line == b.line && a.col <= b.col)
}

pub open spec fn pos(line: int, col: int) -> Pos {
    Pos { line, col }
}

pub open spec fn min(a: int, b: int) -> int {
    if a <= b {
        a
    } else {
        b
    }
}

pub open spec fn max(a: int, b: int) -> int {
    if a <= b {
        b
    } else {
        a
    }
}

/// Line `i` of a text; empty when there is none.
pub open spec fn line_at(ls: Seq<Seq<char>>, i: int) -> Seq<char> {
    if 0 <= i < ls.len() {
        ls[i]
    } else {
        Seq::empty()
    }
}

/// The place in the text nearest to `p`: on a line that exists, and on one of its characters
/// (or, with `allow_end`, just past the last).
#[verifier::opaque]
pub open spec fn clamped(ls: Seq<Seq<char>>, p: Pos, allow_end: bool) -> Pos {
    let line = min(p.line, max(ls.len() - 1, 0));
    let len = line_at(ls, line).len() as int;
    pos(line, min(p.col, if allow_end { len } else { max(len - 1, 0) }))
}

/// Lines `[at, at + n)` replaced by `new`.
pub open spec fn spliced(
    ls: Seq<Seq<char>>,
    at: int,
    n: int,
    new: Seq<Seq<char>>,
) -> Seq<Seq<char>> {
    ls.take(at) + new + ls.skip(at + n)
}

/// The pieces with `head` before the first and `tail` after the last.
pub open spec fn framed(
    head: Seq<char>,
    segs: Seq<Seq<char>>,
    tail: Seq<char>,
) -> Seq<Seq<char>> {
    Seq::new(
        segs.len(),
        |i: int|
            (if i == 0 { head } else { Seq::empty() }) + segs[i] + (if i == segs.len() - 1 {
                tail
            } else {
                Seq::empty()
            }),
    )
}

/// The text with `t` inserted at `p`, a place in the text.
pub open spec fn inserted(ls: Seq<Seq<char>>, p: Pos, t: Seq<char>) -> Seq<Seq<char>> {
    let l = ls[p.line];
    spliced(ls, p.line, 1, framed(l.take(p.col), lines_of(t), l.skip(p.col)))
}

/// The place just after `t` once it stands at `p`.
pub open spec fn after_insert(p: Pos, t: Seq<char>) -> Pos {
    let segs = lines_of(t);
    pos(
        p.line + segs.len() - 1,
        (if segs.len() == 1 { p.col } else { 0 }) + segs.last().len(),
    )
}

/// The lines of the charwise range `[a, b)`, the first and the last cut to the range.
pub open spec fn range_lines(ls: Seq<Seq<char>>, a: Pos, b: Pos) -> Seq<Seq<char>> {
    Seq::new(
        (b.line - a.line + 1) as nat,
        |i: int|
            {
                let l = ls[a.line + i];
                l.subrange(
                    if i == 0 { a.col } else { 0 },
                    if a.line + i == b.line { b.col } else { l.len() as int },
                )
            },
    )
}

/// The text without the charwise range `[a, b)`.
pub open spec fn without_range(ls: Seq<Seq<char>>, a: Pos, b: Pos) -> Seq<Seq<char>> {
    spliced(ls, a.line, b.line - a.line + 1, seq![ls[a.line].take(a.col) + ls[b.line].skip(b.col)])
}

/// Two lines made one; with `with_space` the second loses its leading whitespace and a space
/// is put between them when both are non-empty.
pub open spec fn joined(a: Seq<char>, b: Seq<char>, with_space: bool) -> Seq<char> {
    if with_space {
        let t = trim_start_of(b);
        if a.len() > 0 && t.len() > 0 {
            a.push(' ') + t
        } else {
            a + t
        }
    } else {
        a + b
    }
}

/// Line `i` is as long in both texts.
pub open spec fn len_same(a: Seq<Seq<char>>, b: Seq<Seq<char>>, i: int) -> bool {
    line_at(a, i).len() == line_at(b, i).len()
}

/// Model of one retained state.
pub struct SnapV {
    pub lines: Seq<Seq<char>>,
    pub cursor: Pos,
}

/// Model of a text buffer.
#[verifier::ext_equal]
pub struct TextV {
    pub lines: Seq<Seq<char>>,
    pub version: u64,
    pub undo: Seq<SnapV>,
    pub redo: Seq<SnapV>,
    pub group: Option<(SnapV, u64)>,
}

/// A stack with one more entry, the oldest dropped beyond the cap.
pub open spec fn push_capped(stack: Seq<SnapV>, s: SnapV) -> Seq<SnapV> {
    let u = stack.push(s);
    if u.len() > UNDO_CAP {
        u.remove(0)
    } else {
        u
    }
}

impl SnapV {
    pub open spec fn wf(self) -> bool {
        self.lines.len() >= 1
    }
}

impl TextV {
    /// At least one line, now and in every retained state.
    #[verifier::opaque]
    pub open spec fn wf(self) -> bool {
        &&& self.lines.len() >= 1
        &&& forall|i: int| 0 <= i < self.undo.len() ==> (#[trigger] self.undo[i]).wf()
        &&& forall|i: int| 0 <= i < self.redo.len() ==> (#[trigger] self.redo[i]).wf()
        &&& self.group is Some ==> (self.group->0).0.wf()
    }

    /// Just loaded: no history.
    pub open spec fn fresh(t: Seq<char>) -> TextV {
        TextV {
            lines: lines_of(t),
            version: 0,
            undo: Seq::empty(),
            redo: Seq::empty(),
            group: None,
        }
    }

    pub open spec fn snap(self, cursor: Pos) -> SnapV {
        SnapV { lines: self.lines, cursor }
    }

    /// One more undo step; what was undone can no longer be redone.
    pub open spec fn pushed(self, s: SnapV) -> TextV {
        TextV { undo: push_capped(self.undo, s), redo: Seq::empty(), ..self }
    }

    /// About to change: an undo step unless a group holds one already, and a new version.
    pub open spec fn touched(self, cursor: Pos) -> TextV {
        let t = if self.group is None {
            self.pushed(self.snap(cursor))
        } else {
            self
        };
        TextV { version: self.version.wrapping_add(1), ..t }
    }

    /// Changed to `lines`, with `cursor` to return to on undo.
    pub open spec fn edited(self, cursor: Pos, lines: Seq<Seq<char>>) -> TextV {
        TextV { lines, ..self.touched(cursor) }
    }

    #[verifier::opaque]
    pub open spec fn group_begun(self, cursor: Pos) -> TextV {
        if self.group is None {
            TextV { group: Some((self.snap(cursor), self.version)), ..self }
        } else {
            self
        }
    }

    #[verifier::opaque]
    pub open spec fn group_ended(self) -> TextV {
        match self.group {
            Some((s, at)) => {
                let t = TextV { group: None, ..self };
                if self.version != at {
                    t.pushed(s)
                } else {
                    t
                }
            },
            None => self,
        }
    }

    #[verifier::opaque]
    pub open spec fn undone(self, cursor: Pos) -> TextV {
        let t = self.group_ended();
        if t.undo.len() == 0 {
            t
        } else {
            TextV {
                lines: t.undo.last().lines,
                undo: t.undo.drop_last(),
                redo: t.redo.push(t.snap(cursor)),
                version: t.version.wrapping_add(1),
                ..t
            }
        }
    }

    #[verifier::opaque]
    pub open spec fn undo_cursor(self) -> Option<Pos> {
        let t = self.group_ended();
        if t.undo.len() == 0 {
            None
        } else {
            Some(t.undo.last().cursor)
        }
    }

    #[verifier::opaque]
    pub open spec fn redone(self, cursor: Pos) -> TextV {
        if self.redo.len() == 0 {
            self
        } else {
            TextV {
                lines: self.redo.last().lines,
                redo: self.redo.drop_last(),
                undo: push_capped(self.undo, self.snap(cursor)),
                version: self.version.wrapping_add(1),
                ..self
            }
        }
    }

    #[verifier::opaque]
    pub open spec fn redo_cursor(self) -> Option<Pos> {
        if self.redo.len() == 0 {
            None
        } else {
            Some(self.redo.last().cursor)
        }
    }

    #[verifier::opaque]
    pub open spec fn text_inserted(self, p: Pos, t: Seq<char>) -> TextV {
        let q = clamped(self.lines, p, true);
        self.edited(q, inserted(self.lines, q, t))
    }

    /// The two ends clamped, in text order.
    pub open spec fn range_of(self, a: Pos, b: Pos) -> (Pos, Pos) {
        let a = clamped(self.lines, a, true);
        let b = clamped(self.lines, b, true);
        if pos_le(a, b) {
            (a, b)
        } else {
            (b, a)
        }
    }

    #[verifier::opaque]
    pub open spec fn range_deleted(self, a: Pos, b: Pos) -> TextV {
        let (a, b) = self.range_of(a, b);
        if a == b {
            self
        } else {
            self.edited(a, without_range(self.lines, a, b))
        }
    }

    /// The text of a charwise range.
    #[verifier::opaque]
    pub open spec fn range_text(self, a: Pos, b: Pos) -> Seq<char> {
        let (a, b) = self.range_of(a, b);
        unlines(range_lines(self.lines, a, b))
    }

    /// The line range `[first, last]` moved into the text.
    pub open spec fn line_range(self, first: int, last: int) -> (int, int) {
        let n = max(self.lines.len() - 1, 0);
        let f = min(first, n);
        (f, max(min(last, n), f))
    }

    #[verifier::opaque]
    pub open spec fn lines_deleted(self, first: int, last: int) -> TextV {
        let (f, l) = self.line_range(first, last);
        let rest = spliced(self.lines, f, l - f + 1, Seq::empty());
        self.edited(
            pos(f, 0),
            if rest.len() == 0 {
                seq![Seq::empty()]
            } else {
                rest
            },
        )
    }

    #[verifier::opaque]
    pub open spec fn lines_text(self, first: int, last: int) -> Seq<char> {
        let (f, l) = self.line_range(first, last);
        unlines(self.lines.subrange(f, l + 1))
    }

    #[verifier::opaque]
    pub open spec fn lines_inserted(self, at: int, new: Seq<Seq<char>>) -> TextV {
        if new.len() == 0 {
            self
        } else {
            let at = min(at, self.lines.len() as int);
            self.edited(pos(at, 0), spliced(self.lines, at, 0, new))
        }
    }

    #[verifier::opaque]
    pub open spec fn line_joined(self, idx: int, with_space: bool) -> TextV {
        if idx + 1 >= self.lines.len() {
            self
        } else {
            self.edited(
                pos(idx, 0),
                spliced(
                    self.lines,
                    idx,
                    2,
                    seq![joined(self.lines[idx], self.lines[idx + 1], with_space)],
                ),
            )
        }
    }

    pub open spec fn has_char(self, p: Pos) -> bool {
        p.col < line_at(self.lines, p.line).len()
    }

    #[verifier::opaque]
    pub open spec fn char_replaced(self, p: Pos, c: char) -> TextV {
        if self.has_char(p) {
            self.edited(
                p,
                self.lines.update(p.line, self.lines[p.line].update(p.col, c)),
            )
        } else {
            self
        }
    }

    #[verifier::opaque]
    pub open spec fn line_set(self, idx: int, t: Seq<char>) -> TextV {
        if idx < self.lines.len() {
            self.edited(pos(idx, 0), self.lines.update(idx, t))
        } else {
            self
        }
    }
}

struct Snapshot {
    lines: Vec<String>,
    cursor: Position,
}

impl View for Snapshot {
    type V = SnapV;

    closed spec fn view(&self) -> SnapV {
        SnapV { lines: texts(self.lines@), cursor: self.cursor@ }
    }
}

pub struct TextBuffer {
    lines: Vec<String>,
    version: u64,
    undo: Vec<Snapshot>,
    redo: Vec<Snapshot>,
    /// Open undo group: pre-edit snapshot and the version when it was taken.
    group: Option<(Snapshot, u64)>,
}

spec fn snaps(s: Seq<Snapshot>) -> Seq<SnapV> {
    Seq::new(s.len(), |i: int| s[i]@)
}

impl View for TextBuffer {
    type V = TextV;

    closed spec fn view(&self) -> TextV {
        TextV {
            lines: texts(self.lines@),
            version: self.version,
            undo: snaps(self.undo@),
            redo: snaps(self.redo@),
            group: match self.group {
                Some((s, at)) => Some((s@, at)),
                None => None,
            },
        }
    }
}

/// Replace lines `[at, at + n)` by `new`.
fn splice(lines: &mut Vec<String>, at: usize, n: usize, new: Vec<String>)
    requires
        at + n <= old(lines)@.len(),
    ensures
        final(lines)@ == old(lines)@.take(at as int) + new@ + old(lines)@.skip(at + n),
        texts(final(lines)@) == spliced(texts(old(lines)@), at as int, n as int, texts(new@)),
{
    let mut new = new;
    let ghost before = lines@;
    let ghost mid = new@;
    let count: usize = lines.len();
    let mut tail = lines.split_off(count - (count - at - n));
    lines.truncate(at);
    lines.append(&mut new);
    lines.append(&mut tail);
    assert(lines@ =~= before.take(at as int) + mid + before.skip(at + n));
    assert(texts(lines@) =~= spliced(texts(before), at as int, n as int, texts(mid)));
}

/// A copy of some lines.
fn copy_lines(v: &Vec<String>) -> (r: Vec<String>)
    ensures
        texts(r@) == texts(v@),
{
    let mut r: Vec<String> = Vec::new();
    for i in 0..v.len()
        invariant
            r@.len() == i,
            forall|j: int| 0 <= j < i ==> (#[trigger] r@[j])@ == v@[j]@,
    {
        r.push(v[i].clone());
    }
    assert(texts(r@) =~= texts(v@));
    r
}

impl TextBuffer {
    pub fn from_text(text: &str) -> (r: Self)
        ensures
            r@ == TextV::fresh(text@),
            r@.wf(),
    {
        proof {
            reveal(TextV::wf);
        }
        let lines = split_lines(text);
        proof {
            lemma_split_nonempty(text@, '\n');
        }
        let r = TextBuffer { lines, version: 0, undo: Vec::new(), redo: Vec::new(), group: None };
        assert(r@ =~= TextV::fresh(text@));
        r
    }

    pub fn text(&self) -> (r: String)
        ensures
            r@ == unlines(self@.lines),
    {
        join_lines(self.lines.as_slice())
    }

    pub fn version(&self) -> (r: u64)
        ensures
            r == self@.version,
    {
        self.version
    }

    pub fn line_count(&self) -> (r: usize)
        ensures
            r == self@.lines.len(),
            r <= isize::MAX,
            self@.wf() ==> r >= 1,
    {
        proof {
            reveal(TextV::wf);
        }
        vec_len(&self.lines)
    }

    /// Line `idx`; empty when there is none.
    pub fn line(&self, idx: usize) -> (r: &str)
        ensures
            r@ == line_at(self@.lines, idx as int),
    {
        if idx < self.lines.len() {
            self.lines[idx].as_str()
        } else {
            proof {
                reveal_strlit("");
            }
            let e = "";
            assert(e@ =~= Seq::<char>::empty());
            e
        }
    }

    pub fn lines(&self) -> (r: &[String])
        ensures
            texts(r@) == self@.lines,
    {
        self.lines.as_slice()
    }

    /// Char length of line `idx`; 0 for out-of-range lines.
    pub fn line_len(&self, idx: usize) -> (r: usize)
        ensures
            r == line_at(self@.lines, idx as int).len(),
            r <= isize::MAX,
    {
        if idx < self.lines.len() {
            char_count(self.lines[idx].as_str())
        } else {
            0
        }
    }

    pub fn char_at(&self, pos: Position) -> (r: Option<char>)
        ensures
            r == (if self@.has_char(pos@) {
                Some(line_at(self@.lines, pos.line as int)[pos.col as int])
            } else {
                None
            }),
    {
        if pos.line < self.lines.len() {
            let line = self.lines[pos.line].as_str();
            if pos.col < line.unicode_len() {
                return Some(line.get_char(pos.col));
            }
        }
        None
    }

    /// Clamp `pos` into the buffer. With `allow_end`, col may equal the line length
    /// (insert-mode cursor); otherwise it stops on the last char.
    pub fn clamp(&self, pos: Position, allow_end: bool) -> (r: Position)
        ensures
            r@ == clamped(self@.lines, pos@, allow_end),
            r.line <= isize::MAX,
            r.col <= isize::MAX,
            self@.wf() ==> r.line < self@.lines.len() && r.col <= self@.lines[r.line as int].len(),
    {
        proof {
            reveal(clamped);
            reveal(TextV::wf);
        }
        let count: usize = vec_len(&self.lines);
        let last: usize = if count > 0 {
            count - 1
        } else {
            0
        };
        let line: usize = if pos.line < last {
            pos.line
        } else {
            last
        };
        let len: usize = self.line_len(line);
        let most: usize = if allow_end || len == 0 {
            len
        } else {
            len - 1
        };
        Position::new(
            line,
            if pos.col < most {
                pos.col
            } else {
                most
            },
        )
    }

    fn snapshot(&self, cursor: Position) -> (r: Snapshot)
        ensures
            r@ == self@.snap(cursor@),
    {
        Snapshot { lines: copy_lines(&self.lines), cursor }
    }

    /// Snapshot for undo unless a group already captured one; bumps the version.
    fn touch(&mut self, cursor: Position)
        requires
            old(self)@.wf(),
        ensures
            final(self)@.wf(),
            final(self)@ == old(self)@.touched(cursor@),
            final(self).lines == old(self).lines,
    {
        proof {
            reveal(TextV::wf);
        }
        if self.group.is_none() {
            let s = self.snapshot(cursor);
            self.push_undo(s);
        }
        self.version = self.version.wrapping_add(1);
        assert(self@ =~= old(self)@.touched(cursor@));
    }

    fn push_undo(&mut self, snap: Snapshot)
        requires
            old(self)@.wf(),
            snap@.wf(),
        ensures
            final(self)@.wf(),
            final(self)@ == old(self)@.pushed(snap@),
            final(self).lines == old(self).lines,
    {
        proof {
            reveal(TextV::wf);
        }
        self.undo.push(snap);
        if self.undo.len() > UNDO_CAP {
            self.undo.remove(0);
        }
        self.redo.clear();
        assert(self@.undo =~= push_capped(old(self)@.undo, snap@));
        assert(self@.redo =~= Seq::empty());
    }

    /// Start grouping subsequent edits into one undo step (e.g. an insert-mode session).
    pub fn begin_undo_group(&mut self, cursor: Position)
        requires
            old(self)@.wf(),
        ensures
            final(self)@.wf(),
            final(self)@ == old(self)@.group_begun(cursor@),
            final(self)@.lines == old(self)@.lines,
    {
        proof {
            reveal(TextV::wf);
            reveal(TextV::group_begun);
        }
        if self.group.is_none() {
            let s = self.snapshot(cursor);
            self.group = Some((s, self.version));
        }
    }

    /// Close the open group; records one undo step if anything changed.
    pub fn end_undo_group(&mut self)
        requires
            old(self)@.wf(),
        ensures
            final(self)@.wf(),
            final(self)@ == old(self)@.group_ended(),
            final(self)@.lines == old(self)@.lines,
    {
        proof {
            reveal(TextV::wf);
            reveal(TextV::group_ended);
        }
        if let Some((snap, at)) = self.group.take() {
            if self.version != at {
                self.push_undo(snap);
            }
        }
    }

    /// Revert to the previous undo step; returns the cursor recorded with it.
    pub fn undo(&mut self, cursor: Position) -> (r: Option<Position>)
        requires
            old(self)@.wf(),
        ensures
            final(self)@.wf(),
            final(self)@ == old(self)@.undone(cursor@),
            r is Some == old(self)@.undo_cursor() is Some,
            r is Some ==> (r->0)@ == old(self)@.undo_cursor()->0,
            r is None ==> final(self)@.lines == old(self)@.lines,
    {
        proof {
            reveal(TextV::wf);
            reveal(TextV::group_ended);
            reveal(TextV::undone);
            reveal(TextV::undo_cursor);
        }
        self.end_undo_group();
        let ghost mid = self@;
        match self.undo.pop() {
            None => None,
            Some(snap) => {
                assert(snap@ == mid.undo.last());
                let mut lines = snap.lines;
                std::mem::swap(&mut self.lines, &mut lines);
                self.redo.push(Snapshot { lines, cursor });
                self.version = self.version.wrapping_add(1);
                assert(self@ =~= old(self)@.undone(cursor@));
                Some(snap.cursor)
            },
        }
    }

    pub fn redo(&mut self, cursor: Position) -> (r: Option<Position>)
        requires
            old(self)@.wf(),
        ensures
            final(self)@.wf(),
            final(self)@ == old(self)@.redone(cursor@),
            r is Some == old(self)@.redo_cursor() is Some,
            r is Some ==> (r->0)@ == old(self)@.redo_cursor()->0,
            r is None ==> final(self)@.lines == old(self)@.lines,
    {
        proof {
            reveal(TextV::wf);
            reveal(TextV::redone);
            reveal(TextV::redo_cursor);
        }
        match self.redo.pop() {
            None => None,
            Some(snap) => {
                assert(snap@ == old(self)@.redo.last());
                let mut lines = snap.lines;
                std::mem::swap(&mut self.lines, &mut lines);
                self.undo.push(Snapshot { lines, cursor });
                if self.undo.len() > UNDO_CAP {
                    self.undo.remove(0);
                }
                self.version = self.version.wrapping_add(1);
                assert(self@.undo =~= push_capped(old(self)@.undo, old(self)@.snap(cursor@)));
                assert(self@ =~= old(self)@.redone(cursor@));
                Some(snap.cursor)
            },
        }
    }

    /// Insert one char (or a line break for '\n') at `pos`; returns the position after it.
    pub fn insert_char(&mut self, pos: Position, c: char) -> (r: Position)
        requires
            old(self)@.wf(),
        ensures
            final(self)@.wf(),
            final(self)@ == old(self)@.text_inserted(pos@, seq![c]),
            r@ == after_insert(clamped(old(self)@.lines, pos@, true), seq![c]),
            r.line < final(self)@.lines.len(),
            r.col <= final(self)@.lines[r.line as int].len(),
            r.line <= isize::MAX,
            r.col <= isize::MAX,
    {
        let mut s = String::new();
        s.push(c);
        assert(s@ =~= seq![c]);
        self.insert_text(pos, s.as_str())
    }

    /// Insert possibly-multiline text at `pos`; returns the position after the insertion.
    pub fn insert_text(&mut self, pos: Position, text: &str) -> (r: Position)
        requires
            old(self)@.wf(),
        ensures
            final(self)@.wf(),
            final(self)@ == old(self)@.text_inserted(pos@, text@),
            r@ == after_insert(clamped(old(self)@.lines, pos@, true), text@),
            r.line < final(self)@.lines.len(),
            r.col <= final(self)@.lines[r.line as int].len(),
            r.line <= isize::MAX,
            r.col <= isize::MAX,
    {
        proof {
            reveal(TextV::wf);
            reveal(TextV::text_inserted);
            reveal(clamped);
        }
        let pos = self.clamp(pos, true);
        self.touch(pos);
        let ghost ls = self@.lines;
        let line = self.lines[pos.line].as_str();
        let len: usize = line.unicode_len();
        let tail = line.substring_char(pos.col, len).to_string();
        let head = line.substring_char(0, pos.col).to_string();
        let ghost (h, t) = (head@, tail@);
        assert(h =~= ls[pos.line as int].take(pos.col as int));
        assert(t =~= ls[pos.line as int].skip(pos.col as int));
        let mut segs = split_lines(text);
        let ghost parts = texts(segs@);
        let n: usize = segs.len();
        let mut first = head;
        first.append(segs[0].as_str());
        segs[0] = first;
        let mut last = segs[n - 1].clone();
        let end_col: usize = char_count(last.as_str());
        last.append(tail.as_str());
        segs[n - 1] = last;
        assert(texts(segs@) =~= framed(h, parts, t));
        splice(&mut self.lines, pos.line, 1, segs);
        let count: usize = vec_len(&self.lines);
        assert(pos.line + n <= count);
        assert(self@.lines[pos.line + n - 1] == framed(h, parts, t)[n - 1]);
        let end_line: usize = pos.line + (n - 1);
        Position::new(end_line, end_col)
    }

    /// Delete the charwise range `[start, end)` (end exclusive); returns the removed text.
    pub fn delete_range(&mut self, start: Position, end: Position) -> (r: String)
        requires
            old(self)@.wf(),
        ensures
            final(self)@.wf(),
            final(self)@ == old(self)@.range_deleted(start@, end@),
            r@ == old(self)@.range_text(start@, end@),
    {
        proof {
            reveal(TextV::wf);
            reveal(TextV::range_deleted);
            reveal(TextV::range_text);
            reveal(clamped);
        }
        let a0 = self.clamp(start, true);
        let b0 = self.clamp(end, true);
        let (a, b) = if a0.le(b0) {
            (a0, b0)
        } else {
            (b0, a0)
        };
        let removed = self.range_string(a, b);
        if a == b {
            assert(a@ == b@);
            return removed;
        }
        assert(a@ != b@);
        self.touch(a);
        let ghost ls = self@.lines;
        let last = self.lines[b.line].as_str();
        let len: usize = last.unicode_len();
        let tail = last.substring_char(b.col, len).to_string();
        let mut keep = self.lines[a.line].as_str().substring_char(0, a.col).to_string();
        keep.append(tail.as_str());
        let mut new: Vec<String> = Vec::new();
        new.push(keep);
        assert(texts(new@) =~= seq![
            ls[a.line as int].take(a.col as int) + ls[b.line as int].skip(b.col as int),
        ]);
        let count: usize = self.lines.len();
        assert(b.line < count);
        splice(&mut self.lines, a.line, b.line - a.line + 1, new);
        removed
    }

    /// The text of the charwise range `[a, b)` between two places in the buffer.
    fn range_string(&self, a: Position, b: Position) -> (r: String)
        requires
            pos_le(a@, b@),
            b.line < self@.lines.len(),
            b.col <= self@.lines[b.line as int].len(),
            a.col <= self@.lines[a.line as int].len(),
        ensures
            r@ == unlines(range_lines(self@.lines, a@, b@)),
    {
        let mut parts: Vec<String> = Vec::new();
        let count: usize = self.lines.len();
        assert(b.line < count);
        for i in a.line..b.line + 1
            invariant
                a.line <= i <= b.line + 1,
                pos_le(a@, b@),
                b.line < self@.lines.len(),
                b.col <= self@.lines[b.line as int].len(),
                a.col <= self@.lines[a.line as int].len(),
                texts(parts@) == range_lines(self@.lines, a@, b@).take(i - a.line),
        {
            let line = self.lines[i].as_str();
            let from: usize = if i == a.line {
                a.col
            } else {
                0
            };
            let to: usize = if i == b.line {
                b.col
            } else {
                line.unicode_len()
            };
            let part = line.substring_char(from, to).to_string();
            let ghost rl = range_lines(self@.lines, a@, b@);
            assert(rl.take(i - a.line + 1) =~= rl.take(i - a.line).push(rl[i - a.line]));
            assert(part@ == rl[i - a.line]);
            parts.push(part);
        }
        assert(texts(parts@) =~= range_lines(self@.lines, a@, b@));
        join_lines(parts.as_slice())
    }

    /// Remove whole lines `[first, last]` inclusive; returns them joined with '\n'.
    /// The buffer always keeps at least one (possibly empty) line.
    pub fn delete_lines(&mut self, first: usize, last: usize) -> (r: String)
        requires
            old(self)@.wf(),
        ensures
            final(self)@.wf(),
            final(self)@ == old(self)@.lines_deleted(first as int, last as int),
            r@ == old(self)@.lines_text(first as int, last as int),
    {
        proof {
            reveal(TextV::wf);
            reveal(TextV::lines_deleted);
            reveal(TextV::lines_text);
        }
        let top: usize = self.lines.len() - 1;
        let f: usize = if first < top {
            first
        } else {
            top
        };
        let l0: usize = if last < top {
            last
        } else {
            top
        };
        let l: usize = if l0 > f {
            l0
        } else {
            f
        };
        self.touch(Position::new(f, 0));
        let ghost ls = self@.lines;
        let mut removed = self.lines.split_off(f);
        let mut rest = removed.split_off(l - f + 1);
        self.lines.append(&mut rest);
        assert(texts(self.lines@) =~= spliced(ls, f as int, l - f + 1, Seq::empty()));
        assert(texts(removed@) =~= ls.subrange(f as int, l + 1));
        if self.lines.len() == 0 {
            self.lines.push(String::new());
            assert(texts(self.lines@) =~= seq![Seq::<char>::empty()]);
        }
        join_lines(removed.as_slice())
    }

    /// Insert whole lines before index `at` (clamped to the line count).
    pub fn insert_lines(&mut self, at: usize, new_lines: Vec<String>)
        requires
            old(self)@.wf(),
        ensures
            final(self)@.wf(),
            final(self)@ == old(self)@.lines_inserted(at as int, texts(new_lines@)),
            final(self)@.lines.len() == old(self)@.lines.len() + new_lines@.len(),
    {
        proof {
            reveal(TextV::wf);
            reveal(TextV::lines_inserted);
        }
        if new_lines.len() == 0 {
            return;
        }
        let count: usize = self.lines.len();
        let at: usize = if at < count {
            at
        } else {
            count
        };
        self.touch(Position::new(at, 0));
        splice(&mut self.lines, at, 0, new_lines);
    }

    /// Join line `idx` with the next; `with_space` collapses leading whitespace to one space.
    /// Returns the col where the lines met.
    pub fn join_line(&mut self, idx: usize, with_space: bool) -> (r: Option<usize>)
        requires
            old(self)@.wf(),
        ensures
            final(self)@.wf(),
            final(self)@ == old(self)@.line_joined(idx as int, with_space),
            r is Some == (idx + 1 < old(self)@.lines.len()),
            r is Some ==> r->0 == old(self)@.lines[idx as int].len(),
            r is None ==> final(self)@ == old(self)@,
    {
        proof {
            reveal(TextV::wf);
            reveal(TextV::line_joined);
        }
        if idx >= self.lines.len() - 1 {
            return None;
        }
        self.touch(Position::new(idx, 0));
        let ghost ls = self@.lines;
        let mut line = self.lines[idx].clone();
        let joint: usize = line.as_str().unicode_len();
        let next = self.lines[idx + 1].as_str();
        if with_space {
            let len: usize = next.unicode_len();
            let skip: usize = leading_space(to_chars(next).as_slice());
            let trimmed = next.substring_char(skip, len);
            assert(trimmed@ =~= trim_start_of(ls[idx + 1]));
            if joint > 0 && skip < len {
                line.push(' ');
            }
            line.append(trimmed);
        } else {
            line.append(next);
        }
        let mut new: Vec<String> = Vec::new();
        new.push(line);
        assert(texts(new@) =~= seq![joined(ls[idx as int], ls[idx + 1], with_space)]);
        splice(&mut self.lines, idx, 2, new);
        Some(joint)
    }

    /// Replace the char at `pos`; returns false when there is none.
    pub fn replace_char(&mut self, pos: Position, c: char) -> (r: bool)
        requires
            old(self)@.wf(),
        ensures
            final(self)@.wf(),
            final(self)@ == old(self)@.char_replaced(pos@, c),
            final(self)@.lines.len() == old(self)@.lines.len(),
            forall|i: int| len_same(old(self)@.lines, final(self)@.lines, i),
            r == old(self)@.has_char(pos@),
            !r ==> final(self)@ == old(self)@,
    {
        proof {
            reveal(TextV::wf);
            reveal(TextV::char_replaced);
        }
        if self.char_at(pos).is_none() {
            return false;
        }
        self.touch(pos);
        let mut chars = to_chars(self.lines[pos.line].as_str());
        chars[pos.col] = c;
        self.lines[pos.line] = from_chars(chars.as_slice());
        true
    }

    /// Replace an entire line's content.
    pub fn set_line(&mut self, idx: usize, text: String)
        requires
            old(self)@.wf(),
        ensures
            final(self)@.wf(),
            final(self)@ == old(self)@.line_set(idx as int, text@),
            final(self)@.lines == (if idx < old(self)@.lines.len() {
                old(self)@.lines.update(idx as int, text@)
            } else {
                old(self)@.lines
            }),
    {
        proof {
            reveal(TextV::wf);
            reveal(TextV::line_set);
        }
        if idx < self.lines.len() {
            self.touch(Position::new(idx, 0));
            self.lines[idx] = text;
        }
    }
}

} // verus!
