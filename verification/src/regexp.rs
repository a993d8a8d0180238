//! The regex panel: matches marked in the text, and a breakdown of their groups.

use vstd::prelude::*;
use vstd::utf8::is_char_boundary;

use crate::text::{cat, decimal, decimal_of, group_texts, join_lines, texts, unlines};

verus! {

broadcast use group_texts;

pub struct RegexTester {
    pub pattern: String,
    pub text: String,
    pub case_insensitive: bool,
    pub multiline: bool,
    pub dot_all: bool,
}

/// A pattern with its flags (case-insensitive, multi-line, dot matches line ends) and the bits
/// of a `usize`: how large a pattern may get compiled is counted in machine words.
pub type PatternV = (Seq<char>, bool, bool, bool, int);

pub open spec fn flagged(pattern: Seq<char>, icase: bool, multi: bool, dot: bool) -> PatternV {
    (pattern, icase, multi, dot, usize::BITS as int)
}

/// `regex::RegexBuilder::build` on a pattern: the words of the error; `None` where it compiles.
pub uninterp spec fn regex_error(p: (Seq<char>, bool, bool, bool, int)) -> Option<Seq<char>>;

/// `regex::Regex::find_iter`: start and end of each match of a pattern, in bytes.
pub uninterp spec fn regex_ranges(
    p: (Seq<char>, bool, bool, bool, int),
    text: Seq<char>,
) -> Seq<(int, int)>;

/// `regex::Regex::captures_iter`: the groups of each match of a pattern, the whole one first.
pub uninterp spec fn regex_groups(
    p: (Seq<char>, bool, bool, bool, int),
    text: Seq<char>,
) -> Seq<Seq<Option<Seq<char>>>>;

/// `regex::Regex::capture_names`: the names of a pattern's groups, the whole one first.
pub uninterp spec fn regex_names(p: (Seq<char>, bool, bool, bool, int)) -> Seq<Option<Seq<char>>>;

pub open spec fn ranges_of(v: Seq<(usize, usize)>) -> Seq<(int, int)> {
    Seq::new(v.len(), |i: int| (v[i].0 as int, v[i].1 as int))
}

pub open spec fn opt_text(s: Option<String>) -> Option<Seq<char>> {
    match s {
        Some(s) => Some(s@),
        None => None,
    }
}

pub open spec fn opt_texts(v: Seq<Option<String>>) -> Seq<Option<Seq<char>>> {
    Seq::new(v.len(), |i: int| opt_text(v[i]))
}

pub open spec fn groups_of(v: Seq<Vec<Option<String>>>) -> Seq<Seq<Option<Seq<char>>>> {
    Seq::new(v.len(), |i: int| opt_texts(v[i]@))
}

/// Ranges of a text: in order, apart, and between chars.
pub open spec fn ranges_fit(r: Seq<(int, int)>, bytes: Seq<u8>) -> bool {
    &&& forall|i: int|
        0 <= i < r.len() ==> 0 <= (#[trigger] r[i]).0 <= r[i].1 <= bytes.len() && is_char_boundary(
            bytes,
            r[i].0,
        ) && is_char_boundary(bytes, r[i].1)
    &&& forall|i: int, j: int| 0 <= i < j < r.len() ==> (#[trigger] r[i]).1 <= (#[trigger] r[j]).0
}

/// The groups of some matches are those at the ranges: as many, and each whole match is the text
/// of its range.
pub open spec fn groups_fit(
    g: Seq<Seq<Option<Seq<char>>>>,
    r: Seq<(int, int)>,
    text: Seq<char>,
) -> bool {
    &&& g.len() == r.len()
    &&& forall|i: int|
        0 <= i < g.len() ==> (#[trigger] g[i]).len() > 0 && g[i][0] is Some
            && vstd::utf8::encode_utf8(g[i][0]->0) == vstd::utf8::encode_utf8(text).subrange(
            r[i].0,
            r[i].1,
        )
}

impl RegexTester {
    pub open spec fn compiled(&self) -> PatternV {
        flagged(self.pattern@, self.case_insensitive, self.multiline, self.dot_all)
    }
}

/// `regex::RegexBuilder::build`: the words of the error, if the pattern has one. The result
/// depends on the pattern, its flags and the width of `usize`.
#[verifier::external_body]
fn build_error(pattern: &str, icase: bool, multi: bool, dot: bool) -> (r: Option<String>)
    ensures
        match r {
            Some(e) => regex_error(flagged(pattern@, icase, multi, dot)) == Some(e@),
            None => regex_error(flagged(pattern@, icase, multi, dot)) is None,
        },
{
    let mut b = regex::RegexBuilder::new(pattern);
    b.case_insensitive(icase).multi_line(multi).dot_matches_new_line(dot);
    b.build().err().map(|e| e.to_string())
}

/// `regex::Regex::find_iter`: start and end of each match. They depend on the pattern, its
/// flags, the text and the width of `usize`, are in order, do not overlap, and lie between
/// chars. A pattern that does not compile has none.
#[verifier::external_body]
fn find_ranges(pattern: &str, icase: bool, multi: bool, dot: bool, text: &str) -> (r: Vec<
    (usize, usize),
>)
    ensures
        regex_error(flagged(pattern@, icase, multi, dot)) is None ==> ranges_of(r@)
            == regex_ranges(flagged(pattern@, icase, multi, dot), text@),
        regex_error(flagged(pattern@, icase, multi, dot)) is Some ==> r@.len() == 0,
        ranges_fit(ranges_of(r@), vstd::utf8::encode_utf8(text@)),
{
    let mut b = regex::RegexBuilder::new(pattern);
    b.case_insensitive(icase).multi_line(multi).dot_matches_new_line(dot);
    match b.build() {
        Ok(re) => re.find_iter(text).map(|m| (m.start(), m.end())).collect(),
        Err(_) => Vec::new(),
    }
}

/// `regex::Regex::captures_iter`: the groups of each match, the whole one first. They depend on
/// the pattern, its flags, the text and the width of `usize`. The matches are those that
/// `regex::Regex::find_iter` gives: as many, each whole one the text of its range. A pattern
/// that does not compile has none.
#[verifier::external_body]
fn find_groups(pattern: &str, icase: bool, multi: bool, dot: bool, text: &str) -> (r: Vec<
    Vec<Option<String>>,
>)
    ensures
        regex_error(flagged(pattern@, icase, multi, dot)) is None ==> groups_of(r@)
            == regex_groups(flagged(pattern@, icase, multi, dot), text@),
        regex_error(flagged(pattern@, icase, multi, dot)) is None ==> groups_fit(
            groups_of(r@),
            regex_ranges(flagged(pattern@, icase, multi, dot), text@),
            text@,
        ),
        regex_error(flagged(pattern@, icase, multi, dot)) is Some ==> r@.len() == 0,
{
    let mut b = regex::RegexBuilder::new(pattern);
    b.case_insensitive(icase).multi_line(multi).dot_matches_new_line(dot);
    match b.build() {
        Ok(re) => re.captures_iter(text)
            .map(|c| c.iter().map(|m| m.map(|m| m.as_str().to_string())).collect())
            .collect(),
        Err(_) => Vec::new(),
    }
}

/// `regex::Regex::capture_names`: the names of the groups, the whole one first. They depend on
/// the pattern, its flags and the width of `usize`. A pattern that does not compile has none.
#[verifier::external_body]
fn find_names(pattern: &str, icase: bool, multi: bool, dot: bool) -> (r: Vec<Option<String>>)
    ensures
        regex_error(flagged(pattern@, icase, multi, dot)) is None ==> opt_texts(r@)
            == regex_names(flagged(pattern@, icase, multi, dot)),
        regex_error(flagged(pattern@, icase, multi, dot)) is Some ==> r@.len() == 0,
{
    let mut b = regex::RegexBuilder::new(pattern);
    b.case_insensitive(icase).multi_line(multi).dot_matches_new_line(dot);
    match b.build() {
        Ok(re) => re.capture_names().map(|n| n.map(|n| n.to_string())).collect(),
        Err(_) => Vec::new(),
    }
}

/// A stretch of the text, from one byte to another; whether it is a match.
pub type Segment = (int, int, bool);

pub open spec fn segments_of(v: Seq<(usize, usize, bool)>) -> Seq<Segment> {
    Seq::new(v.len(), |i: int| (v[i].0 as int, v[i].1 as int, v[i].2))
}

/// A range can be marked: it lies in the text after what is marked already, between chars.
pub open spec fn markable(bytes: Seq<u8>, r: (int, int), pos: int) -> bool {
    pos <= r.0 <= r.1 <= bytes.len() && is_char_boundary(bytes, r.0) && is_char_boundary(
        bytes,
        r.1,
    )
}

/// Ranges from `i` on marked in the text from `pos` on; ranges that do not fit are left out.
pub open spec fn marked(bytes: Seq<u8>, r: Seq<(int, int)>, i: int, pos: int) -> Seq<Segment>
    decreases r.len() - i,
{
    if i < 0 || i >= r.len() {
        if pos < bytes.len() {
            seq![(pos, bytes.len() as int, false)]
        } else {
            Seq::empty()
        }
    } else if markable(bytes, r[i], pos) {
        let gap = if r[i].0 > pos {
            seq![(pos, r[i].0, false)]
        } else {
            Seq::empty()
        };
        gap + seq![(r[i].0, r[i].1, true)] + marked(bytes, r, i + 1, r[i].1)
    } else {
        marked(bytes, r, i + 1, pos)
    }
}

/// Segments that follow one another from `from` to `to`.
pub open spec fn covers(s: Seq<Segment>, from: int, to: int) -> bool
    decreases s.len(),
{
    if s.len() == 0 {
        from == to
    } else {
        s[0].0 == from && s[0].1 >= from && covers(s.skip(1), s[0].1, to)
    }
}

proof fn lemma_covers_joined(a: Seq<Segment>, b: Seq<Segment>, from: int, mid: int, to: int)
    requires
        covers(a, from, mid),
        covers(b, mid, to),
    ensures
        covers(a + b, from, to),
    decreases a.len(),
{
    if a.len() == 0 {
        assert(a + b =~= b);
    } else {
        lemma_covers_joined(a.skip(1), b, a[0].1, mid, to);
        assert((a + b).skip(1) =~= a.skip(1) + b);
    }
}

proof fn lemma_covers_one(s: Segment)
    requires
        s.0 <= s.1,
    ensures
        covers(seq![s], s.0, s.1),
{
    assert(seq![s].skip(1) =~= Seq::empty());
    assert(covers(Seq::<Segment>::empty(), s.1, s.1));
}

/// Whatever the ranges are, the segments are the whole text, in order and without gaps.
pub proof fn law_segments_cover(bytes: Seq<u8>, r: Seq<(int, int)>, i: int, pos: int)
    requires
        0 <= i <= r.len(),
        0 <= pos <= bytes.len(),
    ensures
        covers(marked(bytes, r, i, pos), pos, bytes.len() as int),
    decreases r.len() - i,
{
    let n = bytes.len() as int;
    if i >= r.len() {
        if pos < n {
            lemma_covers_one((pos, n, false));
        }
    } else if markable(bytes, r[i], pos) {
        law_segments_cover(bytes, r, i + 1, r[i].1);
        let rest = marked(bytes, r, i + 1, r[i].1);
        let hit = seq![(r[i].0, r[i].1, true)];
        lemma_covers_one((r[i].0, r[i].1, true));
        lemma_covers_joined(hit, rest, r[i].0, r[i].1, n);
        if r[i].0 > pos {
            let gap = seq![(pos, r[i].0, false)];
            lemma_covers_one((pos, r[i].0, false));
            lemma_covers_joined(gap, hit + rest, pos, r[i].0, n);
            assert(gap + hit + rest =~= gap + (hit + rest));
        } else {
            assert(Seq::<Segment>::empty() + hit + rest =~= hit + rest);
        }
    } else {
        law_segments_cover(bytes, r, i + 1, pos);
    }
}

/// The ranges a pattern matches are marked one and all.
pub proof fn law_fit_ranges_marked(bytes: Seq<u8>, r: Seq<(int, int)>, i: int, pos: int, k: int)
    requires
        ranges_fit(r, bytes),
        0 <= i <= k < r.len(),
        i == 0 ==> pos == 0,
        i > 0 ==> pos == r[i - 1].1,
    ensures
        marked(bytes, r, i, pos).contains((r[k].0, r[k].1, true)),
    decreases r.len() - i,
{
    let m = marked(bytes, r, i, pos);
    assert(markable(bytes, r[i], pos));
    let gap = if r[i].0 > pos {
        seq![(pos, r[i].0, false)]
    } else {
        Seq::empty()
    };
    let rest = marked(bytes, r, i + 1, r[i].1);
    let hit = seq![(r[i].0, r[i].1, true)];
    assert(m == gap + hit + rest);
    if k == i {
        assert(m[gap.len() as int] == hit[0]);
    } else {
        law_fit_ranges_marked(bytes, r, i + 1, r[i].1, k);
        let j = choose|j: int| 0 <= j < rest.len() && rest[j] == (r[k].0, r[k].1, true);
        assert(m[gap.len() + 1 + j] == rest[j]);
    }
}

/// Cut a text into stretches that match and stretches that do not.
pub fn highlight(text: &str, ranges: &Vec<(usize, usize)>) -> (r: Vec<(usize, usize, bool)>)
    ensures
        segments_of(r@) == marked(
            vstd::utf8::encode_utf8(text@),
            ranges_of(ranges@),
            0,
            0,
        ),
{
    let ghost bytes = vstd::utf8::encode_utf8(text@);
    let ghost rs = ranges_of(ranges@);
    let len: usize = text.as_bytes().len();
    let mut out: Vec<(usize, usize, bool)> = Vec::new();
    let mut pos: usize = 0;
    let mut i: usize = 0;
    let ghost all = marked(bytes, rs, 0, 0);
    assert(segments_of(out@) + all =~= all);
    while i < ranges.len()
        invariant
            bytes == vstd::utf8::encode_utf8(text@),
            rs == ranges_of(ranges@),
            len == bytes.len(),
            i <= ranges@.len(),
            pos <= len,
            all == segments_of(out@) + marked(bytes, rs, i as int, pos as int),
        decreases ranges@.len() - i,
    {
        let (s, e) = ranges[i];
        assert(rs[i as int] == (s as int, e as int));
        let ghost done = segments_of(out@);
        if pos <= s && s <= e && e <= len && text.is_char_boundary(s) && text.is_char_boundary(e) {
            let ghost rest = marked(bytes, rs, i + 1, e as int);
            let ghost hit = seq![(s as int, e as int, true)];
            let ghost gap = if s > pos {
                seq![(pos as int, s as int, false)]
            } else {
                Seq::empty()
            };
            if s > pos {
                out.push((pos, s, false));
            }
            out.push((s, e, true));
            proof {
                assert(segments_of(out@) =~= done + gap + hit);
                assert(done + (gap + hit + rest) =~= (done + gap + hit) + rest);
            }
            pos = e;
        }
        i = i + 1;
    }
    let ghost done = segments_of(out@);
    if pos < len {
        out.push((pos, len, false));
        assert(segments_of(out@) =~= done + seq![(pos as int, len as int, false)]);
    } else {
        assert(done + Seq::<Segment>::empty() =~= done);
    }
    out
}

/// One group of a match: its label and its text.
pub struct GroupRow {
    pub label: String,
    pub text: String,
}

/// One match: its number, its text and its groups.
pub struct MatchRow {
    pub number: String,
    pub whole: String,
    pub groups: Vec<GroupRow>,
}

/// Model of a match's row.
pub type MatchV = (Seq<char>, Seq<char>, Seq<(Seq<char>, Seq<char>)>);

pub open spec fn group_rows(v: Seq<GroupRow>) -> Seq<(Seq<char>, Seq<char>)> {
    Seq::new(v.len(), |i: int| (v[i].label@, v[i].text@))
}

pub open spec fn match_rows(v: Seq<MatchRow>) -> Seq<MatchV> {
    Seq::new(v.len(), |i: int| (v[i].number@, v[i].whole@, group_rows(v[i].groups@)))
}

/// Label of group `g`: its name, or its number.
pub open spec fn group_label(names: Seq<Option<Seq<char>>>, g: int) -> Seq<char> {
    if g < names.len() && names[g] is Some {
        "$"@ + names[g]->0 + ":"@
    } else {
        "$"@ + decimal_of(g as nat) + ":"@
    }
}

/// Rows of the groups `[1, n)` that took part in a match.
pub open spec fn groups_shown(
    caps: Seq<Option<Seq<char>>>,
    names: Seq<Option<Seq<char>>>,
    n: int,
) -> Seq<(Seq<char>, Seq<char>)>
    decreases n,
{
    if n <= 1 {
        Seq::empty()
    } else {
        match caps[n - 1] {
            Some(t) => groups_shown(caps, names, n - 1).push((group_label(names, n - 1), t)),
            None => groups_shown(caps, names, n - 1),
        }
    }
}

/// The text of a match.
pub open spec fn whole_of(caps: Seq<Option<Seq<char>>>) -> Seq<char> {
    if caps.len() > 0 && caps[0] is Some {
        caps[0]->0
    } else {
        Seq::empty()
    }
}

/// Row of match `i`.
pub open spec fn match_shown(
    i: int,
    caps: Seq<Option<Seq<char>>>,
    names: Seq<Option<Seq<char>>>,
) -> MatchV {
    (
        decimal_of((i + 1) as nat) + "."@,
        whole_of(caps),
        groups_shown(caps, names, caps.len() as int),
    )
}

fn label(names: &Vec<Option<String>>, g: usize) -> (r: String)
    ensures
        r@ == group_label(opt_texts(names@), g as int),
{
    if g < names.len() {
        assert(opt_texts(names@)[g as int] == opt_text(names@[g as int]));
        if let Some(n) = &names[g] {
            return cat(cat("$", n.as_str()).as_str(), ":");
        }
    }
    cat(cat("$", decimal(g).as_str()).as_str(), ":")
}

fn whole(caps: &Vec<Option<String>>) -> (r: String)
    ensures
        r@ == whole_of(opt_texts(caps@)),
{
    if caps.len() > 0 {
        assert(opt_texts(caps@)[0] == opt_text(caps@[0]));
        if let Some(t) = &caps[0] {
            return t.clone();
        }
    }
    let none = String::new();
    assert(none@ =~= Seq::<char>::empty());
    none
}

fn show_groups(caps: &Vec<Option<String>>, names: &Vec<Option<String>>) -> (r: Vec<GroupRow>)
    ensures
        group_rows(r@) == groups_shown(
            opt_texts(caps@),
            opt_texts(names@),
            caps@.len() as int,
        ),
{
    let ghost cs = opt_texts(caps@);
    let ghost ns = opt_texts(names@);
    let mut out: Vec<GroupRow> = Vec::new();
    assert(group_rows(out@) =~= groups_shown(cs, ns, 1));
    if caps.len() == 0 {
        assert(group_rows(out@) =~= groups_shown(cs, ns, 0));
        return out;
    }
    let mut g: usize = 1;
    while g < caps.len()
        invariant
            cs == opt_texts(caps@),
            ns == opt_texts(names@),
            1 <= g <= caps@.len(),
            group_rows(out@) == groups_shown(cs, ns, g as int),
        decreases caps@.len() - g,
    {
        assert(cs[g as int] == opt_text(caps@[g as int]));
        let ghost done = group_rows(out@);
        if let Some(t) = &caps[g] {
            let row = GroupRow { label: label(names, g), text: t.clone() };
            out.push(row);
            assert(group_rows(out@) =~= done.push((group_label(ns, g as int), t@)));
        }
        g = g + 1;
    }
    out
}

/// The breakdown of matches: each with its number, its text and its groups.
pub fn show_matches(caps: &Vec<Vec<Option<String>>>, names: &Vec<Option<String>>) -> (r: Vec<
    MatchRow,
>)
    ensures
        r@.len() == caps@.len(),
        forall|i: int|
            0 <= i < r@.len() ==> #[trigger] match_rows(r@)[i] == match_shown(
                i,
                groups_of(caps@)[i],
                opt_texts(names@),
            ),
{
    let mut out: Vec<MatchRow> = Vec::new();
    let mut i: usize = 0;
    while i < caps.len()
        invariant
            i <= caps@.len(),
            out@.len() == i,
            forall|k: int|
                0 <= k < i ==> #[trigger] match_rows(out@)[k] == match_shown(
                    k,
                    groups_of(caps@)[k],
                    opt_texts(names@),
                ),
        decreases caps@.len() - i,
    {
        let ghost before = out@;
        let number = cat(decimal(i + 1).as_str(), ".");
        out.push(
            MatchRow { number, whole: whole(&caps[i]), groups: show_groups(&caps[i], names) },
        );
        proof {
            assert forall|k: int| 0 <= k < i + 1 implies #[trigger] match_rows(out@)[k]
                == match_shown(k, groups_of(caps@)[k], opt_texts(names@)) by {
                if k < i {
                    assert(match_rows(before)[k] == match_rows(out@)[k]);
                }
            }
        }
        i = i + 1;
    }
    out
}

/// The texts of matches, line by line.
pub open spec fn matches_text(groups: Seq<Seq<Option<Seq<char>>>>) -> Seq<char> {
    unlines(Seq::new(groups.len(), |i: int| whole_of(groups[i])))
}

/// Join the texts of matches.
pub fn copy_matches(caps: &Vec<Vec<Option<String>>>) -> (r: String)
    ensures
        r@ == matches_text(groups_of(caps@)),
{
    let ghost want = Seq::new(caps@.len(), |i: int| whole_of(groups_of(caps@)[i]));
    let mut out: Vec<String> = Vec::new();
    let mut i: usize = 0;
    while i < caps.len()
        invariant
            i <= caps@.len(),
            want == Seq::new(caps@.len(), |i: int| whole_of(groups_of(caps@)[i])),
            texts(out@) =~= want.take(i as int),
        decreases caps@.len() - i,
    {
        let ghost done = texts(out@);
        out.push(whole(&caps[i]));
        assert(texts(out@) =~= done.push(want[i as int]));
        i = i + 1;
    }
    assert(texts(out@) =~= want);
    join_lines(out.as_slice())
}

/// How many matches there are.
pub open spec fn count_text(n: nat) -> Seq<char> {
    "✓ "@ + decimal_of(n) + " match"@ + if n == 1 {
        Seq::empty()
    } else {
        "es"@
    }
}

/// Say how many matches there are.
pub fn tell_count(n: usize) -> (r: String)
    ensures
        r@ == count_text(n as nat),
{
    let s = cat(cat("✓ ", decimal(n).as_str()).as_str(), " match");
    let r = if n == 1 {
        s
    } else {
        cat(s.as_str(), "es")
    };
    assert(r@ =~= count_text(n as nat));
    r
}

impl RegexTester {
    pub fn new() -> (r: Self)
        ensures
            r.pattern@ == "(\\w+)@(\\w+\\.\\w+)"@,
            r.text@ == "contact alice@example.com or bob@test.org for details"@,
            !r.case_insensitive,
            !r.multiline,
            !r.dot_all,
    {
        RegexTester {
            pattern: "(\\w+)@(\\w+\\.\\w+)".to_string(),
            text: "contact alice@example.com or bob@test.org for details".to_string(),
            case_insensitive: false,
            multiline: false,
            dot_all: false,
        }
    }

    /// The pattern's error, if it has one.
    pub fn build(&self) -> (r: Option<String>)
        ensures
            match r {
                Some(e) => regex_error(self.compiled()) == Some(e@),
                None => regex_error(self.compiled()) is None,
            },
    {
        build_error(
            self.pattern.as_str(),
            self.case_insensitive,
            self.multiline,
            self.dot_all,
        )
    }

    /// Where the pattern matches; nowhere while it has an error.
    pub fn ranges(&self) -> (r: Vec<(usize, usize)>)
        ensures
            regex_error(self.compiled()) is None ==> ranges_of(r@) == regex_ranges(
                self.compiled(),
                self.text@,
            ),
            regex_error(self.compiled()) is Some ==> r@.len() == 0,
            ranges_fit(ranges_of(r@), vstd::utf8::encode_utf8(self.text@)),
    {
        find_ranges(
            self.pattern.as_str(),
            self.case_insensitive,
            self.multiline,
            self.dot_all,
            self.text.as_str(),
        )
    }

    /// The groups of each match.
    pub fn groups(&self) -> (r: Vec<Vec<Option<String>>>)
        ensures
            regex_error(self.compiled()) is None ==> groups_of(r@) == regex_groups(
                self.compiled(),
                self.text@,
            ),
            regex_error(self.compiled()) is None ==> groups_fit(
                groups_of(r@),
                regex_ranges(self.compiled(), self.text@),
                self.text@,
            ),
            regex_error(self.compiled()) is Some ==> r@.len() == 0,
    {
        find_groups(
            self.pattern.as_str(),
            self.case_insensitive,
            self.multiline,
            self.dot_all,
            self.text.as_str(),
        )
    }

    /// The breakdown of the matches.
    pub fn breakdown(&self) -> (r: Vec<MatchRow>)
        ensures
            regex_error(self.compiled()) is None ==> {
                let g = regex_groups(self.compiled(), self.text@);
                r@.len() == g.len() && forall|i: int|
                    0 <= i < r@.len() ==> #[trigger] match_rows(r@)[i] == match_shown(
                        i,
                        g[i],
                        regex_names(self.compiled()),
                    )
            },
            regex_error(self.compiled()) is None ==> {
                let at = regex_ranges(self.compiled(), self.text@);
                r@.len() == at.len() && forall|i: int|
                    0 <= i < r@.len() ==> vstd::utf8::encode_utf8((#[trigger] r@[i]).whole@)
                        == vstd::utf8::encode_utf8(self.text@).subrange(at[i].0, at[i].1)
            },
            regex_error(self.compiled()) is Some ==> r@.len() == 0,
    {
        let names = find_names(
            self.pattern.as_str(),
            self.case_insensitive,
            self.multiline,
            self.dot_all,
        );
        let groups = self.groups();
        let rows = show_matches(&groups, &names);
        proof {
            assert forall|i: int| 0 <= i < rows@.len() implies (#[trigger] rows@[i]).whole@
                == match_rows(rows@)[i].1 by {}
        }
        rows
    }
}

} // verus!
