//! Fuzzy file finder: the picker overlay state.

use vstd::prelude::*;

use crate::rvim::buffer::max;
use crate::rvim::fuzzy::{fuzzy, fuzzy_match, ints, saturated};
use crate::rvim::keys::Key;
use crate::text::{before, str_before, texts, without_last};

verus! {

/// What the finder wants the caller to do after a key.
#[derive(Debug, Clone, PartialEq, Eq)]
pub enum FinderAction {
    /// Keep the finder open.
    Stay,
    /// Close without opening anything.
    Close,
    /// Close and open this file.
    Open(String),
}

/// What the finder picks over: vfs files or open buffers.
#[derive(Clone, Copy, Debug, PartialEq, Eq, Structural)]
pub enum FinderTarget {
    Files,
    Buffers,
}

/// Model of a finder action.
pub enum FinderActionV {
    Stay,
    Close,
    Open(Seq<char>),
}

impl View for FinderAction {
    type V = FinderActionV;

    open spec fn view(&self) -> FinderActionV {
        match *self {
            FinderAction::Stay => FinderActionV::Stay,
            FinderAction::Close => FinderActionV::Close,
            FinderAction::Open(name) => FinderActionV::Open(name@),
        }
    }
}

/// A scored name with its matched indices.
pub type Entry = (i32, Seq<char>, Seq<int>);

/// How `name` matches the query, if it does.
pub open spec fn entry_of(q: Seq<char>, name: Seq<char>) -> Option<Entry> {
    match fuzzy(q, name) {
        Some((s, e)) => Some((saturated(s), name, e)),
        None => None,
    }
}

/// Best score first; equal scores by name.
pub open spec fn ranks_before(a: Entry, b: Entry) -> bool {
    a.0 > b.0 || (a.0 == b.0 && before(a.1, b.1))
}

/// The first index at or after `i` whose entry ranks after `e`.
pub open spec fn rank_from(r: Seq<Entry>, e: Entry, i: int) -> int
    decreases r.len() - i,
{
    if i < 0 || i >= r.len() {
        r.len() as int
    } else if ranks_before(e, r[i]) {
        i
    } else {
        rank_from(r, e, i + 1)
    }
}

/// The names that match, ranked.
pub open spec fn ranked(q: Seq<char>, all: Seq<Seq<char>>) -> Seq<Entry>
    decreases all.len(),
{
    if all.len() == 0 {
        Seq::empty()
    } else {
        let r = ranked(q, all.drop_last());
        match entry_of(q, all.last()) {
            Some(e) => r.insert(rank_from(r, e, 0), e),
            None => r,
        }
    }
}

/// Names and indices of ranked entries.
pub open spec fn listing(r: Seq<Entry>) -> Seq<(Seq<char>, Seq<int>)> {
    Seq::new(r.len(), |i: int| (r[i].1, r[i].2))
}

/// Model of the finder.
#[verifier::ext_equal]
pub struct FinderV {
    pub query: Seq<char>,
    pub results: Seq<(Seq<char>, Seq<int>)>,
    pub selected: int,
    pub target: FinderTarget,
    pub all: Seq<Seq<char>>,
}

impl FinderV {
    pub open spec fn fresh(files: Seq<Seq<char>>, target: FinderTarget) -> FinderV {
        FinderV {
            query: Seq::empty(),
            results: listing(ranked(Seq::empty(), files)),
            selected: 0,
            target,
            all: files,
        }
    }

    /// Every name scored against the query, best first, the selection kept in range.
    pub open spec fn refiltered(self) -> FinderV {
        let results = listing(ranked(self.query, self.all));
        FinderV {
            results,
            selected: if self.selected >= results.len() {
                max(results.len() - 1, 0)
            } else {
                self.selected
            },
            ..self
        }
    }

    pub open spec fn keyed(self, key: Key) -> FinderV {
        match key {
            Key::Char(c) => FinderV { query: self.query.push(c), ..self }.refiltered(),
            Key::Backspace => FinderV {
                query: if self.query.len() == 0 {
                    self.query
                } else {
                    self.query.drop_last()
                },
                ..self
            }.refiltered(),
            Key::Up => FinderV { selected: max(self.selected - 1, 0), ..self },
            Key::Down | Key::Tab => self.moved_down(),
            Key::Ctrl(c) => if c == 'p' {
                FinderV { selected: max(self.selected - 1, 0), ..self }
            } else if c == 'n' {
                self.moved_down()
            } else {
                self
            },
            _ => self,
        }
    }

    pub open spec fn moved_down(self) -> FinderV {
        if self.selected + 1 < self.results.len() {
            FinderV { selected: self.selected + 1, ..self }
        } else {
            self
        }
    }

    /// What a key asks of the caller.
    pub open spec fn action(self, key: Key) -> FinderActionV {
        match key {
            Key::Esc => FinderActionV::Close,
            Key::Ctrl(c) => if c == 'c' {
                FinderActionV::Close
            } else {
                FinderActionV::Stay
            },
            Key::Enter => if self.selected < self.results.len() {
                FinderActionV::Open(self.results[self.selected].0)
            } else if self.target == FinderTarget::Buffers {
                FinderActionV::Close
            } else if self.query.len() > 0 {
                FinderActionV::Open(self.query)
            } else {
                FinderActionV::Stay
            },
            _ => FinderActionV::Stay,
        }
    }
}

pub struct FinderState {
    pub query: String,
    /// Filtered file names, best match first, with matched char indices for highlighting.
    pub results: Vec<(String, Vec<usize>)>,
    pub selected: usize,
    pub target: FinderTarget,
    /// Every name picked over.
    pub all: Vec<String>,
}

pub open spec fn results_of(s: Seq<(String, Vec<usize>)>) -> Seq<(Seq<char>, Seq<int>)> {
    Seq::new(s.len(), |i: int| (s[i].0@, ints(s[i].1@)))
}

impl View for FinderState {
    type V = FinderV;

    open spec fn view(&self) -> FinderV {
        FinderV {
            query: self.query@,
            results: results_of(self.results@),
            selected: self.selected as int,
            target: self.target,
            all: texts(self.all@),
        }
    }
}

spec fn entries_of(s: Seq<(i32, String, Vec<usize>)>) -> Seq<Entry> {
    Seq::new(s.len(), |i: int| (s[i].0, s[i].1@, ints(s[i].2@)))
}

impl FinderState {
    pub fn new(files: Vec<String>) -> (r: Self)
        ensures
            r@ == FinderV::fresh(texts(files@), FinderTarget::Files),
    {
        let mut f = FinderState {
            query: String::new(),
            results: Vec::new(),
            selected: 0,
            target: FinderTarget::Files,
            all: files,
        };
        f.refilter();
        assert(f@ =~= FinderV::fresh(texts(files@), FinderTarget::Files));
        f
    }

    /// Picker over the open buffer names.
    pub fn buffers(names: Vec<String>) -> (r: Self)
        ensures
            r@ == FinderV::fresh(texts(names@), FinderTarget::Buffers),
    {
        let mut f = FinderState::new(names);
        f.target = FinderTarget::Buffers;
        f
    }

    /// Route a key into the finder (typing filters, arrows move, Enter opens, Esc closes).
    pub fn handle_key(&mut self, key: Key) -> (r: FinderAction)
        ensures
            final(self)@ == old(self)@.keyed(key),
            r@ == old(self)@.action(key),
    {
        match key {
            Key::Esc => FinderAction::Close,
            Key::Enter => {
                if self.selected < self.results.len() {
                    FinderAction::Open(self.results[self.selected].0.clone())
                } else if self.target == FinderTarget::Buffers {
                    FinderAction::Close
                } else if self.query.as_str().unicode_len() > 0 {
                    // Create-on-open: no match, the query becomes a new file name.
                    FinderAction::Open(self.query.clone())
                } else {
                    FinderAction::Stay
                }
            },
            Key::Char(c) => {
                self.query.push(c);
                self.refilter();
                FinderAction::Stay
            },
            Key::Backspace => {
                self.query = without_last(self.query.as_str());
                self.refilter();
                FinderAction::Stay
            },
            Key::Up => {
                self.up();
                FinderAction::Stay
            },
            Key::Down | Key::Tab => {
                self.down();
                FinderAction::Stay
            },
            Key::Ctrl(c) => {
                if c == 'c' {
                    return FinderAction::Close;
                }
                if c == 'p' {
                    self.up();
                } else if c == 'n' {
                    self.down();
                }
                FinderAction::Stay
            },
            _ => FinderAction::Stay,
        }
    }

    fn up(&mut self)
        ensures
            final(self)@ == (FinderV { selected: max(old(self)@.selected - 1, 0), ..old(self)@ }),
    {
        if self.selected > 0 {
            self.selected = self.selected - 1;
        }
    }

    fn down(&mut self)
        ensures
            final(self)@ == old(self)@.moved_down(),
    {
        let n: usize = self.results.len();
        if n > 1 && self.selected < n - 1 {
            self.selected = self.selected + 1;
        }
    }

    /// Rescore every file against the query, sort best-first, clamp the selection.
    fn refilter(&mut self)
        ensures
            final(self)@ == old(self)@.refiltered(),
    {
        let mut scored: Vec<(i32, String, Vec<usize>)> = Vec::new();
        assert(entries_of(scored@) =~= ranked(self.query@, texts(self.all@).take(0)));
        for n in 0..self.all.len()
            invariant
                entries_of(scored@) == ranked(self.query@, texts(self.all@).take(n as int)),
        {
            let ghost t = texts(self.all@).take(n + 1);
            assert(t.drop_last() =~= texts(self.all@).take(n as int));
            assert(t.last() == self.all@[n as int]@);
            if let Some((s, idx)) = fuzzy_match(self.query.as_str(), self.all[n].as_str()) {
                let name = self.all[n].clone();
                insert_ranked(&mut scored, s, name, idx);
            }
        }
        assert(texts(self.all@).take(self.all@.len() as int) =~= texts(self.all@));
        let ghost r = ranked(self.query@, texts(self.all@));
        let mut results: Vec<(String, Vec<usize>)> = Vec::new();
        for i in 0..scored.len()
            invariant
                entries_of(scored@) == r,
                results_of(results@) =~= listing(r).take(i as int),
        {
            let name = scored[i].1.clone();
            let idx = copy_indices(&scored[i].2);
            assert(r[i as int] == (scored@[i as int].0, name@, ints(idx@)));
            let ghost listed = results_of(results@);
            results.push((name, idx));
            assert(results_of(results@) =~= listed.push((name@, ints(idx@))));
            assert(listing(r).take(i + 1) =~= listing(r).take(i as int).push(listing(r)[i as int]));
        }
        assert(results_of(results@) =~= listing(r));
        self.results = results;
        if self.selected >= self.results.len() {
            let n: usize = self.results.len();
            self.selected = if n > 0 {
                n - 1
            } else {
                0
            };
        }
    }
}

fn copy_indices(v: &Vec<usize>) -> (r: Vec<usize>)
    ensures
        r@ == v@,
{
    let mut r: Vec<usize> = Vec::new();
    for i in 0..v.len()
        invariant
            r@ =~= v@.take(i as int),
    {
        r.push(v[i]);
    }
    r
}

/// Put one scored name where it ranks.
fn insert_ranked(scored: &mut Vec<(i32, String, Vec<usize>)>, s: i32, name: String, idx: Vec<usize>)
    ensures
        entries_of(final(scored)@) == entries_of(old(scored)@).insert(
            rank_from(entries_of(old(scored)@), (s, name@, ints(idx@)), 0),
            (s, name@, ints(idx@)),
        ),
{
    let ghost r = entries_of(scored@);
    let ghost e = (s, name@, ints(idx@));
    let mut i: usize = 0;
    while i < scored.len()
        invariant_except_break
            rank_from(r, e, 0) == rank_from(r, e, i as int),
        invariant
            i <= scored@.len(),
            scored@ == old(scored)@,
            r == entries_of(scored@),
            e == (s, name@, ints(idx@)),
        ensures
            rank_from(r, e, 0) == i,
        decreases scored@.len() - i,
    {
        let o = &scored[i];
        assert(r[i as int] == (o.0, o.1@, ints(o.2@)));
        if s > o.0 || (s == o.0 && str_before(name.as_str(), o.1.as_str())) {
            break;
        }
        i = i + 1;
    }
    scored.insert(i, (s, name, idx));
    assert(entries_of(scored@) =~= r.insert(i as int, e));
}

/// No entry is followed by one that ranks before it.
pub open spec fn in_rank_order(r: Seq<Entry>) -> bool {
    forall|i: int, j: int| 0 <= i < j < r.len() ==> !ranks_before(#[trigger] r[j], #[trigger] r[i])
}

proof fn lemma_rank_from(r: Seq<Entry>, e: Entry, i: int)
    requires
        0 <= i <= r.len(),
    ensures
        i <= rank_from(r, e, i) <= r.len(),
        forall|k: int| i <= k < rank_from(r, e, i) ==> !ranks_before(e, #[trigger] r[k]),
        rank_from(r, e, i) < r.len() ==> ranks_before(e, r[rank_from(r, e, i)]),
    decreases r.len() - i,
{
    if i < r.len() && !ranks_before(e, r[i]) {
        lemma_rank_from(r, e, i + 1);
    }
}

/// The results are in rank order: higher scores first, equal scores by name.
pub proof fn law_ranked_in_order(q: Seq<char>, all: Seq<Seq<char>>)
    ensures
        in_rank_order(ranked(q, all)),
    decreases all.len(),
{
    if all.len() > 0 {
        law_ranked_in_order(q, all.drop_last());
        let r = ranked(q, all.drop_last());
        if let Some(e) = entry_of(q, all.last()) {
            let p = rank_from(r, e, 0);
            lemma_rank_from(r, e, 0);
            let w = r.insert(p, e);
            assert forall|i: int, j: int| 0 <= i < j < w.len() implies !ranks_before(
                #[trigger] w[j],
                #[trigger] w[i],
            ) by {
                let bi = if i < p { i } else { i - 1 };
                let bj = if j < p { j } else { j - 1 };
                if j == p {
                    assert(!ranks_before(e, r[i]));
                } else if i == p {
                    assert(ranks_before(e, r[p]));
                    if bj > p {
                        assert(!ranks_before(r[bj], r[p]));
                    }
                    crate::text::lemma_before_irreflexive(r[p].1);
                    lemma_rank_chain(e, r[p], r[bj]);
                } else {
                    assert(!ranks_before(r[bj], r[bi]));
                }
            }
        }
    }
}

/// What ranks before an entry is not outranked by what does not rank before that entry.
proof fn lemma_rank_chain(e: Entry, a: Entry, b: Entry)
    requires
        ranks_before(e, a),
        !ranks_before(b, a),
    ensures
        !ranks_before(b, e),
{
    if ranks_before(b, e) {
        if b.0 == e.0 && e.0 == a.0 {
            crate::text::lemma_before_transitive(b.1, e.1, a.1);
        }
    }
}

/// The entries of the names that match, in the order of the names given.
pub open spec fn matching(q: Seq<char>, all: Seq<Seq<char>>) -> Seq<Entry>
    decreases all.len(),
{
    if all.len() == 0 {
        Seq::empty()
    } else {
        let r = matching(q, all.drop_last());
        match entry_of(q, all.last()) {
            Some(e) => r.push(e),
            None => r,
        }
    }
}

/// Exactly the names that match are listed, each as often as it occurs.
pub proof fn law_ranked_is_complete(q: Seq<char>, all: Seq<Seq<char>>)
    ensures
        ranked(q, all).to_multiset() == matching(q, all).to_multiset(),
        ranked(q, all).len() == matching(q, all).len(),
    decreases all.len(),
{
    broadcast use vstd::seq_lib::group_to_multiset_ensures;

    if all.len() > 0 {
        let d = all.drop_last();
        law_ranked_is_complete(q, d);
        let r = ranked(q, d);
        if let Some(e) = entry_of(q, all.last()) {
            lemma_rank_from(r, e, 0);
            let p = rank_from(r, e, 0);
            assert(r.insert(p, e).to_multiset() =~= r.to_multiset().insert(e));
            assert(matching(q, d).push(e).to_multiset() =~= matching(q, d).to_multiset().insert(
                e,
            ));
        }
    }
}

/// An entry is listed when it is that of a name given.
pub proof fn law_ranked_are_matches(q: Seq<char>, all: Seq<Seq<char>>, e: Entry)
    ensures
        ranked(q, all).contains(e) <==> exists|i: int|
            0 <= i < all.len() && entry_of(q, #[trigger] all[i]) == Some(e),
    decreases all.len(),
{
    if all.len() > 0 {
        let d = all.drop_last();
        law_ranked_are_matches(q, d, e);
        let r = ranked(q, d);
        let w = ranked(q, all);
        assert forall|i: int| 0 <= i < d.len() implies #[trigger] all[i] == d[i] by {}
        if exists|i: int| 0 <= i < d.len() && entry_of(q, #[trigger] d[i]) == Some(e) {
            let i = choose|i: int| 0 <= i < d.len() && entry_of(q, #[trigger] d[i]) == Some(e);
            assert(entry_of(q, all[i]) == Some(e));
        }
        if let Some(f) = entry_of(q, all.last()) {
            let p = rank_from(r, f, 0);
            lemma_rank_from(r, f, 0);
            assert(w[p] == f);
            if r.contains(e) {
                let k = r.index_of(e);
                assert(w[if k < p { k } else { k + 1 }] == e);
            }
            if w.contains(e) && e != f {
                let k = w.index_of(e);
                assert(r[if k < p { k } else { k - 1 }] == e);
            }
            if e == f {
                assert(entry_of(q, all[all.len() - 1]) == Some(e));
            }
        }
    }
}

/// Whatever the key, the selection stays on a result when there is one.
pub proof fn law_selection_in_range(f: FinderV, key: Key)
    requires
        0 <= f.selected < max(f.results.len() as int, 1),
    ensures
        0 <= f.keyed(key).selected < max(f.keyed(key).results.len() as int, 1),
{
}

/// An entry of every name under an empty query: no score, no matched chars.
pub open spec fn bare_entry(name: Seq<char>) -> Entry {
    (0, name, Seq::empty())
}

/// An empty query lists every name, each as often as it occurs, in the order of names.
pub proof fn law_empty_query_lists_all(all: Seq<Seq<char>>)
    ensures
        ({
            let r = ranked(Seq::empty(), all);
            &&& r.len() == all.len()
            &&& r.to_multiset() == all.map_values(|n: Seq<char>| bare_entry(n)).to_multiset()
            &&& forall|i: int, j: int|
                0 <= i < j < r.len() ==> !before((#[trigger] r[j]).1, (#[trigger] r[i]).1)
            &&& forall|i: int|
                0 <= i < r.len() ==> (#[trigger] r[i]).0 == 0 && r[i].2.len() == 0
        }),
{
    let q = Seq::<char>::empty();
    let r = ranked(q, all);
    lemma_bare(all);
    law_ranked_is_complete(q, all);
    law_ranked_in_order(q, all);
    assert forall|i: int| 0 <= i < r.len() implies (#[trigger] r[i]).0 == 0 && r[i].2.len()
        == 0 by {
        assert(r.contains(r[i]));
        law_ranked_are_matches(q, all, r[i]);
    }
    assert forall|i: int, j: int| 0 <= i < j < r.len() implies !before(
        (#[trigger] r[j]).1,
        (#[trigger] r[i]).1,
    ) by {
        assert(!ranks_before(r[j], r[i]));
    }
}

proof fn lemma_bare(all: Seq<Seq<char>>)
    ensures
        matching(Seq::empty(), all) == all.map_values(|n: Seq<char>| bare_entry(n)),
        forall|n: Seq<char>| #[trigger] entry_of(Seq::empty(), n) == Some(bare_entry(n)),
    decreases all.len(),
{
    let f = |n: Seq<char>| bare_entry(n);
    assert forall|n: Seq<char>| #[trigger] entry_of(Seq::empty(), n) == Some(bare_entry(n)) by {}
    if all.len() > 0 {
        lemma_bare(all.drop_last());
        assert(all.map_values(f) =~= all.drop_last().map_values(f).push(f(all.last())));
    } else {
        assert(all.map_values(f) =~= Seq::<Entry>::empty());
    }
}

} // verus!
