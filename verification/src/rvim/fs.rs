//! Virtual filesystem persisted through the host's state store, mirrored in memory so reads
//! are free.

use vstd::prelude::*;

use crate::host::{CallV, HostCall, HostCallError, HostHandle};
use crate::text::{
    before, cat, group_texts, lemma_before_irreflexive, lemma_before_total, lemma_before_transitive,
    str_before, texts,
};
use crate::utf8::{decode_lossy, lossy_text};

verus! {

/// State-store key holding the encoded list of file names.
pub const INDEX_KEY: &'static str = "index";

/// Files as name and text, in the order of their names.
pub type Files = Seq<(Seq<char>, Seq<char>)>;

/// State-store key for one file's raw utf8 content.
pub open spec fn file_key_of(name: Seq<char>) -> Seq<char> {
    "file:"@ + name
}

/// State-store key for one file's raw utf8 content.
pub fn file_key(name: &str) -> (r: String)
    ensures
        r@ == file_key_of(name@),
{
    cat("file:", name)
}

/// Index of the first file at or after `i` whose name does not come before `name`.
pub open spec fn slot_from(f: Files, name: Seq<char>, i: int) -> int
    decreases f.len() - i,
{
    if i < 0 || i >= f.len() {
        f.len() as int
    } else if before(f[i].0, name) {
        slot_from(f, name, i + 1)
    } else {
        i
    }
}

/// Where `name` stands, or would stand, among the files.
pub open spec fn slot(f: Files, name: Seq<char>) -> int {
    slot_from(f, name, 0)
}

pub open spec fn holds(f: Files, name: Seq<char>) -> bool {
    slot(f, name) < f.len() && f[slot(f, name)].0 == name
}

/// The text of file `name`.
pub open spec fn read_of(f: Files, name: Seq<char>) -> Option<Seq<char>> {
    if holds(f, name) {
        Some(f[slot(f, name)].1)
    } else {
        None
    }
}

/// The files with `name` holding `text`.
pub open spec fn written(f: Files, name: Seq<char>, text: Seq<char>) -> Files {
    if holds(f, name) {
        f.update(slot(f, name), (name, text))
    } else {
        f.insert(slot(f, name), (name, text))
    }
}

/// The files without `name`.
pub open spec fn removed(f: Files, name: Seq<char>) -> Files {
    if holds(f, name) {
        f.remove(slot(f, name))
    } else {
        f
    }
}

pub open spec fn names_of(f: Files) -> Seq<Seq<char>> {
    Seq::new(f.len(), |i: int| f[i].0)
}

/// Names in strictly ascending order.
pub open spec fn sorted(f: Files) -> bool {
    forall|i: int, j: int| 0 <= i < j < f.len() ==> before(#[trigger] f[i].0, #[trigger] f[j].0)
}

/// `postcard::to_stdvec` on a list of strings; `None` is an encoding failure.
pub uninterp spec fn names_encoding(names: Seq<Seq<char>>) -> Option<Seq<u8>>;

/// `postcard::from_bytes` into a list of strings, where `usize` has `width` bits; `None` is a
/// decoding failure.
pub uninterp spec fn names_decoding(bytes: Seq<u8>, width: int) -> Option<Seq<Seq<char>>>;

/// `postcard::to_stdvec`: encodes the names. The result depends on the names alone, and
/// decodes to them again.
#[verifier::external_body]
fn encode_names(names: &Vec<String>) -> (r: Option<Vec<u8>>)
    ensures
        r is Some == names_encoding(texts(names@)) is Some,
        r is Some ==> names_encoding(texts(names@)) == Some((r->0)@),
        r is Some ==> names_decoding((r->0)@, usize::BITS as int) == Some(texts(names@)),
{
    postcard::to_stdvec(names).ok()
}

/// `postcard::from_bytes`: decodes a list of strings. The result depends on the bytes, and on
/// the width of `usize`, in which lengths are read.
#[verifier::external_body]
fn decode_names(bytes: &[u8]) -> (r: Option<Vec<String>>)
    ensures
        r is Some == names_decoding(bytes@, usize::BITS as int) is Some,
        r is Some ==> names_decoding(bytes@, usize::BITS as int) == Some(texts((r->0)@)),
{
    postcard::from_bytes(bytes).ok()
}

/// The names that an index's bytes stand for; none when they cannot be decoded.
pub open spec fn index_of_bytes(bytes: Seq<u8>) -> Seq<Seq<char>> {
    match names_decoding(bytes, usize::BITS as int) {
        Some(ns) => ns,
        None => Seq::empty(),
    }
}

/// The index of a store's names, once encoded, stands for those names.
pub open spec fn index_reads_back(f: Files) -> bool {
    names_encoding(names_of(f)) is Some ==> index_of_bytes(names_encoding(names_of(f))->0)
        == names_of(f)
}

/// One reply from the state store: bytes, nothing stored, or a failed call.
pub type Reply = Result<Option<Vec<u8>>, HostCallError>;

pub open spec fn reply_bytes(r: Reply) -> Option<Seq<u8>> {
    match r {
        Ok(Some(b)) => Some(b@),
        _ => None,
    }
}

/// The first `n` indexed files whose content could be fetched.
pub open spec fn loaded(
    names: Seq<Seq<char>>,
    contents: Seq<Option<Seq<u8>>>,
    n: int,
) -> Files
    decreases n,
{
    if n <= 0 {
        Seq::empty()
    } else {
        let f = loaded(names, contents, n - 1);
        if n <= contents.len() && contents[n - 1] is Some {
            written(f, names[n - 1], lossy_text(contents[n - 1]->0))
        } else {
            f
        }
    }
}

/// Model of the file store: the files and the requests to the host not yet carried out.
#[verifier::ext_equal]
pub struct VfsV {
    pub files: Files,
    pub calls: Seq<CallV>,
}

impl VfsV {
    pub open spec fn empty() -> VfsV {
        VfsV { files: Seq::empty(), calls: Seq::empty() }
    }

    /// The index of names handed to the host, when it can be encoded.
    pub open spec fn indexed(self) -> VfsV {
        match names_encoding(names_of(self.files)) {
            Some(b) => VfsV {
                calls: self.calls.push(CallV::StateSet { key: INDEX_KEY@, value: b }),
                ..self
            },
            None => self,
        }
    }

    /// A file's bytes handed to the host.
    pub open spec fn stored(self, name: Seq<char>, bytes: Seq<u8>) -> VfsV {
        VfsV {
            calls: self.calls.push(CallV::StateSet { key: file_key_of(name), value: bytes }),
            ..self
        }
    }

    pub open spec fn write(self, name: Seq<char>, text: Seq<char>) -> VfsV {
        VfsV { files: written(self.files, name, text), ..self }.stored(
            name,
            vstd::utf8::encode_utf8(text),
        ).indexed()
    }

    pub open spec fn remove(self, name: Seq<char>) -> VfsV {
        if holds(self.files, name) {
            VfsV { files: removed(self.files, name), ..self }.stored(name, Seq::empty()).indexed()
        } else {
            self
        }
    }

    /// The sample project in an empty store.
    pub open spec fn seeded() -> VfsV {
        VfsV::empty().write("main.rs"@, SAMPLE_MAIN@).write("lib.rs"@, SAMPLE_LIB@).write(
            "notes.md"@,
            SAMPLE_NOTES@,
        )
    }

    pub open spec fn load(index: Reply, contents: Seq<Option<Seq<u8>>>) -> VfsV {
        match index {
            Ok(Some(bytes)) => {
                let names = index_of_bytes(bytes@);
                VfsV { files: loaded(names, contents, names.len() as int), calls: Seq::empty() }
            },
            Ok(None) => VfsV::seeded(),
            Err(_) => VfsV::empty(),
        }
    }
}

/// Files in the order of their names.
struct Shelf {
    files: Vec<(String, String)>,
}

pub struct Vfs {
    host: HostHandle,
    shelf: Shelf,
}

spec fn files_of(s: Seq<(String, String)>) -> Files {
    Seq::new(s.len(), |i: int| (s[i].0@, s[i].1@))
}

impl View for Vfs {
    type V = VfsV;

    closed spec fn view(&self) -> VfsV {
        VfsV { files: files_of(self.shelf.files@), calls: self.host@ }
    }
}

pub open spec fn reply_seq(s: Seq<Reply>) -> Seq<Option<Seq<u8>>> {
    Seq::new(s.len(), |i: int| reply_bytes(s[i]))
}

impl Shelf {
    /// Names are in strictly ascending order.
    #[verifier::type_invariant]
    spec fn in_order(self) -> bool {
        sorted(files_of(self.files@))
    }

    /// Set a file's text, `at` its slot.
    fn put(&mut self, at: usize, name: &str, text: &str)
        requires
            at == slot(files_of(old(self).files@), name@),
            at <= old(self).files@.len(),
        ensures
            files_of(final(self).files@) == written(files_of(old(self).files@), name@, text@),
    {
        proof {
            use_type_invariant(&*self);
            law_write_keeps_order(files_of(self.files@), name@, text@);
        }
        let entry = (name.to_string(), text.to_string());
        let mut files: Vec<(String, String)> = Vec::new();
        std::mem::swap(&mut self.files, &mut files);
        if at < files.len() && str_same(files[at].0.as_str(), name) {
            files[at] = entry;
        } else {
            files.insert(at, entry);
        }
        assert(files_of(files@) =~= written(files_of(old(self).files@), name@, text@));
        self.files = files;
    }

    /// Take a file out of its slot `at`.
    fn take_out(&mut self, at: usize, name: &str)
        requires
            at == slot(files_of(old(self).files@), name@),
            holds(files_of(old(self).files@), name@),
            at < old(self).files@.len(),
        ensures
            files_of(final(self).files@) == removed(files_of(old(self).files@), name@),
    {
        proof {
            use_type_invariant(&*self);
            law_remove_keeps_order(files_of(self.files@), name@);
        }
        let mut files: Vec<(String, String)> = Vec::new();
        std::mem::swap(&mut self.files, &mut files);
        let _gone = files.remove(at);
        assert(files_of(files@) =~= removed(files_of(old(self).files@), name@));
        self.files = files;
    }
}

impl Vfs {
    /// The store as the host's replies give it: `index` is the reply for the index,
    /// `contents` the replies for the files it names, in order. An index that could be
    /// fetched gives the files whose content could be fetched; no index at all, the sample
    /// project; a failed call, an empty store.
    pub fn load(index: Reply, contents: Vec<Reply>) -> (r: Self)
        ensures
            r@ == VfsV::load(index, reply_seq(contents@)),
            sorted(r@.files),
    {
        let mut vfs = Vfs { host: HostHandle::new(), shelf: Shelf { files: Vec::new() } };
        assert(vfs@ =~= VfsV::empty());
        match index {
            Ok(Some(bytes)) => {
                let names = Vfs::index_names(bytes.as_slice());
                vfs.fill(names, contents);
            },
            Ok(None) => vfs.seed(),
            Err(_) => {},
        }
        proof {
            use_type_invariant(&vfs.shelf);
        }
        vfs
    }

    /// The file names an index holds.
    pub fn index_names(bytes: &[u8]) -> (r: Vec<String>)
        ensures
            texts(r@) == index_of_bytes(bytes@),
    {
        match decode_names(bytes) {
            Some(names) => names,
            None => {
                let r: Vec<String> = Vec::new();
                assert(texts(r@) =~= Seq::<Seq<char>>::empty());
                r
            },
        }
    }

    fn fill(&mut self, names: Vec<String>, contents: Vec<Reply>)
        requires
            old(self)@ == VfsV::empty(),
        ensures
            final(self)@.files == loaded(
                texts(names@),
                reply_seq(contents@),
                names@.len() as int,
            ),
            final(self)@.calls == Seq::<CallV>::empty(),
    {
        for i in 0..names.len()
            invariant
                self@.files == loaded(texts(names@), reply_seq(contents@), i as int),
                self@.calls == Seq::<CallV>::empty(),
        {
            if i < contents.len() {
                assert(reply_seq(contents@)[i as int] == reply_bytes(contents@[i as int]));
                if let Ok(Some(content)) = &contents[i] {
                    let text = decode_lossy(content.as_slice());
                    self.put(names[i].as_str(), text.as_str());
                }
            }
        }
    }

    /// Populate (and best-effort persist) the first-run sample project.
    fn seed(&mut self)
        requires
            old(self)@ == VfsV::empty(),
        ensures
            final(self)@ == VfsV::seeded(),
    {
        self.write("main.rs", SAMPLE_MAIN);
        self.write("lib.rs", SAMPLE_LIB);
        self.write("notes.md", SAMPLE_NOTES);
    }

    /// Where `name` stands, or would stand.
    fn slot(&self, name: &str) -> (r: usize)
        ensures
            r == slot(self@.files, name@),
            r <= self@.files.len(),
    {
        let mut i: usize = 0;
        while i < self.shelf.files.len()
            invariant
                i <= self.shelf.files@.len(),
                slot(self@.files, name@) == slot_from(self@.files, name@, i as int),
            decreases self.shelf.files@.len() - i,
        {
            if !str_before(self.shelf.files[i].0.as_str(), name) {
                return i;
            }
            i = i + 1;
        }
        i
    }

    /// Set a file's text in memory.
    fn put(&mut self, name: &str, text: &str)
        ensures
            final(self)@ == (VfsV {
                files: written(old(self)@.files, name@, text@),
                ..old(self)@
            }),
    {
        let at: usize = self.slot(name);
        self.shelf.put(at, name, text);
    }

    /// File names in sorted order.
    pub fn list(&self) -> (r: Vec<String>)
        ensures
            texts(r@) == names_of(self@.files),
            sorted(self@.files),
            forall|i: int, j: int|
                0 <= i < j < r@.len() ==> before((#[trigger] r@[i])@, (#[trigger] r@[j])@),
    {
        broadcast use group_texts;

        let mut r: Vec<String> = Vec::new();
        for i in 0..self.shelf.files.len()
            invariant
                texts(r@) =~= names_of(self@.files).take(i as int),
        {
            let name = self.shelf.files[i].0.clone();
            assert(names_of(self@.files).take(i + 1) =~= names_of(self@.files).take(i as int).push(
                name@,
            ));
            r.push(name);
        }
        assert(names_of(self@.files).take(self@.files.len() as int) =~= names_of(self@.files));
        proof {
            use_type_invariant(&self.shelf);
            assert forall|i: int, j: int| 0 <= i < j < r@.len() implies before(
                (#[trigger] r@[i])@,
                (#[trigger] r@[j])@,
            ) by {
                assert(texts(r@)[i] == self@.files[i].0 && texts(r@)[j] == self@.files[j].0);
            }
        }
        r
    }

    /// Borrowed file names in sorted order.
    pub fn names(&self) -> (r: Vec<&str>)
        ensures
            r@.len() == self@.files.len(),
            forall|i: int| 0 <= i < r@.len() ==> (#[trigger] r@[i])@ == self@.files[i].0,
            sorted(self@.files),
    {
        let mut r: Vec<&str> = Vec::new();
        for i in 0..self.shelf.files.len()
            invariant
                r@.len() == i,
                forall|j: int| 0 <= j < i ==> (#[trigger] r@[j])@ == self@.files[j].0,
        {
            r.push(self.shelf.files[i].0.as_str());
        }
        proof {
            use_type_invariant(&self.shelf);
        }
        r
    }

    /// Number of files.
    pub fn len(&self) -> (r: usize)
        ensures
            r == self@.files.len(),
    {
        self.shelf.files.len()
    }

    /// The i-th file name in sorted order.
    pub fn name_at(&self, i: usize) -> (r: Option<&str>)
        ensures
            r is Some == (i < self@.files.len()),
            r is Some ==> (r->0)@ == self@.files[i as int].0,
            sorted(self@.files),
    {
        proof {
            use_type_invariant(&self.shelf);
        }
        if i < self.shelf.files.len() {
            Some(self.shelf.files[i].0.as_str())
        } else {
            None
        }
    }

    pub fn read(&self, name: &str) -> (r: Option<String>)
        ensures
            r is Some == read_of(self@.files, name@) is Some,
            r is Some ==> (r->0)@ == read_of(self@.files, name@)->0,
    {
        let at: usize = self.slot(name);
        if at < self.shelf.files.len() && str_same(self.shelf.files[at].0.as_str(), name) {
            Some(self.shelf.files[at].1.clone())
        } else {
            None
        }
    }

    /// Index of file `name` in sorted order.
    pub fn index_of(&self, name: &str) -> (r: Option<usize>)
        ensures
            r is Some == holds(self@.files, name@),
            r is Some ==> r->0 == slot(self@.files, name@),
    {
        let at: usize = self.slot(name);
        if at < self.shelf.files.len() && str_same(self.shelf.files[at].0.as_str(), name) {
            Some(at)
        } else {
            None
        }
    }

    /// Write a file to memory and persist it (best-effort) to host state.
    pub fn write(&mut self, name: &str, text: &str)
        ensures
            final(self)@ == old(self)@.write(name@, text@),
            index_reads_back(final(self)@.files),
            sorted(final(self)@.files),
            read_of(final(self)@.files, name@) == Some(text@),
            forall|other: Seq<char>|
                other != name@ ==> #[trigger] read_of(final(self)@.files, other) == read_of(
                    old(self)@.files,
                    other,
                ),
    {
        proof {
            use_type_invariant(&self.shelf);
            law_write_keeps_order(self@.files, name@, text@);
            let f = self@.files;
            law_read_after_write(f, name@, text@, name@);
            assert forall|other: Seq<char>| other != name@ implies #[trigger] read_of(
                written(f, name@, text@),
                other,
            ) == read_of(f, other) by {
                law_read_after_write(f, name@, text@, other);
            }
        }
        self.put(name, text);
        self.host.state_set(file_key(name).as_str(), text.as_bytes_vec());
        self.persist_index();
    }

    /// Delete a file from memory and host state; returns false when it did not exist.
    pub fn remove(&mut self, name: &str) -> (r: bool)
        ensures
            r == holds(old(self)@.files, name@),
            final(self)@ == old(self)@.remove(name@),
            r ==> index_reads_back(final(self)@.files),
            sorted(final(self)@.files),
            read_of(final(self)@.files, name@) is None,
            forall|other: Seq<char>|
                other != name@ ==> #[trigger] read_of(final(self)@.files, other) == read_of(
                    old(self)@.files,
                    other,
                ),
    {
        proof {
            use_type_invariant(&self.shelf);
            law_remove_keeps_order(self@.files, name@);
            let f = self@.files;
            law_read_after_remove(f, name@, name@);
            assert forall|other: Seq<char>| other != name@ implies #[trigger] read_of(
                removed(f, name@),
                other,
            ) == read_of(f, other) by {
                law_read_after_remove(f, name@, other);
            }
        }
        let at: usize = self.slot(name);
        if at < self.shelf.files.len() && str_same(self.shelf.files[at].0.as_str(), name) {
            self.shelf.take_out(at, name);
            // No delete op exists; shrink the orphaned blob to empty.
            self.host.state_set(file_key(name).as_str(), Vec::new());
            self.persist_index();
            true
        } else {
            false
        }
    }

    pub fn has_file(&self, name: &str) -> (r: bool)
        ensures
            r == holds(self@.files, name@),
    {
        let at: usize = self.slot(name);
        at < self.shelf.files.len() && str_same(self.shelf.files[at].0.as_str(), name)
    }

    /// Best-effort write of the file-name index to host state.
    fn persist_index(&mut self)
        ensures
            final(self)@ == old(self)@.indexed(),
            index_reads_back(final(self)@.files),
    {
        let names = self.list();
        if let Some(bytes) = encode_names(&names) {
            self.host.state_set(INDEX_KEY, bytes);
        }
    }

    /// Hand out the requests to the host made so far.
    pub fn take_calls(&mut self) -> (r: Vec<HostCall>)
        ensures
            crate::host::calls_of(r@) == old(self)@.calls,
            final(self)@ == (VfsV { calls: Seq::empty(), ..old(self)@ }),
    {
        self.host.take()
    }
}

proof fn lemma_slot(f: Files, name: Seq<char>, i: int)
    requires
        0 <= i <= f.len(),
    ensures
        i <= slot_from(f, name, i) <= f.len(),
        forall|k: int| i <= k < slot_from(f, name, i) ==> before(#[trigger] f[k].0, name),
        slot_from(f, name, i) < f.len() ==> !before(f[slot_from(f, name, i)].0, name),
    decreases f.len() - i,
{
    if i < f.len() && before(f[i].0, name) {
        lemma_slot(f, name, i + 1);
    }
}

/// The slot is the only index that parts the names before `name` from the rest.
proof fn lemma_slot_is(f: Files, name: Seq<char>, k: int)
    requires
        0 <= k <= f.len(),
        forall|j: int| 0 <= j < k ==> before(#[trigger] f[j].0, name),
        k < f.len() ==> !before(f[k].0, name),
    ensures
        slot(f, name) == k,
{
    lemma_slot(f, name, 0);
    if k < slot(f, name) {
        assert(before(f[k].0, name));
    }
    if slot(f, name) < k {
        assert(before(f[slot(f, name)].0, name));
    }
}

/// In a sorted store a file is held exactly if some entry bears its name.
pub proof fn lemma_holds(f: Files, name: Seq<char>)
    requires
        sorted(f),
    ensures
        holds(f, name) <==> exists|i: int| 0 <= i < f.len() && (#[trigger] f[i]).0 == name,
{
    if exists|i: int| 0 <= i < f.len() && (#[trigger] f[i]).0 == name {
        let i = choose|i: int| 0 <= i < f.len() && (#[trigger] f[i]).0 == name;
        lemma_before_irreflexive(name);
        assert forall|j: int| 0 <= j < i implies before(#[trigger] f[j].0, name) by {
            assert(before(f[j].0, f[i].0));
        }
        lemma_slot_is(f, name, i);
    }
    lemma_slot(f, name, 0);
}

/// Writing keeps the store sorted by name.
pub proof fn law_write_keeps_order(f: Files, name: Seq<char>, text: Seq<char>)
    requires
        sorted(f),
    ensures
        sorted(written(f, name, text)),
{
    let w = written(f, name, text);
    let at = slot(f, name);
    lemma_slot(f, name, 0);
    if !holds(f, name) {
        assert forall|i: int, j: int| 0 <= i < j < w.len() implies before(
            #[trigger] w[i].0,
            #[trigger] w[j].0,
        ) by {
            let bi = if i < at { i } else { i - 1 };
            let bj = if j < at { j } else { j - 1 };
            if j == at {
                assert(before(f[i].0, name));
            } else if i == at {
                lemma_before_total(f[at].0, name);
                if bj > at {
                    assert(before(f[at].0, f[bj].0));
                    lemma_before_transitive(name, f[at].0, f[bj].0);
                }
            } else {
                assert(before(f[bi].0, f[bj].0));
            }
        }
    } else {
        assert forall|i: int, j: int| 0 <= i < j < w.len() implies before(
            #[trigger] w[i].0,
            #[trigger] w[j].0,
        ) by {
            assert(before(f[i].0, f[j].0));
        }
    }
}

/// Removing keeps the store sorted by name.
pub proof fn law_remove_keeps_order(f: Files, name: Seq<char>)
    requires
        sorted(f),
    ensures
        sorted(removed(f, name)),
{
    let at = slot(f, name);
    lemma_slot(f, name, 0);
    if holds(f, name) {
        let w = removed(f, name);
        assert forall|i: int, j: int| 0 <= i < j < w.len() implies before(
            #[trigger] w[i].0,
            #[trigger] w[j].0,
        ) by {
            let bi = if i < at { i } else { i + 1 };
            let bj = if j < at { j } else { j + 1 };
            assert(before(f[bi].0, f[bj].0));
        }
    }
}

/// A read gives back what was last written, and leaves every other file as it was.
pub proof fn law_read_after_write(f: Files, name: Seq<char>, text: Seq<char>, other: Seq<char>)
    requires
        sorted(f),
    ensures
        read_of(written(f, name, text), name) == Some(text),
        other != name ==> read_of(written(f, name, text), other) == read_of(f, other),
{
    let w = written(f, name, text);
    let at = slot(f, name);
    lemma_slot(f, name, 0);
    law_write_keeps_order(f, name, text);
    assert(w[at] == (name, text));
    assert forall|j: int| 0 <= j < at implies before(#[trigger] w[j].0, name) by {
        assert(w[j] == f[j]);
    }
    lemma_before_irreflexive(name);
    lemma_slot_is(w, name, at);
    if other != name {
        lemma_holds(f, other);
        lemma_holds(w, other);
        lemma_slot(f, other, 0);
        lemma_slot(w, other, 0);
        let shift = if holds(f, name) { 0int } else { 1int };
        if holds(f, other) {
            let k = slot(f, other);
            assert(w[if k < at { k } else { k + shift }] == f[k]);
            lemma_slot(w, other, 0);
            assert(holds(w, other));
            let m = slot(w, other);
            lemma_entry_unique(w, m, if k < at { k } else { k + shift });
        } else if holds(w, other) {
            let m = slot(w, other);
            assert(m != at);
            assert(f[if m < at { m } else { m - shift }] == w[m]);
        }
    }
}

proof fn lemma_entry_unique(f: Files, i: int, j: int)
    requires
        sorted(f),
        0 <= i < f.len(),
        0 <= j < f.len(),
        f[i].0 == f[j].0,
    ensures
        i == j,
{
    lemma_before_irreflexive(f[i].0);
    if i < j {
        assert(before(f[i].0, f[j].0));
    }
    if j < i {
        assert(before(f[j].0, f[i].0));
    }
}

/// A removed file is gone, and every other file is as it was.
pub proof fn law_read_after_remove(f: Files, name: Seq<char>, other: Seq<char>)
    requires
        sorted(f),
    ensures
        read_of(removed(f, name), name) is None,
        other != name ==> read_of(removed(f, name), other) == read_of(f, other),
{
    let w = removed(f, name);
    let at = slot(f, name);
    law_remove_keeps_order(f, name);
    lemma_holds(w, name);
    lemma_holds(f, name);
    lemma_slot(f, name, 0);
    if holds(f, name) {
        lemma_slot(w, name, 0);
        if holds(w, name) {
            let m = slot(w, name);
            let k = if m < at { m } else { m + 1 };
            assert(f[k] == w[m]);
            lemma_entry_unique(f, k, at);
        }
        if other != name {
            lemma_holds(f, other);
            lemma_holds(w, other);
            lemma_slot(f, other, 0);
            lemma_slot(w, other, 0);
            if holds(f, other) {
                let k = slot(f, other);
                let m = if k < at { k } else { k - 1 };
                assert(w[m] == f[k]);
                assert(holds(w, other));
                lemma_slot(w, other, 0);
                lemma_entry_unique(w, slot(w, other), m);
            } else if holds(w, other) {
                let m = slot(w, other);
                assert(f[if m < at { m } else { m + 1 }] == w[m]);
            }
        }
    }
}

/// What the host was given for each file of a store, handed back, gives the store again.
pub proof fn law_reload_restores(f: Files, contents: Seq<Option<Seq<u8>>>, n: int)
    requires
        sorted(f),
        0 <= n <= f.len(),
        contents.len() == f.len(),
        forall|i: int|
            0 <= i < f.len() ==> #[trigger] contents[i] == Some(
                vstd::utf8::encode_utf8(f[i].1),
            ),
    ensures
        loaded(names_of(f), contents, n) == f.take(n),
    decreases n,
{
    if n > 0 {
        law_reload_restores(f, contents, n - 1);
        let g = f.take(n - 1);
        let name = f[n - 1].0;
        vstd::utf8::encode_utf8_valid_utf8(f[n - 1].1);
        vstd::utf8::encode_utf8_decode_utf8(f[n - 1].1);
        assert(lossy_text(contents[n - 1]->0) == f[n - 1].1);
        assert forall|j: int| 0 <= j < g.len() implies before(#[trigger] g[j].0, name) by {
            assert(before(f[j].0, f[n - 1].0));
        }
        lemma_slot_is(g, name, n - 1);
        assert(written(g, name, f[n - 1].1) =~= f.take(n));
    } else {
        assert(f.take(n) =~= Seq::empty());
    }
}

/// Whether two strings hold the same characters.
pub fn str_same(a: &str, b: &str) -> (r: bool)
    ensures
        r == (a@ == b@),
{
    let x = a.to_string();
    let y = b.to_string();
    x == y
}

pub const SAMPLE_MAIN: &'static str = r#"//! Sample project seeded by rvim on first run.
//!
//! /* Block comments /* nest */ in rust — the highlighter tracks depth. */

use std::env;

#[derive(Debug, Clone)]
struct Item {
    text: String,
    done: bool,
}

fn parse(args: &[String]) -> Vec<Item> {
    let mut items = Vec::new();
    for arg in args {
        let done = arg.starts_with('+');
        let text = arg.trim_start_matches('+').to_string();
        items.push(Item { text, done });
    }
    items
}

fn main() {
    let args: Vec<String> = env::args().skip(1).collect();
    let items = parse(&args);
    for (i, item) in items.iter().enumerate() {
        let mark = match item.done {
            true => "[x]",
            false => "[ ]",
        };
        println!("{:>2}. {mark} {}", i + 1, item.text);
    }
    println!("{} items total", items.len());
}
"#;

pub const SAMPLE_LIB: &'static str = r#"//! Tiny geometry helpers for the sample project.

pub struct Point {
    pub x: f64,
    pub y: f64,
}

impl Point {
    pub fn new(x: f64, y: f64) -> Self {
        Point { x, y }
    }

    pub fn dist(&self, other: &Point) -> f64 {
        ((self.x - other.x).powi(2) + (self.y - other.y).powi(2)).sqrt()
    }
}

pub fn largest<T: PartialOrd + Copy>(items: &[T]) -> Option<T> {
    let mut best = *items.first()?;
    for &it in &items[1..] {
        if it > best {
            best = it;
        }
    }
    Some(best)
}

#[cfg(test)]
mod tests {
    use super::*;

    #[test]
    fn dist_works() {
        let d = Point::new(0.0, 0.0).dist(&Point::new(3.0, 4.0));
        assert!((d - 5.0).abs() < 1e-9);
    }
}
"#;

pub const SAMPLE_NOTES: &'static str = "# notes

rvim keeps these files in the plugin state store.

- `:e <name>` opens or creates a file
- `Space f f` (or Ctrl+p) fuzzy-finds across the project
- `:help` shows the full cheatsheet
- markdown gets no rust highlighting, as it should
";

} // verus!
