//! The command line: editing it, and executing ex commands.

use vstd::prelude::*;

use crate::host::HostHandle;
use crate::rvim::buffer::{max, min, Position};
use crate::rvim::charmap::sorted_keys;
use crate::rvim::fs::{holds, read_of, str_same, Vfs, VfsV};
use crate::rvim::help::{HELP_BUFFER, HELP_TEXT};
use crate::rvim::keys::{Key, Mode};
use crate::rvim::motion::first_nonblank;
use crate::rvim::pattern::{find_next, next_occ, sub_lines, substitute_line, SubV};
use crate::rvim::state::{
    buffer_named, group_state, BufV, Buffer, EditorState, Options, RegV, SearchV, SplitDir, StV,
};
use crate::rvim::vim::excmd::{
    command_of, find_command, number_of, parse_command, parse_number, parse_range, parse_substitute,
    range_at, split_command, split_substitute, ExCmd, RangeV,
};
use crate::rvim::vim::operate::land;
use crate::rvim::vim::{ed, same_replay, Ed, EngV, VimEngine};
use crate::text::{
    byte_len, cat, copy_range, decimal, decimal_of, decimal_wide, from_chars, range_string,
    to_chars, trim, trim_of, unlines,
};

verus! {

/// The editor together with the file store.
#[verifier::ext_equal]
pub struct World {
    pub d: Ed,
    pub v: VfsV,
}

/// The models of the engine, the editor, the store and the host put together.
pub open spec fn world(e: VimEngine, s: EditorState, v: Vfs, h: HostHandle) -> World {
    World { d: ed(e, s, h), v: v@ }
}

impl World {
    pub open spec fn wf(self) -> bool {
        self.d.wf()
    }

    pub open spec fn sane(self) -> bool {
        self.d.sane()
    }

    pub open spec fn err(self, msg: Seq<char>) -> World {
        World { d: self.d.err(msg), ..self }
    }

    pub open spec fn info(self, msg: Seq<char>) -> World {
        World { d: self.d.info(msg), ..self }
    }

    pub open spec fn st(self, s: StV) -> World {
        World { d: Ed { s, ..self.d }, ..self }
    }

    pub open spec fn reset(self) -> World {
        World { d: self.d.reset(), ..self }
    }
}

impl EngV {
    /// The command line cleared.
    pub open spec fn cmd_cleared(self) -> EngV {
        EngV { cmdline: Seq::empty(), cmdline_cursor: 0, ..self }
    }

    /// A key edited into the command line; `None` when it does nothing there.
    pub open spec fn cmd_edited(self, key: Key) -> Option<EngV> {
        let at = self.cmdline_cursor;
        let len = self.cmdline.len() as int;
        match key {
            Key::Char(c) => Some(
                EngV { cmdline: self.cmdline.insert(at, c), cmdline_cursor: at + 1, ..self },
            ),
            Key::Backspace => if at > 0 {
                Some(
                    EngV {
                        cmdline: self.cmdline.remove(at - 1),
                        cmdline_cursor: at - 1,
                        ..self
                    },
                )
            } else {
                None
            },
            Key::Delete => Some(
                if at < len {
                    EngV { cmdline: self.cmdline.remove(at), ..self }
                } else {
                    self
                },
            ),
            Key::Left => Some(EngV { cmdline_cursor: max(at - 1, 0), ..self }),
            Key::Right => Some(EngV { cmdline_cursor: min(at + 1, len), ..self }),
            Key::Home => Some(EngV { cmdline_cursor: 0, ..self }),
            Key::End => Some(EngV { cmdline_cursor: len, ..self }),
            _ => None,
        }
    }
}

impl Ed {
    /// The command line opened.
    pub open spec fn into_cmdline(self) -> Ed {
        Ed { e: self.e.cmd_cleared(), ..self }.into_mode(Mode::Command).reset()
    }

    /// One more window along `dir`, when it fits.
    pub open spec fn did_split(self, dir: SplitDir) -> Ed {
        if !self.has() {
            self
        } else if self.s.fits_split(dir) {
            Ed { s: self.s.split_along(dir), ..self }
        } else {
            self.err("E36: not enough room"@)
        }
    }

    /// The cursor on the first non-blank of the line nearest to `line`.
    pub open spec fn jumped_to_line(self, line: int) -> Ed {
        if self.has() {
            let b = self.buf();
            let l = min(line, b.text.lines.len() - 1);
            self.with(b.homed(b.text, l))
        } else {
            self
        }
    }

    /// `:[range]s/pat/rep/[g]` with a literal pattern.
    pub open spec fn substituted(self, first: int, last: int, body: Seq<char>) -> Ed {
        let (pat, rep, flags) = split_substitute(body);
        if pat.len() == 0 {
            self.err("E35: No previous search pattern"@)
        } else if !self.has() {
            self
        } else {
            let b = self.buf();
            let l = min(last, b.text.lines.len() - 1);
            let f = min(first, l);
            let r = sub_lines(
                b.text.group_begun(b.cursor),
                f,
                pat,
                rep,
                flags.contains('g'),
                l - f + 1,
            );
            let t = r.text.group_ended();
            if r.subs == 0 {
                self.with(BufV { text: t, ..b }).err("E486: Pattern not found: "@ + pat)
            } else {
                self.with(b.settled_on(t, r.last_line)).info(sub_report(r.subs, r.lines_hit))
            }
        }
    }
}

pub open spec fn sub_report(subs: int, lines: int) -> Seq<char> {
    decimal_of(subs as nat) + " substitution(s) on "@ + decimal_of(lines as nat) + " line(s)"@
}

pub open spec fn quoted(name: Seq<char>) -> Seq<char> {
    seq!['"'] + name + seq!['"']
}

pub open spec fn written_report(name: Seq<char>, text: Seq<char>) -> Seq<char> {
    quoted(name) + " "@ + decimal_of(vstd::utf8::encode_utf8(text).len()) + "B written"@
}

/// The first `n` buffers written out and marked saved.
pub open spec fn all_saved(b: Seq<BufV>, v: VfsV, n: int) -> (Seq<BufV>, VfsV)
    decreases n,
{
    if n <= 0 {
        (b, v)
    } else {
        let (c, w) = all_saved(b, v, n - 1);
        let x = c[n - 1];
        (
            c.update(n - 1, BufV { saved_version: x.text.version, ..x }),
            w.write(x.name, unlines(x.text.lines)),
        )
    }
}

/// One line of the buffer list.
pub open spec fn buffer_entry(b: BufV, i: int, active: int) -> Seq<char> {
    decimal_of((i + 1) as nat) + (if i == active {
        "%"@
    } else {
        " "@
    }) + " "@ + quoted(b.name) + (if b.modified() {
        " [+]"@
    } else {
        Seq::empty()
    })
}

/// The first `n` entries of the buffer list, two spaces between them.
pub open spec fn buffer_list(b: Seq<BufV>, active: int, n: int) -> Seq<char>
    decreases n,
{
    if n <= 0 {
        Seq::empty()
    } else if n == 1 {
        buffer_entry(b[0], 0, active)
    } else {
        buffer_list(b, active, n - 1) + "  "@ + buffer_entry(b[n - 1], n - 1, active)
    }
}

/// Index of the first buffer at or after `i` whose name holds `part`.
pub open spec fn buffer_with(b: Seq<BufV>, part: Seq<char>, i: int) -> Option<int>
    decreases b.len() - i,
{
    if i < 0 || i >= b.len() {
        None
    } else if next_occ(b[i].name, part, 0) is Some {
        Some(i)
    } else {
        buffer_with(b, part, i + 1)
    }
}

/// A text with its line breaks shown as `^J`, the first `n` characters of it read.
pub open spec fn breaks_shown(s: Seq<char>, n: int) -> Seq<char>
    decreases n,
{
    if n <= 0 {
        Seq::empty()
    } else {
        breaks_shown(s, n - 1) + (if s[n - 1] == '\n' {
            seq!['^', 'J']
        } else {
            seq![s[n - 1]]
        })
    }
}

/// One line of the register list: the name and the start of the text.
pub open spec fn register_entry(c: char, r: RegV) -> Seq<char> {
    let t = breaks_shown(r.text, r.text.len() as int);
    seq!['"', c, ' '] + (if t.len() > 24 {
        t.take(24).push('\u{2026}')
    } else {
        t
    })
}

/// The entries of the first `n` registers, two spaces between them.
pub open spec fn register_list(m: Map<char, RegV>, keys: Seq<char>, n: int) -> Seq<char>
    decreases n,
{
    if n <= 0 {
        Seq::empty()
    } else if n == 1 {
        register_entry(keys[0], m[keys[0]])
    } else {
        register_list(m, keys, n - 1) + "  "@ + register_entry(keys[n - 1], m[keys[n - 1]])
    }
}

/// An option switched by `:set`; `None` for unknown names.
pub open spec fn option_set(o: Options, arg: Seq<char>) -> Option<Options> {
    if arg == "nu"@ || arg == "number"@ {
        Some(Options { number: true, ..o })
    } else if arg == "nonu"@ || arg == "nonumber"@ {
        Some(Options { number: false, ..o })
    } else if arg == "rnu"@ || arg == "relativenumber"@ {
        Some(Options { relativenumber: true, ..o })
    } else if arg == "nornu"@ || arg == "norelativenumber"@ {
        Some(Options { relativenumber: false, ..o })
    } else {
        None
    }
}

impl World {
    /// `:w`, with or without another name.
    pub open spec fn wrote(self, arg: Seq<char>) -> World {
        let s = self.d.s;
        if arg.len() > 0 {
            if s.has_buf() {
                let text = unlines(s.buf().text.lines);
                World { v: self.v.write(arg, text), ..self }.info(written_report(arg, text))
            } else {
                self
            }
        } else if s.has_buf() {
            let (t, w) = s.saved(self.v);
            World { v: w, ..self.st(t) }.info(
                written_report(s.buf().name, unlines(s.buf().text.lines)),
            )
        } else {
            self.err("E32: No file name"@)
        }
    }

    pub open spec fn wrote_all(self) -> World {
        let s = self.d.s;
        let n = s.buffers.len();
        let (b, w) = all_saved(s.buffers, self.v, n as int);
        World { v: w, ..self.st(StV { buffers: b, ..s }) }.info(
            decimal_of(n) + " buffer(s) written"@,
        )
    }

    /// `:q`: the window, or with the last window the buffer.
    pub open spec fn did_quit(self, force: bool) -> World {
        let s = self.d.s;
        if s.windows.len() > 1 {
            self.st(s.window_closed())
        } else if s.buffers.len() > 0 {
            self.st(s.closed(s.active(), force))
        } else {
            self
        }
    }

    pub open spec fn closed_window(self) -> World {
        if self.d.s.windows.len() > 1 {
            self.st(self.d.s.window_closed())
        } else {
            self.err("E444: Cannot close last window"@)
        }
    }

    pub open spec fn wrote_and_quit(self) -> World {
        if self.d.s.has_buf() {
            let (t, w) = self.d.s.saved(self.v);
            World { v: w, ..self.st(t.closed(t.active(), true)) }
        } else {
            self.err("E32: No file name"@)
        }
    }

    /// `:e name`, or `:e!` to reload the active buffer.
    pub open spec fn did_edit(self, arg: Seq<char>, force: bool) -> World {
        let s = self.d.s;
        if arg.len() > 0 {
            self.st(s.opened(self.v, arg))
        } else if force {
            if s.has_buf() {
                let name = s.buf().name;
                match read_of(self.v.files, name) {
                    Some(text) => self.st(s.with_buf(BufV::fresh(name, text))).info(
                        quoted(name) + " reloaded"@,
                    ),
                    None => self.err("E484: Can't open file "@ + name),
                }
            } else {
                self
            }
        } else {
            self.err("E32: No file name"@)
        }
    }

    pub open spec fn listed(self) -> World {
        let s = self.d.s;
        let n = s.buffers.len() as int;
        if n == 0 {
            self.info("no buffers"@)
        } else {
            self.info(buffer_list(s.buffers, s.active(), n))
        }
    }

    /// `:b`: a buffer by number or by a part of its name.
    pub open spec fn switched(self, arg: Seq<char>) -> World {
        let s = self.d.s;
        match number_of(arg) {
            Some(n) => if 1 <= n <= s.buffers.len() {
                self.st(s.activated(n - 1))
            } else {
                self.err("E86: Buffer "@ + decimal_of(n as nat) + " does not exist"@)
            },
            None => match buffer_with(s.buffers, arg, 0) {
                Some(i) => if arg.len() == 0 {
                    self.err("E471: Argument required"@)
                } else {
                    self.st(s.activated(i))
                },
                None => self.err("E94: No matching buffer for "@ + arg),
            },
        }
    }

    pub open spec fn dropped(self, force: bool) -> World {
        if self.d.s.buffers.len() > 0 {
            self.st(self.d.s.closed(self.d.s.active(), force))
        } else {
            self
        }
    }

    pub open spec fn optioned(self, arg: Seq<char>) -> World {
        match option_set(self.d.s.options, arg) {
            Some(o) => self.st(StV { options: o, ..self.d.s }),
            None => self.err("E518: Unknown option: "@ + arg),
        }
    }

    pub open spec fn helped(self) -> World {
        let s = self.d.s;
        match buffer_named(s.buffers, HELP_BUFFER@, 0) {
            Some(i) => self.st(s.activated(i)),
            None => self.st(s.added(BufV::fresh(HELP_BUFFER@, HELP_TEXT@))),
        }
    }

    pub open spec fn registers_listed(self) -> World {
        let m = self.d.s.registers;
        let keys = sorted_keys(m.dom());
        if keys.len() == 0 {
            self.info("no registers"@)
        } else {
            self.info(register_list(m, keys, keys.len() as int))
        }
    }

    pub open spec fn file_removed(self, arg: Seq<char>) -> World {
        if arg.len() == 0 {
            self.err("E471: Argument required"@)
        } else if holds(self.v.files, arg) {
            World { v: self.v.remove(arg), ..self }.info("removed "@ + arg)
        } else {
            self.err("E484: Can't open file "@ + arg)
        }
    }

    /// One ex command carried out; `line` is the whole command line.
    #[verifier::opaque]
    pub open spec fn ran(self, cmd: ExCmd, arg: Seq<char>, line: Seq<char>) -> World {
        let s = self.d.s;
        match cmd {
            ExCmd::Write => self.wrote(arg),
            ExCmd::WriteAll => self.wrote_all(),
            ExCmd::Quit(b) => self.did_quit(b),
            ExCmd::Split => World { d: self.d.did_split(SplitDir::Horizontal), ..self },
            ExCmd::VSplit => World { d: self.d.did_split(SplitDir::Vertical), ..self },
            ExCmd::Close => self.closed_window(),
            ExCmd::Only => self.st(s.only_win()),
            ExCmd::WriteQuit => self.wrote_and_quit(),
            ExCmd::Edit(b) => self.did_edit(arg, b),
            ExCmd::New => self.st(s.added(BufV::fresh("[No Name]"@, Seq::empty()))),
            ExCmd::List => self.listed(),
            ExCmd::Switch => self.switched(arg),
            ExCmd::Next => self.st(s.next_buf()),
            ExCmd::Prev => self.st(s.prev_buf()),
            ExCmd::Drop(b) => self.dropped(b),
            ExCmd::NoHighlight => self.st(
                StV { search: SearchV { suppressed: true, ..s.search }, ..s },
            ),
            ExCmd::Options => self.optioned(arg),
            ExCmd::Help => self.helped(),
            ExCmd::Registers => self.registers_listed(),
            ExCmd::Remove => self.file_removed(arg),
            ExCmd::Unknown => self.err("E492: not an editor command: "@ + line),
        }
    }

    /// An ex command line carried out.
    #[verifier::opaque]
    pub open spec fn executed(self, input: Seq<char>) -> World {
        let s = trim_of(input);
        let (cur, last) = if self.d.has() {
            (self.d.buf().cursor.line, self.d.buf().text.lines.len() - 1)
        } else {
            (0, 0)
        };
        if s.len() == 0 {
            self
        } else {
            match range_at(s, cur, last) {
                RangeV::Broken => self.err("E492: not an editor command: "@ + s),
                RangeV::Fine(range, i) => {
                    let rest = s.skip(i);
                    if rest.len() == 0 {
                        match range {
                            Some((a, b)) => World { d: self.d.jumped_to_line(b), ..self },
                            None => self,
                        }
                    } else if rest.len() >= 2 && rest[0] == 's' && rest[1] == '/' {
                        let (first, to) = match range {
                            Some(r) => r,
                            None => (cur, cur),
                        };
                        World { d: self.d.substituted(first, to, rest.skip(2)), ..self }
                    } else if range is Some {
                        self.err("E492: not an editor command: "@ + s)
                    } else {
                        let (name, bang, arg) = split_command(rest);
                        self.ran(command_of(name, bang), arg, s)
                    }
                },
            }
        }
    }

    /// A key on the command line.
    pub open spec fn command_keyed(self, key: Key) -> World {
        let e = self.d.e;
        if key == Key::Esc || key == Key::Ctrl('c') {
            World { d: Ed { e: e.cmd_cleared(), ..self.d }.into_mode(Mode::Normal), ..self }
        } else if key == Key::Enter {
            World {
                d: Ed { e: e.cmd_cleared(), ..self.d }.into_mode(Mode::Normal),
                ..self
            }.executed(e.cmdline)
        } else if key == Key::Backspace && e.cmdline.len() == 0 {
            World { d: self.d.into_mode(Mode::Normal), ..self }
        } else {
            match e.cmd_edited(key) {
                Some(f) => World { d: Ed { e: f, ..self.d }, ..self },
                None => self,
            }
        }
    }
}

/// `name` between double quotes.
fn quote(name: &str) -> (r: String)
    ensures
        r@ == quoted(name@),
{
    let mut r = String::new();
    r.push('"');
    assert(r@ =~= seq!['"']);
    r.append(name);
    let ghost before = r@;
    r.push('"');
    assert(r@ =~= before + seq!['"']);
    r
}

fn report_written(name: &str, text: &str) -> (r: String)
    ensures
        r@ == written_report(name@, text@),
{
    let n: usize = byte_len(text);
    let r = cat(quote(name).as_str(), " ");
    let r = cat(r.as_str(), decimal(n).as_str());
    cat(r.as_str(), "B written")
}

/// Write every buffer out and mark it saved.
fn save_all(st: &mut EditorState, vfs: &mut Vfs)
    requires
        old(st)@.wf(),
    ensures
        final(st)@.wf(),
        final(st)@ == (StV {
            buffers: all_saved(old(st)@.buffers, old(vfs)@, old(st)@.buffers.len() as int).0,
            ..old(st)@
        }),
        final(vfs)@ == all_saved(old(st)@.buffers, old(vfs)@, old(st)@.buffers.len() as int).1,
{
    broadcast use group_state;

    let count: usize = st.buffers.len();
    for i in 0..count
        invariant
            st@.wf(),
            count == st@.buffers.len(),
            st@ == (StV {
                buffers: all_saved(old(st)@.buffers, old(vfs)@, i as int).0,
                ..old(st)@
            }),
            vfs@ == all_saved(old(st)@.buffers, old(vfs)@, i as int).1,
    {
        let text = st.buffers[i].text.text();
        vfs.write(st.buffers[i].name.as_str(), text.as_str());
        let version: u64 = st.buffers[i].text.version();
        let ghost before = st@;
        st.buffers[i].saved_version = version;
        assert(st@.buffers =~= before.buffers.update(
            i as int,
            BufV { saved_version: version, ..before.buffers[i as int] },
        ));
        assert forall|k: int| 0 <= k < st@.buffers.len() implies (
        #[trigger] st@.buffers[k]).wf() by {
            assert(before.buffers[k].wf());
        }
    }
}

fn list_entry(b: &Buffer, i: usize, active: usize) -> (r: String)
    requires
        i < usize::MAX,
    ensures
        r@ == buffer_entry(b@, i as int, active as int),
{
    let mark = if i == active {
        "%"
    } else {
        " "
    };
    let r = cat(decimal(i + 1).as_str(), mark);
    let r = cat(r.as_str(), " ");
    let r = cat(r.as_str(), quote(b.name.as_str()).as_str());
    if b.modified() {
        cat(r.as_str(), " [+]")
    } else {
        assert(r@ =~= buffer_entry(b@, i as int, active as int));
        r
    }
}

fn list_buffers(st: &EditorState) -> (r: String)
    ensures
        r@ == buffer_list(st@.buffers, st@.active(), st@.buffers.len() as int),
{
    let active: usize = st.active();
    let count: usize = st.buffers.len();
    let mut r = String::new();
    for i in 0..count
        invariant
            count == st@.buffers.len(),
            active == st@.active(),
            r@ == buffer_list(st@.buffers, active as int, i as int),
    {
        let entry = list_entry(&st.buffers[i], i, active);
        if i > 0 {
            r = cat(r.as_str(), "  ");
            r = cat(r.as_str(), entry.as_str());
        } else {
            r = entry;
        }
    }
    r
}

fn find_buffer_with(st: &EditorState, part: &str) -> (r: Option<usize>)
    ensures
        match r {
            Some(i) => buffer_with(st@.buffers, part@, 0) == Some(i as int),
            None => buffer_with(st@.buffers, part@, 0) is None,
        },
{
    let p = to_chars(part);
    let mut i: usize = 0;
    while i < st.buffers.len()
        invariant
            p@ == part@,
            i <= st.buffers@.len(),
            buffer_with(st@.buffers, part@, 0) == buffer_with(st@.buffers, part@, i as int),
        decreases st.buffers@.len() - i,
    {
        let name = to_chars(st.buffers[i].name.as_str());
        if find_next(name.as_slice(), p.as_slice(), 0).is_some() {
            return Some(i);
        }
        i = i + 1;
    }
    None
}

fn show_breaks(s: &str) -> (r: String)
    ensures
        r@ == breaks_shown(s@, s@.len() as int),
{
    let chars = to_chars(s);
    let mut r = String::new();
    for i in 0..chars.len()
        invariant
            chars@ == s@,
            r@ == breaks_shown(s@, i as int),
    {
        let ghost before = r@;
        if chars[i] == '\n' {
            r.push('^');
            r.push('J');
            assert(r@ =~= before + seq!['^', 'J']);
        } else {
            r.push(chars[i]);
            assert(r@ =~= before + seq![s@[i as int]]);
        }
    }
    r
}

fn list_register(c: char, text: &str) -> (r: String)
    ensures
        forall|x: RegV| x.text == text@ ==> r@ == #[trigger] register_entry(c, x),
{
    let shown = show_breaks(text);
    let chars = to_chars(shown.as_str());
    let mut r = String::new();
    r.push('"');
    r.push(c);
    r.push(' ');
    assert(r@ =~= seq!['"', c, ' ']);
    if chars.len() > 24 {
        let mut head = range_string(chars.as_slice(), 0, 24);
        assert(head@ =~= shown@.take(24));
        head.push('\u{2026}');
        cat(r.as_str(), head.as_str())
    } else {
        cat(r.as_str(), shown.as_str())
    }
}

fn list_registers(st: &EditorState, keys: &Vec<char>) -> (r: String)
    requires
        forall|i: int| 0 <= i < keys@.len() ==> st@.registers.contains_key(#[trigger] keys@[i]),
    ensures
        r@ == register_list(st@.registers, keys@, keys@.len() as int),
{
    let mut r = String::new();
    for i in 0..keys.len()
        invariant
            forall|j: int|
                0 <= j < keys@.len() ==> st@.registers.contains_key(#[trigger] keys@[j]),
            r@ == register_list(st@.registers, keys@, i as int),
    {
        let c = keys[i];
        assert(st@.registers.contains_key(keys@[i as int]));
        let entry = match st.registers.get(&c) {
            Some(x) => list_register(c, x.text.as_str()),
            None => String::new(),
        };
        assert(entry@ == register_entry(c, st@.registers[c]));
        if i > 0 {
            r = cat(r.as_str(), "  ");
            r = cat(r.as_str(), entry.as_str());
        } else {
            r = entry;
        }
    }
    r
}

fn set_option(o: Options, arg: &str) -> (r: Option<Options>)
    ensures
        r == option_set(o, arg@),
{
    if str_same(arg, "nu") || str_same(arg, "number") {
        Some(Options { number: true, relativenumber: o.relativenumber })
    } else if str_same(arg, "nonu") || str_same(arg, "nonumber") {
        Some(Options { number: false, relativenumber: o.relativenumber })
    } else if str_same(arg, "rnu") || str_same(arg, "relativenumber") {
        Some(Options { number: o.number, relativenumber: true })
    } else if str_same(arg, "nornu") || str_same(arg, "norelativenumber") {
        Some(Options { number: o.number, relativenumber: false })
    } else {
        None
    }
}

impl VimEngine {
    /// `:w`, with or without another name.
    fn cmd_write(
        &mut self,
        st: &mut EditorState,
        vfs: &mut Vfs,
        host: &mut HostHandle,
        arg: &str,
    )
        requires
            world(*old(self), *old(st), *old(vfs), *old(host)).wf(),
        ensures
            same_replay(old(self)@, final(self)@),
            world(*final(self), *final(st), *final(vfs), *final(host)).sane(),
            world(*final(self), *final(st), *final(vfs), *final(host)) == world(
                *old(self),
                *old(st),
                *old(vfs),
                *old(host),
            ).wrote(arg@),
    {
        if arg.unicode_len() > 0 {
            let text = match st.buf() {
                Some(buf) => buf.text.text(),
                None => {
                    return;
                },
            };
            vfs.write(arg, text.as_str());
            st.info(report_written(arg, text.as_str()).as_str());
        } else {
            let text = match st.buf() {
                Some(buf) => buf.text.text(),
                None => {
                    self.err(st, host, "E32: No file name");
                    return;
                },
            };
            if let Some((name, bytes)) = st.save_active(vfs) {
                st.info(report_written(name.as_str(), text.as_str()).as_str());
            }
        }
    }

    /// `:wa`.
    fn cmd_write_all(
        &mut self,
        st: &mut EditorState,
        vfs: &mut Vfs,
        host: &mut HostHandle,
    )
        requires
            world(*old(self), *old(st), *old(vfs), *old(host)).wf(),
        ensures
            same_replay(old(self)@, final(self)@),
            world(*final(self), *final(st), *final(vfs), *final(host)).sane(),
            world(*final(self), *final(st), *final(vfs), *final(host)) == world(
                *old(self),
                *old(st),
                *old(vfs),
                *old(host),
            ).wrote_all(),
    {
        let n: usize = st.buffers.len();
        save_all(st, vfs);
        st.info(cat(decimal(n).as_str(), " buffer(s) written").as_str());
    }

    /// `:q`: the window, or with the last window the buffer.
    fn cmd_quit(
        &mut self,
        st: &mut EditorState,
        vfs: &mut Vfs,
        host: &mut HostHandle,
        force: bool,
    )
        requires
            world(*old(self), *old(st), *old(vfs), *old(host)).wf(),
        ensures
            same_replay(old(self)@, final(self)@),
            world(*final(self), *final(st), *final(vfs), *final(host)).sane(),
            world(*final(self), *final(st), *final(vfs), *final(host)) == world(
                *old(self),
                *old(st),
                *old(vfs),
                *old(host),
            ).did_quit(force),
    {
        if st.windows.len() > 1 {
            st.close_window();
        } else if st.buffers.len() > 0 {
            let active: usize = st.active();
            st.close_buffer(active, force);
        }
    }

    /// `:close`.
    fn cmd_close(
        &mut self,
        st: &mut EditorState,
        vfs: &mut Vfs,
        host: &mut HostHandle,
    )
        requires
            world(*old(self), *old(st), *old(vfs), *old(host)).wf(),
        ensures
            same_replay(old(self)@, final(self)@),
            world(*final(self), *final(st), *final(vfs), *final(host)).sane(),
            world(*final(self), *final(st), *final(vfs), *final(host)) == world(
                *old(self),
                *old(st),
                *old(vfs),
                *old(host),
            ).closed_window(),
    {
        if !st.close_window() {
            self.err(st, host, "E444: Cannot close last window");
        }
    }

    /// `:wq`.
    fn cmd_write_quit(
        &mut self,
        st: &mut EditorState,
        vfs: &mut Vfs,
        host: &mut HostHandle,
    )
        requires
            world(*old(self), *old(st), *old(vfs), *old(host)).wf(),
        ensures
            same_replay(old(self)@, final(self)@),
            world(*final(self), *final(st), *final(vfs), *final(host)).sane(),
            world(*final(self), *final(st), *final(vfs), *final(host)) == world(
                *old(self),
                *old(st),
                *old(vfs),
                *old(host),
            ).wrote_and_quit(),
    {
        if st.save_active(vfs).is_some() {
            let active: usize = st.active();
            st.close_buffer(active, true);
        } else {
            self.err(st, host, "E32: No file name");
        }
    }

    /// `:e name`, or `:e!` to reload the active buffer.
    fn cmd_edit(
        &mut self,
        st: &mut EditorState,
        vfs: &mut Vfs,
        host: &mut HostHandle,
        arg: &str,
        force: bool,
    )
        requires
            world(*old(self), *old(st), *old(vfs), *old(host)).wf(),
        ensures
            same_replay(old(self)@, final(self)@),
            world(*final(self), *final(st), *final(vfs), *final(host)).sane(),
            world(*final(self), *final(st), *final(vfs), *final(host)) == world(
                *old(self),
                *old(st),
                *old(vfs),
                *old(host),
            ).did_edit(arg@, force),
    {
        if arg.unicode_len() > 0 {
            st.open_file(vfs, arg);
        } else if force {
            let name = match st.buf() {
                Some(buf) => buf.name.clone(),
                None => {
                    return;
                },
            };
            match vfs.read(name.as_str()) {
                Some(text) => {
                    if let Some(buf) = st.buf_mut() {
                        *buf = Buffer::new(name.as_str(), text.as_str());
                    }
                    st.info(cat(quote(name.as_str()).as_str(), " reloaded").as_str());
                },
                None => {
                    self.err(st, host, cat("E484: Can't open file ", name.as_str()).as_str());
                },
            }
        } else {
            self.err(st, host, "E32: No file name");
        }
    }

    /// `:ls`.
    fn cmd_list(
        &mut self,
        st: &mut EditorState,
        vfs: &mut Vfs,
        host: &mut HostHandle,
    )
        requires
            world(*old(self), *old(st), *old(vfs), *old(host)).wf(),
        ensures
            same_replay(old(self)@, final(self)@),
            world(*final(self), *final(st), *final(vfs), *final(host)).sane(),
            world(*final(self), *final(st), *final(vfs), *final(host)) == world(
                *old(self),
                *old(st),
                *old(vfs),
                *old(host),
            ).listed(),
    {
        if st.buffers.len() == 0 {
            st.info("no buffers");
        } else {
            let list = list_buffers(st);
            st.info(list.as_str());
        }
    }

    /// `:b`: a buffer by number or by a part of its name.
    fn cmd_switch(
        &mut self,
        st: &mut EditorState,
        vfs: &mut Vfs,
        host: &mut HostHandle,
        arg: &str,
    )
        requires
            world(*old(self), *old(st), *old(vfs), *old(host)).wf(),
        ensures
            same_replay(old(self)@, final(self)@),
            world(*final(self), *final(st), *final(vfs), *final(host)).sane(),
            world(*final(self), *final(st), *final(vfs), *final(host)) == world(
                *old(self),
                *old(st),
                *old(vfs),
                *old(host),
            ).switched(arg@),
    {
        match parse_number(arg) {
            Some(n) => {
                if n >= 1 && n <= st.buffers.len() {
                    st.set_active(n - 1);
                } else {
                    let msg = cat(
                        cat("E86: Buffer ", decimal(n).as_str()).as_str(),
                        " does not exist",
                    );
                    self.err(st, host, msg.as_str());
                }
            },
            None => match find_buffer_with(st, arg) {
                Some(i) => {
                    if arg.unicode_len() == 0 {
                        self.err(st, host, "E471: Argument required");
                    } else {
                        st.set_active(i);
                    }
                },
                None => {
                    self.err(st, host, cat("E94: No matching buffer for ", arg).as_str());
                },
            },
        }
    }

    /// `:bd`.
    fn cmd_drop(
        &mut self,
        st: &mut EditorState,
        vfs: &mut Vfs,
        host: &mut HostHandle,
        force: bool,
    )
        requires
            world(*old(self), *old(st), *old(vfs), *old(host)).wf(),
        ensures
            same_replay(old(self)@, final(self)@),
            world(*final(self), *final(st), *final(vfs), *final(host)).sane(),
            world(*final(self), *final(st), *final(vfs), *final(host)) == world(
                *old(self),
                *old(st),
                *old(vfs),
                *old(host),
            ).dropped(force),
    {
        if st.buffers.len() > 0 {
            let active: usize = st.active();
            st.close_buffer(active, force);
        }
    }

    /// `:set`.
    fn cmd_option(
        &mut self,
        st: &mut EditorState,
        vfs: &mut Vfs,
        host: &mut HostHandle,
        arg: &str,
    )
        requires
            world(*old(self), *old(st), *old(vfs), *old(host)).wf(),
        ensures
            same_replay(old(self)@, final(self)@),
            world(*final(self), *final(st), *final(vfs), *final(host)).sane(),
            world(*final(self), *final(st), *final(vfs), *final(host)) == world(
                *old(self),
                *old(st),
                *old(vfs),
                *old(host),
            ).optioned(arg@),
    {
        match set_option(st.options, arg) {
            Some(o) => {
                st.options = o;
            },
            None => {
                self.err(st, host, cat("E518: Unknown option: ", arg).as_str());
            },
        }
    }

    /// `:help`.
    fn cmd_help(
        &mut self,
        st: &mut EditorState,
        vfs: &mut Vfs,
        host: &mut HostHandle,
    )
        requires
            world(*old(self), *old(st), *old(vfs), *old(host)).wf(),
        ensures
            same_replay(old(self)@, final(self)@),
            world(*final(self), *final(st), *final(vfs), *final(host)).sane(),
            world(*final(self), *final(st), *final(vfs), *final(host)) == world(
                *old(self),
                *old(st),
                *old(vfs),
                *old(host),
            ).helped(),
    {
        match st.find_buffer(HELP_BUFFER) {
            Some(i) => {
                st.set_active(i);
            },
            None => {
                st.add_buffer(Buffer::new(HELP_BUFFER, HELP_TEXT));
            },
        }
    }

    /// `:reg`.
    fn cmd_registers(
        &mut self,
        st: &mut EditorState,
        vfs: &mut Vfs,
        host: &mut HostHandle,
    )
        requires
            world(*old(self), *old(st), *old(vfs), *old(host)).wf(),
        ensures
            same_replay(old(self)@, final(self)@),
            world(*final(self), *final(st), *final(vfs), *final(host)).sane(),
            world(*final(self), *final(st), *final(vfs), *final(host)) == world(
                *old(self),
                *old(st),
                *old(vfs),
                *old(host),
            ).registers_listed(),
    {
        let keys = st.registers.keys();
        assert(st.registers@.dom() =~= st@.registers.dom());
        assert forall|i: int| 0 <= i < keys@.len() implies st@.registers.contains_key(
            #[trigger] keys@[i],
        ) by {
            assert(keys@.to_set().contains(keys@[i]));
        }
        if keys.len() == 0 {
            st.info("no registers");
        } else {
            let list = list_registers(st, &keys);
            st.info(list.as_str());
        }
    }

    /// `:rm`.
    fn cmd_remove(
        &mut self,
        st: &mut EditorState,
        vfs: &mut Vfs,
        host: &mut HostHandle,
        arg: &str,
    )
        requires
            world(*old(self), *old(st), *old(vfs), *old(host)).wf(),
        ensures
            same_replay(old(self)@, final(self)@),
            world(*final(self), *final(st), *final(vfs), *final(host)).sane(),
            world(*final(self), *final(st), *final(vfs), *final(host)) == world(
                *old(self),
                *old(st),
                *old(vfs),
                *old(host),
            ).file_removed(arg@),
    {
        if arg.unicode_len() == 0 {
            self.err(st, host, "E471: Argument required");
        } else if vfs.remove(arg) {
            st.info(cat("removed ", arg).as_str());
        } else {
            self.err(st, host, cat("E484: Can't open file ", arg).as_str());
        }
    }

    /// Split the focused window, refusing when the resulting windows would be too small.
    pub(crate) fn do_split(&mut self, st: &mut EditorState, host: &mut HostHandle, dir: SplitDir)
        requires
            ed(*old(self), *old(st), *old(host)).wf(),
        ensures
            same_replay(old(self)@, final(self)@),
            ed(*final(self), *final(st), *final(host)).wf(),
            ed(*final(self), *final(st), *final(host)) == ed(
                *old(self),
                *old(st),
                *old(host),
            ).did_split(dir),
    {
        if st.buf().is_none() {
            return;
        }
        if st.can_split(dir) {
            st.split(dir);
        } else {
            self.err(st, host, "E36: not enough room");
        }
    }

    /// Carry out one ex command; `line` is the whole command line.
    fn run_command(
        &mut self,
        st: &mut EditorState,
        vfs: &mut Vfs,
        host: &mut HostHandle,
        cmd: ExCmd,
        arg: &str,
        line: &str,
    )
        requires
            world(*old(self), *old(st), *old(vfs), *old(host)).wf(),
        ensures
            same_replay(old(self)@, final(self)@),
            world(*final(self), *final(st), *final(vfs), *final(host)).sane(),
            world(*final(self), *final(st), *final(vfs), *final(host)) == world(
                *old(self),
                *old(st),
                *old(vfs),
                *old(host),
            ).ran(cmd, arg@, line@),
    {
        reveal(World::ran);
        match cmd {
            ExCmd::Write => self.cmd_write(st, vfs, host, arg),
            ExCmd::WriteAll => self.cmd_write_all(st, vfs, host),
            ExCmd::Quit(b) => self.cmd_quit(st, vfs, host, b),
            ExCmd::Split => self.do_split(st, host, SplitDir::Horizontal),
            ExCmd::VSplit => self.do_split(st, host, SplitDir::Vertical),
            ExCmd::Close => self.cmd_close(st, vfs, host),
            ExCmd::Only => st.only(),
            ExCmd::WriteQuit => self.cmd_write_quit(st, vfs, host),
            ExCmd::Edit(b) => self.cmd_edit(st, vfs, host, arg, b),
            ExCmd::New => {
                let empty = String::new();
                st.add_buffer(Buffer::new("[No Name]", empty.as_str()));
            },
            ExCmd::List => self.cmd_list(st, vfs, host),
            ExCmd::Switch => self.cmd_switch(st, vfs, host, arg),
            ExCmd::Next => st.next_buffer(),
            ExCmd::Prev => st.prev_buffer(),
            ExCmd::Drop(b) => self.cmd_drop(st, vfs, host, b),
            ExCmd::NoHighlight => {
                st.search.suppressed = true;
            },
            ExCmd::Options => self.cmd_option(st, vfs, host, arg),
            ExCmd::Help => self.cmd_help(st, vfs, host),
            ExCmd::Registers => self.cmd_registers(st, vfs, host),
            ExCmd::Remove => self.cmd_remove(st, vfs, host, arg),
            ExCmd::Unknown => {
                self.err(st, host, cat("E492: not an editor command: ", line).as_str());
            },
        }
    }

}

/// What a substitution over some lines has come to.
struct Subs {
    subs: u128,
    lines_hit: usize,
    last_line: usize,
}

/// Substitute in lines `[first, last]`.
fn substitute_range(
    text: &mut crate::rvim::buffer::TextBuffer,
    first: usize,
    last: usize,
    pat: &str,
    rep: &str,
    global: bool,
) -> (r: Subs)
    requires
        old(text)@.wf(),
        pat@.len() > 0,
        first <= last < old(text)@.lines.len(),
    ensures
        final(text)@.wf(),
        (SubV {
            text: final(text)@,
            subs: r.subs as int,
            lines_hit: r.lines_hit as int,
            last_line: r.last_line as int,
        }) == sub_lines(old(text)@, first as int, pat@, rep@, global, last - first + 1),
        final(text)@.lines.len() == old(text)@.lines.len(),
        first <= r.last_line <= last,
{
    let p = to_chars(pat);
    let count: usize = text.line_count();
    let mut r = Subs { subs: 0, lines_hit: 0, last_line: first };
    for l in first..last + 1
        invariant
            p@ == pat@,
            pat@.len() > 0,
            text@.wf(),
            first <= l <= last + 1,
            first <= last < count,
            count <= isize::MAX,
            count == text@.lines.len(),
            count == old(text)@.lines.len(),
            first <= r.last_line <= last,
            r.lines_hit <= l - first,
            r.subs <= (l - first) * isize::MAX,
            (SubV {
                text: text@,
                subs: r.subs as int,
                lines_hit: r.lines_hit as int,
                last_line: r.last_line as int,
            }) == sub_lines(old(text)@, first as int, pat@, rep@, global, l - first),
    {
        let len: usize = text.line_len(l);
        let (new, n) = substitute_line(text.line(l), p.as_slice(), rep, global);
        assert((l - first + 1) * isize::MAX == (l - first) * isize::MAX + isize::MAX)
            by (nonlinear_arith);
        assert((l - first + 1) * isize::MAX <= isize::MAX * isize::MAX) by (nonlinear_arith)
            requires
                0 <= l - first + 1 <= isize::MAX,
        ;
        assert(isize::MAX * isize::MAX <= u128::MAX) by (nonlinear_arith)
            requires
                0 <= isize::MAX <= 0x7fff_ffff_ffff_ffff,
        ;
        if n > 0 {
            text.set_line(l, new);
            r.subs = r.subs + n as u128;
            r.lines_hit = r.lines_hit + 1;
            r.last_line = l;
        }
    }
    r
}

fn holds_g(s: &str) -> (r: bool)
    ensures
        r == s@.contains('g'),
{
    let chars = to_chars(s);
    for i in 0..chars.len()
        invariant
            chars@ == s@,
            forall|j: int| 0 <= j < i ==> #[trigger] chars@[j] != 'g',
    {
        if chars[i] == 'g' {
            return true;
        }
    }
    false
}

impl VimEngine {
    pub(crate) fn enter_cmdline(&mut self, host: &mut HostHandle)
        ensures
            same_replay(old(self)@, final(self)@),
            final(self)@ == (EngV { mode: Mode::Command, ..old(self)@.cmd_cleared() }).reset(),
            final(host)@ == (if old(self)@.mode != Mode::Command {
                old(host)@.push(crate::host::CallV::Haptic(6))
            } else {
                old(host)@
            }),
    {
        self.clear_cmdline();
        self.set_mode(host, Mode::Command);
        self.reset();
    }

    pub(crate) fn clear_cmdline(&mut self)
        ensures
            same_replay(old(self)@, final(self)@),
            final(self)@ == old(self)@.cmd_cleared(),
    {
        self.cmdline = String::new();
        self.cmdline_cursor = 0;
        assert(self@ =~= old(self)@.cmd_cleared());
    }

    /// Shared cmdline editing for command and search modes; returns true when handled.
    pub(crate) fn edit_cmdline(&mut self, key: Key) -> (r: bool)
        requires
            old(self)@.wf(),
        ensures
            same_replay(old(self)@, final(self)@),
            final(self)@.wf(),
            match old(self)@.cmd_edited(key) {
                Some(e) => r && final(self)@ == e,
                None => !r && final(self)@ == old(self)@,
            },
    {
        let mut chars = to_chars(self.cmdline.as_str());
        let at: usize = self.cmdline_cursor;
        let len: usize = chars.len();
        match key {
            Key::Char(c) => {
                chars.insert(at, c);
                let _grown: usize = chars.len();
                self.cmdline = from_chars(chars.as_slice());
                self.cmdline_cursor = at + 1;
            },
            Key::Backspace => {
                if at == 0 {
                    return false;
                }
                let gone = chars.remove(at - 1);
                self.cmdline = from_chars(chars.as_slice());
                self.cmdline_cursor = at - 1;
            },
            Key::Delete => {
                if at < len {
                    let gone = chars.remove(at);
                    self.cmdline = from_chars(chars.as_slice());
                }
            },
            Key::Left => {
                if at > 0 {
                    self.cmdline_cursor = at - 1;
                }
            },
            Key::Right => {
                if at < len {
                    self.cmdline_cursor = at + 1;
                }
            },
            Key::Home => {
                self.cmdline_cursor = 0;
            },
            Key::End => {
                self.cmdline_cursor = len;
            },
            _ => {
                return false;
            },
        }
        true
    }

    /// `:[range]s/pat/rep/[g]` with a literal pattern.
    fn substitute(
        &mut self,
        st: &mut EditorState,
        host: &mut HostHandle,
        first: usize,
        last: usize,
        body: &[char],
    )
        requires
            ed(*old(self), *old(st), *old(host)).wf(),
        ensures
            same_replay(old(self)@, final(self)@),
            ed(*final(self), *final(st), *final(host)).sane(),
            ed(*final(self), *final(st), *final(host)) == ed(
                *old(self),
                *old(st),
                *old(host),
            ).substituted(first as int, last as int, body@),
    {
        let (pat, rep, flags) = parse_substitute(body);
        if pat.as_str().unicode_len() == 0 {
            self.err(st, host, "E35: No previous search pattern");
            return;
        }
        let global = holds_g(flags.as_str());
        let report = match st.buf_mut() {
            None => {
                return;
            },
            Some(buf) => {
                let top: usize = buf.text.line_count() - 1;
                let last: usize = if last < top {
                    last
                } else {
                    top
                };
                let first: usize = if first < last {
                    first
                } else {
                    last
                };
                let cur = buf.cursor;
                buf.text.begin_undo_group(cur);
                let r = substitute_range(
                    &mut buf.text,
                    first,
                    last,
                    pat.as_str(),
                    rep.as_str(),
                    global,
                );
                buf.text.end_undo_group();
                if r.subs > 0 {
                    let col: usize = first_nonblank(buf.text.line(r.last_line));
                    land(buf, Position::new(r.last_line, col));
                }
                r
            },
        };
        if report.subs == 0 {
            self.err(st, host, cat("E486: Pattern not found: ", pat.as_str()).as_str());
        } else {
            let msg = cat(decimal_wide(report.subs).as_str(), " substitution(s) on ");
            let msg = cat(msg.as_str(), decimal(report.lines_hit).as_str());
            let msg = cat(msg.as_str(), " line(s)");
            st.info(msg.as_str());
        }
    }

    pub(crate) fn execute_cmd(
        &mut self,
        st: &mut EditorState,
        vfs: &mut Vfs,
        host: &mut HostHandle,
        input: &str,
    )
        requires
            world(*old(self), *old(st), *old(vfs), *old(host)).wf(),
        ensures
            same_replay(old(self)@, final(self)@),
            world(*final(self), *final(st), *final(vfs), *final(host)).sane(),
            world(*final(self), *final(st), *final(vfs), *final(host)) == world(
                *old(self),
                *old(st),
                *old(vfs),
                *old(host),
            ).executed(input@),
    {
        reveal(World::executed);
        let s = trim(input);
        let chars = to_chars(s.as_str());
        if chars.len() == 0 {
            return;
        }
        let (cur, last): (usize, usize) = match st.buf() {
            Some(buf) => (buf.cursor.line, buf.text.line_count() - 1),
            None => (0, 0),
        };
        let (range, i) = match parse_range(chars.as_slice(), cur, last) {
            Ok(r) => r,
            Err(_) => {
                let msg = cat("E492: not an editor command: ", s.as_str());
                self.err(st, host, msg.as_str());
                return;
            },
        };
        let rest = copy_range(chars.as_slice(), i, chars.len());
        assert(rest@ =~= s@.skip(i as int));
        if rest.len() == 0 {
            if let Some((_, b)) = range {
                if let Some(buf) = st.buf_mut() {
                    let top: usize = buf.text.line_count() - 1;
                    let line: usize = if b < top {
                        b
                    } else {
                        top
                    };
                    buf.cursor = Position::new(line, first_nonblank(buf.text.line(line)));
                    buf.desired_col = buf.cursor.col;
                }
            }
            return;
        }
        if rest.len() >= 2 && rest[0] == 's' && rest[1] == '/' {
            let body = copy_range(rest.as_slice(), 2, rest.len());
            assert(body@ =~= rest@.skip(2));
            let (first, to): (usize, usize) = match range {
                Some(r) => r,
                None => (cur, cur),
            };
            self.substitute(st, host, first, to, body.as_slice());
            return;
        }
        if range.is_some() {
            let msg = cat("E492: not an editor command: ", s.as_str());
            self.err(st, host, msg.as_str());
            return;
        }
        let (name, bang, arg) = parse_command(rest.as_slice());
        let cmd = find_command(name.as_str(), bang);
        self.run_command(st, vfs, host, cmd, arg.as_str(), s.as_str());
    }

    pub(crate) fn command_key(
        &mut self,
        st: &mut EditorState,
        vfs: &mut Vfs,
        host: &mut HostHandle,
        key: Key,
    )
        requires
            world(*old(self), *old(st), *old(vfs), *old(host)).wf(),
        ensures
            same_replay(old(self)@, final(self)@),
            world(*final(self), *final(st), *final(vfs), *final(host)).sane(),
            world(*final(self), *final(st), *final(vfs), *final(host)) == world(
                *old(self),
                *old(st),
                *old(vfs),
                *old(host),
            ).command_keyed(key),
    {
        if key == Key::Esc || key == Key::Ctrl('c') {
            self.clear_cmdline();
            self.set_mode(host, Mode::Normal);
        } else if key == Key::Enter {
            let line = self.cmdline.clone();
            self.clear_cmdline();
            self.set_mode(host, Mode::Normal);
            self.execute_cmd(st, vfs, host, line.as_str());
        } else if key == Key::Backspace && self.cmdline.as_str().unicode_len() == 0 {
            self.set_mode(host, Mode::Normal);
        } else {
            self.edit_cmdline(key);
        }
    }
}

} // verus!
