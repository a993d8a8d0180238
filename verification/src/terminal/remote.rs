//! A remote session: keyboard events as the bytes a remote terminal expects, and the session's
//! phases.

use vstd::prelude::*;

use crate::keyboard::{is_typed, typed, KeyName};
use crate::terminal::vt::{at_least_one, Vt, VtV};
use crate::text::{char_count, to_chars};

verus! {

/// The bytes a key press sends: control bytes for Ctrl with a letter, escape sequences for
/// navigation keys; other keys arrive as text.
pub open spec fn key_code(key: KeyName, ctrl: bool) -> Seq<u8> {
    match key {
        KeyName::Letter(c) => if ctrl && 'a' <= c && c <= 'z' {
            seq![(c as u32 - 'a' as u32 + 1) as u8]
        } else {
            Seq::empty()
        },
        KeyName::Enter => seq![0x0du8],
        KeyName::Backspace => seq![0x7fu8],
        KeyName::Tab => seq![0x09u8],
        KeyName::Escape => seq![0x1bu8],
        KeyName::ArrowUp => seq![0x1bu8, 0x5b, 0x41],
        KeyName::ArrowDown => seq![0x1bu8, 0x5b, 0x42],
        KeyName::ArrowRight => seq![0x1bu8, 0x5b, 0x43],
        KeyName::ArrowLeft => seq![0x1bu8, 0x5b, 0x44],
        KeyName::Home => seq![0x1bu8, 0x5b, 0x48],
        KeyName::End => seq![0x1bu8, 0x5b, 0x46],
        KeyName::Delete => seq![0x1bu8, 0x5b, 0x33, 0x7e],
        KeyName::PageUp => seq![0x1bu8, 0x5b, 0x35, 0x7e],
        KeyName::PageDown => seq![0x1bu8, 0x5b, 0x36, 0x7e],
        _ => Seq::empty(),
    }
}

/// Append the bytes a key press sends.
pub fn push_key(out: &mut Vec<u8>, key: KeyName, ctrl: bool)
    ensures
        final(out)@ == old(out)@ + key_code(key, ctrl),
{
    let mut code: Vec<u8> = match key {
        KeyName::Letter(c) => if ctrl && 'a' <= c && c <= 'z' {
            let byte: u8 = (c as u32 - 'a' as u32 + 1) as u8;
            vec![byte]
        } else {
            Vec::new()
        },
        KeyName::Enter => vec![0x0d],
        KeyName::Backspace => vec![0x7f],
        KeyName::Tab => vec![0x09],
        KeyName::Escape => vec![0x1b],
        KeyName::ArrowUp => vec![0x1b, 0x5b, 0x41],
        KeyName::ArrowDown => vec![0x1b, 0x5b, 0x42],
        KeyName::ArrowRight => vec![0x1b, 0x5b, 0x43],
        KeyName::ArrowLeft => vec![0x1b, 0x5b, 0x44],
        KeyName::Home => vec![0x1b, 0x5b, 0x48],
        KeyName::End => vec![0x1b, 0x5b, 0x46],
        KeyName::Delete => vec![0x1b, 0x5b, 0x33, 0x7e],
        KeyName::PageUp => vec![0x1b, 0x5b, 0x35, 0x7e],
        KeyName::PageDown => vec![0x1b, 0x5b, 0x36, 0x7e],
        _ => Vec::new(),
    };
    assert(code@ =~= key_code(key, ctrl));
    out.append(&mut code);
}

/// The chars of a text that can be typed.
pub open spec fn typed_of(s: Seq<char>) -> Seq<char>
    decreases s.len(),
{
    if s.len() == 0 {
        Seq::empty()
    } else if is_typed(s.last()) {
        typed_of(s.drop_last()).push(s.last())
    } else {
        typed_of(s.drop_last())
    }
}

/// The bytes a text event sends: its chars but for control characters, in UTF-8.
pub fn text_bytes(text: &str) -> (r: Vec<u8>)
    ensures
        r@ == vstd::utf8::encode_utf8(typed_of(text@)),
{
    let v = to_chars(text);
    let mut s = String::new();
    let mut i: usize = 0;
    proof {
        assert(text@.take(0) =~= Seq::empty());
        assert(s@ =~= typed_of(text@.take(0)));
    }
    while i < v.len()
        invariant
            v@ == text@,
            i <= v@.len(),
            s@ == typed_of(text@.take(i as int)),
        decreases v@.len() - i,
    {
        if typed(v[i]) {
            s.push(v[i]);
        }
        proof {
            assert(text@.take(i + 1).drop_last() =~= text@.take(i as int));
            assert(text@.take(i + 1).last() == text@[i as int]);
        }
        i = i + 1;
    }
    assert(text@.take(i as int) =~= text@);
    s.as_str().as_bytes_vec()
}

/// A keyboard event.
pub enum InputEvent {
    Text(String),
    /// A key press; `ctrl` is Ctrl or Cmd.
    Key { key: KeyName, ctrl: bool },
}

pub open spec fn event_code(ev: InputEvent) -> Seq<u8> {
    match ev {
        InputEvent::Text(t) => vstd::utf8::encode_utf8(typed_of(t@)),
        InputEvent::Key { key, ctrl } => key_code(key, ctrl),
    }
}

/// The bytes of events `[0, n)`, in order.
pub open spec fn input_code(evs: Seq<InputEvent>, n: int) -> Seq<u8>
    decreases n,
{
    if n <= 0 {
        Seq::empty()
    } else {
        input_code(evs, n - 1) + event_code(evs[n - 1])
    }
}

/// Translate keyboard events into the bytes a remote terminal expects. Printable characters
/// arrive as text; control and navigation keys map to their sequences.
pub fn input_bytes(evs: &Vec<InputEvent>) -> (r: Vec<u8>)
    ensures
        r@ == input_code(evs@, evs@.len() as int),
{
    let mut out: Vec<u8> = Vec::new();
    let mut i: usize = 0;
    assert(out@ =~= input_code(evs@, 0));
    while i < evs.len()
        invariant
            i <= evs@.len(),
            out@ == input_code(evs@, i as int),
        decreases evs@.len() - i,
    {
        match &evs[i] {
            InputEvent::Text(t) => {
                let mut bytes = text_bytes(t.as_str());
                out.append(&mut bytes);
            },
            InputEvent::Key { key, ctrl } => push_key(&mut out, *key, *ctrl),
        }
        i = i + 1;
    }
    out
}

/// Where a session stands.
pub enum Phase {
    Connecting,
    Ready,
    Ended(String),
}

/// Model of a phase.
pub enum PhaseV {
    Connecting,
    Ready,
    Ended(Seq<char>),
}

impl View for Phase {
    type V = PhaseV;

    open spec fn view(&self) -> PhaseV {
        match *self {
            Phase::Connecting => PhaseV::Connecting,
            Phase::Ready => PhaseV::Ready,
            Phase::Ended(s) => PhaseV::Ended(s@),
        }
    }
}

/// The session as the host reports it.
pub enum SshState {
    Connecting,
    Ready,
    Closed(String),
    Error(String),
}

/// What became of asking the host.
pub enum PollReply {
    /// The call did not go through.
    Failed,
    /// The reply could not be read.
    Unreadable,
    /// What arrived, and the session's state.
    Update { data: Vec<u8>, state: SshState },
}

/// The phase a state means; a connection closed without a word says so.
pub open spec fn phase_of(state: SshState) -> PhaseV {
    match state {
        SshState::Connecting => PhaseV::Connecting,
        SshState::Ready => PhaseV::Ready,
        SshState::Closed(m) => PhaseV::Ended(
            if m@.len() == 0 {
                "connection closed"@
            } else {
                m@
            },
        ),
        SshState::Error(e) => PhaseV::Ended(e@),
    }
}

pub struct SshClient {
    pub id: u64,
    pub phase: Phase,
    pub vt: Vt,
    pub user: String,
    pub host: String,
    pub grid: (u16, u16),
}

/// Two numbers of sixteen bits count no more cells than a machine word holds.
proof fn lemma_size_fits(cols: u16, rows: u16)
    ensures
        at_least_one(cols as int) * at_least_one(rows as int) <= usize::MAX,
{
    let (c, r) = (at_least_one(cols as int), at_least_one(rows as int));
    assert(c * r <= 65535 * 65535) by (nonlinear_arith)
        requires
            1 <= c <= 65535,
            1 <= r <= 65535,
    ;
}

impl SshClient {
    /// A session just opened, by the number the host gave it; else why there is none. `rows` is
    /// the height of the remote terminal (already minus any local chrome).
    pub fn connect(
        reply: Result<Option<u64>, String>,
        user: &str,
        host: &str,
        cols: u16,
        rows: u16,
    ) -> (r: Result<Self, String>)
        ensures
            match reply {
                Ok(Some(id)) => r matches Ok(c) && c.opened(id, user@, host@, cols, rows),
                Ok(None) => r matches Err(e) && e@ == "host returned a bad session id"@,
                Err(e) => r == Result::<SshClient, String>::Err(e),
            },
    {
        proof {
            lemma_size_fits(cols, rows);
        }
        match reply {
            Ok(Some(id)) => Ok(
                SshClient {
                    id,
                    phase: Phase::Connecting,
                    vt: Vt::new(cols as usize, rows as usize),
                    user: user.to_string(),
                    host: host.to_string(),
                    grid: (cols, rows),
                },
            ),
            Ok(None) => Err("host returned a bad session id".to_string()),
            Err(e) => Err(e),
        }
    }

    /// A session just opened.
    pub open spec fn opened(
        self,
        id: u64,
        user: Seq<char>,
        host: Seq<char>,
        cols: u16,
        rows: u16,
    ) -> bool {
        &&& self.id == id
        &&& self.phase@ == PhaseV::Connecting
        &&& self.vt@ == VtV::fresh(cols as int, rows as int)
        &&& self.vt@.screen.wf()
        &&& self.user@ == user
        &&& self.host@ == host
        &&& self.grid == (cols, rows)
    }

    /// Take the host's reply; a session that has ended stays as it is.
    pub fn poll(&mut self, reply: PollReply)
        requires
            old(self).vt@.screen.wf(),
        ensures
            final(self).vt@.screen.wf(),
            final(self).id == old(self).id,
            final(self).user == old(self).user,
            final(self).host == old(self).host,
            final(self).grid == old(self).grid,
            old(self).phase@ is Ended ==> final(self).phase@ == old(self).phase@
                && final(self).vt@ == old(self).vt@,
            !(old(self).phase@ is Ended) ==> match reply {
                PollReply::Failed => final(self).phase@ == PhaseV::Ended("poll failed"@)
                    && final(self).vt@ == old(self).vt@,
                PollReply::Unreadable => final(self).phase@ == PhaseV::Ended(
                    "bad poll response"@,
                ) && final(self).vt@ == old(self).vt@,
                PollReply::Update { data, state } => final(self).phase@ == phase_of(state)
                    && final(self).vt@ == old(self).vt@.fed(data@),
            },
    {
        if let Phase::Ended(_) = &self.phase {
            return ;
        }
        match reply {
            PollReply::Failed => {
                self.phase = Phase::Ended("poll failed".to_string());
            },
            PollReply::Unreadable => {
                self.phase = Phase::Ended("bad poll response".to_string());
            },
            PollReply::Update { data, state } => {
                self.vt.feed(data.as_slice());
                self.phase = match state {
                    SshState::Connecting => Phase::Connecting,
                    SshState::Ready => Phase::Ready,
                    SshState::Closed(m) => {
                        if char_count(m.as_str()) == 0 {
                            Phase::Ended("connection closed".to_string())
                        } else {
                            Phase::Ended(m)
                        }
                    },
                    SshState::Error(e) => Phase::Ended(e),
                };
            },
        }
    }

    /// Give the screen another size; true when the host is to be told.
    pub fn resize(&mut self, cols: u16, rows: u16) -> (r: bool)
        requires
            old(self).vt@.screen.wf(),
        ensures
            r == ((cols, rows) != old(self).grid),
            final(self).grid == (cols, rows),
            final(self).vt@ == old(self).vt@.resized(cols as int, rows as int),
            final(self).vt@.screen.wf(),
            final(self).phase == old(self).phase,
            final(self).id == old(self).id,
            final(self).user == old(self).user,
            final(self).host == old(self).host,
    {
        proof {
            lemma_size_fits(cols, rows);
        }
        self.vt.resize(cols as usize, rows as usize);
        let (c, r) = self.grid;
        if c != cols || r != rows {
            self.grid = (cols, rows);
            true
        } else {
            false
        }
    }
}

} // verus!
