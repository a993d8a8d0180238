//! Requests to the device that hosts the tools. The library queues them; the surrounding
//! application carries them out.

use vstd::prelude::*;

verus! {

/// Why a call to the host did not go through.
#[derive(Debug, Clone, PartialEq, Eq)]
pub enum HostCallError {
    Failed(String),
}

/// One request to the host.
#[derive(Debug, Clone, PartialEq, Eq)]
pub enum HostCall {
    /// Play a haptic pulse of this style.
    Haptic(u8),
    /// Store `value` under `key` in the state store.
    StateSet { key: String, value: Vec<u8> },
}

/// Model of a request.
pub enum CallV {
    Haptic(u8),
    StateSet { key: Seq<char>, value: Seq<u8> },
}

impl View for HostCall {
    type V = CallV;

    open spec fn view(&self) -> CallV {
        match *self {
            HostCall::Haptic(style) => CallV::Haptic(style),
            HostCall::StateSet { key, value } => CallV::StateSet { key: key@, value: value@ },
        }
    }
}

/// Handle on the host: the requests made through it, oldest first.
pub struct HostHandle {
    pub calls: Vec<HostCall>,
}

pub open spec fn calls_of(s: Seq<HostCall>) -> Seq<CallV> {
    Seq::new(s.len(), |i: int| s[i]@)
}

impl View for HostHandle {
    type V = Seq<CallV>;

    open spec fn view(&self) -> Seq<CallV> {
        calls_of(self.calls@)
    }
}

impl HostHandle {
    pub fn new() -> (r: Self)
        ensures
            r@ == Seq::<CallV>::empty(),
    {
        let r = HostHandle { calls: Vec::new() };
        assert(r@ =~= Seq::<CallV>::empty());
        r
    }

    /// Ask for a haptic pulse.
    pub fn haptic(&mut self, style: u8)
        ensures
            final(self)@ == old(self)@.push(CallV::Haptic(style)),
    {
        self.calls.push(HostCall::Haptic(style));
        assert(self@ =~= old(self)@.push(CallV::Haptic(style)));
    }

    /// Ask to store bytes in the state store.
    pub fn state_set(&mut self, key: &str, value: Vec<u8>)
        ensures
            final(self)@ == old(self)@.push(CallV::StateSet { key: key@, value: value@ }),
    {
        self.calls.push(HostCall::StateSet { key: key.to_string(), value });
        assert(self@ =~= old(self)@.push(CallV::StateSet { key: key@, value: value@ }));
    }

    /// Hand out the requests made so far and start over.
    pub fn take(&mut self) -> (r: Vec<HostCall>)
        ensures
            calls_of(r@) == old(self)@,
            final(self)@ == Seq::<CallV>::empty(),
    {
        let mut out: Vec<HostCall> = Vec::new();
        std::mem::swap(&mut self.calls, &mut out);
        assert(self@ =~= Seq::<CallV>::empty());
        out
    }
}

} // verus!
