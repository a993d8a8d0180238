//! Received bytes as screen events, found by the sequence parser of `vte`.

use vstd::prelude::*;

use crate::terminal::vt::{events_of, params_of, VtEvent, VtEventV};

verus! {

/// A sequence parser in the middle of its input.
#[verifier::external_type_specification]
#[verifier::external_body]
pub struct ExParser<const N: usize>(vte::Parser<N>);

/// The params of a control sequence.
#[verifier::external_type_specification]
#[verifier::external_body]
pub struct ExParams(vte::Params);

/// What a params list holds: each param with its subparams.
pub uninterp spec fn params_held(p: vte::Params) -> Seq<Seq<u16>>;

/// What a parser has taken in since it was made.
pub uninterp spec fn bytes_taken(p: vte::Parser) -> Seq<u8>;

/// `vte::Parser::advance`: what one more byte brings, after those in `taken`.
pub uninterp spec fn events_found(taken: Seq<u8>, byte: u8) -> Seq<VtEventV>;

/// `vte::Params::iter`: each param with its subparams.
#[verifier::external_body]
fn list_params(p: &vte::Params) -> (r: Vec<Vec<u16>>)
    ensures
        params_of(r@) == params_held(*p),
{
    p.iter().map(|sub| sub.to_vec()).collect()
}

/// Notes down what the parser reports.
pub struct Notes {
    pub events: Vec<VtEvent>,
}

impl vte::Perform for Notes {
    fn print(&mut self, c: char)
        ensures
            events_of(final(self).events@) == events_of(old(self).events@).push(
                VtEventV::Print(c),
            ),
    {
        self.events.push(VtEvent::Print(c));
    }

    fn execute(&mut self, byte: u8)
        ensures
            events_of(final(self).events@) == events_of(old(self).events@).push(
                VtEventV::Execute(byte),
            ),
    {
        self.events.push(VtEvent::Execute(byte));
    }

    fn csi_dispatch(
        &mut self,
        params: &vte::Params,
        intermediates: &[u8],
        _ignore: bool,
        action: char,
    )
        ensures
            events_of(final(self).events@) == events_of(old(self).events@).push(
                VtEventV::Csi {
                    params: params_held(*params),
                    private: intermediates@.len() > 0 && intermediates@[0] == 0x3f,
                    action,
                },
            ),
    {
        self.events.push(
            VtEvent::Csi {
                params: list_params(params),
                private: intermediates.len() > 0 && intermediates[0] == 0x3f,
                action,
            },
        );
    }

    fn esc_dispatch(&mut self, _intermediates: &[u8], _ignore: bool, byte: u8)
        ensures
            events_of(final(self).events@) == events_of(old(self).events@).push(
                VtEventV::Esc(byte),
            ),
    {
        self.events.push(VtEvent::Esc(byte));
    }
}

/// `vte::Parser::new`: a parser that has taken in nothing.
#[verifier::external_body]
pub(crate) fn new_parser() -> (r: vte::Parser)
    ensures
        bytes_taken(r) == Seq::<u8>::empty(),
{
    vte::Parser::new()
}

/// `vte::Parser::advance`: takes in a byte, and reports what that completes, in order. It
/// depends on the byte and on those taken in before alone.
#[verifier::external_body]
pub(crate) fn take_byte(parser: &mut vte::Parser, byte: u8) -> (r: Vec<VtEvent>)
    ensures
        events_of(r@) == events_found(bytes_taken(*old(parser)), byte),
        bytes_taken(*final(parser)) == bytes_taken(*old(parser)).push(byte),
{
    let mut notes = Notes { events: Vec::new() };
    parser.advance(&mut notes, &[byte]);
    notes.events
}

} // verus!
