//! The recogniser of the `vte` crate, as the library uses it: one byte goes in, and the
//! events that the byte completes come out as plain values.

use vstd::prelude::*;
use crate::event::{views_of, Event};
use crate::grid::EventView;

verus! {

/// The parser of the `vte` crate: a state machine over the bytes it has been given.
#[verifier::external_type_specification]
#[verifier::external_body]
pub struct ExParser<const OSC_RAW_BUF_SIZE: usize>(vte::Parser<OSC_RAW_BUF_SIZE>);

/// The parameter list that the `vte` parser hands over with a control sequence.
#[verifier::external_type_specification]
#[verifier::external_body]
pub struct ExParams(vte::Params);

/// The bytes that a parser has been given since it was made.
pub uninterp spec fn consumed(parser: vte::Parser<1024>) -> Seq<u8>;

/// The events that a parser reports for a byte, after the bytes it was given before.
pub uninterp spec fn recognized(consumed: Seq<u8>, byte: u8) -> Seq<EventView>;

/// The events that a parser reports for a run of bytes, after the bytes it was given before.
pub open spec fn recognized_all(before: Seq<u8>, bytes: Seq<u8>) -> Seq<EventView>
    decreases bytes.len(),
{
    if bytes.len() == 0 {
        Seq::empty()
    } else {
        recognized_all(before, bytes.drop_last()) + recognized(
            before + bytes.drop_last(),
            bytes.last(),
        )
    }
}

/// Gathers what the parser reports, in the order in which it reports it.
pub struct Recorder {
    pub events: Vec<Event>,
}

/// The numbers that a parameter list holds: every parameter and subparameter, in order.
pub uninterp spec fn held(params: vte::Params) -> Seq<u16>;

/// `Params::iter` of the `vte` crate, flattened: the numbers that the list holds, every
/// parameter and subparameter in order.
#[verifier::external_body]
fn flatten(params: &vte::Params) -> (values: Vec<u16>)
    ensures
        values@ == held(*params),
{
    let mut values: Vec<u16> = Vec::new();
    for group in params.iter() {
        values.extend_from_slice(group);
    }
    values
}

impl vte::Perform for Recorder {
    fn print(&mut self, c: char)
        ensures
            final(self).events@ == old(self).events@.push(Event::Print(c)),
    {
        self.events.push(Event::Print(c));
    }

    fn execute(&mut self, byte: u8)
        ensures
            final(self).events@ == old(self).events@.push(Event::Execute(byte)),
    {
        self.events.push(Event::Execute(byte));
    }

    fn csi_dispatch(
        &mut self,
        params: &vte::Params,
        _intermediates: &[u8],
        _ignore: bool,
        action: char,
    )
        ensures
            views_of(final(self).events@) == views_of(old(self).events@).push(
                EventView::Csi(held(*params), action),
            ),
    {
        self.events.push(Event::Csi(flatten(params), action));
        assert(views_of(self.events@) =~= views_of(old(self).events@).push(
            EventView::Csi(held(*params), action),
        ));
    }
}

/// `Parser::new` of the `vte` crate: a parser that has been given no byte yet.
#[verifier::external_body]
pub(crate) fn new_parser() -> (parser: vte::Parser<1024>)
    ensures
        consumed(parser) == Seq::<u8>::empty(),
{
    vte::Parser::new()
}

/// `Parser::advance` of the `vte` crate, with a recorder as its performer: the parser takes
/// the byte, and what it reports for it comes back as events. The parser is a state
/// machine without any other input, so the events depend on the bytes given so far and on
/// this byte alone.
#[verifier::external_body]
pub(crate) fn advance(parser: &mut vte::Parser<1024>, byte: u8) -> (events: Vec<Event>)
    ensures
        consumed(*final(parser)) == consumed(*old(parser)).push(byte),
        views_of(events@) == recognized(consumed(*old(parser)), byte),
{
    let mut recorder = Recorder { events: Vec::new() };
    parser.advance(&mut recorder, byte);
    recorder.events
}

} // verus!
