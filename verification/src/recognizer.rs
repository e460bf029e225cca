//! The recogniser of escape sequences: a state machine that takes the byte stream one byte
//! at a time and says which event, if any, each byte completes. Its state is carried from
//! one call to the next, so a sequence may be cut anywhere between two calls.

use vstd::prelude::*;
use vstd::utf8::is_scalar;
use crate::event::Event;
use crate::grid::EventView;

verus! {

/// `char::from_u32` of the standard library: the character with the given code, where the
/// code is a Unicode scalar value, and nothing for any other number.
pub assume_specification[ char::from_u32 ](code: u32) -> (ch: Option<char>)
    ensures
        ch == (if is_scalar(code) {
            Some(code as char)
        } else {
            None::<char>
        }),
;

/// Where the recogniser stands in the grammar of the byte stream.
#[derive(Clone, Copy, Debug, PartialEq, Eq, Structural)]
pub enum Phase {
    /// Between sequences: bytes are text or control bytes.
    Ground,
    /// An escape byte has been seen.
    Escape,
    /// An escape byte and at least one intermediate byte have been seen.
    EscapeIntermediate,
    /// Inside a control sequence: parameters are being collected.
    Csi,
    /// Inside a string that runs to its terminator and is not shown.
    Text,
    /// Inside a character of more than one byte.
    Utf8,
}

/// The most parameters that a control sequence keeps; those beyond are dropped.
pub const MAX_PARAMS: usize = 32;

/// The recogniser's state, as the model sees it.
pub struct ParserView {
    pub phase: Phase,
    /// The parameters of the control sequence that are complete.
    pub params: Seq<u16>,
    /// The parameter that is being read.
    pub current: u16,
    /// The bits of a character of several bytes that have arrived.
    pub pending: u32,
    /// The number of bytes of that character that are still to come.
    pub remaining: u8,
    /// The least code that a character of that many bytes may have.
    pub floor: u32,
}

/// The state at the start of a phase, with nothing collected.
pub open spec fn resting(phase: Phase) -> ParserView {
    ParserView { phase, params: Seq::empty(), current: 0, pending: 0, remaining: 0, floor: 0 }
}

/// The state inside a character of several bytes.
pub open spec fn decoding(pending: u32, remaining: u8, floor: u32) -> ParserView {
    ParserView { phase: Phase::Utf8, params: Seq::empty(), current: 0, pending, remaining, floor }
}

/// The parameter that is being read, after one more decimal digit; it stops at 65535.
pub open spec fn with_digit(current: u16, digit: u8) -> u16 {
    if current * 10 + digit > 0xffff {
        0xffffu16
    } else {
        (current * 10 + digit) as u16
    }
}

/// The parameters with one more at their end, unless the list is full.
pub open spec fn with_param(params: Seq<u16>, param: u16) -> Seq<u16> {
    if params.len() < MAX_PARAMS {
        params.push(param)
    } else {
        params
    }
}

/// Whether the code is one that a character of several bytes may stand for, given the least
/// code that its length allows.
pub open spec fn acceptable(code: u32, floor: u32) -> bool {
    floor <= code && is_scalar(code)
}

/// A byte between sequences: an escape byte opens a sequence, a control byte is carried
/// out, a printable byte is shown, the first byte of a longer character starts it, and any
/// other byte is dropped.
pub open spec fn step_ground(byte: u8) -> (ParserView, Option<EventView>) {
    if byte == 0x1b {
        (resting(Phase::Escape), None)
    } else if byte < 0x20 {
        (resting(Phase::Ground), Some(EventView::Execute(byte)))
    } else if byte < 0x7f {
        (resting(Phase::Ground), Some(EventView::Print(byte as char)))
    } else if 0xc2 <= byte <= 0xdf {
        (decoding((byte - 0xc0) as u32, 1, 0x80), None)
    } else if 0xe0 <= byte <= 0xef {
        (decoding((byte - 0xe0) as u32, 2, 0x800), None)
    } else if 0xf0 <= byte <= 0xf4 {
        (decoding((byte - 0xf0) as u32, 3, 0x10000), None)
    } else {
        (resting(Phase::Ground), None)
    }
}

/// A control byte inside a sequence: an escape byte starts a new sequence, a cancel byte
/// ends the sequence, and any other is carried out while the sequence goes on.
pub open spec fn step_control(state: ParserView, byte: u8) -> (ParserView, Option<EventView>) {
    if byte == 0x1b {
        (resting(Phase::Escape), None)
    } else if byte == 0x18 || byte == 0x1a {
        (resting(Phase::Ground), None)
    } else {
        (state, Some(EventView::Execute(byte)))
    }
}

/// A byte after an escape byte.
pub open spec fn step_escape(state: ParserView, byte: u8) -> (ParserView, Option<EventView>) {
    if byte < 0x20 {
        step_control(state, byte)
    } else if byte == 0x5b {
        (resting(Phase::Csi), None)
    } else if byte == 0x5d || byte == 0x50 || byte == 0x58 || byte == 0x5e || byte == 0x5f {
        (resting(Phase::Text), None)
    } else if byte < 0x30 {
        (resting(Phase::EscapeIntermediate), None)
    } else {
        (resting(Phase::Ground), None)
    }
}

/// A byte after an escape byte and its intermediate bytes.
pub open spec fn step_escape_intermediate(state: ParserView, byte: u8) -> (
    ParserView,
    Option<EventView>,
) {
    if byte < 0x20 {
        step_control(state, byte)
    } else if byte < 0x30 {
        (state, None)
    } else {
        (resting(Phase::Ground), None)
    }
}

/// A byte inside a control sequence: a digit extends the parameter being read, a separator
/// completes it, a final byte completes the sequence, whose event holds the parameters and
/// that byte, and a byte that is not of the stream's seven bits ends the sequence unseen.
pub open spec fn step_csi(state: ParserView, byte: u8) -> (ParserView, Option<EventView>) {
    if byte < 0x20 {
        step_control(state, byte)
    } else if 0x30 <= byte <= 0x39 {
        (ParserView { current: with_digit(state.current, (byte - 0x30) as u8), ..state }, None)
    } else if byte == 0x3a || byte == 0x3b {
        (
            ParserView {
                params: with_param(state.params, state.current),
                current: 0,
                ..state
            },
            None,
        )
    } else if byte < 0x40 || byte == 0x7f {
        (state, None)
    } else if byte < 0x7f {
        (
            resting(Phase::Ground),
            Some(EventView::Csi(with_param(state.params, state.current), byte as char)),
        )
    } else {
        (resting(Phase::Ground), None)
    }
}

/// A byte inside a string: the bell ends it, an escape byte starts a new sequence, a cancel
/// byte ends it, and every other byte is passed over.
pub open spec fn step_text(state: ParserView, byte: u8) -> (ParserView, Option<EventView>) {
    if byte == 0x1b {
        (resting(Phase::Escape), None)
    } else if byte == 0x07 || byte == 0x18 || byte == 0x1a {
        (resting(Phase::Ground), None)
    } else {
        (state, None)
    }
}

/// A byte inside a character of several bytes: a continuation byte adds its six bits, and
/// the last one completes the character, which is shown where its code is acceptable and
/// dropped where it is not. Any other byte gives the character up and is taken as a byte
/// between sequences.
pub open spec fn step_utf8(state: ParserView, byte: u8) -> (ParserView, Option<EventView>) {
    if 0x80 <= byte <= 0xbf {
        let code = (state.pending * 64 + (byte - 0x80)) as u32;
        if state.remaining > 1 {
            (decoding(code, (state.remaining - 1) as u8, state.floor), None)
        } else if acceptable(code, state.floor) {
            (resting(Phase::Ground), Some(EventView::Print(code as char)))
        } else {
            (resting(Phase::Ground), None)
        }
    } else {
        step_ground(byte)
    }
}

/// The state after a byte, and the event that the byte completes, if any.
pub open spec fn step(state: ParserView, byte: u8) -> (ParserView, Option<EventView>) {
    match state.phase {
        Phase::Ground => step_ground(byte),
        Phase::Escape => step_escape(state, byte),
        Phase::EscapeIntermediate => step_escape_intermediate(state, byte),
        Phase::Csi => step_csi(state, byte),
        Phase::Text => step_text(state, byte),
        Phase::Utf8 => step_utf8(state, byte),
    }
}

impl ParserView {
    /// The parameter list is within its limit, and the bits of a character under way leave
    /// room for those still to come.
    pub open spec fn wf(self) -> bool {
        &&& self.params.len() <= MAX_PARAMS
        &&& self.phase == Phase::Utf8 ==> {
            &&& 1 <= self.remaining <= 3
            &&& self.remaining == 1 ==> self.pending < 0x8000
            &&& self.remaining == 2 ==> self.pending < 0x200
            &&& self.remaining == 3 ==> self.pending < 8
        }
    }
}

/// A step keeps a well-formed state well-formed.
pub proof fn lemma_step_wf(state: ParserView, byte: u8)
    requires
        state.wf(),
    ensures
        step(state, byte).0.wf(),
{
}

/// The recogniser's state.
pub struct ParserState {
    phase: Phase,
    params: Vec<u16>,
    current: u16,
    pending: u32,
    remaining: u8,
    floor: u32,
}

impl View for ParserState {
    type V = ParserView;

    closed spec fn view(&self) -> ParserView {
        ParserView {
            phase: self.phase,
            params: self.params@,
            current: self.current,
            pending: self.pending,
            remaining: self.remaining,
            floor: self.floor,
        }
    }
}

impl ParserState {
    /// A recogniser between sequences.
    pub fn new() -> (state: ParserState)
        ensures
            state@ == resting(Phase::Ground),
    {
        ParserState {
            phase: Phase::Ground,
            params: Vec::new(),
            current: 0,
            pending: 0,
            remaining: 0,
            floor: 0,
        }
    }

    /// The phase the recogniser is in.
    pub fn phase(&self) -> (phase: Phase)
        ensures
            phase == self@.phase,
    {
        self.phase
    }

    /// Puts the recogniser at the start of a phase, with nothing collected.
    fn rest(&mut self, phase: Phase)
        ensures
            final(self)@ == resting(phase),
    {
        self.phase = phase;
        self.params.clear();
        self.current = 0;
        self.pending = 0;
        self.remaining = 0;
        self.floor = 0;
    }

    /// Puts the recogniser inside a character of several bytes.
    fn decode(&mut self, pending: u32, remaining: u8, floor: u32)
        ensures
            final(self)@ == decoding(pending, remaining, floor),
    {
        self.phase = Phase::Utf8;
        self.params.clear();
        self.current = 0;
        self.pending = pending;
        self.remaining = remaining;
        self.floor = floor;
    }

    /// The parameters collected so far with the one being read at their end, the list's
    /// limit kept.
    fn collected(&self) -> (params: Vec<u16>)
        ensures
            params@ == with_param(self@.params, self@.current),
    {
        let mut params: Vec<u16> = self.params.clone();
        if params.len() < MAX_PARAMS {
            params.push(self.current);
        }
        params
    }

    /// Takes a byte between sequences.
    fn advance_ground(&mut self, byte: u8) -> (event: Option<Event>)
        ensures
            final(self)@ == step_ground(byte).0,
            event_view(event) == step_ground(byte).1,
    {
        if byte == 0x1b {
            self.rest(Phase::Escape);
            None
        } else if byte < 0x20 {
            self.rest(Phase::Ground);
            Some(Event::Execute(byte))
        } else if byte < 0x7f {
            self.rest(Phase::Ground);
            Some(Event::Print(byte as char))
        } else if 0xc2 <= byte && byte <= 0xdf {
            self.decode((byte - 0xc0) as u32, 1, 0x80);
            None
        } else if 0xe0 <= byte && byte <= 0xef {
            self.decode((byte - 0xe0) as u32, 2, 0x800);
            None
        } else if 0xf0 <= byte && byte <= 0xf4 {
            self.decode((byte - 0xf0) as u32, 3, 0x10000);
            None
        } else {
            self.rest(Phase::Ground);
            None
        }
    }

    /// Takes a control byte inside a sequence.
    fn advance_control(&mut self, byte: u8) -> (event: Option<Event>)
        ensures
            final(self)@ == step_control(old(self)@, byte).0,
            event_view(event) == step_control(old(self)@, byte).1,
    {
        if byte == 0x1b {
            self.rest(Phase::Escape);
            None
        } else if byte == 0x18 || byte == 0x1a {
            self.rest(Phase::Ground);
            None
        } else {
            Some(Event::Execute(byte))
        }
    }

    /// Takes a byte after an escape byte.
    fn advance_escape(&mut self, byte: u8) -> (event: Option<Event>)
        ensures
            final(self)@ == step_escape(old(self)@, byte).0,
            event_view(event) == step_escape(old(self)@, byte).1,
    {
        if byte < 0x20 {
            self.advance_control(byte)
        } else if byte == 0x5b {
            self.rest(Phase::Csi);
            None
        } else if byte == 0x5d || byte == 0x50 || byte == 0x58 || byte == 0x5e || byte == 0x5f {
            self.rest(Phase::Text);
            None
        } else if byte < 0x30 {
            self.rest(Phase::EscapeIntermediate);
            None
        } else {
            self.rest(Phase::Ground);
            None
        }
    }

    /// Takes a byte after an escape byte and its intermediate bytes.
    fn advance_escape_intermediate(&mut self, byte: u8) -> (event: Option<Event>)
        ensures
            final(self)@ == step_escape_intermediate(old(self)@, byte).0,
            event_view(event) == step_escape_intermediate(old(self)@, byte).1,
    {
        if byte < 0x20 {
            self.advance_control(byte)
        } else if byte < 0x30 {
            None
        } else {
            self.rest(Phase::Ground);
            None
        }
    }

    /// Takes a byte inside a control sequence.
    fn advance_csi(&mut self, byte: u8) -> (event: Option<Event>)
        requires
            old(self)@.wf(),
        ensures
            final(self)@ == step_csi(old(self)@, byte).0,
            event_view(event) == step_csi(old(self)@, byte).1,
    {
        if byte < 0x20 {
            self.advance_control(byte)
        } else if 0x30 <= byte && byte <= 0x39 {
            let digit: u16 = (byte - 0x30) as u16;
            self.current = if self.current > (0xffff - digit) / 10 {
                0xffff
            } else {
                self.current * 10 + digit
            };
            None
        } else if byte == 0x3a || byte == 0x3b {
            if self.params.len() < MAX_PARAMS {
                self.params.push(self.current);
            }
            self.current = 0;
            None
        } else if byte < 0x40 || byte == 0x7f {
            None
        } else if byte < 0x7f {
            let params = self.collected();
            self.rest(Phase::Ground);
            Some(Event::Csi(params, byte as char))
        } else {
            self.rest(Phase::Ground);
            None
        }
    }

    /// Takes a byte inside a string.
    fn advance_text(&mut self, byte: u8) -> (event: Option<Event>)
        ensures
            final(self)@ == step_text(old(self)@, byte).0,
            event_view(event) == step_text(old(self)@, byte).1,
    {
        if byte == 0x1b {
            self.rest(Phase::Escape);
        } else if byte == 0x07 || byte == 0x18 || byte == 0x1a {
            self.rest(Phase::Ground);
        }
        None
    }

    /// Takes a byte inside a character of several bytes.
    fn advance_utf8(&mut self, byte: u8) -> (event: Option<Event>)
        requires
            old(self)@.wf(),
            old(self)@.phase == Phase::Utf8,
        ensures
            final(self)@ == step_utf8(old(self)@, byte).0,
            event_view(event) == step_utf8(old(self)@, byte).1,
    {
        if 0x80 <= byte && byte <= 0xbf {
            let code: u32 = self.pending * 64 + (byte - 0x80) as u32;
            if self.remaining > 1 {
                let remaining: u8 = self.remaining - 1;
                let floor: u32 = self.floor;
                self.decode(code, remaining, floor);
                None
            } else {
                let floor: u32 = self.floor;
                self.rest(Phase::Ground);
                if floor <= code {
                    match char::from_u32(code) {
                        Some(ch) => Some(Event::Print(ch)),
                        None => None,
                    }
                } else {
                    None
                }
            }
        } else {
            self.advance_ground(byte)
        }
    }

    /// Takes one byte of the stream and returns the event that it completes, if any.
    pub fn advance(&mut self, byte: u8) -> (event: Option<Event>)
        requires
            old(self)@.wf(),
        ensures
            final(self)@.wf(),
            final(self)@ == step(old(self)@, byte).0,
            event_view(event) == step(old(self)@, byte).1,
    {
        match self.phase {
            Phase::Ground => self.advance_ground(byte),
            Phase::Escape => self.advance_escape(byte),
            Phase::EscapeIntermediate => self.advance_escape_intermediate(byte),
            Phase::Csi => self.advance_csi(byte),
            Phase::Text => self.advance_text(byte),
            Phase::Utf8 => self.advance_utf8(byte),
        }
    }
}

/// The model's event that stands for an event that may be missing.
pub open spec fn event_view(event: Option<Event>) -> Option<EventView> {
    match event {
        Some(e) => Some(e@),
        None => None,
    }
}

} // verus!
