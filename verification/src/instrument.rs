//! The instruments that a channel id selects.
use vstd::prelude::*;

verus! {

/// The instrument ids that exist, in order.
pub const INSTRUMENTS: [u16; 5] = [0, 1, 2, 3, 4];

/// The sound that an instrument makes.
#[derive(Debug, Clone, Copy, PartialEq, Eq, Structural)]
pub enum InstrumentKind {
    Silent,
    Sine,
    Square,
    Saw,
    Triangle,
}

/// The instrument of id `id`, or `None` where no instrument has that id.
pub open spec fn spec_instrument_kind(id: u16) -> Option<InstrumentKind> {
    if id == 0 {
        Some(InstrumentKind::Silent)
    } else if id == 1 {
        Some(InstrumentKind::Sine)
    } else if id == 2 {
        Some(InstrumentKind::Square)
    } else if id == 3 {
        Some(InstrumentKind::Saw)
    } else if id == 4 {
        Some(InstrumentKind::Triangle)
    } else {
        None
    }
}

/// The three-letter name shown for an instrument.
pub open spec fn spec_instrument_name(k: InstrumentKind) -> &'static str {
    match k {
        InstrumentKind::Silent => "---",
        InstrumentKind::Sine => "SIN",
        InstrumentKind::Square => "SQR",
        InstrumentKind::Saw => "SAW",
        InstrumentKind::Triangle => "TRI",
    }
}

/// The instrument of id `id`, or `None` where no instrument has that id.
pub fn instrument_kind(id: u16) -> (r: Option<InstrumentKind>)
    ensures
        r == spec_instrument_kind(id),
{
    match id {
        0 => Some(InstrumentKind::Silent),
        1 => Some(InstrumentKind::Sine),
        2 => Some(InstrumentKind::Square),
        3 => Some(InstrumentKind::Saw),
        4 => Some(InstrumentKind::Triangle),
        _ => None,
    }
}

impl InstrumentKind {
    /// The three-letter name shown for this instrument.
    pub fn name(&self) -> (r: &'static str)
        ensures
            r@ == spec_instrument_name(*self)@,
    {
        match self {
            InstrumentKind::Silent => "---",
            InstrumentKind::Sine => "SIN",
            InstrumentKind::Square => "SQR",
            InstrumentKind::Saw => "SAW",
            InstrumentKind::Triangle => "TRI",
        }
    }
}

/// Every id listed in `INSTRUMENTS` names an instrument, and no other id does.
pub proof fn lemma_instruments_listed(id: u16)
    ensures
        spec_instrument_kind(id) is Some <==> exists|i: int| 0 <= i < 5 && INSTRUMENTS@[i] == id,
{
    if id <= 4 {
        assert(INSTRUMENTS@[id as int] == id);
    }
}

} // verus!
