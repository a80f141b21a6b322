//! How the gauge of one character looks, decided from what it reads. Drawing
//! it is the host's part.

use vstd::prelude::*;
use crate::cooldown::{CoolDown, Ratio};

verus! {

/// The angle of a full turn. It sets the unit in which angles are counted.
pub const FULL_TURN: u32 = 365;

/// The angle at which every ring starts.
pub const ARC_START: u32 = 90;


/// The number of points that a ring is drawn through.
pub const ARC_SAMPLES: u32 = 50;

/// What a gauge shows of one character: the milliseconds until it is ready,
/// and the part of its cooldown that they are.
#[derive(Clone, Copy, Debug)]
pub struct GaugeReading {
    pub ready_in: u128,
    pub ratio: Ratio,
}

impl GaugeReading {
    /// Whether `self` is what a gauge shows of `record`: its time until
    /// ready, over the length of its variant in force.
    pub open spec fn is_reading_of(&self, record: &CoolDown) -> bool {
        &&& self.ready_in == record.spec_ready_in()
        &&& self.ratio.wf()
        &&& self.ratio.spec_remaining() == record.spec_ready_in()
        &&& self.ratio.spec_total() == record.cooldown_ms()
    }

    /// What a gauge shows of `record`, as of its last activation or refresh.
    pub fn of(record: &CoolDown) -> (shown: GaugeReading)
        ensures
            shown.is_reading_of(record),
            shown.ready_in <= shown.ratio.spec_total(),
    {
        let ratio = record.completion_ratio();
        let ready_in = ratio.remaining();
        GaugeReading { ready_in, ratio }
    }
}

/// A colour, with alpha not multiplied in.
#[derive(Clone, Copy, Debug, PartialEq, Eq, Structural)]
pub struct Tint {
    pub r: u8,
    pub g: u8,
    pub b: u8,
    pub a: u8,
}

/// The look of one gauge.
#[derive(Clone, Copy, Debug)]
pub struct GaugeStyle {
    /// The tint of the icon.
    pub icon: Tint,
    /// The fill of the disc behind the icon.
    pub backdrop: Tint,
    /// The stroke of the ring.
    pub ring: Tint,
    /// The angle that the ring covers when it is whole: a full turn.
    pub span: u32,
    /// The part of `span` that the ring covers.
    pub fill: Ratio,
    /// The milliseconds that the label counts down from; none for an empty
    /// label.
    pub label_ms: Option<u128>,
}

/// One of the things that a gauge is made of.
#[derive(Clone, Copy, Debug, PartialEq, Eq, Structural)]
pub enum Layer {
    /// The tinted icon of the character.
    Icon,
    /// The translucent disc.
    Backdrop,
    /// The countdown label, in the centre.
    Label,
    /// The ring round the gauge.
    Ring,
}

/// The layers of a gauge in the order in which they are drawn: the icon, the
/// disc over it, the label, and the ring last.
pub fn draw_order() -> (layers: [Layer; 4])
    ensures
        layers@ == seq![Layer::Icon, Layer::Backdrop, Layer::Label, Layer::Ring],
{
    [Layer::Icon, Layer::Backdrop, Layer::Label, Layer::Ring]
}

/// The tint of the icon: full while ready, faint on cooldown.
pub open spec fn icon_tint(ready: bool) -> Tint {
    if ready {
        Tint { r: 255, g: 255, b: 255, a: 255 }
    } else {
        Tint { r: 255, g: 255, b: 255, a: 30 }
    }
}

/// The fill of the disc: a green cast while ready, a dark one on cooldown.
pub open spec fn backdrop_tint(ready: bool) -> Tint {
    if ready {
        Tint { r: 85, g: 255, b: 0, a: 10 }
    } else {
        Tint { r: 0, g: 0, b: 0, a: 50 }
    }
}

/// The stroke of the ring: green while ready, white on cooldown.
pub open spec fn ring_tint(ready: bool) -> Tint {
    if ready {
        Tint { r: 85, g: 255, b: 0, a: 30 }
    } else {
        Tint { r: 255, g: 255, b: 255, a: 30 }
    }
}

/// The look of a gauge that reads `reading`. A ready ability has a bright
/// icon, a whole ring and no label. One on cooldown has a faint icon, a
/// label that counts the time down, and a ring that covers as much of a
/// full turn as is left of the cooldown: right after an activation the ring
/// is closed.
pub fn gauge_style(reading: &GaugeReading) -> (style: GaugeStyle)
    ensures
        style.icon == icon_tint(reading.ready_in == 0),
        style.backdrop == backdrop_tint(reading.ready_in == 0),
        style.ring == ring_tint(reading.ready_in == 0),
        style.span == FULL_TURN,
        style.fill.wf(),
        reading.ready_in == 0 ==> {
            &&& style.fill.spec_remaining() == style.fill.spec_total()
            &&& style.label_ms is None
        },
        reading.ready_in != 0 ==> {
            &&& style.fill == reading.ratio
            &&& style.label_ms == Some(reading.ready_in)
        },
{
    proof {
        use_type_invariant(&reading.ratio);
    }
    if reading.ready_in == 0 {
        GaugeStyle {
            icon: Tint { r: 255, g: 255, b: 255, a: 255 },
            backdrop: Tint { r: 85, g: 255, b: 0, a: 10 },
            ring: Tint { r: 85, g: 255, b: 0, a: 30 },
            span: FULL_TURN,
            fill: Ratio::whole(),
            label_ms: None,
        }
    } else {
        GaugeStyle {
            icon: Tint { r: 255, g: 255, b: 255, a: 30 },
            backdrop: Tint { r: 0, g: 0, b: 0, a: 50 },
            ring: Tint { r: 255, g: 255, b: 255, a: 30 },
            span: FULL_TURN,
            fill: reading.ratio,
            label_ms: Some(reading.ready_in),
        }
    }
}

} // verus!
