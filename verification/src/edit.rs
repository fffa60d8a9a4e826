//! Writing to the parameters, one at a time, and what a frame of the editor is
//! handed to read.

use vstd::prelude::*;

use crate::host::ParamSetter;
use crate::limits::{BandFloat, ResonanceFloat};
use crate::params::{
    BandChannel, BandKind, BandParams, BandResMode, BandWrite, DynMode, EquzxParams, ResMode,
    ResQuality, ResonanceWrite, Slope, TransientState, Write, MAX_BANDS,
};
use crate::single::Single;

verus! {

/// What one frame of the editor can see and do. The parameters are as they were
/// when the frame began; what the frame says about them goes to the host.
#[derive(Debug)]
pub struct Frame {
    pub setter: ParamSetter,
    pub params: EquzxParams,
    pub transient: TransientState,
}

impl Frame {
    /// A frame that sees the parameters and has said nothing yet.
    pub fn new(params: EquzxParams, transient: TransientState) -> (r: Frame)
        ensures
            r.params == params,
            r.transient == transient,
            r.setter@ == Seq::<Write>::empty(),
            r.setter.orderly(),
    {
        Frame { setter: ParamSetter::new(), params, transient }
    }

    /// This frame is an earlier one that has since made these writes, and left
    /// everything but the transient state alone.
    pub open spec fn adds(self, before: Frame, writes: Seq<Write>) -> bool {
        &&& self.setter@ == before.setter@ + writes
        &&& self.setter.orderly()
        &&& self.params == before.params
    }

    /// Two runs of writes, one after the other, are one longer run.
    pub proof fn adding_twice(self, between: Frame, before: Frame, first: Seq<Write>, second: Seq<Write>)
        requires
            between.adds(before, first),
            self.adds(between, second),
        ensures
            self.adds(before, first + second),
    {
        assert(before.setter@ + first + second =~= before.setter@ + (first + second));
    }

    /// The parameters of a slot, if it exists.
    pub fn band(&self, slot: usize) -> (r: Option<&BandParams>)
        ensures
            match r {
                Some(band) => slot < MAX_BANDS && *band == self.params.bands[slot as int],
                None => slot >= MAX_BANDS,
            },
    {
        if slot < MAX_BANDS {
            Some(&self.params.bands[slot])
        } else {
            None
        }
    }
}

/// Cut slopes in the order the wheel and the button row step through them.
pub const SLOPES: [Slope; 6] = [
    Slope::S12,
    Slope::S24,
    Slope::S36,
    Slope::S48,
    Slope::S72,
    Slope::S96,
];

/// A parameter that holds a number.
#[derive(Clone, Copy, Debug, PartialEq, Eq, Structural)]
pub enum FloatParam {
    OutputGain,
    Band(usize, BandFloat),
    Resonance(ResonanceFloat),
}

impl FloatParam {
    pub open spec fn write(self, v: Single) -> Write {
        match self {
            FloatParam::OutputGain => Write::OutputGain(v),
            FloatParam::Band(slot, f) => Write::Band(slot, BandWrite::Float(f, v)),
            FloatParam::Resonance(f) => Write::Resonance(ResonanceWrite::Float(f, v)),
        }
    }

    /// What setting this parameter comes to: nothing, for a value that is not
    /// finite.
    pub open spec fn writes(self, v: Single) -> Seq<Write> {
        if v.finite() {
            seq![self.write(v)]
        } else {
            Seq::empty()
        }
    }
}

/// A parameter that is on or off.
#[derive(Clone, Copy, Debug, PartialEq, Eq, Structural)]
pub enum BoolParam {
    Bypass,
    PhaseInvert,
    Active(usize),
    Enabled(usize),
    Dynamic(usize),
    ResonanceEnabled,
    ResonanceDelta,
}

impl BoolParam {
    pub open spec fn write(self, v: bool) -> Write {
        match self {
            BoolParam::Bypass => Write::Bypass(v),
            BoolParam::PhaseInvert => Write::PhaseInvert(v),
            BoolParam::Active(slot) => Write::Band(slot, BandWrite::Active(v)),
            BoolParam::Enabled(slot) => Write::Band(slot, BandWrite::Enabled(v)),
            BoolParam::Dynamic(slot) => Write::Band(slot, BandWrite::Dynamic(v)),
            BoolParam::ResonanceEnabled => Write::Resonance(ResonanceWrite::Enabled(v)),
            BoolParam::ResonanceDelta => Write::Resonance(ResonanceWrite::Delta(v)),
        }
    }
}

/// A choice made for a parameter that holds one.
#[derive(Clone, Copy, Debug, PartialEq, Eq, Structural)]
pub enum Choice {
    Kind(usize, BandKind),
    Channel(usize, BandChannel),
    Slope(usize, Slope),
    DynMode(usize, DynMode),
    BandResMode(usize, BandResMode),
    ResMode(ResMode),
    ResQuality(ResQuality),
}

impl Choice {
    pub open spec fn write(self) -> Write {
        match self {
            Choice::Kind(slot, v) => Write::Band(slot, BandWrite::Kind(v)),
            Choice::Channel(slot, v) => Write::Band(slot, BandWrite::Channel(v)),
            Choice::Slope(slot, v) => Write::Band(slot, BandWrite::Slope(v)),
            Choice::DynMode(slot, v) => Write::Band(slot, BandWrite::DynMode(v)),
            Choice::BandResMode(slot, v) => Write::Band(slot, BandWrite::ResMode(v)),
            Choice::ResMode(v) => Write::Resonance(ResonanceWrite::Mode(v)),
            Choice::ResQuality(v) => Write::Resonance(ResonanceWrite::Quality(v)),
        }
    }
}

/// Set a number. A value that is not finite is not passed on.
pub fn set_float(setter: &mut ParamSetter, param: FloatParam, value: Single)
    requires
        old(setter).orderly(),
    ensures
        final(setter)@ == old(setter)@ + param.writes(value),
        final(setter).orderly(),
{
    if !value.is_finite() {
        return ;
    }
    setter.set(
        match param {
            FloatParam::OutputGain => Write::OutputGain(value),
            FloatParam::Band(slot, f) => Write::Band(slot, BandWrite::Float(f, value)),
            FloatParam::Resonance(f) => Write::Resonance(ResonanceWrite::Float(f, value)),
        },
    );
}

/// Set a switch.
pub fn set_bool(setter: &mut ParamSetter, param: BoolParam, value: bool)
    requires
        old(setter).orderly(),
    ensures
        final(setter)@ == old(setter)@ + seq![param.write(value)],
        final(setter).orderly(),
{
    setter.set(
        match param {
            BoolParam::Bypass => Write::Bypass(value),
            BoolParam::PhaseInvert => Write::PhaseInvert(value),
            BoolParam::Active(slot) => Write::Band(slot, BandWrite::Active(value)),
            BoolParam::Enabled(slot) => Write::Band(slot, BandWrite::Enabled(value)),
            BoolParam::Dynamic(slot) => Write::Band(slot, BandWrite::Dynamic(value)),
            BoolParam::ResonanceEnabled => Write::Resonance(ResonanceWrite::Enabled(value)),
            BoolParam::ResonanceDelta => Write::Resonance(ResonanceWrite::Delta(value)),
        },
    );
}

/// Make a choice.
pub fn set_enum(setter: &mut ParamSetter, choice: Choice)
    requires
        old(setter).orderly(),
    ensures
        final(setter)@ == old(setter)@ + seq![choice.write()],
        final(setter).orderly(),
{
    setter.set(
        match choice {
            Choice::Kind(slot, v) => Write::Band(slot, BandWrite::Kind(v)),
            Choice::Channel(slot, v) => Write::Band(slot, BandWrite::Channel(v)),
            Choice::Slope(slot, v) => Write::Band(slot, BandWrite::Slope(v)),
            Choice::DynMode(slot, v) => Write::Band(slot, BandWrite::DynMode(v)),
            Choice::BandResMode(slot, v) => Write::Band(slot, BandWrite::ResMode(v)),
            Choice::ResMode(v) => Write::Resonance(ResonanceWrite::Mode(v)),
            Choice::ResQuality(v) => Write::Resonance(ResonanceWrite::Quality(v)),
        },
    );
}

impl BandWrite {
    /// Writes to a slot.
    pub open spec fn on_slot(slot: usize, writes: Seq<BandWrite>) -> Seq<Write> {
        writes.map_values(|w: BandWrite| Write::Band(slot, w))
    }

    /// Writes to a slot, if the slot exists.
    pub open spec fn to_slot(slot: usize, writes: Seq<BandWrite>) -> Seq<Write> {
        if slot < MAX_BANDS {
            BandWrite::on_slot(slot, writes)
        } else {
            Seq::empty()
        }
    }

    /// What setting a number comes to: nothing, for a value that is not finite.
    pub open spec fn float(f: BandFloat, v: Single) -> Seq<BandWrite> {
        if v.finite() {
            seq![BandWrite::Float(f, v)]
        } else {
            Seq::empty()
        }
    }
}

pub fn set_freq(frame: &mut Frame, slot: usize, value: Single)
    requires
        old(frame).setter.orderly(),
    ensures
        final(frame).adds(*old(frame), BandWrite::to_slot(slot, BandWrite::float(BandFloat::Freq, value))),
        final(frame).transient == old(frame).transient,
{
    if slot < MAX_BANDS {
        set_float(&mut frame.setter, FloatParam::Band(slot, BandFloat::Freq), value);
    }
    assert(frame.setter@ =~= old(frame).setter@ + BandWrite::to_slot(
        slot,
        BandWrite::float(BandFloat::Freq, value),
    ));
}

pub fn set_gain(frame: &mut Frame, slot: usize, value: Single)
    requires
        old(frame).setter.orderly(),
    ensures
        final(frame).adds(*old(frame), BandWrite::to_slot(slot, BandWrite::float(BandFloat::Gain, value))),
        final(frame).transient == old(frame).transient,
{
    if slot < MAX_BANDS {
        set_float(&mut frame.setter, FloatParam::Band(slot, BandFloat::Gain), value);
    }
    assert(frame.setter@ =~= old(frame).setter@ + BandWrite::to_slot(
        slot,
        BandWrite::float(BandFloat::Gain, value),
    ));
}

pub fn set_q(frame: &mut Frame, slot: usize, value: Single)
    requires
        old(frame).setter.orderly(),
    ensures
        final(frame).adds(*old(frame), BandWrite::to_slot(slot, BandWrite::float(BandFloat::Q, value))),
        final(frame).transient == old(frame).transient,
{
    if slot < MAX_BANDS {
        set_float(&mut frame.setter, FloatParam::Band(slot, BandFloat::Q), value);
    }
    assert(frame.setter@ =~= old(frame).setter@ + BandWrite::to_slot(
        slot,
        BandWrite::float(BandFloat::Q, value),
    ));
}

pub fn set_dyn_range(frame: &mut Frame, slot: usize, value: Single)
    requires
        old(frame).setter.orderly(),
    ensures
        final(frame).adds(*old(frame), BandWrite::to_slot(slot, BandWrite::float(BandFloat::DynRange, value))),
        final(frame).transient == old(frame).transient,
{
    if slot < MAX_BANDS {
        set_float(&mut frame.setter, FloatParam::Band(slot, BandFloat::DynRange), value);
    }
    assert(frame.setter@ =~= old(frame).setter@ + BandWrite::to_slot(
        slot,
        BandWrite::float(BandFloat::DynRange, value),
    ));
}

pub fn set_threshold(frame: &mut Frame, slot: usize, value: Single)
    requires
        old(frame).setter.orderly(),
    ensures
        final(frame).adds(*old(frame), BandWrite::to_slot(slot, BandWrite::float(BandFloat::Threshold, value))),
        final(frame).transient == old(frame).transient,
{
    if slot < MAX_BANDS {
        set_float(&mut frame.setter, FloatParam::Band(slot, BandFloat::Threshold), value);
    }
    assert(frame.setter@ =~= old(frame).setter@ + BandWrite::to_slot(
        slot,
        BandWrite::float(BandFloat::Threshold, value),
    ));
}

pub fn set_attack(frame: &mut Frame, slot: usize, value: Single)
    requires
        old(frame).setter.orderly(),
    ensures
        final(frame).adds(*old(frame), BandWrite::to_slot(slot, BandWrite::float(BandFloat::Attack, value))),
        final(frame).transient == old(frame).transient,
{
    if slot < MAX_BANDS {
        set_float(&mut frame.setter, FloatParam::Band(slot, BandFloat::Attack), value);
    }
    assert(frame.setter@ =~= old(frame).setter@ + BandWrite::to_slot(
        slot,
        BandWrite::float(BandFloat::Attack, value),
    ));
}

pub fn set_release(frame: &mut Frame, slot: usize, value: Single)
    requires
        old(frame).setter.orderly(),
    ensures
        final(frame).adds(*old(frame), BandWrite::to_slot(slot, BandWrite::float(BandFloat::Release, value))),
        final(frame).transient == old(frame).transient,
{
    if slot < MAX_BANDS {
        set_float(&mut frame.setter, FloatParam::Band(slot, BandFloat::Release), value);
    }
    assert(frame.setter@ =~= old(frame).setter@ + BandWrite::to_slot(
        slot,
        BandWrite::float(BandFloat::Release, value),
    ));
}

/// Per-band resonance, in percent.
pub fn set_band_resonance(frame: &mut Frame, slot: usize, percent: Single)
    requires
        old(frame).setter.orderly(),
    ensures
        final(frame).adds(
            *old(frame),
            BandWrite::to_slot(slot, BandWrite::float(BandFloat::Resonance, percent)),
        ),
        final(frame).transient == old(frame).transient,
{
    if slot < MAX_BANDS {
        set_float(&mut frame.setter, FloatParam::Band(slot, BandFloat::Resonance), percent);
    }
    assert(frame.setter@ =~= old(frame).setter@ + BandWrite::to_slot(
        slot,
        BandWrite::float(BandFloat::Resonance, percent),
    ));
}

pub fn set_enabled(frame: &mut Frame, slot: usize, value: bool)
    requires
        old(frame).setter.orderly(),
    ensures
        final(frame).adds(*old(frame), BandWrite::to_slot(slot, seq![BandWrite::Enabled(value)])),
        final(frame).transient == old(frame).transient,
{
    if slot < MAX_BANDS {
        set_bool(&mut frame.setter, BoolParam::Enabled(slot), value);
    }
    assert(frame.setter@ =~= old(frame).setter@ + BandWrite::to_slot(slot, seq![BandWrite::Enabled(value)]));
}

pub fn set_dynamic(frame: &mut Frame, slot: usize, value: bool)
    requires
        old(frame).setter.orderly(),
    ensures
        final(frame).adds(*old(frame), BandWrite::to_slot(slot, seq![BandWrite::Dynamic(value)])),
        final(frame).transient == old(frame).transient,
{
    if slot < MAX_BANDS {
        set_bool(&mut frame.setter, BoolParam::Dynamic(slot), value);
    }
    assert(frame.setter@ =~= old(frame).setter@ + BandWrite::to_slot(slot, seq![BandWrite::Dynamic(value)]));
}

pub fn set_kind(frame: &mut Frame, slot: usize, value: BandKind)
    requires
        old(frame).setter.orderly(),
    ensures
        final(frame).adds(*old(frame), BandWrite::to_slot(slot, seq![BandWrite::Kind(value)])),
        final(frame).transient == old(frame).transient,
{
    if slot < MAX_BANDS {
        set_enum(&mut frame.setter, Choice::Kind(slot, value));
    }
    assert(frame.setter@ =~= old(frame).setter@ + BandWrite::to_slot(slot, seq![BandWrite::Kind(value)]));
}

pub fn set_channel(frame: &mut Frame, slot: usize, value: BandChannel)
    requires
        old(frame).setter.orderly(),
    ensures
        final(frame).adds(*old(frame), BandWrite::to_slot(slot, seq![BandWrite::Channel(value)])),
        final(frame).transient == old(frame).transient,
{
    if slot < MAX_BANDS {
        set_enum(&mut frame.setter, Choice::Channel(slot, value));
    }
    assert(frame.setter@ =~= old(frame).setter@ + BandWrite::to_slot(slot, seq![BandWrite::Channel(value)]));
}

pub fn set_slope(frame: &mut Frame, slot: usize, value: Slope)
    requires
        old(frame).setter.orderly(),
    ensures
        final(frame).adds(*old(frame), BandWrite::to_slot(slot, seq![BandWrite::Slope(value)])),
        final(frame).transient == old(frame).transient,
{
    if slot < MAX_BANDS {
        set_enum(&mut frame.setter, Choice::Slope(slot, value));
    }
    assert(frame.setter@ =~= old(frame).setter@ + BandWrite::to_slot(slot, seq![BandWrite::Slope(value)]));
}

pub fn set_dyn_mode(frame: &mut Frame, slot: usize, value: DynMode)
    requires
        old(frame).setter.orderly(),
    ensures
        final(frame).adds(*old(frame), BandWrite::to_slot(slot, seq![BandWrite::DynMode(value)])),
        final(frame).transient == old(frame).transient,
{
    if slot < MAX_BANDS {
        set_enum(&mut frame.setter, Choice::DynMode(slot, value));
    }
    assert(frame.setter@ =~= old(frame).setter@ + BandWrite::to_slot(slot, seq![BandWrite::DynMode(value)]));
}

impl Slope {
    /// Where a slope stands in the list the wheel steps through.
    pub open spec fn position(self) -> int {
        match self {
            Slope::S12 => 0,
            Slope::S24 => 1,
            Slope::S36 => 2,
            Slope::S48 => 3,
            Slope::S72 => 4,
            Slope::S96 => 5,
        }
    }

    /// The slope some steps along the list, stopping at either end.
    pub open spec fn stepped(self, direction: int) -> Slope {
        let wanted = self.position() + direction;
        SLOPES@[if wanted < 0 {
            0
        } else if wanted > 5 {
            5
        } else {
            wanted
        }]
    }

    /// The list runs from shallowest to steepest, so a step along it is a step in
    /// steepness, and a step back undoes it unless it ran into an end.
    pub proof fn a_step_is_a_step_in_steepness(self)
        ensures
            self.position() < 5 ==> self.steepness() < self.stepped(1).steepness(),
            self.position() > 0 ==> self.stepped(-1).steepness() < self.steepness(),
            self.position() < 5 ==> self.stepped(1).stepped(-1) == self,
            self.position() > 0 ==> self.stepped(-1).stepped(1) == self,
            Slope::S96.stepped(1) == Slope::S96,
            Slope::S12.stepped(-1) == Slope::S12,
    {
    }
}

/// Move a cut band's slope along the list.
pub fn step_slope(frame: &mut Frame, slot: usize, direction: i32)
    requires
        old(frame).setter.orderly(),
        direction <= i32::MAX - 5,
    ensures
        final(frame).adds(
            *old(frame),
            if slot < MAX_BANDS {
                let slope = old(frame).params.bands[slot as int].slope;
                seq![Write::Band(slot, BandWrite::Slope(slope.stepped(direction as int)))]
            } else {
                Seq::empty()
            },
        ),
        final(frame).transient == old(frame).transient,
{
    if slot >= MAX_BANDS {
        assert(frame.setter@ =~= old(frame).setter@ + Seq::<Write>::empty());
        return ;
    }
    let current: i32 = match frame.params.bands[slot].slope {
        Slope::S12 => 0,
        Slope::S24 => 1,
        Slope::S36 => 2,
        Slope::S48 => 3,
        Slope::S72 => 4,
        Slope::S96 => 5,
    };
    let wanted: i32 = current + direction;
    let next: usize = if wanted < 0 {
        0
    } else if wanted > 5 {
        5
    } else {
        wanted as usize
    };
    set_enum(&mut frame.setter, Choice::Slope(slot, SLOPES[next]));
}

impl Slope {
    /// One step along the list is the next slope of 12, 24, 36, 48, 72 and 96 dB an
    /// octave, and at either end there is none to go to.
    pub proof fn a_step_goes_to_the_next(self)
        ensures
            self.stepped(1).steepness() == (match self.steepness() {
                12 => 24u32,
                24 => 36,
                36 => 48,
                48 => 72,
                _ => 96,
            }),
            self.stepped(-1).steepness() == (match self.steepness() {
                96 => 72u32,
                72 => 48,
                48 => 36,
                36 => 24,
                _ => 12,
            }),
            self.stepped(0) == self,
    {
    }
}

} // verus!
