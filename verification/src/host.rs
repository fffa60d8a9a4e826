//! What the host is told.
//!
//! The editor changes a parameter by telling the host so, and a host wants to
//! see every change wrapped in the begin/end pair of a gesture in order to
//! record it. A [`ParamSetter`] collects what a frame of the editor has to say,
//! in order.

use vstd::prelude::*;

use crate::limits::{BandFloat, ResonanceFloat};
use crate::params::{BandWrite, ResonanceWrite, Settings, Write};

verus! {

/// A parameter of a band slot.
#[derive(Clone, Copy, Debug, PartialEq, Eq, Structural)]
pub enum BandParam {
    Active,
    Enabled,
    Kind,
    Channel,
    Slope,
    Dynamic,
    DynMode,
    ResMode,
    Float(BandFloat),
}

/// A parameter of the global resonance stage.
#[derive(Clone, Copy, Debug, PartialEq, Eq, Structural)]
pub enum ResonanceParam {
    Enabled,
    Mode,
    Quality,
    Delta,
    Float(ResonanceFloat),
}

/// A parameter of the plugin.
#[derive(Clone, Copy, Debug, PartialEq, Eq, Structural)]
pub enum ParamId {
    Bypass,
    PhaseInvert,
    OutputGain,
    Band(usize, BandParam),
    Resonance(ResonanceParam),
}

impl Write {
    /// The parameter a write is to.
    pub open spec fn target(self) -> ParamId {
        match self {
            Write::Bypass(_) => ParamId::Bypass,
            Write::PhaseInvert(_) => ParamId::PhaseInvert,
            Write::OutputGain(_) => ParamId::OutputGain,
            Write::Band(slot, b) => ParamId::Band(
                slot,
                match b {
                    BandWrite::Active(_) => BandParam::Active,
                    BandWrite::Enabled(_) => BandParam::Enabled,
                    BandWrite::Kind(_) => BandParam::Kind,
                    BandWrite::Channel(_) => BandParam::Channel,
                    BandWrite::Slope(_) => BandParam::Slope,
                    BandWrite::Dynamic(_) => BandParam::Dynamic,
                    BandWrite::DynMode(_) => BandParam::DynMode,
                    BandWrite::ResMode(_) => BandParam::ResMode,
                    BandWrite::Float(f, _) => BandParam::Float(f),
                },
            ),
            Write::Resonance(r) => ParamId::Resonance(
                match r {
                    ResonanceWrite::Enabled(_) => ResonanceParam::Enabled,
                    ResonanceWrite::Mode(_) => ResonanceParam::Mode,
                    ResonanceWrite::Quality(_) => ResonanceParam::Quality,
                    ResonanceWrite::Delta(_) => ResonanceParam::Delta,
                    ResonanceWrite::Float(f, _) => ResonanceParam::Float(f),
                },
            ),
        }
    }

    /// The parameter this write is to.
    pub fn param(self) -> (r: ParamId)
        ensures
            r == self.target(),
    {
        match self {
            Write::Bypass(_) => ParamId::Bypass,
            Write::PhaseInvert(_) => ParamId::PhaseInvert,
            Write::OutputGain(_) => ParamId::OutputGain,
            Write::Band(slot, b) => ParamId::Band(
                slot,
                match b {
                    BandWrite::Active(_) => BandParam::Active,
                    BandWrite::Enabled(_) => BandParam::Enabled,
                    BandWrite::Kind(_) => BandParam::Kind,
                    BandWrite::Channel(_) => BandParam::Channel,
                    BandWrite::Slope(_) => BandParam::Slope,
                    BandWrite::Dynamic(_) => BandParam::Dynamic,
                    BandWrite::DynMode(_) => BandParam::DynMode,
                    BandWrite::ResMode(_) => BandParam::ResMode,
                    BandWrite::Float(f, _) => BandParam::Float(f),
                },
            ),
            Write::Resonance(r) => ParamId::Resonance(
                match r {
                    ResonanceWrite::Enabled(_) => ResonanceParam::Enabled,
                    ResonanceWrite::Mode(_) => ResonanceParam::Mode,
                    ResonanceWrite::Quality(_) => ResonanceParam::Quality,
                    ResonanceWrite::Delta(_) => ResonanceParam::Delta,
                    ResonanceWrite::Float(f, _) => ResonanceParam::Float(f),
                },
            ),
        }
    }
}

/// One call to the host.
#[derive(Clone, Copy, Debug, PartialEq, Eq, Structural)]
pub enum HostCall {
    Begin(ParamId),
    Change(Write),
    End(ParamId),
}

/// The calls a frame of the editor makes to the host, in order.
#[derive(Debug)]
pub struct ParamSetter {
    calls: Vec<HostCall>,
}

impl ParamSetter {
    /// The calls, in order.
    pub closed spec fn calls(self) -> Seq<HostCall> {
        self.calls@
    }

    /// The calls that write one parameter: the write, in the gesture that the
    /// host records it by.
    pub open spec fn gesture(w: Write) -> Seq<HostCall> {
        seq![HostCall::Begin(w.target()), HostCall::Change(w), HostCall::End(w.target())]
    }

    /// The calls that make some writes, one gesture after the other.
    pub open spec fn gestures(writes: Seq<Write>) -> Seq<HostCall>
        decreases writes.len(),
    {
        if writes.len() == 0 {
            Seq::empty()
        } else {
            ParamSetter::gestures(writes.drop_last()) + ParamSetter::gesture(writes.last())
        }
    }

    /// Every call so far belongs to a complete gesture.
    pub open spec fn orderly(self) -> bool {
        self.calls() == ParamSetter::gestures(self@)
    }

    pub fn new() -> (r: ParamSetter)
        ensures
            r@ == Seq::<Write>::empty(),
            r.orderly(),
    {
        let r: ParamSetter = ParamSetter { calls: Vec::new() };
        assert(r@ =~= Seq::<Write>::empty());
        r
    }

    /// Write one parameter, as a gesture of its own.
    pub fn set(&mut self, w: Write)
        requires
            old(self).orderly(),
        ensures
            final(self)@ == old(self)@.push(w),
            final(self).orderly(),
    {
        let id: ParamId = w.param();
        self.calls.push(HostCall::Begin(id));
        self.calls.push(HostCall::Change(w));
        self.calls.push(HostCall::End(id));
        proof {
            let before = old(self)@;
            lemma_gestures_len(before);
            assert(self.calls@ =~= old(self).calls@ + ParamSetter::gesture(w));
            assert(self@ =~= before.push(w)) by {
                lemma_gestures_len(before);
            }
            assert(before.push(w).drop_last() =~= before);
        }
    }

    /// The calls, for whoever speaks to the host.
    pub fn into_calls(self) -> (r: Vec<HostCall>)
        ensures
            r@ == self.calls(),
    {
        self.calls
    }
}

impl View for ParamSetter {
    type V = Seq<Write>;

    /// The writes the calls make, in order.
    open spec fn view(&self) -> Seq<Write> {
        Seq::new(
            self.calls().len() / 3,
            |k: int| self.calls()[3 * k + 1]->Change_0,
        )
    }
}

proof fn lemma_gestures_len(writes: Seq<Write>)
    ensures
        ParamSetter::gestures(writes).len() == 3 * writes.len(),
    decreases writes.len(),
{
    if writes.len() > 0 {
        lemma_gestures_len(writes.drop_last());
    }
}

/// The host sees nothing but complete gestures, each on a single parameter: the
/// calls come in threes that begin, change and end the same one.
pub proof fn every_write_is_a_gesture(setter: ParamSetter)
    requires
        setter.orderly(),
    ensures
        setter.calls().len() == 3 * setter@.len(),
        forall|k: int|
            0 <= k < setter@.len() ==> {
                let w = #[trigger] setter@[k];
                &&& setter.calls()[3 * k] == HostCall::Begin(w.target())
                &&& setter.calls()[3 * k + 1] == HostCall::Change(w)
                &&& setter.calls()[3 * k + 2] == HostCall::End(w.target())
            },
{
    lemma_gestures_len(setter@);
    assert forall|k: int| 0 <= k < setter@.len() implies {
        let w = #[trigger] setter@[k];
        &&& setter.calls()[3 * k] == HostCall::Begin(w.target())
        &&& setter.calls()[3 * k + 1] == HostCall::Change(w)
        &&& setter.calls()[3 * k + 2] == HostCall::End(w.target())
    } by {
        lemma_gesture_at(setter@, k);
    }
}

proof fn lemma_gesture_at(writes: Seq<Write>, k: int)
    requires
        0 <= k < writes.len(),
    ensures
        ParamSetter::gestures(writes)[3 * k] == HostCall::Begin(writes[k].target()),
        ParamSetter::gestures(writes)[3 * k + 1] == HostCall::Change(writes[k]),
        ParamSetter::gestures(writes)[3 * k + 2] == HostCall::End(writes[k].target()),
    decreases writes.len(),
{
    lemma_gestures_len(writes.drop_last());
    if k < writes.len() - 1 {
        lemma_gesture_at(writes.drop_last(), k);
    }
}

impl Settings {
    /// One more write at the end of a list is one more change.
    pub proof fn after_one_more(self, writes: Seq<Write>, w: Write)
        ensures
            self.after(writes.push(w)) == self.after(writes).with(w),
    {
        assert(writes.push(w).drop_last() =~= writes);
    }

    /// However much is written, there are as many slots as before.
    pub proof fn writing_keeps_the_slots(self, writes: Seq<Write>)
        ensures
            self.after(writes).bands.len() == self.bands.len(),
        decreases writes.len(),
    {
        if writes.len() > 0 {
            self.writing_keeps_the_slots(writes.drop_last());
        }
    }

    /// Two lists of writes one after the other are one list.
    pub proof fn after_one_list_and_another(self, first: Seq<Write>, second: Seq<Write>)
        ensures
            self.after(first + second) == self.after(first).after(second),
        decreases second.len(),
    {
        if second.len() == 0 {
            assert(first + second =~= first);
        } else {
            self.after_one_list_and_another(first, second.drop_last());
            assert((first + second).drop_last() =~= first + second.drop_last());
        }
    }
}

/// Each write is to the parameter it changes: of two writes to one parameter of a
/// slot the later one counts, as if the other had never been.
pub proof fn a_write_is_to_what_it_changes(
    band: crate::params::BandParams,
    slot: usize,
    first: BandWrite,
    second: BandWrite,
)
    requires
        Write::Band(slot, first).target() == Write::Band(slot, second).target(),
    ensures
        band.with(first).with(second) == band.with(second),
{
    match second {
        BandWrite::Float(f, _) => match f {
            BandFloat::Freq | BandFloat::Gain | BandFloat::Q | BandFloat::DynRange => {},
            BandFloat::Threshold | BandFloat::Attack | BandFloat::Release => {},
            BandFloat::Resonance | BandFloat::ResRange | BandFloat::ResSens => {},
            BandFloat::ResWidth | BandFloat::ResAttack | BandFloat::ResRelease => {},
        },
        _ => {},
    }
}

/// Writes to different slots, to the stage, and to the global parameters have
/// different targets.
pub proof fn a_target_tells_where_a_write_goes(slot: usize, other: usize, b: BandWrite, r: ResonanceWrite)
    ensures
        Write::Band(slot, b).target() matches ParamId::Band(s, _) && s == slot,
        slot != other ==> Write::Band(slot, b).target() != Write::Band(other, b).target(),
        Write::Resonance(r).target() is Resonance,
        Write::Bypass(true).target() == ParamId::Bypass,
        Write::PhaseInvert(true).target() == ParamId::PhaseInvert,
{
}

} // verus!
