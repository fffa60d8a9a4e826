//! Writing whole bands and whole states.
//!
//! A recall resets a slot before writing into it, so that a value left unset
//! comes out at its default rather than at whatever the last band left behind.

use vstd::prelude::*;

use crate::edit::{set_bool, set_float, BoolParam, FloatParam, Frame};
use crate::host::ParamSetter;
use crate::limits::{BandFloat, ResonanceFloat};
use crate::params::{
    BandParams, BandWrite, EquzxParams, ResonanceParams, ResonanceWrite, Settings, TransientState,
    Write, MAX_BANDS,
};
use crate::single::Single;
use crate::snapshot::{BandSnapshot, ResonanceSnapshot, Scene, Snapshot};
use crate::state::{free_slot, BandView, ChannelView};

verus! {

impl BandWrite {
    /// A write that is passed on to the host: anything but a number that is not
    /// finite.
    pub open spec fn passes(self) -> bool {
        self matches BandWrite::Float(_, v) ==> v.finite()
    }

    /// The writes of a list that are passed on, in order.
    pub open spec fn passed(writes: Seq<BandWrite>) -> Seq<BandWrite>
        decreases writes.len(),
    {
        if writes.len() == 0 {
            Seq::empty()
        } else {
            let before = BandWrite::passed(writes.drop_last());
            if writes.last().passes() {
                before.push(writes.last())
            } else {
                before
            }
        }
    }
}

impl BandParams {
    /// These parameters after a list of writes, in order.
    pub open spec fn after(self, writes: Seq<BandWrite>) -> BandParams
        decreases writes.len(),
    {
        if writes.len() == 0 {
            self
        } else {
            self.after(writes.drop_last()).with(writes.last())
        }
    }

    /// These parameters with everything but the active flag at its default.
    pub open spec fn reset(self) -> BandParams {
        BandParams { active: self.active, ..BandParams::fresh() }
    }

    /// These parameters with a snapshot written over them. Numbers that are not
    /// finite leave what was there.
    pub open spec fn overwritten(self, b: BandSnapshot) -> BandParams {
        BandParams {
            active: self.active,
            kind: b.kind,
            channel: b.channel,
            slope: b.slope,
            dyn_mode: b.dyn_mode,
            freq: b.freq.or_fallback(self.freq),
            gain: b.gain.or_fallback(self.gain),
            q: b.q.or_fallback(self.q),
            dyn_range: b.dyn_range.or_fallback(self.dyn_range),
            threshold: b.threshold.or_fallback(self.threshold),
            attack: b.attack.or_fallback(self.attack),
            release: b.release.or_fallback(self.release),
            resonance: b.resonance.or_fallback(self.resonance),
            enabled: b.enabled,
            dynamic: b.dynamic,
            res_mode: b.res_mode,
            res_range: b.res_range.or_fallback(self.res_range),
            res_sens: b.res_sens.or_fallback(self.res_sens),
            res_width: b.res_width.or_fallback(self.res_width),
            res_attack: b.res_attack.or_fallback(self.res_attack),
            res_release: b.res_release.or_fallback(self.res_release),
        }
    }

    /// A slot in use, shaped by a snapshot. Numbers that are not finite read as
    /// unset, and come out at their defaults.
    pub open spec fn recalled(b: BandSnapshot) -> BandParams {
        BandParams { active: true, ..BandParams::fresh().overwritten(b) }
    }

    /// These parameters after as much of one write as is passed on.
    #[verifier::opaque]
    spec fn hearing(self, w: BandWrite) -> BandParams {
        match w {
            BandWrite::Float(f, v) => self.with(BandWrite::Float(f, v.or_fallback(self.float(f)))),
            _ => self.with(w),
        }
    }

    /// These parameters after as much of the first `n` writes as is passed on.
    spec fn hearing_first(self, writes: Seq<BandWrite>, n: nat) -> BandParams
        decreases n,
    {
        if n == 0 {
            self
        } else {
            self.hearing_first(writes, (n - 1) as nat).hearing(writes[n - 1])
        }
    }

    proof fn lemma_hearing_a_prefix(self, writes: Seq<BandWrite>, n: nat)
        requires
            n < writes.len(),
        ensures
            self.hearing_first(writes.drop_last(), n) == self.hearing_first(writes, n),
        decreases n,
    {
        if n > 0 {
            self.lemma_hearing_a_prefix(writes, (n - 1) as nat);
        }
    }

    proof fn lemma_hearing_is_a_write_or_nothing(self, w: BandWrite)
        ensures
            self.hearing(w) == (if w.passes() {
                self.with(w)
            } else {
                self
            }),
    {
        reveal(BandParams::hearing);
    }

    proof fn lemma_hearing_is_what_passes(self, writes: Seq<BandWrite>)
        ensures
            self.after(BandWrite::passed(writes)) == self.hearing_first(writes, writes.len()),
        decreases writes.len(),
    {
        if writes.len() > 0 {
            let shorter = writes.drop_last();
            self.lemma_hearing_is_what_passes(shorter);
            self.lemma_hearing_a_prefix(writes, shorter.len());
            let before = BandWrite::passed(shorter);
            assert(before.push(writes.last()).drop_last() =~= before);
            self.after(before).lemma_hearing_is_a_write_or_nothing(writes.last());
        }
    }

    /// Two lists of writes one after the other are one list.
    pub proof fn lemma_after_both(self, first: Seq<BandWrite>, second: Seq<BandWrite>)
        ensures
            self.after(first + second) == self.after(first).after(second),
        decreases second.len(),
    {
        if second.len() == 0 {
            assert(first + second =~= first);
        } else {
            self.lemma_after_both(first, second.drop_last());
            assert((first + second).drop_last() =~= first + second.drop_last());
        }
    }
}

/// The writes that put a slot back to its defaults.
pub open spec fn reset_list() -> Seq<BandWrite> {
    let d = BandParams::fresh();
    seq![
        BandWrite::Enabled(d.enabled),
        BandWrite::Kind(d.kind),
        BandWrite::Channel(d.channel),
        BandWrite::Slope(d.slope),
        BandWrite::DynMode(d.dyn_mode),
        BandWrite::Float(BandFloat::Freq, d.freq),
        BandWrite::Float(BandFloat::Gain, d.gain),
        BandWrite::Float(BandFloat::Q, d.q),
        BandWrite::Float(BandFloat::DynRange, d.dyn_range),
        BandWrite::Float(BandFloat::Threshold, d.threshold),
        BandWrite::Float(BandFloat::Attack, d.attack),
        BandWrite::Float(BandFloat::Release, d.release),
        BandWrite::Float(BandFloat::Resonance, d.resonance),
        BandWrite::Dynamic(d.dynamic),
        BandWrite::ResMode(d.res_mode),
        BandWrite::Float(BandFloat::ResRange, d.res_range),
        BandWrite::Float(BandFloat::ResSens, d.res_sens),
        BandWrite::Float(BandFloat::ResWidth, d.res_width),
        BandWrite::Float(BandFloat::ResAttack, d.res_attack),
        BandWrite::Float(BandFloat::ResRelease, d.res_release),
    ]
}

/// The writes that give a slot the shape of a snapshot.
pub open spec fn overwrite_list(b: BandSnapshot) -> Seq<BandWrite> {
    seq![
        BandWrite::Kind(b.kind),
        BandWrite::Channel(b.channel),
        BandWrite::Slope(b.slope),
        BandWrite::DynMode(b.dyn_mode),
        BandWrite::Float(BandFloat::Freq, b.freq),
        BandWrite::Float(BandFloat::Gain, b.gain),
        BandWrite::Float(BandFloat::Q, b.q),
        BandWrite::Float(BandFloat::DynRange, b.dyn_range),
        BandWrite::Float(BandFloat::Threshold, b.threshold),
        BandWrite::Float(BandFloat::Attack, b.attack),
        BandWrite::Float(BandFloat::Release, b.release),
        BandWrite::Float(BandFloat::Resonance, b.resonance),
        BandWrite::Enabled(b.enabled),
        BandWrite::Dynamic(b.dynamic),
        BandWrite::ResMode(b.res_mode),
        BandWrite::Float(BandFloat::ResRange, b.res_range),
        BandWrite::Float(BandFloat::ResSens, b.res_sens),
        BandWrite::Float(BandFloat::ResWidth, b.res_width),
        BandWrite::Float(BandFloat::ResAttack, b.res_attack),
        BandWrite::Float(BandFloat::ResRelease, b.res_release),
    ]
}

/// The writes that claim a slot for a band: its defaults first, then the shape,
/// then the flag that puts it to use.
pub open spec fn recall_list(b: BandSnapshot) -> Seq<BandWrite> {
    BandWrite::passed(reset_list()) + BandWrite::passed(overwrite_list(b)) + seq![
        BandWrite::Active(true),
    ]
}

proof fn lemma_reset_1(band: BandParams, d: BandParams)
    ensures
        band.hearing(
            BandWrite::Enabled(d.enabled),
        ).hearing(
            BandWrite::Kind(d.kind),
        ).hearing(
            BandWrite::Channel(d.channel),
        ).hearing(
            BandWrite::Slope(d.slope),
        ).hearing(
            BandWrite::DynMode(d.dyn_mode),
        ) == (BandParams {
            enabled: d.enabled,
            kind: d.kind,
            channel: d.channel,
            slope: d.slope,
            dyn_mode: d.dyn_mode,
            ..band
        }),
{
    reveal(BandParams::hearing);
}

proof fn lemma_reset_2(band: BandParams, d: BandParams)
    ensures
        band.hearing(
            BandWrite::Float(BandFloat::Freq, d.freq),
        ).hearing(
            BandWrite::Float(BandFloat::Gain, d.gain),
        ).hearing(
            BandWrite::Float(BandFloat::Q, d.q),
        ).hearing(
            BandWrite::Float(BandFloat::DynRange, d.dyn_range),
        ).hearing(
            BandWrite::Float(BandFloat::Threshold, d.threshold),
        ) == (BandParams {
            freq: d.freq.or_fallback(band.freq),
            gain: d.gain.or_fallback(band.gain),
            q: d.q.or_fallback(band.q),
            dyn_range: d.dyn_range.or_fallback(band.dyn_range),
            threshold: d.threshold.or_fallback(band.threshold),
            ..band
        }),
{
    reveal(BandParams::hearing);
}

proof fn lemma_reset_3(band: BandParams, d: BandParams)
    ensures
        band.hearing(
            BandWrite::Float(BandFloat::Attack, d.attack),
        ).hearing(
            BandWrite::Float(BandFloat::Release, d.release),
        ).hearing(
            BandWrite::Float(BandFloat::Resonance, d.resonance),
        ).hearing(
            BandWrite::Dynamic(d.dynamic),
        ).hearing(
            BandWrite::ResMode(d.res_mode),
        ) == (BandParams {
            attack: d.attack.or_fallback(band.attack),
            release: d.release.or_fallback(band.release),
            resonance: d.resonance.or_fallback(band.resonance),
            dynamic: d.dynamic,
            res_mode: d.res_mode,
            ..band
        }),
{
    reveal(BandParams::hearing);
}

proof fn lemma_reset_4(band: BandParams, d: BandParams)
    ensures
        band.hearing(
            BandWrite::Float(BandFloat::ResRange, d.res_range),
        ).hearing(
            BandWrite::Float(BandFloat::ResSens, d.res_sens),
        ).hearing(
            BandWrite::Float(BandFloat::ResWidth, d.res_width),
        ).hearing(
            BandWrite::Float(BandFloat::ResAttack, d.res_attack),
        ).hearing(
            BandWrite::Float(BandFloat::ResRelease, d.res_release),
        ) == (BandParams {
            res_range: d.res_range.or_fallback(band.res_range),
            res_sens: d.res_sens.or_fallback(band.res_sens),
            res_width: d.res_width.or_fallback(band.res_width),
            res_attack: d.res_attack.or_fallback(band.res_attack),
            res_release: d.res_release.or_fallback(band.res_release),
            ..band
        }),
{
    reveal(BandParams::hearing);
}

proof fn lemma_shape_1(band: BandParams, d: BandSnapshot)
    ensures
        band.hearing(
            BandWrite::Kind(d.kind),
        ).hearing(
            BandWrite::Channel(d.channel),
        ).hearing(
            BandWrite::Slope(d.slope),
        ).hearing(
            BandWrite::DynMode(d.dyn_mode),
        ).hearing(
            BandWrite::Float(BandFloat::Freq, d.freq),
        ) == (BandParams {
            kind: d.kind,
            channel: d.channel,
            slope: d.slope,
            dyn_mode: d.dyn_mode,
            freq: d.freq.or_fallback(band.freq),
            ..band
        }),
{
    reveal(BandParams::hearing);
}

proof fn lemma_shape_2(band: BandParams, d: BandSnapshot)
    ensures
        band.hearing(
            BandWrite::Float(BandFloat::Gain, d.gain),
        ).hearing(
            BandWrite::Float(BandFloat::Q, d.q),
        ).hearing(
            BandWrite::Float(BandFloat::DynRange, d.dyn_range),
        ).hearing(
            BandWrite::Float(BandFloat::Threshold, d.threshold),
        ).hearing(
            BandWrite::Float(BandFloat::Attack, d.attack),
        ) == (BandParams {
            gain: d.gain.or_fallback(band.gain),
            q: d.q.or_fallback(band.q),
            dyn_range: d.dyn_range.or_fallback(band.dyn_range),
            threshold: d.threshold.or_fallback(band.threshold),
            attack: d.attack.or_fallback(band.attack),
            ..band
        }),
{
    reveal(BandParams::hearing);
}

proof fn lemma_shape_3(band: BandParams, d: BandSnapshot)
    ensures
        band.hearing(
            BandWrite::Float(BandFloat::Release, d.release),
        ).hearing(
            BandWrite::Float(BandFloat::Resonance, d.resonance),
        ).hearing(
            BandWrite::Enabled(d.enabled),
        ).hearing(
            BandWrite::Dynamic(d.dynamic),
        ).hearing(
            BandWrite::ResMode(d.res_mode),
        ) == (BandParams {
            release: d.release.or_fallback(band.release),
            resonance: d.resonance.or_fallback(band.resonance),
            enabled: d.enabled,
            dynamic: d.dynamic,
            res_mode: d.res_mode,
            ..band
        }),
{
    reveal(BandParams::hearing);
}

proof fn lemma_shape_4(band: BandParams, d: BandSnapshot)
    ensures
        band.hearing(
            BandWrite::Float(BandFloat::ResRange, d.res_range),
        ).hearing(
            BandWrite::Float(BandFloat::ResSens, d.res_sens),
        ).hearing(
            BandWrite::Float(BandFloat::ResWidth, d.res_width),
        ).hearing(
            BandWrite::Float(BandFloat::ResAttack, d.res_attack),
        ).hearing(
            BandWrite::Float(BandFloat::ResRelease, d.res_release),
        ) == (BandParams {
            res_range: d.res_range.or_fallback(band.res_range),
            res_sens: d.res_sens.or_fallback(band.res_sens),
            res_width: d.res_width.or_fallback(band.res_width),
            res_attack: d.res_attack.or_fallback(band.res_attack),
            res_release: d.res_release.or_fallback(band.res_release),
            ..band
        }),
{
    reveal(BandParams::hearing);
}

proof fn lemma_reset_list(band: BandParams, d: BandParams, writes: Seq<BandWrite>)
    requires
        writes =~= seq![
            BandWrite::Enabled(d.enabled),
            BandWrite::Kind(d.kind),
            BandWrite::Channel(d.channel),
            BandWrite::Slope(d.slope),
            BandWrite::DynMode(d.dyn_mode),
            BandWrite::Float(BandFloat::Freq, d.freq),
            BandWrite::Float(BandFloat::Gain, d.gain),
            BandWrite::Float(BandFloat::Q, d.q),
            BandWrite::Float(BandFloat::DynRange, d.dyn_range),
            BandWrite::Float(BandFloat::Threshold, d.threshold),
            BandWrite::Float(BandFloat::Attack, d.attack),
            BandWrite::Float(BandFloat::Release, d.release),
            BandWrite::Float(BandFloat::Resonance, d.resonance),
            BandWrite::Dynamic(d.dynamic),
            BandWrite::ResMode(d.res_mode),
            BandWrite::Float(BandFloat::ResRange, d.res_range),
            BandWrite::Float(BandFloat::ResSens, d.res_sens),
            BandWrite::Float(BandFloat::ResWidth, d.res_width),
            BandWrite::Float(BandFloat::ResAttack, d.res_attack),
            BandWrite::Float(BandFloat::ResRelease, d.res_release),
        ],
        d.freq.finite(),
        d.gain.finite(),
        d.q.finite(),
        d.dyn_range.finite(),
        d.threshold.finite(),
        d.attack.finite(),
        d.release.finite(),
        d.resonance.finite(),
        d.res_range.finite(),
        d.res_sens.finite(),
        d.res_width.finite(),
        d.res_attack.finite(),
        d.res_release.finite(),
    ensures
        band.after(BandWrite::passed(writes)) == (BandParams { active: band.active, ..d }),
{
    band.lemma_hearing_is_what_passes(writes);
    assert(band.hearing_first(writes, 0) == band);
    assert(band.hearing_first(writes, 1) == band.hearing_first(writes, 0).hearing(BandWrite::Enabled(d.enabled)));
    assert(band.hearing_first(writes, 2) == band.hearing_first(writes, 1).hearing(BandWrite::Kind(d.kind)));
    assert(band.hearing_first(writes, 3) == band.hearing_first(writes, 2).hearing(BandWrite::Channel(d.channel)));
    assert(band.hearing_first(writes, 4) == band.hearing_first(writes, 3).hearing(BandWrite::Slope(d.slope)));
    assert(band.hearing_first(writes, 5) == band.hearing_first(writes, 4).hearing(BandWrite::DynMode(d.dyn_mode)));
    lemma_reset_1(band.hearing_first(writes, 0), d);
    assert(band.hearing_first(writes, 6) == band.hearing_first(writes, 5).hearing(BandWrite::Float(BandFloat::Freq, d.freq)));
    assert(band.hearing_first(writes, 7) == band.hearing_first(writes, 6).hearing(BandWrite::Float(BandFloat::Gain, d.gain)));
    assert(band.hearing_first(writes, 8) == band.hearing_first(writes, 7).hearing(BandWrite::Float(BandFloat::Q, d.q)));
    assert(band.hearing_first(writes, 9) == band.hearing_first(writes, 8).hearing(BandWrite::Float(BandFloat::DynRange, d.dyn_range)));
    assert(band.hearing_first(writes, 10) == band.hearing_first(writes, 9).hearing(BandWrite::Float(BandFloat::Threshold, d.threshold)));
    lemma_reset_2(band.hearing_first(writes, 5), d);
    assert(band.hearing_first(writes, 11) == band.hearing_first(writes, 10).hearing(BandWrite::Float(BandFloat::Attack, d.attack)));
    assert(band.hearing_first(writes, 12) == band.hearing_first(writes, 11).hearing(BandWrite::Float(BandFloat::Release, d.release)));
    assert(band.hearing_first(writes, 13) == band.hearing_first(writes, 12).hearing(BandWrite::Float(BandFloat::Resonance, d.resonance)));
    assert(band.hearing_first(writes, 14) == band.hearing_first(writes, 13).hearing(BandWrite::Dynamic(d.dynamic)));
    assert(band.hearing_first(writes, 15) == band.hearing_first(writes, 14).hearing(BandWrite::ResMode(d.res_mode)));
    lemma_reset_3(band.hearing_first(writes, 10), d);
    assert(band.hearing_first(writes, 16) == band.hearing_first(writes, 15).hearing(BandWrite::Float(BandFloat::ResRange, d.res_range)));
    assert(band.hearing_first(writes, 17) == band.hearing_first(writes, 16).hearing(BandWrite::Float(BandFloat::ResSens, d.res_sens)));
    assert(band.hearing_first(writes, 18) == band.hearing_first(writes, 17).hearing(BandWrite::Float(BandFloat::ResWidth, d.res_width)));
    assert(band.hearing_first(writes, 19) == band.hearing_first(writes, 18).hearing(BandWrite::Float(BandFloat::ResAttack, d.res_attack)));
    assert(band.hearing_first(writes, 20) == band.hearing_first(writes, 19).hearing(BandWrite::Float(BandFloat::ResRelease, d.res_release)));
    lemma_reset_4(band.hearing_first(writes, 15), d);
}

proof fn lemma_overwrite_list(band: BandParams, d: BandSnapshot, writes: Seq<BandWrite>)
    requires
        writes =~= seq![
            BandWrite::Kind(d.kind),
            BandWrite::Channel(d.channel),
            BandWrite::Slope(d.slope),
            BandWrite::DynMode(d.dyn_mode),
            BandWrite::Float(BandFloat::Freq, d.freq),
            BandWrite::Float(BandFloat::Gain, d.gain),
            BandWrite::Float(BandFloat::Q, d.q),
            BandWrite::Float(BandFloat::DynRange, d.dyn_range),
            BandWrite::Float(BandFloat::Threshold, d.threshold),
            BandWrite::Float(BandFloat::Attack, d.attack),
            BandWrite::Float(BandFloat::Release, d.release),
            BandWrite::Float(BandFloat::Resonance, d.resonance),
            BandWrite::Enabled(d.enabled),
            BandWrite::Dynamic(d.dynamic),
            BandWrite::ResMode(d.res_mode),
            BandWrite::Float(BandFloat::ResRange, d.res_range),
            BandWrite::Float(BandFloat::ResSens, d.res_sens),
            BandWrite::Float(BandFloat::ResWidth, d.res_width),
            BandWrite::Float(BandFloat::ResAttack, d.res_attack),
            BandWrite::Float(BandFloat::ResRelease, d.res_release),
        ],
    ensures
        band.after(BandWrite::passed(writes)) == band.overwritten(d),
{
    band.lemma_hearing_is_what_passes(writes);
    assert(band.hearing_first(writes, 0) == band);
    assert(band.hearing_first(writes, 1) == band.hearing_first(writes, 0).hearing(BandWrite::Kind(d.kind)));
    assert(band.hearing_first(writes, 2) == band.hearing_first(writes, 1).hearing(BandWrite::Channel(d.channel)));
    assert(band.hearing_first(writes, 3) == band.hearing_first(writes, 2).hearing(BandWrite::Slope(d.slope)));
    assert(band.hearing_first(writes, 4) == band.hearing_first(writes, 3).hearing(BandWrite::DynMode(d.dyn_mode)));
    assert(band.hearing_first(writes, 5) == band.hearing_first(writes, 4).hearing(BandWrite::Float(BandFloat::Freq, d.freq)));
    lemma_shape_1(band.hearing_first(writes, 0), d);
    assert(band.hearing_first(writes, 6) == band.hearing_first(writes, 5).hearing(BandWrite::Float(BandFloat::Gain, d.gain)));
    assert(band.hearing_first(writes, 7) == band.hearing_first(writes, 6).hearing(BandWrite::Float(BandFloat::Q, d.q)));
    assert(band.hearing_first(writes, 8) == band.hearing_first(writes, 7).hearing(BandWrite::Float(BandFloat::DynRange, d.dyn_range)));
    assert(band.hearing_first(writes, 9) == band.hearing_first(writes, 8).hearing(BandWrite::Float(BandFloat::Threshold, d.threshold)));
    assert(band.hearing_first(writes, 10) == band.hearing_first(writes, 9).hearing(BandWrite::Float(BandFloat::Attack, d.attack)));
    lemma_shape_2(band.hearing_first(writes, 5), d);
    assert(band.hearing_first(writes, 11) == band.hearing_first(writes, 10).hearing(BandWrite::Float(BandFloat::Release, d.release)));
    assert(band.hearing_first(writes, 12) == band.hearing_first(writes, 11).hearing(BandWrite::Float(BandFloat::Resonance, d.resonance)));
    assert(band.hearing_first(writes, 13) == band.hearing_first(writes, 12).hearing(BandWrite::Enabled(d.enabled)));
    assert(band.hearing_first(writes, 14) == band.hearing_first(writes, 13).hearing(BandWrite::Dynamic(d.dynamic)));
    assert(band.hearing_first(writes, 15) == band.hearing_first(writes, 14).hearing(BandWrite::ResMode(d.res_mode)));
    lemma_shape_3(band.hearing_first(writes, 10), d);
    assert(band.hearing_first(writes, 16) == band.hearing_first(writes, 15).hearing(BandWrite::Float(BandFloat::ResRange, d.res_range)));
    assert(band.hearing_first(writes, 17) == band.hearing_first(writes, 16).hearing(BandWrite::Float(BandFloat::ResSens, d.res_sens)));
    assert(band.hearing_first(writes, 18) == band.hearing_first(writes, 17).hearing(BandWrite::Float(BandFloat::ResWidth, d.res_width)));
    assert(band.hearing_first(writes, 19) == band.hearing_first(writes, 18).hearing(BandWrite::Float(BandFloat::ResAttack, d.res_attack)));
    assert(band.hearing_first(writes, 20) == band.hearing_first(writes, 19).hearing(BandWrite::Float(BandFloat::ResRelease, d.res_release)));
    lemma_shape_4(band.hearing_first(writes, 15), d);
}

proof fn lemma_defaults_are_finite()
    ensures
        forall|f: BandFloat| (#[trigger] BandParams::fresh().float(f)).finite(),
{
    assert forall|f: BandFloat| (#[trigger] BandParams::fresh().float(f)).finite() by {
        f.limits_are_valid();
        assert(BandParams::fresh().float(f) == f.limits_spec().default);
    }
}

/// Claiming a slot for a band leaves nothing of what the slot held before.
pub proof fn a_claimed_slot_holds_only_the_band(band: BandParams, b: BandSnapshot)
    ensures
        band.after(recall_list(b)) == BandParams::recalled(b),
{
    let reset = BandWrite::passed(reset_list());
    let shape = BandWrite::passed(overwrite_list(b));
    let flag = seq![BandWrite::Active(true)];
    lemma_defaults_are_finite();
    lemma_reset_list(band, BandParams::fresh(), reset_list());
    lemma_overwrite_list(band.reset(), b, overwrite_list(b));
    band.lemma_after_both(reset, shape);
    band.lemma_after_both(reset + shape, flag);
    assert(flag.drop_last() =~= Seq::<BandWrite>::empty());
    let shaped = band.reset().overwritten(b);
    assert(shaped.after(flag.drop_last()) == shaped);
    assert(shaped.after(flag) == shaped.with(BandWrite::Active(true)));
}

proof fn lemma_on_slot_after(s: Settings, slot: usize, writes: Seq<BandWrite>)
    requires
        slot < s.bands.len(),
    ensures
        s.after(BandWrite::on_slot(slot, writes)) == (Settings {
            bands: s.bands.update(slot as int, s.bands[slot as int].after(writes)),
            ..s
        }),
    decreases writes.len(),
{
    if writes.len() == 0 {
        assert(s.bands.update(slot as int, s.bands[slot as int]) =~= s.bands);
    } else {
        lemma_on_slot_after(s, slot, writes.drop_last());
        assert(BandWrite::on_slot(slot, writes).drop_last() =~= BandWrite::on_slot(slot, writes.drop_last()));
        let before = s.after(BandWrite::on_slot(slot, writes.drop_last()));
        assert(before.with(Write::Band(slot, writes.last())).bands =~= s.bands.update(
            slot as int,
            s.bands[slot as int].after(writes),
        ));
    }
}

impl BandParams {
    /// A list of one write is that write.
    pub proof fn after_one_write(self, w: BandWrite)
        ensures
            self.after(seq![w]) == self.with(w),
            self.after(Seq::empty()) == self,
    {
        assert(seq![w].drop_last() =~= Seq::<BandWrite>::empty());
        assert(self.after(seq![w].drop_last()) == self);
    }
}

impl Settings {
    /// Writes to a slot are heard by that slot, one after the other, and by
    /// nothing else.
    pub proof fn after_writes_to_a_slot(
        self,
        writes: Seq<Write>,
        slot: usize,
        more: Seq<BandWrite>,
    )
        requires
            self.bands.len() == MAX_BANDS,
            slot < MAX_BANDS,
        ensures
            self.after(writes + BandWrite::to_slot(slot, more)) == (Settings {
                bands: self.after(writes).bands.update(
                    slot as int,
                    self.after(writes).bands[slot as int].after(more),
                ),
                ..self.after(writes)
            }),
            self.after(writes + BandWrite::to_slot(slot, more)).bands.len() == MAX_BANDS,
    {
        self.writing_keeps_the_slots(writes);
        self.after_one_list_and_another(writes, BandWrite::on_slot(slot, more));
        lemma_on_slot_after(self.after(writes), slot, more);
    }
}

/// Make some writes to a slot, but for numbers that are not finite.
fn write_all(setter: &mut ParamSetter, slot: usize, writes: &[BandWrite])
    requires
        old(setter).orderly(),
    ensures
        final(setter)@ == old(setter)@ + BandWrite::on_slot(slot, BandWrite::passed(writes@)),
        final(setter).orderly(),
{
    let mut i: usize = 0;
    assert(setter@ =~= old(setter)@ + BandWrite::on_slot(slot, BandWrite::passed(writes@.take(0))));
    while i < writes.len()
        invariant
            i <= writes.len(),
            setter.orderly(),
            setter@ == old(setter)@ + BandWrite::on_slot(slot, BandWrite::passed(writes@.take(i as int))),
        decreases writes.len() - i,
    {
        let w: BandWrite = writes[i];
        let passes: bool = match w {
            BandWrite::Float(_, v) => v.is_finite(),
            _ => true,
        };
        proof {
            let upto = writes@.take(i + 1);
            assert(upto.drop_last() =~= writes@.take(i as int));
            assert(upto.last() == w);
        }
        if passes {
            setter.set(Write::Band(slot, w));
        }
        i = i + 1;
        assert(setter@ =~= old(setter)@ + BandWrite::on_slot(
            slot,
            BandWrite::passed(writes@.take(i as int)),
        ));
    }
    assert(writes@.take(i as int) =~= writes@);
}

/// Put a slot back to its defaults before a recall writes into it.
pub fn reset_band(setter: &mut ParamSetter, slot: usize)
    requires
        old(setter).orderly(),
    ensures
        final(setter)@ == old(setter)@ + BandWrite::on_slot(slot, BandWrite::passed(reset_list())),
        final(setter).orderly(),
{
    let d: BandParams = BandParams::default();
    let writes: [BandWrite; 20] = [
        BandWrite::Enabled(d.enabled),
        BandWrite::Kind(d.kind),
        BandWrite::Channel(d.channel),
        BandWrite::Slope(d.slope),
        BandWrite::DynMode(d.dyn_mode),
        BandWrite::Float(BandFloat::Freq, d.freq),
        BandWrite::Float(BandFloat::Gain, d.gain),
        BandWrite::Float(BandFloat::Q, d.q),
        BandWrite::Float(BandFloat::DynRange, d.dyn_range),
        BandWrite::Float(BandFloat::Threshold, d.threshold),
        BandWrite::Float(BandFloat::Attack, d.attack),
        BandWrite::Float(BandFloat::Release, d.release),
        BandWrite::Float(BandFloat::Resonance, d.resonance),
        BandWrite::Dynamic(d.dynamic),
        BandWrite::ResMode(d.res_mode),
        BandWrite::Float(BandFloat::ResRange, d.res_range),
        BandWrite::Float(BandFloat::ResSens, d.res_sens),
        BandWrite::Float(BandFloat::ResWidth, d.res_width),
        BandWrite::Float(BandFloat::ResAttack, d.res_attack),
        BandWrite::Float(BandFloat::ResRelease, d.res_release),
    ];
    assert(writes@ =~= reset_list());
    write_all(setter, slot, &writes);
}

fn write_band(setter: &mut ParamSetter, slot: usize, snapshot: &BandSnapshot)
    requires
        old(setter).orderly(),
    ensures
        final(setter)@ == old(setter)@ + BandWrite::on_slot(
            slot,
            BandWrite::passed(overwrite_list(*snapshot)),
        ),
        final(setter).orderly(),
{
    let b: BandSnapshot = *snapshot;
    let writes: [BandWrite; 20] = [
        BandWrite::Kind(b.kind),
        BandWrite::Channel(b.channel),
        BandWrite::Slope(b.slope),
        BandWrite::DynMode(b.dyn_mode),
        BandWrite::Float(BandFloat::Freq, b.freq),
        BandWrite::Float(BandFloat::Gain, b.gain),
        BandWrite::Float(BandFloat::Q, b.q),
        BandWrite::Float(BandFloat::DynRange, b.dyn_range),
        BandWrite::Float(BandFloat::Threshold, b.threshold),
        BandWrite::Float(BandFloat::Attack, b.attack),
        BandWrite::Float(BandFloat::Release, b.release),
        BandWrite::Float(BandFloat::Resonance, b.resonance),
        BandWrite::Enabled(b.enabled),
        BandWrite::Dynamic(b.dynamic),
        BandWrite::ResMode(b.res_mode),
        BandWrite::Float(BandFloat::ResRange, b.res_range),
        BandWrite::Float(BandFloat::ResSens, b.res_sens),
        BandWrite::Float(BandFloat::ResWidth, b.res_width),
        BandWrite::Float(BandFloat::ResAttack, b.res_attack),
        BandWrite::Float(BandFloat::ResRelease, b.res_release),
    ];
    assert(writes@ =~= overwrite_list(b));
    write_all(setter, slot, &writes);
}

impl ResonanceWrite {
    /// A write that is passed on to the host: anything but a number that is not
    /// finite.
    pub open spec fn passes(self) -> bool {
        self matches ResonanceWrite::Float(_, v) ==> v.finite()
    }

    /// The writes of a list that are passed on, in order.
    pub open spec fn passed(writes: Seq<ResonanceWrite>) -> Seq<Write>
        decreases writes.len(),
    {
        if writes.len() == 0 {
            Seq::empty()
        } else {
            let before = ResonanceWrite::passed(writes.drop_last());
            if writes.last().passes() {
                before.push(Write::Resonance(writes.last()))
            } else {
                before
            }
        }
    }
}

impl ResonanceParams {
    /// These parameters with a snapshot written over them. Numbers that are not
    /// finite leave what was there, and so does everything a snapshot does not
    /// carry.
    pub open spec fn overwritten(self, r: ResonanceSnapshot) -> ResonanceParams {
        ResonanceParams {
            delta: self.delta,
            enabled: r.enabled,
            depth: r.depth.or_fallback(self.depth),
            sharpness: r.sharpness.or_fallback(self.sharpness),
            mix: r.mix.or_fallback(self.mix),
            threshold: r.threshold.or_fallback(self.threshold),
            attack: r.attack.or_fallback(self.attack),
            release: r.release.or_fallback(self.release),
            low: r.low.or_fallback(self.low),
            high: r.high.or_fallback(self.high),
            mode: r.mode,
            quality: r.quality,
            range: r.range.or_fallback(self.range),
        }
    }

    /// These parameters after as much of one write as is passed on.
    #[verifier::opaque]
    spec fn hearing(self, w: ResonanceWrite) -> ResonanceParams {
        if w.passes() {
            self.with(w)
        } else {
            self
        }
    }

    /// These parameters after as much of the first `n` writes as is passed on.
    spec fn hearing_first(self, writes: Seq<ResonanceWrite>, n: nat) -> ResonanceParams
        decreases n,
    {
        if n == 0 {
            self
        } else {
            self.hearing_first(writes, (n - 1) as nat).hearing(writes[n - 1])
        }
    }

    proof fn lemma_hearing_a_prefix(self, writes: Seq<ResonanceWrite>, n: nat)
        requires
            n < writes.len(),
        ensures
            self.hearing_first(writes.drop_last(), n) == self.hearing_first(writes, n),
        decreases n,
    {
        if n > 0 {
            self.lemma_hearing_a_prefix(writes, (n - 1) as nat);
        }
    }
}

proof fn lemma_resonance_hears_what_passes(s: Settings, writes: Seq<ResonanceWrite>)
    ensures
        s.after(ResonanceWrite::passed(writes)) == (Settings {
            resonance: s.resonance.hearing_first(writes, writes.len()),
            ..s
        }),
    decreases writes.len(),
{
    if writes.len() > 0 {
        let shorter = writes.drop_last();
        lemma_resonance_hears_what_passes(s, shorter);
        s.resonance.lemma_hearing_a_prefix(writes, shorter.len());
        let before = ResonanceWrite::passed(shorter);
        s.after_one_more(before, Write::Resonance(writes.last()));
        reveal(ResonanceParams::hearing);
    }
}

/// The writes that give the resonance stage the shape of a snapshot.
pub open spec fn resonance_list(r: ResonanceSnapshot) -> Seq<ResonanceWrite> {
    seq![
        ResonanceWrite::Enabled(r.enabled),
        ResonanceWrite::Float(ResonanceFloat::Depth, r.depth),
        ResonanceWrite::Float(ResonanceFloat::Sharpness, r.sharpness),
        ResonanceWrite::Float(ResonanceFloat::Mix, r.mix),
        ResonanceWrite::Float(ResonanceFloat::Threshold, r.threshold),
        ResonanceWrite::Float(ResonanceFloat::Attack, r.attack),
        ResonanceWrite::Float(ResonanceFloat::Release, r.release),
        ResonanceWrite::Float(ResonanceFloat::Low, r.low),
        ResonanceWrite::Float(ResonanceFloat::High, r.high),
        ResonanceWrite::Mode(r.mode),
        ResonanceWrite::Quality(r.quality),
        ResonanceWrite::Float(ResonanceFloat::Range, r.range),
    ]
}

proof fn lemma_stage_1(p: ResonanceParams, r: ResonanceSnapshot)
    ensures
        p.hearing(
            ResonanceWrite::Enabled(r.enabled),
        ).hearing(
            ResonanceWrite::Float(ResonanceFloat::Depth, r.depth),
        ).hearing(
            ResonanceWrite::Float(ResonanceFloat::Sharpness, r.sharpness),
        ).hearing(
            ResonanceWrite::Float(ResonanceFloat::Mix, r.mix),
        ) == (ResonanceParams {
            enabled: r.enabled,
            depth: r.depth.or_fallback(p.depth),
            sharpness: r.sharpness.or_fallback(p.sharpness),
            mix: r.mix.or_fallback(p.mix),
            ..p
        }),
{
    reveal(ResonanceParams::hearing);
}

proof fn lemma_stage_2(p: ResonanceParams, r: ResonanceSnapshot)
    ensures
        p.hearing(
            ResonanceWrite::Float(ResonanceFloat::Threshold, r.threshold),
        ).hearing(
            ResonanceWrite::Float(ResonanceFloat::Attack, r.attack),
        ).hearing(
            ResonanceWrite::Float(ResonanceFloat::Release, r.release),
        ).hearing(
            ResonanceWrite::Float(ResonanceFloat::Low, r.low),
        ) == (ResonanceParams {
            threshold: r.threshold.or_fallback(p.threshold),
            attack: r.attack.or_fallback(p.attack),
            release: r.release.or_fallback(p.release),
            low: r.low.or_fallback(p.low),
            ..p
        }),
{
    reveal(ResonanceParams::hearing);
}

proof fn lemma_stage_3(p: ResonanceParams, r: ResonanceSnapshot)
    ensures
        p.hearing(
            ResonanceWrite::Float(ResonanceFloat::High, r.high),
        ).hearing(
            ResonanceWrite::Mode(r.mode),
        ).hearing(
            ResonanceWrite::Quality(r.quality),
        ).hearing(
            ResonanceWrite::Float(ResonanceFloat::Range, r.range),
        ) == (ResonanceParams {
            high: r.high.or_fallback(p.high),
            mode: r.mode,
            quality: r.quality,
            range: r.range.or_fallback(p.range),
            ..p
        }),
{
    reveal(ResonanceParams::hearing);
}

proof fn lemma_resonance_list(s: Settings, r: ResonanceSnapshot)
    ensures
        s.after(ResonanceWrite::passed(resonance_list(r))) == (Settings {
            resonance: s.resonance.overwritten(r),
            ..s
        }),
{
    let writes = resonance_list(r);
    let p = s.resonance;
    lemma_resonance_hears_what_passes(s, writes);
    assert(p.hearing_first(writes, 0) == p);
    assert(p.hearing_first(writes, 1) == p.hearing_first(writes, 0).hearing(
        ResonanceWrite::Enabled(r.enabled),
    ));
    assert(p.hearing_first(writes, 2) == p.hearing_first(writes, 1).hearing(
        ResonanceWrite::Float(ResonanceFloat::Depth, r.depth),
    ));
    assert(p.hearing_first(writes, 3) == p.hearing_first(writes, 2).hearing(
        ResonanceWrite::Float(ResonanceFloat::Sharpness, r.sharpness),
    ));
    assert(p.hearing_first(writes, 4) == p.hearing_first(writes, 3).hearing(
        ResonanceWrite::Float(ResonanceFloat::Mix, r.mix),
    ));
    lemma_stage_1(p.hearing_first(writes, 0), r);
    assert(p.hearing_first(writes, 5) == p.hearing_first(writes, 4).hearing(
        ResonanceWrite::Float(ResonanceFloat::Threshold, r.threshold),
    ));
    assert(p.hearing_first(writes, 6) == p.hearing_first(writes, 5).hearing(
        ResonanceWrite::Float(ResonanceFloat::Attack, r.attack),
    ));
    assert(p.hearing_first(writes, 7) == p.hearing_first(writes, 6).hearing(
        ResonanceWrite::Float(ResonanceFloat::Release, r.release),
    ));
    assert(p.hearing_first(writes, 8) == p.hearing_first(writes, 7).hearing(
        ResonanceWrite::Float(ResonanceFloat::Low, r.low),
    ));
    lemma_stage_2(p.hearing_first(writes, 4), r);
    assert(p.hearing_first(writes, 9) == p.hearing_first(writes, 8).hearing(
        ResonanceWrite::Float(ResonanceFloat::High, r.high),
    ));
    assert(p.hearing_first(writes, 10) == p.hearing_first(writes, 9).hearing(
        ResonanceWrite::Mode(r.mode),
    ));
    assert(p.hearing_first(writes, 11) == p.hearing_first(writes, 10).hearing(
        ResonanceWrite::Quality(r.quality),
    ));
    assert(p.hearing_first(writes, 12) == p.hearing_first(writes, 11).hearing(
        ResonanceWrite::Float(ResonanceFloat::Range, r.range),
    ));
    lemma_stage_3(p.hearing_first(writes, 8), r);
}

/// Apply the resonance stage from a snapshot.
pub fn write_resonance(setter: &mut ParamSetter, snapshot: &ResonanceSnapshot)
    requires
        old(setter).orderly(),
    ensures
        final(setter)@ == old(setter)@ + ResonanceWrite::passed(resonance_list(*snapshot)),
        final(setter).orderly(),
{
    let r: ResonanceSnapshot = *snapshot;
    let writes: [ResonanceWrite; 12] = [
        ResonanceWrite::Enabled(r.enabled),
        ResonanceWrite::Float(ResonanceFloat::Depth, r.depth),
        ResonanceWrite::Float(ResonanceFloat::Sharpness, r.sharpness),
        ResonanceWrite::Float(ResonanceFloat::Mix, r.mix),
        ResonanceWrite::Float(ResonanceFloat::Threshold, r.threshold),
        ResonanceWrite::Float(ResonanceFloat::Attack, r.attack),
        ResonanceWrite::Float(ResonanceFloat::Release, r.release),
        ResonanceWrite::Float(ResonanceFloat::Low, r.low),
        ResonanceWrite::Float(ResonanceFloat::High, r.high),
        ResonanceWrite::Mode(r.mode),
        ResonanceWrite::Quality(r.quality),
        ResonanceWrite::Float(ResonanceFloat::Range, r.range),
    ];
    assert(writes@ =~= resonance_list(r));
    let mut i: usize = 0;
    assert(setter@ =~= old(setter)@ + ResonanceWrite::passed(writes@.take(0)));
    while i < 12
        invariant
            i <= 12,
            setter.orderly(),
            setter@ == old(setter)@ + ResonanceWrite::passed(writes@.take(i as int)),
        decreases 12 - i,
    {
        let w: ResonanceWrite = writes[i];
        let passes: bool = match w {
            ResonanceWrite::Float(_, v) => v.is_finite(),
            _ => true,
        };
        proof {
            let upto = writes@.take(i + 1);
            assert(upto.drop_last() =~= writes@.take(i as int));
            assert(upto.last() == w);
        }
        if passes {
            setter.set(Write::Resonance(w));
        }
        i = i + 1;
        assert(setter@ =~= old(setter)@ + ResonanceWrite::passed(writes@.take(i as int)));
    }
    assert(writes@.take(12) =~= writes@);
}

/// The shape of a band drawn at a point of the display.
pub open spec fn drawn_band(freq: Single, gain: Single, view: ChannelView) -> BandSnapshot {
    BandSnapshot { freq, gain, channel: view.channel_of_new_band(), ..BandSnapshot::fresh() }
}

/// The lowest free slot among some leading ones.
pub open spec fn first_free(bands: Seq<BandParams>) -> Option<usize>
    decreases bands.len(),
{
    if bands.len() == 0 {
        None
    } else {
        match first_free(bands.drop_last()) {
            Some(slot) => Some(slot),
            None => if bands.last().active {
                None
            } else {
                Some((bands.len() - 1) as usize)
            },
        }
    }
}

proof fn lemma_first_free(bands: Seq<BandParams>, slot: Option<usize>)
    requires
        bands.len() <= MAX_BANDS,
        match slot {
            Some(slot) => {
                &&& slot < bands.len()
                &&& !bands[slot as int].active
                &&& forall|lower: int| 0 <= lower < slot ==> bands[lower].active
            },
            None => forall|slot: int| 0 <= slot < bands.len() ==> bands[slot].active,
        },
    ensures
        first_free(bands) == slot,
    decreases bands.len(),
{
    if bands.len() > 0 {
        let before = bands.drop_last();
        if slot == Some((bands.len() - 1) as usize) {
            lemma_first_free(before, None);
        } else {
            lemma_first_free(before, slot);
        }
    }
}

/// The first free slot is not in use, and every slot below it is; there is none
/// when every slot is in use.
pub proof fn the_first_free_slot_is_the_lowest(bands: Seq<BandParams>, slot: usize)
    requires
        bands.len() <= MAX_BANDS,
    ensures
        first_free(bands) == Some(slot) <==> {
            &&& slot < bands.len()
            &&& !bands[slot as int].active
            &&& forall|lower: int| 0 <= lower < slot ==> (#[trigger] bands[lower]).active
        },
        first_free(bands) is None <==> forall|k: int|
            0 <= k < bands.len() ==> (#[trigger] bands[k]).active,
    decreases bands.len(),
{
    if bands.len() > 0 {
        let last = bands.len() - 1;
        let before = bands.drop_last();
        the_first_free_slot_is_the_lowest(before, slot);
        assert(forall|k: int| 0 <= k < last ==> before[k] == #[trigger] bands[k]);
        if first_free(before) is None {
            assert forall|k: int| 0 <= k < last implies (#[trigger] bands[k]).active by {
                assert(before[k].active);
            }
            assert(bands[last] == bands.last());
        } else {
            the_first_free_slot_is_the_lowest(before, first_free(before)->0);
            let k = first_free(before)->0 as int;
            assert(!bands[k].active);
        }
        if first_free(before) == Some(slot) {
            assert forall|lower: int| 0 <= lower < slot implies (
            #[trigger] bands[lower]).active by {
                assert(before[lower].active);
            }
        }
        if slot < last && !bands[slot as int].active && (forall|lower: int|
            0 <= lower < slot ==> (#[trigger] bands[lower]).active) {
            assert forall|lower: int| 0 <= lower < slot implies (
            #[trigger] before[lower]).active by {
                assert(bands[lower].active);
            }
            assert(first_free(before) == Some(slot));
        }
    }
}

/// Claim the lowest free slot and give it a starting shape.
///
/// A band created while looking at one channel belongs to that channel,
/// otherwise it would appear in a view that is not showing it.
pub fn add_band(frame: &mut Frame, freq: Single, gain: Single, view: ChannelView) -> (r: Option<
    usize,
>)
    requires
        old(frame).setter.orderly(),
    ensures
        r == first_free(old(frame).params.bands@),
        r matches Some(slot) ==> slot < MAX_BANDS,
        final(frame).adds(
            *old(frame),
            match r {
                Some(slot) => BandWrite::on_slot(slot, recall_list(drawn_band(freq, gain, view))),
                None => Seq::empty(),
            },
        ),
        final(frame).transient == old(frame).transient,
{
    let free: Option<usize> = free_slot(&frame.params);
    proof {
        lemma_first_free(frame.params.bands@, free);
    }
    match free {
        None => {
            assert(frame.setter@ =~= old(frame).setter@ + Seq::<Write>::empty());
            None
        },
        Some(slot) => {
            let mut band: BandSnapshot = BandSnapshot::default();
            band.freq = freq;
            band.gain = gain;
            band.channel = view.new_band_channel();
            claim_slot(&mut frame.setter, slot, &band);
            Some(slot)
        },
    }
}

/// Give a slot to a band.
fn claim_slot(setter: &mut ParamSetter, slot: usize, band: &BandSnapshot)
    requires
        old(setter).orderly(),
    ensures
        final(setter)@ == old(setter)@ + BandWrite::on_slot(slot, recall_list(*band)),
        final(setter).orderly(),
{
    reset_band(setter, slot);
    write_band(setter, slot, band);
    set_bool(setter, BoolParam::Active(slot), true);
    assert(setter@ =~= old(setter)@ + BandWrite::on_slot(slot, recall_list(*band)));
}

/// The transient state once a slot is no longer in use: a band that is gone
/// cannot be soloed.
pub open spec fn unsoloed(t: TransientState, slot: usize) -> TransientState {
    if t.soloed() == Some(slot) {
        TransientState { held: -1i32, ..t }
    } else {
        t
    }
}

pub fn remove_band(frame: &mut Frame, slot: usize)
    requires
        old(frame).setter.orderly(),
    ensures
        final(frame).adds(*old(frame), BandWrite::to_slot(slot, seq![BandWrite::Active(false)])),
        final(frame).transient == unsoloed(old(frame).transient, slot),
        final(frame).transient.soloed() != Some(slot),
{
    if slot < MAX_BANDS {
        set_bool(&mut frame.setter, BoolParam::Active(slot), false);
    }
    if let Some(soloed) = frame.transient.solo() {
        if soloed == slot {
            frame.transient.set_solo(None);
        }
    }
    assert(frame.setter@ =~= old(frame).setter@ + BandWrite::to_slot(slot, seq![BandWrite::Active(false)]));
}

/// The writes that free the slots from `used` up, among the first `n`: one for
/// each that is in use.
pub open spec fn free_list(bands: Seq<BandParams>, used: int, n: int) -> Seq<Write>
    decreases n,
{
    if n <= 0 {
        Seq::empty()
    } else {
        let before = free_list(bands, used, n - 1);
        if n - 1 >= used && bands[n - 1].active {
            before.push(Write::Band((n - 1) as usize, BandWrite::Active(false)))
        } else {
            before
        }
    }
}

/// The writes that claim the first `n` slots for the first `n` bands.
pub open spec fn claim_list(bands: Seq<BandSnapshot>, n: int) -> Seq<Write>
    decreases n,
{
    if n <= 0 {
        Seq::empty()
    } else {
        claim_list(bands, n - 1) + BandWrite::on_slot((n - 1) as usize, recall_list(bands[n - 1]))
    }
}

/// The writes that replace everything at once: the slots that are not wanted are
/// freed, the others claimed, then come the output gain and the resonance stage.
pub open spec fn apply_list(bands: Seq<BandParams>, s: Scene) -> Seq<Write> {
    free_list(bands, s.bands.len() as int, bands.len() as int) + claim_list(
        s.bands,
        s.bands.len() as int,
    ) + FloatParam::OutputGain.writes(s.output_gain) + ResonanceWrite::passed(
        resonance_list(s.resonance),
    )
}

/// Replace everything at once: an A/B swap, a preset, a reset.
///
/// Slots the snapshot does not name are freed, so a swap cannot leave a stray
/// band from the other slot behind. The DSP is flushed as well: a recall moves
/// every band at once, and without it a chorus of filters rings out on settings
/// that no longer exist.
pub fn apply_snapshot(frame: &mut Frame, snapshot: &Snapshot)
    requires
        old(frame).setter.orderly(),
    ensures
        final(frame).adds(
            *old(frame),
            apply_list(old(frame).params.bands@, snapshot@.fitted()),
        ),
        final(frame).transient == (TransientState { held: -1i32, flush: true }),
{
    let snapshot: Snapshot = snapshot.sanitized();
    let used: usize = snapshot.bands.len();
    let ghost start = frame.setter@;
    let ghost live = frame.params.bands@;
    let ghost wanted = snapshot@.bands;

    let mut slot: usize = 0;
    assert(frame.setter@ =~= start + free_list(live, used as int, 0));
    while slot < MAX_BANDS
        invariant
            slot <= MAX_BANDS,
            frame.setter.orderly(),
            frame.params == old(frame).params,
            live == frame.params.bands@,
            frame.setter@ == start + free_list(live, used as int, slot as int),
        decreases MAX_BANDS - slot,
    {
        if slot >= used && frame.params.bands[slot].active {
            set_bool(&mut frame.setter, BoolParam::Active(slot), false);
        }
        slot = slot + 1;
        assert(frame.setter@ =~= start + free_list(live, used as int, slot as int));
    }
    let ghost freed = free_list(live, used as int, MAX_BANDS as int);

    let mut i: usize = 0;
    assert(frame.setter@ =~= start + freed + claim_list(wanted, 0));
    while i < used
        invariant
            i <= used == snapshot.bands.len(),
            wanted == snapshot@.bands,
            frame.setter.orderly(),
            frame.params == old(frame).params,
            frame.setter@ == start + freed + claim_list(wanted, i as int),
        decreases used - i,
    {
        claim_slot(&mut frame.setter, i, &snapshot.bands[i]);
        i = i + 1;
        assert(frame.setter@ =~= start + freed + claim_list(wanted, i as int));
    }

    set_float(&mut frame.setter, FloatParam::OutputGain, snapshot.output_gain);
    write_resonance(&mut frame.setter, &snapshot.resonance);
    frame.transient.set_solo(None);
    frame.transient.flush = true;
    assert(frame.setter@ =~= start + apply_list(live, snapshot@));
}

/// Reset to flat: no bands, unity output, the suppressor back to its defaults.
pub fn reset_all(frame: &mut Frame)
    requires
        old(frame).setter.orderly(),
    ensures
        final(frame).adds(
            *old(frame),
            apply_list(old(frame).params.bands@, Scene::flat()).push(Write::Bypass(false)),
        ),
        final(frame).transient == (TransientState { held: -1i32, flush: true }),
{
    proof {
        Scene::flat().fitting_keeps_what_fits();
    }
    let flat: Snapshot = Snapshot::default();
    apply_snapshot(frame, &flat);
    set_bool(&mut frame.setter, BoolParam::Bypass, false);
    assert(frame.setter@ =~= old(frame).setter@ + apply_list(
        old(frame).params.bands@,
        Scene::flat(),
    ).push(Write::Bypass(false)));
}

/// Everything the parameters currently say, for an A/B park or a preset save.
pub fn capture(params: &EquzxParams) -> (r: Snapshot)
    ensures
        r@ == Scene::of(params@),
{
    Snapshot::capture(params)
}

impl Settings {
    /// These settings with a scene in their place: its bands in the lowest slots
    /// and no others in use, its output gain, its resonance stage. What a scene
    /// does not carry stays: the bypass, the polarity, and how the stage is
    /// listened to.
    pub open spec fn replaced(self, s: Scene) -> Settings {
        Settings {
            output_gain: s.output_gain,
            bands: Seq::new(
                self.bands.len(),
                |slot: int|
                    if slot < s.bands.len() {
                        BandParams::recalled(s.bands[slot])
                    } else {
                        BandParams { active: false, ..self.bands[slot] }
                    },
            ),
            resonance: self.resonance.overwritten(s.resonance),
            ..self
        }
    }
}

proof fn lemma_free_list(p: Settings, used: int, n: int)
    requires
        0 <= n <= p.bands.len() <= MAX_BANDS,
    ensures
        p.after(free_list(p.bands, used, n)) == (Settings {
            bands: Seq::new(
                p.bands.len(),
                |slot: int|
                    if used <= slot < n {
                        BandParams { active: false, ..p.bands[slot] }
                    } else {
                        p.bands[slot]
                    },
            ),
            ..p
        }),
    decreases n,
{
    if n > 0 {
        lemma_free_list(p, used, n - 1);
        p.after_one_more(
            free_list(p.bands, used, n - 1),
            Write::Band((n - 1) as usize, BandWrite::Active(false)),
        );
    }
    assert(p.after(free_list(p.bands, used, n)).bands =~= Seq::new(
        p.bands.len(),
        |slot: int|
            if used <= slot < n {
                BandParams { active: false, ..p.bands[slot] }
            } else {
                p.bands[slot]
            },
    ));
}

proof fn lemma_claim_list(p: Settings, bands: Seq<BandSnapshot>, n: int)
    requires
        0 <= n <= bands.len() <= p.bands.len() <= MAX_BANDS,
    ensures
        p.after(claim_list(bands, n)) == (Settings {
            bands: Seq::new(
                p.bands.len(),
                |slot: int|
                    if slot < n {
                        BandParams::recalled(bands[slot])
                    } else {
                        p.bands[slot]
                    },
            ),
            ..p
        }),
    decreases n,
{
    if n > 0 {
        lemma_claim_list(p, bands, n - 1);
        let slot = (n - 1) as usize;
        let before = p.after(claim_list(bands, n - 1));
        let writes = recall_list(bands[n - 1]);
        p.after_one_list_and_another(claim_list(bands, n - 1), BandWrite::on_slot(slot, writes));
        lemma_on_slot_after(before, slot, writes);
        a_claimed_slot_holds_only_the_band(before.bands[slot as int], bands[n - 1]);
    }
    assert(p.after(claim_list(bands, n)).bands =~= Seq::new(
        p.bands.len(),
        |slot: int|
            if slot < n {
                BandParams::recalled(bands[slot])
            } else {
                p.bands[slot]
            },
    ));
}

/// A recall replaces everything a scene carries and nothing else.
pub proof fn a_recall_replaces_everything(p: Settings, s: Scene)
    requires
        p.bands.len() == MAX_BANDS,
        s.in_range(),
    ensures
        p.after(apply_list(p.bands, s)) == p.replaced(s),
{
    let used = s.bands.len() as int;
    let freed = free_list(p.bands, used, MAX_BANDS as int);
    let claimed = claim_list(s.bands, used);
    let gain = FloatParam::OutputGain.writes(s.output_gain);
    let stage = ResonanceWrite::passed(resonance_list(s.resonance));
    lemma_free_list(p, used, MAX_BANDS as int);
    let p1 = p.after(freed);
    p.after_one_list_and_another(freed, claimed);
    lemma_claim_list(p1, s.bands, used);
    let p2 = p1.after(claimed);
    p.after_one_list_and_another(freed + claimed, gain);
    let p3 = p2.after(gain);
    assert(p3 == p2.with(Write::OutputGain(s.output_gain))) by {
        assert(gain.drop_last() =~= Seq::<Write>::empty());
        assert(p2.after(gain.drop_last()) == p2);
    }
    p.after_one_list_and_another(freed + claimed + gain, stage);
    lemma_resonance_list(p3, s.resonance);
    assert(p3.after(stage).bands =~= p.replaced(s).bands);
}

proof fn lemma_listed_after_a_recall(bands: Seq<BandParams>, wanted: Seq<BandSnapshot>)
    requires
        bands.len() <= MAX_BANDS,
        forall|slot: int|
            0 <= slot < bands.len() ==> (#[trigger] bands[slot]).active == (slot < wanted.len()),
        forall|slot: int|
            0 <= slot < bands.len() && slot < wanted.len() ==> BandSnapshot::of(
                #[trigger] bands[slot],
            ) == wanted[slot],
    ensures
        BandView::listed(bands).map_values(|b: BandView| BandSnapshot::of_view(b))
            == wanted.take(
            if wanted.len() <= bands.len() {
                wanted.len() as int
            } else {
                bands.len() as int
            },
        ),
    decreases bands.len(),
{
    let listed = BandView::listed(bands).map_values(|b: BandView| BandSnapshot::of_view(b));
    if bands.len() > 0 {
        let shorter = bands.drop_last();
        assert forall|slot: int| 0 <= slot < shorter.len() implies (#[trigger] shorter[slot]).active
            == (slot < wanted.len()) by {
            assert(shorter[slot] == bands[slot]);
        }
        assert forall|slot: int|
            0 <= slot < shorter.len() && slot < wanted.len() implies BandSnapshot::of(
            #[trigger] shorter[slot],
        ) == wanted[slot] by {
            assert(shorter[slot] == bands[slot]);
        }
        lemma_listed_after_a_recall(shorter, wanted);
        let before = BandView::listed(shorter).map_values(
            |b: BandView| BandSnapshot::of_view(b),
        );
        let last = bands.len() - 1;
        assert(bands[last].active == (last < wanted.len()));
        if bands.last().active {
            assert(BandSnapshot::of(bands[last]) == wanted[last]);
            assert(listed =~= before.push(wanted[last]));
            assert(listed =~= wanted.take(bands.len() as int));
        } else {
            assert(listed =~= before);
        }
    } else {
        assert(listed =~= wanted.take(0));
    }
}

/// What a recall wrote is what a capture reads back: every band, every field,
/// in order.
pub proof fn a_recall_reads_back(p: Settings, s: Scene)
    requires
        p.bands.len() == MAX_BANDS,
        s.in_range(),
    ensures
        Scene::of(p.after(apply_list(p.bands, s))) == s,
{
    a_recall_replaces_everything(p, s);
    let after = p.replaced(s);
    assert forall|slot: int|
        0 <= slot < after.bands.len() && slot < s.bands.len() implies BandSnapshot::of(
        #[trigger] after.bands[slot],
    ) == s.bands[slot] by {
        assert(s.bands[slot].in_range());
        lemma_what_is_in_range_is_finite(s.bands[slot]);
    }
    lemma_listed_after_a_recall(after.bands, s.bands);
    assert(s.bands.take(s.bands.len() as int) =~= s.bands);
    lemma_a_stage_in_range_is_finite(s.resonance);
}

proof fn lemma_what_is_in_range_is_finite(b: BandSnapshot)
    requires
        b.in_range(),
    ensures
        b.freq.finite(),
        b.gain.finite(),
        b.q.finite(),
        b.dyn_range.finite(),
        b.threshold.finite(),
        b.attack.finite(),
        b.release.finite(),
        b.resonance.finite(),
        b.res_range.finite(),
        b.res_sens.finite(),
        b.res_width.finite(),
        b.res_attack.finite(),
        b.res_release.finite(),
{
    assert(BandFloat::Freq.limits_spec().accepts(b.float(BandFloat::Freq)));
    assert(BandFloat::Gain.limits_spec().accepts(b.float(BandFloat::Gain)));
    assert(BandFloat::Q.limits_spec().accepts(b.float(BandFloat::Q)));
    assert(BandFloat::DynRange.limits_spec().accepts(b.float(BandFloat::DynRange)));
    assert(BandFloat::Threshold.limits_spec().accepts(b.float(BandFloat::Threshold)));
    assert(BandFloat::Attack.limits_spec().accepts(b.float(BandFloat::Attack)));
    assert(BandFloat::Release.limits_spec().accepts(b.float(BandFloat::Release)));
    assert(BandFloat::Resonance.limits_spec().accepts(b.float(BandFloat::Resonance)));
    assert(BandFloat::ResRange.limits_spec().accepts(b.float(BandFloat::ResRange)));
    assert(BandFloat::ResSens.limits_spec().accepts(b.float(BandFloat::ResSens)));
    assert(BandFloat::ResWidth.limits_spec().accepts(b.float(BandFloat::ResWidth)));
    assert(BandFloat::ResAttack.limits_spec().accepts(b.float(BandFloat::ResAttack)));
    assert(BandFloat::ResRelease.limits_spec().accepts(b.float(BandFloat::ResRelease)));
}

proof fn lemma_a_stage_in_range_is_finite(r: ResonanceSnapshot)
    requires
        r.in_range(),
    ensures
        r.range.finite(),
        r.depth.finite(),
        r.sharpness.finite(),
        r.threshold.finite(),
        r.attack.finite(),
        r.release.finite(),
        r.low.finite(),
        r.high.finite(),
        r.mix.finite(),
{
    assert(ResonanceFloat::Range.limits_spec().accepts(r.float(ResonanceFloat::Range)));
    assert(ResonanceFloat::Depth.limits_spec().accepts(r.float(ResonanceFloat::Depth)));
    assert(ResonanceFloat::Sharpness.limits_spec().accepts(r.float(ResonanceFloat::Sharpness)));
    assert(ResonanceFloat::Threshold.limits_spec().accepts(r.float(ResonanceFloat::Threshold)));
    assert(ResonanceFloat::Attack.limits_spec().accepts(r.float(ResonanceFloat::Attack)));
    assert(ResonanceFloat::Release.limits_spec().accepts(r.float(ResonanceFloat::Release)));
    assert(ResonanceFloat::Low.limits_spec().accepts(r.float(ResonanceFloat::Low)));
    assert(ResonanceFloat::High.limits_spec().accepts(r.float(ResonanceFloat::High)));
    assert(ResonanceFloat::Mix.limits_spec().accepts(r.float(ResonanceFloat::Mix)));
}

/// Adding a band changes one slot, and what it held before is gone.
pub proof fn adding_a_band_claims_one_slot(p: Settings, slot: usize, b: BandSnapshot)
    requires
        slot < p.bands.len(),
    ensures
        p.after(BandWrite::on_slot(slot, recall_list(b))) == (Settings {
            bands: p.bands.update(slot as int, BandParams::recalled(b)),
            ..p
        }),
{
    lemma_on_slot_after(p, slot, recall_list(b));
    a_claimed_slot_holds_only_the_band(p.bands[slot as int], b);
}

/// A reset leaves no bands, unity output, the suppressor at its defaults and the
/// bypass off.
pub proof fn a_reset_leaves_everything_flat(p: Settings)
    requires
        p.bands.len() == MAX_BANDS,
    ensures
        Scene::of(p.after(apply_list(p.bands, Scene::flat()).push(Write::Bypass(false))))
            == Scene::flat(),
        !p.after(apply_list(p.bands, Scene::flat()).push(Write::Bypass(false))).bypass,
{
    Scene::flat().fitting_keeps_what_fits();
    a_recall_reads_back(p, Scene::flat());
    p.after_one_more(apply_list(p.bands, Scene::flat()), Write::Bypass(false));
}

/// A slot that is claimed for a band is in use and holds the band's own values, each
/// under its own name; a number that is not finite comes out at its default, and
/// whatever was there before is gone.
pub proof fn a_claimed_slot_holds_each_value(band: BandParams, b: BandSnapshot)
    ensures
        ({
            let now = band.after(recall_list(b));
            let d = BandParams::fresh();
            &&& now.active
            &&& now.kind == b.kind
            &&& now.channel == b.channel
            &&& now.slope == b.slope
            &&& now.enabled == b.enabled
            &&& now.dynamic == b.dynamic
            &&& now.dyn_mode == b.dyn_mode
            &&& now.res_mode == b.res_mode
            &&& now.freq == (if b.freq.finite() {
                b.freq
            } else {
                d.freq
            })
            &&& now.gain == (if b.gain.finite() {
                b.gain
            } else {
                d.gain
            })
            &&& now.q == (if b.q.finite() {
                b.q
            } else {
                d.q
            })
            &&& now.dyn_range == (if b.dyn_range.finite() {
                b.dyn_range
            } else {
                d.dyn_range
            })
            &&& now.threshold == (if b.threshold.finite() {
                b.threshold
            } else {
                d.threshold
            })
            &&& now.attack == (if b.attack.finite() {
                b.attack
            } else {
                d.attack
            })
            &&& now.release == (if b.release.finite() {
                b.release
            } else {
                d.release
            })
            &&& now.resonance == (if b.resonance.finite() {
                b.resonance
            } else {
                d.resonance
            })
            &&& now.res_range == (if b.res_range.finite() {
                b.res_range
            } else {
                d.res_range
            })
            &&& now.res_sens == (if b.res_sens.finite() {
                b.res_sens
            } else {
                d.res_sens
            })
            &&& now.res_width == (if b.res_width.finite() {
                b.res_width
            } else {
                d.res_width
            })
            &&& now.res_attack == (if b.res_attack.finite() {
                b.res_attack
            } else {
                d.res_attack
            })
            &&& now.res_release == (if b.res_release.finite() {
                b.res_release
            } else {
                d.res_release
            })
        }),
{
    a_claimed_slot_holds_only_the_band(band, b);
}

/// A recall puts the bands of the scene into the lowest slots, each with its own
/// values, and takes every other slot out of use without touching the rest of it.
/// The output gain and the stage are the scene's. The bypass, the polarity and what
/// is listened to stay as they were.
pub proof fn a_recall_puts_each_where_it_belongs(p: Settings, s: Scene, slot: int)
    requires
        p.bands.len() == MAX_BANDS,
        s.in_range(),
        0 <= slot < MAX_BANDS,
    ensures
        ({
            let after = p.after(apply_list(p.bands, s));
            &&& after.bands.len() == MAX_BANDS
            &&& slot < s.bands.len() ==> after.bands[slot] == p.bands[slot].after(
                recall_list(s.bands[slot]),
            )
            &&& slot >= s.bands.len() ==> after.bands[slot] == (BandParams {
                active: false,
                ..p.bands[slot]
            })
            &&& after.output_gain == s.output_gain
            &&& after.bypass == p.bypass
            &&& after.phase_invert == p.phase_invert
            &&& after.resonance.delta == p.resonance.delta
            &&& after.resonance.enabled == s.resonance.enabled
            &&& after.resonance.mode == s.resonance.mode
            &&& after.resonance.quality == s.resonance.quality
            &&& after.resonance.range == s.resonance.range
            &&& after.resonance.depth == s.resonance.depth
            &&& after.resonance.sharpness == s.resonance.sharpness
            &&& after.resonance.threshold == s.resonance.threshold
            &&& after.resonance.attack == s.resonance.attack
            &&& after.resonance.release == s.resonance.release
            &&& after.resonance.low == s.resonance.low
            &&& after.resonance.high == s.resonance.high
            &&& after.resonance.mix == s.resonance.mix
        }),
{
    a_recall_replaces_everything(p, s);
    lemma_a_stage_in_range_is_finite(s.resonance);
    if slot < s.bands.len() {
        a_claimed_slot_holds_only_the_band(p.bands[slot], s.bands[slot]);
    }
}

/// A band that is gone is not soloed, and its going leaves any other solo alone.
pub proof fn a_band_that_is_gone_is_not_soloed(t: TransientState, slot: usize)
    ensures
        unsoloed(t, slot).soloed() != Some(slot),
        t.soloed() != Some(slot) ==> unsoloed(t, slot) == t,
        unsoloed(t, slot).flush == t.flush,
{
}

} // verus!
