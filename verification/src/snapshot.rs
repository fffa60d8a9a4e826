//! Everything an A/B slot or a preset carries.

use vstd::prelude::*;
use vstd::std_specs::convert::FromSpecImpl;

use crate::limits::{BandFloat, Limits, ResonanceFloat};
use crate::params::{
    BandChannel, BandKind, BandParams, BandResMode, DynMode, EquzxParams, ResMode, ResQuality,
    ResonanceParams, Settings, Slope, MAX_BANDS,
};
use crate::single::Single;
use crate::state::{read_bands, BandView};

verus! {

/// One band inside a snapshot. Same fields as [`BandView`] minus the slot, which
/// is assigned on recall rather than carried: two slots would otherwise claim
/// the same parameters after an A/B swap.
#[derive(Clone, Copy, Debug, PartialEq, Eq, Structural)]
pub struct BandSnapshot {
    pub kind: BandKind,
    pub channel: BandChannel,
    pub freq: Single,
    pub gain: Single,
    pub q: Single,
    pub slope: Slope,
    pub enabled: bool,
    pub dynamic: bool,
    pub dyn_mode: DynMode,
    pub dyn_range: Single,
    pub threshold: Single,
    pub attack: Single,
    pub release: Single,
    pub resonance: Single,
    pub res_mode: BandResMode,
    pub res_range: Single,
    pub res_sens: Single,
    pub res_width: Single,
    pub res_attack: Single,
    pub res_release: Single,
}

impl BandSnapshot {
    /// What a snapshot keeps of a band slot.
    pub open spec fn of(p: BandParams) -> BandSnapshot {
        BandSnapshot {
            kind: p.kind,
            channel: p.channel,
            freq: p.freq,
            gain: p.gain,
            q: p.q,
            slope: p.slope,
            enabled: p.enabled,
            dynamic: p.dynamic,
            dyn_mode: p.dyn_mode,
            dyn_range: p.dyn_range,
            threshold: p.threshold,
            attack: p.attack,
            release: p.release,
            resonance: p.resonance,
            res_mode: p.res_mode,
            res_range: p.res_range,
            res_sens: p.res_sens,
            res_width: p.res_width,
            res_attack: p.res_attack,
            res_release: p.res_release,
        }
    }

    /// What a snapshot keeps of a band as the UI reads it.
    pub open spec fn of_view(b: BandView) -> BandSnapshot {
        BandSnapshot {
            kind: b.kind,
            channel: b.channel,
            freq: b.freq,
            gain: b.gain,
            q: b.q,
            slope: b.slope,
            enabled: b.enabled,
            dynamic: b.dynamic,
            dyn_mode: b.dyn_mode,
            dyn_range: b.dyn_range,
            threshold: b.threshold,
            attack: b.attack,
            release: b.release,
            resonance: b.resonance,
            res_mode: b.res_mode,
            res_range: b.res_range,
            res_sens: b.res_sens,
            res_width: b.res_width,
            res_attack: b.res_attack,
            res_release: b.res_release,
        }
    }

    /// The shape a band is created with.
    pub open spec fn fresh() -> BandSnapshot {
        BandSnapshot::of(BandParams::fresh())
    }

    /// One of the float parameters.
    pub open spec fn float(self, f: BandFloat) -> Single {
        match f {
            BandFloat::Freq => self.freq,
            BandFloat::Gain => self.gain,
            BandFloat::Q => self.q,
            BandFloat::DynRange => self.dyn_range,
            BandFloat::Threshold => self.threshold,
            BandFloat::Attack => self.attack,
            BandFloat::Release => self.release,
            BandFloat::Resonance => self.resonance,
            BandFloat::ResRange => self.res_range,
            BandFloat::ResSens => self.res_sens,
            BandFloat::ResWidth => self.res_width,
            BandFloat::ResAttack => self.res_attack,
            BandFloat::ResRelease => self.res_release,
        }
    }

    /// Every float parameter holds a value it accepts.
    pub open spec fn in_range(self) -> bool {
        forall|f: BandFloat| f.limits_spec().accepts(#[trigger] self.float(f))
    }

    /// The band with every float fitted into the range its parameter accepts.
    pub open spec fn fitted(self) -> BandSnapshot {
        BandSnapshot {
            freq: BandFloat::Freq.limits_spec().fitted(self.freq),
            gain: BandFloat::Gain.limits_spec().fitted(self.gain),
            q: BandFloat::Q.limits_spec().fitted(self.q),
            dyn_range: BandFloat::DynRange.limits_spec().fitted(self.dyn_range),
            threshold: BandFloat::Threshold.limits_spec().fitted(self.threshold),
            attack: BandFloat::Attack.limits_spec().fitted(self.attack),
            release: BandFloat::Release.limits_spec().fitted(self.release),
            resonance: BandFloat::Resonance.limits_spec().fitted(self.resonance),
            res_range: BandFloat::ResRange.limits_spec().fitted(self.res_range),
            res_sens: BandFloat::ResSens.limits_spec().fitted(self.res_sens),
            res_width: BandFloat::ResWidth.limits_spec().fitted(self.res_width),
            res_attack: BandFloat::ResAttack.limits_spec().fitted(self.res_attack),
            res_release: BandFloat::ResRelease.limits_spec().fitted(self.res_release),
            ..self
        }
    }

    /// Rebuild from untrusted input: every float is fitted into the range its
    /// parameter accepts.
    pub fn sanitized(&self) -> (r: BandSnapshot)
        ensures
            r == self.fitted(),
            r.in_range(),
    {
        BandSnapshot {
            freq: BandFloat::Freq.limits().fit(self.freq),
            gain: BandFloat::Gain.limits().fit(self.gain),
            q: BandFloat::Q.limits().fit(self.q),
            dyn_range: BandFloat::DynRange.limits().fit(self.dyn_range),
            threshold: BandFloat::Threshold.limits().fit(self.threshold),
            attack: BandFloat::Attack.limits().fit(self.attack),
            release: BandFloat::Release.limits().fit(self.release),
            resonance: BandFloat::Resonance.limits().fit(self.resonance),
            res_range: BandFloat::ResRange.limits().fit(self.res_range),
            res_sens: BandFloat::ResSens.limits().fit(self.res_sens),
            res_width: BandFloat::ResWidth.limits().fit(self.res_width),
            res_attack: BandFloat::ResAttack.limits().fit(self.res_attack),
            res_release: BandFloat::ResRelease.limits().fit(self.res_release),
            ..*self
        }
    }

    proof fn lemma_one_float_fits(self, f: BandFloat)
        ensures
            f.limits_spec().accepts(self.fitted().float(f)),
            f.limits_spec().accepts(self.float(f)) ==> self.fitted().float(f) == self.float(f),
            f.limits_spec().accepts(BandSnapshot::fresh().float(f)),
    {
        f.limits_are_valid();
        f.limits_spec().fitting_keeps_what_fits(self.float(f));
    }

    proof fn lemma_what_fits_is_kept(self)
        requires
            self.in_range(),
        ensures
            self.fitted() == self,
    {
        self.lemma_one_float_fits(BandFloat::Freq);
        assert(self.fitted().freq == self.freq);
        self.lemma_one_float_fits(BandFloat::Gain);
        assert(self.fitted().gain == self.gain);
        self.lemma_one_float_fits(BandFloat::Q);
        assert(self.fitted().q == self.q);
        self.lemma_one_float_fits(BandFloat::DynRange);
        assert(self.fitted().dyn_range == self.dyn_range);
        self.lemma_one_float_fits(BandFloat::Threshold);
        assert(self.fitted().threshold == self.threshold);
        self.lemma_one_float_fits(BandFloat::Attack);
        assert(self.fitted().attack == self.attack);
        self.lemma_one_float_fits(BandFloat::Release);
        assert(self.fitted().release == self.release);
        self.lemma_one_float_fits(BandFloat::Resonance);
        assert(self.fitted().resonance == self.resonance);
        self.lemma_one_float_fits(BandFloat::ResRange);
        assert(self.fitted().res_range == self.res_range);
        self.lemma_one_float_fits(BandFloat::ResSens);
        assert(self.fitted().res_sens == self.res_sens);
        self.lemma_one_float_fits(BandFloat::ResWidth);
        assert(self.fitted().res_width == self.res_width);
        self.lemma_one_float_fits(BandFloat::ResAttack);
        assert(self.fitted().res_attack == self.res_attack);
        self.lemma_one_float_fits(BandFloat::ResRelease);
        assert(self.fitted().res_release == self.res_release);
    }

    /// A band whose values its parameters accept is left alone, so fitting twice
    /// is fitting once.
    pub proof fn fitting_keeps_what_fits(self)
        ensures
            self.in_range() ==> self.fitted() == self,
            self.fitted().in_range(),
            self.fitted().fitted() == self.fitted(),
            BandSnapshot::fresh().in_range(),
    {
        assert forall|f: BandFloat|
            f.limits_spec().accepts(#[trigger] self.fitted().float(f)) by {
            self.lemma_one_float_fits(f);
        }
        self.fitted().lemma_what_fits_is_kept();
        if self.in_range() {
            self.lemma_what_fits_is_kept();
        }
        assert forall|f: BandFloat|
            f.limits_spec().accepts(#[trigger] BandSnapshot::fresh().float(f)) by {
            self.lemma_one_float_fits(f);
        }
    }
}

impl Default for BandSnapshot {
    fn default() -> (r: BandSnapshot)
        ensures
            r == BandSnapshot::fresh(),
    {
        let p: BandParams = BandParams::default();
        BandSnapshot {
            kind: p.kind,
            channel: p.channel,
            freq: p.freq,
            gain: p.gain,
            q: p.q,
            slope: p.slope,
            enabled: p.enabled,
            dynamic: p.dynamic,
            dyn_mode: p.dyn_mode,
            dyn_range: p.dyn_range,
            threshold: p.threshold,
            attack: p.attack,
            release: p.release,
            resonance: p.resonance,
            res_mode: p.res_mode,
            res_range: p.res_range,
            res_sens: p.res_sens,
            res_width: p.res_width,
            res_attack: p.res_attack,
            res_release: p.res_release,
        }
    }
}

impl FromSpecImpl<&BandView> for BandSnapshot {
    open spec fn obeys_from_spec() -> bool {
        true
    }

    open spec fn from_spec(b: &BandView) -> BandSnapshot {
        BandSnapshot::of_view(*b)
    }
}

impl From<&BandView> for BandSnapshot {
    fn from(b: &BandView) -> (r: BandSnapshot) {
        BandSnapshot {
            kind: b.kind,
            channel: b.channel,
            freq: b.freq,
            gain: b.gain,
            q: b.q,
            slope: b.slope,
            enabled: b.enabled,
            dynamic: b.dynamic,
            dyn_mode: b.dyn_mode,
            dyn_range: b.dyn_range,
            threshold: b.threshold,
            attack: b.attack,
            release: b.release,
            resonance: b.resonance,
            res_mode: b.res_mode,
            res_range: b.res_range,
            res_sens: b.res_sens,
            res_width: b.res_width,
            res_attack: b.res_attack,
            res_release: b.res_release,
        }
    }
}

/// The resonance stage inside a snapshot.
///
/// The stage's `delta` is deliberately not carried: it is a way of listening
/// rather than part of the sound being designed, so it survives a swap or a
/// recall untouched, for the same reason solo does.
#[derive(Clone, Copy, Debug, PartialEq, Eq, Structural)]
pub struct ResonanceSnapshot {
    pub enabled: bool,
    pub mode: ResMode,
    pub quality: ResQuality,
    pub range: Single,
    pub depth: Single,
    pub sharpness: Single,
    pub threshold: Single,
    pub attack: Single,
    pub release: Single,
    pub low: Single,
    pub high: Single,
    pub mix: Single,
}

impl ResonanceSnapshot {
    /// What a snapshot keeps of the stage.
    pub open spec fn of(p: ResonanceParams) -> ResonanceSnapshot {
        ResonanceSnapshot {
            enabled: p.enabled,
            mode: p.mode,
            quality: p.quality,
            range: p.range,
            depth: p.depth,
            sharpness: p.sharpness,
            threshold: p.threshold,
            attack: p.attack,
            release: p.release,
            low: p.low,
            high: p.high,
            mix: p.mix,
        }
    }

    /// The stage at its defaults, which is to say switched off.
    pub open spec fn fresh() -> ResonanceSnapshot {
        ResonanceSnapshot::of(ResonanceParams::fresh())
    }

    /// One of the float parameters.
    pub open spec fn float(self, f: ResonanceFloat) -> Single {
        match f {
            ResonanceFloat::Range => self.range,
            ResonanceFloat::Depth => self.depth,
            ResonanceFloat::Sharpness => self.sharpness,
            ResonanceFloat::Threshold => self.threshold,
            ResonanceFloat::Attack => self.attack,
            ResonanceFloat::Release => self.release,
            ResonanceFloat::Low => self.low,
            ResonanceFloat::High => self.high,
            ResonanceFloat::Mix => self.mix,
        }
    }

    /// Every float parameter holds a value it accepts.
    pub open spec fn in_range(self) -> bool {
        forall|f: ResonanceFloat| f.limits_spec().accepts(#[trigger] self.float(f))
    }

    /// The stage with every float fitted into the range its parameter accepts.
    pub open spec fn fitted(self) -> ResonanceSnapshot {
        ResonanceSnapshot {
            range: ResonanceFloat::Range.limits_spec().fitted(self.range),
            depth: ResonanceFloat::Depth.limits_spec().fitted(self.depth),
            sharpness: ResonanceFloat::Sharpness.limits_spec().fitted(self.sharpness),
            threshold: ResonanceFloat::Threshold.limits_spec().fitted(self.threshold),
            attack: ResonanceFloat::Attack.limits_spec().fitted(self.attack),
            release: ResonanceFloat::Release.limits_spec().fitted(self.release),
            low: ResonanceFloat::Low.limits_spec().fitted(self.low),
            high: ResonanceFloat::High.limits_spec().fitted(self.high),
            mix: ResonanceFloat::Mix.limits_spec().fitted(self.mix),
            ..self
        }
    }

    /// Read the live parameters.
    pub fn capture(p: &ResonanceParams) -> (r: ResonanceSnapshot)
        ensures
            r == ResonanceSnapshot::of(*p),
    {
        ResonanceSnapshot {
            enabled: p.enabled,
            mode: p.mode,
            quality: p.quality,
            range: p.range,
            depth: p.depth,
            sharpness: p.sharpness,
            threshold: p.threshold,
            attack: p.attack,
            release: p.release,
            low: p.low,
            high: p.high,
            mix: p.mix,
        }
    }

    /// Rebuild from untrusted input.
    pub fn sanitized(&self) -> (r: ResonanceSnapshot)
        ensures
            r == self.fitted(),
            r.in_range(),
    {
        ResonanceSnapshot {
            enabled: self.enabled,
            mode: self.mode,
            quality: self.quality,
            range: ResonanceFloat::Range.limits().fit(self.range),
            depth: ResonanceFloat::Depth.limits().fit(self.depth),
            sharpness: ResonanceFloat::Sharpness.limits().fit(self.sharpness),
            threshold: ResonanceFloat::Threshold.limits().fit(self.threshold),
            attack: ResonanceFloat::Attack.limits().fit(self.attack),
            release: ResonanceFloat::Release.limits().fit(self.release),
            low: ResonanceFloat::Low.limits().fit(self.low),
            high: ResonanceFloat::High.limits().fit(self.high),
            mix: ResonanceFloat::Mix.limits().fit(self.mix),
        }
    }

    proof fn lemma_one_float_fits(self, f: ResonanceFloat)
        ensures
            f.limits_spec().accepts(self.fitted().float(f)),
            f.limits_spec().accepts(self.float(f)) ==> self.fitted().float(f) == self.float(f),
            f.limits_spec().accepts(ResonanceSnapshot::fresh().float(f)),
    {
        f.limits_are_valid();
        f.limits_spec().fitting_keeps_what_fits(self.float(f));
    }

    proof fn lemma_what_fits_is_kept(self)
        requires
            self.in_range(),
        ensures
            self.fitted() == self,
    {
        self.lemma_one_float_fits(ResonanceFloat::Range);
        assert(self.fitted().range == self.range);
        self.lemma_one_float_fits(ResonanceFloat::Depth);
        assert(self.fitted().depth == self.depth);
        self.lemma_one_float_fits(ResonanceFloat::Sharpness);
        assert(self.fitted().sharpness == self.sharpness);
        self.lemma_one_float_fits(ResonanceFloat::Threshold);
        assert(self.fitted().threshold == self.threshold);
        self.lemma_one_float_fits(ResonanceFloat::Attack);
        assert(self.fitted().attack == self.attack);
        self.lemma_one_float_fits(ResonanceFloat::Release);
        assert(self.fitted().release == self.release);
        self.lemma_one_float_fits(ResonanceFloat::Low);
        assert(self.fitted().low == self.low);
        self.lemma_one_float_fits(ResonanceFloat::High);
        assert(self.fitted().high == self.high);
        self.lemma_one_float_fits(ResonanceFloat::Mix);
        assert(self.fitted().mix == self.mix);
    }

    /// A stage whose values its parameters accept is left alone, so fitting twice
    /// is fitting once.
    pub proof fn fitting_keeps_what_fits(self)
        ensures
            self.in_range() ==> self.fitted() == self,
            self.fitted().in_range(),
            self.fitted().fitted() == self.fitted(),
            ResonanceSnapshot::fresh().in_range(),
    {
        assert forall|f: ResonanceFloat|
            f.limits_spec().accepts(#[trigger] self.fitted().float(f)) by {
            self.lemma_one_float_fits(f);
        }
        self.fitted().lemma_what_fits_is_kept();
        if self.in_range() {
            self.lemma_what_fits_is_kept();
        }
        assert forall|f: ResonanceFloat|
            f.limits_spec().accepts(#[trigger] ResonanceSnapshot::fresh().float(f)) by {
            self.lemma_one_float_fits(f);
        }
    }
}

impl Default for ResonanceSnapshot {
    fn default() -> (r: ResonanceSnapshot)
        ensures
            r == ResonanceSnapshot::fresh(),
    {
        ResonanceSnapshot::capture(&ResonanceParams::default())
    }
}

/// Everything an A/B slot or a preset carries.
#[derive(Debug, PartialEq, Eq)]
pub struct Snapshot {
    pub bands: Vec<BandSnapshot>,
    pub output_gain: Single,
    pub resonance: ResonanceSnapshot,
}

/// What a snapshot says.
#[verifier::ext_equal]
pub struct Scene {
    pub bands: Seq<BandSnapshot>,
    pub output_gain: Single,
    pub resonance: ResonanceSnapshot,
}

impl Scene {
    /// What the live parameters say. Of the bands only the active ones count, in
    /// slot order.
    pub open spec fn of(s: Settings) -> Scene {
        Scene {
            bands: BandView::listed(s.bands).map_values(|b: BandView| BandSnapshot::of_view(b)),
            output_gain: s.output_gain,
            resonance: ResonanceSnapshot::of(s.resonance),
        }
    }

    /// No bands, unity output, the suppressor at its defaults.
    pub open spec fn flat() -> Scene {
        Scene {
            bands: Seq::empty(),
            output_gain: Limits::output_gain_spec().default,
            resonance: ResonanceSnapshot::fresh(),
        }
    }

    /// No more bands than there are slots, and every float inside the range its
    /// parameter accepts.
    pub open spec fn in_range(self) -> bool {
        &&& self.bands.len() <= MAX_BANDS
        &&& forall|i: int| 0 <= i < self.bands.len() ==> (#[trigger] self.bands[i]).in_range()
        &&& Limits::output_gain_spec().accepts(self.output_gain)
        &&& self.resonance.in_range()
    }

    /// The scene with the bands no slot is left for dropped, and every float
    /// fitted into the range its parameter accepts.
    pub open spec fn fitted(self) -> Scene {
        let kept = if self.bands.len() <= MAX_BANDS {
            self.bands
        } else {
            self.bands.take(MAX_BANDS as int)
        };
        Scene {
            bands: kept.map_values(|b: BandSnapshot| b.fitted()),
            output_gain: Limits::output_gain_spec().fitted(self.output_gain),
            resonance: self.resonance.fitted(),
        }
    }

    /// A scene the parameters accept is left alone, so fitting twice is fitting
    /// once.
    pub proof fn fitting_keeps_what_fits(self)
        ensures
            self.in_range() ==> self.fitted() == self,
            self.fitted().in_range(),
            self.fitted().fitted() == self.fitted(),
            Scene::flat().in_range(),
            Scene::flat().fitted() == Scene::flat(),
    {
        Scene::flat().lemma_what_fits_is_kept_and_fitting_fits();
        self.lemma_what_fits_is_kept_and_fitting_fits();
        self.fitted().lemma_what_fits_is_kept_and_fitting_fits();
        BandSnapshot::fresh().fitting_keeps_what_fits();
        ResonanceSnapshot::fresh().fitting_keeps_what_fits();
    }

    proof fn lemma_what_fits_is_kept_and_fitting_fits(self)
        ensures
            self.in_range() ==> self.fitted() == self,
            self.fitted().in_range(),
    {
        self.resonance.fitting_keeps_what_fits();
        Limits::output_gain_spec().fitting_keeps_what_fits(self.output_gain);
        assert forall|i: int| 0 <= i < self.fitted().bands.len() implies (
        #[trigger] self.fitted().bands[i]).in_range() && (self.bands[i].in_range()
            ==> self.fitted().bands[i] == self.bands[i]) by {
            self.bands[i].fitting_keeps_what_fits();
        }
        if self.in_range() {
            assert(self.fitted().bands =~= self.bands);
        }
    }
}

impl View for Snapshot {
    type V = Scene;

    open spec fn view(&self) -> Scene {
        Scene {
            bands: self.bands@,
            output_gain: self.output_gain,
            resonance: self.resonance,
        }
    }
}

impl Snapshot {
    /// Read the live parameters.
    pub fn capture(params: &EquzxParams) -> (r: Snapshot)
        ensures
            r@ == Scene::of(params@),
    {
        let views: Vec<BandView> = read_bands(params);
        let mut bands: Vec<BandSnapshot> = Vec::new();
        let mut i: usize = 0;
        while i < views.len()
            invariant
                i <= views.len(),
                bands@ == views@.take(i as int).map_values(
                    |b: BandView| BandSnapshot::of_view(b),
                ),
            decreases views.len() - i,
        {
            bands.push(BandSnapshot::from(&views[i]));
            i = i + 1;
            assert(bands@ =~= views@.take(i as int).map_values(
                |b: BandView| BandSnapshot::of_view(b),
            ));
        }
        assert(views@.take(i as int) =~= views@);
        Snapshot {
            bands,
            output_gain: params.output_gain,
            resonance: ResonanceSnapshot::capture(&params.resonance),
        }
    }

    /// Rebuild from untrusted input: a preset file someone edited by hand, or a
    /// session written by a different version. Every field is fitted into the
    /// range its parameter will accept.
    pub fn sanitized(&self) -> (r: Snapshot)
        ensures
            r@ == self@.fitted(),
            r@.in_range(),
    {
        let n: usize = if self.bands.len() <= MAX_BANDS {
            self.bands.len()
        } else {
            MAX_BANDS
        };
        let mut bands: Vec<BandSnapshot> = Vec::new();
        let mut i: usize = 0;
        while i < n
            invariant
                i <= n <= self.bands.len(),
                bands@ == self.bands@.take(i as int).map_values(|b: BandSnapshot| b.fitted()),
            decreases n - i,
        {
            bands.push(self.bands[i].sanitized());
            i = i + 1;
            assert(bands@ =~= self.bands@.take(i as int).map_values(
                |b: BandSnapshot| b.fitted(),
            ));
        }
        proof {
            if self.bands.len() <= MAX_BANDS {
                assert(self.bands@.take(n as int) =~= self.bands@);
            }
            self@.fitting_keeps_what_fits();
        }
        Snapshot {
            bands,
            output_gain: Limits::output_gain().fit(self.output_gain),
            resonance: self.resonance.sanitized(),
        }
    }

    pub fn is_empty(&self) -> (r: bool)
        ensures
            r == (self@.bands.len() == 0),
    {
        self.bands.len() == 0
    }
}

impl Default for Snapshot {
    fn default() -> (r: Snapshot)
        ensures
            r@ == Scene::flat(),
    {
        Snapshot {
            bands: Vec::new(),
            output_gain: Limits::output_gain().default,
            resonance: ResonanceSnapshot::default(),
        }
    }
}

impl Clone for Snapshot {
    fn clone(&self) -> (r: Snapshot)
        ensures
            r@ == self@,
    {
        let mut bands: Vec<BandSnapshot> = Vec::new();
        let mut i: usize = 0;
        while i < self.bands.len()
            invariant
                i <= self.bands.len(),
                bands@ == self.bands@.take(i as int),
            decreases self.bands.len() - i,
        {
            bands.push(self.bands[i]);
            i = i + 1;
            assert(bands@ =~= self.bands@.take(i as int));
        }
        assert(bands@ =~= self.bands@);
        Snapshot { bands, output_gain: self.output_gain, resonance: self.resonance }
    }
}

/// Each band of a scene says of one slot in use what the parameters say, each
/// under the parameter's own name; the bands come in the order of their slots.
pub proof fn a_scene_tells_the_parameters(s: Settings, i: int)
    requires
        s.bands.len() <= MAX_BANDS,
        0 <= i < Scene::of(s).bands.len(),
    ensures
        Scene::of(s).bands.len() == BandView::listed(s.bands).len(),
        ({
            let band = Scene::of(s).bands[i];
            let slot = BandView::listed(s.bands)[i].slot as int;
            let p = s.bands[slot];
            &&& 0 <= slot < s.bands.len()
            &&& p.active
            &&& band.kind == p.kind
            &&& band.channel == p.channel
            &&& band.slope == p.slope
            &&& band.enabled == p.enabled
            &&& band.dynamic == p.dynamic
            &&& band.dyn_mode == p.dyn_mode
            &&& band.res_mode == p.res_mode
            &&& band.freq == p.freq
            &&& band.gain == p.gain
            &&& band.q == p.q
            &&& band.dyn_range == p.dyn_range
            &&& band.threshold == p.threshold
            &&& band.attack == p.attack
            &&& band.release == p.release
            &&& band.resonance == p.resonance
            &&& band.res_range == p.res_range
            &&& band.res_sens == p.res_sens
            &&& band.res_width == p.res_width
            &&& band.res_attack == p.res_attack
            &&& band.res_release == p.res_release
        }),
        Scene::of(s).output_gain == s.output_gain,
{
    crate::state::the_band_list_tells_the_parameters(s.bands, i);
}

/// A scene holds of the resonance stage what the parameters say, each under the
/// parameter's own name.
pub proof fn a_scene_tells_the_stage(s: Settings)
    ensures
        ({
            let stage = Scene::of(s).resonance;
            let p = s.resonance;
            &&& stage.enabled == p.enabled
            &&& stage.mode == p.mode
            &&& stage.quality == p.quality
            &&& stage.range == p.range
            &&& stage.depth == p.depth
            &&& stage.sharpness == p.sharpness
            &&& stage.threshold == p.threshold
            &&& stage.attack == p.attack
            &&& stage.release == p.release
            &&& stage.low == p.low
            &&& stage.high == p.high
            &&& stage.mix == p.mix
        }),
{
}

impl BandSnapshot {
    /// Fitting a band fits each number by its own limits, and touches nothing that
    /// is not a number.
    pub proof fn fitting_fits_each_by_its_own(self, f: BandFloat)
        ensures
            self.fitted().float(f) == f.limits_spec().fitted(self.float(f)),
            self.fitted().kind == self.kind,
            self.fitted().channel == self.channel,
            self.fitted().slope == self.slope,
            self.fitted().enabled == self.enabled,
            self.fitted().dynamic == self.dynamic,
            self.fitted().dyn_mode == self.dyn_mode,
            self.fitted().res_mode == self.res_mode,
    {
    }
}

impl ResonanceSnapshot {
    /// Fitting the stage fits each number by its own limits, and touches nothing
    /// that is not a number.
    pub proof fn fitting_fits_each_by_its_own(self, f: ResonanceFloat)
        ensures
            self.fitted().float(f) == f.limits_spec().fitted(self.float(f)),
            self.fitted().enabled == self.enabled,
            self.fitted().mode == self.mode,
            self.fitted().quality == self.quality,
    {
    }
}

impl Scene {
    /// Fitting a scene keeps its bands in order, drops those past the twenty-fourth,
    /// and fits each by itself.
    pub proof fn fitting_keeps_the_bands_in_order(self, i: int)
        requires
            0 <= i < self.fitted().bands.len(),
        ensures
            self.fitted().bands.len() == (if self.bands.len() <= 24 {
                self.bands.len()
            } else {
                24
            }),
            self.fitted().bands[i] == self.bands[i].fitted(),
            self.fitted().resonance == self.resonance.fitted(),
            self.output_gain.within((Single { bits: 0xc1c0_0000 }), (Single { bits: 0x4140_0000 }))
                ==> self.fitted().output_gain == self.output_gain,
            self.fitted().output_gain.within(
                (Single { bits: 0xc1c0_0000 }),
                (Single { bits: 0x4140_0000 }),
            ),
    {
    }
}

} // verus!
