//! A band as it appears in a text preset.
//!
//! Enums travel as names and slopes as decibels per octave, so a preset still
//! means something to a human reading the file.

use vstd::prelude::*;
use vstd::std_specs::convert::FromSpecImpl;

use crate::params::{BandChannel, BandKind, BandResMode, DynMode, Slope};
use crate::single::Single;
use crate::snapshot::BandSnapshot;

verus! {

/// A [`BandSnapshot`] as it appears in a text preset.
#[derive(Debug)]
pub struct BandWire {
    pub kind: String,
    pub channel: String,
    pub freq: Single,
    pub gain: Single,
    pub q: Single,
    pub slope: u32,
    pub enabled: bool,
    pub dynamic: bool,
    pub dyn_mode: String,
    pub dyn_range: Single,
    pub threshold: Single,
    pub attack: Single,
    pub release: Single,
    pub resonance: Single,
    pub res_mode: BandResMode,
    pub res_range: Single,
    pub res_sens: Single,
    pub res_width: Single,
    pub res_attack: Single,
    pub res_release: Single,
}

/// What a band says as it appears in a text preset.
#[verifier::ext_equal]
pub struct BandText {
    pub kind: Seq<char>,
    pub channel: Seq<char>,
    pub freq: Single,
    pub gain: Single,
    pub q: Single,
    pub slope: u32,
    pub enabled: bool,
    pub dynamic: bool,
    pub dyn_mode: Seq<char>,
    pub dyn_range: Single,
    pub threshold: Single,
    pub attack: Single,
    pub release: Single,
    pub resonance: Single,
    pub res_mode: BandResMode,
    pub res_range: Single,
    pub res_sens: Single,
    pub res_width: Single,
    pub res_attack: Single,
    pub res_release: Single,
}

impl View for BandWire {
    type V = BandText;

    open spec fn view(&self) -> BandText {
        BandText {
            kind: self.kind@,
            channel: self.channel@,
            freq: self.freq,
            gain: self.gain,
            q: self.q,
            slope: self.slope,
            enabled: self.enabled,
            dynamic: self.dynamic,
            dyn_mode: self.dyn_mode@,
            dyn_range: self.dyn_range,
            threshold: self.threshold,
            attack: self.attack,
            release: self.release,
            resonance: self.resonance,
            res_mode: self.res_mode,
            res_range: self.res_range,
            res_sens: self.res_sens,
            res_width: self.res_width,
            res_attack: self.res_attack,
            res_release: self.res_release,
        }
    }
}

/// What a name stands for. One that stands for nothing reads as the default.
pub open spec fn kind_named(name: Seq<char>) -> BandKind {
    if exists|v: BandKind| v.wire() == name {
        choose|v: BandKind| v.wire() == name
    } else {
        BandKind::Bell
    }
}

fn read_kind(name: &str) -> (r: BandKind)
    ensures
        r == kind_named(name@),
{
    match BandKind::from_wire(name) {
        Some(v) => {
            proof {
                BandKind::names_are_distinct(v, kind_named(name@));
            }
            v
        },
        None => BandKind::Bell,
    }
}

/// What a name stands for. One that stands for nothing reads as the default.
pub open spec fn channel_named(name: Seq<char>) -> BandChannel {
    if exists|v: BandChannel| v.wire() == name {
        choose|v: BandChannel| v.wire() == name
    } else {
        BandChannel::Stereo
    }
}

fn read_channel(name: &str) -> (r: BandChannel)
    ensures
        r == channel_named(name@),
{
    match BandChannel::from_wire(name) {
        Some(v) => {
            proof {
                BandChannel::names_are_distinct(v, channel_named(name@));
            }
            v
        },
        None => BandChannel::Stereo,
    }
}

/// What a name stands for. One that stands for nothing reads as the default.
pub open spec fn dyn_mode_named(name: Seq<char>) -> DynMode {
    if exists|v: DynMode| v.wire() == name {
        choose|v: DynMode| v.wire() == name
    } else {
        DynMode::Above
    }
}

fn read_dyn_mode(name: &str) -> (r: DynMode)
    ensures
        r == dyn_mode_named(name@),
{
    match DynMode::from_wire(name) {
        Some(v) => {
            proof {
                DynMode::names_are_distinct(v, dyn_mode_named(name@));
            }
            v
        },
        None => DynMode::Above,
    }
}

/// The slope a steepness stands for. One that stands for nothing reads as the
/// default.
pub open spec fn slope_named(steepness: u32) -> Slope {
    if exists|s: Slope| s.steepness() == steepness {
        choose|s: Slope| s.steepness() == steepness
    } else {
        Slope::S24
    }
}

fn read_slope(steepness: u32) -> (r: Slope)
    ensures
        r == slope_named(steepness),
{
    match Slope::from_db_per_oct(steepness) {
        Some(s) => {
            proof {
                Slope::steepnesses_are_distinct(s, slope_named(steepness));
            }
            s
        },
        None => Slope::S24,
    }
}

impl BandText {
    /// A band as it is written.
    pub open spec fn of(b: BandSnapshot) -> BandText {
        BandText {
            kind: b.kind.wire(),
            channel: b.channel.wire(),
            freq: b.freq,
            gain: b.gain,
            q: b.q,
            slope: b.slope.steepness(),
            enabled: b.enabled,
            dynamic: b.dynamic,
            dyn_mode: b.dyn_mode.wire(),
            dyn_range: b.dyn_range,
            threshold: b.threshold,
            attack: b.attack,
            release: b.release,
            resonance: b.resonance,
            res_mode: b.res_mode,
            res_range: b.res_range,
            res_sens: b.res_sens,
            res_width: b.res_width,
            res_attack: b.res_attack,
            res_release: b.res_release,
        }
    }

    /// The band this text stands for. A name nobody knows reads as the default
    /// rather than being guessed at, and every number is fitted into the range
    /// its parameter accepts.
    pub open spec fn meaning(self) -> BandSnapshot {
        BandSnapshot {
            kind: kind_named(self.kind),
            channel: channel_named(self.channel),
            freq: self.freq,
            gain: self.gain,
            q: self.q,
            slope: slope_named(self.slope),
            enabled: self.enabled,
            dynamic: self.dynamic,
            dyn_mode: dyn_mode_named(self.dyn_mode),
            dyn_range: self.dyn_range,
            threshold: self.threshold,
            attack: self.attack,
            release: self.release,
            resonance: self.resonance,
            res_mode: self.res_mode,
            res_range: self.res_range,
            res_sens: self.res_sens,
            res_width: self.res_width,
            res_attack: self.res_attack,
            res_release: self.res_release,
        }.fitted()
    }

    /// A band that is written reads back as itself, fitted into what the
    /// parameters accept.
    pub proof fn a_band_reads_back(b: BandSnapshot)
        ensures
            BandText::of(b).meaning() == b.fitted(),
            b.in_range() ==> BandText::of(b).meaning() == b,
    {
        assert(b.kind.wire() == b.kind.wire());
        BandKind::names_are_distinct(b.kind, kind_named(b.kind.wire()));
        BandChannel::names_are_distinct(b.channel, channel_named(b.channel.wire()));
        DynMode::names_are_distinct(b.dyn_mode, dyn_mode_named(b.dyn_mode.wire()));
        Slope::steepnesses_are_distinct(b.slope, slope_named(b.slope.steepness()));
        b.fitting_keeps_what_fits();
    }
}

impl BandWire {
    /// Write a band as text.
    pub fn of(b: BandSnapshot) -> (r: BandWire)
        ensures
            r@ == BandText::of(b),
    {
        BandWire {
            kind: b.kind.as_wire().to_owned(),
            channel: b.channel.as_wire().to_owned(),
            freq: b.freq,
            gain: b.gain,
            q: b.q,
            slope: b.slope.db_per_oct(),
            enabled: b.enabled,
            dynamic: b.dynamic,
            dyn_mode: b.dyn_mode.as_wire().to_owned(),
            dyn_range: b.dyn_range,
            threshold: b.threshold,
            attack: b.attack,
            release: b.release,
            resonance: b.resonance,
            res_mode: b.res_mode,
            res_range: b.res_range,
            res_sens: b.res_sens,
            res_width: b.res_width,
            res_attack: b.res_attack,
            res_release: b.res_release,
        }
    }
}

impl Default for BandWire {
    /// A band that names nothing: every field a text preset leaves out.
    fn default() -> (r: BandWire)
        ensures
            r@ == BandText::of(BandSnapshot::fresh()),
    {
        BandWire::of(BandSnapshot::default())
    }
}

impl FromSpecImpl<BandWire> for BandSnapshot {
    open spec fn obeys_from_spec() -> bool {
        true
    }

    open spec fn from_spec(w: BandWire) -> BandSnapshot {
        w@.meaning()
    }
}

impl From<BandWire> for BandSnapshot {
    fn from(w: BandWire) -> (r: BandSnapshot) {
        let band: BandSnapshot = BandSnapshot {
            kind: read_kind(w.kind.as_str()),
            channel: read_channel(w.channel.as_str()),
            freq: w.freq,
            gain: w.gain,
            q: w.q,
            slope: read_slope(w.slope),
            enabled: w.enabled,
            dynamic: w.dynamic,
            dyn_mode: read_dyn_mode(w.dyn_mode.as_str()),
            dyn_range: w.dyn_range,
            threshold: w.threshold,
            attack: w.attack,
            release: w.release,
            resonance: w.resonance,
            res_mode: w.res_mode,
            res_range: w.res_range,
            res_sens: w.res_sens,
            res_width: w.res_width,
            res_attack: w.res_attack,
            res_release: w.res_release,
        };
        band.sanitized()
    }
}

impl BandText {
    /// Written as text, a band carries every field under its own name, the slope in
    /// decibels an octave.
    pub proof fn a_text_tells_the_band(b: BandSnapshot)
        ensures
            BandText::of(b).freq == b.freq,
            BandText::of(b).gain == b.gain,
            BandText::of(b).q == b.q,
            BandText::of(b).enabled == b.enabled,
            BandText::of(b).dynamic == b.dynamic,
            BandText::of(b).dyn_range == b.dyn_range,
            BandText::of(b).threshold == b.threshold,
            BandText::of(b).attack == b.attack,
            BandText::of(b).release == b.release,
            BandText::of(b).resonance == b.resonance,
            BandText::of(b).res_mode == b.res_mode,
            BandText::of(b).res_range == b.res_range,
            BandText::of(b).res_sens == b.res_sens,
            BandText::of(b).res_width == b.res_width,
            BandText::of(b).res_attack == b.res_attack,
            BandText::of(b).res_release == b.res_release,
            BandText::of(b).slope == (match b.slope {
                Slope::S12 => 12u32,
                Slope::S24 => 24,
                Slope::S36 => 36,
                Slope::S48 => 48,
                Slope::S72 => 72,
                Slope::S96 => 96,
            }),
    {
    }
}

/// The names a band may be written with, and what each stands for.
pub proof fn the_names_stand_for_these()
    ensures
        kind_named("lowcut"@) == BandKind::LowCut,
        kind_named("lowshelf"@) == BandKind::LowShelf,
        kind_named("bell"@) == BandKind::Bell,
        kind_named("notch"@) == BandKind::Notch,
        kind_named("bandpass"@) == BandKind::BandPass,
        kind_named("highshelf"@) == BandKind::HighShelf,
        kind_named("highcut"@) == BandKind::HighCut,
        channel_named("stereo"@) == BandChannel::Stereo,
        channel_named("mid"@) == BandChannel::Mid,
        channel_named("side"@) == BandChannel::Side,
        channel_named("left"@) == BandChannel::Left,
        channel_named("right"@) == BandChannel::Right,
        dyn_mode_named("above"@) == DynMode::Above,
        dyn_mode_named("below"@) == DynMode::Below,
{
    lemma_a_kind_is_named(BandKind::LowCut);
    lemma_a_kind_is_named(BandKind::LowShelf);
    lemma_a_kind_is_named(BandKind::Bell);
    lemma_a_kind_is_named(BandKind::Notch);
    lemma_a_kind_is_named(BandKind::BandPass);
    lemma_a_kind_is_named(BandKind::HighShelf);
    lemma_a_kind_is_named(BandKind::HighCut);
    lemma_a_channel_is_named(BandChannel::Stereo);
    lemma_a_channel_is_named(BandChannel::Mid);
    lemma_a_channel_is_named(BandChannel::Side);
    lemma_a_channel_is_named(BandChannel::Left);
    lemma_a_channel_is_named(BandChannel::Right);
    lemma_a_direction_is_named(DynMode::Above);
    lemma_a_direction_is_named(DynMode::Below);
}

proof fn lemma_a_kind_is_named(v: BandKind)
    ensures
        kind_named(v.wire()) == v,
{
    BandKind::names_are_distinct(v, kind_named(v.wire()));
}

proof fn lemma_a_channel_is_named(v: BandChannel)
    ensures
        channel_named(v.wire()) == v,
{
    BandChannel::names_are_distinct(v, channel_named(v.wire()));
}

proof fn lemma_a_direction_is_named(v: DynMode)
    ensures
        dyn_mode_named(v.wire()) == v,
{
    DynMode::names_are_distinct(v, dyn_mode_named(v.wire()));
}

/// A name nobody knows reads as a bell, as stereo, or as engaging above the
/// threshold; a steepness nobody knows as 24 dB an octave.
pub proof fn an_unknown_name_reads_as_the_default(name: Seq<char>, steepness: u32)
    ensures
        (forall|v: BandKind| v.wire() != name) ==> kind_named(name) == BandKind::Bell,
        (forall|v: BandChannel| v.wire() != name) ==> channel_named(name) == BandChannel::Stereo,
        (forall|v: DynMode| v.wire() != name) ==> dyn_mode_named(name) == DynMode::Above,
        steepness != 12 && steepness != 24 && steepness != 36 && steepness != 48 && steepness != 72
            && steepness != 96 ==> slope_named(steepness) == Slope::S24,
{
}

} // verus!
