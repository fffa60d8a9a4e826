//! Plugin parameters, as plain values.
//!
//! The UI presents an EQ you add and remove bands from, but a VST3/CLAP host
//! needs a parameter list that never changes shape. Both are satisfied by a
//! fixed array of [`MAX_BANDS`] slots: a slot carries an `active` flag, and
//! "adding a band" is really claiming the first inactive slot. A band's slot
//! index is its identity, so automation lanes stay attached to the band the user
//! drew.

use vstd::prelude::*;

use crate::limits::{BandFloat, Limits, ResonanceFloat};
use crate::single::Single;
use crate::text::same_text;

verus! {

/// How many band slots the parameter list holds.
pub const MAX_BANDS: usize = 24;

/// dB past the threshold at which a dynamic band reaches its full range: 6.
pub const DYN_KNEE_DB: u32 = 0x40c0_0000;

/// What shape a band draws.
#[derive(Clone, Copy, Debug, PartialEq, Eq, Structural)]
pub enum BandKind {
    LowCut,
    LowShelf,
    Bell,
    Notch,
    BandPass,
    HighShelf,
    HighCut,
}

impl BandKind {
    /// The name that sessions and presets store this by.
    pub open spec fn wire_name(self) -> &'static str {
        match self {
            BandKind::LowCut => "lowcut",
            BandKind::LowShelf => "lowshelf",
            BandKind::Bell => "bell",
            BandKind::Notch => "notch",
            BandKind::BandPass => "bandpass",
            BandKind::HighShelf => "highshelf",
            BandKind::HighCut => "highcut",
        }
    }

    /// The characters of that name.
    pub open spec fn wire(self) -> Seq<char> {
        self.wire_name()@
    }

    /// The name that sessions and presets store this by.
    pub fn as_wire(self) -> (r: &'static str)
        ensures
            r == self.wire_name(),
    {
        match self {
            BandKind::LowCut => "lowcut",
            BandKind::LowShelf => "lowshelf",
            BandKind::Bell => "bell",
            BandKind::Notch => "notch",
            BandKind::BandPass => "bandpass",
            BandKind::HighShelf => "highshelf",
            BandKind::HighCut => "highcut",
        }
    }

    /// The variant a name stands for, if it stands for one.
    pub fn from_wire(s: &str) -> (r: Option<BandKind>)
        ensures
            match r {
                Some(v) => v.wire() == s@,
                None => forall|v: BandKind| v.wire() != s@,
            },
    {
        if same_text(s, "lowcut") {
            Some(BandKind::LowCut)
        } else if same_text(s, "lowshelf") {
            Some(BandKind::LowShelf)
        } else if same_text(s, "bell") {
            Some(BandKind::Bell)
        } else if same_text(s, "notch") {
            Some(BandKind::Notch)
        } else if same_text(s, "bandpass") {
            Some(BandKind::BandPass)
        } else if same_text(s, "highshelf") {
            Some(BandKind::HighShelf)
        } else if same_text(s, "highcut") {
            Some(BandKind::HighCut)
        } else {
            None
        }
    }

    /// No two variants share a name, so a name that was written reads back as
    /// the variant it was written for.
    pub proof fn names_are_distinct(a: BandKind, b: BandKind)
        requires
            a.wire() == b.wire(),
        ensures
            a == b,
    {
        reveal_strlit("lowcut");
        reveal_strlit("lowshelf");
        reveal_strlit("bell");
        reveal_strlit("notch");
        reveal_strlit("bandpass");
        reveal_strlit("highshelf");
        reveal_strlit("highcut");
        assert("lowcut"@.len() == 6);
        assert("lowshelf"@.len() == 8);
        assert("bell"@.len() == 4);
        assert("notch"@.len() == 5);
        assert("bandpass"@.len() == 8);
        assert("highshelf"@.len() == 9);
        assert("highcut"@.len() == 7);
        assert("lowshelf"@[0] == 'l');
        assert("bandpass"@[0] == 'b');
    }

    /// Cut types are Butterworth cascades; everything else is a single section.
    pub open spec fn cuts(self) -> bool {
        self == BandKind::LowCut || self == BandKind::HighCut
    }

    /// Only these types have a gain to move, so only these can be dynamic.
    pub open spec fn has_gain(self) -> bool {
        self == BandKind::LowShelf || self == BandKind::Bell || self == BandKind::HighShelf
    }

    /// Is this one of the cut types?
    pub fn is_cut(self) -> (r: bool)
        ensures
            r == self.cuts(),
    {
        matches!(self, BandKind::LowCut | BandKind::HighCut)
    }

    /// Does this type have a gain to move?
    pub fn uses_gain(self) -> (r: bool)
        ensures
            r == self.has_gain(),
    {
        matches!(self, BandKind::LowShelf | BandKind::Bell | BandKind::HighShelf)
    }
}

/// Which part of the signal a band acts on.
///
/// Left and right come last on purpose: a host's automation lane is a position
/// in this list, so the order cannot change without moving every lane.
#[derive(Clone, Copy, Debug, PartialEq, Eq, Structural)]
pub enum BandChannel {
    Stereo,
    Mid,
    Side,
    Left,
    Right,
}

impl BandChannel {
    /// The name that sessions and presets store this by.
    pub open spec fn wire_name(self) -> &'static str {
        match self {
            BandChannel::Stereo => "stereo",
            BandChannel::Mid => "mid",
            BandChannel::Side => "side",
            BandChannel::Left => "left",
            BandChannel::Right => "right",
        }
    }

    /// The characters of that name.
    pub open spec fn wire(self) -> Seq<char> {
        self.wire_name()@
    }

    /// The name that sessions and presets store this by.
    pub fn as_wire(self) -> (r: &'static str)
        ensures
            r == self.wire_name(),
    {
        match self {
            BandChannel::Stereo => "stereo",
            BandChannel::Mid => "mid",
            BandChannel::Side => "side",
            BandChannel::Left => "left",
            BandChannel::Right => "right",
        }
    }

    /// The variant a name stands for, if it stands for one.
    pub fn from_wire(s: &str) -> (r: Option<BandChannel>)
        ensures
            match r {
                Some(v) => v.wire() == s@,
                None => forall|v: BandChannel| v.wire() != s@,
            },
    {
        if same_text(s, "stereo") {
            Some(BandChannel::Stereo)
        } else if same_text(s, "mid") {
            Some(BandChannel::Mid)
        } else if same_text(s, "side") {
            Some(BandChannel::Side)
        } else if same_text(s, "left") {
            Some(BandChannel::Left)
        } else if same_text(s, "right") {
            Some(BandChannel::Right)
        } else {
            None
        }
    }

    /// No two variants share a name, so a name that was written reads back as
    /// the variant it was written for.
    pub proof fn names_are_distinct(a: BandChannel, b: BandChannel)
        requires
            a.wire() == b.wire(),
        ensures
            a == b,
    {
        reveal_strlit("stereo");
        reveal_strlit("mid");
        reveal_strlit("side");
        reveal_strlit("left");
        reveal_strlit("right");
        assert("stereo"@.len() == 6);
        assert("mid"@.len() == 3);
        assert("side"@.len() == 4);
        assert("left"@.len() == 4);
        assert("right"@.len() == 5);
        assert("side"@[0] == 's');
        assert("left"@[0] == 'l');
    }

    /// The domain this band has to be filtered in; none for stereo, which is the
    /// same filter on both buses and so gives the same answer either way.
    pub open spec fn needed_domain(self) -> Option<Domain> {
        match self {
            BandChannel::Stereo => None,
            BandChannel::Mid | BandChannel::Side => Some(Domain::MidSide),
            BandChannel::Left | BandChannel::Right => Some(Domain::LeftRight),
        }
    }

    /// The domain this band has to be filtered in.
    pub fn domain(self) -> (r: Option<Domain>)
        ensures
            r == self.needed_domain(),
    {
        match self {
            BandChannel::Stereo => None,
            BandChannel::Mid | BandChannel::Side => Some(Domain::MidSide),
            BandChannel::Left | BandChannel::Right => Some(Domain::LeftRight),
        }
    }

    /// Does this band act on the first bus of its domain: left, or mid?
    pub fn uses_first_bus(self) -> (r: bool)
        ensures
            r == (self == BandChannel::Stereo || self == BandChannel::Mid || self
                == BandChannel::Left),
    {
        !matches!(self, BandChannel::Side | BandChannel::Right)
    }

    /// And on the second: right, or side?
    pub fn uses_second_bus(self) -> (r: bool)
        ensures
            r == (self == BandChannel::Stereo || self == BandChannel::Side || self
                == BandChannel::Right),
    {
        !matches!(self, BandChannel::Mid | BandChannel::Left)
    }
}

/// Which pair of buses the signal is currently carried on.
///
/// Left/right and mid/side are two views of the same stereo signal, related by
/// an exactly invertible transform, so the EQ moves between them as it walks the
/// band list rather than committing to one.
#[derive(Clone, Copy, Debug, PartialEq, Eq, Structural)]
pub enum Domain {
    LeftRight,
    MidSide,
}

/// Cut slopes, in dB/oct. Only even filter orders exist, hence multiples of 12.
#[derive(Clone, Copy, Debug, PartialEq, Eq, Structural)]
pub enum Slope {
    S12,
    S24,
    S36,
    S48,
    S72,
    S96,
}

impl Slope {
    /// The slope in decibels per octave.
    pub open spec fn steepness(self) -> u32 {
        match self {
            Slope::S12 => 12,
            Slope::S24 => 24,
            Slope::S36 => 36,
            Slope::S48 => 48,
            Slope::S72 => 72,
            Slope::S96 => 96,
        }
    }

    /// The slope in decibels per octave.
    pub fn db_per_oct(self) -> (r: u32)
        ensures
            r == self.steepness(),
    {
        match self {
            Slope::S12 => 12,
            Slope::S24 => 24,
            Slope::S36 => 36,
            Slope::S48 => 48,
            Slope::S72 => 72,
            Slope::S96 => 96,
        }
    }

    /// Filter order: the cascade holds half this many second-order sections, and
    /// each order adds six decibels per octave.
    pub fn order(self) -> (r: usize)
        ensures
            6 * r == self.steepness(),
            r % 2 == 0,
    {
        (self.db_per_oct() / 6) as usize
    }

    /// The slope of a given steepness, if there is one.
    pub fn from_db_per_oct(v: u32) -> (r: Option<Slope>)
        ensures
            match r {
                Some(s) => s.steepness() == v,
                None => forall|s: Slope| s.steepness() != v,
            },
    {
        match v {
            12 => Some(Slope::S12),
            24 => Some(Slope::S24),
            36 => Some(Slope::S36),
            48 => Some(Slope::S48),
            72 => Some(Slope::S72),
            96 => Some(Slope::S96),
            _ => None,
        }
    }

    /// No two slopes are equally steep, so a slope survives being stored as its
    /// steepness.
    pub proof fn steepnesses_are_distinct(a: Slope, b: Slope)
        requires
            a.steepness() == b.steepness(),
        ensures
            a == b,
    {
    }
}

/// What the global resonance stage runs as, once it is switched on: the
/// sixth-octave filter bank, or the spectral detector and its adaptive filters.
#[derive(Clone, Copy, Debug, PartialEq, Eq, Structural)]
pub enum ResMode {
    Adaptive,
    Spectral,
}

impl ResMode {
    /// The name that sessions and presets store this by.
    pub open spec fn wire_name(self) -> &'static str {
        match self {
            ResMode::Adaptive => "adaptive",
            ResMode::Spectral => "spectral",
        }
    }

    /// The characters of that name.
    pub open spec fn wire(self) -> Seq<char> {
        self.wire_name()@
    }

    /// The name that sessions and presets store this by.
    pub fn as_wire(self) -> (r: &'static str)
        ensures
            r == self.wire_name(),
    {
        match self {
            ResMode::Adaptive => "adaptive",
            ResMode::Spectral => "spectral",
        }
    }

    /// The variant a name stands for, if it stands for one.
    pub fn from_wire(s: &str) -> (r: Option<ResMode>)
        ensures
            match r {
                Some(v) => v.wire() == s@,
                None => forall|v: ResMode| v.wire() != s@,
            },
    {
        if same_text(s, "adaptive") {
            Some(ResMode::Adaptive)
        } else if same_text(s, "spectral") {
            Some(ResMode::Spectral)
        } else {
            None
        }
    }

    /// No two variants share a name, so a name that was written reads back as
    /// the variant it was written for.
    pub proof fn names_are_distinct(a: ResMode, b: ResMode)
        requires
            a.wire() == b.wire(),
        ensures
            a == b,
    {
        reveal_strlit("adaptive");
        reveal_strlit("spectral");
        assert("adaptive"@[0] == 'a');
        assert("spectral"@[0] == 's');
    }
}

/// How many adaptive filters the spectral stage may run at once.
///
/// Named for what the user is choosing: the leanest tier is the one meant for
/// tracking and monitoring chains, hence "Ultra".
#[derive(Clone, Copy, Debug, PartialEq, Eq, Structural)]
pub enum ResQuality {
    Ultra,
    Balanced,
    High,
}

impl ResQuality {
    /// The name that sessions and presets store this by.
    pub open spec fn wire_name(self) -> &'static str {
        match self {
            ResQuality::Ultra => "ultra",
            ResQuality::Balanced => "balanced",
            ResQuality::High => "high",
        }
    }

    /// The characters of that name.
    pub open spec fn wire(self) -> Seq<char> {
        self.wire_name()@
    }

    /// The name that sessions and presets store this by.
    pub fn as_wire(self) -> (r: &'static str)
        ensures
            r == self.wire_name(),
    {
        match self {
            ResQuality::Ultra => "ultra",
            ResQuality::Balanced => "balanced",
            ResQuality::High => "high",
        }
    }

    /// The variant a name stands for, if it stands for one.
    pub fn from_wire(s: &str) -> (r: Option<ResQuality>)
        ensures
            match r {
                Some(v) => v.wire() == s@,
                None => forall|v: ResQuality| v.wire() != s@,
            },
    {
        if same_text(s, "ultra") {
            Some(ResQuality::Ultra)
        } else if same_text(s, "balanced") {
            Some(ResQuality::Balanced)
        } else if same_text(s, "high") {
            Some(ResQuality::High)
        } else {
            None
        }
    }

    /// No two variants share a name, so a name that was written reads back as
    /// the variant it was written for.
    pub proof fn names_are_distinct(a: ResQuality, b: ResQuality)
        requires
            a.wire() == b.wire(),
        ensures
            a == b,
    {
        reveal_strlit("ultra");
        reveal_strlit("balanced");
        reveal_strlit("high");
        assert("ultra"@.len() == 5);
        assert("balanced"@.len() == 8);
        assert("high"@.len() == 4);
    }

    /// Simultaneous adaptive targets this tier allows.
    pub fn max_targets(self) -> (r: usize)
        ensures
            r == (match self {
                ResQuality::Ultra => 8int,
                ResQuality::Balanced => 16,
                ResQuality::High => 24,
            }),
    {
        match self {
            ResQuality::Ultra => 8,
            ResQuality::Balanced => 16,
            ResQuality::High => 24,
        }
    }
}

/// How a band's own resonance amount finds what it suppresses.
///
/// The default is Adaptive rather than Off on purpose: the amount itself
/// defaults to zero, so a fresh band is still inert.
#[derive(Clone, Copy, Debug, PartialEq, Eq, Structural)]
pub enum BandResMode {
    Off,
    Adaptive,
    Spectral,
}

impl BandResMode {
    /// The name that sessions and presets store this by.
    pub open spec fn wire_name(self) -> &'static str {
        match self {
            BandResMode::Off => "off",
            BandResMode::Adaptive => "adaptive",
            BandResMode::Spectral => "spectral",
        }
    }

    /// The characters of that name.
    pub open spec fn wire(self) -> Seq<char> {
        self.wire_name()@
    }

    /// The name that sessions and presets store this by.
    pub fn as_wire(self) -> (r: &'static str)
        ensures
            r == self.wire_name(),
    {
        match self {
            BandResMode::Off => "off",
            BandResMode::Adaptive => "adaptive",
            BandResMode::Spectral => "spectral",
        }
    }

    /// The variant a name stands for, if it stands for one.
    pub fn from_wire(s: &str) -> (r: Option<BandResMode>)
        ensures
            match r {
                Some(v) => v.wire() == s@,
                None => forall|v: BandResMode| v.wire() != s@,
            },
    {
        if same_text(s, "off") {
            Some(BandResMode::Off)
        } else if same_text(s, "adaptive") {
            Some(BandResMode::Adaptive)
        } else if same_text(s, "spectral") {
            Some(BandResMode::Spectral)
        } else {
            None
        }
    }

    /// No two variants share a name, so a name that was written reads back as
    /// the variant it was written for.
    pub proof fn names_are_distinct(a: BandResMode, b: BandResMode)
        requires
            a.wire() == b.wire(),
        ensures
            a == b,
    {
        reveal_strlit("off");
        reveal_strlit("adaptive");
        reveal_strlit("spectral");
        assert("off"@.len() == 3);
        assert("adaptive"@.len() == 8);
        assert("spectral"@.len() == 8);
        assert("adaptive"@[0] == 'a');
        assert("spectral"@[0] == 's');
    }
}

/// Which side of its threshold a dynamic band engages on.
#[derive(Clone, Copy, Debug, PartialEq, Eq, Structural)]
pub enum DynMode {
    /// Engages once the band's level rises past the threshold.
    Above,
    /// Engages once it falls below it.
    Below,
}

impl DynMode {
    /// The name that sessions and presets store this by.
    pub open spec fn wire_name(self) -> &'static str {
        match self {
            DynMode::Above => "above",
            DynMode::Below => "below",
        }
    }

    /// The characters of that name.
    pub open spec fn wire(self) -> Seq<char> {
        self.wire_name()@
    }

    /// The name that sessions and presets store this by.
    pub fn as_wire(self) -> (r: &'static str)
        ensures
            r == self.wire_name(),
    {
        match self {
            DynMode::Above => "above",
            DynMode::Below => "below",
        }
    }

    /// The variant a name stands for, if it stands for one.
    pub fn from_wire(s: &str) -> (r: Option<DynMode>)
        ensures
            match r {
                Some(v) => v.wire() == s@,
                None => forall|v: DynMode| v.wire() != s@,
            },
    {
        if same_text(s, "above") {
            Some(DynMode::Above)
        } else if same_text(s, "below") {
            Some(DynMode::Below)
        } else {
            None
        }
    }

    /// No two variants share a name, so a name that was written reads back as
    /// the variant it was written for.
    pub proof fn names_are_distinct(a: DynMode, b: DynMode)
        requires
            a.wire() == b.wire(),
        ensures
            a == b,
    {
        reveal_strlit("above");
        reveal_strlit("below");
        assert("above"@[0] == 'a');
        assert("below"@[0] == 'b');
    }
}

/// A new value for one parameter of a band slot.
#[derive(Clone, Copy, Debug, PartialEq, Eq, Structural)]
pub enum BandWrite {
    Active(bool),
    Enabled(bool),
    Kind(BandKind),
    Channel(BandChannel),
    Slope(Slope),
    Dynamic(bool),
    DynMode(DynMode),
    ResMode(BandResMode),
    Float(BandFloat, Single),
}

/// One band slot.
#[derive(Clone, Copy, Debug, PartialEq, Eq, Structural)]
pub struct BandParams {
    /// Is this slot in use at all? Distinct from `enabled`, which is the user's
    /// per-band on/off switch: an inactive slot isn't drawn or listed.
    pub active: bool,
    pub enabled: bool,
    pub kind: BandKind,
    pub channel: BandChannel,
    pub freq: Single,
    pub gain: Single,
    pub q: Single,
    pub slope: Slope,
    pub dynamic: bool,
    pub dyn_mode: DynMode,
    pub dyn_range: Single,
    pub threshold: Single,
    pub attack: Single,
    pub release: Single,
    /// Adaptive resonance suppression inside this band's own region, in percent.
    /// Zero is off.
    pub resonance: Single,
    /// How that amount finds its resonances.
    pub res_mode: BandResMode,
    /// Ceiling on the cut this band may ask for, in dB.
    pub res_range: Single,
    /// dB taken off the detection threshold inside this band's region; positive
    /// makes the band more eager than the global stage.
    pub res_sens: Single,
    /// Half-width of the spectral search region, in octaves either side of the
    /// band's frequency.
    pub res_width: Single,
    /// Ballistics for this band's resonance attenuation, distinct from the
    /// dynamics section's, which move the band's own gain.
    pub res_attack: Single,
    pub res_release: Single,
}

impl BandParams {
    /// Every parameter at its default.
    pub open spec fn fresh() -> BandParams {
        BandParams {
            active: false,
            enabled: true,
            kind: BandKind::Bell,
            channel: BandChannel::Stereo,
            freq: BandFloat::Freq.limits_spec().default,
            gain: BandFloat::Gain.limits_spec().default,
            q: BandFloat::Q.limits_spec().default,
            slope: Slope::S24,
            dynamic: false,
            dyn_mode: DynMode::Above,
            dyn_range: BandFloat::DynRange.limits_spec().default,
            threshold: BandFloat::Threshold.limits_spec().default,
            attack: BandFloat::Attack.limits_spec().default,
            release: BandFloat::Release.limits_spec().default,
            resonance: BandFloat::Resonance.limits_spec().default,
            res_mode: BandResMode::Adaptive,
            res_range: BandFloat::ResRange.limits_spec().default,
            res_sens: BandFloat::ResSens.limits_spec().default,
            res_width: BandFloat::ResWidth.limits_spec().default,
            res_attack: BandFloat::ResAttack.limits_spec().default,
            res_release: BandFloat::ResRelease.limits_spec().default,
        }
    }

    /// One of the float parameters.
    pub open spec fn float(self, f: BandFloat) -> Single {
        match f {
            BandFloat::Freq => self.freq,
            BandFloat::Gain => self.gain,
            BandFloat::Q => self.q,
            BandFloat::DynRange => self.dyn_range,
            BandFloat::Threshold => self.threshold,
            BandFloat::Attack => self.attack,
            BandFloat::Release => self.release,
            BandFloat::Resonance => self.resonance,
            BandFloat::ResRange => self.res_range,
            BandFloat::ResSens => self.res_sens,
            BandFloat::ResWidth => self.res_width,
            BandFloat::ResAttack => self.res_attack,
            BandFloat::ResRelease => self.res_release,
        }
    }

    /// Every float parameter holds a value it accepts.
    pub open spec fn in_range(self) -> bool {
        forall|f: BandFloat| f.limits_spec().accepts(#[trigger] self.float(f))
    }

    /// These parameters after one of them was written.
    pub open spec fn with(self, w: BandWrite) -> BandParams {
        match w {
            BandWrite::Active(v) => BandParams { active: v, ..self },
            BandWrite::Enabled(v) => BandParams { enabled: v, ..self },
            BandWrite::Kind(v) => BandParams { kind: v, ..self },
            BandWrite::Channel(v) => BandParams { channel: v, ..self },
            BandWrite::Slope(v) => BandParams { slope: v, ..self },
            BandWrite::Dynamic(v) => BandParams { dynamic: v, ..self },
            BandWrite::DynMode(v) => BandParams { dyn_mode: v, ..self },
            BandWrite::ResMode(v) => BandParams { res_mode: v, ..self },
            BandWrite::Float(BandFloat::Freq, v) => BandParams { freq: v, ..self },
            BandWrite::Float(BandFloat::Gain, v) => BandParams { gain: v, ..self },
            BandWrite::Float(BandFloat::Q, v) => BandParams { q: v, ..self },
            BandWrite::Float(BandFloat::DynRange, v) => BandParams { dyn_range: v, ..self },
            BandWrite::Float(BandFloat::Threshold, v) => BandParams { threshold: v, ..self },
            BandWrite::Float(BandFloat::Attack, v) => BandParams { attack: v, ..self },
            BandWrite::Float(BandFloat::Release, v) => BandParams { release: v, ..self },
            BandWrite::Float(BandFloat::Resonance, v) => BandParams { resonance: v, ..self },
            BandWrite::Float(BandFloat::ResRange, v) => BandParams { res_range: v, ..self },
            BandWrite::Float(BandFloat::ResSens, v) => BandParams { res_sens: v, ..self },
            BandWrite::Float(BandFloat::ResWidth, v) => BandParams { res_width: v, ..self },
            BandWrite::Float(BandFloat::ResAttack, v) => BandParams { res_attack: v, ..self },
            BandWrite::Float(BandFloat::ResRelease, v) => BandParams { res_release: v, ..self },
        }
    }

    /// Write one of these parameters.
    pub fn write(&mut self, w: BandWrite)
        ensures
            *final(self) == old(self).with(w),
    {
        match w {
            BandWrite::Active(v) => {
                self.active = v;
            },
            BandWrite::Enabled(v) => {
                self.enabled = v;
            },
            BandWrite::Kind(v) => {
                self.kind = v;
            },
            BandWrite::Channel(v) => {
                self.channel = v;
            },
            BandWrite::Slope(v) => {
                self.slope = v;
            },
            BandWrite::Dynamic(v) => {
                self.dynamic = v;
            },
            BandWrite::DynMode(v) => {
                self.dyn_mode = v;
            },
            BandWrite::ResMode(v) => {
                self.res_mode = v;
            },
            BandWrite::Float(BandFloat::Freq, v) => {
                self.freq = v;
            },
            BandWrite::Float(BandFloat::Gain, v) => {
                self.gain = v;
            },
            BandWrite::Float(BandFloat::Q, v) => {
                self.q = v;
            },
            BandWrite::Float(BandFloat::DynRange, v) => {
                self.dyn_range = v;
            },
            BandWrite::Float(BandFloat::Threshold, v) => {
                self.threshold = v;
            },
            BandWrite::Float(BandFloat::Attack, v) => {
                self.attack = v;
            },
            BandWrite::Float(BandFloat::Release, v) => {
                self.release = v;
            },
            BandWrite::Float(BandFloat::Resonance, v) => {
                self.resonance = v;
            },
            BandWrite::Float(BandFloat::ResRange, v) => {
                self.res_range = v;
            },
            BandWrite::Float(BandFloat::ResSens, v) => {
                self.res_sens = v;
            },
            BandWrite::Float(BandFloat::ResWidth, v) => {
                self.res_width = v;
            },
            BandWrite::Float(BandFloat::ResAttack, v) => {
                self.res_attack = v;
            },
            BandWrite::Float(BandFloat::ResRelease, v) => {
                self.res_release = v;
            },
        }
    }
}

impl Default for BandParams {
    fn default() -> (r: BandParams)
        ensures
            r == BandParams::fresh(),
            r.in_range(),
    {
        BandParams {
            active: false,
            enabled: true,
            kind: BandKind::Bell,
            channel: BandChannel::Stereo,
            freq: BandFloat::Freq.limits().default,
            gain: BandFloat::Gain.limits().default,
            q: BandFloat::Q.limits().default,
            slope: Slope::S24,
            dynamic: false,
            dyn_mode: DynMode::Above,
            dyn_range: BandFloat::DynRange.limits().default,
            threshold: BandFloat::Threshold.limits().default,
            attack: BandFloat::Attack.limits().default,
            release: BandFloat::Release.limits().default,
            resonance: BandFloat::Resonance.limits().default,
            res_mode: BandResMode::Adaptive,
            res_range: BandFloat::ResRange.limits().default,
            res_sens: BandFloat::ResSens.limits().default,
            res_width: BandFloat::ResWidth.limits().default,
            res_attack: BandFloat::ResAttack.limits().default,
            res_release: BandFloat::ResRelease.limits().default,
        }
    }
}

/// A new value for one parameter of the global resonance stage.
#[derive(Clone, Copy, Debug, PartialEq, Eq, Structural)]
pub enum ResonanceWrite {
    Enabled(bool),
    Mode(ResMode),
    Quality(ResQuality),
    Delta(bool),
    Float(ResonanceFloat, Single),
}

/// The global resonance stage.
#[derive(Clone, Copy, Debug, PartialEq, Eq, Structural)]
pub struct ResonanceParams {
    pub enabled: bool,
    /// Which engine the switch arms. Kept apart from `enabled` so the automation
    /// lane hosts already wrote for the switch keeps meaning on/off.
    pub mode: ResMode,
    /// Adaptive filter budget for the spectral engine.
    pub quality: ResQuality,
    /// Ceiling on any single cut the stage makes, in dB.
    pub range: Single,
    /// The three ratios are percentages, the units the UI shows.
    pub depth: Single,
    pub sharpness: Single,
    pub threshold: Single,
    pub attack: Single,
    pub release: Single,
    pub low: Single,
    pub high: Single,
    pub mix: Single,
    /// Monitoring, not sound design: listen to what the stage takes away.
    pub delta: bool,
}

impl ResonanceParams {
    /// Every parameter at its default.
    pub open spec fn fresh() -> ResonanceParams {
        ResonanceParams {
            enabled: false,
            mode: ResMode::Adaptive,
            quality: ResQuality::Ultra,
            range: ResonanceFloat::Range.limits_spec().default,
            depth: ResonanceFloat::Depth.limits_spec().default,
            sharpness: ResonanceFloat::Sharpness.limits_spec().default,
            threshold: ResonanceFloat::Threshold.limits_spec().default,
            attack: ResonanceFloat::Attack.limits_spec().default,
            release: ResonanceFloat::Release.limits_spec().default,
            low: ResonanceFloat::Low.limits_spec().default,
            high: ResonanceFloat::High.limits_spec().default,
            mix: ResonanceFloat::Mix.limits_spec().default,
            delta: false,
        }
    }

    /// One of the float parameters.
    pub open spec fn float(self, f: ResonanceFloat) -> Single {
        match f {
            ResonanceFloat::Range => self.range,
            ResonanceFloat::Depth => self.depth,
            ResonanceFloat::Sharpness => self.sharpness,
            ResonanceFloat::Threshold => self.threshold,
            ResonanceFloat::Attack => self.attack,
            ResonanceFloat::Release => self.release,
            ResonanceFloat::Low => self.low,
            ResonanceFloat::High => self.high,
            ResonanceFloat::Mix => self.mix,
        }
    }

    /// Every float parameter holds a value it accepts.
    pub open spec fn in_range(self) -> bool {
        forall|f: ResonanceFloat| f.limits_spec().accepts(#[trigger] self.float(f))
    }

    /// These parameters after one of them was written.
    pub open spec fn with(self, w: ResonanceWrite) -> ResonanceParams {
        match w {
            ResonanceWrite::Enabled(v) => ResonanceParams { enabled: v, ..self },
            ResonanceWrite::Mode(v) => ResonanceParams { mode: v, ..self },
            ResonanceWrite::Quality(v) => ResonanceParams { quality: v, ..self },
            ResonanceWrite::Delta(v) => ResonanceParams { delta: v, ..self },
            ResonanceWrite::Float(ResonanceFloat::Range, v) => ResonanceParams { range: v, ..self },
            ResonanceWrite::Float(ResonanceFloat::Depth, v) => ResonanceParams { depth: v, ..self },
            ResonanceWrite::Float(ResonanceFloat::Sharpness, v) => ResonanceParams { sharpness: v, ..self },
            ResonanceWrite::Float(ResonanceFloat::Threshold, v) => ResonanceParams { threshold: v, ..self },
            ResonanceWrite::Float(ResonanceFloat::Attack, v) => ResonanceParams { attack: v, ..self },
            ResonanceWrite::Float(ResonanceFloat::Release, v) => ResonanceParams { release: v, ..self },
            ResonanceWrite::Float(ResonanceFloat::Low, v) => ResonanceParams { low: v, ..self },
            ResonanceWrite::Float(ResonanceFloat::High, v) => ResonanceParams { high: v, ..self },
            ResonanceWrite::Float(ResonanceFloat::Mix, v) => ResonanceParams { mix: v, ..self },
        }
    }

    /// Write one of these parameters.
    pub fn write(&mut self, w: ResonanceWrite)
        ensures
            *final(self) == old(self).with(w),
    {
        match w {
            ResonanceWrite::Enabled(v) => {
                self.enabled = v;
            },
            ResonanceWrite::Mode(v) => {
                self.mode = v;
            },
            ResonanceWrite::Quality(v) => {
                self.quality = v;
            },
            ResonanceWrite::Delta(v) => {
                self.delta = v;
            },
            ResonanceWrite::Float(ResonanceFloat::Range, v) => {
                self.range = v;
            },
            ResonanceWrite::Float(ResonanceFloat::Depth, v) => {
                self.depth = v;
            },
            ResonanceWrite::Float(ResonanceFloat::Sharpness, v) => {
                self.sharpness = v;
            },
            ResonanceWrite::Float(ResonanceFloat::Threshold, v) => {
                self.threshold = v;
            },
            ResonanceWrite::Float(ResonanceFloat::Attack, v) => {
                self.attack = v;
            },
            ResonanceWrite::Float(ResonanceFloat::Release, v) => {
                self.release = v;
            },
            ResonanceWrite::Float(ResonanceFloat::Low, v) => {
                self.low = v;
            },
            ResonanceWrite::Float(ResonanceFloat::High, v) => {
                self.high = v;
            },
            ResonanceWrite::Float(ResonanceFloat::Mix, v) => {
                self.mix = v;
            },
        }
    }
}

impl Default for ResonanceParams {
    fn default() -> (r: ResonanceParams)
        ensures
            r == ResonanceParams::fresh(),
            r.in_range(),
    {
        ResonanceParams {
            enabled: false,
            mode: ResMode::Adaptive,
            quality: ResQuality::Ultra,
            range: ResonanceFloat::Range.limits().default,
            depth: ResonanceFloat::Depth.limits().default,
            sharpness: ResonanceFloat::Sharpness.limits().default,
            threshold: ResonanceFloat::Threshold.limits().default,
            attack: ResonanceFloat::Attack.limits().default,
            release: ResonanceFloat::Release.limits().default,
            low: ResonanceFloat::Low.limits().default,
            high: ResonanceFloat::High.limits().default,
            mix: ResonanceFloat::Mix.limits().default,
            delta: false,
        }
    }
}

/// A new value for one parameter of the plugin.
#[derive(Clone, Copy, Debug, PartialEq, Eq, Structural)]
pub enum Write {
    Bypass(bool),
    PhaseInvert(bool),
    OutputGain(Single),
    Band(usize, BandWrite),
    Resonance(ResonanceWrite),
}

/// The plugin's parameters, and the view state saved beside them.
#[derive(Debug)]
pub struct EquzxParams {
    /// A real bypass, which hosts wire to their own bypass button.
    pub bypass: bool,
    pub phase_invert: bool,
    pub output_gain: Single,
    pub bands: [BandParams; MAX_BANDS],
    /// After the bands, so every parameter that existed before it keeps the
    /// automation index a host already wrote into its sessions.
    pub resonance: ResonanceParams,
    /// View state the host should remember but never automate: opaque text
    /// owned by the UI.
    pub ui_state: String,
}

impl Clone for EquzxParams {
    fn clone(&self) -> (r: EquzxParams)
        ensures
            r@ == self@,
            r.ui_state@ == self.ui_state@,
    {
        EquzxParams {
            bypass: self.bypass,
            phase_invert: self.phase_invert,
            output_gain: self.output_gain,
            bands: self.bands,
            resonance: self.resonance,
            ui_state: self.ui_state.clone(),
        }
    }
}

/// What the automatable parameters say.
#[verifier::ext_equal]
pub struct Settings {
    pub bypass: bool,
    pub phase_invert: bool,
    pub output_gain: Single,
    pub bands: Seq<BandParams>,
    pub resonance: ResonanceParams,
}

impl Settings {
    /// These settings after one parameter was written. A write to a slot that
    /// does not exist goes nowhere.
    pub open spec fn with(self, w: Write) -> Settings {
        match w {
            Write::Bypass(v) => Settings { bypass: v, ..self },
            Write::PhaseInvert(v) => Settings { phase_invert: v, ..self },
            Write::OutputGain(v) => Settings { output_gain: v, ..self },
            Write::Band(slot, b) => if slot < self.bands.len() {
                Settings {
                    bands: self.bands.update(slot as int, self.bands[slot as int].with(b)),
                    ..self
                }
            } else {
                self
            },
            Write::Resonance(r) => Settings { resonance: self.resonance.with(r), ..self },
        }
    }

    /// These settings after a list of writes, in order.
    pub open spec fn after(self, writes: Seq<Write>) -> Settings
        decreases writes.len(),
    {
        if writes.len() == 0 {
            self
        } else {
            self.after(writes.drop_last()).with(writes.last())
        }
    }
}

impl View for EquzxParams {
    type V = Settings;

    open spec fn view(&self) -> Settings {
        Settings {
            bypass: self.bypass,
            phase_invert: self.phase_invert,
            output_gain: self.output_gain,
            bands: self.bands@,
            resonance: self.resonance,
        }
    }
}

impl EquzxParams {
    /// Write one parameter.
    pub fn write(&mut self, w: Write)
        ensures
            final(self)@ == old(self)@.with(w),
            final(self).ui_state@ == old(self).ui_state@,
    {
        match w {
            Write::Bypass(v) => {
                self.bypass = v;
            },
            Write::PhaseInvert(v) => {
                self.phase_invert = v;
            },
            Write::OutputGain(v) => {
                self.output_gain = v;
            },
            Write::Band(slot, b) => {
                if slot < MAX_BANDS {
                    let mut band: BandParams = self.bands[slot];
                    band.write(b);
                    self.bands[slot] = band;
                }
            },
            Write::Resonance(r) => {
                self.resonance.write(r);
            },
        }
    }
}

impl Default for EquzxParams {
    fn default() -> (r: EquzxParams)
        ensures
            r@ == (Settings {
                bypass: false,
                phase_invert: false,
                output_gain: Limits::output_gain_spec().default,
                bands: Seq::new(MAX_BANDS as nat, |slot: int| BandParams::fresh()),
                resonance: ResonanceParams::fresh(),
            }),
            r.ui_state@ == Seq::<char>::empty(),
    {
        let r: EquzxParams = EquzxParams {
            bypass: false,
            phase_invert: false,
            output_gain: Limits::output_gain().default,
            bands: [BandParams::default();MAX_BANDS],
            resonance: ResonanceParams::default(),
            ui_state: String::new(),
        };
        assert(r.bands@ =~= Seq::new(MAX_BANDS as nat, |slot: int| BandParams::fresh()));
        r
    }
}

/// State the UI drives that isn't automatable and shouldn't be saved with the
/// session.
///
/// Solo is a monitoring action, not part of the sound the user is designing, so
/// it lives outside the parameter list.
#[derive(Clone, Copy, Debug)]
pub struct TransientState {
    /// The soloed slot; anything that is no slot means nothing is soloed.
    pub held: i32,
    /// Set by the editor when it wants the DSP to drop filter state, for example
    /// after loading a preset that moves every band at once.
    pub flush: bool,
}

impl TransientState {
    /// The slot being soloed, if one is.
    pub open spec fn soloed(self) -> Option<usize> {
        if 0 <= self.held < MAX_BANDS {
            Some(self.held as usize)
        } else {
            None
        }
    }

    /// The slot being soloed, if one is.
    pub fn solo(&self) -> (r: Option<usize>)
        ensures
            r == self.soloed(),
    {
        if self.held < 0 || self.held as usize >= MAX_BANDS {
            None
        } else {
            Some(self.held as usize)
        }
    }

    /// The state after the solo button of a slot: the slot is soloed, or no
    /// longer is.
    pub open spec fn toggled(self, slot: usize) -> TransientState {
        TransientState {
            held: if self.soloed() == Some(slot) {
                -1i32
            } else {
                slot as i32
            },
            flush: self.flush,
        }
    }

    /// Press the solo button of a slot.
    pub fn toggle_solo(&mut self, slot: usize)
        ensures
            *final(self) == old(self).toggled(slot),
    {
        let soloed: bool = match self.solo() {
            Some(s) => s == slot,
            None => false,
        };
        self.set_solo(
            if soloed {
                None
            } else {
                Some(slot)
            },
        );
    }

    /// The solo button undoes itself, and solos no other slot.
    pub proof fn a_solo_pressed_twice_is_released(self, slot: usize)
        requires
            slot < MAX_BANDS,
        ensures
            self.toggled(slot).soloed() == (if self.soloed() == Some(slot) {
                None
            } else {
                Some(slot)
            }),
            self.soloed() is None ==> self.toggled(slot).toggled(slot).soloed() is None,
            self.soloed() == Some(slot) ==> self.toggled(slot).toggled(slot).soloed() == Some(slot),
    {
    }

    /// Solo a slot, or nothing.
    pub fn set_solo(&mut self, slot: Option<usize>)
        ensures
            final(self).flush == old(self).flush,
            final(self).held == (match slot {
                Some(s) => s as i32,
                None => -1i32,
            }),
            slot is None ==> final(self).soloed() is None,
            slot matches Some(s) && s < MAX_BANDS ==> final(self).soloed() == slot,
    {
        self.held =
        match slot {
            Some(s) => s as i32,
            None => -1,
        };
    }
}

impl Default for TransientState {
    fn default() -> (r: TransientState)
        ensures
            r.soloed() is None,
            r.held == -1,
            !r.flush,
    {
        TransientState { held: -1, flush: false }
    }
}

impl BandParams {
    /// A slot nobody has touched: not in use, switched on, a stereo bell at 1 kHz,
    /// 0 dB and a Q of one, 24 dB an octave, its dynamics off and its suppression at
    /// nothing.
    pub proof fn a_fresh_slot_is_flat()
        ensures
            ({
                let d = BandParams::fresh();
                &&& !d.active
                &&& d.enabled
                &&& d.kind == BandKind::Bell
                &&& d.channel == BandChannel::Stereo
                &&& d.freq.bits == 0x447a_0000
                &&& d.gain.bits == 0
                &&& d.q.bits == 0x3f80_0000
                &&& d.slope == Slope::S24
                &&& !d.dynamic
                &&& d.dyn_mode == DynMode::Above
                &&& d.dyn_range.bits == 0xc0c0_0000
                &&& d.threshold.bits == 0xc1c0_0000
                &&& d.attack.bits == 0x41a0_0000
                &&& d.release.bits == 0x4348_0000
                &&& d.resonance.bits == 0
                &&& d.res_mode == BandResMode::Adaptive
            }),
    {
    }

    /// A number that is written is the number that is read, and no other number
    /// moves with it, nor anything that is not a number.
    pub proof fn a_number_written_is_read(self, f: BandFloat, g: BandFloat, v: Single)
        ensures
            self.with(BandWrite::Float(f, v)).float(f) == v,
            f != g ==> self.with(BandWrite::Float(f, v)).float(g) == self.float(g),
            self.with(BandWrite::Float(f, v)).active == self.active,
            self.with(BandWrite::Float(f, v)).enabled == self.enabled,
            self.with(BandWrite::Float(f, v)).kind == self.kind,
            self.with(BandWrite::Float(f, v)).channel == self.channel,
            self.with(BandWrite::Float(f, v)).slope == self.slope,
            self.with(BandWrite::Float(f, v)).dynamic == self.dynamic,
            self.with(BandWrite::Float(f, v)).dyn_mode == self.dyn_mode,
            self.with(BandWrite::Float(f, v)).res_mode == self.res_mode,
    {
    }
}

impl ResonanceParams {
    /// The stage nobody has touched is off, adaptive, and nobody listens to what it
    /// takes away.
    pub proof fn a_fresh_stage_is_off()
        ensures
            !ResonanceParams::fresh().enabled,
            !ResonanceParams::fresh().delta,
            ResonanceParams::fresh().mode == ResMode::Adaptive,
            ResonanceParams::fresh().quality == ResQuality::Ultra,
    {
    }

    /// A number that is written is the number that is read, and no other number
    /// moves with it, nor anything that is not a number.
    pub proof fn a_number_written_is_read(self, f: ResonanceFloat, g: ResonanceFloat, v: Single)
        ensures
            self.with(ResonanceWrite::Float(f, v)).float(f) == v,
            f != g ==> self.with(ResonanceWrite::Float(f, v)).float(g) == self.float(g),
            self.with(ResonanceWrite::Float(f, v)).enabled == self.enabled,
            self.with(ResonanceWrite::Float(f, v)).mode == self.mode,
            self.with(ResonanceWrite::Float(f, v)).quality == self.quality,
            self.with(ResonanceWrite::Float(f, v)).delta == self.delta,
    {
    }
}

impl BandKind {
    /// The cuts are the low and the high cut; the shelves and the bell have a gain;
    /// no cut has one, and a notch and a band-pass have neither gain nor slope.
    pub proof fn a_shape_has_a_gain_or_a_slope_or_neither(self)
        ensures
            self.cuts() <==> self == BandKind::LowCut || self == BandKind::HighCut,
            self.has_gain() <==> self != BandKind::LowCut && self != BandKind::HighCut && self
                != BandKind::Notch && self != BandKind::BandPass,
    {
    }
}

impl TransientState {
    /// A slot is soloed exactly when it is the one that is held, and there are
    /// twenty-four that can be.
    pub proof fn what_is_held_is_soloed(self, slot: usize)
        ensures
            self.soloed() == Some(slot) <==> slot < 24 && self.held == slot,
            self.soloed() is None <==> self.held < 0 || self.held >= 24,
    {
    }
}

impl BandChannel {
    /// A band on one side of the image is filtered where that side is a bus of its
    /// own, and a stereo band anywhere.
    pub proof fn a_side_is_filtered_on_its_own_bus(self)
        ensures
            self.needed_domain() is None <==> self == BandChannel::Stereo,
            self.needed_domain() == Some(Domain::MidSide) <==> self == BandChannel::Mid || self
                == BandChannel::Side,
            self.needed_domain() == Some(Domain::LeftRight) <==> self == BandChannel::Left || self
                == BandChannel::Right,
    {
    }
}

} // verus!
