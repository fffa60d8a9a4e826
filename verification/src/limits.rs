//! The float parameters: what each accepts, and how it presents itself to a host.
//!
//! Values are in the units the UI shows. The parameters a host holds as ratios
//! are percentages here, and are converted where the host is spoken to.

use vstd::prelude::*;

use crate::single::{finite, Single};

verus! {

/// The default of a float parameter and the range it accepts, in the units the
/// UI shows.
#[derive(Clone, Copy, Debug, PartialEq, Eq, Structural)]
pub struct Limits {
    pub default: Single,
    pub min: Single,
    pub max: Single,
}

impl Limits {
    /// The default is a number inside a range that is not empty.
    pub open spec fn valid(self) -> bool {
        &&& self.default.finite()
        &&& self.min.finite()
        &&& self.max.finite()
        &&& self.min.rank() <= self.default.rank() <= self.max.rank()
    }

    /// The output gain: 0 in -24..12 dB.
    pub open spec fn output_gain_spec() -> Limits {
        Limits {
            default: Single { bits: 0x0000_0000 },
            min: Single { bits: 0xc1c0_0000 },
            max: Single { bits: 0x4140_0000 },
        }
    }

    /// The output gain: 0 in -24..12 dB.
    pub fn output_gain() -> (r: Limits)
        ensures
            r == Limits::output_gain_spec(),
            r.valid(),
    {
        Limits {
            default: Single { bits: 0x0000_0000 },
            min: Single { bits: 0xc1c0_0000 },
            max: Single { bits: 0x4140_0000 },
        }
    }

    /// A value this parameter accepts as it stands.
    pub open spec fn accepts(self, v: Single) -> bool {
        v.finite() && v.within(self.min, self.max)
    }

    /// What becomes of a value from outside: something that is not finite reads
    /// as unset and lands on the default, and everything else on the nearest
    /// value the parameter accepts.
    pub open spec fn fitted(self, v: Single) -> Single {
        v.or_fallback(self.default).clamped(self.min, self.max)
    }

    /// Fit a value from outside into this parameter.
    pub fn fit(self, v: Single) -> (r: Single)
        requires
            self.valid(),
        ensures
            r == self.fitted(v),
            self.accepts(r),
    {
        finite(v, self.default).clamp(self.min, self.max)
    }

    /// What fits is left alone, so fitting twice is fitting once.
    pub proof fn fitting_keeps_what_fits(self, v: Single)
        requires
            self.valid(),
        ensures
            self.accepts(v) ==> self.fitted(v) == v,
            self.fitted(self.fitted(v)) == self.fitted(v),
            self.fitted(self.default) == self.default,
    {
    }
}

/// How a host spreads a parameter's range over a control.
#[derive(Clone, Copy, Debug, PartialEq, Eq, Structural)]
pub enum Curve {
    Linear,
    /// Skewed by this exponent; below zero gives the low end more room.
    Skewed(Single),
}

/// How a change reaches the audio: at once, or over this many milliseconds.
#[derive(Clone, Copy, Debug, PartialEq, Eq, Structural)]
pub enum Smoothing {
    Off,
    Linear(Single),
    Logarithmic(Single),
}

/// How a host prints a value, and with how many digits after the point.
#[derive(Clone, Copy, Debug, PartialEq, Eq, Structural)]
pub enum Readout {
    Rounded(u8),
    HertzThenKilohertz(u8),
    /// The host holds this parameter as a ratio; the UI shows a percentage.
    Percentage(u8),
}

/// How a float parameter presents itself to the host.
#[derive(Clone, Copy, Debug)]
pub struct FloatLayout {
    pub name: &'static str,
    pub curve: Curve,
    pub smoothing: Smoothing,
    pub unit: &'static str,
    pub readout: Readout,
}

/// The float parameters of a band slot.
#[derive(Clone, Copy, Debug, PartialEq, Eq, Structural)]
pub enum BandFloat {
    Freq,
    Gain,
    Q,
    DynRange,
    Threshold,
    Attack,
    Release,
    /// Adaptive resonance suppression inside the band's own region, in percent.
    /// Zero is off.
    Resonance,
    /// Ceiling on the cut the band may ask for, in dB.
    ResRange,
    /// dB taken off the detection threshold inside the band's region.
    ResSens,
    /// Half-width of the spectral search region, in octaves either side of the
    /// band's frequency.
    ResWidth,
    ResAttack,
    ResRelease,
}

impl BandFloat {
    /// Every parameter's default lies in its range.
    pub proof fn limits_are_valid(self)
        ensures
            self.limits_spec().valid(),
    {
    }

    /// The default of this parameter and the range it accepts.
    pub open spec fn limits_spec(self) -> Limits {
        match self {
            // 1000 in 20..22000
            BandFloat::Freq => Limits {
                default: Single { bits: 0x447a_0000 },
                min: Single { bits: 0x41a0_0000 },
                max: Single { bits: 0x46ab_e000 },
            },
            // 0 in -30..30
            BandFloat::Gain => Limits {
                default: Single { bits: 0x0000_0000 },
                min: Single { bits: 0xc1f0_0000 },
                max: Single { bits: 0x41f0_0000 },
            },
            // 1 in 0.025..40
            BandFloat::Q => Limits {
                default: Single { bits: 0x3f80_0000 },
                min: Single { bits: 0x3ccc_cccd },
                max: Single { bits: 0x4220_0000 },
            },
            // -6 in -30..30
            BandFloat::DynRange => Limits {
                default: Single { bits: 0xc0c0_0000 },
                min: Single { bits: 0xc1f0_0000 },
                max: Single { bits: 0x41f0_0000 },
            },
            // -24 in -70..0
            BandFloat::Threshold => Limits {
                default: Single { bits: 0xc1c0_0000 },
                min: Single { bits: 0xc28c_0000 },
                max: Single { bits: 0x0000_0000 },
            },
            // 20 in 1..300
            BandFloat::Attack => Limits {
                default: Single { bits: 0x41a0_0000 },
                min: Single { bits: 0x3f80_0000 },
                max: Single { bits: 0x4396_0000 },
            },
            // 200 in 10..2000
            BandFloat::Release => Limits {
                default: Single { bits: 0x4348_0000 },
                min: Single { bits: 0x4120_0000 },
                max: Single { bits: 0x44fa_0000 },
            },
            // 0 in 0..100
            BandFloat::Resonance => Limits {
                default: Single { bits: 0x0000_0000 },
                min: Single { bits: 0x0000_0000 },
                max: Single { bits: 0x42c8_0000 },
            },
            // 36 in 0..36
            BandFloat::ResRange => Limits {
                default: Single { bits: 0x4210_0000 },
                min: Single { bits: 0x0000_0000 },
                max: Single { bits: 0x4210_0000 },
            },
            // 0 in -12..12
            BandFloat::ResSens => Limits {
                default: Single { bits: 0x0000_0000 },
                min: Single { bits: 0xc140_0000 },
                max: Single { bits: 0x4140_0000 },
            },
            // 1 in 0.25..2
            BandFloat::ResWidth => Limits {
                default: Single { bits: 0x3f80_0000 },
                min: Single { bits: 0x3e80_0000 },
                max: Single { bits: 0x4000_0000 },
            },
            // 5 in 0.5..100
            BandFloat::ResAttack => Limits {
                default: Single { bits: 0x40a0_0000 },
                min: Single { bits: 0x3f00_0000 },
                max: Single { bits: 0x42c8_0000 },
            },
            // 40 in 5..1000
            BandFloat::ResRelease => Limits {
                default: Single { bits: 0x4220_0000 },
                min: Single { bits: 0x40a0_0000 },
                max: Single { bits: 0x447a_0000 },
            },
        }
    }

    /// The default of this parameter and the range it accepts.
    pub fn limits(self) -> (r: Limits)
        ensures
            r == self.limits_spec(),
            r.valid(),
    {
        match self {
            // 1000 in 20..22000
            BandFloat::Freq => Limits {
                default: Single { bits: 0x447a_0000 },
                min: Single { bits: 0x41a0_0000 },
                max: Single { bits: 0x46ab_e000 },
            },
            // 0 in -30..30
            BandFloat::Gain => Limits {
                default: Single { bits: 0x0000_0000 },
                min: Single { bits: 0xc1f0_0000 },
                max: Single { bits: 0x41f0_0000 },
            },
            // 1 in 0.025..40
            BandFloat::Q => Limits {
                default: Single { bits: 0x3f80_0000 },
                min: Single { bits: 0x3ccc_cccd },
                max: Single { bits: 0x4220_0000 },
            },
            // -6 in -30..30
            BandFloat::DynRange => Limits {
                default: Single { bits: 0xc0c0_0000 },
                min: Single { bits: 0xc1f0_0000 },
                max: Single { bits: 0x41f0_0000 },
            },
            // -24 in -70..0
            BandFloat::Threshold => Limits {
                default: Single { bits: 0xc1c0_0000 },
                min: Single { bits: 0xc28c_0000 },
                max: Single { bits: 0x0000_0000 },
            },
            // 20 in 1..300
            BandFloat::Attack => Limits {
                default: Single { bits: 0x41a0_0000 },
                min: Single { bits: 0x3f80_0000 },
                max: Single { bits: 0x4396_0000 },
            },
            // 200 in 10..2000
            BandFloat::Release => Limits {
                default: Single { bits: 0x4348_0000 },
                min: Single { bits: 0x4120_0000 },
                max: Single { bits: 0x44fa_0000 },
            },
            // 0 in 0..100
            BandFloat::Resonance => Limits {
                default: Single { bits: 0x0000_0000 },
                min: Single { bits: 0x0000_0000 },
                max: Single { bits: 0x42c8_0000 },
            },
            // 36 in 0..36
            BandFloat::ResRange => Limits {
                default: Single { bits: 0x4210_0000 },
                min: Single { bits: 0x0000_0000 },
                max: Single { bits: 0x4210_0000 },
            },
            // 0 in -12..12
            BandFloat::ResSens => Limits {
                default: Single { bits: 0x0000_0000 },
                min: Single { bits: 0xc140_0000 },
                max: Single { bits: 0x4140_0000 },
            },
            // 1 in 0.25..2
            BandFloat::ResWidth => Limits {
                default: Single { bits: 0x3f80_0000 },
                min: Single { bits: 0x3e80_0000 },
                max: Single { bits: 0x4000_0000 },
            },
            // 5 in 0.5..100
            BandFloat::ResAttack => Limits {
                default: Single { bits: 0x40a0_0000 },
                min: Single { bits: 0x3f00_0000 },
                max: Single { bits: 0x42c8_0000 },
            },
            // 40 in 5..1000
            BandFloat::ResRelease => Limits {
                default: Single { bits: 0x4220_0000 },
                min: Single { bits: 0x40a0_0000 },
                max: Single { bits: 0x447a_0000 },
            },
        }
    }

    /// How this parameter presents itself to the host.
    pub open spec fn layout_spec(self) -> FloatLayout {
        match self {
            BandFloat::Freq => FloatLayout {
                name: "Frequency",
                curve: Curve::Skewed(Single { bits: 0xc000_0000 }),
                smoothing: Smoothing::Logarithmic(Single { bits: 0x41a0_0000 }),
                unit: " Hz",
                readout: Readout::HertzThenKilohertz(1),
            },
            BandFloat::Gain => FloatLayout {
                name: "Gain",
                curve: Curve::Linear,
                smoothing: Smoothing::Linear(Single { bits: 0x41a0_0000 }),
                unit: " dB",
                readout: Readout::Rounded(2),
            },
            BandFloat::Q => FloatLayout {
                name: "Q",
                curve: Curve::Skewed(Single { bits: 0xbf80_0000 }),
                smoothing: Smoothing::Logarithmic(Single { bits: 0x41a0_0000 }),
                unit: "",
                readout: Readout::Rounded(3),
            },
            BandFloat::DynRange => FloatLayout {
                name: "Dyn Range",
                curve: Curve::Linear,
                smoothing: Smoothing::Linear(Single { bits: 0x41a0_0000 }),
                unit: " dB",
                readout: Readout::Rounded(2),
            },
            BandFloat::Threshold => FloatLayout {
                name: "Threshold",
                curve: Curve::Linear,
                smoothing: Smoothing::Linear(Single { bits: 0x41a0_0000 }),
                unit: " dB",
                readout: Readout::Rounded(1),
            },
            BandFloat::Attack => FloatLayout {
                name: "Attack",
                curve: Curve::Skewed(Single { bits: 0xbfc0_0000 }),
                smoothing: Smoothing::Off,
                unit: " ms",
                readout: Readout::Rounded(1),
            },
            BandFloat::Release => FloatLayout {
                name: "Release",
                curve: Curve::Skewed(Single { bits: 0xbfc0_0000 }),
                smoothing: Smoothing::Off,
                unit: " ms",
                readout: Readout::Rounded(0),
            },
            BandFloat::Resonance => FloatLayout {
                name: "Resonance",
                curve: Curve::Linear,
                smoothing: Smoothing::Linear(Single { bits: 0x41f0_0000 }),
                unit: "%",
                readout: Readout::Percentage(0),
            },
            BandFloat::ResRange => FloatLayout {
                name: "Res Range",
                curve: Curve::Linear,
                smoothing: Smoothing::Linear(Single { bits: 0x41f0_0000 }),
                unit: " dB",
                readout: Readout::Rounded(1),
            },
            BandFloat::ResSens => FloatLayout {
                name: "Res Sensitivity",
                curve: Curve::Linear,
                smoothing: Smoothing::Linear(Single { bits: 0x41f0_0000 }),
                unit: " dB",
                readout: Readout::Rounded(1),
            },
            BandFloat::ResWidth => FloatLayout {
                name: "Res Width",
                curve: Curve::Skewed(Single { bits: 0xbf00_0000 }),
                smoothing: Smoothing::Linear(Single { bits: 0x41f0_0000 }),
                unit: " oct",
                readout: Readout::Rounded(2),
            },
            BandFloat::ResAttack => FloatLayout {
                name: "Res Attack",
                curve: Curve::Skewed(Single { bits: 0xbfc0_0000 }),
                smoothing: Smoothing::Off,
                unit: " ms",
                readout: Readout::Rounded(1),
            },
            BandFloat::ResRelease => FloatLayout {
                name: "Res Release",
                curve: Curve::Skewed(Single { bits: 0xbfc0_0000 }),
                smoothing: Smoothing::Off,
                unit: " ms",
                readout: Readout::Rounded(0),
            },
        }
    }

    /// How this parameter presents itself to the host.
    pub fn layout(self) -> (r: FloatLayout)
        ensures
            r == self.layout_spec(),
    {
        match self {
            BandFloat::Freq => FloatLayout {
                name: "Frequency",
                curve: Curve::Skewed(Single { bits: 0xc000_0000 }),
                smoothing: Smoothing::Logarithmic(Single { bits: 0x41a0_0000 }),
                unit: " Hz",
                readout: Readout::HertzThenKilohertz(1),
            },
            BandFloat::Gain => FloatLayout {
                name: "Gain",
                curve: Curve::Linear,
                smoothing: Smoothing::Linear(Single { bits: 0x41a0_0000 }),
                unit: " dB",
                readout: Readout::Rounded(2),
            },
            BandFloat::Q => FloatLayout {
                name: "Q",
                curve: Curve::Skewed(Single { bits: 0xbf80_0000 }),
                smoothing: Smoothing::Logarithmic(Single { bits: 0x41a0_0000 }),
                unit: "",
                readout: Readout::Rounded(3),
            },
            BandFloat::DynRange => FloatLayout {
                name: "Dyn Range",
                curve: Curve::Linear,
                smoothing: Smoothing::Linear(Single { bits: 0x41a0_0000 }),
                unit: " dB",
                readout: Readout::Rounded(2),
            },
            BandFloat::Threshold => FloatLayout {
                name: "Threshold",
                curve: Curve::Linear,
                smoothing: Smoothing::Linear(Single { bits: 0x41a0_0000 }),
                unit: " dB",
                readout: Readout::Rounded(1),
            },
            BandFloat::Attack => FloatLayout {
                name: "Attack",
                curve: Curve::Skewed(Single { bits: 0xbfc0_0000 }),
                smoothing: Smoothing::Off,
                unit: " ms",
                readout: Readout::Rounded(1),
            },
            BandFloat::Release => FloatLayout {
                name: "Release",
                curve: Curve::Skewed(Single { bits: 0xbfc0_0000 }),
                smoothing: Smoothing::Off,
                unit: " ms",
                readout: Readout::Rounded(0),
            },
            BandFloat::Resonance => FloatLayout {
                name: "Resonance",
                curve: Curve::Linear,
                smoothing: Smoothing::Linear(Single { bits: 0x41f0_0000 }),
                unit: "%",
                readout: Readout::Percentage(0),
            },
            BandFloat::ResRange => FloatLayout {
                name: "Res Range",
                curve: Curve::Linear,
                smoothing: Smoothing::Linear(Single { bits: 0x41f0_0000 }),
                unit: " dB",
                readout: Readout::Rounded(1),
            },
            BandFloat::ResSens => FloatLayout {
                name: "Res Sensitivity",
                curve: Curve::Linear,
                smoothing: Smoothing::Linear(Single { bits: 0x41f0_0000 }),
                unit: " dB",
                readout: Readout::Rounded(1),
            },
            BandFloat::ResWidth => FloatLayout {
                name: "Res Width",
                curve: Curve::Skewed(Single { bits: 0xbf00_0000 }),
                smoothing: Smoothing::Linear(Single { bits: 0x41f0_0000 }),
                unit: " oct",
                readout: Readout::Rounded(2),
            },
            BandFloat::ResAttack => FloatLayout {
                name: "Res Attack",
                curve: Curve::Skewed(Single { bits: 0xbfc0_0000 }),
                smoothing: Smoothing::Off,
                unit: " ms",
                readout: Readout::Rounded(1),
            },
            BandFloat::ResRelease => FloatLayout {
                name: "Res Release",
                curve: Curve::Skewed(Single { bits: 0xbfc0_0000 }),
                smoothing: Smoothing::Off,
                unit: " ms",
                readout: Readout::Rounded(0),
            },
        }
    }
}

/// The float parameters of the global resonance stage.
#[derive(Clone, Copy, Debug, PartialEq, Eq, Structural)]
pub enum ResonanceFloat {
    /// Ceiling on any single cut the stage makes, in dB.
    Range,
    /// In percent, like sharpness and mix.
    Depth,
    Sharpness,
    Threshold,
    Attack,
    Release,
    Low,
    High,
    Mix,
}

impl ResonanceFloat {
    /// Every parameter's default lies in its range.
    pub proof fn limits_are_valid(self)
        ensures
            self.limits_spec().valid(),
    {
    }

    /// The default of this parameter and the range it accepts.
    pub open spec fn limits_spec(self) -> Limits {
        match self {
            // 36 in 0..36
            ResonanceFloat::Range => Limits {
                default: Single { bits: 0x4210_0000 },
                min: Single { bits: 0x0000_0000 },
                max: Single { bits: 0x4210_0000 },
            },
            // 50 in 0..100
            ResonanceFloat::Depth => Limits {
                default: Single { bits: 0x4248_0000 },
                min: Single { bits: 0x0000_0000 },
                max: Single { bits: 0x42c8_0000 },
            },
            // 50 in 0..100
            ResonanceFloat::Sharpness => Limits {
                default: Single { bits: 0x4248_0000 },
                min: Single { bits: 0x0000_0000 },
                max: Single { bits: 0x42c8_0000 },
            },
            // 6 in -12..24
            ResonanceFloat::Threshold => Limits {
                default: Single { bits: 0x40c0_0000 },
                min: Single { bits: 0xc140_0000 },
                max: Single { bits: 0x41c0_0000 },
            },
            // 5 in 0.5..100
            ResonanceFloat::Attack => Limits {
                default: Single { bits: 0x40a0_0000 },
                min: Single { bits: 0x3f00_0000 },
                max: Single { bits: 0x42c8_0000 },
            },
            // 40 in 5..1000
            ResonanceFloat::Release => Limits {
                default: Single { bits: 0x4220_0000 },
                min: Single { bits: 0x40a0_0000 },
                max: Single { bits: 0x447a_0000 },
            },
            // 20 in 20..2000
            ResonanceFloat::Low => Limits {
                default: Single { bits: 0x41a0_0000 },
                min: Single { bits: 0x41a0_0000 },
                max: Single { bits: 0x44fa_0000 },
            },
            // 20000 in 500..20000
            ResonanceFloat::High => Limits {
                default: Single { bits: 0x469c_4000 },
                min: Single { bits: 0x43fa_0000 },
                max: Single { bits: 0x469c_4000 },
            },
            // 100 in 0..100
            ResonanceFloat::Mix => Limits {
                default: Single { bits: 0x42c8_0000 },
                min: Single { bits: 0x0000_0000 },
                max: Single { bits: 0x42c8_0000 },
            },
        }
    }

    /// The default of this parameter and the range it accepts.
    pub fn limits(self) -> (r: Limits)
        ensures
            r == self.limits_spec(),
            r.valid(),
    {
        match self {
            // 36 in 0..36
            ResonanceFloat::Range => Limits {
                default: Single { bits: 0x4210_0000 },
                min: Single { bits: 0x0000_0000 },
                max: Single { bits: 0x4210_0000 },
            },
            // 50 in 0..100
            ResonanceFloat::Depth => Limits {
                default: Single { bits: 0x4248_0000 },
                min: Single { bits: 0x0000_0000 },
                max: Single { bits: 0x42c8_0000 },
            },
            // 50 in 0..100
            ResonanceFloat::Sharpness => Limits {
                default: Single { bits: 0x4248_0000 },
                min: Single { bits: 0x0000_0000 },
                max: Single { bits: 0x42c8_0000 },
            },
            // 6 in -12..24
            ResonanceFloat::Threshold => Limits {
                default: Single { bits: 0x40c0_0000 },
                min: Single { bits: 0xc140_0000 },
                max: Single { bits: 0x41c0_0000 },
            },
            // 5 in 0.5..100
            ResonanceFloat::Attack => Limits {
                default: Single { bits: 0x40a0_0000 },
                min: Single { bits: 0x3f00_0000 },
                max: Single { bits: 0x42c8_0000 },
            },
            // 40 in 5..1000
            ResonanceFloat::Release => Limits {
                default: Single { bits: 0x4220_0000 },
                min: Single { bits: 0x40a0_0000 },
                max: Single { bits: 0x447a_0000 },
            },
            // 20 in 20..2000
            ResonanceFloat::Low => Limits {
                default: Single { bits: 0x41a0_0000 },
                min: Single { bits: 0x41a0_0000 },
                max: Single { bits: 0x44fa_0000 },
            },
            // 20000 in 500..20000
            ResonanceFloat::High => Limits {
                default: Single { bits: 0x469c_4000 },
                min: Single { bits: 0x43fa_0000 },
                max: Single { bits: 0x469c_4000 },
            },
            // 100 in 0..100
            ResonanceFloat::Mix => Limits {
                default: Single { bits: 0x42c8_0000 },
                min: Single { bits: 0x0000_0000 },
                max: Single { bits: 0x42c8_0000 },
            },
        }
    }

    /// How this parameter presents itself to the host.
    pub open spec fn layout_spec(self) -> FloatLayout {
        match self {
            ResonanceFloat::Range => FloatLayout {
                name: "Resonance Range",
                curve: Curve::Linear,
                smoothing: Smoothing::Linear(Single { bits: 0x41f0_0000 }),
                unit: " dB",
                readout: Readout::Rounded(1),
            },
            ResonanceFloat::Depth => FloatLayout {
                name: "Resonance Depth",
                curve: Curve::Linear,
                smoothing: Smoothing::Linear(Single { bits: 0x41f0_0000 }),
                unit: "%",
                readout: Readout::Percentage(0),
            },
            ResonanceFloat::Sharpness => FloatLayout {
                name: "Resonance Sharpness",
                curve: Curve::Linear,
                smoothing: Smoothing::Linear(Single { bits: 0x41f0_0000 }),
                unit: "%",
                readout: Readout::Percentage(0),
            },
            ResonanceFloat::Threshold => FloatLayout {
                name: "Resonance Threshold",
                curve: Curve::Linear,
                smoothing: Smoothing::Linear(Single { bits: 0x41f0_0000 }),
                unit: " dB",
                readout: Readout::Rounded(1),
            },
            ResonanceFloat::Attack => FloatLayout {
                name: "Resonance Attack",
                curve: Curve::Skewed(Single { bits: 0xbfc0_0000 }),
                smoothing: Smoothing::Off,
                unit: " ms",
                readout: Readout::Rounded(1),
            },
            ResonanceFloat::Release => FloatLayout {
                name: "Resonance Release",
                curve: Curve::Skewed(Single { bits: 0xbfc0_0000 }),
                smoothing: Smoothing::Off,
                unit: " ms",
                readout: Readout::Rounded(0),
            },
            ResonanceFloat::Low => FloatLayout {
                name: "Resonance Low",
                curve: Curve::Skewed(Single { bits: 0xc000_0000 }),
                smoothing: Smoothing::Logarithmic(Single { bits: 0x4248_0000 }),
                unit: " Hz",
                readout: Readout::HertzThenKilohertz(1),
            },
            ResonanceFloat::High => FloatLayout {
                name: "Resonance High",
                curve: Curve::Skewed(Single { bits: 0xc000_0000 }),
                smoothing: Smoothing::Logarithmic(Single { bits: 0x4248_0000 }),
                unit: " Hz",
                readout: Readout::HertzThenKilohertz(1),
            },
            ResonanceFloat::Mix => FloatLayout {
                name: "Resonance Mix",
                curve: Curve::Linear,
                smoothing: Smoothing::Linear(Single { bits: 0x41f0_0000 }),
                unit: "%",
                readout: Readout::Percentage(0),
            },
        }
    }

    /// How this parameter presents itself to the host.
    pub fn layout(self) -> (r: FloatLayout)
        ensures
            r == self.layout_spec(),
    {
        match self {
            ResonanceFloat::Range => FloatLayout {
                name: "Resonance Range",
                curve: Curve::Linear,
                smoothing: Smoothing::Linear(Single { bits: 0x41f0_0000 }),
                unit: " dB",
                readout: Readout::Rounded(1),
            },
            ResonanceFloat::Depth => FloatLayout {
                name: "Resonance Depth",
                curve: Curve::Linear,
                smoothing: Smoothing::Linear(Single { bits: 0x41f0_0000 }),
                unit: "%",
                readout: Readout::Percentage(0),
            },
            ResonanceFloat::Sharpness => FloatLayout {
                name: "Resonance Sharpness",
                curve: Curve::Linear,
                smoothing: Smoothing::Linear(Single { bits: 0x41f0_0000 }),
                unit: "%",
                readout: Readout::Percentage(0),
            },
            ResonanceFloat::Threshold => FloatLayout {
                name: "Resonance Threshold",
                curve: Curve::Linear,
                smoothing: Smoothing::Linear(Single { bits: 0x41f0_0000 }),
                unit: " dB",
                readout: Readout::Rounded(1),
            },
            ResonanceFloat::Attack => FloatLayout {
                name: "Resonance Attack",
                curve: Curve::Skewed(Single { bits: 0xbfc0_0000 }),
                smoothing: Smoothing::Off,
                unit: " ms",
                readout: Readout::Rounded(1),
            },
            ResonanceFloat::Release => FloatLayout {
                name: "Resonance Release",
                curve: Curve::Skewed(Single { bits: 0xbfc0_0000 }),
                smoothing: Smoothing::Off,
                unit: " ms",
                readout: Readout::Rounded(0),
            },
            ResonanceFloat::Low => FloatLayout {
                name: "Resonance Low",
                curve: Curve::Skewed(Single { bits: 0xc000_0000 }),
                smoothing: Smoothing::Logarithmic(Single { bits: 0x4248_0000 }),
                unit: " Hz",
                readout: Readout::HertzThenKilohertz(1),
            },
            ResonanceFloat::High => FloatLayout {
                name: "Resonance High",
                curve: Curve::Skewed(Single { bits: 0xc000_0000 }),
                smoothing: Smoothing::Logarithmic(Single { bits: 0x4248_0000 }),
                unit: " Hz",
                readout: Readout::HertzThenKilohertz(1),
            },
            ResonanceFloat::Mix => FloatLayout {
                name: "Resonance Mix",
                curve: Curve::Linear,
                smoothing: Smoothing::Linear(Single { bits: 0x41f0_0000 }),
                unit: "%",
                readout: Readout::Percentage(0),
            },
        }
    }
}

impl Limits {
    /// Fitting lands on the nearest value the parameter accepts: a number in range
    /// is kept, one below it lands on the least, one above it on the greatest, and
    /// what is not finite on the default.
    pub proof fn fitting_lands_on_the_nearest(self, v: Single)
        requires
            self.valid(),
        ensures
            self.accepts(self.fitted(v)),
            !v.finite() ==> self.fitted(v) == self.default,
            v.finite() && v.rank() < self.min.rank() ==> self.fitted(v) == self.min,
            v.finite() && v.rank() > self.max.rank() ==> self.fitted(v) == self.max,
            v.finite() && self.min.rank() <= v.rank() <= self.max.rank() ==> self.fitted(v) == v,
    {
    }
}

/// A band is placed between 20 Hz and 22 kHz, a kilohertz unless it is placed, and
/// moved by up to 30 dB either way. Its Q is one unless it is set, and 40 at most.
#[verifier::spinoff_prover]
#[verifier::rlimit(60)]
pub proof fn a_band_is_limited_like_this()
    ensures
        BandFloat::Freq.limits_spec().default.stands_for(1000),
        BandFloat::Freq.limits_spec().min.stands_for(20),
        BandFloat::Freq.limits_spec().max.stands_for(22000),
        BandFloat::Gain.limits_spec().default.stands_for(0),
        BandFloat::Gain.limits_spec().min.stands_for(-30),
        BandFloat::Gain.limits_spec().max.stands_for(30),
        BandFloat::Q.limits_spec().default.stands_for(1),
        BandFloat::Q.limits_spec().max.stands_for(40),
{
    reveal_with_fuel(crate::single::doubled, 25);
}

/// The dynamics travel up to 30 dB either way, six down unless they are set, past a
/// threshold of -24 dB in -70 to 0, within 1 to 300 ms and back in 10 to 2000.
#[verifier::spinoff_prover]
#[verifier::rlimit(60)]
pub proof fn the_dynamics_are_limited_like_this()
    ensures
        BandFloat::DynRange.limits_spec().default.stands_for(-6),
        BandFloat::DynRange.limits_spec().min.stands_for(-30),
        BandFloat::DynRange.limits_spec().max.stands_for(30),
        BandFloat::Threshold.limits_spec().default.stands_for(-24),
        BandFloat::Threshold.limits_spec().min.stands_for(-70),
        BandFloat::Threshold.limits_spec().max.stands_for(0),
        BandFloat::Attack.limits_spec().default.stands_for(20),
        BandFloat::Attack.limits_spec().min.stands_for(1),
        BandFloat::Attack.limits_spec().max.stands_for(300),
        BandFloat::Release.limits_spec().default.stands_for(200),
        BandFloat::Release.limits_spec().min.stands_for(10),
        BandFloat::Release.limits_spec().max.stands_for(2000),
{
    reveal_with_fuel(crate::single::doubled, 25);
}

/// The suppression of a band runs to 100 percent and is off unless it is set; it cuts
/// up to 36 dB, and shifts its threshold by up to 12 either way.
#[verifier::spinoff_prover]
#[verifier::rlimit(60)]
pub proof fn the_suppression_of_a_band_is_limited_like_this()
    ensures
        BandFloat::Resonance.limits_spec().default.stands_for(0),
        BandFloat::Resonance.limits_spec().min.stands_for(0),
        BandFloat::Resonance.limits_spec().max.stands_for(100),
        BandFloat::ResRange.limits_spec().default.stands_for(36),
        BandFloat::ResRange.limits_spec().min.stands_for(0),
        BandFloat::ResRange.limits_spec().max.stands_for(36),
        BandFloat::ResSens.limits_spec().default.stands_for(0),
        BandFloat::ResSens.limits_spec().min.stands_for(-12),
        BandFloat::ResSens.limits_spec().max.stands_for(12),
{
    reveal_with_fuel(crate::single::doubled, 25);
}

/// A band searches an octave either way unless it is set, two at most; it cuts in 5 ms
/// unless it is set, 100 at most, and lets go in 40, 5 to 1000.
#[verifier::spinoff_prover]
#[verifier::rlimit(60)]
pub proof fn the_search_of_a_band_is_limited_like_this()
    ensures
        BandFloat::ResWidth.limits_spec().default.stands_for(1),
        BandFloat::ResWidth.limits_spec().max.stands_for(2),
        BandFloat::ResAttack.limits_spec().default.stands_for(5),
        BandFloat::ResAttack.limits_spec().max.stands_for(100),
        BandFloat::ResRelease.limits_spec().default.stands_for(40),
        BandFloat::ResRelease.limits_spec().min.stands_for(5),
        BandFloat::ResRelease.limits_spec().max.stands_for(1000),
{
    reveal_with_fuel(crate::single::doubled, 25);
}

/// The resonance stage cuts up to 36 dB, and is half deep and half sharp unless it is
/// set, all of it mixed in.
#[verifier::spinoff_prover]
#[verifier::rlimit(60)]
pub proof fn the_stage_is_limited_like_this()
    ensures
        ResonanceFloat::Range.limits_spec().default.stands_for(36),
        ResonanceFloat::Range.limits_spec().min.stands_for(0),
        ResonanceFloat::Range.limits_spec().max.stands_for(36),
        ResonanceFloat::Depth.limits_spec().default.stands_for(50),
        ResonanceFloat::Depth.limits_spec().min.stands_for(0),
        ResonanceFloat::Depth.limits_spec().max.stands_for(100),
        ResonanceFloat::Sharpness.limits_spec().default.stands_for(50),
        ResonanceFloat::Sharpness.limits_spec().min.stands_for(0),
        ResonanceFloat::Sharpness.limits_spec().max.stands_for(100),
        ResonanceFloat::Mix.limits_spec().default.stands_for(100),
        ResonanceFloat::Mix.limits_spec().min.stands_for(0),
        ResonanceFloat::Mix.limits_spec().max.stands_for(100),
{
    reveal_with_fuel(crate::single::doubled, 25);
}

/// The resonance stage engages 6 dB over its surroundings, from -12 to 24, and works
/// from 20 Hz, 2 kHz at most, to 20 kHz, 500 Hz at least.
#[verifier::spinoff_prover]
#[verifier::rlimit(60)]
pub proof fn the_stage_listens_like_this()
    ensures
        ResonanceFloat::Threshold.limits_spec().default.stands_for(6),
        ResonanceFloat::Threshold.limits_spec().min.stands_for(-12),
        ResonanceFloat::Threshold.limits_spec().max.stands_for(24),
        ResonanceFloat::Low.limits_spec().default.stands_for(20),
        ResonanceFloat::Low.limits_spec().min.stands_for(20),
        ResonanceFloat::Low.limits_spec().max.stands_for(2000),
        ResonanceFloat::High.limits_spec().default.stands_for(20000),
        ResonanceFloat::High.limits_spec().min.stands_for(500),
        ResonanceFloat::High.limits_spec().max.stands_for(20000),
{
    reveal_with_fuel(crate::single::doubled, 25);
}

/// The resonance stage cuts in 5 ms unless it is set, 100 at most, and lets go in 40,
/// 5 to 1000.
#[verifier::spinoff_prover]
#[verifier::rlimit(60)]
pub proof fn the_stage_moves_like_this()
    ensures
        ResonanceFloat::Attack.limits_spec().default.stands_for(5),
        ResonanceFloat::Attack.limits_spec().max.stands_for(100),
        ResonanceFloat::Release.limits_spec().default.stands_for(40),
        ResonanceFloat::Release.limits_spec().min.stands_for(5),
        ResonanceFloat::Release.limits_spec().max.stands_for(1000),
{
    reveal_with_fuel(crate::single::doubled, 25);
}

/// The output is moved by 24 dB down to 12 up, and not at all unless it is set.
#[verifier::spinoff_prover]
#[verifier::rlimit(60)]
pub proof fn the_output_is_limited_like_this()
    ensures
        Limits::output_gain_spec().default.stands_for(0),
        Limits::output_gain_spec().min.stands_for(-24),
        Limits::output_gain_spec().max.stands_for(12),
{
    reveal_with_fuel(crate::single::doubled, 25);
}

} // verus!
