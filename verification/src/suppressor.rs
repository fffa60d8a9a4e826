//! The header control for the adaptive resonance suppressor.
//!
//! The pill is the switch and the meter at once: click to arm the stage, and
//! while it is armed the number beside it is the deepest cut the bank is making
//! right now. Everything that shapes what it cuts lives behind the chevron.

use vstd::prelude::*;

use crate::edit::{set_bool, set_float, BoolParam, FloatParam, Frame};
use crate::host::ParamSetter;
use crate::limits::ResonanceFloat;
use crate::params::{ResonanceParams, ResonanceWrite, Settings, Write};
use crate::single::Single;

verus! {

/// The least cut worth a number: 0.05 dB.
pub const QUIET: u32 = 0x3d4c_cccd;

/// What stands beside the switch.
#[derive(Clone, Copy, Debug, PartialEq, Eq, Structural)]
pub enum Reduction {
    /// Nothing: the stage is off.
    Off,
    /// A zero: the stage is cutting nothing to speak of.
    Idle,
    /// The deepest cut the stage is making, in dB.
    Deep(Single),
}

/// What stands beside the switch.
pub fn readout(enabled: bool, peak: Single) -> (r: Reduction)
    ensures
        r == (if !enabled {
            Reduction::Off
        } else if (Single { bits: QUIET }).below(peak) {
            Reduction::Deep(peak)
        } else {
            Reduction::Idle
        }),
{
    if enabled {
        if (Single { bits: QUIET }).lt(peak) {
            Reduction::Deep(peak)
        } else {
            Reduction::Idle
        }
    } else {
        Reduction::Off
    }
}

/// What the pointer did to the control this frame. The amounts are in percent.
#[derive(Clone, Copy, Debug)]
pub struct ResonanceInput {
    /// The switch was clicked.
    pub switch: bool,
    /// Where each knob was turned to, if it was.
    pub depth: Option<Single>,
    pub sharpness: Option<Single>,
    pub threshold: Option<Single>,
    pub mix: Option<Single>,
    pub attack: Option<Single>,
    pub release: Option<Single>,
    pub low: Option<Single>,
    pub high: Option<Single>,
    /// The button that lets what is removed be heard was clicked.
    pub listen: bool,
}

impl ResonanceInput {
    /// What a knob writes: where it was turned to, unless the stage is off and
    /// the knob dimmed.
    pub open spec fn knob(f: ResonanceFloat, to: Option<Single>, enabled: bool) -> Seq<Write> {
        match to {
            Some(v) => if enabled {
                FloatParam::Resonance(f).writes(v)
            } else {
                Seq::empty()
            },
            None => Seq::empty(),
        }
    }

    /// The upper row of knobs.
    pub open spec fn upper(self, on: bool) -> Seq<Write> {
        ResonanceInput::knob(ResonanceFloat::Depth, self.depth, on) + ResonanceInput::knob(
            ResonanceFloat::Sharpness,
            self.sharpness,
            on,
        ) + ResonanceInput::knob(ResonanceFloat::Threshold, self.threshold, on)
            + ResonanceInput::knob(ResonanceFloat::Mix, self.mix, on)
    }

    /// The lower row of knobs.
    pub open spec fn lower(self, on: bool) -> Seq<Write> {
        ResonanceInput::knob(ResonanceFloat::Attack, self.attack, on) + ResonanceInput::knob(
            ResonanceFloat::Release,
            self.release,
            on,
        ) + ResonanceInput::knob(ResonanceFloat::Low, self.low, on) + ResonanceInput::knob(
            ResonanceFloat::High,
            self.high,
            on,
        )
    }

    /// What the control writes: the switch, the knobs in order, and the button,
    /// all of them by what the stage was when the frame began.
    pub open spec fn writes(self, stage: ResonanceParams) -> Seq<Write> {
        let switch = if self.switch {
            seq![BoolParam::ResonanceEnabled.write(!stage.enabled)]
        } else {
            Seq::empty()
        };
        let listen = if self.listen && stage.enabled {
            seq![BoolParam::ResonanceDelta.write(!stage.delta)]
        } else {
            Seq::empty()
        };
        switch + self.upper(stage.enabled) + self.lower(stage.enabled) + listen
    }

    /// While the stage is off, the switch is all there is.
    pub proof fn only_the_switch_works_while_off(self, stage: ResonanceParams)
        requires
            !stage.enabled,
        ensures
            self.writes(stage) == (if self.switch {
                seq![BoolParam::ResonanceEnabled.write(true)]
            } else {
                Seq::empty()
            }),
    {
    }
}

/// Turn a knob of the stage, unless it is dimmed.
fn turn(setter: &mut ParamSetter, f: ResonanceFloat, to: Option<Single>, enabled: bool)
    requires
        old(setter).orderly(),
    ensures
        final(setter)@ == old(setter)@ + ResonanceInput::knob(f, to, enabled),
        final(setter).orderly(),
{
    if let Some(v) = to {
        if enabled {
            set_float(setter, FloatParam::Resonance(f), v);
            return ;
        }
    }
    assert(setter@ =~= setter@ + Seq::<Write>::empty());
}

proof fn lemma_four_runs(s: Seq<Write>, a: Seq<Write>, b: Seq<Write>, c: Seq<Write>, d: Seq<Write>)
    ensures
        s + a + b + c + d == s + (a + b + c + d),
{
    assert(s + a + b + c + d =~= s + (a + b + c + d));
}

/// The upper row of knobs.
fn upper_row(setter: &mut ParamSetter, input: &ResonanceInput, on: bool)
    requires
        old(setter).orderly(),
    ensures
        final(setter)@ == old(setter)@ + input.upper(on),
        final(setter).orderly(),
{
    proof {
        lemma_four_runs(
            setter@,
            ResonanceInput::knob(ResonanceFloat::Depth, input.depth, on),
            ResonanceInput::knob(ResonanceFloat::Sharpness, input.sharpness, on),
            ResonanceInput::knob(ResonanceFloat::Threshold, input.threshold, on),
            ResonanceInput::knob(ResonanceFloat::Mix, input.mix, on),
        );
    }
    turn(setter, ResonanceFloat::Depth, input.depth, on);
    turn(setter, ResonanceFloat::Sharpness, input.sharpness, on);
    turn(setter, ResonanceFloat::Threshold, input.threshold, on);
    turn(setter, ResonanceFloat::Mix, input.mix, on);
}

/// The lower row of knobs.
fn lower_row(setter: &mut ParamSetter, input: &ResonanceInput, on: bool)
    requires
        old(setter).orderly(),
    ensures
        final(setter)@ == old(setter)@ + input.lower(on),
        final(setter).orderly(),
{
    proof {
        lemma_four_runs(
            setter@,
            ResonanceInput::knob(ResonanceFloat::Attack, input.attack, on),
            ResonanceInput::knob(ResonanceFloat::Release, input.release, on),
            ResonanceInput::knob(ResonanceFloat::Low, input.low, on),
            ResonanceInput::knob(ResonanceFloat::High, input.high, on),
        );
    }
    turn(setter, ResonanceFloat::Attack, input.attack, on);
    turn(setter, ResonanceFloat::Release, input.release, on);
    turn(setter, ResonanceFloat::Low, input.low, on);
    turn(setter, ResonanceFloat::High, input.high, on);
}

/// Throw a switch, or leave it.
fn throw(setter: &mut ParamSetter, switch: BoolParam, clicked: bool, to: bool)
    requires
        old(setter).orderly(),
    ensures
        final(setter)@ == old(setter)@ + (if clicked {
            seq![switch.write(to)]
        } else {
            Seq::empty()
        }),
        final(setter).orderly(),
{
    if clicked {
        set_bool(setter, switch, to);
    }
}

/// The switch and everything behind its chevron. The answer is what stands
/// beside the switch, given the deepest cut the stage is making.
pub fn pair(frame: &mut Frame, input: &ResonanceInput, peak: Single) -> (r: Reduction)
    requires
        old(frame).setter.orderly(),
    ensures
        final(frame).adds(*old(frame), input.writes(old(frame).params.resonance)),
        final(frame).transient == old(frame).transient,
        r == (if !old(frame).params.resonance.enabled {
            Reduction::Off
        } else if (Single { bits: QUIET }).below(peak) {
            Reduction::Deep(peak)
        } else {
            Reduction::Idle
        }),
{
    let on: bool = frame.params.resonance.enabled;
    let delta: bool = frame.params.resonance.delta;
    proof {
        let switch = if input.switch {
            seq![BoolParam::ResonanceEnabled.write(!on)]
        } else {
            Seq::empty()
        };
        let listen = if input.listen && on {
            seq![BoolParam::ResonanceDelta.write(!delta)]
        } else {
            Seq::empty()
        };
        lemma_four_runs(frame.setter@, switch, input.upper(on), input.lower(on), listen);
    }
    throw(&mut frame.setter, BoolParam::ResonanceEnabled, input.switch, !on);
    upper_row(&mut frame.setter, input, on);
    lower_row(&mut frame.setter, input, on);
    throw(&mut frame.setter, BoolParam::ResonanceDelta, input.listen && on, !delta);
    readout(on, peak)
}

proof fn lemma_a_knob_is_heard(s: Settings, f: ResonanceFloat, to: Option<Single>, on: bool)
    ensures
        s.after(ResonanceInput::knob(f, to, on)) == (Settings {
            resonance: if to is Some && on && to->0.finite() {
                s.resonance.with(ResonanceWrite::Float(f, to->0))
            } else {
                s.resonance
            },
            ..s
        }),
{
    let nothing = Seq::<Write>::empty();
    let w = Write::Resonance(ResonanceWrite::Float(f, to->0));
    s.after_one_more(nothing, w);
    assert(nothing.push(w) =~= seq![w]);
}

proof fn lemma_depth_and_sharpness(s: Settings, input: ResonanceInput, on: bool)
    ensures
        s.after(ResonanceInput::knob(ResonanceFloat::Depth, input.depth, on)).after(
            ResonanceInput::knob(ResonanceFloat::Sharpness, input.sharpness, on),
        ) == (Settings {
            resonance: ResonanceParams {
                depth: if input.depth is Some && on && input.depth->0.finite() {
                    input.depth->0
                } else {
                    s.resonance.depth
                },
                sharpness: if input.sharpness is Some && on && input.sharpness->0.finite() {
                    input.sharpness->0
                } else {
                    s.resonance.sharpness
                },
                ..s.resonance
            },
            ..s
        }),
{
    lemma_a_knob_is_heard(s, ResonanceFloat::Depth, input.depth, on);
    lemma_a_knob_is_heard(
        s.after(ResonanceInput::knob(ResonanceFloat::Depth, input.depth, on)),
        ResonanceFloat::Sharpness,
        input.sharpness,
        on,
    );
}

proof fn lemma_threshold_and_mix(s: Settings, input: ResonanceInput, on: bool)
    ensures
        s.after(ResonanceInput::knob(ResonanceFloat::Threshold, input.threshold, on)).after(
            ResonanceInput::knob(ResonanceFloat::Mix, input.mix, on),
        ) == (Settings {
            resonance: ResonanceParams {
                threshold: if input.threshold is Some && on && input.threshold->0.finite() {
                    input.threshold->0
                } else {
                    s.resonance.threshold
                },
                mix: if input.mix is Some && on && input.mix->0.finite() {
                    input.mix->0
                } else {
                    s.resonance.mix
                },
                ..s.resonance
            },
            ..s
        }),
{
    lemma_a_knob_is_heard(s, ResonanceFloat::Threshold, input.threshold, on);
    lemma_a_knob_is_heard(
        s.after(ResonanceInput::knob(ResonanceFloat::Threshold, input.threshold, on)),
        ResonanceFloat::Mix,
        input.mix,
        on,
    );
}

proof fn lemma_attack_and_release(s: Settings, input: ResonanceInput, on: bool)
    ensures
        s.after(ResonanceInput::knob(ResonanceFloat::Attack, input.attack, on)).after(
            ResonanceInput::knob(ResonanceFloat::Release, input.release, on),
        ) == (Settings {
            resonance: ResonanceParams {
                attack: if input.attack is Some && on && input.attack->0.finite() {
                    input.attack->0
                } else {
                    s.resonance.attack
                },
                release: if input.release is Some && on && input.release->0.finite() {
                    input.release->0
                } else {
                    s.resonance.release
                },
                ..s.resonance
            },
            ..s
        }),
{
    lemma_a_knob_is_heard(s, ResonanceFloat::Attack, input.attack, on);
    lemma_a_knob_is_heard(
        s.after(ResonanceInput::knob(ResonanceFloat::Attack, input.attack, on)),
        ResonanceFloat::Release,
        input.release,
        on,
    );
}

proof fn lemma_low_and_high(s: Settings, input: ResonanceInput, on: bool)
    ensures
        s.after(ResonanceInput::knob(ResonanceFloat::Low, input.low, on)).after(
            ResonanceInput::knob(ResonanceFloat::High, input.high, on),
        ) == (Settings {
            resonance: ResonanceParams {
                low: if input.low is Some && on && input.low->0.finite() {
                    input.low->0
                } else {
                    s.resonance.low
                },
                high: if input.high is Some && on && input.high->0.finite() {
                    input.high->0
                } else {
                    s.resonance.high
                },
                ..s.resonance
            },
            ..s
        }),
{
    lemma_a_knob_is_heard(s, ResonanceFloat::Low, input.low, on);
    lemma_a_knob_is_heard(
        s.after(ResonanceInput::knob(ResonanceFloat::Low, input.low, on)),
        ResonanceFloat::High,
        input.high,
        on,
    );
}

proof fn lemma_four_runs_in_turn(
    s: Settings,
    a: Seq<Write>,
    b: Seq<Write>,
    c: Seq<Write>,
    d: Seq<Write>,
)
    ensures
        s.after(a + b + c + d) == s.after(a).after(b).after(c).after(d),
{
    s.after_one_list_and_another(a + b + c, d);
    s.after_one_list_and_another(a + b, c);
    s.after_one_list_and_another(a, b);
}

proof fn lemma_the_upper_row_is_heard(s: Settings, input: ResonanceInput, on: bool)
    ensures
        ({
            let r = s.after(input.upper(on)).resonance;
            &&& s.after(input.upper(on)) == (Settings { resonance: r, ..s })
            &&& r == (ResonanceParams {
                depth: r.depth,
                sharpness: r.sharpness,
                threshold: r.threshold,
                mix: r.mix,
                ..s.resonance
            })
            &&& r.depth == (if input.depth is Some && on && input.depth->0.finite() {
                input.depth->0
            } else {
                s.resonance.depth
            })
            &&& r.sharpness == (if input.sharpness is Some && on && input.sharpness->0.finite() {
                input.sharpness->0
            } else {
                s.resonance.sharpness
            })
            &&& r.threshold == (if input.threshold is Some && on && input.threshold->0.finite() {
                input.threshold->0
            } else {
                s.resonance.threshold
            })
            &&& r.mix == (if input.mix is Some && on && input.mix->0.finite() {
                input.mix->0
            } else {
                s.resonance.mix
            })
        }),
{
    let a = ResonanceInput::knob(ResonanceFloat::Depth, input.depth, on);
    let b = ResonanceInput::knob(ResonanceFloat::Sharpness, input.sharpness, on);
    lemma_four_runs_in_turn(
        s,
        a,
        b,
        ResonanceInput::knob(ResonanceFloat::Threshold, input.threshold, on),
        ResonanceInput::knob(ResonanceFloat::Mix, input.mix, on),
    );
    lemma_depth_and_sharpness(s, input, on);
    lemma_threshold_and_mix(s.after(a).after(b), input, on);
}

proof fn lemma_the_lower_row_is_heard(s: Settings, input: ResonanceInput, on: bool)
    ensures
        ({
            let r = s.after(input.lower(on)).resonance;
            &&& s.after(input.lower(on)) == (Settings { resonance: r, ..s })
            &&& r == (ResonanceParams {
                attack: r.attack,
                release: r.release,
                low: r.low,
                high: r.high,
                ..s.resonance
            })
            &&& r.attack == (if input.attack is Some && on && input.attack->0.finite() {
                input.attack->0
            } else {
                s.resonance.attack
            })
            &&& r.release == (if input.release is Some && on && input.release->0.finite() {
                input.release->0
            } else {
                s.resonance.release
            })
            &&& r.low == (if input.low is Some && on && input.low->0.finite() {
                input.low->0
            } else {
                s.resonance.low
            })
            &&& r.high == (if input.high is Some && on && input.high->0.finite() {
                input.high->0
            } else {
                s.resonance.high
            })
        }),
{
    let a = ResonanceInput::knob(ResonanceFloat::Attack, input.attack, on);
    let b = ResonanceInput::knob(ResonanceFloat::Release, input.release, on);
    lemma_four_runs_in_turn(
        s,
        a,
        b,
        ResonanceInput::knob(ResonanceFloat::Low, input.low, on),
        ResonanceInput::knob(ResonanceFloat::High, input.high, on),
    );
    lemma_attack_and_release(s, input, on);
    lemma_low_and_high(s.after(a).after(b), input, on);
}

/// Once the host has heard the control, the switch has been turned over if it was
/// clicked; and where the stage was on, every knob's parameter is where the knob
/// was turned to, and what is listened to has been turned over if its button was
/// clicked. Nothing else about the stage changes, and nothing outside it.
pub proof fn the_control_sets_what_was_asked_for(p: Settings, input: ResonanceInput)
    ensures
        ({
            let after = p.after(input.writes(p.resonance));
            let now = after.resonance;
            &&& after == (Settings { resonance: now, ..p })
            &&& now.mode == p.resonance.mode
            &&& now.quality == p.resonance.quality
            &&& now.range == p.resonance.range
            &&& now.enabled == (if input.switch {
                !p.resonance.enabled
            } else {
                p.resonance.enabled
            })
            &&& now.delta == (if input.listen && p.resonance.enabled {
                !p.resonance.delta
            } else {
                p.resonance.delta
            })
            &&& now.depth == (match input.depth {
                Some(v) => if p.resonance.enabled && v.finite() {
                    v
                } else {
                    p.resonance.depth
                },
                None => p.resonance.depth,
            })
            &&& now.sharpness == (match input.sharpness {
                Some(v) => if p.resonance.enabled && v.finite() {
                    v
                } else {
                    p.resonance.sharpness
                },
                None => p.resonance.sharpness,
            })
            &&& now.threshold == (match input.threshold {
                Some(v) => if p.resonance.enabled && v.finite() {
                    v
                } else {
                    p.resonance.threshold
                },
                None => p.resonance.threshold,
            })
            &&& now.mix == (match input.mix {
                Some(v) => if p.resonance.enabled && v.finite() {
                    v
                } else {
                    p.resonance.mix
                },
                None => p.resonance.mix,
            })
            &&& now.attack == (match input.attack {
                Some(v) => if p.resonance.enabled && v.finite() {
                    v
                } else {
                    p.resonance.attack
                },
                None => p.resonance.attack,
            })
            &&& now.release == (match input.release {
                Some(v) => if p.resonance.enabled && v.finite() {
                    v
                } else {
                    p.resonance.release
                },
                None => p.resonance.release,
            })
            &&& now.low == (match input.low {
                Some(v) => if p.resonance.enabled && v.finite() {
                    v
                } else {
                    p.resonance.low
                },
                None => p.resonance.low,
            })
            &&& now.high == (match input.high {
                Some(v) => if p.resonance.enabled && v.finite() {
                    v
                } else {
                    p.resonance.high
                },
                None => p.resonance.high,
            })
        }),
{
    let stage = p.resonance;
    let on = stage.enabled;
    let switch = if input.switch {
        seq![BoolParam::ResonanceEnabled.write(!on)]
    } else {
        Seq::empty()
    };
    let listen = if input.listen && on {
        seq![BoolParam::ResonanceDelta.write(!stage.delta)]
    } else {
        Seq::empty()
    };
    lemma_four_runs_in_turn(p, switch, input.upper(on), input.lower(on), listen);
    lemma_one_write_is_heard(p, Write::Resonance(ResonanceWrite::Enabled(!on)));
    let p1 = p.after(switch);
    lemma_the_upper_row_is_heard(p1, input, on);
    let p2 = p1.after(input.upper(on));
    lemma_the_lower_row_is_heard(p2, input, on);
    let p3 = p2.after(input.lower(on));
    lemma_one_write_is_heard(p3, Write::Resonance(ResonanceWrite::Delta(!stage.delta)));
}

proof fn lemma_one_write_is_heard(s: Settings, w: Write)
    ensures
        s.after(seq![w]) == s.with(w),
        s.after(Seq::empty()) == s,
{
    let nothing = Seq::<Write>::empty();
    s.after_one_more(nothing, w);
    assert(nothing.push(w) =~= seq![w]);
}

} // verus!
