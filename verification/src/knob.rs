//! The dial every continuous control uses: when it moves, and how its value is
//! drawn.

use vstd::prelude::*;

use crate::single::Single;

verus! {

/// A dial as it is set up.
#[derive(Clone, Copy, Debug, PartialEq, Eq, Structural)]
pub struct Knob {
    pub value: Single,
    pub min: Single,
    pub max: Single,
    /// A log taper suits frequency, Q and times; linear suits gain.
    pub log: bool,
    /// Where a double-click puts it. `None` disables that.
    pub default: Option<Single>,
    pub disabled: bool,
    /// Laid out beside its caption rather than over it.
    pub inline: bool,
}

/// What the pointer did to a dial this frame.
#[derive(Clone, Copy, Debug, PartialEq, Eq, Structural)]
pub struct KnobInput {
    /// The value a drag asks for.
    pub dragged: Option<Single>,
    /// The value the wheel asks for, on top of the drag.
    pub scrolled: Option<Single>,
    pub double_clicked: bool,
}

impl Knob {
    /// A dial at rest: linear, without a default, live, over its caption.
    pub fn new(value: Single, min: Single, max: Single) -> (r: Knob)
        ensures
            r == (Knob {
                value,
                min,
                max,
                log: false,
                default: None,
                disabled: false,
                inline: false,
            }),
    {
        Knob { value, min, max, log: false, default: None, disabled: false, inline: false }
    }

    pub fn log(self, log: bool) -> (r: Knob)
        ensures
            r == (Knob { log, ..self }),
    {
        Knob { log, ..self }
    }

    pub fn default_value(self, default: Single) -> (r: Knob)
        ensures
            r == (Knob { default: Some(default), ..self }),
    {
        Knob { default: Some(default), ..self }
    }

    pub fn disabled(self, disabled: bool) -> (r: Knob)
        ensures
            r == (Knob { disabled, ..self }),
    {
        Knob { disabled, ..self }
    }

    pub fn inline(self, inline: bool) -> (r: Knob)
        ensures
            r == (Knob { inline, ..self }),
    {
        Knob { inline, ..self }
    }

    /// The new value when the user moved it. A double-click wins over the wheel,
    /// and the wheel over a drag; a dial that is disabled does not move.
    pub fn show(self, input: KnobInput) -> (r: Option<Single>)
        ensures
            r == (if self.disabled {
                None
            } else if input.double_clicked {
                self.default
            } else if input.scrolled is Some {
                input.scrolled
            } else {
                input.dragged
            }),
    {
        if self.disabled {
            return None;
        }
        let mut changed: Option<Single> = input.dragged;
        if input.scrolled.is_some() {
            changed = input.scrolled;
        }
        if input.double_clicked {
            changed = self.default;
        }
        changed
    }

    /// Does the value arc fill out from the centre? It does for a linear range
    /// that spans zero, and from the left for everything else.
    pub fn is_bipolar(self) -> (r: bool)
        ensures
            r == (self.min.below((Single { bits: 0 })) && (Single { bits: 0 }).below(self.max)
                && !self.log),
    {
        self.min.lt(Single { bits: 0 }) && (Single { bits: 0 }).lt(self.max) && !self.log
    }
}

} // verus!
