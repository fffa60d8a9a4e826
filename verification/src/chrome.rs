//! How the small controls are filled.

use vstd::prelude::*;

use crate::params::{BandKind, Slope};
use crate::state::BandView;
use crate::theme::{Color, MOCHI};

verus! {

/// How a small control is filled.
#[derive(Clone, Copy, Debug, PartialEq, Eq, Structural)]
pub enum Fill {
    /// At rest.
    Quiet,
    /// Pressed, or holding an open menu.
    Lit,
    /// Armed: tinted, ringed, and lettered in the pale end of the hue.
    Armed,
    /// Armed in a band's own colour: a dark glassy body with a lit edge.
    Tinted(Color),
    /// The one filled control in a group, lettered in black.
    Solid(Color),
    /// No fill at all; used where the pill is only there to be hit.
    Bare,
}

/// Something that is switched on is lit.
pub fn lit(on: bool) -> (r: Fill)
    ensures
        r == (if on {
            Fill::Lit
        } else {
            Fill::Quiet
        }),
{
    if on {
        Fill::Lit
    } else {
        Fill::Quiet
    }
}

/// Something that acts on the whole sound is armed.
pub fn armed(on: bool) -> (r: Fill)
    ensures
        r == (if on {
            Fill::Armed
        } else {
            Fill::Quiet
        }),
{
    if on {
        Fill::Armed
    } else {
        Fill::Quiet
    }
}

/// The solo button of a band.
pub fn solo_fill(soloed: Option<usize>, slot: usize) -> (r: Fill)
    ensures
        r == (if soloed == Some(slot) {
            Fill::Solid(Color::of(MOCHI))
        } else {
            Fill::Quiet
        }),
{
    match soloed {
        Some(s) => if s == slot {
            Fill::Solid(Color::opaque(MOCHI))
        } else {
            Fill::Quiet
        },
        None => Fill::Quiet,
    }
}

/// The button of a filter shape.
pub fn kind_fill(band: &BandView, kind: BandKind) -> (r: Fill)
    ensures
        r == (if band.kind == kind {
            Fill::Lit
        } else {
            Fill::Quiet
        }),
{
    lit(band.kind == kind)
}

/// The button of a slope: only a cut has one.
pub fn slope_fill(band: &BandView, slope: Slope, color: Color) -> (r: Fill)
    ensures
        r == (if !band.kind.cuts() {
            Fill::Bare
        } else if band.slope == slope {
            Fill::Solid(color)
        } else {
            Fill::Quiet
        }),
{
    if !band.kind.is_cut() {
        Fill::Bare
    } else if band.slope == slope {
        Fill::Solid(color)
    } else {
        Fill::Quiet
    }
}

/// The switch of the dynamics section: only a band with gain has one.
pub fn dyn_fill(band: &BandView, color: Color) -> (r: Fill)
    ensures
        r == (if !band.kind.has_gain() {
            Fill::Bare
        } else if band.dynamic {
            Fill::Solid(color)
        } else {
            Fill::Quiet
        }),
{
    if !band.can_be_dynamic() {
        Fill::Bare
    } else if band.dynamic {
        Fill::Solid(color)
    } else {
        Fill::Quiet
    }
}

/// A row of mutually exclusive options in one rounded group: a cell's lettering
/// is dark on the selected cell, unless the accent is a pale translucent one.
pub fn segment_is_dark(index: usize, selected: usize, accent: Color) -> (r: bool)
    ensures
        r == (index == selected && accent.a >= 128),
{
    index == selected && accent.a >= 128
}

} // verus!
