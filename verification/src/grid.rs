//! What the plot is drawn on: the lines of its two axes, how finely the traces
//! are sampled, and which layers there are.

use vstd::prelude::*;

use crate::single::Single;
use crate::state::AnalyzerMode;

verus! {

/// The frequencies with a line, in Hz.
pub const FREQ_TICKS: [u32; 22] = [
    20, 30, 40, 50, 60, 80, 100, 200, 300, 400, 500, 600, 800, 1000, 2000, 3000, 4000, 5000, 6000,
    8000, 10000, 20000,
];

/// The frequencies whose line carries a label.
pub const LABELLED: [u32; 10] = [20, 50, 100, 200, 500, 1000, 2000, 5000, 10000, 20000];

/// Does the line of a frequency carry a label?
pub fn is_labelled(hz: u32) -> (r: bool)
    ensures
        r == LABELLED@.contains(hz),
{
    let mut i: usize = 0;
    while i < 10
        invariant
            i <= 10,
            forall|k: int| 0 <= k < i ==> LABELLED@[k] != hz,
        decreases 10 - i,
    {
        if LABELLED[i] == hz {
            assert(LABELLED@[i as int] == hz);
            return true;
        }
        i = i + 1;
    }
    false
}

/// The step between two lines of the gain axis, in dB.
pub open spec fn db_step(range: int) -> int {
    if range <= 12 {
        3
    } else {
        6
    }
}

/// The lines of the gain axis over a range each way: from its bottom, a step at a
/// time, as far as its top.
pub fn db_lines(range: i32) -> (r: Vec<i32>)
    requires
        0 <= range <= i32::MAX - 6,
    ensures
        r@.len() == 2 * range / db_step(range as int) + 1,
        forall|k: int| 0 <= k < r@.len() ==> r@[k] == -range + k * db_step(range as int),
{
    let step: i32 = if range <= 12 {
        3
    } else {
        6
    };
    let mut lines: Vec<i32> = Vec::new();
    let mut db: i32 = -range;
    while db <= range
        invariant
            0 <= range <= i32::MAX - 6,
            step == db_step(range as int),
            db == -range + lines@.len() * step,
            -range <= db <= range + step,
            forall|k: int| 0 <= k < lines@.len() ==> lines@[k] == -range + k * step,
        decreases range + step - db,
    {
        lines.push(db);
        db = db + step;
        assert(lines@.len() * step == (lines@.len() - 1) * step + step) by (nonlinear_arith);
    }
    assert(lines@.len() == 2 * range / step as int + 1) by (nonlinear_arith)
        requires
            step == 3 || step == 6,
            range < -range + lines@.len() * step <= range + step,
            0 <= range,
    ;
    lines
}

/// The ranges the axis can be set to put a line on zero, one on the top and one
/// on the bottom.
pub proof fn the_zero_line_is_drawn(range: int)
    requires
        range == 6 || range == 12 || range == 18 || range == 30,
    ensures
        ({
            let step = db_step(range);
            let n = 2 * range / step + 1;
            &&& exists|k: int| 0 <= k < n && -range + #[trigger] (k * step) == 0
            &&& -range + (n - 1) * step == range
        }),
{
    let k = range / db_step(range);
    assert(-range + k * db_step(range) == 0);
}

/// How many points a curve is drawn through, for a plot this many physical pixels
/// wide: one a pixel, within reason.
pub fn segments(pixels: usize) -> (r: usize)
    ensures
        r == (if pixels < 256 {
            256
        } else if pixels > 4096 {
            4096
        } else {
            pixels as int
        }),
{
    if pixels < 256 {
        256
    } else if pixels > 4096 {
        4096
    } else {
        pixels
    }
}

/// How many columns a spectrum is drawn in, for a plot this many physical pixels
/// wide.
pub fn columns(pixels: usize) -> (r: usize)
    ensures
        r == (if pixels < 2 {
            2
        } else if pixels > 4096 {
            4096
        } else {
            pixels as int
        }),
{
    if pixels < 2 {
        2
    } else if pixels > 4096 {
        4096
    } else {
        pixels
    }
}

/// The layers under the curves.
#[derive(Clone, Copy, Debug, PartialEq, Eq, Structural)]
pub struct Layers {
    /// The two analyser traces.
    pub pre: bool,
    pub post: bool,
    /// What the resonance stage is taking out.
    pub resonance: bool,
    /// The marks on what the resonance stage has found.
    pub targets: bool,
}

/// The least cut worth drawing: 0.05 dB.
pub const VISIBLE_CUT: u32 = 0x3d4c_cccd;

/// Is any cut worth drawing?
pub open spec fn cutting(resonance: Seq<Single>) -> bool {
    exists|i: int|
        0 <= i < resonance.len() && (Single { bits: VISIBLE_CUT }).below(#[trigger] resonance[i])
}

/// Which layers are drawn. A bypassed EQ shows nothing of what it would cut.
pub fn layers(mode: AnalyzerMode, bypassed: bool, resonance: &Vec<Single>) -> (r: Layers)
    ensures
        r.pre == (mode is Pre || mode is Both),
        r.post == (mode is Post || mode is Both),
        r.resonance == (!bypassed && cutting(resonance@)),
        r.targets == !bypassed,
{
    let mut cut: bool = false;
    let mut i: usize = 0;
    while i < resonance.len()
        invariant
            i <= resonance@.len(),
            cut == exists|k: int|
                0 <= k < i && (Single { bits: VISIBLE_CUT }).below(#[trigger] resonance@[k]),
        decreases resonance.len() - i,
    {
        if (Single { bits: VISIBLE_CUT }).lt(resonance[i]) {
            cut = true;
            assert((Single { bits: VISIBLE_CUT }).below(resonance@[i as int]));
        }
        i = i + 1;
    }
    Layers {
        pre: mode.draws_pre(),
        post: mode.draws_post(),
        resonance: !bypassed && cut,
        targets: !bypassed,
    }
}

/// The lines of the gain axis are three decibels apart up to a range of twelve, and
/// six beyond it; a cut is worth drawing once it is deeper than 0.05 dB.
pub proof fn the_lines_are_this_far_apart(range: int, resonance: Seq<Single>)
    ensures
        range <= 12 ==> db_step(range) == 3,
        range > 12 ==> db_step(range) == 6,
        cutting(resonance) <==> exists|i: int|
            0 <= i < resonance.len() && (Single { bits: 0x3d4c_cccd }).below(
                #[trigger] resonance[i],
            ),
{
}

} // verus!
