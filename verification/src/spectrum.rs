//! Turning the analyser's log-spaced curve into pixel columns: which points a
//! column is read from, what bounds it, and the peaks it holds.

use vstd::prelude::*;

use crate::single::Single;

verus! {

/// Minus infinity, where a peak that was never reached is held.
pub const NEVER: u32 = 0xff80_0000;

/// The place in a list nearest to an index.
pub open spec fn nearest_index(i: int, n: int) -> int {
    if i < 0 {
        0
    } else if i >= n {
        n - 1
    } else {
        i
    }
}

/// The place in a list nearest to an index.
pub fn clamp_index(i: isize, n: usize) -> (r: usize)
    requires
        n > 0,
    ensures
        r == nearest_index(i as int, n as int),
        r < n,
{
    if i < 0 {
        0
    } else if i as usize >= n {
        n - 1
    } else {
        i as usize
    }
}

/// A point of the curve as it is drawn: no lower than the floor, and on it when
/// it is not finite.
pub open spec fn heard(v: Single, floor: Single) -> Single {
    if v.finite() && !v.below(floor) {
        v
    } else {
        floor
    }
}

/// The four points a fractional index is interpolated from.
#[derive(Clone, Copy, Debug, PartialEq, Eq, Structural)]
pub struct Taps {
    pub before: Single,
    pub left: Single,
    pub right: Single,
    pub after: Single,
}

impl Taps {
    pub open spec fn of(points: Seq<Single>, i: int, floor: Single) -> Taps {
        let n = points.len() as int;
        Taps {
            before: heard(points[nearest_index(i - 1, n)], floor),
            left: heard(points[nearest_index(i, n)], floor),
            right: heard(points[nearest_index(i + 1, n)], floor),
            after: heard(points[nearest_index(i + 2, n)], floor),
        }
    }

    /// The lower and the higher of the two points a value sits between.
    pub open spec fn low(self) -> Single {
        if self.right.below(self.left) {
            self.right
        } else {
            self.left
        }
    }

    pub open spec fn high(self) -> Single {
        if self.left.below(self.right) {
            self.right
        } else {
            self.left
        }
    }

    /// A splined value, held to the two points it sits between so the spline
    /// cannot ring past them.
    pub fn settle(self, splined: Single) -> (r: Single)
        requires
            !self.left.nan(),
            !self.right.nan(),
        ensures
            r == splined.clamped(self.low(), self.high()),
            !splined.nan() ==> r.within(self.low(), self.high()),
    {
        let low: Single = if self.right.lt(self.left) {
            self.right
        } else {
            self.left
        };
        let high: Single = if self.left.lt(self.right) {
            self.right
        } else {
            self.left
        };
        splined.clamp(low, high)
    }
}

fn tap(points: &Vec<Single>, k: isize, floor: Single) -> (r: Single)
    requires
        points@.len() > 0,
    ensures
        r == heard(points@[nearest_index(k as int, points@.len() as int)], floor),
{
    let v: Single = points[clamp_index(k, points.len())];
    if v.is_finite() && !v.lt(floor) {
        v
    } else {
        floor
    }
}

/// The four points around a place on the curve, or nothing for an empty curve,
/// which reads as the floor throughout.
pub fn taps(points: &Vec<Single>, i: isize, floor: Single) -> (r: Option<Taps>)
    requires
        isize::MIN < i,
        i <= isize::MAX - 2,
    ensures
        r == (if points@.len() == 0 {
            None
        } else {
            Some(Taps::of(points@, i as int, floor))
        }),
{
    if points.len() == 0 {
        return None;
    }
    Some(
        Taps {
            before: tap(points, i - 1, floor),
            left: tap(points, i, floor),
            right: tap(points, i + 1, floor),
            after: tap(points, i + 2, floor),
        },
    )
}

/// What a column reads is never under a finite floor, and never not a number.
pub proof fn nothing_reads_below_the_floor(points: Seq<Single>, i: int, floor: Single)
    requires
        points.len() > 0,
        floor.finite(),
    ensures
        ({
            let t = Taps::of(points, i, floor);
            &&& t.left.finite() && t.right.finite()
            &&& floor.rank() <= t.low().rank() <= t.high().rank()
        }),
{
}

/// The window of a box blur of some radius around a column, clamped at the edges.
pub open spec fn window(src: Seq<int>, i: int, radius: nat) -> int {
    total(src, i - radius, (2 * radius + 1) as nat)
}

/// The sum of `n` neighbouring columns from an index on, clamped at the edges.
pub open spec fn total(src: Seq<int>, from: int, n: nat) -> int
    decreases n,
{
    if n == 0 {
        0
    } else {
        total(src, from, (n - 1) as nat) + src[nearest_index(from + n - 1, src.len() as int)]
    }
}

/// Which columns leave and enter the window of a box blur as it moves on from a
/// column.
pub fn blur_edges(i: usize, radius: usize, n: usize) -> (r: (usize, usize))
    requires
        i < n,
        radius < isize::MAX,
        i + radius < isize::MAX,
    ensures
        r.0 == nearest_index(i - radius, n as int),
        r.1 == nearest_index(i + radius + 1, n as int),
        r.0 < n,
        r.1 < n,
{
    (
        clamp_index(i as isize - radius as isize, n),
        clamp_index(i as isize + radius as isize + 1, n),
    )
}

proof fn lemma_total_from_the_front(src: Seq<int>, from: int, n: nat)
    requires
        n > 0,
    ensures
        total(src, from, n) == src[nearest_index(from, src.len() as int)] + total(
            src,
            from + 1,
            (n - 1) as nat,
        ),
    decreases n,
{
    if n > 1 {
        lemma_total_from_the_front(src, from, (n - 1) as nat);
    } else {
        assert(total(src, from, 0) == 0);
        assert(total(src, from + 1, 0) == 0);
    }
}

/// Taking out the column that leaves and adding the one that enters gives the
/// window of the next column, so one running sum serves them all.
pub proof fn a_window_slides(src: Seq<int>, i: int, radius: nat)
    ensures
        window(src, i + 1, radius) == window(src, i, radius) - src[nearest_index(
            i - radius,
            src.len() as int,
        )] + src[nearest_index(i + radius + 1, src.len() as int)],
{
    lemma_total_from_the_front(src, i - radius, (2 * radius + 1) as nat);
}

/// A constant comes out of a blur as it went in: every window is its width times
/// the constant.
pub proof fn a_blur_preserves_a_constant(src: Seq<int>, value: int, from: int, n: nat)
    requires
        src.len() > 0,
        forall|k: int| 0 <= k < src.len() ==> src[k] == value,
    ensures
        total(src, from, n) == n * value,
    decreases n,
{
    if n > 0 {
        a_blur_preserves_a_constant(src, value, from, (n - 1) as nat);
        assert((n - 1) * value + value == n * value) by (nonlinear_arith);
    } else {
        assert(n * value == 0) by (nonlinear_arith)
            requires
                n == 0,
        ;
    }
}

/// The peak-hold trace of a layer, a column at a time.
#[derive(Debug)]
pub struct Scratch {
    peaks: Vec<Single>,
}

impl View for Scratch {
    type V = Seq<Single>;

    closed spec fn view(&self) -> Seq<Single> {
        self.peaks@
    }
}

/// A peak after a frame: the level when it is above what the peak has decayed
/// to, and that otherwise.
pub open spec fn held(level: Single, decayed: Single) -> Single {
    if decayed.below(level) {
        level
    } else {
        decayed
    }
}

impl Scratch {
    pub fn new() -> (r: Scratch)
        ensures
            r@.len() == 0,
    {
        Scratch { peaks: Vec::new() }
    }

    /// Make room for some columns. As long as their number stays, so do the
    /// peaks; otherwise none has been reached yet.
    pub fn ensure(&mut self, columns: usize)
        ensures
            final(self)@ == (if old(self)@.len() == columns {
                old(self)@
            } else {
                Seq::new(columns as nat, |i: int| Single { bits: NEVER })
            }),
    {
        if self.peaks.len() == columns {
            return ;
        }
        let mut peaks: Vec<Single> = Vec::new();
        let mut i: usize = 0;
        while i < columns
            invariant
                i <= columns,
                peaks@.len() == i,
                forall|k: int| 0 <= k < i ==> peaks@[k] == (Single { bits: NEVER }),
            decreases columns - i,
        {
            peaks.push(Single { bits: NEVER });
            i = i + 1;
        }
        self.peaks = peaks;
        assert(self@ =~= Seq::new(columns as nat, |i: int| Single { bits: NEVER }));
    }

    /// The peaks that are held.
    pub fn peaks(&self) -> (r: &Vec<Single>)
        ensures
            r@ == self@,
    {
        &self.peaks
    }

    /// Hold the peaks against this frame's levels, given what each has decayed to.
    pub fn hold(&mut self, levels: &Vec<Single>, decayed: &Vec<Single>)
        requires
            levels@.len() == old(self)@.len(),
            decayed@.len() == old(self)@.len(),
        ensures
            final(self)@ == Seq::new(
                levels@.len(),
                |i: int| held(levels@[i], decayed@[i]),
            ),
    {
        let mut i: usize = 0;
        while i < self.peaks.len()
            invariant
                i <= self@.len(),
                self@.len() == levels@.len(),
                self@.len() == decayed@.len(),
                forall|k: int| 0 <= k < i ==> self@[k] == held(levels@[k], decayed@[k]),
            decreases self@.len() - i,
        {
            let value: Single = if decayed[i].lt(levels[i]) {
                levels[i]
            } else {
                decayed[i]
            };
            self.peaks.set(i, value);
            i = i + 1;
        }
        assert(self@ =~= Seq::new(levels@.len(), |i: int| held(levels@[i], decayed@[i])));
    }
}

/// A held peak is never under the level it is held over.
pub proof fn a_peak_is_never_under_its_level(level: Single, decayed: Single)
    requires
        !level.nan(),
        !decayed.nan(),
    ensures
        level.rank() <= held(level, decayed).rank(),
        decayed.rank() <= held(level, decayed).rank(),
{
}

/// An index in the list is its own nearest place, one before it is the first, and
/// one behind it the last.
pub proof fn the_edge_repeats(i: int, n: int)
    requires
        n > 0,
    ensures
        0 <= i < n ==> nearest_index(i, n) == i,
        i < 0 ==> nearest_index(i, n) == 0,
        i >= n ==> nearest_index(i, n) == n - 1,
{
}

/// Inside a curve whose points are finite and not under the floor, the four points
/// around a place are the one before it, the two it lies between, and the next.
pub proof fn the_taps_are_the_points_around(points: Seq<Single>, i: int, floor: Single)
    requires
        1 <= i < points.len() - 2,
        forall|k: int| 0 <= k < points.len() ==> (#[trigger] points[k]).finite(),
        forall|k: int| 0 <= k < points.len() ==> !(#[trigger] points[k]).below(floor),
    ensures
        Taps::of(points, i, floor) == (Taps {
            before: points[i - 1],
            left: points[i],
            right: points[i + 1],
            after: points[i + 2],
        }),
{
}

/// A point under the floor, or not finite, reads as the floor; any other as it is.
pub proof fn a_point_reads_as_itself_or_the_floor(v: Single, floor: Single)
    ensures
        !v.finite() ==> heard(v, floor) == floor,
        v.below(floor) ==> heard(v, floor) == floor,
        v.finite() && !v.below(floor) ==> heard(v, floor) == v,
{
}

/// A held peak is the level or what the peak has decayed to, and nothing else;
/// the two bounds of a splined value are the two points it lies between, the lower
/// one first.
pub proof fn a_peak_is_one_of_the_two(level: Single, decayed: Single, t: Taps)
    ensures
        held(level, decayed) == level || held(level, decayed) == decayed,
        t.low() == t.left && t.high() == t.right || t.low() == t.right && t.high() == t.left
            || t.low() == t.left && t.high() == t.left,
        !t.left.nan() && !t.right.nan() ==> t.low().rank() <= t.high().rank() && (t.low().rank()
            == t.left.rank() && t.high().rank() == t.right.rank() || t.low().rank()
            == t.right.rank() && t.high().rank() == t.left.rank()),
{
}

/// A window of a box blur counts its column and as many on either side as the
/// radius says: with no radius it is the column itself, and one step wider it has
/// one column more at each end.
pub proof fn a_window_reaches_as_far_as_its_radius(src: Seq<int>, i: int, radius: nat)
    requires
        0 <= i < src.len(),
    ensures
        window(src, i, 0) == src[i],
        window(src, i, radius + 1) == src[nearest_index(i - radius - 1, src.len() as int)]
            + window(src, i, radius) + src[nearest_index(i + radius + 1, src.len() as int)],
{
    assert(total(src, i, 0) == 0);
    assert(total(src, i, 1) == total(src, i, 0) + src[nearest_index(i, src.len() as int)]);
    lemma_total_from_the_front(src, i - radius - 1, (2 * radius + 3) as nat);
    let wide = (2 * radius + 2) as nat;
    assert(total(src, i - radius, wide) == total(src, i - radius, (wide - 1) as nat)
        + src[nearest_index(i - radius + wide - 1, src.len() as int)]);
}

} // verus!
