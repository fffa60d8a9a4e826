//! The seven filter-shape glyphs on the band type buttons.
//!
//! Their outlines are line and quadratic segments over a box of 20 by 17.

use vstd::prelude::*;

use crate::params::BandKind;

verus! {

/// Design space of the glyphs.
pub const W: u32 = 20;

pub const H: u32 = 17;

/// How many steps a curved segment is drawn in. Eight is past the point where
/// another one shows at this size.
pub const STEPS: u32 = 8;

/// A point of the design space.
#[derive(Clone, Copy, Debug, PartialEq, Eq, Structural)]
pub struct Dot {
    pub x: u32,
    pub y: u32,
}

/// One segment of an outline: a straight run, or a quadratic through a control
/// point.
#[derive(Clone, Copy, Debug, PartialEq, Eq, Structural)]
pub enum Seg {
    To(u32, u32),
    Quad(u32, u32, u32, u32),
}

impl Dot {
    /// Is the point in a box this many times the size of the design space?
    pub open spec fn inside(self, scale: int) -> bool {
        self.x <= scale * W && self.y <= scale * H
    }
}

impl Seg {
    /// Where a segment ends.
    pub open spec fn end(self) -> Dot {
        match self {
            Seg::To(x, y) => Dot { x, y },
            Seg::Quad(_, _, x, y) => Dot { x, y },
        }
    }

    /// Does a segment keep to the design space, its control point included?
    pub open spec fn inside(self) -> bool {
        match self {
            Seg::To(x, y) => (Dot { x, y }).inside(1),
            Seg::Quad(cx, cy, x, y) => (Dot { x: cx, y: cy }).inside(1) && (Dot { x, y }).inside(1),
        }
    }

    /// The points a segment is drawn through, in sixty-fourths: its end, or eight
    /// points of the curve.
    pub open spec fn drawn(self, from: Dot) -> Seq<Dot> {
        match self {
            Seg::To(x, y) => seq![(Dot { x: (64 * x) as u32, y: (64 * y) as u32 })],
            Seg::Quad(cx, cy, x, y) => Seq::new(
                STEPS as nat,
                |k: int|
                    Dot {
                        x: bezier(from.x as int, cx as int, x as int, k + 1) as u32,
                        y: bezier(from.y as int, cy as int, y as int, k + 1) as u32,
                    },
            ),
        }
    }
}

/// A quadratic from `a` to `b` through the control point `c`, at `t` eighths of
/// the way, in sixty-fourths.
pub open spec fn bezier(a: int, c: int, b: int, t: int) -> int {
    (8 - t) * (8 - t) * a + 2 * (8 - t) * t * c + t * t * b
}

/// The outline of a filter shape: where it starts, and its segments.
pub open spec fn outline_of(kind: BandKind) -> (Dot, Seq<Seg>) {
    match kind {
        BandKind::LowCut => (
            (Dot { x: 2, y: 14 }),
            seq![Seg::To(8, 14), Seg::Quad(13, 14, 13, 3), Seg::To(18, 3)],
        ),
        BandKind::LowShelf => (
            (Dot { x: 2, y: 4 }),
            seq![Seg::To(7, 4), Seg::Quad(10, 4, 10, 9), Seg::To(13, 13), Seg::To(18, 13)],
        ),
        BandKind::Bell => (
            (Dot { x: 2, y: 13 }),
            seq![Seg::Quad(7, 13, 10, 4), Seg::Quad(13, 13, 18, 13)],
        ),
        BandKind::Notch => (
            (Dot { x: 2, y: 4 }),
            seq![Seg::Quad(9, 4, 10, 14), Seg::Quad(11, 4, 18, 4)],
        ),
        BandKind::BandPass => (
            (Dot { x: 2, y: 14 }),
            seq![Seg::Quad(9, 14, 10, 4), Seg::Quad(11, 14, 18, 14)],
        ),
        BandKind::HighShelf => (
            (Dot { x: 2, y: 13 }),
            seq![Seg::To(7, 13), Seg::To(10, 9), Seg::Quad(10, 4, 13, 4), Seg::To(18, 4)],
        ),
        BandKind::HighCut => (
            (Dot { x: 2, y: 3 }),
            seq![Seg::To(7, 3), Seg::Quad(12, 3, 12, 14), Seg::To(18, 14)],
        ),
    }
}

/// The outline of a filter shape: where it starts, and its segments.
pub fn outline(kind: BandKind) -> (r: (Dot, Vec<Seg>))
    ensures
        r.0 == outline_of(kind).0,
        r.1@ == outline_of(kind).1,
{
    let r: (Dot, Vec<Seg>) = match kind {
        BandKind::LowCut => (
            Dot { x: 2, y: 14 },
            vec![Seg::To(8, 14), Seg::Quad(13, 14, 13, 3), Seg::To(18, 3)],
        ),
        BandKind::LowShelf => (
            Dot { x: 2, y: 4 },
            vec![Seg::To(7, 4), Seg::Quad(10, 4, 10, 9), Seg::To(13, 13), Seg::To(18, 13)],
        ),
        BandKind::Bell => (
            Dot { x: 2, y: 13 },
            vec![Seg::Quad(7, 13, 10, 4), Seg::Quad(13, 13, 18, 13)],
        ),
        BandKind::Notch => (
            Dot { x: 2, y: 4 },
            vec![Seg::Quad(9, 4, 10, 14), Seg::Quad(11, 4, 18, 4)],
        ),
        BandKind::BandPass => (
            Dot { x: 2, y: 14 },
            vec![Seg::Quad(9, 14, 10, 4), Seg::Quad(11, 14, 18, 14)],
        ),
        BandKind::HighShelf => (
            Dot { x: 2, y: 13 },
            vec![Seg::To(7, 13), Seg::To(10, 9), Seg::Quad(10, 4, 13, 4), Seg::To(18, 4)],
        ),
        BandKind::HighCut => (
            Dot { x: 2, y: 3 },
            vec![Seg::To(7, 3), Seg::Quad(12, 3, 12, 14), Seg::To(18, 14)],
        ),
    };
    assert(r.1@ =~= outline_of(kind).1);
    r
}

/// Where the pen is after the first `n` segments.
pub open spec fn pen(start: Dot, segments: Seq<Seg>, n: int) -> Dot {
    if n <= 0 {
        start
    } else {
        segments[n - 1].end()
    }
}

/// The points of an outline through its first `n` segments, in sixty-fourths.
pub open spec fn traced(start: Dot, segments: Seq<Seg>, n: int) -> Seq<Dot>
    decreases n,
{
    if n <= 0 {
        seq![(Dot { x: (64 * start.x) as u32, y: (64 * start.y) as u32 })]
    } else {
        traced(start, segments, n - 1) + segments[n - 1].drawn(pen(start, segments, n - 1))
    }
}

proof fn lemma_a_curve_stays_between(a: int, c: int, b: int, t: int, most: int)
    requires
        0 <= a <= most,
        0 <= c <= most,
        0 <= b <= most,
        0 <= t <= 8,
    ensures
        0 <= bezier(a, c, b, t) <= 64 * most,
{
    let u = 8 - t;
    assert(0 <= u * u * a <= u * u * most) by (nonlinear_arith)
        requires
            0 <= a <= most,
            0 <= u,
    ;
    assert(0 <= 2 * u * t * c <= 2 * u * t * most) by (nonlinear_arith)
        requires
            0 <= c <= most,
            0 <= u,
            0 <= t,
    ;
    assert(0 <= t * t * b <= t * t * most) by (nonlinear_arith)
        requires
            0 <= b <= most,
            0 <= t,
    ;
    assert(u * u * most + 2 * u * t * most + t * t * most == 64 * most) by (nonlinear_arith)
        requires
            u == 8 - t,
    ;
}

/// A coordinate of a curve, in sixty-fourths.
fn curve(a: u32, c: u32, b: u32, t: u32) -> (r: u32)
    requires
        a <= 20,
        c <= 20,
        b <= 20,
        t <= 8,
    ensures
        r == bezier(a as int, c as int, b as int, t as int),
{
    let u: u32 = 8 - t;
    assert(0 <= u * u <= 64 && 0 <= u * t <= 64 && 0 <= t * t <= 64) by (nonlinear_arith)
        requires
            u <= 8,
            t <= 8,
    ;
    assert(0 <= (u * u) * a <= 1280 && 0 <= (t * t) * b <= 1280) by (nonlinear_arith)
        requires
            0 <= u * u <= 64,
            0 <= t * t <= 64,
            a <= 20,
            b <= 20,
    ;
    assert(2 * u * t == 2 * (u * t)) by (nonlinear_arith);
    assert(0 <= (2 * u * t) * c <= 2560) by (nonlinear_arith)
        requires
            0 <= 2 * u * t <= 128,
            c <= 20,
    ;
    u * u * a + 2 * u * t * c + t * t * b
}

/// The outlines keep to the design space.
proof fn lemma_outlines_fit(kind: BandKind)
    ensures
        outline_of(kind).0.inside(1),
        forall|i: int|
            0 <= i < outline_of(kind).1.len() ==> (#[trigger] outline_of(kind).1[i]).inside(),
{
}

/// The points a glyph is drawn through, in sixty-fourths of the design space.
pub fn shape(kind: BandKind) -> (r: Vec<Dot>)
    ensures
        r@ == traced(
            outline_of(kind).0,
            outline_of(kind).1,
            outline_of(kind).1.len() as int,
        ),
{
    let (start, segments): (Dot, Vec<Seg>) = outline(kind);
    proof {
        lemma_outlines_fit(kind);
    }
    let mut points: Vec<Dot> = Vec::new();
    points.push(Dot { x: 64 * start.x, y: 64 * start.y });
    let mut cursor: Dot = start;
    let mut i: usize = 0;
    assert(points@ =~= traced(start, segments@, 0));
    while i < segments.len()
        invariant
            i <= segments@.len(),
            cursor == pen(start, segments@, i as int),
            cursor.inside(1),
            forall|k: int| 0 <= k < segments@.len() ==> (#[trigger] segments@[k]).inside(),
            points@ == traced(start, segments@, i as int),
        decreases segments.len() - i,
    {
        let ghost before = points@;
        assert(segments@[i as int].inside());
        match segments[i] {
            Seg::To(x, y) => {
                points.push(Dot { x: 64 * x, y: 64 * y });
                assert(points@ =~= before + segments@[i as int].drawn(cursor));
                cursor = Dot { x, y };
            },
            Seg::Quad(cx, cy, x, y) => {
                let mut t: u32 = 0;
                while t < STEPS
                    invariant
                        t <= STEPS,
                        i < segments@.len(),
                        segments@[i as int] == Seg::Quad(cx, cy, x, y),
                        segments@[i as int].inside(),
                        cursor.inside(1),
                        points@.len() == before.len() + t,
                        forall|k: int| 0 <= k < before.len() ==> points@[k] == before[k],
                        forall|k: int|
                            0 <= k < t ==> points@[before.len() + k]
                                == #[trigger] segments@[i as int].drawn(cursor)[k],
                    decreases STEPS - t,
                {
                    t = t + 1;
                    points.push(
                        Dot { x: curve(cursor.x, cx, x, t), y: curve(cursor.y, cy, y, t) },
                    );
                }
                assert(points@ =~= before + segments@[i as int].drawn(cursor));
                cursor = Dot { x, y };
            },
        }
        i = i + 1;
    }
    points
}

proof fn lemma_traced_inside(start: Dot, segments: Seq<Seg>, n: int, k: int)
    requires
        0 <= n <= segments.len(),
        start.inside(1),
        forall|i: int| 0 <= i < segments.len() ==> (#[trigger] segments[i]).inside(),
        0 <= k < traced(start, segments, n).len(),
    ensures
        traced(start, segments, n)[k].inside(64),
    decreases n,
{
    if n > 0 {
        let before = traced(start, segments, n - 1);
        if k < before.len() {
            lemma_traced_inside(start, segments, n - 1, k);
        } else {
            let from = pen(start, segments, n - 1);
            if n > 1 {
                assert(segments[n - 2].inside());
            }
            assert(segments[n - 1].inside());
            match segments[n - 1] {
                Seg::To(x, y) => {},
                Seg::Quad(cx, cy, x, y) => {
                    let t = k - before.len() + 1;
                    lemma_a_curve_stays_between(from.x as int, cx as int, x as int, t, W as int);
                    lemma_a_curve_stays_between(from.y as int, cy as int, y as int, t, H as int);
                },
            }
        }
    }
}

/// A glyph never leaves its box, and runs from its left margin to its right one.
pub proof fn a_glyph_fits_its_box(kind: BandKind)
    ensures
        ({
            let (start, segments) = outline_of(kind);
            let points = traced(start, segments, segments.len() as int);
            &&& forall|k: int| 0 <= k < points.len() ==> (#[trigger] points[k]).inside(64)
            &&& points.len() > 1
            &&& start.x == 2
            &&& segments.last().end().x == 18
        }),
{
    lemma_outlines_fit(kind);
    let (start, segments) = outline_of(kind);
    let points = traced(start, segments, segments.len() as int);
    assert forall|k: int| 0 <= k < points.len() implies (#[trigger] points[k]).inside(64) by {
        lemma_traced_inside(start, segments, segments.len() as int, k);
    }
    lemma_tracing_adds(start, segments, segments.len() as int);
}

proof fn lemma_tracing_adds(start: Dot, segments: Seq<Seg>, n: int)
    requires
        0 <= n <= segments.len(),
    ensures
        traced(start, segments, n).len() > n,
    decreases n,
{
    if n > 0 {
        lemma_tracing_adds(start, segments, n - 1);
    }
}

} // verus!
