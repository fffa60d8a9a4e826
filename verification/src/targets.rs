//! The spectral engine's targets, drawn small on purpose.
//!
//! A candidate the detector is still weighing is a pale tick along the top of
//! the plot; a target being cut hangs a thin indicator from the zero line.
//! Emphasis goes only to the hovered target and the few deepest cuts: the EQ
//! nodes stay the loudest thing on the graph, and two dozen filters must never
//! read as two dozen handles.

use vstd::prelude::*;

use crate::single::Single;

verus! {

/// Display limits, in hertz: 20 to 22000.
pub const F_MIN: u32 = 0x41a0_0000;

pub const F_MAX: u32 = 0x46ab_e000;

/// How far from the pointer a target may be and still be pointed at: 8 points.
pub const REACH: u32 = 0x4100_0000;

/// How sure the detector has to be before a candidate is marked: 0.15.
pub const NOTICEABLE: u32 = 0x3e19_999a;

/// One filter of the spectral engine.
#[derive(Clone, Copy, Debug, PartialEq, Eq, Structural)]
pub struct Target {
    /// There is something in this place at all.
    pub present: bool,
    /// It is being cut, not merely weighed.
    pub active: bool,
    pub freq: Single,
    pub cut_db: Single,
    pub confidence: Single,
}

impl Target {
    pub open spec fn cutting(self) -> bool {
        self.present && self.active
    }

    /// It lies on the axis.
    pub open spec fn on_axis(self) -> bool {
        self.present && self.freq.within(Single { bits: F_MIN }, Single { bits: F_MAX })
    }

    fn is_on_axis(&self) -> (r: bool)
        ensures
            r == self.on_axis(),
    {
        self.present && !self.freq.is_nan() && !self.freq.lt(Single { bits: F_MIN }) && !Single {
            bits: F_MAX,
        }.lt(self.freq)
    }
}

/// The three deepest cuts, deepest first; zero where there are fewer.
#[derive(Clone, Copy, Debug, PartialEq, Eq, Structural)]
pub struct Deepest {
    pub first: Single,
    pub second: Single,
    pub third: Single,
}

impl Deepest {
    pub open spec fn none() -> Deepest {
        Deepest {
            first: Single { bits: 0 },
            second: Single { bits: 0 },
            third: Single { bits: 0 },
        }
    }

    /// With one more cut taken into account.
    pub open spec fn with(self, cut: Single) -> Deepest {
        if self.first.below(cut) {
            Deepest { first: cut, second: self.first, third: self.second }
        } else if self.second.below(cut) {
            Deepest { first: self.first, second: cut, third: self.second }
        } else if self.third.below(cut) {
            Deepest { first: self.first, second: self.second, third: cut }
        } else {
            self
        }
    }

    /// The three deepest cuts among some leading targets.
    pub open spec fn of(targets: Seq<Target>) -> Deepest
        decreases targets.len(),
    {
        if targets.len() == 0 {
            Deepest::none()
        } else {
            let before = Deepest::of(targets.drop_last());
            if targets.last().cutting() {
                before.with(targets.last().cut_db)
            } else {
                before
            }
        }
    }

    fn add_cut(&mut self, cut: Single)
        ensures
            *final(self) == old(self).with(cut),
    {
        if self.first.lt(cut) {
            self.third = self.second;
            self.second = self.first;
            self.first = cut;
        } else if self.second.lt(cut) {
            self.third = self.second;
            self.second = cut;
        } else if self.third.lt(cut) {
            self.third = cut;
        }
    }
}

/// The cut a target has to reach to be emphasised: the third-deepest.
pub fn emphasis_line(targets: &Vec<Target>) -> (r: Single)
    ensures
        r == Deepest::of(targets@).third,
{
    let mut top: Deepest = Deepest {
        first: Single { bits: 0 },
        second: Single { bits: 0 },
        third: Single { bits: 0 },
    };
    let mut i: usize = 0;
    while i < targets.len()
        invariant
            i <= targets@.len(),
            top == Deepest::of(targets@.take(i as int)),
        decreases targets.len() - i,
    {
        proof {
            let upto = targets@.take(i + 1);
            assert(upto.drop_last() =~= targets@.take(i as int));
            assert(upto.last() == targets@[i as int]);
        }
        if targets[i].present && targets[i].active {
            top.add_cut(targets[i].cut_db);
        }
        i = i + 1;
    }
    assert(targets@.take(i as int) =~= targets@);
    top.third
}

/// How many targets are cut deeper than a line.
pub open spec fn deeper(targets: Seq<Target>, line: Single) -> nat
    decreases targets.len(),
{
    if targets.len() == 0 {
        0
    } else {
        let before = deeper(targets.drop_last(), line);
        if targets.last().cutting() && line.below(targets.last().cut_db) {
            before + 1
        } else {
            before
        }
    }
}

/// How many targets are cut as deep as a line, or deeper.
pub open spec fn reaching(targets: Seq<Target>, line: Single) -> nat
    decreases targets.len(),
{
    if targets.len() == 0 {
        0
    } else {
        let before = reaching(targets.drop_last(), line);
        let last = targets.last();
        if last.cutting() && !last.cut_db.nan() && line.rank() <= last.cut_db.rank() {
            before + 1
        } else {
            before
        }
    }
}

proof fn lemma_a_higher_line(targets: Seq<Target>, low: Single, high: Single)
    requires
        !low.nan(),
        !high.nan(),
        low.rank() <= high.rank(),
    ensures
        deeper(targets, high) <= deeper(targets, low),
        reaching(targets, high) <= reaching(targets, low),
        low.rank() < high.rank() ==> reaching(targets, high) <= deeper(targets, low),
    decreases targets.len(),
{
    if targets.len() > 0 {
        lemma_a_higher_line(targets.drop_last(), low, high);
    }
}

/// No more than two cuts lie below the emphasis line, and where the line is a
/// cut at all, three reach it: what is emphasised are the few deepest.
pub proof fn only_the_deepest_are_emphasised(targets: Seq<Target>)
    ensures
        ({
            let top = Deepest::of(targets);
            &&& !top.first.nan() && !top.second.nan() && !top.third.nan()
            &&& 0 <= top.third.rank() <= top.second.rank() <= top.first.rank()
            &&& deeper(targets, top.first) == 0
            &&& deeper(targets, top.second) <= 1
            &&& deeper(targets, top.third) <= 2
            &&& top.first.rank() > 0 ==> reaching(targets, top.first) >= 1
            &&& top.second.rank() > 0 ==> reaching(targets, top.second) >= 2
            &&& top.third.rank() > 0 ==> reaching(targets, top.third) >= 3
        }),
    decreases targets.len(),
{
    if targets.len() > 0 {
        let shorter = targets.drop_last();
        only_the_deepest_are_emphasised(shorter);
        let before = Deepest::of(shorter);
        let last = targets.last();
        let cut = last.cut_db;
        if last.cutting() && !cut.nan() {
            if before.first.below(cut) {
                lemma_a_higher_line(shorter, before.first, cut);
            } else if before.second.below(cut) {
                lemma_a_higher_line(shorter, before.second, cut);
                lemma_a_higher_line(shorter, cut, before.first);
            } else if before.third.below(cut) {
                lemma_a_higher_line(shorter, before.third, cut);
                lemma_a_higher_line(shorter, cut, before.second);
            }
        }
    }
}

/// The nearest of some distances that are within reach, among the first `n`;
/// the first of several that are equally near.
pub open spec fn nearest(distances: Seq<Option<Single>>, n: int) -> Option<int>
    decreases n,
{
    if n <= 0 {
        None
    } else {
        let before = nearest(distances, n - 1);
        match distances[n - 1] {
            Some(d) => if !d.below(Single { bits: REACH }) {
                before
            } else {
                match before {
                    Some(i) => if d.below(distances[i]->Some_0) {
                        Some(n - 1)
                    } else {
                        before
                    },
                    None => Some(n - 1),
                }
            },
            None => before,
        }
    }
}

fn find_nearest(distances: &Vec<Option<Single>>) -> (r: Option<usize>)
    ensures
        match r {
            Some(i) => i < distances@.len() && nearest(distances@, distances@.len() as int) == Some(
                i as int,
            ),
            None => nearest(distances@, distances@.len() as int) is None,
        },
{
    let mut best: Option<usize> = None;
    let mut near: Single = Single { bits: 0 };
    let mut k: usize = 0;
    while k < distances.len()
        invariant
            k <= distances@.len(),
            match best {
                Some(i) => i < k && nearest(distances@, k as int) == Some(i as int)
                    && distances@[i as int] == Some(near),
                None => nearest(distances@, k as int) is None,
            },
        decreases distances.len() - k,
    {
        if let Some(d) = distances[k] {
            if d.lt(Single { bits: REACH }) && (best.is_none() || d.lt(near)) {
                best = Some(k);
                near = d;
            }
        }
        k = k + 1;
    }
    best
}

/// The nearest is within reach, nothing that counts is nearer, and nothing
/// before it is as near.
pub proof fn the_nearest_is_nearest(distances: Seq<Option<Single>>, n: int)
    requires
        0 <= n <= distances.len(),
    ensures
        match nearest(distances, n) {
            Some(i) => {
                &&& 0 <= i < n
                &&& distances[i] matches Some(d) && d.below(Single { bits: REACH })
                &&& forall|k: int|
                    #![trigger distances[k]]
                    0 <= k < n ==> match distances[k] {
                        Some(d) => d.below(Single { bits: REACH }) ==> {
                            &&& distances[i]->Some_0.rank() <= d.rank()
                            &&& k < i ==> distances[i]->Some_0.rank() < d.rank()
                        },
                        None => true,
                    }
            },
            None => forall|k: int|
                #![trigger distances[k]]
                0 <= k < n ==> (distances[k] matches Some(d) ==> !d.below(
                    Single { bits: REACH },
                )),
        },
    decreases n,
{
    if n > 0 {
        the_nearest_is_nearest(distances, n - 1);
    }
}

/// What is drawn of a target.
#[derive(Clone, Copy, Debug, PartialEq, Eq, Structural)]
pub enum Mark {
    /// Nothing: there is no target, or it is off the axis.
    Absent,
    /// A candidate too faint to mark.
    Faint,
    /// A candidate, as a tick along the top.
    Tick,
    /// A cut, as an indicator hung from the zero line.
    Cut {
        strong: bool,
    },
}

/// What is drawn of a target, and whether it is pointed at and so labelled.
#[derive(Clone, Copy, Debug, PartialEq, Eq, Structural)]
pub struct TargetLook {
    pub mark: Mark,
    pub labelled: bool,
}

impl TargetLook {
    pub open spec fn of(t: Target, line: Single, pointed_at: Option<Single>) -> TargetLook {
        let labelled = pointed_at matches Some(freq) && freq.same(t.freq);
        if !t.on_axis() {
            TargetLook { mark: Mark::Absent, labelled: false }
        } else if t.active {
            TargetLook {
                mark: Mark::Cut {
                    strong: labelled || (!t.cut_db.nan() && line.rank() <= t.cut_db.rank()),
                },
                labelled,
            }
        } else if (Single { bits: NOTICEABLE }).below(t.confidence) {
            TargetLook { mark: Mark::Tick, labelled }
        } else {
            TargetLook { mark: Mark::Faint, labelled }
        }
    }
}

/// The distances of the targets on the axis, and of no others.
pub open spec fn on_axis_distances(
    targets: Seq<Target>,
    distances: Seq<Option<Single>>,
) -> Seq<Option<Single>> {
    Seq::new(
        targets.len(),
        |i: int|
            if targets[i].on_axis() {
                distances[i]
            } else {
                None
            },
    )
}

/// The frequency of the target the pointer is nearest to, if it is near one.
pub open spec fn pointed_at(
    targets: Seq<Target>,
    distances: Seq<Option<Single>>,
) -> Option<Single> {
    match nearest(on_axis_distances(targets, distances), targets.len() as int) {
        Some(i) => Some(targets[i].freq),
        None => None,
    }
}

/// What is drawn of every target, given how far each is from the pointer on
/// screen, if the pointer is on the plot.
pub fn draw_res_targets(targets: &Vec<Target>, distances: &Vec<Option<Single>>) -> (r: Vec<
    TargetLook,
>)
    requires
        distances@.len() == targets@.len(),
    ensures
        r@ == targets@.map_values(
            |t: Target|
                TargetLook::of(t, Deepest::of(targets@).third, pointed_at(targets@, distances@)),
        ),
{
    let line: Single = emphasis_line(targets);
    proof {
        only_the_deepest_are_emphasised(targets@);
    }
    let mut counted: Vec<Option<Single>> = Vec::new();
    let mut i: usize = 0;
    while i < targets.len()
        invariant
            i <= targets@.len() == distances@.len(),
            counted@ == on_axis_distances(targets@, distances@).take(i as int),
        decreases targets.len() - i,
    {
        counted.push(
            if targets[i].is_on_axis() {
                distances[i]
            } else {
                None
            },
        );
        i = i + 1;
        assert(counted@ =~= on_axis_distances(targets@, distances@).take(i as int));
    }
    assert(counted@ =~= on_axis_distances(targets@, distances@));
    let hovered: Option<Single> = match find_nearest(&counted) {
        Some(k) => Some(targets[k].freq),
        None => None,
    };
    let mut looks: Vec<TargetLook> = Vec::new();
    let mut k: usize = 0;
    while k < targets.len()
        invariant
            k <= targets@.len(),
            hovered == pointed_at(targets@, distances@),
            line == Deepest::of(targets@).third,
            !line.nan(),
            looks@.len() == k,
            forall|j: int|
                0 <= j < k ==> #[trigger] looks@[j] == TargetLook::of(targets@[j], line, hovered),
        decreases targets.len() - k,
    {
        let t: Target = targets[k];
        let labelled: bool = match hovered {
            Some(freq) => freq.equals(t.freq),
            None => false,
        };
        looks.push(
            if !t.is_on_axis() {
                TargetLook { mark: Mark::Absent, labelled: false }
            } else if t.active {
                let deep: bool = !t.cut_db.is_nan() && !t.cut_db.lt(line);
                TargetLook { mark: Mark::Cut { strong: labelled || deep }, labelled }
            } else if (Single { bits: NOTICEABLE }).lt(t.confidence) {
                TargetLook { mark: Mark::Tick, labelled }
            } else {
                TargetLook { mark: Mark::Faint, labelled }
            },
        );
        k = k + 1;
    }
    assert(looks@ =~= targets@.map_values(
        |t: Target|
            TargetLook::of(t, Deepest::of(targets@).third, pointed_at(targets@, distances@)),
    ));
    looks
}

impl TargetLook {
    /// A target is drawn where there is one between 20 Hz and 22 kHz: one that is
    /// being cut hangs an indicator, a candidate is a tick once it is surer than
    /// 0.15, and anything fainter is not marked. An indicator is emphasised when
    /// its cut reaches the line, or it is the one pointed at; and only what is
    /// drawn is labelled.
    pub proof fn a_target_is_marked_by_what_it_is(
        t: Target,
        line: Single,
        pointed_at: Option<Single>,
    )
        ensures
            ({
                let look = TargetLook::of(t, line, pointed_at);
                let shown = t.present && !t.freq.nan() && !t.freq.below(
                    (Single { bits: 0x41a0_0000 }),
                ) && !(Single { bits: 0x46ab_e000 }).below(t.freq);
                let here = pointed_at is Some && pointed_at->0.same(t.freq);
                &&& look.mark is Absent <==> !shown
                &&& look.mark is Cut <==> shown && t.active
                &&& look.mark is Tick <==> shown && !t.active && (Single {
                    bits: 0x3e19_999a,
                }).below(t.confidence)
                &&& look.labelled <==> shown && here
                &&& look.mark matches Mark::Cut { strong } ==> (strong <==> here || (
                !t.cut_db.nan() && line.rank() <= t.cut_db.rank()))
            }),
    {
    }
}

/// What is pointed at is the frequency of a target on the axis that lies within
/// eight points of the pointer; with no such target nothing is pointed at.
pub proof fn what_is_pointed_at_is_near(targets: Seq<Target>, distances: Seq<Option<Single>>)
    requires
        targets.len() == distances.len(),
    ensures
        match pointed_at(targets, distances) {
            Some(freq) => exists|i: int|
                #![trigger targets[i]]
                {
                    &&& 0 <= i < targets.len()
                    &&& targets[i].on_axis() && targets[i].freq == freq
                    &&& distances[i] is Some && distances[i]->0.below(
                        (Single { bits: 0x4100_0000 }),
                    )
                },
            None => forall|i: int|
                #![trigger targets[i]]
                0 <= i < targets.len() && targets[i].on_axis() ==> !(distances[i] is Some
                    && distances[i]->0.below((Single { bits: 0x4100_0000 }))),
        },
{
    let counted = on_axis_distances(targets, distances);
    the_nearest_is_nearest(counted, targets.len() as int);
    match nearest(counted, targets.len() as int) {
        Some(i) => {
            let t = targets[i];
            assert(counted[i] is Some);
        },
        None => {
            assert forall|i: int| #![trigger targets[i]] 0 <= i < targets.len()
                && targets[i].on_axis() implies !(distances[i] is Some && distances[i]->0.below(
                (Single { bits: 0x4100_0000 }),
            )) by {
                assert(counted[i] == distances[i]);
            }
        },
    }
}

} // verus!
