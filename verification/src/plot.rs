//! What the plot draws: which curves are kept and which are worked out anew, in
//! what order they are stroked, and how its handles and read-outs look.

use vstd::prelude::*;

use crate::params::{BandChannel, BandKind, Slope};
use crate::display::find_band;
use crate::single::Single;
use crate::state::{BandView, ChannelView};

verus! {

impl BandView {
    /// Two readings of a band that say the same. A number that is not a number
    /// is never the same as another.
    pub open spec fn agrees(self, other: BandView) -> bool {
        &&& self.slot == other.slot
        &&& self.kind == other.kind
        &&& self.channel == other.channel
        &&& self.freq.same(other.freq)
        &&& self.gain.same(other.gain)
        &&& self.q.same(other.q)
        &&& self.slope == other.slope
        &&& self.enabled == other.enabled
        &&& self.dynamic == other.dynamic
        &&& self.dyn_mode == other.dyn_mode
        &&& self.dyn_range.same(other.dyn_range)
        &&& self.threshold.same(other.threshold)
        &&& self.attack.same(other.attack)
        &&& self.release.same(other.release)
        &&& self.resonance.same(other.resonance)
        &&& self.res_mode == other.res_mode
        &&& self.res_range.same(other.res_range)
        &&& self.res_sens.same(other.res_sens)
        &&& self.res_width.same(other.res_width)
        &&& self.res_attack.same(other.res_attack)
        &&& self.res_release.same(other.res_release)
    }

    fn same_as(&self, other: &BandView) -> (r: bool)
        ensures
            r == self.agrees(*other),
    {
        self.slot == other.slot && self.kind == other.kind && self.channel == other.channel
            && self.freq.equals(other.freq) && self.gain.equals(other.gain) && self.q.equals(
            other.q,
        ) && self.slope == other.slope && self.enabled == other.enabled && self.dynamic
            == other.dynamic && self.dyn_mode == other.dyn_mode && self.dyn_range.equals(
            other.dyn_range,
        ) && self.threshold.equals(other.threshold) && self.attack.equals(other.attack)
            && self.release.equals(other.release) && self.resonance.equals(other.resonance)
            && self.res_mode == other.res_mode && self.res_range.equals(other.res_range)
            && self.res_sens.equals(other.res_sens) && self.res_width.equals(other.res_width)
            && self.res_attack.equals(other.res_attack) && self.res_release.equals(
            other.res_release,
        )
    }
}

/// What the kept curves were worked out from.
#[derive(Debug)]
pub struct CacheKey {
    pub bands: Vec<BandView>,
    pub sample_rate: Single,
    pub bypassed: bool,
    pub view: ChannelView,
}

impl CacheKey {
    /// Would these readings give the same curves?
    pub open spec fn covers(
        self,
        bands: Seq<BandView>,
        sample_rate: Single,
        bypassed: bool,
        view: ChannelView,
    ) -> bool {
        &&& self.bands@.len() == bands.len()
        &&& forall|i: int|
            0 <= i < bands.len() ==> (#[trigger] self.bands@[i]).agrees(bands[i])
        &&& self.sample_rate.same(sample_rate)
        &&& self.bypassed == bypassed
        &&& self.view == view
    }

    fn is_for(
        &self,
        bands: &Vec<BandView>,
        sample_rate: Single,
        bypassed: bool,
        view: ChannelView,
    ) -> (r: bool)
        ensures
            r == self.covers(bands@, sample_rate, bypassed, view),
    {
        if self.bands.len() != bands.len() || !self.sample_rate.equals(sample_rate)
            || self.bypassed != bypassed || self.view != view {
            return false;
        }
        let mut i: usize = 0;
        while i < bands.len()
            invariant
                i <= bands@.len() == self.bands@.len(),
                forall|k: int| 0 <= k < i ==> (#[trigger] self.bands@[k]).agrees(bands@[k]),
            decreases bands.len() - i,
        {
            if !self.bands[i].same_as(&bands[i]) {
                assert(!self.bands@[i as int].agrees(bands@[i as int]));
                return false;
            }
            i = i + 1;
        }
        true
    }
}

/// What becomes of a band's curve.
#[derive(Clone, Copy, Debug, PartialEq, Eq, Structural)]
pub enum CurvePlan {
    /// The band is not in the view on screen.
    Hidden,
    /// The curve depends on this frame's gain reduction, so it is left out of
    /// what is kept and worked out anew every frame.
    Dynamic,
    /// The curve is kept, and counted into the composite where the band is
    /// heard.
    Kept {
        counted: bool,
    },
}

impl CurvePlan {
    pub open spec fn of(band: BandView, bypassed: bool, view: ChannelView) -> CurvePlan {
        if !band.visible_in(view) {
            CurvePlan::Hidden
        } else if band.dynamic && band.enabled && band.kind.has_gain() && !bypassed {
            CurvePlan::Dynamic
        } else {
            CurvePlan::Kept { counted: band.enabled && !bypassed }
        }
    }

    fn choose_for(band: &BandView, bypassed: bool, view: ChannelView) -> (r: CurvePlan)
        ensures
            r == CurvePlan::of(*band, bypassed, view),
    {
        if !band.in_view(view) {
            CurvePlan::Hidden
        } else if band.dynamic && band.enabled && band.kind.uses_gain() && !bypassed {
            CurvePlan::Dynamic
        } else {
            CurvePlan::Kept { counted: band.enabled && !bypassed }
        }
    }
}

/// The slots of the bands whose curves move, among some leading bands.
pub open spec fn moving(bands: Seq<BandView>, bypassed: bool, view: ChannelView) -> Seq<usize>
    decreases bands.len(),
{
    if bands.len() == 0 {
        Seq::empty()
    } else {
        let before = moving(bands.drop_last(), bypassed, view);
        if CurvePlan::of(bands.last(), bypassed, view) == CurvePlan::Dynamic {
            before.push(bands.last().slot)
        } else {
            before
        }
    }
}

/// Which curves are kept, and from what they were worked out.
#[derive(Debug)]
pub struct CurveCache {
    pub cached_for: Option<CacheKey>,
    /// The slots of the bands whose curves are worked out every frame.
    pub dynamic: Vec<usize>,
}

impl CurveCache {
    pub fn new() -> (r: CurveCache)
        ensures
            r.cached_for is None,
            r.dynamic@ == Seq::<usize>::empty(),
    {
        CurveCache { cached_for: None, dynamic: Vec::new() }
    }

    /// Is what is kept still good?
    pub open spec fn current(
        self,
        bands: Seq<BandView>,
        sample_rate: Single,
        bypassed: bool,
        view: ChannelView,
    ) -> bool {
        self.cached_for matches Some(key) && key.covers(bands, sample_rate, bypassed, view)
    }

    /// Forget what is kept: it was worked out on a grid that is gone.
    pub fn invalidate(&mut self)
        ensures
            final(self).cached_for is None,
            final(self).dynamic == old(self).dynamic,
    {
        self.cached_for = None;
    }

    /// Bring the kept curves up to date: nothing while they are good, and
    /// otherwise what to do with each band.
    pub fn rebuild(
        &mut self,
        bands: &Vec<BandView>,
        sample_rate: Single,
        bypassed: bool,
        view: ChannelView,
    ) -> (r: Option<Vec<CurvePlan>>)
        ensures
            match r {
                None => {
                    &&& old(self).current(bands@, sample_rate, bypassed, view)
                    &&& *final(self) == *old(self)
                },
                Some(plans) => {
                    &&& !old(self).current(bands@, sample_rate, bypassed, view)
                    &&& plans@ == bands@.map_values(
                        |b: BandView| CurvePlan::of(b, bypassed, view),
                    )
                    &&& final(self).dynamic@ == moving(bands@, bypassed, view)
                    &&& final(self).cached_for matches Some(key) && key.bands@ == bands@
                        && key.sample_rate == sample_rate && key.bypassed == bypassed && key.view
                        == view
                },
            },
    {
        if let Some(key) = &self.cached_for {
            if key.is_for(bands, sample_rate, bypassed, view) {
                return None;
            }
        }
        let mut plans: Vec<CurvePlan> = Vec::new();
        let mut dynamic: Vec<usize> = Vec::new();
        let mut copy: Vec<BandView> = Vec::new();
        let mut i: usize = 0;
        while i < bands.len()
            invariant
                i <= bands@.len(),
                copy@ == bands@.take(i as int),
                plans@ == bands@.take(i as int).map_values(
                    |b: BandView| CurvePlan::of(b, bypassed, view),
                ),
                dynamic@ == moving(bands@.take(i as int), bypassed, view),
            decreases bands.len() - i,
        {
            let plan: CurvePlan = CurvePlan::choose_for(&bands[i], bypassed, view);
            proof {
                let upto = bands@.take(i + 1);
                assert(upto.drop_last() =~= bands@.take(i as int));
                assert(upto.last() == bands@[i as int]);
            }
            if let CurvePlan::Dynamic = plan {
                dynamic.push(bands[i].slot);
            }
            plans.push(plan);
            copy.push(bands[i]);
            i = i + 1;
            assert(copy@ =~= bands@.take(i as int));
            assert(plans@ =~= bands@.take(i as int).map_values(
                |b: BandView| CurvePlan::of(b, bypassed, view),
            ));
        }
        assert(bands@.take(i as int) =~= bands@);
        self.dynamic = dynamic;
        self.cached_for = Some(CacheKey { bands: copy, sample_rate, bypassed, view });
        Some(plans)
    }
}

/// Asking again about what has not changed costs nothing, as long as every
/// number is one.
pub proof fn a_fresh_cache_is_current(cache: CurveCache, key: CacheKey)
    requires
        cache.cached_for == Some(key),
        forall|i: int| 0 <= i < key.bands@.len() ==> (#[trigger] key.bands@[i]).agrees(
            key.bands@[i],
        ),
        !key.sample_rate.nan(),
    ensures
        cache.current(key.bands@, key.sample_rate, key.bypassed, key.view),
{
}

/// A curve to be stroked.
#[derive(Clone, Copy, Debug, PartialEq, Eq, Structural)]
pub struct StrokePlan {
    /// The band's place in the list, which picks its colour.
    pub index: usize,
    pub slot: usize,
    /// Worked out anew, at the gain the reduction has the band at.
    pub moving: bool,
    /// The band under the pointer, or else the selected one.
    pub focused: bool,
}

/// The kept curves that are stroked, among the first `n` bands: those of the
/// bands that are heard.
pub open spec fn kept_strokes(
    bands: Seq<BandView>,
    bypassed: bool,
    view: ChannelView,
    focus: Option<usize>,
    n: int,
) -> Seq<StrokePlan>
    decreases n,
{
    if n <= 0 {
        Seq::empty()
    } else {
        let before = kept_strokes(bands, bypassed, view, focus, n - 1);
        let band = bands[n - 1];
        if CurvePlan::of(band, bypassed, view) == (CurvePlan::Kept { counted: true }) {
            before.push(
                StrokePlan {
                    index: (n - 1) as usize,
                    slot: band.slot,
                    moving: false,
                    focused: focus == Some(band.slot),
                },
            )
        } else {
            before
        }
    }
}

/// The moving curves that are stroked, for the first `n` slots that move.
pub open spec fn moving_strokes(
    bands: Seq<BandView>,
    slots: Seq<usize>,
    focus: Option<usize>,
    n: int,
) -> Seq<StrokePlan>
    decreases n,
{
    if n <= 0 {
        Seq::empty()
    } else {
        let before = moving_strokes(bands, slots, focus, n - 1);
        let slot = slots[n - 1];
        match crate::display::position_of(bands, Some(slot)) {
            Some(index) => before.push(
                StrokePlan {
                    index: index as usize,
                    slot,
                    moving: true,
                    focused: focus == Some(slot),
                },
            ),
            None => before,
        }
    }
}

fn is_focus(focus: Option<usize>, slot: usize) -> (r: bool)
    ensures
        r == (focus == Some(slot)),
{
    match focus {
        Some(s) => s == slot,
        None => false,
    }
}

/// The curves to stroke, in order: the kept ones first, then those that move.
pub fn draw_curves(
    bands: &Vec<BandView>,
    dynamic: &Vec<usize>,
    bypassed: bool,
    view: ChannelView,
    focus: Option<usize>,
) -> (r: Vec<StrokePlan>)
    ensures
        r@ == kept_strokes(bands@, bypassed, view, focus, bands@.len() as int) + moving_strokes(
            bands@,
            dynamic@,
            focus,
            dynamic@.len() as int,
        ),
{
    let mut strokes: Vec<StrokePlan> = Vec::new();
    let mut i: usize = 0;
    while i < bands.len()
        invariant
            i <= bands@.len(),
            strokes@ == kept_strokes(bands@, bypassed, view, focus, i as int),
        decreases bands.len() - i,
    {
        if let CurvePlan::Kept { counted } = CurvePlan::choose_for(&bands[i], bypassed, view) {
            if counted {
                strokes.push(
                    StrokePlan {
                        index: i,
                        slot: bands[i].slot,
                        moving: false,
                        focused: is_focus(focus, bands[i].slot),
                    },
                );
            }
        }
        i = i + 1;
    }
    let ghost kept = strokes@;
    let mut k: usize = 0;
    assert(strokes@ =~= kept + moving_strokes(bands@, dynamic@, focus, 0));
    while k < dynamic.len()
        invariant
            k <= dynamic@.len(),
            strokes@ == kept + moving_strokes(bands@, dynamic@, focus, k as int),
        decreases dynamic.len() - k,
    {
        let slot: usize = dynamic[k];
        if let Some(index) = find_band(bands, Some(slot)) {
            strokes.push(
                StrokePlan { index, slot, moving: true, focused: is_focus(focus, slot) },
            );
        }
        k = k + 1;
        assert(strokes@ =~= kept + moving_strokes(bands@, dynamic@, focus, k as int));
    }
    strokes
}

impl CurvePlan {
    /// A band's curve is counted into the composite, kept or moving, exactly when
    /// the band is on, the EQ is not bypassed and the view shows the band. A band
    /// in the view that is off, or bypassed, is kept for its handle and counts for
    /// nothing; a band outside the view has no curve at all.
    pub proof fn only_a_band_that_is_heard_counts(
        band: BandView,
        bypassed: bool,
        view: ChannelView,
    )
        ensures
            ({
                let plan = CurvePlan::of(band, bypassed, view);
                let heard = band.enabled && !bypassed && band.visible_in(view);
                &&& heard <==> plan == CurvePlan::Dynamic || plan == (CurvePlan::Kept {
                    counted: true,
                })
                &&& !heard && band.visible_in(view) <==> plan == (CurvePlan::Kept {
                    counted: false,
                })
                &&& !band.visible_in(view) <==> plan == CurvePlan::Hidden
                &&& plan == CurvePlan::Dynamic <==> heard && band.dynamic && (band.kind
                    == BandKind::LowShelf || band.kind == BandKind::Bell || band.kind
                    == BandKind::HighShelf)
            }),
    {
    }
}

proof fn lemma_moving_slots_are_heard(
    bands: Seq<BandView>,
    bypassed: bool,
    view: ChannelView,
    k: int,
)
    requires
        0 <= k < moving(bands, bypassed, view).len(),
    ensures
        exists|i: int|
            0 <= i < bands.len() && (#[trigger] bands[i]).slot == moving(bands, bypassed, view)[k]
                && CurvePlan::of(bands[i], bypassed, view) == CurvePlan::Dynamic,
    decreases bands.len(),
{
    if bands.len() > 0 {
        let before = bands.drop_last();
        if k < moving(before, bypassed, view).len() {
            lemma_moving_slots_are_heard(before, bypassed, view, k);
            let i = choose|i: int|
                0 <= i < before.len() && (#[trigger] before[i]).slot == moving(
                    before,
                    bypassed,
                    view,
                )[k] && CurvePlan::of(before[i], bypassed, view) == CurvePlan::Dynamic;
            assert(bands[i] == before[i]);
        } else {
            assert(bands[bands.len() - 1] == bands.last());
        }
    }
}

/// The slots that move are those of the bands that are heard and dynamic, and of
/// no others: every one of them stands for such a band, and every such band is
/// among them.
pub proof fn what_moves_is_dynamic_and_heard(
    bands: Seq<BandView>,
    bypassed: bool,
    view: ChannelView,
    slot: usize,
)
    ensures
        moving(bands, bypassed, view).contains(slot) <==> exists|i: int|
            #![trigger bands[i]]
            {
                &&& 0 <= i < bands.len()
                &&& bands[i].slot == slot
                &&& bands[i].enabled && bands[i].dynamic && !bypassed
                &&& bands[i].visible_in(view)
                &&& bands[i].kind == BandKind::LowShelf || bands[i].kind == BandKind::Bell
                    || bands[i].kind == BandKind::HighShelf
            },
    decreases bands.len(),
{
    let all = moving(bands, bypassed, view);
    if all.contains(slot) {
        let k = choose|k: int| 0 <= k < all.len() && all[k] == slot;
        lemma_moving_slots_are_heard(bands, bypassed, view, k);
        let i = choose|i: int|
            0 <= i < bands.len() && (#[trigger] bands[i]).slot == all[k] && CurvePlan::of(
                bands[i],
                bypassed,
                view,
            ) == CurvePlan::Dynamic;
        CurvePlan::only_a_band_that_is_heard_counts(bands[i], bypassed, view);
    }
    if exists|i: int|
        #![trigger bands[i]]
        {
            &&& 0 <= i < bands.len()
            &&& bands[i].slot == slot
            &&& bands[i].enabled && bands[i].dynamic && !bypassed
            &&& bands[i].visible_in(view)
            &&& bands[i].kind == BandKind::LowShelf || bands[i].kind == BandKind::Bell
                || bands[i].kind == BandKind::HighShelf
        } {
        let i = choose|i: int|
            #![trigger bands[i]]
            {
                &&& 0 <= i < bands.len()
                &&& bands[i].slot == slot
                &&& bands[i].enabled && bands[i].dynamic && !bypassed
                &&& bands[i].visible_in(view)
                &&& bands[i].kind == BandKind::LowShelf || bands[i].kind == BandKind::Bell
                    || bands[i].kind == BandKind::HighShelf
            };
        CurvePlan::only_a_band_that_is_heard_counts(bands[i], bypassed, view);
        let before = bands.drop_last();
        if i < before.len() {
            assert(before[i] == bands[i]);
            what_moves_is_dynamic_and_heard(before, bypassed, view, slot);
            let earlier = moving(before, bypassed, view);
            let k = choose|k: int| 0 <= k < earlier.len() && earlier[k] == slot;
            assert(all[k] == slot);
        } else {
            assert(all[all.len() - 1] == slot);
        }
    }
}

/// The kept strokes are those of the bands that are heard and do not move: each
/// carries the slot of such a band and its place in the list, and each such band
/// has one.
pub proof fn a_kept_stroke_is_of_a_band_that_is_heard(
    bands: Seq<BandView>,
    bypassed: bool,
    view: ChannelView,
    focus: Option<usize>,
    n: int,
    k: int,
)
    requires
        0 <= n <= bands.len() <= usize::MAX,
        0 <= k < kept_strokes(bands, bypassed, view, focus, n).len(),
    ensures
        ({
            let stroke = kept_strokes(bands, bypassed, view, focus, n)[k];
            let band = bands[stroke.index as int];
            &&& stroke.index < n
            &&& stroke.slot == band.slot
            &&& !stroke.moving
            &&& stroke.focused <==> focus == Some(band.slot)
            &&& band.enabled && !bypassed && band.visible_in(view)
            &&& !(band.dynamic && (band.kind == BandKind::LowShelf || band.kind == BandKind::Bell
                || band.kind == BandKind::HighShelf))
        }),
    decreases n,
{
    if n > 0 {
        CurvePlan::only_a_band_that_is_heard_counts(bands[n - 1], bypassed, view);
        if k < kept_strokes(bands, bypassed, view, focus, n - 1).len() {
            a_kept_stroke_is_of_a_band_that_is_heard(bands, bypassed, view, focus, n - 1, k);
        }
    }
}

/// Every band that is heard and does not move is stroked.
pub proof fn a_band_that_is_heard_is_stroked(
    bands: Seq<BandView>,
    bypassed: bool,
    view: ChannelView,
    focus: Option<usize>,
    n: int,
    i: int,
)
    requires
        0 <= i < n <= bands.len() <= usize::MAX,
        bands[i].enabled,
        !bypassed,
        bands[i].visible_in(view),
        !(bands[i].dynamic && (bands[i].kind == BandKind::LowShelf || bands[i].kind
            == BandKind::Bell || bands[i].kind == BandKind::HighShelf)),
    ensures
        kept_strokes(bands, bypassed, view, focus, n).contains(
            (StrokePlan {
                index: i as usize,
                slot: bands[i].slot,
                moving: false,
                focused: focus == Some(bands[i].slot),
            }),
        ),
    decreases n,
{
    CurvePlan::only_a_band_that_is_heard_counts(bands[i], bypassed, view);
    let all = kept_strokes(bands, bypassed, view, focus, n);
    let wanted = StrokePlan {
        index: i as usize,
        slot: bands[i].slot,
        moving: false,
        focused: focus == Some(bands[i].slot),
    };
    if i < n - 1 {
        a_band_that_is_heard_is_stroked(bands, bypassed, view, focus, n - 1, i);
        let before = kept_strokes(bands, bypassed, view, focus, n - 1);
        let k = choose|k: int| 0 <= k < before.len() && before[k] == wanted;
        assert(all[k] == wanted);
    } else {
        assert(all[all.len() - 1] == wanted);
    }
}

/// A moving stroke carries a slot that moves, with the place of the first band of
/// that slot.
pub proof fn a_moving_stroke_is_of_a_slot_that_moves(
    bands: Seq<BandView>,
    slots: Seq<usize>,
    focus: Option<usize>,
    n: int,
    k: int,
)
    requires
        0 <= n <= slots.len(),
        bands.len() <= usize::MAX,
        0 <= k < moving_strokes(bands, slots, focus, n).len(),
    ensures
        ({
            let stroke = moving_strokes(bands, slots, focus, n)[k];
            &&& stroke.moving
            &&& slots.contains(stroke.slot)
            &&& stroke.index < bands.len()
            &&& bands[stroke.index as int].slot == stroke.slot
            &&& stroke.focused <==> focus == Some(stroke.slot)
        }),
    decreases n,
{
    if n > 0 {
        if k < moving_strokes(bands, slots, focus, n - 1).len() {
            a_moving_stroke_is_of_a_slot_that_moves(bands, slots, focus, n - 1, k);
        } else {
            assert(slots[n - 1] == slots[n - 1]);
            crate::display::what_is_found_has_the_slot(bands, slots[n - 1]);
        }
    }
}

/// No band that is off is stroked, kept or moving, when every slot is listed once;
/// and while the EQ is bypassed nothing is stroked at all.
pub proof fn a_band_that_is_off_is_not_stroked(
    bands: Seq<BandView>,
    bypassed: bool,
    view: ChannelView,
    focus: Option<usize>,
    i: int,
    k: int,
)
    requires
        0 <= i < bands.len() <= usize::MAX,
        !bands[i].enabled || bypassed,
        forall|a: int, b: int|
            0 <= a < b < bands.len() ==> (#[trigger] bands[a]).slot != (#[trigger] bands[b]).slot,
        0 <= k < (kept_strokes(bands, bypassed, view, focus, bands.len() as int)
            + moving_strokes(
            bands,
            moving(bands, bypassed, view),
            focus,
            moving(bands, bypassed, view).len() as int,
        )).len(),
    ensures
        (kept_strokes(bands, bypassed, view, focus, bands.len() as int) + moving_strokes(
            bands,
            moving(bands, bypassed, view),
            focus,
            moving(bands, bypassed, view).len() as int,
        ))[k].slot != bands[i].slot,
        !bypassed,
{
    let kept = kept_strokes(bands, bypassed, view, focus, bands.len() as int);
    let slots = moving(bands, bypassed, view);
    let shown = moving_strokes(bands, slots, focus, slots.len() as int);
    if k < kept.len() {
        a_kept_stroke_is_of_a_band_that_is_heard(
            bands,
            bypassed,
            view,
            focus,
            bands.len() as int,
            k,
        );
        let other = bands[kept[k].index as int];
        assert(other.slot == kept[k].slot);
    } else {
        let at = k - kept.len();
        a_moving_stroke_is_of_a_slot_that_moves(bands, slots, focus, slots.len() as int, at);
        what_moves_is_dynamic_and_heard(bands, bypassed, view, shown[at].slot);
        let j = choose|j: int|
            #![trigger bands[j]]
            {
                &&& 0 <= j < bands.len()
                &&& bands[j].slot == shown[at].slot
                &&& bands[j].enabled && bands[j].dynamic && !bypassed
                &&& bands[j].visible_in(view)
                &&& bands[j].kind == BandKind::LowShelf || bands[j].kind == BandKind::Bell
                    || bands[j].kind == BandKind::HighShelf
            };
        assert(bands[j].enabled);
    }
}

/// Every slot that moves is stroked with the band that is listed under it.
pub proof fn a_slot_that_moves_is_stroked(
    bands: Seq<BandView>,
    slots: Seq<usize>,
    focus: Option<usize>,
    n: int,
    k: int,
    i: int,
)
    requires
        0 <= k < n <= slots.len(),
        0 <= i < bands.len() <= usize::MAX,
        bands[i].slot == slots[k],
        forall|j: int| 0 <= j < i ==> (#[trigger] bands[j]).slot != bands[i].slot,
    ensures
        moving_strokes(bands, slots, focus, n).contains(
            (StrokePlan {
                index: i as usize,
                slot: slots[k],
                moving: true,
                focused: focus == Some(slots[k]),
            }),
        ),
    decreases n,
{
    let all = moving_strokes(bands, slots, focus, n);
    let wanted = StrokePlan {
        index: i as usize,
        slot: slots[k],
        moving: true,
        focused: focus == Some(slots[k]),
    };
    if k < n - 1 {
        a_slot_that_moves_is_stroked(bands, slots, focus, n - 1, k, i);
        let before = moving_strokes(bands, slots, focus, n - 1);
        let at = choose|at: int| 0 <= at < before.len() && before[at] == wanted;
        assert(all[at] == wanted);
    } else {
        crate::display::a_slot_is_found_where_it_first_stands(bands, i);
        assert(all[all.len() - 1] == wanted);
    }
}

/// How a handle looks.
#[derive(Clone, Copy, Debug)]
pub struct HandleLook {
    /// The band's place in the list, which picks its colour; the number drawn on
    /// the handle is one more.
    pub index: usize,
    /// How much of its light the handle gives: 0.3 of a band that is off, 0.25 of
    /// one that is silent because another is soloed.
    pub opacity: Single,
    /// A guide down the plot, and a ring, mark the selected band.
    pub selected: bool,
    /// A dashed line marks how far a dynamic band may travel, and a ring that it
    /// does.
    pub travels: bool,
    /// The selected band shows grips where a Q means something.
    pub grips: bool,
    /// 7 points under the pointer or selected, 5.5 otherwise.
    pub radius: Single,
    /// A band that is off is drawn hollow.
    pub lit: bool,
    pub badge: &'static str,
}

impl HandleLook {
    pub open spec fn of(
        band: BandView,
        index: usize,
        selected: Option<usize>,
        hovered: Option<usize>,
        solo: Option<usize>,
    ) -> HandleLook {
        let active = selected == Some(band.slot);
        HandleLook {
            index,
            opacity: Single {
                bits: if !band.enabled {
                    0x3e99_999a
                } else if solo is Some && solo != Some(band.slot) {
                    0x3e80_0000
                } else {
                    0x3f80_0000
                },
            },
            selected: active,
            travels: band.dynamic && band.kind.has_gain(),
            grips: active && band.kind.resonant(),
            radius: Single {
                bits: if active || hovered == Some(band.slot) {
                    0x40e0_0000
                } else {
                    0x40b0_0000
                },
            },
            lit: band.enabled,
            badge: band.badge_text(),
        }
    }

    /// How the handles of the first `n` bands look, of those that are in the
    /// view on screen.
    pub open spec fn all(
        bands: Seq<BandView>,
        view: ChannelView,
        selected: Option<usize>,
        hovered: Option<usize>,
        solo: Option<usize>,
        n: int,
    ) -> Seq<HandleLook>
        decreases n,
    {
        if n <= 0 {
            Seq::empty()
        } else {
            let before = HandleLook::all(bands, view, selected, hovered, solo, n - 1);
            if bands[n - 1].visible_in(view) {
                before.push(
                    HandleLook::of(bands[n - 1], (n - 1) as usize, selected, hovered, solo),
                )
            } else {
                before
            }
        }
    }
}

fn handle_look(
    band: &BandView,
    index: usize,
    selected: Option<usize>,
    hovered: Option<usize>,
    solo: Option<usize>,
) -> (r: HandleLook)
    ensures
        r == HandleLook::of(*band, index, selected, hovered, solo),
{
    let active: bool = is_focus(selected, band.slot);
    let dimmed: bool = match solo {
        Some(s) => s != band.slot,
        None => false,
    };
    let opacity: u32 = if !band.enabled {
        0x3e99_999a
    } else if dimmed {
        0x3e80_0000
    } else {
        0x3f80_0000
    };
    let radius: u32 = if active || is_focus(hovered, band.slot) {
        0x40e0_0000
    } else {
        0x40b0_0000
    };
    HandleLook {
        index,
        opacity: Single { bits: opacity },
        selected: active,
        travels: band.dynamic && band.kind.uses_gain(),
        grips: active && band.kind.uses_q(),
        radius: Single { bits: radius },
        lit: band.enabled,
        badge: band.badge(),
    }
}

/// How every handle on screen looks, in the order they are drawn. A band that is
/// not in the view on screen has none.
pub fn draw_handles(
    bands: &Vec<BandView>,
    view: ChannelView,
    selected: Option<usize>,
    hovered: Option<usize>,
    solo: Option<usize>,
) -> (r: Vec<HandleLook>)
    ensures
        r@ == HandleLook::all(bands@, view, selected, hovered, solo, bands@.len() as int),
{
    let mut looks: Vec<HandleLook> = Vec::new();
    let mut i: usize = 0;
    while i < bands.len()
        invariant
            i <= bands@.len(),
            looks@ == HandleLook::all(bands@, view, selected, hovered, solo, i as int),
        decreases bands.len() - i,
    {
        if bands[i].in_view(view) {
            looks.push(handle_look(&bands[i], i, selected, hovered, solo));
        }
        i = i + 1;
    }
    looks
}

impl Slope {
    /// What a slope is called.
    pub fn label(self) -> (r: &'static str)
        ensures
            r@ == (match self {
                Slope::S12 => "12 dB/oct"@,
                Slope::S24 => "24 dB/oct"@,
                Slope::S36 => "36 dB/oct"@,
                Slope::S48 => "48 dB/oct"@,
                Slope::S72 => "72 dB/oct"@,
                Slope::S96 => "96 dB/oct"@,
            }),
    {
        match self {
            Slope::S12 => "12 dB/oct",
            Slope::S24 => "24 dB/oct",
            Slope::S36 => "36 dB/oct",
            Slope::S48 => "48 dB/oct",
            Slope::S72 => "72 dB/oct",
            Slope::S96 => "96 dB/oct",
        }
    }
}

/// A line of the floating read-out.
#[derive(Clone, Copy, Debug, PartialEq, Eq, Structural)]
pub enum Line {
    /// The frequency, and the channel of a band that acts on one only.
    Headline(Single, BandChannel),
    Gain(Single),
    Slope(Slope),
    Q(Single),
    DynRange(Single),
}

/// What the read-out says of a band: where it is, its gain or, for want of one,
/// its slope, its Q and its dynamics where it has them.
pub open spec fn lines_of(band: BandView) -> Seq<Line> {
    let head = seq![
        Line::Headline(band.freq, band.channel),
        if band.kind.has_gain() {
            Line::Gain(band.gain)
        } else {
            Line::Slope(band.slope)
        },
    ];
    let q = if band.kind.resonant() {
        head.push(Line::Q(band.q))
    } else {
        head
    };
    if band.dynamic && band.kind.has_gain() {
        q.push(Line::DynRange(band.dyn_range))
    } else {
        q
    }
}

/// A read-out: the band's place in the list, and what is said of it.
#[derive(Debug)]
pub struct BandReadout {
    pub index: usize,
    pub lines: Vec<Line>,
}

/// The place of a slot among the bands in a view, counting through the whole
/// list.
pub open spec fn shown_at(bands: Seq<BandView>, slot: usize, view: ChannelView) -> Option<int>
    decreases bands.len(),
{
    if bands.len() == 0 {
        None
    } else {
        match shown_at(bands.drop_last(), slot, view) {
            Some(i) => Some(i),
            None => if bands.last().slot == slot && bands.last().visible_in(view) {
                Some(bands.len() - 1)
            } else {
                None
            },
        }
    }
}

proof fn lemma_shown_at_stays(bands: Seq<BandView>, slot: usize, view: ChannelView, n: int)
    requires
        0 <= n <= bands.len(),
        shown_at(bands.take(n), slot, view) is Some,
    ensures
        shown_at(bands, slot, view) == shown_at(bands.take(n), slot, view),
    decreases bands.len(),
{
    if n < bands.len() {
        assert(bands.drop_last().take(n) =~= bands.take(n));
        lemma_shown_at_stays(bands.drop_last(), slot, view, n);
    } else {
        assert(bands.take(n) =~= bands);
    }
}

/// The floating read-out beside whichever band has the pointer, or else the
/// selected one.
pub fn draw_readout(
    bands: &Vec<BandView>,
    view: ChannelView,
    hovered: Option<usize>,
    selected: Option<usize>,
) -> (r: Option<BandReadout>)
    ensures
        ({
            let focus = if hovered is Some {
                hovered
            } else {
                selected
            };
            match r {
                Some(out) => {
                    &&& focus matches Some(slot) && shown_at(bands@, slot, view) == Some(
                        out.index as int,
                    )
                    &&& out.index < bands@.len()
                    &&& out.lines@ == lines_of(bands@[out.index as int])
                },
                None => focus matches Some(slot) ==> shown_at(bands@, slot, view) is None,
            }
        }),
{
    let slot: usize = match hovered {
        Some(slot) => slot,
        None => match selected {
            Some(slot) => slot,
            None => {
                return None;
            },
        },
    };
    let mut i: usize = 0;
    while i < bands.len()
        invariant
            i <= bands@.len(),
            shown_at(bands@.take(i as int), slot, view) is None,
            slot == (match hovered {
                Some(s) => s,
                None => selected->Some_0,
            }),
            hovered is Some || selected is Some,
        decreases bands.len() - i,
    {
        proof {
            let upto = bands@.take(i + 1);
            assert(upto.drop_last() =~= bands@.take(i as int));
            assert(upto.last() == bands@[i as int]);
        }
        if bands[i].slot == slot && bands[i].in_view(view) {
            proof {
                lemma_shown_at_stays(bands@, slot, view, i + 1);
            }
            let band: BandView = bands[i];
            let mut lines: Vec<Line> = Vec::new();
            lines.push(Line::Headline(band.freq, band.channel));
            if band.kind.uses_gain() {
                lines.push(Line::Gain(band.gain));
            } else {
                lines.push(Line::Slope(band.slope));
            }
            if band.kind.uses_q() {
                lines.push(Line::Q(band.q));
            }
            if band.dynamic && band.kind.uses_gain() {
                lines.push(Line::DynRange(band.dyn_range));
            }
            assert(lines@ =~= lines_of(band));
            return Some(BandReadout { index: i, lines });
        }
        i = i + 1;
    }
    assert(bands@.take(i as int) =~= bands@);
    None
}

impl HandleLook {
    /// How a handle shows its band: the band that is selected is marked and a little
    /// larger, as is the one under the pointer; a band that is off is drawn hollow
    /// and faint, and one that is silent because another is soloed fainter still.
    /// A shelf or a bell that is dynamic shows how far it travels, and the selected
    /// one shows grips when it is a bell, a notch or a band-pass.
    pub proof fn a_handle_shows_its_band(
        band: BandView,
        index: usize,
        selected: Option<usize>,
        hovered: Option<usize>,
        solo: Option<usize>,
    )
        ensures
            ({
                let look = HandleLook::of(band, index, selected, hovered, solo);
                let silent = solo is Some && solo != Some(band.slot);
                &&& look.index == index
                &&& look.selected <==> selected == Some(band.slot)
                &&& look.lit <==> band.enabled
                &&& look.travels <==> band.dynamic && (band.kind == BandKind::LowShelf || band.kind
                    == BandKind::Bell || band.kind == BandKind::HighShelf)
                &&& look.grips <==> look.selected && (band.kind == BandKind::Bell || band.kind
                    == BandKind::Notch || band.kind == BandKind::BandPass)
                &&& look.radius.bits == 0x40e0_0000 <==> selected == Some(band.slot) || hovered
                    == Some(band.slot)
                &&& look.radius.bits == 0x40b0_0000 <==> selected != Some(band.slot) && hovered
                    != Some(band.slot)
                &&& look.opacity.bits == 0x3f80_0000 <==> band.enabled && !silent
                &&& look.opacity.bits == 0x3e80_0000 <==> band.enabled && silent
                &&& look.opacity.bits == 0x3e99_999a <==> !band.enabled
                &&& look.badge@ == (match band.channel {
                    BandChannel::Stereo => ""@,
                    BandChannel::Left => "L"@,
                    BandChannel::Right => "R"@,
                    BandChannel::Mid => "M"@,
                    BandChannel::Side => "S"@,
                })
            }),
    {
    }

    /// Every handle that is drawn is of a band in the view, and looks as that band
    /// does.
    pub proof fn a_drawn_handle_is_of_a_band_in_view(
        bands: Seq<BandView>,
        view: ChannelView,
        selected: Option<usize>,
        hovered: Option<usize>,
        solo: Option<usize>,
        n: int,
        k: int,
    )
        requires
            0 <= n <= bands.len() <= usize::MAX,
            0 <= k < HandleLook::all(bands, view, selected, hovered, solo, n).len(),
        ensures
            ({
                let look = HandleLook::all(bands, view, selected, hovered, solo, n)[k];
                &&& look.index < n
                &&& bands[look.index as int].visible_in(view)
                &&& look == HandleLook::of(
                    bands[look.index as int],
                    look.index,
                    selected,
                    hovered,
                    solo,
                )
            }),
        decreases n,
    {
        if n > 0 && k < HandleLook::all(bands, view, selected, hovered, solo, n - 1).len() {
            HandleLook::a_drawn_handle_is_of_a_band_in_view(
                bands,
                view,
                selected,
                hovered,
                solo,
                n - 1,
                k,
            );
        }
    }

    /// Every band in the view has its handle drawn.
    pub proof fn a_band_in_view_has_a_handle(
        bands: Seq<BandView>,
        view: ChannelView,
        selected: Option<usize>,
        hovered: Option<usize>,
        solo: Option<usize>,
        n: int,
        i: int,
    )
        requires
            0 <= i < n <= bands.len() <= usize::MAX,
            bands[i].visible_in(view),
        ensures
            HandleLook::all(bands, view, selected, hovered, solo, n).contains(
                HandleLook::of(bands[i], i as usize, selected, hovered, solo),
            ),
        decreases n,
    {
        let all = HandleLook::all(bands, view, selected, hovered, solo, n);
        let wanted = HandleLook::of(bands[i], i as usize, selected, hovered, solo);
        if i < n - 1 {
            HandleLook::a_band_in_view_has_a_handle(
                bands,
                view,
                selected,
                hovered,
                solo,
                n - 1,
                i,
            );
            let before = HandleLook::all(bands, view, selected, hovered, solo, n - 1);
            let k = choose|k: int| 0 <= k < before.len() && before[k] == wanted;
            assert(all[k] == wanted);
        } else {
            assert(all[all.len() - 1] == wanted);
        }
    }
}

/// What the read-out says of a band: first where it is and on which channel, then
/// its gain if it is a shelf or a bell and its slope if it is not; the Q of a bell,
/// a notch or a band-pass; and how far a dynamic shelf or bell travels. It says
/// nothing else.
pub proof fn a_readout_says_what_the_band_has(band: BandView)
    ensures
        ({
            let lines = lines_of(band);
            let has_gain = band.kind == BandKind::LowShelf || band.kind == BandKind::Bell
                || band.kind == BandKind::HighShelf;
            let has_q = band.kind == BandKind::Bell || band.kind == BandKind::Notch || band.kind
                == BandKind::BandPass;
            &&& lines[0] == Line::Headline(band.freq, band.channel)
            &&& lines[1] == (if has_gain {
                Line::Gain(band.gain)
            } else {
                Line::Slope(band.slope)
            })
            &&& has_q ==> lines[2] == Line::Q(band.q)
            &&& has_gain && band.dynamic ==> lines.last() == Line::DynRange(band.dyn_range)
            &&& lines.len() == 2 + (if has_q {
                1int
            } else {
                0
            }) + (if has_gain && band.dynamic {
                1int
            } else {
                0
            })
        }),
{
}

/// A slot is shown at the first place where a band of it is in the view.
pub proof fn a_readout_is_of_the_first_in_view(
    bands: Seq<BandView>,
    slot: usize,
    view: ChannelView,
)
    ensures
        match shown_at(bands, slot, view) {
            Some(i) => {
                &&& 0 <= i < bands.len()
                &&& bands[i].slot == slot && bands[i].visible_in(view)
                &&& forall|j: int|
                    0 <= j < i ==> !((#[trigger] bands[j]).slot == slot && bands[j].visible_in(
                        view,
                    ))
            },
            None => forall|j: int|
                0 <= j < bands.len() ==> !((#[trigger] bands[j]).slot == slot
                    && bands[j].visible_in(view)),
        },
    decreases bands.len(),
{
    if bands.len() > 0 {
        let before = bands.drop_last();
        a_readout_is_of_the_first_in_view(before, slot, view);
        assert(forall|j: int| 0 <= j < before.len() ==> before[j] == #[trigger] bands[j]);
        match shown_at(before, slot, view) {
            Some(i) => {
                assert forall|j: int| 0 <= j < i implies !((#[trigger] bands[j]).slot == slot
                    && bands[j].visible_in(view)) by {
                    assert(before[j] == bands[j]);
                }
            },
            None => {
                assert forall|j: int| 0 <= j < before.len() implies !((
                #[trigger] bands[j]).slot == slot && bands[j].visible_in(view)) by {
                    assert(before[j] == bands[j]);
                }
                assert(bands[bands.len() - 1] == bands.last());
            },
        }
    }
}

/// What is kept is not good any more once any reading has changed: the bands, the
/// sample rate, the bypass or the view.
pub proof fn a_change_makes_the_cache_stale(
    key: CacheKey,
    bands: Seq<BandView>,
    sample_rate: Single,
    bypassed: bool,
    view: ChannelView,
    i: int,
)
    requires
        key.covers(bands, sample_rate, bypassed, view),
        0 <= i < bands.len(),
    ensures
        key.bypassed == bypassed,
        key.view == view,
        key.sample_rate.same(sample_rate),
        key.bands@.len() == bands.len(),
        ({
            let (a, b) = (key.bands@[i], bands[i]);
            &&& a.slot == b.slot && a.kind == b.kind && a.channel == b.channel && a.slope == b.slope
            &&& a.enabled == b.enabled && a.dynamic == b.dynamic && a.dyn_mode == b.dyn_mode
                && a.res_mode == b.res_mode
            &&& a.freq.same(b.freq) && a.gain.same(b.gain) && a.q.same(b.q)
            &&& a.dyn_range.same(b.dyn_range) && a.threshold.same(b.threshold)
            &&& a.attack.same(b.attack) && a.release.same(b.release)
            &&& a.resonance.same(b.resonance) && a.res_range.same(b.res_range)
            &&& a.res_sens.same(b.res_sens) && a.res_width.same(b.res_width)
            &&& a.res_attack.same(b.res_attack) && a.res_release.same(b.res_release)
        }),
{
    assert(key.bands@[i].agrees(bands[i]));
}

} // verus!
