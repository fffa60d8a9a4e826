//! The plot: what its pointer does, which curves it keeps, and how its handles
//! and read-outs are drawn.
//!
//! Where things are on screen, and what a place on screen means in hertz and
//! decibels, is worked out around the library; here the pointer arrives in the
//! units of the axes.

use vstd::prelude::*;

use crate::edit::{set_freq, set_gain, set_q, step_slope, Frame};
use crate::limits::BandFloat;
use crate::params::{
    BandChannel, BandKind, BandParams, BandWrite, Settings, Slope, TransientState, Write,
    MAX_BANDS,
};
use crate::recall::{add_band, remove_band};
use crate::single::Single;
use crate::state::{BandView, ChannelView};

verus! {

/// The Q range a handle's scroll wheel and drag can reach: 0.025 to 40.
pub const Q_MIN: u32 = 0x3ccc_cccd;

pub const Q_MAX: u32 = 0x4220_0000;

impl BandKind {
    /// Shelves are fixed at S = 1 in the engine, so exposing a Q for them would
    /// be a control that changes nothing.
    pub open spec fn resonant(self) -> bool {
        self == BandKind::Bell || self == BandKind::Notch || self == BandKind::BandPass
    }

    /// Does this type have a Q to set?
    pub fn uses_q(self) -> (r: bool)
        ensures
            r == self.resonant(),
    {
        matches!(self, BandKind::Bell | BandKind::Notch | BandKind::BandPass)
    }
}

/// A point of the plot, in the units of its axes.
#[derive(Clone, Copy, Debug, PartialEq, Eq, Structural)]
pub struct Point {
    pub freq: Single,
    pub db: Single,
}

/// What the wheel did.
#[derive(Clone, Copy, Debug, PartialEq, Eq, Structural)]
pub enum Wheel {
    Still,
    Up,
    Down,
}

/// What the pointer did to one handle this frame.
#[derive(Clone, Copy, Debug, PartialEq, Eq, Structural)]
pub struct HandleInput {
    /// The Q that dragging the left grip asks for, if it was dragged.
    pub left_grip: Option<Single>,
    /// And the right one.
    pub right_grip: Option<Single>,
    pub hovered: bool,
    pub clicked: bool,
    pub double_clicked: bool,
    /// A right-drag began on the handle.
    pub audition_started: bool,
    /// The frequency a right-drag has it at.
    pub swept_to: Option<Single>,
    /// Where a left-drag has it.
    pub dragged_to: Option<Point>,
    /// The Q one step of the wheel up, and one step down, would make of it.
    pub q_up: Single,
    pub q_down: Single,
}

/// What the pointer did to the plot this frame.
#[derive(Debug)]
pub struct PlotInput {
    /// Where the background was pressed, if it was.
    pub pressed: Option<Point>,
    /// Where a drag that began on the background has got to.
    pub dragged: Option<Point>,
    /// No such drag is going on any more.
    pub released: bool,
    /// Alt pins the gain, so a band can be swept without its level moving.
    pub alt: bool,
    /// One for each band, in the order of the band list.
    pub handles: Vec<HandleInput>,
    /// The right button is down.
    pub secondary_down: bool,
    pub background_hovered: bool,
    pub wheel: Wheel,
}

/// What the pointer is in the middle of, and what it has had done.
#[verifier::ext_equal]
pub struct Pointing {
    pub draft: Option<usize>,
    pub audition: Option<(usize, Option<usize>)>,
    pub hovered: Option<usize>,
    pub selected: Option<usize>,
    pub transient: TransientState,
    pub writes: Seq<Write>,
}

impl Pointing {
    /// One more number written to a slot.
    pub open spec fn says(self, slot: usize, f: BandFloat, v: Single) -> Pointing {
        Pointing {
            writes: self.writes + BandWrite::to_slot(slot, BandWrite::float(f, v)),
            ..self
        }
    }

    /// A press on the empty display creates a band under the pointer, while there
    /// is a slot for one and no other is being drawn.
    pub open spec fn press(
        self,
        bands: Seq<BandParams>,
        at: Option<Point>,
        can_add: bool,
        view: ChannelView,
    ) -> Pointing {
        match (at, crate::recall::first_free(bands)) {
            (Some(at), Some(slot)) => if can_add && self.draft is None {
                Pointing {
                    selected: Some(slot),
                    draft: Some(slot),
                    writes: self.writes + BandWrite::on_slot(
                        slot,
                        crate::recall::recall_list(
                            crate::recall::drawn_band(at.freq, at.db, view),
                        ),
                    ),
                    ..self
                }
            } else {
                self
            },
            _ => self,
        }
    }

    /// A band that was created under the pointer tracks it outright.
    pub open spec fn drag(self, to: Option<Point>) -> Pointing {
        match (self.draft, to) {
            (Some(slot), Some(to)) => self.says(slot, BandFloat::Freq, to.freq).says(
                slot,
                BandFloat::Gain,
                to.db,
            ),
            _ => self,
        }
    }

    /// Once nothing is being dragged, nothing is being drawn.
    pub open spec fn release(self, released: bool) -> Pointing {
        if released {
            Pointing { draft: None, ..self }
        } else {
            self
        }
    }

    /// The Q a grip asks for.
    pub open spec fn grip(self, slot: usize, q: Option<Single>) -> Pointing {
        match q {
            Some(q) => self.says(
                slot,
                BandFloat::Q,
                q.clamped(Single { bits: Q_MIN }, Single { bits: Q_MAX }),
            ),
            None => self,
        }
    }

    /// Both grips, which only the selected band shows, and only where a Q means
    /// something.
    pub open spec fn grips(self, band: BandView, h: HandleInput) -> Pointing {
        if self.selected == Some(band.slot) && band.kind.resonant() {
            self.grip(band.slot, h.left_grip).grip(band.slot, h.right_grip)
        } else {
            self
        }
    }

    /// Pointing at a handle, and choosing it.
    pub open spec fn choose_handle(self, slot: usize, h: HandleInput) -> Pointing {
        Pointing {
            hovered: if h.hovered {
                Some(slot)
            } else {
                self.hovered
            },
            selected: if h.clicked {
                Some(slot)
            } else {
                self.selected
            },
            ..self
        }
    }

    /// A double click takes the band away, and the selection with it.
    pub open spec fn take_away(self, slot: usize) -> Pointing {
        Pointing {
            writes: self.writes + BandWrite::to_slot(slot, seq![BandWrite::Active(false)]),
            transient: crate::recall::unsoloed(self.transient, slot),
            selected: if self.selected == Some(slot) {
                None
            } else {
                self.selected
            },
            ..self
        }
    }

    /// A right-drag solos the band for as long as the button is held, and keeps
    /// what was soloed before.
    pub open spec fn audition(self, slot: usize, started: bool) -> Pointing {
        if started {
            Pointing {
                audition: Some((slot, self.transient.soloed())),
                transient: TransientState { held: slot as i32, ..self.transient },
                selected: Some(slot),
                ..self
            }
        } else {
            self
        }
    }

    /// While it is held, the band's frequency is swept.
    pub open spec fn sweep(self, slot: usize, to: Option<Single>) -> Pointing {
        match to {
            Some(freq) => self.says(slot, BandFloat::Freq, freq),
            None => self,
        }
    }

    /// A left-drag moves the band: its frequency, and its gain where it has one
    /// that is not pinned.
    pub open spec fn move_handle(self, band: BandView, to: Option<Point>, alt: bool) -> Pointing {
        match to {
            Some(to) => {
                let moved = self.says(band.slot, BandFloat::Freq, to.freq);
                if band.kind.has_gain() && !alt {
                    moved.says(band.slot, BandFloat::Gain, to.db)
                } else {
                    moved
                }
            },
            None => self,
        }
    }

    /// Everything the pointer did to one handle. A band that is not drawn in the
    /// view on screen has none.
    pub open spec fn handle(
        self,
        band: BandView,
        h: HandleInput,
        view: ChannelView,
        alt: bool,
    ) -> Pointing {
        if !band.visible_in(view) {
            self
        } else {
            let chosen = self.grips(band, h).choose_handle(band.slot, h);
            if h.double_clicked {
                chosen.take_away(band.slot)
            } else {
                chosen.audition(band.slot, h.audition_started).sweep(
                    band.slot,
                    h.swept_to,
                ).move_handle(band, h.dragged_to, alt)
            }
        }
    }

    /// Everything the pointer did to the first `n` handles.
    pub open spec fn handles(
        self,
        bands: Seq<BandView>,
        hs: Seq<HandleInput>,
        view: ChannelView,
        alt: bool,
        n: int,
    ) -> Pointing
        decreases n,
    {
        if n <= 0 {
            self
        } else {
            self.handles(bands, hs, view, alt, n - 1).handle(bands[n - 1], hs[n - 1], view, alt)
        }
    }

    /// Once the right button is up, whatever was soloed before an audition comes
    /// back.
    pub open spec fn settle(self, secondary_down: bool) -> Pointing {
        match self.audition {
            Some((_, previous)) => if !secondary_down {
                Pointing {
                    audition: None,
                    transient: TransientState {
                        held: match previous {
                            Some(slot) => slot as i32,
                            None => -1i32,
                        },
                        ..self.transient
                    },
                    ..self
                }
            } else {
                self
            },
            None => self,
        }
    }

    /// The band the wheel acts on: the one under the pointer, or the selected one.
    pub open spec fn focus(self) -> Option<usize> {
        if self.hovered is Some {
            self.hovered
        } else {
            self.selected
        }
    }

    /// The wheel turns the Q of the resonant types and the slope of the cuts.
    /// Scrolling up opens the filter out.
    pub open spec fn scroll(
        self,
        live: Seq<BandParams>,
        bands: Seq<BandView>,
        hs: Seq<HandleInput>,
        over: bool,
        wheel: Wheel,
    ) -> Pointing {
        match (self.focus(), position_of(bands, self.focus())) {
            (Some(slot), Some(i)) => {
                let band = bands[i];
                let up = wheel == Wheel::Up;
                if wheel == Wheel::Still || !(over || self.hovered is Some) {
                    self
                } else if band.kind.cuts() {
                    if slot < live.len() {
                        Pointing {
                            writes: self.writes + seq![
                                Write::Band(
                                    slot,
                                    BandWrite::Slope(
                                        live[slot as int].slope.stepped(
                                            if up {
                                                -1
                                            } else {
                                                1
                                            },
                                        ),
                                    ),
                                ),
                            ],
                            ..self
                        }
                    } else {
                        self
                    }
                } else if band.kind.resonant() {
                    let q = if up {
                        hs[i].q_up
                    } else {
                        hs[i].q_down
                    };
                    self.says(
                        slot,
                        BandFloat::Q,
                        q.clamped(Single { bits: Q_MIN }, Single { bits: Q_MAX }),
                    )
                } else {
                    self
                }
            },
            _ => self,
        }
    }

    /// Everything the pointer did in a frame.
    pub open spec fn interact(
        self,
        live: Seq<BandParams>,
        input: PlotInput,
        bands: Seq<BandView>,
        view: ChannelView,
    ) -> Pointing {
        let drawn = self.press(live, input.pressed, bands.len() < MAX_BANDS, view).drag(
            input.dragged,
        ).release(input.released);
        let touched = Pointing { hovered: None, ..drawn }.handles(
            bands,
            input.handles@,
            view,
            input.alt,
            bands.len() as int,
        ).settle(input.secondary_down);
        touched.scroll(live, bands, input.handles@, input.background_hovered, input.wheel)
    }
}

/// Where in the band list a slot is, counting from the front.
pub open spec fn position_of(bands: Seq<BandView>, slot: Option<usize>) -> Option<int>
    decreases bands.len(),
{
    if bands.len() == 0 || slot is None {
        None
    } else {
        match position_of(bands.drop_last(), slot) {
            Some(i) => Some(i),
            None => if Some(bands.last().slot) == slot {
                Some(bands.len() - 1)
            } else {
                None
            },
        }
    }
}

/// Where in the band list a slot is, counting from the front.
pub fn find_band(bands: &Vec<BandView>, slot: Option<usize>) -> (r: Option<usize>)
    ensures
        match r {
            Some(i) => position_of(bands@, slot) == Some(i as int) && i < bands@.len()
                && Some(bands@[i as int].slot) == slot,
            None => position_of(bands@, slot) is None,
        },
{
    match slot {
        None => None,
        Some(wanted) => {
            let mut i: usize = 0;
            while i < bands.len()
                invariant
                    i <= bands@.len(),
                    slot == Some(wanted),
                    position_of(bands@.take(i as int), slot) is None,
                decreases bands.len() - i,
            {
                proof {
                    let upto = bands@.take(i + 1);
                    assert(upto.drop_last() =~= bands@.take(i as int));
                    assert(upto.last() == bands@[i as int]);
                }
                if bands[i].slot == wanted {
                    proof {
                        lemma_position_stays(bands@, slot, i + 1);
                    }
                    return Some(i);
                }
                i = i + 1;
            }
            assert(bands@.take(i as int) =~= bands@);
            None
        },
    }
}

/// A slot is found at the first place it stands in the list, and a slot that is
/// nowhere in the list is not found.
pub proof fn a_slot_is_found_where_it_first_stands(bands: Seq<BandView>, i: int)
    requires
        0 <= i < bands.len(),
        forall|j: int| 0 <= j < i ==> (#[trigger] bands[j]).slot != bands[i].slot,
    ensures
        position_of(bands, Some(bands[i].slot)) == Some(i),
        position_of(bands, None) is None,
    decreases bands.len(),
{
    let slot = Some(bands[i].slot);
    let before = bands.drop_last();
    if i < bands.len() - 1 {
        assert(before[i] == bands[i]);
        assert forall|j: int| 0 <= j < i implies (#[trigger] before[j]).slot != before[i].slot by {
            assert(before[j] == bands[j]);
        }
        a_slot_is_found_where_it_first_stands(before, i);
    } else {
        assert forall|j: int| 0 <= j < before.len() implies (
        #[trigger] before[j]).slot != bands[i].slot by {
            assert(before[j] == bands[j]);
        }
        a_slot_that_is_not_listed_is_not_found(before, bands[i].slot);
    }
}

/// What is found under a slot is a band of that slot.
pub proof fn what_is_found_has_the_slot(bands: Seq<BandView>, slot: usize)
    ensures
        position_of(bands, Some(slot)) matches Some(i) ==> 0 <= i < bands.len() && bands[i].slot
            == slot,
    decreases bands.len(),
{
    if bands.len() > 0 {
        what_is_found_has_the_slot(bands.drop_last(), slot);
    }
}

/// A slot that no band of the list has is not found.
pub proof fn a_slot_that_is_not_listed_is_not_found(bands: Seq<BandView>, slot: usize)
    requires
        forall|j: int| 0 <= j < bands.len() ==> (#[trigger] bands[j]).slot != slot,
    ensures
        position_of(bands, Some(slot)) is None,
    decreases bands.len(),
{
    if bands.len() > 0 {
        let before = bands.drop_last();
        assert forall|j: int| 0 <= j < before.len() implies (#[trigger] before[j]).slot != slot by {
            assert(before[j] == bands[j]);
        }
        assert(bands[bands.len() - 1].slot != slot);
        a_slot_that_is_not_listed_is_not_found(before, slot);
    }
}

proof fn lemma_position_stays(bands: Seq<BandView>, slot: Option<usize>, n: int)
    requires
        0 <= n <= bands.len(),
        position_of(bands.take(n), slot) is Some,
    ensures
        position_of(bands, slot) == position_of(bands.take(n), slot),
    decreases bands.len(),
{
    if n < bands.len() {
        let shorter = bands.drop_last();
        assert(shorter.take(n) =~= bands.take(n));
        lemma_position_stays(shorter, slot, n);
    } else {
        assert(bands.take(n) =~= bands);
    }
}

/// What the plot keeps of the pointer between frames.
#[derive(Clone, Copy, Debug)]
pub struct Display {
    /// The band a press created and is still dragging, if any.
    pub draft: Option<usize>,
    /// The band being auditioned with a right-drag, and what was soloed before.
    pub audition: Option<(usize, Option<usize>)>,
    /// The band under the pointer, if any.
    pub hovered: Option<usize>,
}

impl Display {
    /// Everything the pointer knows and has had done, all in one place.
    pub open spec fn pointing(self, frame: Frame, selected: Option<usize>) -> Pointing {
        Pointing {
            draft: self.draft,
            audition: self.audition,
            hovered: self.hovered,
            selected,
            transient: frame.transient,
            writes: frame.setter@,
        }
    }

    pub fn new() -> (r: Display)
        ensures
            r.draft is None,
            r.audition is None,
            r.hovered is None,
    {
        Display { draft: None, audition: None, hovered: None }
    }

    /// The band under the pointer, if any: what the wheel and the band panel
    /// treat as focused when nothing is selected.
    pub fn hovered(&self) -> (r: Option<usize>)
        ensures
            r == self.hovered,
    {
        self.hovered
    }

    fn draw(
        &mut self,
        frame: &mut Frame,
        input: &PlotInput,
        can_add: bool,
        view: ChannelView,
        selected: &mut Option<usize>,
    )
        requires
            old(frame).setter.orderly(),
        ensures
            final(frame).setter.orderly(),
            final(frame).params == old(frame).params,
            final(self).pointing(*final(frame), *final(selected)) == old(self).pointing(
                *old(frame),
                *old(selected),
            ).press(old(frame).params.bands@, input.pressed, can_add, view).drag(
                input.dragged,
            ).release(input.released),
    {
        if let Some(at) = input.pressed {
            if can_add && self.draft.is_none() {
                let slot: Option<usize> = add_band(frame, at.freq, at.db, view);
                match slot {
                    Some(slot) => {
                        *selected = Some(slot);
                        self.draft = Some(slot);
                    },
                    None => {
                        assert(frame.setter@ =~= old(frame).setter@);
                    },
                }
            }
        }
        assert(self.pointing(*frame, *selected) == old(self).pointing(
            *old(frame),
            *old(selected),
        ).press(old(frame).params.bands@, input.pressed, can_add, view));
        if let Some(slot) = self.draft {
            if let Some(to) = input.dragged {
                set_freq(frame, slot, to.freq);
                set_gain(frame, slot, to.db);
            }
        }
        if input.released {
            self.draft = None;
        }
    }

    fn drag_grip(&self, frame: &mut Frame, slot: usize, q: Option<Single>, selected: Option<usize>)
        requires
            old(frame).setter.orderly(),
        ensures
            final(frame).setter.orderly(),
            final(frame).params == old(frame).params,
            self.pointing(*final(frame), selected) == self.pointing(*old(frame), selected).grip(
                slot,
                q,
            ),
    {
        if let Some(q) = q {
            set_q(frame, slot, q.clamp(Single { bits: Q_MIN }, Single { bits: Q_MAX }));
        }
    }

    fn touch(
        &mut self,
        frame: &mut Frame,
        band: &BandView,
        h: &HandleInput,
        view: ChannelView,
        alt: bool,
        selected: &mut Option<usize>,
    )
        requires
            old(frame).setter.orderly(),
        ensures
            final(frame).setter.orderly(),
            final(frame).params == old(frame).params,
            final(self).pointing(*final(frame), *final(selected)) == old(self).pointing(
                *old(frame),
                *old(selected),
            ).handle(*band, *h, view, alt),
    {
        if !band.in_view(view) {
            return ;
        }
        let slot: usize = band.slot;
        if is_slot(*selected, slot) && band.kind.uses_q() {
            self.drag_grip(frame, slot, h.left_grip, *selected);
            self.drag_grip(frame, slot, h.right_grip, *selected);
        }
        let ghost gripped = self.pointing(*frame, *selected);
        if h.hovered {
            self.hovered = Some(slot);
        }
        if h.clicked {
            *selected = Some(slot);
        }
        assert(self.pointing(*frame, *selected) == gripped.choose_handle(slot, *h));
        if h.double_clicked {
            remove_band(frame, slot);
            if is_slot(*selected, slot) {
                *selected = None;
            }
            return ;
        }
        let ghost chosen = self.pointing(*frame, *selected);
        if h.audition_started {
            let previous: Option<usize> = frame.transient.solo();
            self.audition = Some((slot, previous));
            frame.transient.set_solo(Some(slot));
            *selected = Some(slot);
        }
        assert(self.pointing(*frame, *selected) == chosen.audition(slot, h.audition_started));
        let ghost soloed = self.pointing(*frame, *selected);
        if let Some(freq) = h.swept_to {
            set_freq(frame, slot, freq);
        }
        assert(self.pointing(*frame, *selected) == soloed.sweep(slot, h.swept_to));
        if let Some(to) = h.dragged_to {
            set_freq(frame, slot, to.freq);
            if band.kind.uses_gain() && !alt {
                set_gain(frame, slot, to.db);
            }
        }
    }

    fn settle(&mut self, frame: &mut Frame, secondary_down: bool, selected: Option<usize>)
        requires
            old(frame).setter.orderly(),
        ensures
            final(frame).setter.orderly(),
            final(frame).params == old(frame).params,
            final(self).pointing(*final(frame), selected) == old(self).pointing(
                *old(frame),
                selected,
            ).settle(secondary_down),
    {
        if let Some((_, previous)) = self.audition {
            if !secondary_down {
                frame.transient.set_solo(previous);
                self.audition = None;
            }
        }
    }

    fn scroll(
        &self,
        frame: &mut Frame,
        input: &PlotInput,
        bands: &Vec<BandView>,
        selected: Option<usize>,
    )
        requires
            old(frame).setter.orderly(),
            input.handles@.len() == bands@.len(),
        ensures
            final(frame).setter.orderly(),
            final(frame).params == old(frame).params,
            self.pointing(*final(frame), selected) == self.pointing(
                *old(frame),
                selected,
            ).scroll(
                old(frame).params.bands@,
                bands@,
                input.handles@,
                input.background_hovered,
                input.wheel,
            ),
    {
        let focus: Option<usize> = if self.hovered.is_some() {
            self.hovered
        } else {
            selected
        };
        let up: bool = match input.wheel {
            Wheel::Still => {
                return ;
            },
            Wheel::Up => true,
            Wheel::Down => false,
        };
        if !(input.background_hovered || self.hovered.is_some()) {
            return ;
        }
        if let Some(i) = find_band(bands, focus) {
            let slot: usize = bands[i].slot;
            if bands[i].kind.is_cut() {
                step_slope(
                    frame,
                    slot,
                    if up {
                        -1
                    } else {
                        1
                    },
                );
                assert(slot >= MAX_BANDS ==> frame.setter@ =~= old(frame).setter@);
            } else if bands[i].kind.uses_q() {
                let q: Single = if up {
                    input.handles[i].q_up
                } else {
                    input.handles[i].q_down
                };
                set_q(frame, slot, q.clamp(Single { bits: Q_MIN }, Single { bits: Q_MAX }));
            }
        }
    }

    /// Do what the pointer asks for.
    pub fn interact(
        &mut self,
        frame: &mut Frame,
        input: &PlotInput,
        bands: &Vec<BandView>,
        view: ChannelView,
        selected: &mut Option<usize>,
    )
        requires
            old(frame).setter.orderly(),
            input.handles@.len() == bands@.len(),
        ensures
            final(frame).setter.orderly(),
            final(frame).params == old(frame).params,
            final(self).pointing(*final(frame), *final(selected)) == old(self).pointing(
                *old(frame),
                *old(selected),
            ).interact(old(frame).params.bands@, *input, bands@, view),
    {
        self.draw(frame, input, bands.len() < MAX_BANDS, view, selected);
        self.hovered = None;
        let ghost start = self.pointing(*frame, *selected);
        let mut i: usize = 0;
        while i < bands.len()
            invariant
                i <= bands@.len() == input.handles@.len(),
                frame.setter.orderly(),
                frame.params == old(frame).params,
                self.pointing(*frame, *selected) == start.handles(
                    bands@,
                    input.handles@,
                    view,
                    input.alt,
                    i as int,
                ),
            decreases bands.len() - i,
        {
            self.touch(frame, &bands[i], &input.handles[i], view, input.alt, selected);
            i = i + 1;
        }
        self.settle(frame, input.secondary_down, *selected);
        self.scroll(frame, input, bands, *selected);
    }
}

fn is_slot(selected: Option<usize>, slot: usize) -> (r: bool)
    ensures
        r == (selected == Some(slot)),
{
    match selected {
        Some(s) => s == slot,
        None => false,
    }
}

impl Pointing {
    /// Compared with an earlier state, nothing was written but to one slot.
    pub open spec fn only_wrote_to(self, before: Pointing, slot: usize) -> bool {
        &&& before.writes.len() <= self.writes.len()
        &&& self.writes.take(before.writes.len() as int) == before.writes
        &&& forall|i: int|
            before.writes.len() <= i < self.writes.len() ==> {
                (#[trigger] self.writes[i]) matches Write::Band(s, _) && s == slot
            }
    }

    proof fn lemma_two_steps(self, middle: Pointing, before: Pointing, slot: usize)
        requires
            self.only_wrote_to(middle, slot),
            middle.only_wrote_to(before, slot),
        ensures
            self.only_wrote_to(before, slot),
    {
        assert(self.writes.take(before.writes.len() as int) =~= before.writes) by {
            assert forall|i: int| 0 <= i < before.writes.len() implies self.writes[i]
                == before.writes[i] by {
                assert(self.writes.take(middle.writes.len() as int)[i] == middle.writes[i]);
                assert(middle.writes.take(before.writes.len() as int)[i] == before.writes[i]);
            }
        }
        assert forall|i: int| before.writes.len() <= i < self.writes.len() implies {
            (#[trigger] self.writes[i]) matches Write::Band(s, _) && s == slot
        } by {
            if i < middle.writes.len() {
                assert(self.writes.take(middle.writes.len() as int)[i] == middle.writes[i]);
            }
        }
    }

    proof fn lemma_saying_writes_to_the_slot(self, slot: usize, f: BandFloat, v: Single)
        ensures
            self.says(slot, f, v).only_wrote_to(self, slot),
    {
        let said = self.says(slot, f, v);
        assert(said.writes.take(self.writes.len() as int) =~= self.writes);
    }

    proof fn lemma_nothing_written(self, before: Pointing, slot: usize)
        requires
            self.writes == before.writes,
        ensures
            self.only_wrote_to(before, slot),
    {
        assert(self.writes.take(before.writes.len() as int) =~= before.writes);
    }

    proof fn lemma_gripping_writes_to_the_slot(self, slot: usize, q: Option<Single>)
        ensures
            self.grip(slot, q).only_wrote_to(self, slot),
    {
        match q {
            Some(q) => self.lemma_saying_writes_to_the_slot(
                slot,
                BandFloat::Q,
                q.clamped(Single { bits: Q_MIN }, Single { bits: Q_MAX }),
            ),
            None => self.lemma_nothing_written(self, slot),
        }
    }

    /// Whatever is done to a handle, no other band is touched; and a handle that
    /// is not on screen does nothing at all.
    pub proof fn a_handle_touches_only_its_band(
        self,
        band: BandView,
        h: HandleInput,
        view: ChannelView,
        alt: bool,
    )
        ensures
            self.handle(band, h, view, alt).only_wrote_to(self, band.slot),
            !band.visible_in(view) ==> self.handle(band, h, view, alt) == self,
    {
        let slot = band.slot;
        if band.visible_in(view) {
            let gripped = self.grips(band, h);
            self.lemma_gripping_writes_to_the_slot(slot, h.left_grip);
            let left = self.grip(slot, h.left_grip);
            left.lemma_gripping_writes_to_the_slot(slot, h.right_grip);
            left.grip(slot, h.right_grip).lemma_two_steps(left, self, slot);
            self.lemma_nothing_written(self, slot);
            assert(gripped.only_wrote_to(self, slot));
            let chosen = gripped.choose_handle(slot, h);
            chosen.lemma_nothing_written(gripped, slot);
            chosen.lemma_two_steps(gripped, self, slot);
            if h.double_clicked {
                let gone = chosen.take_away(slot);
                assert(gone.writes.take(chosen.writes.len() as int) =~= chosen.writes);
                assert(gone.only_wrote_to(chosen, slot));
                gone.lemma_two_steps(chosen, self, slot);
            } else {
                let soloed = chosen.audition(slot, h.audition_started);
                soloed.lemma_nothing_written(chosen, slot);
                soloed.lemma_two_steps(chosen, self, slot);
                let swept = soloed.sweep(slot, h.swept_to);
                match h.swept_to {
                    Some(freq) => soloed.lemma_saying_writes_to_the_slot(
                        slot,
                        BandFloat::Freq,
                        freq,
                    ),
                    None => swept.lemma_nothing_written(soloed, slot),
                }
                swept.lemma_two_steps(soloed, self, slot);
                let moved = swept.move_handle(band, h.dragged_to, alt);
                match h.dragged_to {
                    Some(to) => {
                        let once = swept.says(slot, BandFloat::Freq, to.freq);
                        swept.lemma_saying_writes_to_the_slot(slot, BandFloat::Freq, to.freq);
                        once.lemma_saying_writes_to_the_slot(slot, BandFloat::Gain, to.db);
                        once.says(slot, BandFloat::Gain, to.db).lemma_two_steps(
                            once,
                            swept,
                            slot,
                        );
                    },
                    None => moved.lemma_nothing_written(swept, slot),
                }
                moved.lemma_two_steps(swept, self, slot);
            }
        } else {
            self.lemma_nothing_written(self, slot);
        }
    }

    /// An audition is not a toggle: whatever was soloed before it is soloed after
    /// it.
    pub proof fn an_audition_gives_back_the_solo(self, slot: usize)
        requires
            slot < MAX_BANDS,
        ensures
            self.audition(slot, true).transient.soloed() == Some(slot),
            self.audition(slot, true).settle(false).transient.soloed()
                == self.transient.soloed(),
            self.audition(slot, true).settle(false).audition is None,
    {
    }

    proof fn lemma_handles_keep_an_audition(
        self,
        bands: Seq<BandView>,
        hs: Seq<HandleInput>,
        view: ChannelView,
        alt: bool,
        n: int,
    )
        requires
            n <= hs.len(),
            forall|i: int| 0 <= i < hs.len() ==> !(#[trigger] hs[i]).audition_started,
        ensures
            self.handles(bands, hs, view, alt, n).audition == self.audition,
        decreases n,
    {
        if n > 0 {
            self.lemma_handles_keep_an_audition(bands, hs, view, alt, n - 1);
            assert(!hs[n - 1].audition_started);
        }
    }

    /// While the button is held, what was soloed before the audition is kept for
    /// later.
    pub proof fn an_audition_is_kept_while_held(
        self,
        live: Seq<BandParams>,
        input: PlotInput,
        bands: Seq<BandView>,
        view: ChannelView,
    )
        requires
            input.handles@.len() == bands.len(),
            input.secondary_down,
            forall|i: int|
                0 <= i < input.handles@.len() ==> !(
                #[trigger] input.handles@[i]).audition_started,
        ensures
            self.interact(live, input, bands, view).audition == self.audition,
    {
        let drawn = self.press(live, input.pressed, bands.len() < MAX_BANDS, view).drag(
            input.dragged,
        ).release(input.released);
        assert(drawn.audition == self.audition);
        Pointing { hovered: None, ..drawn }.lemma_handles_keep_an_audition(
            bands,
            input.handles@,
            view,
            input.alt,
            bands.len() as int,
        );
    }

    proof fn lemma_handles_keep_the_draft(
        self,
        bands: Seq<BandView>,
        hs: Seq<HandleInput>,
        view: ChannelView,
        alt: bool,
        n: int,
    )
        ensures
            self.handles(bands, hs, view, alt, n).draft == self.draft,
        decreases n,
    {
        if n > 0 {
            self.lemma_handles_keep_the_draft(bands, hs, view, alt, n - 1);
        }
    }

    /// Once the pointer lets go, no band is being drawn.
    pub proof fn nothing_is_drawn_after_release(
        self,
        live: Seq<BandParams>,
        input: PlotInput,
        bands: Seq<BandView>,
        view: ChannelView,
    )
        requires
            input.released,
        ensures
            self.interact(live, input, bands, view).draft is None,
    {
        let drawn = self.press(live, input.pressed, bands.len() < MAX_BANDS, view).drag(
            input.dragged,
        ).release(input.released);
        Pointing { hovered: None, ..drawn }.lemma_handles_keep_the_draft(
            bands,
            input.handles@,
            view,
            input.alt,
            bands.len() as int,
        );
    }

    proof fn lemma_saying(self, p: Settings, slot: usize, f: BandFloat, v: Single)
        requires
            p.bands.len() == MAX_BANDS,
            slot < MAX_BANDS,
        ensures
            p.after(self.says(slot, f, v).writes).bands[slot as int] == (if v.finite() {
                p.after(self.writes).bands[slot as int].with(BandWrite::Float(f, v))
            } else {
                p.after(self.writes).bands[slot as int]
            }),
    {
        p.writing_keeps_the_slots(self.writes);
        p.after_writes_to_a_slot(self.writes, slot, BandWrite::float(f, v));
        p.after(self.writes).bands[slot as int].after_one_write(BandWrite::Float(f, v));
    }

    proof fn lemma_grips_leave_this(self, p: Settings, band: BandView, h: HandleInput)
        requires
            p.bands.len() == MAX_BANDS,
            band.slot < MAX_BANDS,
        ensures
            ({
                let before = p.after(self.writes).bands[band.slot as int];
                let after = p.after(self.grips(band, h).writes).bands[band.slot as int];
                let gripped = self.selected == Some(band.slot) && band.kind.resonant();
                let left = h.left_grip->0.clamped(Single { bits: Q_MIN }, Single { bits: Q_MAX });
                let right = h.right_grip->0.clamped(Single { bits: Q_MIN }, Single { bits: Q_MAX });
                after == (BandParams {
                    q: if gripped && h.right_grip is Some && right.finite() {
                        right
                    } else if gripped && h.left_grip is Some && left.finite() {
                        left
                    } else {
                        before.q
                    },
                    ..before
                })
            }),
    {
        let least = Single { bits: Q_MIN };
        let most = Single { bits: Q_MAX };
        let left = self.grip(band.slot, h.left_grip);
        if h.left_grip is Some {
            self.lemma_saying(p, band.slot, BandFloat::Q, h.left_grip->0.clamped(least, most));
        }
        if h.right_grip is Some {
            left.lemma_saying(p, band.slot, BandFloat::Q, h.right_grip->0.clamped(least, most));
        }
    }

    proof fn lemma_moving_leaves_this(
        self,
        p: Settings,
        band: BandView,
        swept_to: Option<Single>,
        dragged_to: Option<Point>,
        alt: bool,
    )
        requires
            p.bands.len() == MAX_BANDS,
            band.slot < MAX_BANDS,
        ensures
            ({
                let before = p.after(self.writes).bands[band.slot as int];
                let moved = self.sweep(band.slot, swept_to).move_handle(band, dragged_to, alt);
                let after = p.after(moved.writes).bands[band.slot as int];
                after == (BandParams {
                    freq: if dragged_to is Some && dragged_to->0.freq.finite() {
                        dragged_to->0.freq
                    } else if swept_to is Some && swept_to->0.finite() {
                        swept_to->0
                    } else {
                        before.freq
                    },
                    gain: if dragged_to is Some && band.kind.has_gain() && !alt
                        && dragged_to->0.db.finite() {
                        dragged_to->0.db
                    } else {
                        before.gain
                    },
                    ..before
                })
            }),
    {
        let slot = band.slot;
        if swept_to is Some {
            self.lemma_saying(p, slot, BandFloat::Freq, swept_to->0);
        }
        let swept = self.sweep(slot, swept_to);
        if dragged_to is Some {
            let to = dragged_to->0;
            let moved = swept.says(slot, BandFloat::Freq, to.freq);
            swept.lemma_saying(p, slot, BandFloat::Freq, to.freq);
            moved.lemma_saying(p, slot, BandFloat::Gain, to.db);
        }
    }

    proof fn lemma_taking_away_leaves_this(self, p: Settings, slot: usize)
        requires
            p.bands.len() == MAX_BANDS,
            slot < MAX_BANDS,
        ensures
            p.after(self.take_away(slot).writes).bands[slot as int] == (BandParams {
                active: false,
                ..p.after(self.writes).bands[slot as int]
            }),
    {
        p.writing_keeps_the_slots(self.writes);
        p.after_writes_to_a_slot(self.writes, slot, seq![BandWrite::Active(false)]);
        p.after(self.writes).bands[slot as int].after_one_write(BandWrite::Active(false));
    }

    /// A left-drag leaves the band exactly where the pointer is: at its frequency,
    /// and at its level where the shape has a gain and nothing pins it. The gain
    /// of a cut, a notch or a band-pass never moves, and neither does one that is
    /// pinned.
    pub proof fn a_dragged_handle_follows_the_pointer(
        self,
        p: Settings,
        band: BandView,
        h: HandleInput,
        view: ChannelView,
        alt: bool,
        to: Point,
    )
        requires
            p.bands.len() == MAX_BANDS,
            band.slot < MAX_BANDS,
            view == ChannelView::All || band.channel == BandChannel::Stereo || match view {
                ChannelView::All => true,
                ChannelView::Left => band.channel == BandChannel::Left,
                ChannelView::Right => band.channel == BandChannel::Right,
                ChannelView::Mid => band.channel == BandChannel::Mid,
                ChannelView::Side => band.channel == BandChannel::Side,
            },
            !h.double_clicked,
            h.dragged_to == Some(to),
            to.freq.finite(),
            to.db.finite(),
        ensures
            ({
                let before = p.after(self.writes).bands[band.slot as int];
                let after = p.after(self.handle(band, h, view, alt).writes).bands[band.slot as int];
                let has_gain = band.kind == BandKind::LowShelf || band.kind == BandKind::Bell
                    || band.kind == BandKind::HighShelf;
                &&& after.freq == to.freq
                &&& has_gain && !alt ==> after.gain == to.db
                &&& !has_gain || alt ==> after.gain == before.gain
            }),
    {
        self.a_handle_leaves_this(p, band, h, view, alt);
    }

    /// What becomes of a band whose handle is on screen: a double click takes it
    /// out of use; otherwise its frequency is where the left-drag has it, or else
    /// the right-drag, and its gain where the left-drag has it, if it has one that
    /// is not pinned. Its Q is what the grips ask for, which only the selected
    /// band has, and only a bell, a notch or a band-pass; the right grip has the
    /// last word, and no Q leaves 0.025 to 40. Nothing else about it changes.
    pub proof fn a_handle_leaves_this(
        self,
        p: Settings,
        band: BandView,
        h: HandleInput,
        view: ChannelView,
        alt: bool,
    )
        requires
            p.bands.len() == MAX_BANDS,
            band.slot < MAX_BANDS,
            view == ChannelView::All || band.channel == BandChannel::Stereo || match view {
                ChannelView::All => true,
                ChannelView::Left => band.channel == BandChannel::Left,
                ChannelView::Right => band.channel == BandChannel::Right,
                ChannelView::Mid => band.channel == BandChannel::Mid,
                ChannelView::Side => band.channel == BandChannel::Side,
            },
        ensures
            ({
                let before = p.after(self.writes).bands[band.slot as int];
                let after = p.after(self.handle(band, h, view, alt).writes).bands[band.slot as int];
                let has_gain = band.kind == BandKind::LowShelf || band.kind == BandKind::Bell
                    || band.kind == BandKind::HighShelf;
                let has_q = band.kind == BandKind::Bell || band.kind == BandKind::Notch
                    || band.kind == BandKind::BandPass;
                let gripped = self.selected == Some(band.slot) && has_q;
                let least = Single { bits: 0x3ccc_cccd };
                let most = Single { bits: 0x4220_0000 };
                let dragged = !h.double_clicked && h.dragged_to is Some;
                let swept = !h.double_clicked && h.swept_to is Some;
                &&& after == (BandParams {
                    active: after.active,
                    freq: after.freq,
                    gain: after.gain,
                    q: after.q,
                    ..before
                })
                &&& after.active == (before.active && !h.double_clicked)
                &&& after.freq == (if dragged && h.dragged_to->0.freq.finite() {
                    h.dragged_to->0.freq
                } else if swept && h.swept_to->0.finite() {
                    h.swept_to->0
                } else {
                    before.freq
                })
                &&& after.gain == (if dragged && has_gain && !alt && h.dragged_to->0.db.finite() {
                    h.dragged_to->0.db
                } else {
                    before.gain
                })
                &&& after.q == (if gripped && h.right_grip is Some && h.right_grip->0.clamped(
                    least,
                    most,
                ).finite() {
                    h.right_grip->0.clamped(least, most)
                } else if gripped && h.left_grip is Some && h.left_grip->0.clamped(
                    least,
                    most,
                ).finite() {
                    h.left_grip->0.clamped(least, most)
                } else {
                    before.q
                })
            }),
    {
        self.lemma_grips_leave_this(p, band, h);
        let chosen = self.grips(band, h).choose_handle(band.slot, h);
        chosen.lemma_taking_away_leaves_this(p, band.slot);
        chosen.audition(band.slot, h.audition_started).lemma_moving_leaves_this(
            p,
            band,
            h.swept_to,
            h.dragged_to,
            alt,
        );
    }

    /// What a handle on screen does beside the parameters. Pointing at it makes it
    /// the band under the pointer, and a click selects it. A right-drag that begins
    /// selects and solos its band, and remembers what was soloed; a double click
    /// leaves its band neither selected nor soloed, and starts nothing.
    pub proof fn a_handle_is_chosen(
        self,
        band: BandView,
        h: HandleInput,
        view: ChannelView,
        alt: bool,
    )
        requires
            band.slot < MAX_BANDS,
            band.visible_in(view),
        ensures
            ({
                let after = self.handle(band, h, view, alt);
                let auditioned = h.audition_started && !h.double_clicked;
                &&& after.draft == self.draft
                &&& after.transient.flush == self.transient.flush
                &&& after.hovered == (if h.hovered {
                    Some(band.slot)
                } else {
                    self.hovered
                })
                &&& h.double_clicked ==> {
                    &&& after.selected != Some(band.slot)
                    &&& after.transient.soloed() != Some(band.slot)
                    &&& after.audition == self.audition
                    &&& self.selected != Some(band.slot) && !h.clicked ==> after.selected
                        == self.selected
                    &&& self.transient.soloed() != Some(band.slot) ==> after.transient
                        == self.transient
                }
                &&& auditioned ==> {
                    &&& after.selected == Some(band.slot)
                    &&& after.transient.soloed() == Some(band.slot)
                    &&& after.audition == Some((band.slot, self.transient.soloed()))
                }
                &&& !h.double_clicked && !h.audition_started ==> {
                    &&& after.selected == (if h.clicked {
                        Some(band.slot)
                    } else {
                        self.selected
                    })
                    &&& after.transient == self.transient
                    &&& after.audition == self.audition
                }
            }),
    {
    }

    /// A press on the empty display, while nothing is being drawn and there is
    /// room, puts the lowest slot that is not in use to use: as a bell at the
    /// pointer's frequency and level, switched on, not dynamic, on the channel on
    /// screen. The band is selected, and goes on following the pointer.
    pub proof fn a_press_draws_a_band(
        self,
        p: Settings,
        live: Seq<BandParams>,
        at: Point,
        view: ChannelView,
        slot: usize,
    )
        requires
            p.bands.len() == MAX_BANDS,
            live.len() == MAX_BANDS,
            slot < MAX_BANDS,
            !live[slot as int].active,
            forall|lower: int| 0 <= lower < slot ==> (#[trigger] live[lower]).active,
            self.draft is None,
            at.freq.finite(),
            at.db.finite(),
        ensures
            ({
                let pressed = self.press(live, Some(at), true, view);
                let before = p.after(self.writes);
                let after = p.after(pressed.writes);
                let band = after.bands[slot as int];
                &&& pressed.selected == Some(slot)
                &&& pressed.draft == Some(slot)
                &&& pressed.hovered == self.hovered
                &&& pressed.audition == self.audition
                &&& pressed.transient == self.transient
                &&& band.active
                &&& band.enabled
                &&& band.kind == BandKind::Bell
                &&& band.freq == at.freq
                &&& band.gain == at.db
                &&& !band.dynamic
                &&& band.channel == (match view {
                    ChannelView::All => BandChannel::Stereo,
                    ChannelView::Left => BandChannel::Left,
                    ChannelView::Right => BandChannel::Right,
                    ChannelView::Mid => BandChannel::Mid,
                    ChannelView::Side => BandChannel::Side,
                })
                &&& after == (Settings { bands: before.bands.update(slot as int, band), ..before })
            }),
    {
        crate::recall::the_first_free_slot_is_the_lowest(live, slot);
        let shape = crate::recall::drawn_band(at.freq, at.db, view);
        let claim = BandWrite::on_slot(slot, crate::recall::recall_list(shape));
        p.writing_keeps_the_slots(self.writes);
        p.after_one_list_and_another(self.writes, claim);
        crate::recall::adding_a_band_claims_one_slot(p.after(self.writes), slot, shape);
    }

    /// A press does nothing while a band is being drawn, when the list is full, or
    /// when every slot is in use.
    pub proof fn a_press_without_room_draws_nothing(
        self,
        live: Seq<BandParams>,
        at: Option<Point>,
        can_add: bool,
        view: ChannelView,
    )
        requires
            live.len() == MAX_BANDS,
            self.draft is Some || !can_add || at is None || forall|slot: int|
                0 <= slot < live.len() ==> (#[trigger] live[slot]).active,
        ensures
            self.press(live, at, can_add, view) == self,
    {
        crate::recall::the_first_free_slot_is_the_lowest(live, 0);
    }

    /// A band that is being drawn is where the pointer has it, frequency and level
    /// both; nothing else follows the pointer there.
    pub proof fn a_drawn_band_follows_the_pointer(self, p: Settings, slot: usize, to: Point)
        requires
            p.bands.len() == MAX_BANDS,
            slot < MAX_BANDS,
            self.draft == Some(slot),
            to.freq.finite(),
            to.db.finite(),
        ensures
            p.after(self.drag(Some(to)).writes).bands[slot as int] == (BandParams {
                freq: to.freq,
                gain: to.db,
                ..p.after(self.writes).bands[slot as int]
            }),
            self.drag(Some(to)).only_wrote_to(self, slot),
            self.drag(Some(to)) == (Pointing { writes: self.drag(Some(to)).writes, ..self }),
            self.drag(None) == self,
            forall|other: Pointing| other.draft is None ==> #[trigger] other.drag(Some(to))
                == other,
    {
        let once = self.says(slot, BandFloat::Freq, to.freq);
        self.lemma_saying(p, slot, BandFloat::Freq, to.freq);
        once.lemma_saying(p, slot, BandFloat::Gain, to.db);
        self.lemma_saying_writes_to_the_slot(slot, BandFloat::Freq, to.freq);
        once.lemma_saying_writes_to_the_slot(slot, BandFloat::Gain, to.db);
        once.says(slot, BandFloat::Gain, to.db).lemma_two_steps(once, self, slot);
    }

    /// The wheel acts on the band under the pointer, or else on the selected one.
    /// It takes a cut one step along 12, 24, 36, 48, 72 and 96 dB an octave, down
    /// to the shallower ones as it scrolls up, and stops at either end. It gives a
    /// bell, a notch or a band-pass the Q one step away, within 0.025 to 40. A
    /// shelf has neither, and the wheel leaves it alone.
    pub proof fn the_wheel_turns_the_band(
        self,
        p: Settings,
        live: Seq<BandParams>,
        bands: Seq<BandView>,
        hs: Seq<HandleInput>,
        over: bool,
        up: bool,
        i: int,
    )
        requires
            p.bands.len() == MAX_BANDS,
            live.len() == MAX_BANDS,
            0 <= i < bands.len(),
            bands[i].slot < MAX_BANDS,
            forall|j: int| 0 <= j < i ==> (#[trigger] bands[j]).slot != bands[i].slot,
            self.hovered == Some(bands[i].slot) || over && self.hovered is None && self.selected
                == Some(bands[i].slot),
        ensures
            ({
                let wheel = if up {
                    Wheel::Up
                } else {
                    Wheel::Down
                };
                let turned = self.scroll(live, bands, hs, over, wheel);
                let slot = bands[i].slot as int;
                let before = p.after(self.writes).bands[slot];
                let after = p.after(turned.writes).bands[slot];
                let asked = (if up {
                    hs[i].q_up
                } else {
                    hs[i].q_down
                }).clamped(Single { bits: 0x3ccc_cccd }, Single { bits: 0x4220_0000 });
                &&& turned == (Pointing { writes: turned.writes, ..self })
                &&& turned.only_wrote_to(self, bands[i].slot)
                &&& match bands[i].kind {
                    BandKind::LowCut | BandKind::HighCut => after == (BandParams {
                        slope: match live[slot].slope {
                            Slope::S12 => if up {
                                Slope::S12
                            } else {
                                Slope::S24
                            },
                            Slope::S24 => if up {
                                Slope::S12
                            } else {
                                Slope::S36
                            },
                            Slope::S36 => if up {
                                Slope::S24
                            } else {
                                Slope::S48
                            },
                            Slope::S48 => if up {
                                Slope::S36
                            } else {
                                Slope::S72
                            },
                            Slope::S72 => if up {
                                Slope::S48
                            } else {
                                Slope::S96
                            },
                            Slope::S96 => if up {
                                Slope::S72
                            } else {
                                Slope::S96
                            },
                        },
                        ..before
                    }),
                    BandKind::Bell | BandKind::Notch | BandKind::BandPass => after
                        == (BandParams {
                        q: if asked.finite() {
                            asked
                        } else {
                            before.q
                        },
                        ..before
                    }),
                    BandKind::LowShelf | BandKind::HighShelf => turned == self,
                }
            }),
    {
        let slot = bands[i].slot;
        a_slot_is_found_where_it_first_stands(bands, i);
        let wheel = if up {
            Wheel::Up
        } else {
            Wheel::Down
        };
        let turned = self.scroll(live, bands, hs, over, wheel);
        match bands[i].kind {
            BandKind::LowCut | BandKind::HighCut => {
                let next = live[slot as int].slope.stepped(
                    if up {
                        -1
                    } else {
                        1
                    },
                );
                let w = BandWrite::Slope(next);
                assert(turned.writes =~= self.writes + BandWrite::to_slot(slot, seq![w]));
                p.writing_keeps_the_slots(self.writes);
                p.after_writes_to_a_slot(self.writes, slot, seq![w]);
                p.after(self.writes).bands[slot as int].after_one_write(w);
                assert(turned.writes.take(self.writes.len() as int) =~= self.writes);
            },
            BandKind::Bell | BandKind::Notch | BandKind::BandPass => {
                let asked = if up {
                    hs[i].q_up
                } else {
                    hs[i].q_down
                };
                let q = asked.clamped(Single { bits: Q_MIN }, Single { bits: Q_MAX });
                self.lemma_saying(p, slot, BandFloat::Q, q);
                self.lemma_saying_writes_to_the_slot(slot, BandFloat::Q, q);
            },
            _ => {
                self.lemma_nothing_written(self, slot);
            },
        }
    }

    /// A wheel that stands still does nothing, and neither does one that turns
    /// while the pointer is not over the plot, or with no band to act on.
    pub proof fn the_wheel_needs_a_band(
        self,
        live: Seq<BandParams>,
        bands: Seq<BandView>,
        hs: Seq<HandleInput>,
        over: bool,
        wheel: Wheel,
    )
        requires
            wheel == Wheel::Still || !over && self.hovered is None || self.hovered is None
                && self.selected is None,
        ensures
            self.scroll(live, bands, hs, over, wheel) == self,
    {
    }

    proof fn lemma_only_one_handle(
        self,
        bands: Seq<BandView>,
        hs: Seq<HandleInput>,
        view: ChannelView,
        alt: bool,
        k: int,
        n: int,
    )
        requires
            0 <= k < bands.len(),
            n <= bands.len() == hs.len(),
            forall|i: int|
                0 <= i < hs.len() && i != k ==> {
                    let h = #[trigger] hs[i];
                    &&& h.left_grip is None && h.right_grip is None
                    &&& !h.hovered && !h.clicked && !h.double_clicked && !h.audition_started
                    &&& h.swept_to is None && h.dragged_to is None
                },
        ensures
            self.handles(bands, hs, view, alt, n) == (if n > k {
                self.handle(bands[k], hs[k], view, alt)
            } else {
                self
            }),
        decreases n,
    {
        if n > 0 {
            self.lemma_only_one_handle(bands, hs, view, alt, k, n - 1);
            let h = hs[n - 1];
        }
    }

    /// In a frame in which nothing happens but that one band's handle is dragged,
    /// that band ends up where the pointer is and every other stays as it was.
    pub proof fn a_frame_moves_the_band_that_is_dragged(
        self,
        p: Settings,
        live: Seq<BandParams>,
        input: PlotInput,
        bands: Seq<BandView>,
        view: ChannelView,
        k: int,
        to: Point,
    )
        requires
            p.bands.len() == MAX_BANDS,
            0 <= k < bands.len(),
            input.handles@.len() == bands.len(),
            bands[k].slot < MAX_BANDS,
            bands[k].visible_in(view),
            input.pressed is None,
            self.draft is None,
            input.wheel == Wheel::Still,
            forall|i: int|
                0 <= i < bands.len() && i != k ==> {
                    let h = #[trigger] input.handles@[i];
                    &&& h.left_grip is None && h.right_grip is None
                    &&& !h.hovered && !h.clicked && !h.double_clicked && !h.audition_started
                    &&& h.swept_to is None && h.dragged_to is None
                },
            !input.handles@[k].double_clicked,
            input.handles@[k].dragged_to == Some(to),
            to.freq.finite(),
            to.db.finite(),
        ensures
            ({
                let after = self.interact(live, input, bands, view);
                let slot = bands[k].slot as int;
                let was = p.after(self.writes).bands[slot];
                let band = p.after(after.writes).bands[slot];
                let has_gain = bands[k].kind == BandKind::LowShelf || bands[k].kind
                    == BandKind::Bell || bands[k].kind == BandKind::HighShelf;
                &&& band.freq == to.freq
                &&& band.gain == (if has_gain && !input.alt {
                    to.db
                } else {
                    was.gain
                })
                &&& after.only_wrote_to(self, bands[k].slot)
                &&& after.hovered == (if input.handles@[k].hovered {
                    Some(bands[k].slot)
                } else {
                    None
                })
            }),
    {
        let hs = input.handles@;
        let drawn = self.press(live, input.pressed, bands.len() < MAX_BANDS, view).drag(
            input.dragged,
        ).release(input.released);
        let start = Pointing { hovered: None, ..drawn };
        assert(start.writes == self.writes);
        start.lemma_only_one_handle(bands, hs, view, input.alt, k, bands.len() as int);
        start.a_handle_leaves_this(p, bands[k], hs[k], view, input.alt);
        start.a_handle_touches_only_its_band(bands[k], hs[k], view, input.alt);
        start.a_handle_is_chosen(bands[k], hs[k], view, input.alt);
    }

    proof fn lemma_handles_left_alone(
        self,
        bands: Seq<BandView>,
        hs: Seq<HandleInput>,
        view: ChannelView,
        alt: bool,
        n: int,
    )
        requires
            n <= bands.len() == hs.len(),
            forall|i: int|
                0 <= i < hs.len() ==> {
                    let h = #[trigger] hs[i];
                    &&& h.left_grip is None && h.right_grip is None
                    &&& !h.hovered && !h.clicked && !h.double_clicked && !h.audition_started
                    &&& h.swept_to is None && h.dragged_to is None
                },
        ensures
            self.handles(bands, hs, view, alt, n) == self,
        decreases n,
    {
        if n > 0 {
            self.lemma_handles_left_alone(bands, hs, view, alt, n - 1);
            let h = hs[n - 1];
        }
    }

    /// A frame in which the pointer touches no handle draws what was pressed, as
    /// long as fewer than twenty-four bands are listed, lets the band that is being
    /// drawn follow, gives back the solo an audition took if the right button is up,
    /// and turns the selected band by the wheel. No band is under the pointer.
    pub proof fn a_frame_that_touches_no_handle(
        self,
        live: Seq<BandParams>,
        input: PlotInput,
        bands: Seq<BandView>,
        view: ChannelView,
    )
        requires
            input.handles@.len() == bands.len(),
            forall|i: int|
                0 <= i < input.handles@.len() ==> {
                    let h = #[trigger] input.handles@[i];
                    &&& h.left_grip is None && h.right_grip is None
                    &&& !h.hovered && !h.clicked && !h.double_clicked && !h.audition_started
                    &&& h.swept_to is None && h.dragged_to is None
                },
        ensures
            ({
                let after = self.interact(live, input, bands, view);
                let room = bands.len() < 24;
                let drawn = self.press(live, input.pressed, room, view).drag(input.dragged).release(
                    input.released,
                );
                let settled = (Pointing { hovered: None, ..drawn }).settle(input.secondary_down);
                &&& after.hovered is None
                &&& input.wheel == Wheel::Still || !input.background_hovered ==> after == settled
                &&& after == settled.scroll(
                    live,
                    bands,
                    input.handles@,
                    input.background_hovered,
                    input.wheel,
                )
            }),
    {
        let drawn = self.press(live, input.pressed, bands.len() < MAX_BANDS, view).drag(
            input.dragged,
        ).release(input.released);
        (Pointing { hovered: None, ..drawn }).lemma_handles_left_alone(
            bands,
            input.handles@,
            view,
            input.alt,
            bands.len() as int,
        );
    }

    /// A frame in which the pointer does nothing at all writes nothing, selects
    /// nothing else, and leaves the solo alone unless an audition has just ended.
    pub proof fn a_frame_without_the_pointer_does_nothing(
        self,
        live: Seq<BandParams>,
        input: PlotInput,
        bands: Seq<BandView>,
        view: ChannelView,
    )
        requires
            input.handles@.len() == bands.len(),
            forall|i: int|
                0 <= i < input.handles@.len() ==> {
                    let h = #[trigger] input.handles@[i];
                    &&& h.left_grip is None && h.right_grip is None
                    &&& !h.hovered && !h.clicked && !h.double_clicked && !h.audition_started
                    &&& h.swept_to is None && h.dragged_to is None
                },
            input.pressed is None,
            input.dragged is None,
            input.wheel == Wheel::Still,
        ensures
            ({
                let after = self.interact(live, input, bands, view);
                &&& after.writes == self.writes
                &&& after.selected == self.selected
                &&& after.draft == (if input.released {
                    None
                } else {
                    self.draft
                })
                &&& self.audition is None || input.secondary_down ==> after.transient
                    == self.transient && after.audition == self.audition
            }),
    {
        self.a_frame_that_touches_no_handle(live, input, bands, view);
    }

    /// The draft goes when the pointer lets go, and stays until then; an audition
    /// ends when the right button is up, and stays until then.
    pub proof fn what_is_held_stays_until_let_go(self)
        ensures
            self.release(true).draft is None,
            self.release(false) == self,
            self.release(true) == (Pointing { draft: None, ..self }),
            self.settle(true) == self,
            self.settle(false).audition is None,
            self.audition is None ==> self.settle(false) == self,
            self.settle(false).writes == self.writes,
            self.settle(false).selected == self.selected,
    {
    }
}

} // verus!
