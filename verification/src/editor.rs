//! The editor between frames: its size, what it remembers of the session, and
//! the keys it listens for.

use vstd::prelude::*;

use crate::display::find_band;
use crate::edit::{set_bool, BoolParam, Frame};
use crate::header::swap_slots;
use crate::params::{BandParams, BandWrite, Settings, TransientState, Write, MAX_BANDS};
use crate::recall::remove_band;
use crate::snapshot::Scene;
use crate::state::{BandView, Looks, UiState};
use crate::text::same_text;

verus! {

/// Opening size, and the floor a resize is clamped to.
pub const DEFAULT_WIDTH: u32 = 1400;

pub const DEFAULT_HEIGHT: u32 = 900;

pub const MIN_WIDTH: u32 = 640;

pub const MIN_HEIGHT: u32 = 420;

/// What the session was last told about the view state.
#[derive(Debug)]
pub struct Session {
    /// What was last written back, so a frame that changed nothing does not touch
    /// the parameter.
    persisted: String,
    restored: bool,
}

/// What the session was last told: the text, and whether it was ever read.
#[verifier::ext_equal]
pub struct Told {
    pub persisted: Seq<char>,
    pub restored: bool,
}

impl View for Session {
    type V = Told;

    closed spec fn view(&self) -> Told {
        Told { persisted: self.persisted@, restored: self.restored }
    }
}

impl Session {
    /// A session nothing has been read of.
    pub fn new() -> (r: Session)
        ensures
            r@ == (Told { persisted: Seq::empty(), restored: false }),
    {
        let r: Session = Session { persisted: String::new(), restored: false };
        assert(r@ =~= (Told { persisted: Seq::empty(), restored: false }));
        r
    }

    /// Has the view state been read already?
    pub fn is_restored(&self) -> (r: bool)
        ensures
            r == self@.restored,
    {
        self.restored
    }

    /// Take up the view state the session holds, the first time it is offered and
    /// not again: once read, it belongs to the editor. `raw` is the saved text and
    /// `parsed` what could be made of it; without a text nothing is taken up.
    pub fn restore(&mut self, raw: Option<&str>, parsed: Option<UiState>) -> (r: Option<UiState>)
        ensures
            final(self)@ == (Told {
                restored: true,
                persisted: match raw {
                    Some(raw) => if old(self)@.restored {
                        old(self)@.persisted
                    } else {
                        raw@
                    },
                    None => old(self)@.persisted,
                },
            }),
            match r {
                Some(state) => {
                    &&& !old(self)@.restored
                    &&& raw is Some
                    &&& state@ == (if raw->0@.len() == 0 || parsed is None {
                        Looks::fresh()
                    } else {
                        parsed->0@.bounded()
                    })
                },
                None => old(self)@.restored || raw is None,
            },
    {
        if self.restored {
            return None;
        }
        self.restored = true;
        match raw {
            Some(raw) => {
                let state: UiState = UiState::load(raw, parsed);
                self.persisted = raw.to_owned();
                Some(state)
            },
            None => None,
        }
    }

    /// Push the view state back for the session to hold, but only when it moved:
    /// the text to write, or nothing.
    pub fn persist(&mut self, text: String) -> (r: Option<String>)
        ensures
            final(self)@ == (Told { persisted: text@, ..old(self)@ }),
            match r {
                Some(written) => written@ == text@ && text@ != old(self)@.persisted,
                None => text@ == old(self)@.persisted,
            },
    {
        if same_text(text.as_str(), self.persisted.as_str()) {
            return None;
        }
        self.persisted = text.clone();
        Some(text)
    }
}

/// The keys that went down this frame, of those the editor listens for.
#[derive(Clone, Copy, Debug, PartialEq, Eq, Structural)]
pub struct Keys {
    /// Something is being typed into, and every key is for it.
    pub typing: bool,
    pub b: bool,
    pub escape: bool,
    pub delete: bool,
    pub backspace: bool,
    pub x: bool,
    pub tab: bool,
}

impl Keys {
    /// The band the keys remove: the selected one, unless it was deselected first.
    pub open spec fn removes(self, selected: Option<usize>) -> Option<usize> {
        if (self.delete || self.backspace) && !self.escape {
            selected
        } else {
            None
        }
    }

    /// What the keys write: the bypass, the band they remove, and the other slot.
    pub open spec fn writes(self, p: Settings, looks: Looks, selected: Option<usize>) -> Seq<
        Write,
    > {
        if self.typing {
            Seq::empty()
        } else {
            (if self.b {
                seq![Write::Bypass(!p.bypass)]
            } else {
                Seq::empty()
            }) + (match self.removes(selected) {
                Some(slot) => BandWrite::to_slot(slot, seq![BandWrite::Active(false)]),
                None => Seq::empty(),
            }) + (if self.x {
                crate::recall::apply_list(p.bands, looks.parked.fitted())
            } else {
                Seq::empty()
            })
        }
    }

    /// What the keys leave soloed.
    pub open spec fn solo_after(self, t: TransientState, selected: Option<usize>) -> TransientState {
        if self.typing {
            t
        } else if self.x {
            crate::header::flushed()
        } else {
            match self.removes(selected) {
                Some(slot) => crate::recall::unsoloed(t, slot),
                None => t,
            }
        }
    }

    /// What the keys leave selected. Tab steps through the bands, so a band can be
    /// picked without the pointer.
    pub open spec fn selected_after(self, bands: Seq<BandView>, selected: Option<usize>) -> Option<
        usize,
    > {
        let kept = if self.escape || self.delete || self.backspace {
            None
        } else {
            selected
        };
        if self.typing {
            selected
        } else if self.tab && bands.len() > 0 {
            Some(bands[next_band(bands, kept)].slot)
        } else {
            kept
        }
    }
}

/// Which band comes after the selected one, round from the last to the first.
/// With nothing selected it is the first.
pub open spec fn next_band(bands: Seq<BandView>, selected: Option<usize>) -> int {
    match crate::display::position_of(bands, selected) {
        Some(i) => if i + 1 == bands.len() {
            0
        } else {
            i + 1
        },
        None => 0,
    }
}

/// The key that steps through the bands.
fn step_selection(bands: &Vec<BandView>, selected: Option<usize>) -> (r: Option<usize>)
    ensures
        r == (if bands@.len() > 0 {
            Some(bands@[next_band(bands@, selected)].slot)
        } else {
            selected
        }),
{
    if bands.len() == 0 {
        return selected;
    }
    let next: usize = match find_band(bands, selected) {
        Some(i) => if i + 1 == bands.len() {
            0
        } else {
            i + 1
        },
        None => 0,
    };
    Some(bands[next].slot)
}

/// The shortcuts. None of them works while a preset name is being typed.
pub fn keyboard(
    frame: &mut Frame,
    ui: &mut UiState,
    selected: &mut Option<usize>,
    bands: &Vec<BandView>,
    keys: Keys,
)
    requires
        old(frame).setter.orderly(),
    ensures
        final(frame).adds(
            *old(frame),
            keys.writes(old(frame).params@, old(ui)@, *old(selected)),
        ),
        final(frame).transient == keys.solo_after(old(frame).transient, *old(selected)),
        final(ui)@ == (if !keys.typing && keys.x {
            old(ui)@.swapped(old(frame).params@)
        } else {
            old(ui)@
        }),
        *final(selected) == keys.selected_after(bands@, *old(selected)),
{
    let ghost f0 = *frame;
    let ghost p = frame.params@;
    assert(f0.setter@ + Seq::<Write>::empty() =~= f0.setter@);
    if keys.typing {
        return ;
    }
    let bypassed: bool = frame.params.bypass;
    if keys.b {
        set_bool(&mut frame.setter, BoolParam::Bypass, !bypassed);
    }
    let ghost f1 = *frame;
    assert(f1.setter@ + Seq::<Write>::empty() =~= f1.setter@);
    if keys.escape {
        *selected = None;
    }
    if keys.delete || keys.backspace {
        if let Some(slot) = *selected {
            remove_band(frame, slot);
            *selected = None;
        }
    }
    let ghost f2 = *frame;
    assert(f2.setter@ + Seq::<Write>::empty() =~= f2.setter@);
    if keys.x {
        swap_slots(frame, ui);
    }
    proof {
        let first = if keys.b {
            seq![Write::Bypass(!p.bypass)]
        } else {
            Seq::empty()
        };
        let second = match keys.removes(*old(selected)) {
            Some(slot) => BandWrite::to_slot(slot, seq![BandWrite::Active(false)]),
            None => Seq::empty(),
        };
        let third = if keys.x {
            crate::recall::apply_list(p.bands, old(ui)@.parked.fitted())
        } else {
            Seq::empty()
        };
        f2.adding_twice(f1, f0, first, second);
        frame.adding_twice(f2, f0, first + second, third);
    }
    if keys.tab {
        *selected = step_selection(bands, *selected);
    }
}

/// What is selected after pressing Tab some times over.
pub open spec fn tabbed(bands: Seq<BandView>, selected: Option<usize>, presses: nat) -> Option<
    usize,
>
    decreases presses,
{
    if presses == 0 {
        selected
    } else {
        Some(bands[next_band(bands, tabbed(bands, selected, (presses - 1) as nat))].slot)
    }
}

proof fn lemma_a_slot_is_where_it_is(bands: Seq<BandView>, i: int)
    requires
        0 <= i < bands.len(),
        forall|a: int, b: int|
            0 <= a < b < bands.len() ==> (#[trigger] bands[a]).slot != (#[trigger] bands[b]).slot,
    ensures
        crate::display::position_of(bands, Some(bands[i].slot)) == Some(i),
    decreases bands.len(),
{
    let shorter = bands.drop_last();
    if i < shorter.len() {
        lemma_a_slot_is_where_it_is(shorter, i);
    } else {
        lemma_a_slot_is_nowhere_else(shorter, bands[i].slot);
    }
}

proof fn lemma_a_slot_is_nowhere_else(bands: Seq<BandView>, slot: usize)
    requires
        forall|a: int| 0 <= a < bands.len() ==> (#[trigger] bands[a]).slot != slot,
    ensures
        crate::display::position_of(bands, Some(slot)) is None,
    decreases bands.len(),
{
    if bands.len() > 0 {
        lemma_a_slot_is_nowhere_else(bands.drop_last(), slot);
        assert(bands.last() == bands[bands.len() - 1]);
    }
}

/// Tab goes round: each press selects the next band of the list, the one after
/// the last being the first, so every band can be reached.
pub proof fn tab_goes_round(bands: Seq<BandView>, from: int, presses: nat)
    requires
        0 <= from < bands.len(),
        forall|a: int, b: int|
            0 <= a < b < bands.len() ==> (#[trigger] bands[a]).slot != (#[trigger] bands[b]).slot,
    ensures
        tabbed(bands, Some(bands[from].slot), presses) == Some(
            bands[(from + presses) % (bands.len() as int)].slot,
        ),
    decreases presses,
{
    let count = bands.len() as int;
    if presses == 0 {
        vstd::arithmetic::div_mod::lemma_small_mod(from as nat, count as nat);
    } else {
        tab_goes_round(bands, from, (presses - 1) as nat);
        let at = (from + presses - 1) % count;
        lemma_a_slot_is_where_it_is(bands, at);
        vstd::arithmetic::div_mod::lemma_add_mod_noop(from + presses - 1, 1, count);
        if count == 1 {
            vstd::arithmetic::div_mod::lemma_mod_self_0(count);
        } else {
            vstd::arithmetic::div_mod::lemma_small_mod(1, count as nat);
        }
        if at + 1 == count {
            vstd::arithmetic::div_mod::lemma_mod_self_0(count);
        } else {
            vstd::arithmetic::div_mod::lemma_small_mod((at + 1) as nat, count as nat);
        }
    }
}

impl Keys {
    /// While something is being typed, no key does anything.
    pub proof fn typing_is_left_alone(
        self,
        p: Settings,
        looks: Looks,
        t: TransientState,
        bands: Seq<BandView>,
        selected: Option<usize>,
    )
        requires
            self.typing,
        ensures
            p.after(self.writes(p, looks, selected)) == p,
            self.solo_after(t, selected) == t,
            self.selected_after(bands, selected) == selected,
    {
    }

    /// B turns the bypass over. Delete and Backspace take the selected band out of
    /// use, unless Escape let go of it first. Without X, nothing else changes.
    pub proof fn keys_change_what_they_say(
        self,
        p: Settings,
        looks: Looks,
        selected: Option<usize>,
    )
        requires
            !self.typing,
            !self.x,
            p.bands.len() == MAX_BANDS,
            selected matches Some(slot) ==> slot < MAX_BANDS,
        ensures
            ({
                let after = p.after(self.writes(p, looks, selected));
                let removed = (self.delete || self.backspace) && !self.escape && selected is Some;
                &&& after == (Settings { bypass: after.bypass, bands: after.bands, ..p })
                &&& after.bypass == (p.bypass != self.b)
                &&& after.bands.len() == MAX_BANDS
                &&& forall|slot: int|
                    0 <= slot < MAX_BANDS ==> #[trigger] after.bands[slot] == (BandParams {
                        active: p.bands[slot].active && !(removed && selected->0 == slot),
                        ..p.bands[slot]
                    })
            }),
    {
        let first = if self.b {
            seq![Write::Bypass(!p.bypass)]
        } else {
            Seq::empty()
        };
        let second = match self.removes(selected) {
            Some(slot) => BandWrite::to_slot(slot, seq![BandWrite::Active(false)]),
            None => Seq::empty(),
        };
        let nothing = Seq::<Write>::empty();
        assert(self.writes(p, looks, selected) =~= first + second);
        p.after_one_more(nothing, Write::Bypass(!p.bypass));
        assert(nothing.push(Write::Bypass(!p.bypass)) =~= seq![Write::Bypass(!p.bypass)]);
        assert(p.after(first) == (Settings { bypass: p.bypass != self.b, ..p }));
        match self.removes(selected) {
            Some(slot) => {
                p.after_writes_to_a_slot(first, slot, seq![BandWrite::Active(false)]);
                p.bands[slot as int].after_one_write(BandWrite::Active(false));
            },
            None => {
                assert(first + second =~= first);
            },
        }
    }

    /// X takes up what was parked: everything a scene carries is as the parked one
    /// has it, fitted into range, nothing is soloed, and the filters are flushed.
    pub proof fn x_takes_up_what_was_parked(
        self,
        p: Settings,
        looks: Looks,
        t: TransientState,
        selected: Option<usize>,
    )
        requires
            !self.typing,
            self.x,
            !self.b,
            (self.delete || self.backspace) ==> self.escape || selected is None,
            p.bands.len() == MAX_BANDS,
        ensures
            Scene::of(p.after(self.writes(p, looks, selected))) == looks.parked.fitted(),
            p.after(self.writes(p, looks, selected)).bypass == p.bypass,
            self.solo_after(t, selected).soloed() is None,
            self.solo_after(t, selected).flush,
    {
        looks.parked.fitting_keeps_what_fits();
        crate::recall::a_recall_reads_back(p, looks.parked.fitted());
        crate::recall::a_recall_replaces_everything(p, looks.parked.fitted());
        assert(self.writes(p, looks, selected) =~= crate::recall::apply_list(
            p.bands,
            looks.parked.fitted(),
        ));
    }

    /// What the keys leave soloed and selected. Removing a band lets go of it, and
    /// of its solo if it had it; Escape lets go of it alone. Tab selects the first
    /// band when nothing is selected, and the one after the selected one otherwise.
    pub proof fn keys_let_go_and_step(
        self,
        t: TransientState,
        bands: Seq<BandView>,
        selected: Option<usize>,
    )
        requires
            !self.typing,
        ensures
            ({
                let lets_go = self.escape || self.delete || self.backspace;
                let removes = (self.delete || self.backspace) && !self.escape;
                let after = self.selected_after(bands, selected);
                &&& !self.tab || bands.len() == 0 ==> after == (if lets_go {
                    None
                } else {
                    selected
                })
                &&& self.tab && bands.len() > 0 && (lets_go || selected is None) ==> after == Some(
                    bands[0].slot,
                )
                &&& !self.x && !(removes && selected is Some) ==> self.solo_after(t, selected)
                    == t
                &&& !self.x && removes && selected is Some ==> {
                    &&& self.solo_after(t, selected).soloed() == (if t.soloed() == selected {
                        None
                    } else {
                        t.soloed()
                    })
                    &&& self.solo_after(t, selected).flush == t.flush
                }
            }),
    {
    }

    /// With a band selected, Tab selects the one after it in the list, and after
    /// the last one the first.
    pub proof fn tab_selects_the_next(self, bands: Seq<BandView>, i: int)
        requires
            !self.typing,
            self.tab,
            !self.escape && !self.delete && !self.backspace,
            0 <= i < bands.len(),
            forall|a: int, b: int|
                0 <= a < b < bands.len() ==> (#[trigger] bands[a]).slot != (
                #[trigger] bands[b]).slot,
        ensures
            self.selected_after(bands, Some(bands[i].slot)) == Some(
                if i == bands.len() - 1 {
                    bands[0].slot
                } else {
                    bands[i + 1].slot
                },
            ),
    {
        lemma_a_slot_is_where_it_is(bands, i);
    }
}

} // verus!
