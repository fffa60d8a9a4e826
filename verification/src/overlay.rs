//! The analyser pickers parked over the top-right of the plot, and the actions
//! on the selected band beside them.

use vstd::prelude::*;

use crate::display::find_band;
use crate::edit::{set_bool, set_enabled, BoolParam, Frame};
use crate::params::{BandParams, BandWrite, Settings, TransientState, Write, MAX_BANDS};
use crate::recall::remove_band;
use crate::single::Single;
use crate::state::{AnalyzerMode, BandView, Looks, UiState};

verus! {

/// The fractional-octave smoothing widths the analyser offers.
pub const SMOOTHING: [(u32, &'static str); 5] = [
    (0, "Raw"),
    (0x3d2a_aaab, "1/24 oct"),
    (0x3daa_aaab, "1/12 oct"),
    (0x3e2a_aaab, "1/6 oct"),
    (0x3eaa_aaab, "1/3 oct"),
];

/// What the pointer did to the overlay this frame.
#[derive(Clone, Copy, Debug)]
pub struct OverlayInput {
    /// The polarity button was clicked.
    pub phase: bool,
    /// The buttons that act on the selected band.
    pub enable: bool,
    pub solo: bool,
    pub delete: bool,
    /// What was picked from the two menus.
    pub mode: Option<AnalyzerMode>,
    pub smoothing: Option<usize>,
}

impl OverlayInput {
    /// What the polarity button writes.
    pub open spec fn polarity(self, inverted: bool) -> Seq<Write> {
        if self.phase {
            seq![BoolParam::PhaseInvert.write(!inverted)]
        } else {
            Seq::empty()
        }
    }

    /// What the buttons write for the selected band.
    pub open spec fn actions(self, band: BandView) -> Seq<Write> {
        (if self.enable {
            BandWrite::to_slot(band.slot, seq![BandWrite::Enabled(!band.enabled)])
        } else {
            Seq::empty()
        }) + (if self.delete {
            BandWrite::to_slot(band.slot, seq![BandWrite::Active(false)])
        } else {
            Seq::empty()
        })
    }

    /// What the buttons leave soloed: the solo button counts, and then a deleted
    /// band is not.
    pub open spec fn solo_after(self, t: TransientState, slot: usize) -> TransientState {
        let pressed = if self.solo {
            t.toggled(slot)
        } else {
            t
        };
        if self.delete {
            crate::recall::unsoloed(pressed, slot)
        } else {
            pressed
        }
    }

    /// The view state after what was picked.
    pub open spec fn picked(self, looks: Looks) -> Looks {
        Looks {
            analyzer_mode: match self.mode {
                Some(mode) => mode,
                None => looks.analyzer_mode,
            },
            spectrum_smoothing: match self.smoothing {
                Some(i) => Single { bits: SMOOTHING@[i as int].0 },
                None => looks.spectrum_smoothing,
            },
            ..looks
        }
    }
}

/// The actions on the selected band.
fn actions(
    frame: &mut Frame,
    band: &BandView,
    input: &OverlayInput,
    selected: &mut Option<usize>,
)
    requires
        old(frame).setter.orderly(),
    ensures
        final(frame).adds(*old(frame), input.actions(*band)),
        final(frame).transient == input.solo_after(old(frame).transient, band.slot),
        *final(selected) == (if input.delete {
            None
        } else {
            *old(selected)
        }),
{
    let ghost start = frame.setter@;
    if input.enable {
        set_enabled(frame, band.slot, !band.enabled);
    }
    if input.solo {
        frame.transient.toggle_solo(band.slot);
    }
    if input.delete {
        remove_band(frame, band.slot);
        *selected = None;
    }
    assert(frame.setter@ =~= start + input.actions(*band));
}

/// How the spectrum is being measured, and what happens to the selected band.
/// The answer is whether the actions on a band are shown.
pub fn analyzer(
    frame: &mut Frame,
    state: &mut UiState,
    bands: &Vec<BandView>,
    input: &OverlayInput,
    selected: &mut Option<usize>,
) -> (r: bool)
    requires
        old(frame).setter.orderly(),
        input.smoothing matches Some(i) ==> i < 5,
    ensures
        final(state)@ == input.picked(old(state)@),
        match crate::display::position_of(bands@, *old(selected)) {
            Some(i) => {
                &&& r
                &&& i < bands@.len()
                &&& final(frame).adds(
                    *old(frame),
                    input.polarity(old(frame).params.phase_invert) + input.actions(bands@[i]),
                )
                &&& final(frame).transient == input.solo_after(
                    old(frame).transient,
                    bands@[i].slot,
                )
                &&& *final(selected) == (if input.delete {
                    None
                } else {
                    *old(selected)
                })
            },
            None => {
                &&& !r
                &&& final(frame).adds(*old(frame), input.polarity(old(frame).params.phase_invert))
                &&& final(frame).transient == old(frame).transient
                &&& *final(selected) == *old(selected)
            },
        },
{
    let ghost before = *frame;
    let inverted: bool = frame.params.phase_invert;
    if input.phase {
        set_bool(&mut frame.setter, BoolParam::PhaseInvert, !inverted);
    }
    assert(frame.setter@ =~= before.setter@ + input.polarity(inverted));
    let ghost between = *frame;
    let index: Option<usize> = find_band(bands, *selected);
    if let Some(i) = index {
        actions(frame, &bands[i], input, selected);
        proof {
            frame.adding_twice(
                between,
                before,
                input.polarity(inverted),
                input.actions(bands@[i as int]),
            );
        }
    }
    if let Some(mode) = input.mode {
        state.analyzer_mode = mode;
    }
    if let Some(i) = input.smoothing {
        state.spectrum_smoothing = Single { bits: SMOOTHING[i].0 };
    }
    index.is_some()
}

/// Whatever is picked is between none and an octave, so taking the view state up
/// again leaves it alone.
pub proof fn a_picked_smoothing_is_in_bounds(i: int)
    requires
        0 <= i < SMOOTHING@.len(),
    ensures
        (Single { bits: SMOOTHING@[i].0 }).within(
            (Single { bits: 0 }),
            (Single { bits: 0x3f80_0000 }),
        ),
{
    assert(SMOOTHING@[0].0 == 0 && SMOOTHING@[1].0 == 0x3d2a_aaab && SMOOTHING@[2].0 == 0x3daa_aaab
        && SMOOTHING@[3].0 == 0x3e2a_aaab && SMOOTHING@[4].0 == 0x3eaa_aaab);
}

/// Once the host has heard the overlay, the polarity has been turned over if its
/// button was clicked, and so has the switch of the selected band if its was; a
/// deleted band is out of use. Nothing else changes, about this band or any other.
pub proof fn the_overlay_does_what_was_asked_for(p: Settings, input: OverlayInput, band: BandView)
    requires
        p.bands.len() == MAX_BANDS,
        band.slot < MAX_BANDS,
    ensures
        p.after(input.polarity(p.phase_invert)) == (Settings {
            phase_invert: p.phase_invert != input.phase,
            ..p
        }),
        p.after(input.polarity(p.phase_invert) + input.actions(band)) == (Settings {
            phase_invert: p.phase_invert != input.phase,
            bands: p.bands.update(
                band.slot as int,
                BandParams {
                    active: p.bands[band.slot as int].active && !input.delete,
                    enabled: if input.enable {
                        !band.enabled
                    } else {
                        p.bands[band.slot as int].enabled
                    },
                    ..p.bands[band.slot as int]
                },
            ),
            ..p
        }),
{
    lemma_the_polarity_is_heard(p, input);
    let turned = p.after(input.polarity(p.phase_invert));
    p.after_one_list_and_another(input.polarity(p.phase_invert), input.actions(band));
    lemma_the_actions_are_heard(turned, input, band);
}

proof fn lemma_the_polarity_is_heard(p: Settings, input: OverlayInput)
    ensures
        p.after(input.polarity(p.phase_invert)) == (Settings {
            phase_invert: p.phase_invert != input.phase,
            ..p
        }),
{
    let w = Write::PhaseInvert(!p.phase_invert);
    let nothing = Seq::<Write>::empty();
    p.after_one_more(nothing, w);
    assert(nothing.push(w) =~= seq![w]);
}

proof fn lemma_the_actions_are_heard(p: Settings, input: OverlayInput, band: BandView)
    requires
        p.bands.len() == MAX_BANDS,
        band.slot < MAX_BANDS,
    ensures
        p.after(input.actions(band)) == (Settings {
            bands: p.bands.update(
                band.slot as int,
                BandParams {
                    active: p.bands[band.slot as int].active && !input.delete,
                    enabled: if input.enable {
                        !band.enabled
                    } else {
                        p.bands[band.slot as int].enabled
                    },
                    ..p.bands[band.slot as int]
                },
            ),
            ..p
        }),
{
    let slot = band.slot;
    let was = p.bands[slot as int];
    let enable = if input.enable {
        seq![BandWrite::Enabled(!band.enabled)]
    } else {
        Seq::empty()
    };
    let delete = if input.delete {
        seq![BandWrite::Active(false)]
    } else {
        Seq::empty()
    };
    let both = enable + delete;
    let nothing = Seq::<Write>::empty();
    p.after_writes_to_a_slot(nothing, slot, both);
    assert(input.actions(band) =~= nothing + BandWrite::to_slot(slot, both));
    was.lemma_after_both(enable, delete);
    was.after_one_write(BandWrite::Enabled(!band.enabled));
    was.after(enable).after_one_write(BandWrite::Active(false));
}

/// What the overlay leaves soloed: the solo button solos its band, or lets it go
/// when it was soloed, and a band that is deleted is not soloed afterwards.
pub proof fn the_overlay_solos_its_band(input: OverlayInput, t: TransientState, slot: usize)
    requires
        slot < MAX_BANDS,
    ensures
        ({
            let after = input.solo_after(t, slot);
            &&& after.flush == t.flush
            &&& !input.delete && !input.solo ==> after == t
            &&& !input.delete && input.solo ==> after.soloed() == (if t.soloed() == Some(slot) {
                None
            } else {
                Some(slot)
            })
            &&& input.delete ==> after.soloed() != Some(slot)
            &&& input.delete && !input.solo && t.soloed() != Some(slot) ==> after == t
        }),
{
}

/// What is picked from the two menus is what the analyser goes by: what it draws,
/// and how far it smooths, by nothing, a twenty-fourth, a twelfth, a sixth or a
/// third of an octave. Where nothing is picked, and in everything else, the view
/// state stays as it was.
pub proof fn the_overlay_picks_what_was_picked(input: OverlayInput, looks: Looks)
    requires
        input.smoothing matches Some(i) ==> i < 5,
    ensures
        ({
            let after = input.picked(looks);
            &&& after == (Looks {
                analyzer_mode: after.analyzer_mode,
                spectrum_smoothing: after.spectrum_smoothing,
                ..looks
            })
            &&& after.analyzer_mode == (match input.mode {
                Some(mode) => mode,
                None => looks.analyzer_mode,
            })
            &&& input.smoothing is None ==> after.spectrum_smoothing == looks.spectrum_smoothing
            &&& input.smoothing == Some(0usize) ==> after.spectrum_smoothing.bits == 0
            &&& input.smoothing == Some(1usize) ==> after.spectrum_smoothing.bits == 0x3d2a_aaab
            &&& input.smoothing == Some(2usize) ==> after.spectrum_smoothing.bits == 0x3daa_aaab
            &&& input.smoothing == Some(3usize) ==> after.spectrum_smoothing.bits == 0x3e2a_aaab
            &&& input.smoothing == Some(4usize) ==> after.spectrum_smoothing.bits == 0x3eaa_aaab
        }),
{
}

} // verus!
