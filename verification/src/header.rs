//! The top bar: A/B, presets, output, bypass, and the view and range pickers.

use vstd::prelude::*;

use crate::edit::{set_bool, set_float, BoolParam, FloatParam, Frame};
use crate::params::{Settings, TransientState, Write, MAX_BANDS};
use crate::recall::{apply_snapshot, capture, reset_all};
use crate::single::Single;
use crate::snapshot::{Scene, Snapshot};
use crate::state::{AbSlot, ChannelView, Looks, UiState, DB_RANGES};
use crate::suppressor::{pair, Reduction, ResonanceInput};
use crate::text::{same_text, trim};

verus! {

/// What the header keeps between frames: the preset list it last read, and the
/// name being typed into it.
#[derive(Debug)]
pub struct HeaderState {
    pub presets: Vec<String>,
    pub current: String,
    pub draft: String,
    /// A short-lived message shown in place of the preset name.
    pub status: Option<String>,
    pub loaded: bool,
}

/// What the header says.
#[verifier::ext_equal]
pub struct HeaderText {
    pub presets: Seq<Seq<char>>,
    pub current: Seq<char>,
    pub draft: Seq<char>,
    pub status: Option<Seq<char>>,
    pub loaded: bool,
}

impl View for HeaderState {
    type V = HeaderText;

    open spec fn view(&self) -> HeaderText {
        HeaderText {
            presets: crate::presets::texts(self.presets@),
            current: self.current@,
            draft: self.draft@,
            status: match self.status {
                Some(s) => Some(s@),
                None => None,
            },
            loaded: self.loaded,
        }
    }
}

impl Default for HeaderState {
    fn default() -> (r: HeaderState)
        ensures
            r@ == HeaderText::fresh(),
    {
        let r: HeaderState = HeaderState {
            presets: Vec::new(),
            current: String::new(),
            draft: String::new(),
            status: None,
            loaded: false,
        };
        assert(r@ =~= HeaderText::fresh());
        r
    }
}

/// What happened in the preset menu, once the disk has had its say.
#[derive(Debug)]
pub enum PresetEvent {
    /// A row was clicked, and this is what its file held.
    Chosen { index: usize, found: Option<Snapshot> },
    /// The cross of a row was clicked and its file deleted; these are left.
    Deleted { index: usize, left: Vec<String> },
    /// Saving was asked for without a name to save under.
    Unnamed,
    /// The live settings were filed under a name, or could not be; these are
    /// there now.
    Saved { name: String, written: bool, now: Vec<String> },
    /// The folder was opened.
    Opened,
    /// The folder was read again.
    Reloaded { now: Vec<String> },
}

impl PresetEvent {
    /// The snapshot an event brings up.
    pub open spec fn brings(self) -> Option<Scene> {
        match self {
            PresetEvent::Chosen { found: Some(s), .. } => Some(s@),
            _ => None,
        }
    }

    /// Does the menu close after this?
    pub open spec fn closes(self) -> bool {
        match self {
            PresetEvent::Chosen { found, .. } => found is Some,
            PresetEvent::Opened => true,
            _ => false,
        }
    }

    /// The rows an event speaks of are there.
    pub open spec fn among(self, rows: nat) -> bool {
        match self {
            PresetEvent::Chosen { index, .. } => index < rows,
            PresetEvent::Deleted { index, .. } => index < rows,
            _ => true,
        }
    }
}

impl HeaderText {
    /// What the header opens with.
    pub open spec fn fresh() -> HeaderText {
        HeaderText {
            presets: Seq::empty(),
            current: Seq::empty(),
            draft: Seq::empty(),
            status: None,
            loaded: false,
        }
    }

    /// The header with a message up.
    pub open spec fn flashing(self, message: Seq<char>) -> HeaderText {
        HeaderText { status: Some(message), ..self }
    }

    /// The text on the preset button: the message, or the preset's name, or what
    /// an unnamed state is called.
    pub open spec fn shown(self) -> Seq<char> {
        match self.status {
            Some(message) => message,
            None => if self.current.len() == 0 {
                "Init"@
            } else {
                self.current
            },
        }
    }

    /// The name saving would use: what was typed, or else the name of the preset
    /// that is up.
    pub open spec fn name_to_save(self) -> Seq<char> {
        let typed = crate::text::trimmed(self.draft);
        if typed.len() == 0 {
            self.current
        } else {
            typed
        }
    }

    /// The header after an event in the preset menu.
    pub open spec fn after(self, event: PresetEvent) -> HeaderText {
        match event {
            PresetEvent::Chosen { index, found } => if found is Some {
                HeaderText { current: self.presets[index as int], ..self }
            } else {
                self.flashing("Not found"@)
            },
            PresetEvent::Deleted { index, left } => HeaderText {
                current: if self.current == self.presets[index as int] {
                    Seq::empty()
                } else {
                    self.current
                },
                presets: crate::presets::texts(left@),
                ..self.flashing("Deleted"@)
            },
            PresetEvent::Unnamed => self.flashing("Name it first"@),
            PresetEvent::Saved { name, written, now } => if written {
                HeaderText {
                    current: name@,
                    draft: Seq::empty(),
                    presets: crate::presets::texts(now@),
                    ..self.flashing("Saved"@)
                }
            } else {
                self.flashing("Could not save"@)
            },
            PresetEvent::Opened => self,
            PresetEvent::Reloaded { now } => HeaderText {
                presets: crate::presets::texts(now@),
                ..self.flashing("Reloaded"@)
            },
        }
    }
}

impl HeaderState {
    /// Put a message up.
    pub fn flash(&mut self, message: &str)
        ensures
            final(self)@ == old(self)@.flashing(message@),
    {
        self.status = Some(message.to_owned());
        assert(self@ =~= old(self)@.flashing(message@));
    }

    /// Take up the list of presets.
    pub fn refresh(&mut self, presets: Vec<String>)
        ensures
            final(self)@ == (HeaderText {
                presets: crate::presets::texts(presets@),
                ..old(self)@
            }),
    {
        self.presets = presets;
    }

    /// Begin a frame: a message that has been up long enough goes. The answer is
    /// whether the presets still have to be read for the first time.
    pub fn begin(&mut self, expired: bool) -> (r: bool)
        ensures
            r == !old(self).loaded,
            final(self)@ == (HeaderText {
                loaded: true,
                status: if expired {
                    None
                } else {
                    old(self)@.status
                },
                ..old(self)@
            }),
    {
        let first: bool = !self.loaded;
        self.loaded = true;
        if expired {
            self.status = None;
        }
        first
    }

    /// The text on the preset button.
    pub fn shown(&self) -> (r: String)
        ensures
            r@ == self@.shown(),
    {
        match &self.status {
            Some(message) => message.clone(),
            None => if self.current.as_str().is_empty() {
                "Init".to_owned()
            } else {
                self.current.clone()
            },
        }
    }

    /// The heading over the rows of the preset menu.
    pub fn heading(&self) -> (r: &'static str)
        ensures
            r == (if self@.presets.len() == 0 {
                "No presets yet"
            } else {
                "Saved"
            }),
    {
        if self.presets.len() == 0 {
            "No presets yet"
        } else {
            "Saved"
        }
    }

    /// The name saving would use, if there is one.
    pub fn save_name(&self) -> (r: Option<String>)
        ensures
            match r {
                Some(name) => name@ == self@.name_to_save() && name@.len() > 0,
                None => self@.name_to_save().len() == 0,
            },
    {
        self.name_for(trim(self.draft.as_str()))
    }

    /// The name saving would use, given what was typed without the white space at
    /// its ends: that, or else the name of the preset that is up.
    pub fn name_for(&self, typed: &str) -> (r: Option<String>)
        ensures
            ({
                let wanted = if typed@.len() == 0 {
                    self@.current
                } else {
                    typed@
                };
                match r {
                    Some(name) => name@ == wanted && wanted.len() > 0,
                    None => wanted.len() == 0,
                }
            }),
    {
        let name: String = if typed.is_empty() {
            self.current.clone()
        } else {
            typed.to_owned()
        };
        if name.as_str().is_empty() {
            None
        } else {
            Some(name)
        }
    }
}

/// The transient state a whole-state recall leaves: nothing soloed, and the
/// filters flushed.
pub open spec fn flushed() -> TransientState {
    TransientState { held: -1i32, flush: true }
}

/// The preset menu: what an event does to the sound and to the header. The
/// answer is whether the menu closes.
pub fn preset_menu(frame: &mut Frame, state: &mut HeaderState, event: PresetEvent) -> (r: bool)
    requires
        old(frame).setter.orderly(),
        event.among(old(state)@.presets.len()),
    ensures
        final(state)@ == old(state)@.after(event),
        r == event.closes(),
        match event.brings() {
            Some(scene) => {
                &&& final(frame).adds(
                    *old(frame),
                    crate::recall::apply_list(old(frame).params.bands@, scene.fitted()),
                )
                &&& final(frame).transient == flushed()
            },
            None => *final(frame) == *old(frame),
        },
{
    match event {
        PresetEvent::Chosen { index, found } => match found {
            Some(snapshot) => {
                apply_snapshot(frame, &snapshot);
                state.current = state.presets[index].clone();
                true
            },
            None => {
                state.flash("Not found");
                false
            },
        },
        PresetEvent::Deleted { index, left } => {
            if same_text(state.current.as_str(), state.presets[index].as_str()) {
                state.current = String::new();
            }
            state.refresh(left);
            state.flash("Deleted");
            false
        },
        PresetEvent::Unnamed => {
            state.flash("Name it first");
            false
        },
        PresetEvent::Saved { name, written, now } => {
            if written {
                state.current = name;
                state.draft = String::new();
                state.refresh(now);
                state.flash("Saved");
            } else {
                state.flash("Could not save");
            }
            false
        },
        PresetEvent::Opened => true,
        PresetEvent::Reloaded { now } => {
            state.refresh(now);
            state.flash("Reloaded");
            false
        },
    }
}

impl Looks {
    /// The view state after the two slots trade places: what was live is parked.
    pub open spec fn swapped(self, live: Settings) -> Looks {
        Looks { parked: Scene::of(live), slot: self.slot.opposite(), ..self }
    }
}

/// Park the live settings, take up whatever was parked, and remember which slot
/// is now live.
pub fn swap_slots(frame: &mut Frame, ui_state: &mut UiState)
    requires
        old(frame).setter.orderly(),
    ensures
        final(frame).adds(
            *old(frame),
            crate::recall::apply_list(old(frame).params.bands@, old(ui_state)@.parked.fitted()),
        ),
        final(frame).transient == flushed(),
        final(ui_state)@ == old(ui_state)@.swapped(old(frame).params@),
{
    let live: Snapshot = capture(&frame.params);
    let parked: Snapshot = ui_state.parked.clone();
    apply_snapshot(frame, &parked);
    ui_state.parked = live;
    ui_state.slot = ui_state.slot.other();
}

/// Settings after the two slots trade places.
pub open spec fn after_swap(p: Settings, looks: Looks) -> Settings {
    p.after(crate::recall::apply_list(p.bands, looks.parked.fitted()))
}

/// Trading the two slots and trading them back gives everything back: the sound,
/// what was parked, and which slot is live. What lay outside the range of its
/// parameter comes back fitted into it.
pub proof fn swapping_twice_gives_everything_back(p: Settings, looks: Looks)
    requires
        p.bands.len() == MAX_BANDS,
    ensures
        ({
            let there = after_swap(p, looks);
            let back = after_swap(there, looks.swapped(p));
            let seen = looks.swapped(p).swapped(there);
            &&& Scene::of(there) == looks.parked.fitted()
            &&& Scene::of(back) == Scene::of(p).fitted()
            &&& seen == (Looks { parked: looks.parked.fitted(), ..looks })
        }),
        Scene::of(p).in_range() ==> Scene::of(p).fitted() == Scene::of(p),
        looks.parked.in_range() ==> looks.parked.fitted() == looks.parked,
{
    looks.parked.fitting_keeps_what_fits();
    Scene::of(p).fitting_keeps_what_fits();
    crate::recall::a_recall_reads_back(p, looks.parked.fitted());
    let there = after_swap(p, looks);
    crate::recall::a_recall_replaces_everything(p, looks.parked.fitted());
    crate::recall::a_recall_reads_back(there, Scene::of(p).fitted());
}

/// The line on the copy button: from which slot, into which.
pub fn copy_button(slot: AbSlot) -> (r: (&'static str, &'static str))
    ensures
        r.0@ == (match slot {
            AbSlot::A => "A"@,
            AbSlot::B => "B"@,
        }),
        r.1@ == (match slot {
            AbSlot::A => "B"@,
            AbSlot::B => "A"@,
        }),
{
    (slot.label(), slot.other().label())
}

/// What the pointer did to the header this frame, the preset menu apart.
#[derive(Clone, Copy, Debug)]
pub struct HeaderInput {
    /// The A/B cell that was clicked, from the left.
    pub cell: Option<usize>,
    /// The button that copies the live slot over the parked one.
    pub copy: bool,
    /// The row of the menu that resets everything.
    pub reset: bool,
    pub bypass: bool,
    pub resonance: ResonanceInput,
    /// Where the output knob was turned to.
    pub output: Option<Single>,
    /// What was picked from the two menus.
    pub range: Option<usize>,
    pub view: Option<ChannelView>,
}

/// What the header answers.
#[derive(Clone, Copy, Debug)]
pub struct HeaderOutcome {
    /// The preset menu closes.
    pub close: bool,
    /// What stands beside the resonance switch.
    pub reduction: Reduction,
}

impl HeaderInput {
    /// Was the cell of the slot that is not live clicked?
    pub open spec fn swaps(self, slot: AbSlot) -> bool {
        match self.cell {
            Some(cell) => (cell == 0) != (slot == AbSlot::A),
            None => false,
        }
    }

    /// The writes that take up another state: a swap, and then the preset that
    /// was brought up.
    pub open spec fn recalls(self, p: Settings, looks: Looks, brought: Option<Scene>) -> Seq<
        Write,
    > {
        (if self.swaps(looks.slot) {
            crate::recall::apply_list(p.bands, looks.parked.fitted())
        } else {
            Seq::empty()
        }) + (match brought {
            Some(scene) => crate::recall::apply_list(p.bands, scene.fitted()),
            None => Seq::empty(),
        })
    }

    /// The writes of the group at the right end, from the right.
    pub open spec fn controls(self, p: Settings) -> Seq<Write> {
        (if self.reset {
            crate::recall::apply_list(p.bands, Scene::flat()).push(Write::Bypass(false))
        } else {
            Seq::empty()
        }) + (if self.bypass {
            seq![Write::Bypass(!p.bypass)]
        } else {
            Seq::empty()
        }) + self.resonance.writes(p.resonance) + (match self.output {
            Some(v) => FloatParam::OutputGain.writes(v),
            None => Seq::empty(),
        })
    }

    /// The view state after the header.
    pub open spec fn picked(self, p: Settings, looks: Looks) -> Looks {
        let swapped = if self.swaps(looks.slot) {
            looks.swapped(p)
        } else {
            looks
        };
        Looks {
            parked: if self.copy {
                Scene::of(p)
            } else {
                swapped.parked
            },
            db_range: match self.range {
                Some(i) => Single { bits: DB_RANGES@[i as int] },
                None => looks.db_range,
            },
            channel_view: match self.view {
                Some(view) => view,
                None => looks.channel_view,
            },
            ..swapped
        }
    }
}

/// The A/B cells and the copy button.
fn slots(frame: &mut Frame, ui_state: &mut UiState, cell: Option<usize>, copy: bool) -> (r: bool)
    requires
        old(frame).setter.orderly(),
    ensures
        r == (match cell {
            Some(c) => (c == 0) != (old(ui_state)@.slot == AbSlot::A),
            None => false,
        }),
        final(frame).adds(
            *old(frame),
            if r {
                crate::recall::apply_list(
                    old(frame).params.bands@,
                    old(ui_state)@.parked.fitted(),
                )
            } else {
                Seq::empty()
            },
        ),
        final(frame).transient == (if r {
            flushed()
        } else {
            old(frame).transient
        }),
        ({
            let swapped = if r {
                old(ui_state)@.swapped(old(frame).params@)
            } else {
                old(ui_state)@
            };
            final(ui_state)@ == (Looks {
                parked: if copy {
                    Scene::of(old(frame).params@)
                } else {
                    swapped.parked
                },
                ..swapped
            })
        }),
{
    assert(frame.setter@ =~= frame.setter@ + Seq::<Write>::empty());
    let mut swapped: bool = false;
    if let Some(c) = cell {
        let wanted: AbSlot = if c == 0 {
            AbSlot::A
        } else {
            AbSlot::B
        };
        if wanted != ui_state.slot {
            swap_slots(frame, ui_state);
            swapped = true;
        }
    }
    if copy {
        ui_state.parked = capture(&frame.params);
    }
    swapped
}

/// The group at the right end.
fn controls(frame: &mut Frame, input: &HeaderInput, peak: Single) -> (r: Reduction)
    requires
        old(frame).setter.orderly(),
    ensures
        final(frame).adds(*old(frame), input.controls(old(frame).params@)),
        final(frame).transient == (if input.reset {
            flushed()
        } else {
            old(frame).transient
        }),
        r == (if !old(frame).params.resonance.enabled {
            Reduction::Off
        } else if (Single { bits: crate::suppressor::QUIET }).below(peak) {
            Reduction::Deep(peak)
        } else {
            Reduction::Idle
        }),
{
    let ghost p = frame.params@;
    let ghost f0 = *frame;
    let ghost reset = if input.reset {
        crate::recall::apply_list(p.bands, Scene::flat()).push(Write::Bypass(false))
    } else {
        Seq::empty()
    };
    let ghost bypass = if input.bypass {
        seq![Write::Bypass(!p.bypass)]
    } else {
        Seq::empty()
    };
    let ghost output = match input.output {
        Some(v) => FloatParam::OutputGain.writes(v),
        None => Seq::empty(),
    };
    if input.reset {
        reset_all(frame);
    }
    assert(frame.adds(f0, reset)) by {
        assert(f0.setter@ + Seq::<Write>::empty() =~= f0.setter@);
    }
    let ghost f1 = *frame;
    let bypassed: bool = frame.params.bypass;
    if input.bypass {
        set_bool(&mut frame.setter, BoolParam::Bypass, !bypassed);
    }
    assert(frame.adds(f1, bypass)) by {
        assert(f1.setter@ + Seq::<Write>::empty() =~= f1.setter@);
    }
    let ghost f2 = *frame;
    let reduction: Reduction = pair(frame, &input.resonance, peak);
    let ghost f3 = *frame;
    if let Some(v) = input.output {
        set_float(&mut frame.setter, FloatParam::OutputGain, v);
    }
    assert(frame.adds(f3, output)) by {
        assert(f3.setter@ + Seq::<Write>::empty() =~= f3.setter@);
    }
    proof {
        f2.adding_twice(f1, f0, reset, bypass);
        f3.adding_twice(f2, f0, reset + bypass, input.resonance.writes(p.resonance));
        frame.adding_twice(
            f3,
            f0,
            reset + bypass + input.resonance.writes(p.resonance),
            output,
        );
    }
    reduction
}

/// The snapshot the preset menu brings up, if anything happened in it.
pub open spec fn brought(preset: Option<PresetEvent>) -> Option<Scene> {
    match preset {
        Some(event) => event.brings(),
        None => None,
    }
}

/// The whole header. Its menus and buttons see the parameters as they were when
/// the frame began.
pub fn show(
    frame: &mut Frame,
    state: &mut HeaderState,
    ui_state: &mut UiState,
    input: &HeaderInput,
    preset: Option<PresetEvent>,
    peak: Single,
) -> (r: HeaderOutcome)
    requires
        old(frame).setter.orderly(),
        preset matches Some(event) ==> event.among(old(state)@.presets.len()),
        input.range matches Some(i) ==> i < 4,
    ensures
        final(frame).adds(
            *old(frame),
            input.recalls(old(frame).params@, old(ui_state)@, brought(preset)) + input.controls(
                old(frame).params@,
            ),
        ),
        final(frame).transient == (if input.swaps(old(ui_state)@.slot) || brought(preset) is Some
            || input.reset {
            flushed()
        } else {
            old(frame).transient
        }),
        final(ui_state)@ == input.picked(old(frame).params@, old(ui_state)@),
        final(state)@ == (match preset {
            Some(event) => old(state)@.after(event),
            None => old(state)@,
        }),
        r.close == (match preset {
            Some(event) => event.closes(),
            None => false,
        }),
        r.reduction == (if !old(frame).params.resonance.enabled {
            Reduction::Off
        } else if (Single { bits: crate::suppressor::QUIET }).below(peak) {
            Reduction::Deep(peak)
        } else {
            Reduction::Idle
        }),
{
    let ghost p = frame.params@;
    let ghost looks = ui_state@;
    let ghost f0 = *frame;
    let ghost swap = if input.swaps(looks.slot) {
        crate::recall::apply_list(p.bands, looks.parked.fitted())
    } else {
        Seq::empty()
    };
    let ghost load = match brought(preset) {
        Some(scene) => crate::recall::apply_list(p.bands, scene.fitted()),
        None => Seq::empty(),
    };
    let _ = slots(frame, ui_state, input.cell, input.copy);
    let ghost f1 = *frame;
    let close: bool = match preset {
        Some(event) => preset_menu(frame, state, event),
        None => false,
    };
    let ghost f2 = *frame;
    assert(f2.adds(f1, load)) by {
        assert(f1.setter@ + Seq::<Write>::empty() =~= f1.setter@);
    }
    let reduction: Reduction = controls(frame, input, peak);
    proof {
        f2.adding_twice(f1, f0, swap, load);
        frame.adding_twice(f2, f0, swap + load, input.controls(p));
    }
    if let Some(i) = input.range {
        ui_state.db_range = Single { bits: DB_RANGES[i] };
    }
    if let Some(view) = input.view {
        ui_state.channel_view = view;
    }
    HeaderOutcome { close, reduction }
}

impl HeaderInput {
    /// The slot that is live afterwards is the one whose cell was clicked, the first
    /// cell being that of A; with none clicked it is the one that was live. What is
    /// parked afterwards is what was live, if the slots traded places or the live
    /// one was copied; otherwise what was parked stays.
    pub proof fn a_cell_makes_its_slot_live(self, p: Settings, looks: Looks)
        ensures
            ({
                let after = self.picked(p, looks);
                &&& after.slot == (match self.cell {
                    Some(cell) => if cell == 0 {
                        AbSlot::A
                    } else {
                        AbSlot::B
                    },
                    None => looks.slot,
                })
                &&& self.swaps(looks.slot) <==> after.slot != looks.slot
                &&& after.parked == (if self.copy || after.slot != looks.slot {
                    Scene::of(p)
                } else {
                    looks.parked
                })
            }),
    {
    }

    /// What is picked from the two menus is what the plot goes by: a range of 6,
    /// 12, 18 or 30 dB either way, and the view. The rest of what is seen stays.
    pub proof fn the_header_picks_what_was_picked(self, p: Settings, looks: Looks)
        requires
            self.range matches Some(i) ==> i < 4,
        ensures
            ({
                let after = self.picked(p, looks);
                &&& after.analyzer_mode == looks.analyzer_mode
                &&& after.spectrum_smoothing == looks.spectrum_smoothing
                &&& after.panel_height == looks.panel_height
                &&& after.channel_view == (match self.view {
                    Some(view) => view,
                    None => looks.channel_view,
                })
                &&& self.range is None ==> after.db_range == looks.db_range
                &&& self.range == Some(0usize) ==> after.db_range.bits == 0x40c0_0000
                &&& self.range == Some(1usize) ==> after.db_range.bits == 0x4140_0000
                &&& self.range == Some(2usize) ==> after.db_range.bits == 0x4190_0000
                &&& self.range == Some(3usize) ==> after.db_range.bits == 0x41f0_0000
            }),
    {
    }

    /// Once the host has heard the group at the right end, the bypass has been
    /// turned over if its button was clicked, the output gain is where its knob was
    /// turned to, and the resonance stage is as its own control leaves it. No band
    /// changes, and neither does the polarity.
    pub proof fn the_controls_set_what_was_asked_for(self, p: Settings)
        requires
            !self.reset,
        ensures
            p.after(self.controls(p)) == (Settings {
                bypass: p.bypass != self.bypass,
                output_gain: match self.output {
                    Some(v) => if v.finite() {
                        v
                    } else {
                        p.output_gain
                    },
                    None => p.output_gain,
                },
                resonance: p.after(self.resonance.writes(p.resonance)).resonance,
                ..p
            }),
    {
        let bypass = if self.bypass {
            seq![Write::Bypass(!p.bypass)]
        } else {
            Seq::empty()
        };
        let stage = self.resonance.writes(p.resonance);
        let output = match self.output {
            Some(v) => FloatParam::OutputGain.writes(v),
            None => Seq::empty(),
        };
        assert(self.controls(p) =~= bypass + stage + output);
        p.after_one_list_and_another(bypass + stage, output);
        p.after_one_list_and_another(bypass, stage);
        lemma_the_bypass_is_heard(p, self.bypass);
        let p1 = p.after(bypass);
        lemma_the_stage_is_heard_alike(p, p1, self.resonance);
        lemma_the_output_is_heard(p1.after(stage), self.output);
    }

    /// A reset alone leaves no band in use, unity output, the suppressor at its
    /// defaults and the bypass off, whatever there was before.
    pub proof fn a_reset_leaves_nothing_up(self, p: Settings, slot: int)
        requires
            p.bands.len() == MAX_BANDS,
            0 <= slot < MAX_BANDS,
            self.reset,
            !self.bypass,
            self.output is None,
            self.resonance.writes(p.resonance) == Seq::<Write>::empty(),
        ensures
            !p.after(self.controls(p)).bypass,
            !p.after(self.controls(p)).bands[slot].active,
            p.after(self.controls(p)).output_gain.bits == 0,
            !p.after(self.controls(p)).resonance.enabled,
    {
        let flat = crate::recall::apply_list(p.bands, Scene::flat());
        assert(self.controls(p) =~= flat.push(Write::Bypass(false)));
        p.after_one_more(flat, Write::Bypass(false));
        Scene::flat().fitting_keeps_what_fits();
        crate::recall::a_recall_replaces_everything(p, Scene::flat());
    }

    /// A swap alone brings up what was parked, and a preset alone what it holds,
    /// fitted into range; with neither, nothing is recalled.
    pub proof fn a_recall_brings_up_what_was_asked_for(
        self,
        p: Settings,
        looks: Looks,
        brought: Option<Scene>,
    )
        requires
            p.bands.len() == MAX_BANDS,
        ensures
            ({
                let after = p.after(self.recalls(p, looks, brought));
                &&& self.swaps(looks.slot) && brought is None ==> Scene::of(after)
                    == looks.parked.fitted()
                &&& !self.swaps(looks.slot) && brought is Some ==> Scene::of(after)
                    == brought->0.fitted()
                &&& !self.swaps(looks.slot) && brought is None ==> after == p
            }),
    {
        let writes = self.recalls(p, looks, brought);
        if self.swaps(looks.slot) && brought is None {
            let scene = looks.parked.fitted();
            looks.parked.fitting_keeps_what_fits();
            crate::recall::a_recall_reads_back(p, scene);
            assert(writes =~= crate::recall::apply_list(p.bands, scene));
        }
        if !self.swaps(looks.slot) && brought is Some {
            let scene = brought->0.fitted();
            brought->0.fitting_keeps_what_fits();
            crate::recall::a_recall_reads_back(p, scene);
            assert(writes =~= crate::recall::apply_list(p.bands, scene));
        }
        assert(!self.swaps(looks.slot) && brought is None ==> writes =~= Seq::<Write>::empty());
    }
}

impl HeaderText {
    /// What the preset menu does to the name that is up and to the list. A row
    /// that was found is up by its name, with the list and what was typed left
    /// alone; a deleted row is not up any more; what was saved is up by the name it
    /// was saved under, and what was typed is gone; and the list is what was found
    /// on disk last.
    pub proof fn the_menu_keeps_the_names(self, event: PresetEvent)
        ensures
            ({
                let after = self.after(event);
                &&& after.loaded == self.loaded
                &&& match event {
                    PresetEvent::Chosen { index, found } => {
                        &&& after.presets == self.presets
                        &&& after.draft == self.draft
                        &&& found is Some ==> after.current == self.presets[index as int]
                            && after.status == self.status
                        &&& found is None ==> after.current == self.current && after.status
                            == Some("Not found"@)
                    },
                    PresetEvent::Deleted { index, left } => {
                        &&& after.presets.len() == left@.len()
                        &&& forall|i: int|
                            0 <= i < left@.len() ==> #[trigger] after.presets[i] == left@[i]@
                        &&& after.draft == self.draft
                        &&& self.current == self.presets[index as int] ==> after.current.len() == 0
                        &&& self.current != self.presets[index as int] ==> after.current
                            == self.current
                        &&& after.status == Some("Deleted"@)
                    },
                    PresetEvent::Unnamed => {
                        &&& after.status == Some("Name it first"@)
                        &&& after == (HeaderText { status: after.status, ..self })
                    },
                    PresetEvent::Saved { name, written, now } => {
                        &&& written ==> {
                            &&& after.current == name@
                            &&& after.draft.len() == 0
                            &&& after.presets.len() == now@.len()
                            &&& forall|i: int|
                                0 <= i < now@.len() ==> #[trigger] after.presets[i] == now@[i]@
                            &&& after.status == Some("Saved"@)
                        }
                        &&& !written ==> {
                            &&& after.status == Some("Could not save"@)
                            &&& after == (HeaderText { status: after.status, ..self })
                        }
                    },
                    PresetEvent::Opened => after == self,
                    PresetEvent::Reloaded { now } => {
                        &&& after.presets.len() == now@.len()
                        &&& forall|i: int|
                            0 <= i < now@.len() ==> #[trigger] after.presets[i] == now@[i]@
                        &&& after.current == self.current
                        &&& after.draft == self.draft
                        &&& after.status == Some("Reloaded"@)
                    },
                }
            }),
    {
    }

    /// The menu closes once a preset is up or the folder was opened, and stays for
    /// everything else; and only a row that was found brings anything up.
    pub proof fn the_menu_closes_when_it_is_done(event: PresetEvent)
        ensures
            event.closes() <==> event is Opened || event matches PresetEvent::Chosen {
                found: Some(_),
                ..
            },
            event.brings() is Some <==> event matches PresetEvent::Chosen { found: Some(_), .. },
            event matches PresetEvent::Chosen { found: Some(s), .. } ==> event.brings() == Some(
                s@,
            ),
    {
    }

    /// The preset button says the message while there is one, then the name that is
    /// up, and `Init` when nothing is; and what would be saved goes by what was
    /// typed, or by the name that is up when nothing but white space was.
    pub proof fn the_button_says_what_is_up(self)
        ensures
            self.status matches Some(message) ==> self.shown() == message,
            self.status is None && self.current.len() > 0 ==> self.shown() == self.current,
            self.status is None && self.current.len() == 0 ==> self.shown() == "Init"@,
            crate::text::trimmed(self.draft).len() > 0 ==> self.name_to_save()
                == crate::text::trimmed(self.draft),
            crate::text::trimmed(self.draft).len() == 0 ==> self.name_to_save() == self.current,
    {
    }
}

proof fn lemma_the_bypass_is_heard(p: Settings, clicked: bool)
    ensures
        p.after(
            if clicked {
                seq![Write::Bypass(!p.bypass)]
            } else {
                Seq::empty()
            },
        ) == (Settings { bypass: p.bypass != clicked, ..p }),
{
    let w = Write::Bypass(!p.bypass);
    let nothing = Seq::<Write>::empty();
    p.after_one_more(nothing, w);
    assert(nothing.push(w) =~= seq![w]);
}

proof fn lemma_the_output_is_heard(p: Settings, to: Option<Single>)
    ensures
        p.after(
            match to {
                Some(v) => FloatParam::OutputGain.writes(v),
                None => Seq::empty(),
            },
        ) == (Settings {
            output_gain: match to {
                Some(v) => if v.finite() {
                    v
                } else {
                    p.output_gain
                },
                None => p.output_gain,
            },
            ..p
        }),
{
    let w = Write::OutputGain(to->0);
    let nothing = Seq::<Write>::empty();
    p.after_one_more(nothing, w);
    assert(nothing.push(w) =~= seq![w]);
}

/// The resonance control does the same to a stage whatever stands around it.
proof fn lemma_the_stage_is_heard_alike(p: Settings, q: Settings, input: ResonanceInput)
    requires
        p.resonance == q.resonance,
    ensures
        q.after(input.writes(p.resonance)) == (Settings {
            resonance: p.after(input.writes(p.resonance)).resonance,
            ..q
        }),
{
    crate::suppressor::the_control_sets_what_was_asked_for(p, input);
    crate::suppressor::the_control_sets_what_was_asked_for(q, input);
}

} // verus!
