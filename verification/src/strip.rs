//! The band editor along the bottom: the chips that select a band, and what
//! the two rows of controls do to the selected one.

use vstd::prelude::*;

use crate::display::find_band;
use crate::edit::{
    set_attack, set_band_resonance, set_channel, set_dyn_mode, set_dyn_range, set_dynamic,
    set_enabled, set_freq, set_gain, set_kind, set_q, set_release, set_slope, set_threshold,
    Frame,
};
use crate::limits::BandFloat;
use crate::params::{
    BandChannel, BandKind, BandParams, BandWrite, DynMode, Settings, Slope, TransientState, Write,
    MAX_BANDS,
};
use crate::recall::remove_band;
use crate::single::Single;
use crate::state::{BandView, PANEL_DEFAULT, PANEL_MIN};

verus! {

/// The filter shapes, in the order their buttons are drawn.
pub const KINDS: [BandKind; 7] = [
    BandKind::LowCut,
    BandKind::LowShelf,
    BandKind::Bell,
    BandKind::Notch,
    BandKind::BandPass,
    BandKind::HighShelf,
    BandKind::HighCut,
];

/// The name of each filter shape, in the same order.
pub const KIND_LABELS: [&'static str; 7] = [
    "Low Cut",
    "Low Shelf",
    "Bell",
    "Notch",
    "Band Pass",
    "High Shelf",
    "High Cut",
];

/// The channels in the order their buttons are drawn, each with the letters on
/// the button and what it says when pointed at.
pub const CHANNELS: [(BandChannel, &'static str, &'static str); 5] = [
    (BandChannel::Stereo, "ST", "Stereo — both channels"),
    (BandChannel::Left, "L", "Left — the left signal only"),
    (BandChannel::Right, "R", "Right — the right signal only"),
    (BandChannel::Mid, "M", "Mid — the centre of the image"),
    (BandChannel::Side, "S", "Side — the difference between the channels"),
];

/// Bottom of the band-level meter: -70 dBFS.
pub const METER_MIN: u32 = 0xc28c_0000;

impl BandKind {
    /// Where the button of a filter shape stands in its row.
    pub open spec fn button(self) -> int {
        match self {
            BandKind::LowCut => 0,
            BandKind::LowShelf => 1,
            BandKind::Bell => 2,
            BandKind::Notch => 3,
            BandKind::BandPass => 4,
            BandKind::HighShelf => 5,
            BandKind::HighCut => 6,
        }
    }

    /// What the button of a filter shape is called.
    pub fn label(self) -> (r: &'static str)
        ensures
            r == KIND_LABELS@[self.button()],
            KINDS@[self.button()] == self,
    {
        match self {
            BandKind::LowCut => KIND_LABELS[0],
            BandKind::LowShelf => KIND_LABELS[1],
            BandKind::Bell => KIND_LABELS[2],
            BandKind::Notch => KIND_LABELS[3],
            BandKind::BandPass => KIND_LABELS[4],
            BandKind::HighShelf => KIND_LABELS[5],
            BandKind::HighCut => KIND_LABELS[6],
        }
    }

    /// Every filter shape has a button, and no two share one.
    pub proof fn every_shape_has_a_button(self, other: BandKind)
        ensures
            0 <= self.button() < KINDS@.len(),
            KINDS@.len() == KIND_LABELS@.len(),
            KINDS@[self.button()] == self,
            self.button() == other.button() ==> self == other,
    {
    }
}

impl BandChannel {
    /// Where the button of a channel stands in its row.
    pub open spec fn button(self) -> int {
        match self {
            BandChannel::Stereo => 0,
            BandChannel::Left => 1,
            BandChannel::Right => 2,
            BandChannel::Mid => 3,
            BandChannel::Side => 4,
        }
    }

    /// Where the button of a channel stands in its row.
    pub fn position(self) -> (r: usize)
        ensures
            r == self.button(),
            r < 5,
            CHANNELS@[r as int].0 == self,
    {
        match self {
            BandChannel::Stereo => 0,
            BandChannel::Left => 1,
            BandChannel::Right => 2,
            BandChannel::Mid => 3,
            BandChannel::Side => 4,
        }
    }

    /// Every channel has a button, and no two share one.
    pub proof fn every_channel_has_a_button(self, other: BandChannel)
        ensures
            0 <= self.button() < CHANNELS@.len(),
            CHANNELS@[self.button()].0 == self,
            self.button() == other.button() ==> self == other,
    {
    }
}

/// The larger of the tallest the panel may be and the least it may be.
pub open spec fn ceiling(max: Single) -> Single {
    let least = Single { bits: PANEL_MIN };
    if max.nan() || max.below(least) {
        least
    } else {
        max
    }
}

/// Where a drag of the bar above the panel, or a double click on it, leaves
/// the panel's height.
pub open spec fn resized(
    height: Single,
    dragged_to: Option<Single>,
    double_clicked: bool,
    max: Single,
) -> Single {
    let usual = Single { bits: PANEL_DEFAULT };
    if double_clicked {
        if ceiling(max).below(usual) {
            ceiling(max)
        } else {
            usual
        }
    } else {
        match dragged_to {
            Some(to) => to.clamped(Single { bits: PANEL_MIN }, ceiling(max)),
            None => height,
        }
    }
}

/// However it was moved, the panel ends up no smaller than it may be and no
/// taller.
pub proof fn a_moved_panel_fits(
    height: Single,
    dragged_to: Option<Single>,
    double_clicked: bool,
    max: Single,
)
    requires
        double_clicked || dragged_to is Some,
        !double_clicked ==> !dragged_to->0.nan(),
    ensures
        resized(height, dragged_to, double_clicked, max).within(
            (Single { bits: PANEL_MIN }),
            ceiling(max),
        ),
{
}

/// The drag bar between the plot and the panel. `dragged_to` is the height
/// the pointer asks for while it drags.
pub fn resizer(
    height: Single,
    dragged_to: Option<Single>,
    double_clicked: bool,
    max: Single,
) -> (r: Single)
    ensures
        r == resized(height, dragged_to, double_clicked, max),
{
    let least: Single = Single { bits: PANEL_MIN };
    let most: Single = max.max(least);
    let mut height: Single = height;
    if let Some(to) = dragged_to {
        height = to.clamp(least, most);
    }
    if double_clicked {
        let usual: Single = Single { bits: PANEL_DEFAULT };
        height = if most.lt(usual) {
            most
        } else {
            usual
        };
    }
    height
}

/// What the pointer did to the filter row of a band this frame.
#[derive(Clone, Copy, Debug)]
pub struct FilterInput {
    /// The filter shape whose button was clicked.
    pub kind: Option<BandKind>,
    /// Where each knob was turned to, if it was.
    pub freq: Option<Single>,
    pub gain: Option<Single>,
    pub q: Option<Single>,
    pub resonance: Option<Single>,
    /// The slope and the channel whose buttons were clicked.
    pub slope: Option<Slope>,
    pub channel: Option<BandChannel>,
    /// The three buttons at the right end.
    pub delete: bool,
    pub solo: bool,
    pub enable: bool,
}

impl FilterInput {
    /// What the row writes for a band: the shape, then the knobs that are live
    /// for it, then the slope of a cut, the channel, and the buttons.
    pub open spec fn writes(self, band: BandView) -> Seq<Write> {
        BandWrite::to_slot(band.slot, self.shape(band)) + BandWrite::to_slot(
            band.slot,
            self.buttons(band),
        )
    }

    /// The part of the row that shapes the band.
    pub open spec fn shape(self, band: BandView) -> Seq<BandWrite> {
        let kind = match self.kind {
            Some(kind) => seq![BandWrite::Kind(kind)],
            None => Seq::empty(),
        };
        let slope = match self.slope {
            Some(slope) => if band.kind.cuts() {
                seq![BandWrite::Slope(slope)]
            } else {
                Seq::empty()
            },
            None => Seq::empty(),
        };
        let channel = match self.channel {
            Some(channel) => seq![BandWrite::Channel(channel)],
            None => Seq::empty(),
        };
        kind + self.knobs(band) + slope + channel
    }

    /// The knobs of the row. A band without gain or without a Q has that knob
    /// dimmed.
    pub open spec fn knobs(self, band: BandView) -> Seq<BandWrite> {
        knob(BandFloat::Freq, self.freq, true) + knob(
            BandFloat::Gain,
            self.gain,
            band.kind.has_gain(),
        ) + knob(BandFloat::Q, self.q, band.kind.resonant()) + knob(
            BandFloat::Resonance,
            self.resonance,
            true,
        )
    }

    /// The buttons at the right end, which are laid out from the right.
    pub open spec fn buttons(self, band: BandView) -> Seq<BandWrite> {
        (if self.delete {
            seq![BandWrite::Active(false)]
        } else {
            Seq::empty()
        }) + (if self.enable {
            seq![BandWrite::Enabled(!band.enabled)]
        } else {
            Seq::empty()
        })
    }

    /// What the row leaves soloed: a deleted band is not, and then the solo
    /// button counts.
    pub open spec fn solo_after(self, t: TransientState, slot: usize) -> TransientState {
        let kept = if self.delete {
            crate::recall::unsoloed(t, slot)
        } else {
            t
        };
        if self.solo {
            kept.toggled(slot)
        } else {
            kept
        }
    }
}

/// What a knob writes: where it was turned to, unless it is dimmed.
pub open spec fn knob(f: BandFloat, to: Option<Single>, live: bool) -> Seq<BandWrite> {
    match to {
        Some(v) => if live {
            BandWrite::float(f, v)
        } else {
            Seq::empty()
        },
        None => Seq::empty(),
    }
}

/// A run of writes to a slot, and then one more run, are one run.
proof fn lemma_then(after: Frame, between: Frame, before: Frame, slot: usize, first: Seq<BandWrite>, second: Seq<BandWrite>)
    requires
        between.adds(before, BandWrite::to_slot(slot, first)),
        after.adds(between, BandWrite::to_slot(slot, second)),
    ensures
        after.adds(before, BandWrite::to_slot(slot, first + second)),
{
    after.adding_twice(
        between,
        before,
        BandWrite::to_slot(slot, first),
        BandWrite::to_slot(slot, second),
    );
    assert(BandWrite::to_slot(slot, first) + BandWrite::to_slot(slot, second)
        =~= BandWrite::to_slot(slot, first + second));
}

/// A frame adds nothing to itself.
proof fn lemma_nothing_yet(frame: Frame, slot: usize)
    requires
        frame.setter.orderly(),
    ensures
        frame.adds(frame, BandWrite::to_slot(slot, Seq::empty())),
{
    assert(frame.setter@ + BandWrite::to_slot(slot, Seq::empty()) =~= frame.setter@);
}

/// The knobs of the filter row.
fn filter_knobs(frame: &mut Frame, band: &BandView, input: &FilterInput)
    requires
        old(frame).setter.orderly(),
    ensures
        final(frame).adds(
            *old(frame),
            BandWrite::to_slot(band.slot, input.knobs(*band)),
        ),
        final(frame).transient == old(frame).transient,
{
    let slot: usize = band.slot;
    let ghost f0 = *frame;
    proof {
        lemma_nothing_yet(f0, slot);
    }
    if let Some(v) = input.freq {
        set_freq(frame, slot, v);
    }
    let ghost f1 = *frame;
    proof {
        lemma_nothing_yet(f1, slot);
    }
    if let Some(v) = input.gain {
        if band.kind.uses_gain() {
            set_gain(frame, slot, v);
        }
    }
    let ghost f2 = *frame;
    proof {
        lemma_nothing_yet(f2, slot);
    }
    if let Some(v) = input.q {
        if band.kind.uses_q() {
            set_q(frame, slot, v);
        }
    }
    let ghost f3 = *frame;
    proof {
        lemma_nothing_yet(f3, slot);
    }
    if let Some(v) = input.resonance {
        set_band_resonance(frame, slot, v);
    }
    proof {
        let k1 = knob(BandFloat::Freq, input.freq, true);
        let k2 = knob(BandFloat::Gain, input.gain, band.kind.has_gain());
        let k3 = knob(BandFloat::Q, input.q, band.kind.resonant());
        let k4 = knob(BandFloat::Resonance, input.resonance, true);
        lemma_then(f2, f1, f0, slot, k1, k2);
        lemma_then(f3, f2, f0, slot, k1 + k2, k3);
        lemma_then(*frame, f3, f0, slot, k1 + k2 + k3, k4);
    }
}

/// The part of the filter row that shapes the band.
fn filter_shape(frame: &mut Frame, band: &BandView, input: &FilterInput)
    requires
        old(frame).setter.orderly(),
    ensures
        final(frame).adds(*old(frame), BandWrite::to_slot(band.slot, input.shape(*band))),
        final(frame).transient == old(frame).transient,
{
    let slot: usize = band.slot;
    let ghost f0 = *frame;
    proof {
        lemma_nothing_yet(f0, slot);
    }
    if let Some(kind) = input.kind {
        set_kind(frame, slot, kind);
    }
    let ghost f1 = *frame;
    filter_knobs(frame, band, input);
    let ghost f2 = *frame;
    proof {
        lemma_nothing_yet(f2, slot);
    }
    if let Some(slope) = input.slope {
        if band.kind.is_cut() {
            set_slope(frame, slot, slope);
        }
    }
    let ghost f3 = *frame;
    proof {
        lemma_nothing_yet(f3, slot);
    }
    if let Some(channel) = input.channel {
        set_channel(frame, slot, channel);
    }
    proof {
        let kind = match input.kind {
            Some(kind) => seq![BandWrite::Kind(kind)],
            None => Seq::empty(),
        };
        let knobs = input.knobs(*band);
        let slope = match input.slope {
            Some(slope) => if band.kind.cuts() {
                seq![BandWrite::Slope(slope)]
            } else {
                Seq::empty()
            },
            None => Seq::empty(),
        };
        let channel = match input.channel {
            Some(channel) => seq![BandWrite::Channel(channel)],
            None => Seq::empty(),
        };
        lemma_then(f2, f1, f0, slot, kind, knobs);
        lemma_then(f3, f2, f0, slot, kind + knobs, slope);
        lemma_then(*frame, f3, f0, slot, kind + knobs + slope, channel);
    }
}

/// The buttons of the filter row.
fn filter_buttons(frame: &mut Frame, band: &BandView, input: &FilterInput)
    requires
        old(frame).setter.orderly(),
    ensures
        final(frame).adds(*old(frame), BandWrite::to_slot(band.slot, input.buttons(*band))),
        final(frame).transient == input.solo_after(old(frame).transient, band.slot),
{
    let slot: usize = band.slot;
    let ghost f0 = *frame;
    proof {
        lemma_nothing_yet(f0, slot);
    }
    if input.delete {
        remove_band(frame, slot);
    }
    if input.solo {
        frame.transient.toggle_solo(slot);
    }
    let ghost f1 = *frame;
    proof {
        lemma_nothing_yet(f1, slot);
    }
    if input.enable {
        set_enabled(frame, slot, !band.enabled);
    }
    proof {
        let delete = if input.delete {
            seq![BandWrite::Active(false)]
        } else {
            Seq::empty()
        };
        let enable = if input.enable {
            seq![BandWrite::Enabled(!band.enabled)]
        } else {
            Seq::empty()
        };
        lemma_then(*frame, f1, f0, slot, delete, enable);
    }
}

/// The first row of the band editor.
pub fn filter_row(
    frame: &mut Frame,
    band: &BandView,
    input: &FilterInput,
    selected: &mut Option<usize>,
)
    requires
        old(frame).setter.orderly(),
    ensures
        final(frame).adds(*old(frame), input.writes(*band)),
        final(frame).transient == input.solo_after(old(frame).transient, band.slot),
        *final(selected) == (if input.delete {
            None
        } else {
            *old(selected)
        }),
{
    let ghost f0 = *frame;
    filter_shape(frame, band, input);
    let ghost f1 = *frame;
    filter_buttons(frame, band, input);
    if input.delete {
        *selected = None;
    }
    proof {
        frame.adding_twice(
            f1,
            f0,
            BandWrite::to_slot(band.slot, input.shape(*band)),
            BandWrite::to_slot(band.slot, input.buttons(*band)),
        );
    }
}

/// What the pointer did to the dynamics row of a band this frame.
#[derive(Clone, Copy, Debug)]
pub struct DynamicsInput {
    /// The switch at its left end was clicked.
    pub switch: bool,
    /// The direction whose button was clicked.
    pub mode: Option<DynMode>,
    /// Where each knob was turned to, if it was.
    pub range: Option<Single>,
    pub threshold: Option<Single>,
    pub attack: Option<Single>,
    pub release: Option<Single>,
}

impl DynamicsInput {
    /// What the row writes for a band. Only a band with gain can be switched, and
    /// everything past the switch is inert until the section is armed.
    pub open spec fn writes(self, band: BandView) -> Seq<BandWrite> {
        let switch = if self.switch && band.kind.has_gain() {
            seq![BandWrite::Dynamic(!band.dynamic)]
        } else {
            Seq::empty()
        };
        if armed(band) {
            switch + self.controls()
        } else {
            switch
        }
    }

    /// The row past the switch.
    pub open spec fn controls(self) -> Seq<BandWrite> {
        let mode = match self.mode {
            Some(mode) => seq![BandWrite::DynMode(mode)],
            None => Seq::empty(),
        };
        mode + knob(BandFloat::DynRange, self.range, true) + knob(
            BandFloat::Threshold,
            self.threshold,
            true,
        ) + knob(BandFloat::Attack, self.attack, true) + knob(
            BandFloat::Release,
            self.release,
            true,
        )
    }
}

/// Is the dynamics section of a band at work?
pub open spec fn armed(band: BandView) -> bool {
    band.dynamic && band.kind.has_gain()
}

/// The dynamics row past its switch.
fn dynamics_controls(frame: &mut Frame, slot: usize, input: &DynamicsInput)
    requires
        old(frame).setter.orderly(),
    ensures
        final(frame).adds(*old(frame), BandWrite::to_slot(slot, input.controls())),
        final(frame).transient == old(frame).transient,
{
    let ghost f0 = *frame;
    proof {
        lemma_nothing_yet(f0, slot);
    }
    if let Some(mode) = input.mode {
        set_dyn_mode(frame, slot, mode);
    }
    let ghost f1 = *frame;
    proof {
        lemma_nothing_yet(f1, slot);
    }
    if let Some(v) = input.range {
        set_dyn_range(frame, slot, v);
    }
    let ghost f2 = *frame;
    proof {
        lemma_nothing_yet(f2, slot);
    }
    if let Some(v) = input.threshold {
        set_threshold(frame, slot, v);
    }
    let ghost f3 = *frame;
    proof {
        lemma_nothing_yet(f3, slot);
    }
    if let Some(v) = input.attack {
        set_attack(frame, slot, v);
    }
    let ghost f4 = *frame;
    proof {
        lemma_nothing_yet(f4, slot);
    }
    if let Some(v) = input.release {
        set_release(frame, slot, v);
    }
    proof {
        let mode = match input.mode {
            Some(mode) => seq![BandWrite::DynMode(mode)],
            None => Seq::empty(),
        };
        let k1 = knob(BandFloat::DynRange, input.range, true);
        let k2 = knob(BandFloat::Threshold, input.threshold, true);
        let k3 = knob(BandFloat::Attack, input.attack, true);
        let k4 = knob(BandFloat::Release, input.release, true);
        lemma_then(f2, f1, f0, slot, mode, k1);
        lemma_then(f3, f2, f0, slot, mode + k1, k2);
        lemma_then(f4, f3, f0, slot, mode + k1 + k2, k3);
        lemma_then(*frame, f4, f0, slot, mode + k1 + k2 + k3, k4);
    }
}

/// The second row of the band editor. Until the section is armed, the answer is
/// the line that stands in place of its controls.
pub fn dynamics_row(frame: &mut Frame, band: &BandView, input: &DynamicsInput) -> (r: Option<
    &'static str,
>)
    requires
        old(frame).setter.orderly(),
    ensures
        final(frame).adds(*old(frame), BandWrite::to_slot(band.slot, input.writes(*band))),
        final(frame).transient == old(frame).transient,
        r == (if armed(*band) {
            None
        } else if band.kind.has_gain() {
            Some("Off — the band holds the gain it is drawn at")
        } else {
            Some("Only a bell or a shelf has a gain to move")
        }),
{
    let allowed: bool = band.can_be_dynamic();
    let on: bool = band.dynamic && allowed;
    let ghost f0 = *frame;
    proof {
        lemma_nothing_yet(f0, band.slot);
    }
    if input.switch && allowed {
        set_dynamic(frame, band.slot, !band.dynamic);
    }
    let ghost f1 = *frame;
    if !on {
        return if allowed {
            Some("Off — the band holds the gain it is drawn at")
        } else {
            Some("Only a bell or a shelf has a gain to move")
        };
    }
    dynamics_controls(frame, band.slot, input);
    proof {
        let switch = if input.switch && band.kind.has_gain() {
            seq![BandWrite::Dynamic(!band.dynamic)]
        } else {
            Seq::empty()
        };
        lemma_then(*frame, f1, f0, band.slot, switch, input.controls());
    }
    None
}

/// What the meter of a dynamic band shows.
#[derive(Clone, Copy, Debug)]
pub struct DynMeter {
    /// The level of the band, and the gain it is applying.
    pub level: Single,
    pub delta: Single,
    /// The line under the meter.
    pub engages: &'static str,
}

/// Live band level against the threshold, plus the gain the band is applying.
/// A slot nothing was read for shows an empty meter.
pub fn dyn_meter(level: &Vec<Single>, delta: &Vec<Single>, band: &BandView) -> (r: DynMeter)
    ensures
        r.level == (if band.slot < level@.len() {
            level@[band.slot as int]
        } else {
            (Single { bits: METER_MIN })
        }),
        r.delta == (if band.slot < delta@.len() {
            delta@[band.slot as int]
        } else {
            (Single { bits: 0 })
        }),
        r.engages == (match band.dyn_mode {
            DynMode::Above => "engages above threshold",
            DynMode::Below => "engages below threshold",
        }),
{
    DynMeter {
        level: if band.slot < level.len() {
            level[band.slot]
        } else {
            Single { bits: METER_MIN }
        },
        delta: if band.slot < delta.len() {
            delta[band.slot]
        } else {
            Single { bits: 0 }
        },
        engages: match band.dyn_mode {
            DynMode::Above => "engages above threshold",
            DynMode::Below => "engages below threshold",
        },
    }
}

/// How a band chip is drawn.
#[derive(Clone, Copy, Debug)]
pub struct ChipLook {
    /// The number on it, counting from one.
    pub number: usize,
    /// It stands for the selected band.
    pub active: bool,
    /// Its band is on.
    pub lit: bool,
    /// It carries the mark of a dynamic band.
    pub dynamic: bool,
    /// The letter of the one side of the image its band acts on, if it does.
    pub badge: &'static str,
    /// What it says when pointed at, around the frequency: the filter shape, and
    /// the channel of a band with a badge.
    pub label: &'static str,
    pub channel: Option<&'static str>,
}

/// One band chip: its number, and the two marks that say it is dynamic or that
/// it acts on one side of the image only.
pub fn chip(band: &BandView, index: usize, selected: Option<usize>) -> (r: ChipLook)
    requires
        index < usize::MAX,
    ensures
        r.number == index + 1,
        r.active == (selected == Some(band.slot)),
        r.lit == band.enabled,
        r.dynamic == armed(*band),
        r.badge == band.badge_text(),
        r.label == KIND_LABELS@[band.kind.button()],
        r.channel == (if band.badge_text()@.len() == 0 {
            None
        } else {
            Some(band.channel.wire_name())
        }),
{
    let badge: &'static str = band.badge();
    ChipLook {
        number: index + 1,
        active: match selected {
            Some(slot) => slot == band.slot,
            None => false,
        },
        lit: band.enabled,
        dynamic: band.dynamic && band.can_be_dynamic(),
        badge,
        label: band.kind.label(),
        channel: if badge.is_empty() {
            None
        } else {
            Some(band.channel.as_wire())
        },
    }
}

/// The line under the chips: how many bands there are, and whether that is as
/// many as there can be.
#[derive(Clone, Copy, Debug)]
pub struct ChipCount {
    pub used: usize,
    pub full: bool,
}

/// The band chips, and the count under them. A click on a chip selects its
/// band.
pub fn chips(bands: &Vec<BandView>, clicked: Option<usize>, selected: &mut Option<usize>) -> (r:
    ChipCount)
    requires
        clicked matches Some(i) ==> i < bands@.len(),
    ensures
        r.used == bands@.len(),
        r.full == (bands@.len() >= MAX_BANDS),
        *final(selected) == chosen(bands@, clicked, *old(selected)),
{
    if let Some(i) = clicked {
        *selected = Some(bands[i].slot);
    }
    ChipCount { used: bands.len(), full: bands.len() >= MAX_BANDS }
}

/// What is selected after a click on a chip, or on none.
pub open spec fn chosen(
    bands: Seq<BandView>,
    clicked: Option<usize>,
    selected: Option<usize>,
) -> Option<usize> {
    match clicked {
        Some(i) => Some(bands[i as int].slot),
        None => selected,
    }
}

/// What the pointer did to the band editor this frame.
#[derive(Clone, Copy, Debug)]
pub struct StripInput {
    /// The chip that was clicked, counting from the front.
    pub chip: Option<usize>,
    pub filter: FilterInput,
    pub dynamics: DynamicsInput,
}

impl StripInput {
    /// What the editor writes for the band it shows.
    pub open spec fn writes(self, band: BandView) -> Seq<Write> {
        self.filter.writes(band) + BandWrite::to_slot(band.slot, self.dynamics.writes(band))
    }
}

/// The whole panel. The answer is which band it shows, counting from the front:
/// none, when nothing that is in the list is selected.
pub fn show(
    frame: &mut Frame,
    bands: &Vec<BandView>,
    input: &StripInput,
    selected: &mut Option<usize>,
) -> (r: Option<usize>)
    requires
        old(frame).setter.orderly(),
        input.chip matches Some(i) ==> i < bands@.len(),
    ensures
        match crate::display::position_of(bands@, chosen(bands@, input.chip, *old(selected))) {
            Some(i) => {
                let band = bands@[i];
                &&& r == Some(i as usize)
                &&& i < bands@.len()
                &&& final(frame).adds(*old(frame), input.writes(band))
                &&& final(frame).transient == input.filter.solo_after(
                    old(frame).transient,
                    band.slot,
                )
                &&& *final(selected) == (if input.filter.delete {
                    None
                } else {
                    Some(band.slot)
                })
            },
            None => {
                &&& r is None
                &&& *final(frame) == *old(frame)
                &&& *final(selected) == chosen(bands@, input.chip, *old(selected))
            },
        },
{
    let ghost before = *frame;
    let _ = chips(bands, input.chip, selected);
    let index: Option<usize> = find_band(bands, *selected);
    if let Some(i) = index {
        let band: BandView = bands[i];
        filter_row(frame, &band, &input.filter, selected);
        let ghost between = *frame;
        let _ = dynamics_row(frame, &band, &input.dynamics);
        proof {
            frame.adding_twice(
                between,
                before,
                input.filter.writes(band),
                BandWrite::to_slot(band.slot, input.dynamics.writes(band)),
            );
        }
    }
    index
}

proof fn lemma_a_knob_leaves_this(b: BandParams, f: BandFloat, to: Option<Single>, live: bool)
    ensures
        b.after(knob(f, to, live)) == (if to is Some && live && to->0.finite() {
            b.with(BandWrite::Float(f, to->0))
        } else {
            b
        }),
{
    b.after_one_write(BandWrite::Float(f, to->0));
}

proof fn lemma_the_knobs_leave_this(b: BandParams, input: FilterInput, band: BandView)
    ensures
        b.after(input.knobs(band)) == (BandParams {
            freq: if input.freq is Some && input.freq->0.finite() {
                input.freq->0
            } else {
                b.freq
            },
            gain: if input.gain is Some && band.kind.has_gain() && input.gain->0.finite() {
                input.gain->0
            } else {
                b.gain
            },
            q: if input.q is Some && band.kind.resonant() && input.q->0.finite() {
                input.q->0
            } else {
                b.q
            },
            resonance: if input.resonance is Some && input.resonance->0.finite() {
                input.resonance->0
            } else {
                b.resonance
            },
            ..b
        }),
{
    let k1 = knob(BandFloat::Freq, input.freq, true);
    let k2 = knob(BandFloat::Gain, input.gain, band.kind.has_gain());
    let k3 = knob(BandFloat::Q, input.q, band.kind.resonant());
    let k4 = knob(BandFloat::Resonance, input.resonance, true);
    b.lemma_after_both(k1 + k2 + k3, k4);
    b.lemma_after_both(k1 + k2, k3);
    b.lemma_after_both(k1, k2);
    let b1 = b.after(k1);
    let b2 = b1.after(k2);
    let b3 = b2.after(k3);
    lemma_a_knob_leaves_this(b, BandFloat::Freq, input.freq, true);
    lemma_a_knob_leaves_this(b1, BandFloat::Gain, input.gain, band.kind.has_gain());
    lemma_a_knob_leaves_this(b2, BandFloat::Q, input.q, band.kind.resonant());
    lemma_a_knob_leaves_this(b3, BandFloat::Resonance, input.resonance, true);
}

proof fn lemma_the_shape_leaves_this(b: BandParams, input: FilterInput, band: BandView)
    ensures
        b.after(input.shape(band)) == (BandParams {
            kind: if input.kind is Some {
                input.kind->0
            } else {
                b.kind
            },
            slope: if input.slope is Some && band.kind.cuts() {
                input.slope->0
            } else {
                b.slope
            },
            channel: if input.channel is Some {
                input.channel->0
            } else {
                b.channel
            },
            ..b.after(input.knobs(band))
        }),
{
    let kind = match input.kind {
        Some(kind) => seq![BandWrite::Kind(kind)],
        None => Seq::empty(),
    };
    let knobs = input.knobs(band);
    let slope = match input.slope {
        Some(slope) => if band.kind.cuts() {
            seq![BandWrite::Slope(slope)]
        } else {
            Seq::empty()
        },
        None => Seq::empty(),
    };
    let channel = match input.channel {
        Some(channel) => seq![BandWrite::Channel(channel)],
        None => Seq::empty(),
    };
    b.lemma_after_both(kind + knobs + slope, channel);
    b.lemma_after_both(kind + knobs, slope);
    b.lemma_after_both(kind, knobs);
    let b1 = b.after(kind);
    let b2 = b1.after(knobs);
    let b3 = b2.after(slope);
    b.after_one_write(BandWrite::Kind(input.kind->0));
    lemma_the_knobs_leave_this(b, input, band);
    lemma_the_knobs_leave_this(b1, input, band);
    b2.after_one_write(BandWrite::Slope(input.slope->0));
    b3.after_one_write(BandWrite::Channel(input.channel->0));
}

proof fn lemma_the_buttons_leave_this(b: BandParams, input: FilterInput, band: BandView)
    ensures
        b.after(input.buttons(band)) == (BandParams {
            active: b.active && !input.delete,
            enabled: if input.enable {
                !band.enabled
            } else {
                b.enabled
            },
            ..b
        }),
{
    let delete = if input.delete {
        seq![BandWrite::Active(false)]
    } else {
        Seq::empty()
    };
    let enable = if input.enable {
        seq![BandWrite::Enabled(!band.enabled)]
    } else {
        Seq::empty()
    };
    b.lemma_after_both(delete, enable);
    b.after_one_write(BandWrite::Active(false));
    b.after(delete).after_one_write(BandWrite::Enabled(!band.enabled));
}

proof fn lemma_the_filter_row_is_heard(p: Settings, input: FilterInput, band: BandView)
    requires
        p.bands.len() == MAX_BANDS,
        band.slot < MAX_BANDS,
    ensures
        p.after(input.writes(band)) == (Settings {
            bands: p.bands.update(
                band.slot as int,
                p.bands[band.slot as int].after(input.shape(band)).after(input.buttons(band)),
            ),
            ..p
        }),
{
    let shape = BandWrite::to_slot(band.slot, input.shape(band));
    let nothing = Seq::<Write>::empty();
    assert(nothing + shape =~= shape);
    p.after_writes_to_a_slot(nothing, band.slot, input.shape(band));
    p.after_writes_to_a_slot(shape, band.slot, input.buttons(band));
    assert(p.after(input.writes(band)).bands =~= p.bands.update(
        band.slot as int,
        p.bands[band.slot as int].after(input.shape(band)).after(input.buttons(band)),
    ));
}

/// Once the host has heard the filter row, the band it stands for has the shape
/// and the channel whose buttons were clicked and every knob's parameter where the
/// knob was turned to; where nothing was clicked or turned it has what it had. The
/// gain knob works for the shelves and the bell, the Q knob for the bell, the
/// notch and the band-pass, and the slope buttons for the cuts. A deleted band is
/// out of use, and the enable button turns the switch over. Nothing else changes,
/// about this band or any other.
pub proof fn the_filter_row_sets_what_was_asked_for(
    p: Settings,
    input: FilterInput,
    band: BandView,
)
    requires
        p.bands.len() == MAX_BANDS,
        band.slot < MAX_BANDS,
    ensures
        ({
            let was = p.bands[band.slot as int];
            let after = p.after(input.writes(band));
            let now = after.bands[band.slot as int];
            let has_gain = band.kind == BandKind::LowShelf || band.kind == BandKind::Bell
                || band.kind == BandKind::HighShelf;
            let has_q = band.kind == BandKind::Bell || band.kind == BandKind::Notch || band.kind
                == BandKind::BandPass;
            let has_slope = band.kind == BandKind::LowCut || band.kind == BandKind::HighCut;
            &&& now.kind == (match input.kind {
                Some(kind) => kind,
                None => was.kind,
            })
            &&& now.channel == (match input.channel {
                Some(channel) => channel,
                None => was.channel,
            })
            &&& now.slope == (match input.slope {
                Some(slope) => if has_slope {
                    slope
                } else {
                    was.slope
                },
                None => was.slope,
            })
            &&& now.freq == (match input.freq {
                Some(v) => if v.finite() {
                    v
                } else {
                    was.freq
                },
                None => was.freq,
            })
            &&& now.gain == (match input.gain {
                Some(v) => if has_gain && v.finite() {
                    v
                } else {
                    was.gain
                },
                None => was.gain,
            })
            &&& now.q == (match input.q {
                Some(v) => if has_q && v.finite() {
                    v
                } else {
                    was.q
                },
                None => was.q,
            })
            &&& now.resonance == (match input.resonance {
                Some(v) => if v.finite() {
                    v
                } else {
                    was.resonance
                },
                None => was.resonance,
            })
            &&& now.active == (was.active && !input.delete)
            &&& now.enabled == (if input.enable {
                !band.enabled
            } else {
                was.enabled
            })
            &&& now == (BandParams {
                kind: now.kind,
                channel: now.channel,
                slope: now.slope,
                freq: now.freq,
                gain: now.gain,
                q: now.q,
                resonance: now.resonance,
                active: now.active,
                enabled: now.enabled,
                ..was
            })
            &&& after == (Settings { bands: p.bands.update(band.slot as int, now), ..p })
        }),
{
    let was = p.bands[band.slot as int];
    lemma_the_filter_row_is_heard(p, input, band);
    lemma_the_shape_leaves_this(was, input, band);
    lemma_the_knobs_leave_this(was, input, band);
    lemma_the_buttons_leave_this(was.after(input.shape(band)), input, band);
}

/// What the filter row leaves soloed: the solo button solos its band, or lets it
/// go when it was soloed; a band that is deleted is not soloed, unless the solo
/// button was pressed with it; and nothing else touches the solo.
pub proof fn the_filter_row_solos_its_band(input: FilterInput, t: TransientState, slot: usize)
    requires
        slot < MAX_BANDS,
    ensures
        ({
            let after = input.solo_after(t, slot);
            &&& after.flush == t.flush
            &&& !input.delete && !input.solo ==> after == t
            &&& !input.delete && input.solo ==> after.soloed() == (if t.soloed() == Some(slot) {
                None
            } else {
                Some(slot)
            })
            &&& input.delete && !input.solo ==> after.soloed() == (if t.soloed() == Some(slot) {
                None
            } else {
                t.soloed()
            })
            &&& input.delete && input.solo ==> after.soloed() == Some(slot)
        }),
{
}

proof fn lemma_the_dynamics_come_in_turn(b: BandParams, input: DynamicsInput)
    ensures
        b.after(input.controls()) == b.after(
            match input.mode {
                Some(mode) => seq![BandWrite::DynMode(mode)],
                None => Seq::empty(),
            },
        ).after(knob(BandFloat::DynRange, input.range, true)).after(
            knob(BandFloat::Threshold, input.threshold, true),
        ).after(knob(BandFloat::Attack, input.attack, true)).after(
            knob(BandFloat::Release, input.release, true),
        ),
{
    let mode = match input.mode {
        Some(mode) => seq![BandWrite::DynMode(mode)],
        None => Seq::empty(),
    };
    let k1 = knob(BandFloat::DynRange, input.range, true);
    let k2 = knob(BandFloat::Threshold, input.threshold, true);
    let k3 = knob(BandFloat::Attack, input.attack, true);
    let k4 = knob(BandFloat::Release, input.release, true);
    b.lemma_after_both(mode + k1 + k2 + k3, k4);
    b.lemma_after_both(mode + k1 + k2, k3);
    b.lemma_after_both(mode + k1, k2);
    b.lemma_after_both(mode, k1);
}

proof fn lemma_the_ballistics_leave_this(b: BandParams, input: DynamicsInput)
    ensures
        b.after(knob(BandFloat::Attack, input.attack, true)).after(
            knob(BandFloat::Release, input.release, true),
        ) == (BandParams {
            attack: if input.attack is Some && input.attack->0.finite() {
                input.attack->0
            } else {
                b.attack
            },
            release: if input.release is Some && input.release->0.finite() {
                input.release->0
            } else {
                b.release
            },
            ..b
        }),
{
    lemma_a_knob_leaves_this(b, BandFloat::Attack, input.attack, true);
    let b1 = b.after(knob(BandFloat::Attack, input.attack, true));
    lemma_a_knob_leaves_this(b1, BandFloat::Release, input.release, true);
}

proof fn lemma_the_levels_leave_this(b: BandParams, input: DynamicsInput)
    ensures
        b.after(knob(BandFloat::DynRange, input.range, true)).after(
            knob(BandFloat::Threshold, input.threshold, true),
        ) == (BandParams {
            dyn_range: if input.range is Some && input.range->0.finite() {
                input.range->0
            } else {
                b.dyn_range
            },
            threshold: if input.threshold is Some && input.threshold->0.finite() {
                input.threshold->0
            } else {
                b.threshold
            },
            ..b
        }),
{
    lemma_a_knob_leaves_this(b, BandFloat::DynRange, input.range, true);
    let b1 = b.after(knob(BandFloat::DynRange, input.range, true));
    lemma_a_knob_leaves_this(b1, BandFloat::Threshold, input.threshold, true);
}

proof fn lemma_the_dynamics_leave_this(b: BandParams, input: DynamicsInput)
    ensures
        b.after(input.controls()) == (BandParams {
            dyn_mode: if input.mode is Some {
                input.mode->0
            } else {
                b.dyn_mode
            },
            dyn_range: if input.range is Some && input.range->0.finite() {
                input.range->0
            } else {
                b.dyn_range
            },
            threshold: if input.threshold is Some && input.threshold->0.finite() {
                input.threshold->0
            } else {
                b.threshold
            },
            attack: if input.attack is Some && input.attack->0.finite() {
                input.attack->0
            } else {
                b.attack
            },
            release: if input.release is Some && input.release->0.finite() {
                input.release->0
            } else {
                b.release
            },
            ..b
        }),
{
    let mode = match input.mode {
        Some(mode) => seq![BandWrite::DynMode(mode)],
        None => Seq::empty(),
    };
    let b1 = b.after(mode);
    assert(b1 == (BandParams {
        dyn_mode: if input.mode is Some {
            input.mode->0
        } else {
            b.dyn_mode
        },
        ..b
    })) by {
        b.after_one_write(BandWrite::DynMode(input.mode->0));
    }
    lemma_the_dynamics_come_in_turn(b, input);
    lemma_the_levels_leave_this(b1, input);
    lemma_the_ballistics_leave_this(
        b1.after(knob(BandFloat::DynRange, input.range, true)).after(
            knob(BandFloat::Threshold, input.threshold, true),
        ),
        input,
    );
}

/// Once the host has heard the dynamics row, a shelf or a bell whose switch was
/// clicked has its dynamics turned over, and one whose dynamics were on has the
/// direction that was clicked and every knob's parameter where the knob was turned
/// to. A band without gain cannot be switched, and until the switch is on the rest
/// of the row does nothing. Nothing else about the band changes.
pub proof fn the_dynamics_row_sets_what_was_asked_for(
    p: Settings,
    input: DynamicsInput,
    band: BandView,
)
    requires
        p.bands.len() == MAX_BANDS,
        band.slot < MAX_BANDS,
    ensures
        ({
            let was = p.bands[band.slot as int];
            let after = p.after(BandWrite::to_slot(band.slot, input.writes(band)));
            let now = after.bands[band.slot as int];
            let has_gain = band.kind == BandKind::LowShelf || band.kind == BandKind::Bell
                || band.kind == BandKind::HighShelf;
            let live = has_gain && band.dynamic;
            &&& now.dynamic == (if input.switch && has_gain {
                !band.dynamic
            } else {
                was.dynamic
            })
            &&& now.dyn_mode == (match input.mode {
                Some(mode) => if live {
                    mode
                } else {
                    was.dyn_mode
                },
                None => was.dyn_mode,
            })
            &&& now.dyn_range == (match input.range {
                Some(v) => if live && v.finite() {
                    v
                } else {
                    was.dyn_range
                },
                None => was.dyn_range,
            })
            &&& now.threshold == (match input.threshold {
                Some(v) => if live && v.finite() {
                    v
                } else {
                    was.threshold
                },
                None => was.threshold,
            })
            &&& now.attack == (match input.attack {
                Some(v) => if live && v.finite() {
                    v
                } else {
                    was.attack
                },
                None => was.attack,
            })
            &&& now.release == (match input.release {
                Some(v) => if live && v.finite() {
                    v
                } else {
                    was.release
                },
                None => was.release,
            })
            &&& now == (BandParams {
                dynamic: now.dynamic,
                dyn_mode: now.dyn_mode,
                dyn_range: now.dyn_range,
                threshold: now.threshold,
                attack: now.attack,
                release: now.release,
                ..was
            })
            &&& after == (Settings { bands: p.bands.update(band.slot as int, now), ..p })
        }),
{
    let was = p.bands[band.slot as int];
    let switch = if input.switch && band.kind.has_gain() {
        seq![BandWrite::Dynamic(!band.dynamic)]
    } else {
        Seq::empty()
    };
    let nothing = Seq::<Write>::empty();
    assert(nothing + BandWrite::to_slot(band.slot, input.writes(band)) =~= BandWrite::to_slot(
        band.slot,
        input.writes(band),
    ));
    p.after_writes_to_a_slot(nothing, band.slot, input.writes(band));
    was.lemma_after_both(switch, input.controls());
    was.after_one_write(BandWrite::Dynamic(!band.dynamic));
    lemma_the_dynamics_leave_this(was.after(switch), input);
}

/// Both rows together: the filter row is heard first, and then the dynamics row.
pub proof fn the_strip_is_its_two_rows(p: Settings, input: StripInput, band: BandView)
    requires
        p.bands.len() == MAX_BANDS,
        band.slot < MAX_BANDS,
    ensures
        p.after(input.writes(band)) == p.after(input.filter.writes(band)).after(
            BandWrite::to_slot(band.slot, input.dynamics.writes(band)),
        ),
        input.filter.kind matches Some(kind) ==> p.after(
            input.writes(band),
        ).bands[band.slot as int].kind == kind,
{
    let filtered = p.after(input.filter.writes(band));
    p.after_one_list_and_another(
        input.filter.writes(band),
        BandWrite::to_slot(band.slot, input.dynamics.writes(band)),
    );
    the_filter_row_sets_what_was_asked_for(p, input.filter, band);
    the_dynamics_row_sets_what_was_asked_for(filtered, input.dynamics, band);
}

/// What the editor writes goes to the one band it shows.
pub proof fn the_strip_touches_only_its_band(input: StripInput, band: BandView, k: int)
    requires
        0 <= k < input.writes(band).len(),
    ensures
        input.writes(band)[k] matches Write::Band(slot, _) && slot == band.slot,
{
}

/// Where the panel's height ends up. A height the pointer asks for that fits is the
/// height it gets; one that is too small ends at 176, and one that is too tall at
/// the tallest there may be. A double click asks for 232. Left alone, the panel
/// keeps its height.
pub proof fn a_panel_gets_the_height_it_asks_for(height: Single, to: Single, max: Single)
    requires
        !to.nan(),
        !max.nan(),
        !max.below(Single { bits: 0x4330_0000 }),
    ensures
        resized(height, None, false, max) == height,
        !to.below(Single { bits: 0x4330_0000 }) && !max.below(to) ==> resized(
            height,
            Some(to),
            false,
            max,
        ) == to,
        to.below(Single { bits: 0x4330_0000 }) ==> resized(height, Some(to), false, max).bits
            == 0x4330_0000,
        max.below(to) ==> resized(height, Some(to), false, max) == max,
        !max.below(Single { bits: 0x4368_0000 }) ==> resized(height, None, true, max).bits
            == 0x4368_0000,
        max.below(Single { bits: 0x4368_0000 }) ==> resized(height, None, true, max) == max,
{
}

/// The dynamics of a band are at work when they are switched on and the band is a
/// shelf or a bell; and a click on a chip selects the slot of its band.
pub proof fn a_chip_selects_its_band(
    band: BandView,
    bands: Seq<BandView>,
    i: usize,
    selected: Option<usize>,
)
    requires
        i < bands.len(),
    ensures
        armed(band) <==> band.dynamic && (band.kind == BandKind::LowShelf || band.kind
            == BandKind::Bell || band.kind == BandKind::HighShelf),
        chosen(bands, Some(i), selected) == Some(bands[i as int].slot),
        chosen(bands, None, selected) == selected,
{
}

} // verus!
