//! What the UI holds that the parameters do not.
//!
//! [`BandView`] is a band read out of the parameter array: a plain copy the
//! display and the band panel can pass around, read fresh every frame.
//!
//! [`Snapshot`] is everything an A/B slot or a preset carries.
//!
//! [`UiState`] is the view state the host should remember but never automate.

use vstd::prelude::*;

use crate::params::{
    BandChannel, BandKind, BandParams, BandResMode, DynMode, EquzxParams, Slope, MAX_BANDS,
};
use crate::single::Single;
use crate::snapshot::{Scene, Snapshot};

verus! {

/// One active band slot, flattened for drawing.
#[derive(Clone, Copy, Debug, PartialEq, Eq, Structural)]
pub struct BandView {
    /// Slot index, which is the band's identity everywhere: automation lane,
    /// solo target, and the number drawn on its handle.
    pub slot: usize,
    pub kind: BandKind,
    pub channel: BandChannel,
    pub freq: Single,
    pub gain: Single,
    pub q: Single,
    pub slope: Slope,
    pub enabled: bool,
    pub dynamic: bool,
    pub dyn_mode: DynMode,
    pub dyn_range: Single,
    pub threshold: Single,
    pub attack: Single,
    pub release: Single,
    /// Per-band resonance suppression, in percent.
    pub resonance: Single,
    pub res_mode: BandResMode,
    /// Ceiling on this band's resonance cut, in dB.
    pub res_range: Single,
    /// dB taken off the detection threshold inside this band's region.
    pub res_sens: Single,
    /// Spectral search half-width, octaves either side of the band.
    pub res_width: Single,
    pub res_attack: Single,
    pub res_release: Single,
}

impl BandView {
    /// A band slot, as the UI reads it.
    pub open spec fn of(slot: usize, p: BandParams) -> BandView {
        BandView {
            slot,
            kind: p.kind,
            channel: p.channel,
            freq: p.freq,
            gain: p.gain,
            q: p.q,
            slope: p.slope,
            enabled: p.enabled,
            dynamic: p.dynamic,
            dyn_mode: p.dyn_mode,
            dyn_range: p.dyn_range,
            threshold: p.threshold,
            attack: p.attack,
            release: p.release,
            resonance: p.resonance,
            res_mode: p.res_mode,
            res_range: p.res_range,
            res_sens: p.res_sens,
            res_width: p.res_width,
            res_attack: p.res_attack,
            res_release: p.res_release,
        }
    }

    /// The active slots among some leading ones, low slot first.
    pub open spec fn listed(bands: Seq<BandParams>) -> Seq<BandView>
        decreases bands.len(),
    {
        if bands.len() == 0 {
            Seq::empty()
        } else {
            let before = BandView::listed(bands.drop_last());
            if bands.last().active {
                before.push(BandView::of((bands.len() - 1) as usize, bands.last()))
            } else {
                before
            }
        }
    }

    /// Dynamics move a band's gain, so they only mean something where gain does.
    pub fn can_be_dynamic(&self) -> (r: bool)
        ensures
            r == self.kind.has_gain(),
    {
        self.kind.uses_gain()
    }

    /// Is this band drawn at all in a channel view? A stereo band acts on
    /// everything, so it is in every view; any other only in the view of its own
    /// channel, and in the view of them all.
    pub open spec fn visible_in(self, view: ChannelView) -> bool {
        view == ChannelView::All || self.channel == BandChannel::Stereo || self.channel
            == view.channel_of_new_band()
    }

    /// Is this band drawn at all in the channel view currently on screen?
    pub fn in_view(&self, view: ChannelView) -> (r: bool)
        ensures
            r == self.visible_in(view),
    {
        match view {
            ChannelView::All => true,
            ChannelView::Left => matches!(self.channel, BandChannel::Stereo | BandChannel::Left),
            ChannelView::Right => matches!(self.channel, BandChannel::Stereo | BandChannel::Right),
            ChannelView::Mid => matches!(self.channel, BandChannel::Stereo | BandChannel::Mid),
            ChannelView::Side => matches!(self.channel, BandChannel::Stereo | BandChannel::Side),
        }
    }

    /// The one-letter badge the band list and the display draw.
    pub open spec fn badge_text(self) -> &'static str {
        match self.channel {
            BandChannel::Stereo => "",
            BandChannel::Left => "L",
            BandChannel::Right => "R",
            BandChannel::Mid => "M",
            BandChannel::Side => "S",
        }
    }

    /// The one-letter badge the band list and the display draw.
    pub fn badge(&self) -> (r: &'static str)
        ensures
            r == self.badge_text(),
    {
        match self.channel {
            BandChannel::Stereo => "",
            BandChannel::Left => "L",
            BandChannel::Right => "R",
            BandChannel::Mid => "M",
            BandChannel::Side => "S",
        }
    }

    /// Where the handle sits vertically: at its gain, or on the zero line for
    /// the types that have no gain to speak of.
    pub fn handle_db(&self) -> (r: Single)
        ensures
            r == (if self.kind.has_gain() {
                self.gain
            } else {
                Single { bits: 0 }
            }),
    {
        if self.kind.uses_gain() {
            self.gain
        } else {
            Single { bits: 0 }
        }
    }
}

/// Read every active slot, low slot first.
///
/// Slot order rather than frequency order, because the index into this list is
/// what picks a band's colour and its number, and a band that changed colour
/// when another one was dragged past it would be worse than one whose numbers
/// are not left to right.
pub fn read_bands(params: &EquzxParams) -> (r: Vec<BandView>)
    ensures
        r@ == BandView::listed(params.bands@),
{
    let mut bands: Vec<BandView> = Vec::new();
    let mut slot: usize = 0;
    while slot < MAX_BANDS
        invariant
            slot <= MAX_BANDS,
            bands@ == BandView::listed(params.bands@.take(slot as int)),
        decreases MAX_BANDS - slot,
    {
        let p: BandParams = params.bands[slot];
        proof {
            let upto = params.bands@.take(slot + 1);
            assert(upto.drop_last() =~= params.bands@.take(slot as int));
            assert(upto.last() == p);
        }
        if p.active {
            bands.push(BandView {
                slot,
                kind: p.kind,
                channel: p.channel,
                freq: p.freq,
                gain: p.gain,
                q: p.q,
                slope: p.slope,
                enabled: p.enabled,
                dynamic: p.dynamic,
                dyn_mode: p.dyn_mode,
                dyn_range: p.dyn_range,
                threshold: p.threshold,
                attack: p.attack,
                release: p.release,
                resonance: p.resonance,
                res_mode: p.res_mode,
                res_range: p.res_range,
                res_sens: p.res_sens,
                res_width: p.res_width,
                res_attack: p.res_attack,
                res_release: p.res_release,
            });
        }
        slot = slot + 1;
    }
    assert(params.bands@.take(MAX_BANDS as int) =~= params.bands@);
    bands
}

/// The list holds exactly the active slots, each as it stands, and never two out
/// of order.
pub proof fn the_band_list_is_the_active_slots(bands: Seq<BandParams>)
    requires
        bands.len() <= MAX_BANDS,
    ensures
        BandView::listed(bands).len() <= bands.len(),
        forall|i: int|
            0 <= i < BandView::listed(bands).len() ==> {
                let view = #[trigger] BandView::listed(bands)[i];
                &&& view.slot < bands.len()
                &&& bands[view.slot as int].active
                &&& view == BandView::of(view.slot, bands[view.slot as int])
            },
        forall|i: int, j: int|
            0 <= i < j < BandView::listed(bands).len() ==> (#[trigger] BandView::listed(
                bands,
            )[i]).slot < (#[trigger] BandView::listed(bands)[j]).slot,
        forall|slot: int|
            0 <= slot < bands.len() && (#[trigger] bands[slot]).active
                ==> BandView::listed(bands).contains(BandView::of(slot as usize, bands[slot])),
    decreases bands.len(),
{
    if bands.len() > 0 {
        the_band_list_is_the_active_slots(bands.drop_last());
        let before = BandView::listed(bands.drop_last());
        let all = BandView::listed(bands);
        assert forall|slot: int|
            0 <= slot < bands.len() && (#[trigger] bands[slot]).active implies all.contains(
            BandView::of(slot as usize, bands[slot]),
        ) by {
            if slot < bands.len() - 1 {
                assert(bands.drop_last()[slot] == bands[slot]);
                let i = choose|i: int|
                    0 <= i < before.len() && before[i] == BandView::of(slot as usize, bands[slot]);
                assert(all[i] == before[i]);
            } else {
                assert(all.last() == BandView::of(slot as usize, bands[slot]));
            }
        }
    }
}

/// Which views show a band: the view of everything shows every band, a stereo
/// band is in every view, and a band on one side of the image is in the view of
/// that side and in no other.
pub proof fn a_band_is_shown_where_it_acts(band: BandView)
    ensures
        band.visible_in(ChannelView::All),
        band.visible_in(ChannelView::Left) <==> band.channel == BandChannel::Stereo
            || band.channel == BandChannel::Left,
        band.visible_in(ChannelView::Right) <==> band.channel == BandChannel::Stereo
            || band.channel == BandChannel::Right,
        band.visible_in(ChannelView::Mid) <==> band.channel == BandChannel::Stereo
            || band.channel == BandChannel::Mid,
        band.visible_in(ChannelView::Side) <==> band.channel == BandChannel::Stereo
            || band.channel == BandChannel::Side,
{
}

/// Each entry of the list carries every parameter of its slot under the
/// parameter's own name, and the slot is in use.
pub proof fn the_band_list_tells_the_parameters(bands: Seq<BandParams>, i: int)
    requires
        bands.len() <= MAX_BANDS,
        0 <= i < BandView::listed(bands).len(),
    ensures
        ({
            let view = BandView::listed(bands)[i];
            let p = bands[view.slot as int];
            &&& view.slot < bands.len()
            &&& p.active
            &&& view.kind == p.kind
            &&& view.channel == p.channel
            &&& view.freq == p.freq
            &&& view.gain == p.gain
            &&& view.q == p.q
            &&& view.slope == p.slope
            &&& view.enabled == p.enabled
            &&& view.dynamic == p.dynamic
            &&& view.dyn_mode == p.dyn_mode
            &&& view.dyn_range == p.dyn_range
            &&& view.threshold == p.threshold
            &&& view.attack == p.attack
            &&& view.release == p.release
            &&& view.resonance == p.resonance
            &&& view.res_mode == p.res_mode
            &&& view.res_range == p.res_range
            &&& view.res_sens == p.res_sens
            &&& view.res_width == p.res_width
            &&& view.res_attack == p.res_attack
            &&& view.res_release == p.res_release
        }),
    decreases bands.len(),
{
    if bands.len() > 0 {
        let before = BandView::listed(bands.drop_last());
        if i < before.len() {
            the_band_list_tells_the_parameters(bands.drop_last(), i);
            assert(BandView::listed(bands)[i] == before[i]);
        }
    }
}

/// Every slot that is in use has an entry in the list.
pub proof fn every_slot_in_use_is_listed(bands: Seq<BandParams>, slot: usize)
    requires
        bands.len() <= MAX_BANDS,
        slot < bands.len(),
        bands[slot as int].active,
    ensures
        exists|j: int|
            0 <= j < BandView::listed(bands).len() && (#[trigger] BandView::listed(bands)[j]).slot
                == slot,
    decreases bands.len(),
{
    let all = BandView::listed(bands);
    if slot < bands.len() - 1 {
        every_slot_in_use_is_listed(bands.drop_last(), slot);
        let before = BandView::listed(bands.drop_last());
        let j = choose|j: int| 0 <= j < before.len() && (#[trigger] before[j]).slot == slot;
        assert(all[j].slot == slot);
    } else {
        assert(all[all.len() - 1].slot == slot);
    }
}

/// Lowest slot no band is occupying, or none when the bank is full.
pub fn free_slot(params: &EquzxParams) -> (r: Option<usize>)
    ensures
        match r {
            Some(slot) => {
                &&& slot < MAX_BANDS
                &&& !params.bands[slot as int].active
                &&& forall|lower: int| 0 <= lower < slot ==> params.bands[lower].active
            },
            None => forall|slot: int| 0 <= slot < MAX_BANDS ==> params.bands[slot].active,
        },
{
    let mut slot: usize = 0;
    while slot < MAX_BANDS
        invariant
            slot <= MAX_BANDS,
            forall|lower: int| 0 <= lower < slot ==> params.bands[lower].active,
        decreases MAX_BANDS - slot,
    {
        if !params.bands[slot].active {
            return Some(slot);
        }
        slot = slot + 1;
    }
    None
}

/// What the analyser draws.
#[derive(Clone, Copy, Debug, PartialEq, Eq, Structural)]
pub enum AnalyzerMode {
    Off,
    Pre,
    Post,
    Both,
}

impl AnalyzerMode {
    pub const ALL: [AnalyzerMode; 4] = [
        AnalyzerMode::Off,
        AnalyzerMode::Pre,
        AnalyzerMode::Post,
        AnalyzerMode::Both,
    ];

    pub fn label(self) -> (r: &'static str)
        ensures
            r@ == (match self {
                AnalyzerMode::Off => "Off"@,
                AnalyzerMode::Pre => "Pre"@,
                AnalyzerMode::Post => "Post"@,
                AnalyzerMode::Both => "Pre + Post"@,
            }),
    {
        match self {
            AnalyzerMode::Off => "Off",
            AnalyzerMode::Pre => "Pre",
            AnalyzerMode::Post => "Post",
            AnalyzerMode::Both => "Pre + Post",
        }
    }

    pub fn draws_pre(self) -> (r: bool)
        ensures
            r == (self == AnalyzerMode::Pre || self == AnalyzerMode::Both),
    {
        matches!(self, AnalyzerMode::Pre | AnalyzerMode::Both)
    }

    pub fn draws_post(self) -> (r: bool)
        ensures
            r == (self == AnalyzerMode::Post || self == AnalyzerMode::Both),
    {
        matches!(self, AnalyzerMode::Post | AnalyzerMode::Both)
    }
}

impl Default for AnalyzerMode {
    fn default() -> (r: AnalyzerMode)
        ensures
            r == AnalyzerMode::Both,
    {
        AnalyzerMode::Both
    }
}

/// Which slice of the stereo image the display is showing.
#[derive(Clone, Copy, Debug, PartialEq, Eq, Structural)]
pub enum ChannelView {
    All,
    Left,
    Right,
    Mid,
    Side,
}

impl ChannelView {
    pub const ALL: [ChannelView; 5] = [
        ChannelView::All,
        ChannelView::Left,
        ChannelView::Right,
        ChannelView::Mid,
        ChannelView::Side,
    ];

    pub fn label(self) -> (r: &'static str)
        ensures
            r@ == (match self {
                ChannelView::All => "Stereo"@,
                ChannelView::Left => "Left"@,
                ChannelView::Right => "Right"@,
                ChannelView::Mid => "Mid"@,
                ChannelView::Side => "Side"@,
            }),
    {
        match self {
            ChannelView::All => "Stereo",
            ChannelView::Left => "Left",
            ChannelView::Right => "Right",
            ChannelView::Mid => "Mid",
            ChannelView::Side => "Side",
        }
    }

    /// The channel a band created while looking at this view belongs to.
    pub open spec fn channel_of_new_band(self) -> BandChannel {
        match self {
            ChannelView::All => BandChannel::Stereo,
            ChannelView::Left => BandChannel::Left,
            ChannelView::Right => BandChannel::Right,
            ChannelView::Mid => BandChannel::Mid,
            ChannelView::Side => BandChannel::Side,
        }
    }

    /// The channel a band created while looking at this view belongs to.
    pub fn new_band_channel(self) -> (r: BandChannel)
        ensures
            r == self.channel_of_new_band(),
    {
        match self {
            ChannelView::All => BandChannel::Stereo,
            ChannelView::Left => BandChannel::Left,
            ChannelView::Right => BandChannel::Right,
            ChannelView::Mid => BandChannel::Mid,
            ChannelView::Side => BandChannel::Side,
        }
    }
}

/// A band created in a view is drawn in that view.
pub proof fn a_new_band_is_visible_where_it_was_drawn(band: BandView, view: ChannelView)
    requires
        band.channel == view.channel_of_new_band(),
    ensures
        band.visible_in(view),
{
}

impl Default for ChannelView {
    fn default() -> (r: ChannelView)
        ensures
            r == ChannelView::All,
    {
        ChannelView::All
    }
}

/// The two slots a comparison switches between.
#[derive(Clone, Copy, Debug, PartialEq, Eq, Structural)]
pub enum AbSlot {
    A,
    B,
}

impl AbSlot {
    /// The slot this one is not.
    pub open spec fn opposite(self) -> AbSlot {
        match self {
            AbSlot::A => AbSlot::B,
            AbSlot::B => AbSlot::A,
        }
    }

    pub fn other(self) -> (r: AbSlot)
        ensures
            r == self.opposite(),
            r != self,
            r.opposite() == self,
    {
        match self {
            AbSlot::A => AbSlot::B,
            AbSlot::B => AbSlot::A,
        }
    }

    pub fn label(self) -> (r: &'static str)
        ensures
            r@ == (match self {
                AbSlot::A => "A"@,
                AbSlot::B => "B"@,
            }),
    {
        match self {
            AbSlot::A => "A",
            AbSlot::B => "B",
        }
    }
}

impl Default for AbSlot {
    fn default() -> (r: AbSlot)
        ensures
            r == AbSlot::A,
    {
        AbSlot::A
    }
}

/// Height of the band panel at the bottom of the window: 232 when it opens, and
/// 176 at least.
pub const PANEL_DEFAULT: u32 = 0x4368_0000;

pub const PANEL_MIN: u32 = 0x4330_0000;

/// The ranges the plot axis can be set to: 6, 12, 18 and 30 dB either way.
pub const DB_RANGES: [u32; 4] = [0x40c0_0000, 0x4140_0000, 0x4190_0000, 0x41f0_0000];

/// View state the plugin stores with the session but never automates.
#[derive(Debug, PartialEq, Eq)]
pub struct UiState {
    pub db_range: Single,
    pub analyzer_mode: AnalyzerMode,
    /// Fractional-octave spectrum smoothing, for example 1/12. Zero is raw.
    pub spectrum_smoothing: Single,
    pub channel_view: ChannelView,
    pub panel_height: Single,
    pub slot: AbSlot,
    /// The A/B slot that is *not* live.
    pub parked: Snapshot,
}

/// What the view state says.
#[verifier::ext_equal]
pub struct Looks {
    pub db_range: Single,
    pub analyzer_mode: AnalyzerMode,
    pub spectrum_smoothing: Single,
    pub channel_view: ChannelView,
    pub panel_height: Single,
    pub slot: AbSlot,
    pub parked: Scene,
}

impl View for UiState {
    type V = Looks;

    open spec fn view(&self) -> Looks {
        Looks {
            db_range: self.db_range,
            analyzer_mode: self.analyzer_mode,
            spectrum_smoothing: self.spectrum_smoothing,
            channel_view: self.channel_view,
            panel_height: self.panel_height,
            slot: self.slot,
            parked: self.parked@,
        }
    }
}

impl Looks {
    /// What a session without view state opens with.
    pub open spec fn fresh() -> Looks {
        Looks {
            db_range: Single { bits: 0x4190_0000 },
            analyzer_mode: AnalyzerMode::Both,
            spectrum_smoothing: Single { bits: 0x3daa_aaab },
            channel_view: ChannelView::All,
            panel_height: Single { bits: PANEL_DEFAULT },
            slot: AbSlot::A,
            parked: Scene::flat(),
        }
    }

    /// Is this a range the picker can produce?
    pub open spec fn offered(range: Single) -> bool {
        exists|i: int| 0 <= i < 4 && range.same(Single { bits: #[trigger] DB_RANGES@[i] })
    }

    /// The view state with everything a session file may have got wrong put
    /// right: a range that is on offer, smoothing between none and an octave, a
    /// panel that is not too small, and a parked slot the parameters accept.
    pub open spec fn bounded(self) -> Looks {
        Looks {
            db_range: if Looks::offered(self.db_range) {
                self.db_range
            } else {
                Single { bits: 0x4190_0000 }
            },
            spectrum_smoothing: self.spectrum_smoothing.clamped(
                Single { bits: 0 },
                Single { bits: 0x3f80_0000 },
            ),
            panel_height: if self.panel_height.nan() || self.panel_height.below(
                Single { bits: PANEL_MIN },
            ) {
                Single { bits: PANEL_MIN }
            } else {
                self.panel_height
            },
            parked: self.parked.fitted(),
            ..self
        }
    }

    /// What is in bounds is left alone, and so is the state a session opens with.
    pub proof fn bounding_keeps_what_is_in_bounds(self)
        ensures
            self.bounded().bounded() == self.bounded(),
            Looks::fresh().bounded() == Looks::fresh(),
            Looks::offered(self.bounded().db_range),
    {
        self.parked.fitting_keeps_what_fits();
        assert(Single { bits: 0x4190_0000 }.same(Single { bits: DB_RANGES@[2] }));
    }
}

fn is_offered(range: Single) -> (r: bool)
    ensures
        r == Looks::offered(range),
{
    let mut i: usize = 0;
    while i < 4
        invariant
            i <= 4,
            forall|k: int| 0 <= k < i ==> !range.same(Single { bits: #[trigger] DB_RANGES@[k] }),
        decreases 4 - i,
    {
        if range.equals(Single { bits: DB_RANGES[i] }) {
            assert(range.same(Single { bits: DB_RANGES@[i as int] }));
            return true;
        }
        i = i + 1;
    }
    false
}

impl Default for UiState {
    fn default() -> (r: UiState)
        ensures
            r@ == Looks::fresh(),
    {
        UiState {
            db_range: Single { bits: 0x4190_0000 },
            analyzer_mode: AnalyzerMode::default(),
            spectrum_smoothing: Single { bits: 0x3daa_aaab },
            channel_view: ChannelView::default(),
            panel_height: Single { bits: PANEL_DEFAULT },
            slot: AbSlot::A,
            parked: Snapshot::default(),
        }
    }
}

impl UiState {
    /// Take up the persisted state: the text it was saved as, and what could be
    /// parsed of that. Anything unreadable lands on the defaults rather than
    /// taking the editor down: this came out of a session file.
    pub fn load(raw: &str, parsed: Option<UiState>) -> (r: UiState)
        ensures
            r@ == (if raw@.len() == 0 {
                Looks::fresh()
            } else {
                match parsed {
                    Some(state) => state@.bounded(),
                    None => Looks::fresh(),
                }
            }),
    {
        if raw.is_empty() {
            return UiState::default();
        }
        proof {
            Looks::fresh().bounding_keeps_what_is_in_bounds();
        }
        let state: UiState = match parsed {
            Some(state) => state,
            None => UiState::default(),
        };
        UiState {
            db_range: if is_offered(state.db_range) {
                state.db_range
            } else {
                Single { bits: 0x4190_0000 }
            },
            analyzer_mode: state.analyzer_mode,
            spectrum_smoothing: state.spectrum_smoothing.clamp(
                Single { bits: 0 },
                Single { bits: 0x3f80_0000 },
            ),
            channel_view: state.channel_view,
            panel_height: state.panel_height.max(Single { bits: PANEL_MIN }),
            slot: state.slot,
            parked: state.parked.sanitized(),
        }
    }
}

impl Looks {
    /// What becomes of a view state that is taken up. The range is kept when it is
    /// 6, 12, 18 or 30 dB, and is 18 otherwise; the smoothing ends up between none
    /// and an octave, and the panel no smaller than 176; whatever was in bounds is
    /// kept. What was parked is fitted into range, and everything else stays.
    pub proof fn bounding_puts_right_what_is_wrong(self)
        ensures
            ({
                let after = self.bounded();
                let listed = self.db_range.bits == 0x40c0_0000 || self.db_range.bits == 0x4140_0000
                    || self.db_range.bits == 0x4190_0000 || self.db_range.bits == 0x41f0_0000;
                &&& after.db_range.bits == (if listed {
                    self.db_range.bits
                } else {
                    0x4190_0000
                })
                &&& !self.spectrum_smoothing.nan() ==> after.spectrum_smoothing.within(
                    (Single { bits: 0 }),
                    (Single { bits: 0x3f80_0000 }),
                )
                &&& self.spectrum_smoothing.within(
                    (Single { bits: 0 }),
                    (Single { bits: 0x3f80_0000 }),
                ) ==> after.spectrum_smoothing == self.spectrum_smoothing
                &&& !after.panel_height.below((Single { bits: 0x4330_0000 }))
                &&& !after.panel_height.nan()
                &&& !self.panel_height.nan() && !self.panel_height.below(
                    (Single { bits: 0x4330_0000 }),
                ) ==> after.panel_height == self.panel_height
                &&& self.panel_height.below((Single { bits: 0x4330_0000 }))
                    ==> after.panel_height.bits == 0x4330_0000
                &&& after.analyzer_mode == self.analyzer_mode
                &&& after.channel_view == self.channel_view
                &&& after.slot == self.slot
                &&& after.parked == self.parked.fitted()
            }),
    {
        assert(DB_RANGES@[0] == 0x40c0_0000 && DB_RANGES@[1] == 0x4140_0000 && DB_RANGES@[2]
            == 0x4190_0000 && DB_RANGES@[3] == 0x41f0_0000);
        let r = self.db_range;
        if r.bits == 0x40c0_0000 {
            assert(r.same(Single { bits: DB_RANGES@[0] }));
        }
        if r.bits == 0x4140_0000 {
            assert(r.same(Single { bits: DB_RANGES@[1] }));
        }
        if r.bits == 0x4190_0000 {
            assert(r.same(Single { bits: DB_RANGES@[2] }));
        }
        if r.bits == 0x41f0_0000 {
            assert(r.same(Single { bits: DB_RANGES@[3] }));
        }
        if Looks::offered(r) {
            let i = choose|i: int|
                0 <= i < 4 && r.same(Single { bits: #[trigger] DB_RANGES@[i] });
            assert(i == 0 || i == 1 || i == 2 || i == 3);
        }
    }
}

} // verus!
