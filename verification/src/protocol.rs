//! The message contract between the plugin and a web UI.
//!
//! Two directions, deliberately asymmetric:
//!
//! * **UI to plugin** is a stream of [`Action`]s. The UI never guesses at
//!   normalized values; it sends plain ones in its own units (Hz, dB, ms).
//! * **plugin to UI** is a [`StateMessage`] whenever the parameters change from
//!   anywhere, plus a [`FrameMessage`] of analyser and meter data on a timer.

use vstd::prelude::*;

use crate::meters::RES_BANDS;
use crate::params::{
    BandChannel, BandKind, BandParams, DynMode, EquzxParams, ResonanceParams, Slope, MAX_BANDS,
};
use crate::single::Single;

verus! {

/// The resonance bank has six bands to the octave, and cuts 36 dB at most.
pub const RES_BANDS_PER_OCTAVE: u32 = 0x40c0_0000;

pub const RES_MAX_CUT_DB: u32 = 0x4210_0000;

/// A partial band edit. Every field is optional: dragging a handle sends the one
/// value that moved, while adding a band or recalling a preset sends all of them.
#[derive(Debug)]
pub struct BandPatch {
    pub kind: Option<String>,
    pub channel: Option<String>,
    pub freq: Option<Single>,
    pub gain: Option<Single>,
    pub q: Option<Single>,
    pub slope: Option<u32>,
    pub enabled: Option<bool>,
    pub dynamic: Option<bool>,
    pub dyn_mode: Option<String>,
    pub dyn_range: Option<Single>,
    pub threshold: Option<Single>,
    pub attack: Option<Single>,
    pub release: Option<Single>,
    pub resonance: Option<Single>,
}

/// A partial edit to the resonance stage. Percentages travel 0..100 and
/// frequencies in Hz, like everything else on this wire.
#[derive(Debug)]
pub struct ResonancePatch {
    pub enabled: Option<bool>,
    pub depth: Option<Single>,
    pub sharpness: Option<Single>,
    pub threshold: Option<Single>,
    pub attack: Option<Single>,
    pub release: Option<Single>,
    pub low: Option<Single>,
    pub high: Option<Single>,
    pub mix: Option<Single>,
    pub delta: Option<bool>,
}

/// One entry of a whole-state recall: an A/B swap, a preset, or an undo.
#[derive(Debug)]
pub struct BandSlot {
    pub slot: usize,
    pub patch: BandPatch,
}

/// What a web UI asks for.
#[derive(Debug)]
#[allow(inconsistent_fields)]
pub enum Action {
    /// Sent once when the UI has mounted; answered with the full state.
    Init,
    Resize { width: u32, height: u32 },
    /// Claim a slot and give it a starting shape.
    AddBand { slot: usize, band: BandPatch },
    /// Edit a live band. Only the fields present move.
    SetBand { slot: usize, band: BandPatch },
    RemoveBand { slot: usize },
    /// No slot clears solo.
    Solo { slot: Option<usize> },
    Bypass { value: bool },
    OutputGain { value: Single },
    /// Replace every band at once. Slots not listed are freed.
    ///
    /// The resonance stage rides along rather than arriving as its own message,
    /// so a preset recall lands in one piece. Absent on a recall from a UI that
    /// predates the stage, which then leaves the stage alone.
    LoadState { bands: Vec<BandSlot>, output_gain: Single, resonance: Option<ResonancePatch> },
    /// Edit the resonance stage. Only the fields present move.
    Resonance { value: ResonancePatch },
    /// Opaque view state the UI wants saved with the session.
    UiState { value: String },
}

/// A band as the UI reads it.
#[derive(Clone, Copy, Debug, PartialEq)]
pub struct BandState {
    /// Slot index, which is also the band's identity on the UI side.
    pub id: usize,
    pub kind: &'static str,
    pub channel: &'static str,
    pub freq: Single,
    pub gain: Single,
    pub q: Single,
    pub slope: u32,
    pub enabled: bool,
    pub dynamic: bool,
    pub dyn_mode: &'static str,
    pub dyn_range: Single,
    pub threshold: Single,
    pub attack: Single,
    pub release: Single,
    /// Per-band resonance suppression, in percent.
    pub resonance: Single,
}

impl BandState {
    pub open spec fn of(slot: usize, p: BandParams) -> BandState {
        BandState {
            id: slot,
            kind: p.kind.wire_name(),
            channel: p.channel.wire_name(),
            freq: p.freq,
            gain: p.gain,
            q: p.q,
            slope: p.slope.steepness(),
            enabled: p.enabled,
            dynamic: p.dynamic,
            dyn_mode: p.dyn_mode.wire_name(),
            dyn_range: p.dyn_range,
            threshold: p.threshold,
            attack: p.attack,
            release: p.release,
            resonance: p.resonance,
        }
    }

    /// The slots in use among some leading ones, low slot first.
    pub open spec fn listed(bands: Seq<BandParams>) -> Seq<BandState>
        decreases bands.len(),
    {
        if bands.len() == 0 {
            Seq::empty()
        } else {
            let before = BandState::listed(bands.drop_last());
            if bands.last().active {
                before.push(BandState::of((bands.len() - 1) as usize, bands.last()))
            } else {
                before
            }
        }
    }
}

/// The resonance stage as the UI reads it.
#[derive(Clone, Copy, Debug, PartialEq)]
pub struct ResonanceState {
    pub enabled: bool,
    pub depth: Single,
    pub sharpness: Single,
    pub threshold: Single,
    pub attack: Single,
    pub release: Single,
    pub low: Single,
    pub high: Single,
    pub mix: Single,
    pub delta: bool,
    /// Band count and span of the reduction curve, so the UI can place it
    /// without hard-coding the bank's layout.
    pub bands: usize,
    pub f_lo: Single,
    pub bands_per_octave: Single,
    pub max_cut: Single,
}

impl ResonanceState {
    pub open spec fn of(p: ResonanceParams, f_lo: Single) -> ResonanceState {
        ResonanceState {
            enabled: p.enabled,
            depth: p.depth,
            sharpness: p.sharpness,
            threshold: p.threshold,
            attack: p.attack,
            release: p.release,
            low: p.low,
            high: p.high,
            mix: p.mix,
            delta: p.delta,
            bands: RES_BANDS,
            f_lo,
            bands_per_octave: Single { bits: RES_BANDS_PER_OCTAVE },
            max_cut: Single { bits: RES_MAX_CUT_DB },
        }
    }
}

/// The whole state, for the UI.
#[derive(Debug, PartialEq)]
pub struct StateMessage {
    pub msg: &'static str,
    /// Only the slots currently in use, low slot first.
    pub bands: Vec<BandState>,
    pub output_gain: Single,
    pub bypass: bool,
    pub sample_rate: Single,
    pub max_bands: usize,
    pub resonance: ResonanceState,
    /// Whatever the UI last asked to persist, verbatim.
    pub ui: String,
}

/// Analyser curves and meters. Sent on a timer, never diffed: it is all
/// time-varying by nature.
#[derive(Debug)]
pub struct FrameMessage {
    pub msg: &'static str,
    /// Base64 of one byte per log-spaced point, pre-EQ.
    pub pre: String,
    /// The same, post-EQ.
    pub post: String,
    /// Per-slot band level in dBFS, indexed by slot.
    pub level: Vec<Single>,
    /// Per-slot dynamic gain offset in dB, indexed by slot.
    pub delta: Vec<Single>,
    /// Base64 of one byte per resonance band.
    pub res: String,
    /// The deepest cut anywhere in the bank, in dB.
    pub res_peak: Single,
}

/// Each band of the message is in use, and says of its slot what the parameters
/// say, each under the parameter's own name: the shape, the channel and the
/// direction of its dynamics by name, the slope in decibels an octave.
pub proof fn a_message_tells_the_parameters(bands: Seq<BandParams>, i: int)
    requires
        bands.len() <= MAX_BANDS,
        0 <= i < BandState::listed(bands).len(),
    ensures
        ({
            let entry = BandState::listed(bands)[i];
            let p = bands[entry.id as int];
            &&& entry.id < bands.len()
            &&& p.active
            &&& entry.freq == p.freq
            &&& entry.gain == p.gain
            &&& entry.q == p.q
            &&& entry.enabled == p.enabled
            &&& entry.dynamic == p.dynamic
            &&& entry.dyn_range == p.dyn_range
            &&& entry.threshold == p.threshold
            &&& entry.attack == p.attack
            &&& entry.release == p.release
            &&& entry.resonance == p.resonance
            &&& entry.slope == (match p.slope {
                Slope::S12 => 12u32,
                Slope::S24 => 24,
                Slope::S36 => 36,
                Slope::S48 => 48,
                Slope::S72 => 72,
                Slope::S96 => 96,
            })
            &&& entry.kind@ == (match p.kind {
                BandKind::LowCut => "lowcut"@,
                BandKind::LowShelf => "lowshelf"@,
                BandKind::Bell => "bell"@,
                BandKind::Notch => "notch"@,
                BandKind::BandPass => "bandpass"@,
                BandKind::HighShelf => "highshelf"@,
                BandKind::HighCut => "highcut"@,
            })
            &&& entry.channel@ == (match p.channel {
                BandChannel::Stereo => "stereo"@,
                BandChannel::Mid => "mid"@,
                BandChannel::Side => "side"@,
                BandChannel::Left => "left"@,
                BandChannel::Right => "right"@,
            })
            &&& entry.dyn_mode@ == (match p.dyn_mode {
                DynMode::Above => "above"@,
                DynMode::Below => "below"@,
            })
        }),
    decreases bands.len(),
{
    if bands.len() > 0 {
        let before = BandState::listed(bands.drop_last());
        if i < before.len() {
            a_message_tells_the_parameters(bands.drop_last(), i);
            assert(BandState::listed(bands)[i] == before[i]);
        }
    }
}

/// Every slot in use is in the message.
pub proof fn a_message_lists_every_slot_in_use(bands: Seq<BandParams>, slot: int)
    requires
        bands.len() <= MAX_BANDS,
        0 <= slot < bands.len(),
        bands[slot].active,
    ensures
        exists|i: int|
            0 <= i < BandState::listed(bands).len() && (#[trigger] BandState::listed(bands)[i]).id
                == slot,
    decreases bands.len(),
{
    let all = BandState::listed(bands);
    if slot < bands.len() - 1 {
        a_message_lists_every_slot_in_use(bands.drop_last(), slot);
        let before = BandState::listed(bands.drop_last());
        let i = choose|i: int| 0 <= i < before.len() && (#[trigger] before[i]).id == slot;
        assert(all[i].id == slot);
    } else {
        assert(all[all.len() - 1].id == slot);
    }
}

/// No slot is in the message twice: the slots go up.
pub proof fn a_message_lists_no_slot_twice(bands: Seq<BandParams>, i: int, j: int)
    requires
        bands.len() <= MAX_BANDS,
        0 <= i < j < BandState::listed(bands).len(),
    ensures
        BandState::listed(bands)[i].id < BandState::listed(bands)[j].id,
    decreases bands.len(),
{
    if bands.len() > 0 {
        let shorter = bands.drop_last();
        let before = BandState::listed(shorter);
        a_message_tells_the_parameters(shorter, i);
        if j < before.len() {
            a_message_lists_no_slot_twice(shorter, i, j);
        }
    }
}

/// Read the parameters into the shape the UI expects. The bank begins at `f_lo`.
pub fn state_message(params: &EquzxParams, ui: String, sample_rate: Single, f_lo: Single) -> (r:
    StateMessage)
    ensures
        r.msg == "state",
        r.bands@ == BandState::listed(params.bands@),
        r.output_gain == params.output_gain,
        r.bypass == params.bypass,
        r.sample_rate == sample_rate,
        r.max_bands == MAX_BANDS,
        r.resonance == ResonanceState::of(params.resonance, f_lo),
        r.ui == ui,
        forall|i: int|
            0 <= i < r.bands@.len() ==> {
                let entry = #[trigger] r.bands@[i];
                let p = params.bands[entry.id as int];
                &&& entry.id < MAX_BANDS
                &&& p.active
                &&& entry.freq == p.freq
                &&& entry.gain == p.gain
                &&& entry.q == p.q
                &&& entry.enabled == p.enabled
                &&& entry.dynamic == p.dynamic
                &&& entry.dyn_range == p.dyn_range
                &&& entry.threshold == p.threshold
                &&& entry.attack == p.attack
                &&& entry.release == p.release
                &&& entry.resonance == p.resonance
                &&& entry.slope == (match p.slope {
                    Slope::S12 => 12u32,
                    Slope::S24 => 24,
                    Slope::S36 => 36,
                    Slope::S48 => 48,
                    Slope::S72 => 72,
                    Slope::S96 => 96,
                })
                &&& entry.kind@ == (match p.kind {
                    BandKind::LowCut => "lowcut"@,
                    BandKind::LowShelf => "lowshelf"@,
                    BandKind::Bell => "bell"@,
                    BandKind::Notch => "notch"@,
                    BandKind::BandPass => "bandpass"@,
                    BandKind::HighShelf => "highshelf"@,
                    BandKind::HighCut => "highcut"@,
                })
                &&& entry.channel@ == (match p.channel {
                    BandChannel::Stereo => "stereo"@,
                    BandChannel::Mid => "mid"@,
                    BandChannel::Side => "side"@,
                    BandChannel::Left => "left"@,
                    BandChannel::Right => "right"@,
                })
                &&& entry.dyn_mode@ == (match p.dyn_mode {
                    DynMode::Above => "above"@,
                    DynMode::Below => "below"@,
                })
            },
        forall|i: int, j: int|
            0 <= i < j < r.bands@.len() ==> (#[trigger] r.bands@[i]).id < (
            #[trigger] r.bands@[j]).id,
        forall|slot: int|
            0 <= slot < MAX_BANDS && (#[trigger] params.bands[slot]).active ==> exists|i: int|
                0 <= i < r.bands@.len() && (#[trigger] r.bands@[i]).id == slot,
        r.resonance.enabled == params.resonance.enabled,
        r.resonance.depth == params.resonance.depth,
        r.resonance.sharpness == params.resonance.sharpness,
        r.resonance.threshold == params.resonance.threshold,
        r.resonance.attack == params.resonance.attack,
        r.resonance.release == params.resonance.release,
        r.resonance.low == params.resonance.low,
        r.resonance.high == params.resonance.high,
        r.resonance.mix == params.resonance.mix,
        r.resonance.delta == params.resonance.delta,
        r.resonance.bands == 60,
        r.resonance.f_lo == f_lo,
        r.resonance.bands_per_octave.bits == 0x40c0_0000,
        r.resonance.max_cut.bits == 0x4210_0000,
        r.max_bands == 24,
{
    let mut bands: Vec<BandState> = Vec::new();
    let mut slot: usize = 0;
    while slot < MAX_BANDS
        invariant
            slot <= MAX_BANDS,
            bands@ == BandState::listed(params.bands@.take(slot as int)),
        decreases MAX_BANDS - slot,
    {
        let p: BandParams = params.bands[slot];
        proof {
            let upto = params.bands@.take(slot + 1);
            assert(upto.drop_last() =~= params.bands@.take(slot as int));
            assert(upto.last() == p);
        }
        if p.active {
            bands.push(
                BandState {
                    id: slot,
                    kind: p.kind.as_wire(),
                    channel: p.channel.as_wire(),
                    freq: p.freq,
                    gain: p.gain,
                    q: p.q,
                    slope: p.slope.db_per_oct(),
                    enabled: p.enabled,
                    dynamic: p.dynamic,
                    dyn_mode: p.dyn_mode.as_wire(),
                    dyn_range: p.dyn_range,
                    threshold: p.threshold,
                    attack: p.attack,
                    release: p.release,
                    resonance: p.resonance,
                },
            );
        }
        slot = slot + 1;
    }
    assert(params.bands@.take(MAX_BANDS as int) =~= params.bands@);
    proof {
        let live = params.bands@;
        assert forall|i: int| 0 <= i < bands@.len() implies {
            let entry = #[trigger] bands@[i];
            let p = params.bands[entry.id as int];
            &&& entry.id < MAX_BANDS
            &&& p.active
            &&& entry.freq == p.freq
            &&& entry.gain == p.gain
            &&& entry.q == p.q
            &&& entry.enabled == p.enabled
            &&& entry.dynamic == p.dynamic
            &&& entry.dyn_range == p.dyn_range
            &&& entry.threshold == p.threshold
            &&& entry.attack == p.attack
            &&& entry.release == p.release
            &&& entry.resonance == p.resonance
            &&& entry.slope == (match p.slope {
                Slope::S12 => 12u32,
                Slope::S24 => 24,
                Slope::S36 => 36,
                Slope::S48 => 48,
                Slope::S72 => 72,
                Slope::S96 => 96,
            })
            &&& entry.kind@ == (match p.kind {
                BandKind::LowCut => "lowcut"@,
                BandKind::LowShelf => "lowshelf"@,
                BandKind::Bell => "bell"@,
                BandKind::Notch => "notch"@,
                BandKind::BandPass => "bandpass"@,
                BandKind::HighShelf => "highshelf"@,
                BandKind::HighCut => "highcut"@,
            })
            &&& entry.channel@ == (match p.channel {
                BandChannel::Stereo => "stereo"@,
                BandChannel::Mid => "mid"@,
                BandChannel::Side => "side"@,
                BandChannel::Left => "left"@,
                BandChannel::Right => "right"@,
            })
            &&& entry.dyn_mode@ == (match p.dyn_mode {
                DynMode::Above => "above"@,
                DynMode::Below => "below"@,
            })
        } by {
            a_message_tells_the_parameters(live, i);
        }
        assert forall|i: int, j: int| 0 <= i < j < bands@.len() implies (#[trigger] bands@[i]).id < (
        #[trigger] bands@[j]).id by {
            a_message_lists_no_slot_twice(live, i, j);
        }
        assert forall|slot: int|
            0 <= slot < MAX_BANDS && (#[trigger] params.bands[slot]).active implies exists|i: int|
            0 <= i < bands@.len() && (#[trigger] bands@[i]).id == slot by {
            a_message_lists_every_slot_in_use(live, slot);
        }
    }
    let res: ResonanceParams = params.resonance;
    StateMessage {
        msg: "state",
        bands,
        output_gain: params.output_gain,
        bypass: params.bypass,
        sample_rate,
        max_bands: MAX_BANDS,
        resonance: ResonanceState {
            enabled: res.enabled,
            depth: res.depth,
            sharpness: res.sharpness,
            threshold: res.threshold,
            attack: res.attack,
            release: res.release,
            low: res.low,
            high: res.high,
            mix: res.mix,
            delta: res.delta,
            bands: RES_BANDS,
            f_lo,
            bands_per_octave: Single { bits: RES_BANDS_PER_OCTAVE },
            max_cut: Single { bits: RES_MAX_CUT_DB },
        },
        ui,
    }
}

/// The character that stands for six bits.
pub open spec fn sextet(v: int) -> char {
    if v < 26 {
        (65 + v) as char
    } else if v < 52 {
        (71 + v) as char
    } else if v < 62 {
        (v - 4) as char
    } else if v == 62 {
        '+'
    } else {
        '/'
    }
}

/// Bytes as base64 without padding: every three bytes as four characters of six
/// bits, high bits first, and what is left over filled up with zero bits.
pub open spec fn base64_text(bytes: Seq<u8>) -> Seq<char>
    decreases bytes.len(),
{
    if bytes.len() == 0 {
        Seq::empty()
    } else if bytes.len() == 1 {
        seq![sextet((bytes[0] / 4) as int), sextet(bytes[0] % 4 * 16)]
    } else if bytes.len() == 2 {
        seq![
            sextet((bytes[0] / 4) as int),
            sextet(bytes[0] % 4 * 16 + bytes[1] / 16),
            sextet(bytes[1] % 16 * 4),
        ]
    } else {
        seq![
            sextet((bytes[0] / 4) as int),
            sextet(bytes[0] % 4 * 16 + bytes[1] / 16),
            sextet(bytes[1] % 16 * 4 + bytes[2] / 64),
            sextet((bytes[2] % 64) as int),
        ] + base64_text(bytes.skip(3))
    }
}

/// Calls `base64::Engine::encode` of the engine `STANDARD_NO_PAD`: the standard
/// alphabet, no padding. The bound keeps the size of the result in range, where
/// the call would otherwise panic.
#[verifier::external_body]
fn base64_encode(bytes: &[u8]) -> (r: String)
    requires
        bytes@.len() <= 0x1000_0000,
    ensures
        r@ == base64_text(bytes@),
{
    base64::Engine::encode(&base64::engine::general_purpose::STANDARD_NO_PAD, bytes)
}

/// One byte for each resonance band: what there is of the curve, and nothing of
/// what there is too much of.
pub open spec fn band_bytes(curve: Seq<u8>) -> Seq<u8> {
    Seq::new(
        RES_BANDS as nat,
        |i: int|
            if i < curve.len() {
                curve[i]
            } else {
                0u8
            },
    )
}

/// Encode the resonance reduction curve for the wire, one byte for each band. A
/// short curve is a bug somewhere upstream, not a reason to fail here.
pub fn encode_reduction(curve: &[u8]) -> (r: String)
    ensures
        r@ == base64_text(band_bytes(curve@)),
{
    let mut bytes: Vec<u8> = Vec::new();
    let mut i: usize = 0;
    while i < RES_BANDS
        invariant
            i <= RES_BANDS,
            bytes@ == band_bytes(curve@).take(i as int),
        decreases RES_BANDS - i,
    {
        bytes.push(
            if i < curve.len() {
                curve[i]
            } else {
                0
            },
        );
        i = i + 1;
        assert(bytes@ =~= band_bytes(curve@).take(i as int));
    }
    assert(bytes@ =~= band_bytes(curve@));
    base64_encode(bytes.as_slice())
}

proof fn lemma_base64_of_whole_groups(bytes: Seq<u8>)
    requires
        bytes.len() % 3 == 0,
    ensures
        base64_text(bytes).len() == bytes.len() / 3 * 4,
    decreases bytes.len(),
{
    if bytes.len() > 0 {
        lemma_base64_of_whole_groups(bytes.skip(3));
    }
}

/// The curve is eighty characters on the wire, whatever it holds.
pub proof fn a_reduction_is_eighty_characters(curve: Seq<u8>)
    ensures
        base64_text(band_bytes(curve)).len() == 80,
{
    lemma_base64_of_whole_groups(band_bytes(curve));
}

proof fn lemma_a_sextet_tells(v: int, w: int)
    requires
        0 <= v < 64,
        0 <= w < 64,
        sextet(v) == sextet(w),
    ensures
        v == w,
{
}

proof fn lemma_base64_tells(a: Seq<u8>, b: Seq<u8>)
    requires
        a.len() == b.len(),
        a.len() % 3 == 0,
        base64_text(a) == base64_text(b),
    ensures
        a == b,
    decreases a.len(),
{
    if a.len() > 0 {
        let (x, y) = (base64_text(a), base64_text(b));
        assert(x[0] == y[0] && x[1] == y[1] && x[2] == y[2] && x[3] == y[3]);
        lemma_a_sextet_tells((a[0] / 4) as int, (b[0] / 4) as int);
        lemma_a_sextet_tells(a[0] % 4 * 16 + a[1] / 16, b[0] % 4 * 16 + b[1] / 16);
        lemma_a_sextet_tells(a[1] % 16 * 4 + a[2] / 64, b[1] % 16 * 4 + b[2] / 64);
        lemma_a_sextet_tells((a[2] % 64) as int, (b[2] % 64) as int);
        assert(a[0] == b[0] && a[1] == b[1] && a[2] == b[2]);
        assert(x.skip(4) =~= base64_text(a.skip(3)));
        assert(y.skip(4) =~= base64_text(b.skip(3)));
        lemma_base64_tells(a.skip(3), b.skip(3));
        assert(a =~= a.take(3) + a.skip(3));
        assert(b =~= b.take(3) + b.skip(3));
        assert(a.take(3) =~= b.take(3));
    } else {
        assert(a =~= b);
    }
}

/// The curve can be read back from the wire: two curves that look the same there
/// are the same, band for band.
pub proof fn a_reduction_tells_its_curve(a: Seq<u8>, b: Seq<u8>)
    requires
        base64_text(band_bytes(a)) == base64_text(band_bytes(b)),
    ensures
        band_bytes(a) == band_bytes(b),
{
    lemma_base64_tells(band_bytes(a), band_bytes(b));
}

/// A kind the UI sent. Anything that isn't a known variant is dropped rather
/// than defaulted, so a typo can't silently turn a low cut into a bell.
pub fn parse_kind(s: &str) -> (r: Option<BandKind>)
    ensures
        match r {
            Some(v) => v.wire() == s@,
            None => forall|v: BandKind| v.wire() != s@,
        },
{
    BandKind::from_wire(s)
}

pub fn parse_channel(s: &str) -> (r: Option<BandChannel>)
    ensures
        match r {
            Some(v) => v.wire() == s@,
            None => forall|v: BandChannel| v.wire() != s@,
        },
{
    BandChannel::from_wire(s)
}

pub fn parse_dyn_mode(s: &str) -> (r: Option<DynMode>)
    ensures
        match r {
            Some(v) => v.wire() == s@,
            None => forall|v: DynMode| v.wire() != s@,
        },
{
    DynMode::from_wire(s)
}

pub fn parse_slope(v: u32) -> (r: Option<Slope>)
    ensures
        match r {
            Some(s) => s.steepness() == v,
            None => forall|s: Slope| s.steepness() != v,
        },
{
    Slope::from_db_per_oct(v)
}

/// A curve fills the bands it reaches, and the others read as no cut.
pub proof fn a_short_curve_is_filled_with_nothing(curve: Seq<u8>, i: int)
    requires
        0 <= i < 60,
    ensures
        band_bytes(curve).len() == 60,
        i < curve.len() ==> band_bytes(curve)[i] == curve[i],
        i >= curve.len() ==> band_bytes(curve)[i] == 0,
{
}

} // verus!
