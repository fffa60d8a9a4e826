//! The Futureboard Preset File: `.pst`, binary, little-endian.
//!
//! Layout, all integers and floats little-endian:
//!
//! ```text
//! "FBPF"                magic, 4 bytes
//! u16                   format version (2)
//! u16                   name length in bytes
//! [u8]                  name, UTF-8
//! f32                   output gain, dB
//! u8                    resonance enabled (0/1)
//! f32 x 8               resonance: depth, sharpness, threshold, attack,
//!                       release, low, high, mix
//! u8  (v2)              resonance mode (0 adaptive, 1 spectral)
//! u8  (v2)              resonance quality (0 ultra, 1 balanced, 2 high)
//! f32 (v2)              resonance range, dB
//! u8                    band count
//! per band, 36 bytes (v1) / 57 bytes (v2):
//!   u8                  kind      (0 lowcut, 1 lowshelf, 2 bell, 3 notch,
//!                                  4 bandpass, 5 highshelf, 6 highcut)
//!   u8                  channel   (0 stereo, 1 mid, 2 side, 3 left, 4 right)
//!   u8                  slope, dB/oct (12..96)
//!   u8                  flags     (bit 0 enabled, bit 1 dynamic,
//!                                  bit 2 dyn mode = below)
//!   f32 x 8             freq, gain, q, dyn range, threshold, attack,
//!                       release, resonance
//!   u8  (v2)            res mode  (0 off, 1 adaptive, 2 spectral)
//!   f32 x 5 (v2)        res: range, sens, width, attack, release
//! ```
//!
//! Unknown enum codes fall back to their defaults. Version 1 files still load,
//! with the fields they do not carry at their defaults.

use vstd::prelude::*;
use vstd::slice::slice_subrange;
use vstd::utf8::*;

use crate::params::{
    BandChannel, BandKind, BandResMode, DynMode, ResMode, ResQuality, Slope, MAX_BANDS,
};
use crate::single::Single;
use crate::snapshot::{BandSnapshot, ResonanceSnapshot, Scene, Snapshot};
use crate::text::text_of_utf8;

verus! {

/// The schema version a preset carries in memory and in the legacy text format.
pub const PRESET_VERSION: u32 = 2;

/// Bumped only for changes a reader could not skip over.
pub const PST_VERSION: u16 = 2;

/// How many bytes a band takes in each version of the format.
pub const BAND_BYTES_V1: usize = 36;

pub const BAND_BYTES_V2: usize = 57;

/// A preset: its name, and what it recalls.
#[derive(Debug)]
pub struct PresetFile {
    pub name: String,
    pub version: u32,
    pub snapshot: Snapshot,
}

/// What a preset says.
#[verifier::ext_equal]
pub struct Preset {
    pub name: Seq<char>,
    pub version: u32,
    pub scene: Scene,
}

impl View for PresetFile {
    type V = Preset;

    open spec fn view(&self) -> Preset {
        Preset { name: self.name@, version: self.version, scene: self.snapshot@ }
    }
}

/// `FBPF`.
pub open spec fn magic() -> Seq<u8> {
    seq![0x46u8, 0x42, 0x50, 0x46]
}

/// One of the four bytes of a number, lowest first.
pub open spec fn byte_of(x: u32, k: int) -> u8 {
    if k == 0 {
        (x % 256) as u8
    } else if k == 1 {
        (x / 256 % 256) as u8
    } else if k == 2 {
        (x / 65536 % 256) as u8
    } else {
        (x / 16777216) as u8
    }
}

/// Two bytes, lowest first.
pub open spec fn le16(x: u16) -> Seq<u8> {
    seq![(x % 256) as u8, (x / 256) as u8]
}

/// Numbers as their own bits, four bytes each, lowest first.
pub open spec fn singles(vs: Seq<Single>) -> Seq<u8> {
    Seq::new(4 * vs.len(), |i: int| byte_of(vs[i / 4].bits, i % 4))
}

/// The two-byte number at a place.
pub open spec fn u16_at(bytes: Seq<u8>, at: int) -> int {
    bytes[at] + 256 * bytes[at + 1]
}

/// The number at a place.
pub open spec fn single_at(bytes: Seq<u8>, at: int) -> Single {
    Single {
        bits: (bytes[at] + 256 * bytes[at + 1] + 65536 * bytes[at + 2] + 16777216 * bytes[at
            + 3]) as u32,
    }
}

pub open spec fn bit(on: bool) -> u8 {
    if on {
        1
    } else {
        0
    }
}

pub open spec fn kind_code(k: BandKind) -> u8 {
    match k {
        BandKind::LowCut => 0,
        BandKind::LowShelf => 1,
        BandKind::Bell => 2,
        BandKind::Notch => 3,
        BandKind::BandPass => 4,
        BandKind::HighShelf => 5,
        BandKind::HighCut => 6,
    }
}

pub open spec fn kind_of(code: u8) -> BandKind {
    match code {
        0 => BandKind::LowCut,
        1 => BandKind::LowShelf,
        3 => BandKind::Notch,
        4 => BandKind::BandPass,
        5 => BandKind::HighShelf,
        6 => BandKind::HighCut,
        _ => BandKind::Bell,
    }
}

pub open spec fn channel_code(c: BandChannel) -> u8 {
    match c {
        BandChannel::Stereo => 0,
        BandChannel::Mid => 1,
        BandChannel::Side => 2,
        BandChannel::Left => 3,
        BandChannel::Right => 4,
    }
}

pub open spec fn channel_of(code: u8) -> BandChannel {
    match code {
        1 => BandChannel::Mid,
        2 => BandChannel::Side,
        3 => BandChannel::Left,
        4 => BandChannel::Right,
        _ => BandChannel::Stereo,
    }
}

pub open spec fn slope_of(code: u8) -> Slope {
    match code {
        12 => Slope::S12,
        36 => Slope::S36,
        48 => Slope::S48,
        72 => Slope::S72,
        96 => Slope::S96,
        _ => Slope::S24,
    }
}

pub open spec fn band_res_mode_code(m: BandResMode) -> u8 {
    match m {
        BandResMode::Off => 0,
        BandResMode::Adaptive => 1,
        BandResMode::Spectral => 2,
    }
}

pub open spec fn band_res_mode_of(code: u8) -> BandResMode {
    match code {
        0 => BandResMode::Off,
        2 => BandResMode::Spectral,
        _ => BandResMode::Adaptive,
    }
}

pub open spec fn res_mode_code(m: ResMode) -> u8 {
    match m {
        ResMode::Adaptive => 0,
        ResMode::Spectral => 1,
    }
}

pub open spec fn res_mode_of(code: u8) -> ResMode {
    match code {
        1 => ResMode::Spectral,
        _ => ResMode::Adaptive,
    }
}

pub open spec fn quality_code(q: ResQuality) -> u8 {
    match q {
        ResQuality::Ultra => 0,
        ResQuality::Balanced => 1,
        ResQuality::High => 2,
    }
}

pub open spec fn quality_of(code: u8) -> ResQuality {
    match code {
        1 => ResQuality::Balanced,
        2 => ResQuality::High,
        _ => ResQuality::Ultra,
    }
}

pub open spec fn flags_of(b: BandSnapshot) -> u8 {
    (bit(b.enabled) + 2 * bit(b.dynamic) + 4 * bit(b.dyn_mode == DynMode::Below)) as u8
}

/// A band, as it is written.
pub open spec fn band_bytes(b: BandSnapshot) -> Seq<u8> {
    seq![kind_code(b.kind), channel_code(b.channel), b.slope.steepness() as u8, flags_of(b)]
        + singles(
        seq![b.freq, b.gain, b.q, b.dyn_range, b.threshold, b.attack, b.release, b.resonance],
    ) + seq![band_res_mode_code(b.res_mode)] + singles(
        seq![b.res_range, b.res_sens, b.res_width, b.res_attack, b.res_release],
    )
}

/// Bands one after the other, as they are written.
pub open spec fn all_band_bytes(bands: Seq<BandSnapshot>) -> Seq<u8>
    decreases bands.len(),
{
    if bands.len() == 0 {
        Seq::empty()
    } else {
        all_band_bytes(bands.drop_last()) + band_bytes(bands.last())
    }
}

/// The output gain and the resonance stage, as they are written.
pub open spec fn stage_bytes(gain: Single, r: ResonanceSnapshot) -> Seq<u8> {
    singles(seq![gain]) + seq![bit(r.enabled)] + singles(
        seq![
            r.depth,
            r.sharpness,
            r.threshold,
            r.attack,
            r.release,
            r.low,
            r.high,
            r.mix,
        ],
    ) + seq![res_mode_code(r.mode), quality_code(r.quality)] + singles(seq![r.range])
}

/// The bytes of a name, as far as the length field can count them.
pub open spec fn name_bytes(name: Seq<char>) -> Seq<u8> {
    let utf8 = encode_utf8(name);
    if utf8.len() <= u16::MAX {
        utf8
    } else {
        utf8.take(u16::MAX as int)
    }
}

/// The bands a file has room for: as many as there are slots.
pub open spec fn kept_bands(bands: Seq<BandSnapshot>) -> Seq<BandSnapshot> {
    if bands.len() <= MAX_BANDS {
        bands
    } else {
        bands.take(MAX_BANDS as int)
    }
}

/// A preset, as it is written.
pub open spec fn encoded(p: Preset) -> Seq<u8> {
    let name = name_bytes(p.name);
    let bands = kept_bands(p.scene.bands);
    magic() + le16(PST_VERSION) + le16(name.len() as u16) + name + stage_bytes(
        p.scene.output_gain,
        p.scene.resonance,
    ) + seq![bands.len() as u8] + all_band_bytes(bands)
}

/// Append two bytes, lowest first.
pub(crate) fn push_u16(out: &mut Vec<u8>, x: u16)
    ensures
        final(out)@ == old(out)@ + le16(x),
{
    out.push((x % 256) as u8);
    out.push((x / 256) as u8);
    assert(out@ =~= old(out)@ + le16(x));
}

fn push_singles(out: &mut Vec<u8>, vs: &[Single])
    ensures
        final(out)@ == old(out)@ + singles(vs@),
{
    let mut i: usize = 0;
    assert(out@ =~= old(out)@ + singles(vs@.take(0)));
    while i < vs.len()
        invariant
            i <= vs.len(),
            out@ == old(out)@ + singles(vs@.take(i as int)),
        decreases vs.len() - i,
    {
        let x: u32 = vs[i].bits;
        let ghost before = out@;
        out.push((x % 256) as u8);
        out.push((x / 256 % 256) as u8);
        out.push((x / 65536 % 256) as u8);
        out.push((x / 16777216) as u8);
        proof {
            let four = Seq::new(4, |k: int| byte_of(x, k));
            assert(out@ =~= before + four);
            let shorter = vs@.take(i as int);
            let longer = vs@.take(i + 1);
            assert forall|k: int| 0 <= k < singles(longer).len() implies singles(longer)[k] == (
            singles(shorter) + four)[k] by {
                if k < 4 * i {
                    assert(k / 4 < i);
                } else {
                    assert(k / 4 == i);
                    assert(k % 4 == k - 4 * i);
                }
            }
            assert(singles(longer) =~= singles(shorter) + four);
        }
        i = i + 1;
        assert(out@ =~= old(out)@ + singles(vs@.take(i as int)));
    }
    assert(vs@.take(i as int) =~= vs@);
}

proof fn lemma_four_pieces(
    start: Seq<u8>,
    a: Seq<u8>,
    b: Seq<u8>,
    c: Seq<u8>,
    d: Seq<u8>,
)
    ensures
        start + a + b + c + d == start + (a + b + c + d),
{
    assert(start + a + b + c + d =~= start + (a + b + c + d));
}

fn push_band(out: &mut Vec<u8>, band: &BandSnapshot)
    ensures
        final(out)@ == old(out)@ + band_bytes(*band),
{
    let b: BandSnapshot = *band;
    out.push(
        match b.kind {
            BandKind::LowCut => 0,
            BandKind::LowShelf => 1,
            BandKind::Bell => 2,
            BandKind::Notch => 3,
            BandKind::BandPass => 4,
            BandKind::HighShelf => 5,
            BandKind::HighCut => 6,
        },
    );
    out.push(
        match b.channel {
            BandChannel::Stereo => 0,
            BandChannel::Mid => 1,
            BandChannel::Side => 2,
            BandChannel::Left => 3,
            BandChannel::Right => 4,
        },
    );
    out.push(b.slope.db_per_oct() as u8);
    let enabled: u8 = if b.enabled {
        1
    } else {
        0
    };
    let dynamic: u8 = if b.dynamic {
        2
    } else {
        0
    };
    let below: u8 = match b.dyn_mode {
        DynMode::Below => 4,
        DynMode::Above => 0,
    };
    out.push(enabled + dynamic + below);
    let ghost codes = seq![
        kind_code(b.kind),
        channel_code(b.channel),
        b.slope.steepness() as u8,
        flags_of(b),
    ];
    assert(out@ =~= old(out)@ + codes);
    let shape: [Single; 8] = [
        b.freq,
        b.gain,
        b.q,
        b.dyn_range,
        b.threshold,
        b.attack,
        b.release,
        b.resonance,
    ];
    assert(shape@ =~= seq![
        b.freq,
        b.gain,
        b.q,
        b.dyn_range,
        b.threshold,
        b.attack,
        b.release,
        b.resonance,
    ]);
    push_singles(out, &shape);
    let ghost before = out@;
    out.push(
        match b.res_mode {
            BandResMode::Off => 0,
            BandResMode::Adaptive => 1,
            BandResMode::Spectral => 2,
        },
    );
    let ghost mode = seq![band_res_mode_code(b.res_mode)];
    assert(out@ =~= before + mode);
    let res: [Single; 5] = [b.res_range, b.res_sens, b.res_width, b.res_attack, b.res_release];
    assert(res@ =~= seq![b.res_range, b.res_sens, b.res_width, b.res_attack, b.res_release]);
    push_singles(out, &res);
    proof {
        lemma_four_pieces(old(out)@, codes, singles(shape@), mode, singles(res@));
    }
}

fn push_stage(out: &mut Vec<u8>, gain: Single, stage: &ResonanceSnapshot)
    ensures
        final(out)@ == old(out)@ + stage_bytes(gain, *stage),
{
    let r: ResonanceSnapshot = *stage;
    let first: [Single; 1] = [gain];
    assert(first@ =~= seq![gain]);
    push_singles(out, &first);
    out.push(
        if r.enabled {
            1
        } else {
            0
        },
    );
    let shape: [Single; 8] = [
        r.depth,
        r.sharpness,
        r.threshold,
        r.attack,
        r.release,
        r.low,
        r.high,
        r.mix,
    ];
    assert(shape@ =~= seq![
        r.depth,
        r.sharpness,
        r.threshold,
        r.attack,
        r.release,
        r.low,
        r.high,
        r.mix,
    ]);
    push_singles(out, &shape);
    out.push(
        match r.mode {
            ResMode::Adaptive => 0,
            ResMode::Spectral => 1,
        },
    );
    out.push(
        match r.quality {
            ResQuality::Ultra => 0,
            ResQuality::Balanced => 1,
            ResQuality::High => 2,
        },
    );
    let range: [Single; 1] = [r.range];
    assert(range@ =~= seq![r.range]);
    push_singles(out, &range);
    assert(out@ =~= old(out)@ + stage_bytes(gain, r));
}

/// Serialise a preset as a Futureboard Preset File.
pub fn encode(preset: &PresetFile) -> (r: Vec<u8>)
    ensures
        r@ == encoded(preset@),
{
    let name: &[u8] = preset.name.as_str().as_bytes();
    let name_len: usize = if name.len() <= 65535 {
        name.len()
    } else {
        65535
    };
    let bands: &Vec<BandSnapshot> = &preset.snapshot.bands;
    let count: usize = if bands.len() <= MAX_BANDS {
        bands.len()
    } else {
        MAX_BANDS
    };
    let ghost kept = kept_bands(bands@);

    let mut out: Vec<u8> = Vec::new();
    out.push(0x46);
    out.push(0x42);
    out.push(0x50);
    out.push(0x46);
    assert(out@ =~= magic());
    push_u16(&mut out, PST_VERSION);
    push_u16(&mut out, name_len as u16);
    let written: &[u8] = slice_subrange(name, 0, name_len);
    assert(written@ =~= name_bytes(preset@.name));
    out.extend_from_slice(written);
    push_stage(&mut out, preset.snapshot.output_gain, &preset.snapshot.resonance);
    out.push(count as u8);

    let ghost head = out@;
    let mut i: usize = 0;
    assert(out@ =~= head + all_band_bytes(kept.take(0)));
    while i < count
        invariant
            i <= count <= bands.len(),
            count == kept.len(),
            kept == kept_bands(bands@),
            out@ == head + all_band_bytes(kept.take(i as int)),
        decreases count - i,
    {
        push_band(&mut out, &bands[i]);
        proof {
            assert(kept.take(i + 1).drop_last() =~= kept.take(i as int));
            assert(kept.take(i + 1).last() == bands[i as int]);
        }
        i = i + 1;
        assert(out@ =~= head + all_band_bytes(kept.take(i as int)));
    }
    assert(kept.take(count as int) =~= kept);
    assert(head =~= magic() + le16(PST_VERSION) + le16(name_bytes(preset@.name).len() as u16)
        + name_bytes(preset@.name) + stage_bytes(
        preset@.scene.output_gain,
        preset@.scene.resonance,
    ) + seq![kept.len() as u8]);
    out
}

/// How many bytes a band takes in a version of the format.
pub open spec fn band_size(version: int) -> int {
    if version >= 2 {
        BAND_BYTES_V2 as int
    } else {
        BAND_BYTES_V1 as int
    }
}

/// Where the band count stands, behind a name of some length.
pub open spec fn count_at(version: int, name_len: int) -> int {
    if version >= 2 {
        name_len + 51
    } else {
        name_len + 45
    }
}

/// How many bands are read: as many as there are slots, whatever the file
/// claims.
pub open spec fn bands_read(count: int) -> int {
    if count <= MAX_BANDS {
        count
    } else {
        MAX_BANDS as int
    }
}

/// The first byte behind the last one that is read.
pub open spec fn end_of(bytes: Seq<u8>) -> int {
    let version = u16_at(bytes, 4);
    let at = count_at(version, u16_at(bytes, 6));
    at + 1 + band_size(version) * bands_read(bytes[at] as int)
}

/// A file that can be read: it carries the magic, claims a version there is a
/// reader for, has a name that is UTF-8, and does not end early.
pub open spec fn readable(bytes: Seq<u8>) -> bool {
    let version = u16_at(bytes, 4);
    let name_len = u16_at(bytes, 6);
    &&& bytes.len() >= 8
    &&& bytes.take(4) == magic()
    &&& 1 <= version <= PST_VERSION
    &&& bytes.len() > count_at(version, name_len)
    &&& valid_utf8(bytes.subrange(8, 8 + name_len))
    &&& bytes.len() >= end_of(bytes)
}

/// The resonance stage at a place. What version 1 does not carry is at its
/// default.
pub open spec fn stage_at(bytes: Seq<u8>, at: int, version: int) -> ResonanceSnapshot {
    let d = ResonanceSnapshot::fresh();
    ResonanceSnapshot {
        enabled: bytes[at] != 0,
        depth: single_at(bytes, at + 1),
        sharpness: single_at(bytes, at + 5),
        threshold: single_at(bytes, at + 9),
        attack: single_at(bytes, at + 13),
        release: single_at(bytes, at + 17),
        low: single_at(bytes, at + 21),
        high: single_at(bytes, at + 25),
        mix: single_at(bytes, at + 29),
        mode: if version >= 2 {
            res_mode_of(bytes[at + 33])
        } else {
            d.mode
        },
        quality: if version >= 2 {
            quality_of(bytes[at + 34])
        } else {
            d.quality
        },
        range: if version >= 2 {
            single_at(bytes, at + 35)
        } else {
            d.range
        },
    }
}

/// The band at a place. What version 1 does not carry is at its default.
pub open spec fn band_at(bytes: Seq<u8>, at: int, version: int) -> BandSnapshot {
    let d = BandSnapshot::fresh();
    BandSnapshot {
        kind: kind_of(bytes[at]),
        channel: channel_of(bytes[at + 1]),
        slope: slope_of(bytes[at + 2]),
        enabled: bytes[at + 3] % 2 == 1,
        dynamic: bytes[at + 3] / 2 % 2 == 1,
        dyn_mode: if bytes[at + 3] / 4 % 2 == 1 {
            DynMode::Below
        } else {
            DynMode::Above
        },
        freq: single_at(bytes, at + 4),
        gain: single_at(bytes, at + 8),
        q: single_at(bytes, at + 12),
        dyn_range: single_at(bytes, at + 16),
        threshold: single_at(bytes, at + 20),
        attack: single_at(bytes, at + 24),
        release: single_at(bytes, at + 28),
        resonance: single_at(bytes, at + 32),
        res_mode: if version >= 2 {
            band_res_mode_of(bytes[at + 36])
        } else {
            d.res_mode
        },
        res_range: if version >= 2 {
            single_at(bytes, at + 37)
        } else {
            d.res_range
        },
        res_sens: if version >= 2 {
            single_at(bytes, at + 41)
        } else {
            d.res_sens
        },
        res_width: if version >= 2 {
            single_at(bytes, at + 45)
        } else {
            d.res_width
        },
        res_attack: if version >= 2 {
            single_at(bytes, at + 49)
        } else {
            d.res_attack
        },
        res_release: if version >= 2 {
            single_at(bytes, at + 53)
        } else {
            d.res_release
        },
    }
}

/// What a file that can be read says.
pub open spec fn content(bytes: Seq<u8>) -> Preset {
    let version = u16_at(bytes, 4);
    let name_len = u16_at(bytes, 6);
    let at = count_at(version, name_len);
    Preset {
        name: decode_utf8(bytes.subrange(8, 8 + name_len)),
        version: PRESET_VERSION,
        scene: Scene {
            output_gain: single_at(bytes, 8 + name_len),
            resonance: stage_at(bytes, 12 + name_len, version),
            bands: Seq::new(
                bands_read(bytes[at] as int) as nat,
                |i: int| band_at(bytes, at + 1 + band_size(version) * i, version),
            ),
        },
    }
}

/// A place in a file being read.
pub struct Cursor<'a> {
    pub bytes: &'a [u8],
    pub at: usize,
}

impl<'a> Cursor<'a> {
    /// The place is in the file, or just behind it.
    pub open spec fn inside(self) -> bool {
        self.at <= self.bytes@.len()
    }

    /// The next bytes, or nothing if the file ends before them.
    pub fn take(&mut self, n: usize) -> (r: Option<&'a [u8]>)
        requires
            old(self).inside(),
        ensures
            final(self).bytes@ == old(self).bytes@,
            final(self).inside(),
            match r {
                Some(slice) => {
                    &&& old(self).at + n <= old(self).bytes@.len()
                    &&& slice@ == old(self).bytes@.subrange(old(self).at as int, old(self).at + n)
                    &&& final(self).at == old(self).at + n
                },
                None => {
                    &&& old(self).at + n > old(self).bytes@.len()
                    &&& final(self).at == old(self).at
                },
            },
    {
        if n > self.bytes.len() - self.at {
            return None;
        }
        let slice: &'a [u8] = slice_subrange(self.bytes, self.at, self.at + n);
        self.at = self.at + n;
        Some(slice)
    }

    /// The next byte, or nothing at the end of the file.
    pub fn byte(&mut self) -> (r: Option<u8>)
        requires
            old(self).inside(),
        ensures
            final(self).bytes@ == old(self).bytes@,
            final(self).inside(),
            match r {
                Some(b) => {
                    &&& old(self).at < old(self).bytes@.len()
                    &&& b == old(self).bytes@[old(self).at as int]
                    &&& final(self).at == old(self).at + 1
                },
                None => {
                    &&& old(self).at == old(self).bytes@.len()
                    &&& final(self).at == old(self).at
                },
            },
    {
        match self.take(1) {
            Some(slice) => Some(slice[0]),
            None => None,
        }
    }

    /// The next number, or nothing if the file ends before it.
    pub fn single(&mut self) -> (r: Option<Single>)
        requires
            old(self).inside(),
        ensures
            final(self).bytes@ == old(self).bytes@,
            final(self).inside(),
            match r {
                Some(v) => {
                    &&& old(self).at + 4 <= old(self).bytes@.len()
                    &&& v == single_at(old(self).bytes@, old(self).at as int)
                    &&& final(self).at == old(self).at + 4
                },
                None => {
                    &&& old(self).at + 4 > old(self).bytes@.len()
                    &&& final(self).at == old(self).at
                },
            },
    {
        match self.take(4) {
            Some(b) => {
                let bits: u32 = b[0] as u32 + 256 * b[1] as u32 + 65536 * b[2] as u32 + 16777216
                    * b[3] as u32;
                Some(Single { bits })
            },
            None => None,
        }
    }

    /// The next numbers, or nothing if the file ends before the last of them.
    fn take_singles(&mut self, n: usize) -> (r: Option<Vec<Single>>)
        requires
            old(self).inside(),
            n <= 8,
        ensures
            final(self).bytes@ == old(self).bytes@,
            final(self).inside(),
            match r {
                Some(vs) => {
                    &&& old(self).at + 4 * n <= old(self).bytes@.len()
                    &&& vs@.len() == n
                    &&& forall|k: int|
                        0 <= k < n ==> #[trigger] vs@[k] == single_at(
                            old(self).bytes@,
                            old(self).at + 4 * k,
                        )
                    &&& final(self).at == old(self).at + 4 * n
                },
                None => old(self).at + 4 * n > old(self).bytes@.len(),
            },
    {
        let mut vs: Vec<Single> = Vec::new();
        let mut k: usize = 0;
        while k < n
            invariant
                k <= n <= 8,
                self.bytes@ == old(self).bytes@,
                self.inside(),
                self.at == old(self).at + 4 * k,
                vs@.len() == k,
                forall|j: int|
                    0 <= j < k ==> #[trigger] vs@[j] == single_at(
                        old(self).bytes@,
                        old(self).at + 4 * j,
                    ),
            decreases n - k,
        {
            match self.single() {
                Some(v) => {
                    vs.push(v);
                },
                None => {
                    return None;
                },
            }
            k = k + 1;
        }
        Some(vs)
    }
}

impl<'a> Cursor<'a> {
    /// How many bytes the resonance stage takes in a version of the format.
    pub open spec fn stage_size(version: int) -> int {
        if version >= 2 {
            39
        } else {
            33
        }
    }

    fn take_stage(&mut self, version: usize) -> (r: Option<ResonanceSnapshot>)
        requires
            old(self).inside(),
        ensures
            final(self).bytes@ == old(self).bytes@,
            final(self).inside(),
            match r {
                Some(stage) => {
                    &&& old(self).at + Cursor::stage_size(version as int)
                        <= old(self).bytes@.len()
                    &&& stage == stage_at(old(self).bytes@, old(self).at as int, version as int)
                    &&& final(self).at == old(self).at + Cursor::stage_size(version as int)
                },
                None => old(self).at + Cursor::stage_size(version as int)
                    > old(self).bytes@.len(),
            },
    {
        let mut stage: ResonanceSnapshot = ResonanceSnapshot::default();
        match self.byte() {
            Some(b) => {
                stage.enabled = b != 0;
            },
            None => {
                return None;
            },
        }
        match self.take_singles(8) {
            Some(vs) => {
                stage.depth = vs[0];
                stage.sharpness = vs[1];
                stage.threshold = vs[2];
                stage.attack = vs[3];
                stage.release = vs[4];
                stage.low = vs[5];
                stage.high = vs[6];
                stage.mix = vs[7];
            },
            None => {
                return None;
            },
        }
        if version >= 2 {
            match self.byte() {
                Some(b) => {
                    stage.mode =
                    match b {
                        1 => ResMode::Spectral,
                        _ => ResMode::Adaptive,
                    };
                },
                None => {
                    return None;
                },
            }
            match self.byte() {
                Some(b) => {
                    stage.quality =
                    match b {
                        1 => ResQuality::Balanced,
                        2 => ResQuality::High,
                        _ => ResQuality::Ultra,
                    };
                },
                None => {
                    return None;
                },
            }
            match self.single() {
                Some(v) => {
                    stage.range = v;
                },
                None => {
                    return None;
                },
            }
        }
        Some(stage)
    }

    fn take_band(&mut self, version: usize) -> (r: Option<BandSnapshot>)
        requires
            old(self).inside(),
        ensures
            final(self).bytes@ == old(self).bytes@,
            final(self).inside(),
            match r {
                Some(band) => {
                    &&& old(self).at + band_size(version as int) <= old(self).bytes@.len()
                    &&& band == band_at(old(self).bytes@, old(self).at as int, version as int)
                    &&& final(self).at == old(self).at + band_size(version as int)
                },
                None => old(self).at + band_size(version as int) > old(self).bytes@.len(),
            },
    {
        let mut band: BandSnapshot = BandSnapshot::default();
        match self.take(4) {
            Some(codes) => {
                band.kind =
                match codes[0] {
                    0 => BandKind::LowCut,
                    1 => BandKind::LowShelf,
                    3 => BandKind::Notch,
                    4 => BandKind::BandPass,
                    5 => BandKind::HighShelf,
                    6 => BandKind::HighCut,
                    _ => BandKind::Bell,
                };
                band.channel =
                match codes[1] {
                    1 => BandChannel::Mid,
                    2 => BandChannel::Side,
                    3 => BandChannel::Left,
                    4 => BandChannel::Right,
                    _ => BandChannel::Stereo,
                };
                band.slope =
                match Slope::from_db_per_oct(codes[2] as u32) {
                    Some(slope) => slope,
                    None => Slope::S24,
                };
                proof {
                    lemma_slope_of(codes[2]);
                }
                let flags: u8 = codes[3];
                band.enabled = flags % 2 == 1;
                band.dynamic = flags / 2 % 2 == 1;
                band.dyn_mode =
                if flags / 4 % 2 == 1 {
                    DynMode::Below
                } else {
                    DynMode::Above
                };
            },
            None => {
                return None;
            },
        }
        match self.take_singles(8) {
            Some(vs) => {
                band.freq = vs[0];
                band.gain = vs[1];
                band.q = vs[2];
                band.dyn_range = vs[3];
                band.threshold = vs[4];
                band.attack = vs[5];
                band.release = vs[6];
                band.resonance = vs[7];
            },
            None => {
                return None;
            },
        }
        if version >= 2 {
            match self.byte() {
                Some(b) => {
                    band.res_mode =
                    match b {
                        0 => BandResMode::Off,
                        2 => BandResMode::Spectral,
                        _ => BandResMode::Adaptive,
                    };
                },
                None => {
                    return None;
                },
            }
            match self.take_singles(5) {
                Some(vs) => {
                    band.res_range = vs[0];
                    band.res_sens = vs[1];
                    band.res_width = vs[2];
                    band.res_attack = vs[3];
                    band.res_release = vs[4];
                },
                None => {
                    return None;
                },
            }
        }
        Some(band)
    }
}

proof fn lemma_slope_of(code: u8)
    ensures
        slope_of(code).steepness() == code || (slope_of(code) == Slope::S24 && forall|s: Slope|
            s.steepness() != code),
        forall|s: Slope| s.steepness() == code ==> slope_of(code) == s,
{
}

/// Parse a Futureboard Preset File. Nothing comes of anything that does not
/// carry the magic, claims a version there is no reader for, or ends early.
pub fn decode(bytes: &[u8]) -> (r: Option<PresetFile>)
    ensures
        r is Some <==> readable(bytes@),
        r matches Some(preset) ==> preset@ == content(bytes@),
{
    let mut cur: Cursor = Cursor { bytes, at: 0 };
    match cur.take(4) {
        Some(m) => {
            if !(m[0] == 0x46 && m[1] == 0x42 && m[2] == 0x50 && m[3] == 0x46) {
                assert(m@[0] != magic()[0] || m@[1] != magic()[1] || m@[2] != magic()[2] || m@[3]
                    != magic()[3]);
                assert(bytes@.take(4) =~= m@);
                return None;
            }
            assert(bytes@.take(4) =~= magic());
        },
        None => {
            return None;
        },
    }
    let version: usize = match cur.take(2) {
        Some(v) => v[0] as usize + 256 * v[1] as usize,
        None => {
            return None;
        },
    };
    if version == 0 || version > PST_VERSION as usize {
        return None;
    }
    let name_len: usize = match cur.take(2) {
        Some(v) => v[0] as usize + 256 * v[1] as usize,
        None => {
            return None;
        },
    };
    let name: String = match cur.take(name_len) {
        Some(utf8) => match text_of_utf8(utf8) {
            Some(name) => name,
            None => {
                return None;
            },
        },
        None => {
            return None;
        },
    };
    let output_gain: Single = match cur.single() {
        Some(v) => v,
        None => {
            return None;
        },
    };
    let resonance: ResonanceSnapshot = match cur.take_stage(version) {
        Some(stage) => stage,
        None => {
            return None;
        },
    };
    let ghost count_place = count_at(version as int, name_len as int);
    assert(cur.at == count_place);
    let count: usize = match cur.byte() {
        Some(b) => b as usize,
        None => {
            return None;
        },
    };
    let wanted: usize = if count <= MAX_BANDS {
        count
    } else {
        MAX_BANDS
    };
    let mut bands: Vec<BandSnapshot> = Vec::new();
    let mut i: usize = 0;
    while i < wanted
        invariant
            i <= wanted == bands_read(count as int),
            cur.bytes@ == bytes@,
            cur.inside(),
            version == u16_at(bytes@, 4),
            1 <= version <= 2,
            count_place == count_at(version as int, u16_at(bytes@, 6)),
            0 <= count_place < bytes@.len(),
            count == bytes@[count_place],
            cur.at == count_place + 1 + band_size(version as int) * i,
            bands@.len() == i,
            forall|k: int|
                0 <= k < i ==> #[trigger] bands@[k] == band_at(
                    bytes@,
                    count_place + 1 + band_size(version as int) * k,
                    version as int,
                ),
        decreases wanted - i,
    {
        match cur.take_band(version) {
            Some(band) => {
                bands.push(band);
            },
            None => {
                assert(band_size(version as int) * (i + 1) <= band_size(version as int) * wanted)
                    by (nonlinear_arith)
                    requires
                        i + 1 <= wanted,
                        band_size(version as int) > 0,
                ;
                assert(band_size(version as int) * (i + 1) == band_size(version as int) * i
                    + band_size(version as int)) by (nonlinear_arith);
                return None;
            },
        }
        assert(band_size(version as int) * (i + 1) == band_size(version as int) * i + band_size(
            version as int,
        )) by (nonlinear_arith);
        i = i + 1;
    }
    assert(bands@ =~= content(bytes@).scene.bands);
    Some(
        PresetFile {
            name,
            version: PRESET_VERSION,
            snapshot: Snapshot { bands, output_gain, resonance },
        },
    )
}

proof fn lemma_singles_read_back(bytes: Seq<u8>, at: int, vs: Seq<Single>)
    requires
        0 <= at,
        at + 4 * vs.len() <= bytes.len(),
        bytes.subrange(at, at + 4 * vs.len()) == singles(vs),
    ensures
        forall|k: int| 0 <= k < vs.len() ==> single_at(bytes, at + 4 * k) == #[trigger] vs[k],
{
    assert forall|k: int| 0 <= k < vs.len() implies single_at(bytes, at + 4 * k)
        == #[trigger] vs[k] by {
        let x = vs[k].bits;
        let piece = bytes.subrange(at, at + 4 * vs.len());
        assert((4 * k) / 4 == k && (4 * k) % 4 == 0);
        assert((4 * k + 1) / 4 == k && (4 * k + 1) % 4 == 1);
        assert((4 * k + 2) / 4 == k && (4 * k + 2) % 4 == 2);
        assert((4 * k + 3) / 4 == k && (4 * k + 3) % 4 == 3);
        assert(piece[4 * k] == byte_of(x, 0));
        assert(piece[4 * k + 1] == byte_of(x, 1));
        assert(piece[4 * k + 2] == byte_of(x, 2));
        assert(piece[4 * k + 3] == byte_of(x, 3));
        assert(bytes[at + 4 * k] == piece[4 * k]);
        assert(bytes[at + 4 * k + 1] == piece[4 * k + 1]);
        assert(bytes[at + 4 * k + 2] == piece[4 * k + 2]);
        assert(bytes[at + 4 * k + 3] == piece[4 * k + 3]);
    }
}

proof fn lemma_pieces_of_a_band(
    bytes: Seq<u8>,
    at: int,
    codes: Seq<u8>,
    shape: Seq<u8>,
    mode: Seq<u8>,
    res: Seq<u8>,
)
    requires
        0 <= at,
        at + 57 <= bytes.len(),
        codes.len() == 4,
        shape.len() == 32,
        mode.len() == 1,
        res.len() == 20,
        bytes.subrange(at, at + 57) == codes + shape + mode + res,
    ensures
        bytes[at] == codes[0],
        bytes[at + 1] == codes[1],
        bytes[at + 2] == codes[2],
        bytes[at + 3] == codes[3],
        bytes.subrange(at + 4, at + 36) == shape,
        bytes[at + 36] == mode[0],
        bytes.subrange(at + 37, at + 57) == res,
{
    let piece = bytes.subrange(at, at + 57);
    assert(forall|k: int| 0 <= k < 57 ==> bytes[at + k] == #[trigger] piece[k]);
    assert(piece[0] == codes[0] && piece[1] == codes[1] && piece[2] == codes[2] && piece[3]
        == codes[3] && piece[36] == mode[0]);
    assert(bytes.subrange(at + 4, at + 36) =~= piece.subrange(4, 36));
    assert(piece.subrange(4, 36) =~= shape);
    assert(bytes.subrange(at + 37, at + 57) =~= piece.subrange(37, 57));
    assert(piece.subrange(37, 57) =~= res);
}

proof fn lemma_band_reads_back(bytes: Seq<u8>, at: int, b: BandSnapshot)
    requires
        0 <= at,
        at + 57 <= bytes.len(),
        bytes.subrange(at, at + 57) == band_bytes(b),
    ensures
        band_at(bytes, at, 2) == b,
{
    let codes = seq![
        kind_code(b.kind),
        channel_code(b.channel),
        b.slope.steepness() as u8,
        flags_of(b),
    ];
    let shape = seq![
        b.freq,
        b.gain,
        b.q,
        b.dyn_range,
        b.threshold,
        b.attack,
        b.release,
        b.resonance,
    ];
    let mode = seq![band_res_mode_code(b.res_mode)];
    let res = seq![b.res_range, b.res_sens, b.res_width, b.res_attack, b.res_release];
    lemma_pieces_of_a_band(bytes, at, codes, singles(shape), mode, singles(res));
    lemma_singles_read_back(bytes, at + 4, shape);
    lemma_singles_read_back(bytes, at + 37, res);
    lemma_slope_of(b.slope.steepness() as u8);
    assert(shape[0] == b.freq && shape[1] == b.gain && shape[2] == b.q && shape[3]
        == b.dyn_range);
    assert(shape[4] == b.threshold && shape[5] == b.attack && shape[6] == b.release && shape[7]
        == b.resonance);
    assert(res[0] == b.res_range && res[1] == b.res_sens && res[2] == b.res_width && res[3]
        == b.res_attack && res[4] == b.res_release);
}

proof fn lemma_stage_reads_back(bytes: Seq<u8>, at: int, gain: Single, r: ResonanceSnapshot)
    requires
        0 <= at,
        at + 43 <= bytes.len(),
        bytes.subrange(at, at + 43) == stage_bytes(gain, r),
    ensures
        single_at(bytes, at) == gain,
        stage_at(bytes, at + 4, 2) == r,
{
    let piece = stage_bytes(gain, r);
    let shape = seq![
        r.depth,
        r.sharpness,
        r.threshold,
        r.attack,
        r.release,
        r.low,
        r.high,
        r.mix,
    ];
    assert(piece.len() == 43);
    assert(bytes.subrange(at, at + 4) =~= singles(seq![gain])) by {
        assert(bytes.subrange(at, at + 4) =~= bytes.subrange(at, at + 43).subrange(0, 4));
        assert(piece.subrange(0, 4) =~= singles(seq![gain]));
    }
    assert(bytes.subrange(at + 5, at + 37) =~= singles(shape)) by {
        assert(bytes.subrange(at + 5, at + 37) =~= bytes.subrange(at, at + 43).subrange(5, 37));
        assert(piece.subrange(5, 37) =~= singles(shape));
    }
    assert(bytes.subrange(at + 39, at + 43) =~= singles(seq![r.range])) by {
        assert(bytes.subrange(at + 39, at + 43) =~= bytes.subrange(at, at + 43).subrange(39, 43));
        assert(piece.subrange(39, 43) =~= singles(seq![r.range]));
    }
    lemma_singles_read_back(bytes, at, seq![gain]);
    lemma_singles_read_back(bytes, at + 5, shape);
    lemma_singles_read_back(bytes, at + 39, seq![r.range]);
    assert(bytes[at + 4] == bytes.subrange(at, at + 43)[4] == bit(r.enabled));
    assert(bytes[at + 37] == bytes.subrange(at, at + 43)[37] == res_mode_code(r.mode));
    assert(bytes[at + 38] == bytes.subrange(at, at + 43)[38] == quality_code(r.quality));
    assert(seq![gain][0] == gain && seq![r.range][0] == r.range);
    assert(shape[0] == r.depth && shape[1] == r.sharpness && shape[2] == r.threshold && shape[3]
        == r.attack);
    assert(shape[4] == r.release && shape[5] == r.low && shape[6] == r.high && shape[7] == r.mix);
}

proof fn lemma_all_bands(bands: Seq<BandSnapshot>)
    ensures
        all_band_bytes(bands).len() == 57 * bands.len(),
        forall|i: int|
            0 <= i < bands.len() ==> all_band_bytes(bands).subrange(57 * i, 57 * i + 57)
                == band_bytes(#[trigger] bands[i]),
    decreases bands.len(),
{
    if bands.len() > 0 {
        let shorter = bands.drop_last();
        lemma_all_bands(shorter);
        let all = all_band_bytes(bands);
        let before = all_band_bytes(shorter);
        let last = band_bytes(bands.last());
        assert(last.len() == 57);
        assert forall|i: int| 0 <= i < bands.len() implies all.subrange(57 * i, 57 * i + 57)
            == band_bytes(#[trigger] bands[i]) by {
            if i < shorter.len() {
                assert(shorter[i] == bands[i]);
                assert(all.subrange(57 * i, 57 * i + 57) =~= before.subrange(
                    57 * i,
                    57 * i + 57,
                ));
            } else {
                assert(all.subrange(57 * i, 57 * i + 57) =~= last);
            }
        }
    }
}

proof fn lemma_parts(p: Preset)
    ensures
        ({
            let e = encoded(p);
            let name = name_bytes(p.name);
            let bands = kept_bands(p.scene.bands);
            let n = name.len() as int;
            &&& name.len() <= u16::MAX
            &&& bands.len() <= MAX_BANDS
            &&& e.len() == 52 + n + 57 * bands.len()
            &&& e.take(4) == magic()
            &&& u16_at(e, 4) == 2
            &&& u16_at(e, 6) == n
            &&& e.subrange(8, 8 + n) == name
            &&& e.subrange(8 + n, 51 + n) == stage_bytes(
                p.scene.output_gain,
                p.scene.resonance,
            )
            &&& e[51 + n] == bands.len()
            &&& e.subrange(52 + n, e.len() as int) == all_band_bytes(bands)
        }),
{
    let e = encoded(p);
    let name = name_bytes(p.name);
    let bands = kept_bands(p.scene.bands);
    let n = name.len() as int;
    let stage = stage_bytes(p.scene.output_gain, p.scene.resonance);
    assert(stage.len() == 43);
    lemma_all_bands(bands);
    assert(e.take(4) =~= magic());
    assert(e[4] == le16(PST_VERSION)[0] && e[5] == le16(PST_VERSION)[1]);
    assert(e[6] == le16(n as u16)[0] && e[7] == le16(n as u16)[1]);
    assert(e.subrange(8, 8 + n) =~= name);
    assert(e.subrange(8 + n, 51 + n) =~= stage);
    assert(e.subrange(52 + n, e.len() as int) =~= all_band_bytes(bands));
}

proof fn lemma_bands_read_back(bytes: Seq<u8>, at: int, bands: Seq<BandSnapshot>)
    requires
        0 <= at,
        at + 57 * bands.len() <= bytes.len(),
        bytes.subrange(at, at + 57 * bands.len()) == all_band_bytes(bands),
    ensures
        Seq::new(bands.len(), |i: int| band_at(bytes, at + 57 * i, 2)) == bands,
{
    lemma_all_bands(bands);
    assert forall|i: int| 0 <= i < bands.len() implies band_at(bytes, at + 57 * i, 2)
        == #[trigger] bands[i] by {
        let place = at + 57 * i;
        assert(bytes.subrange(place, place + 57) =~= bytes.subrange(
            at,
            at + 57 * bands.len(),
        ).subrange(57 * i, 57 * i + 57));
        lemma_band_reads_back(bytes, place, bands[i]);
    }
    assert(Seq::new(bands.len(), |i: int| band_at(bytes, at + 57 * i, 2)) =~= bands);
}

/// What was written reads back: the name, every field of every band, the stage
/// and the output gain. A name too long for the length field, or more bands than
/// there are slots, cannot be held.
pub proof fn a_preset_reads_back(p: Preset)
    requires
        encode_utf8(p.name).len() <= u16::MAX,
        p.scene.bands.len() <= MAX_BANDS,
    ensures
        readable(encoded(p)),
        content(encoded(p)) == (Preset { version: PRESET_VERSION, ..p }),
{
    let e = encoded(p);
    let name = name_bytes(p.name);
    let bands = p.scene.bands;
    let n = name.len() as int;
    lemma_parts(p);
    lemma_stage_reads_back(e, 8 + n, p.scene.output_gain, p.scene.resonance);
    lemma_bands_read_back(e, 52 + n, bands);
    encode_utf8_valid_utf8(p.name);
    encode_utf8_decode_utf8(p.name);
    assert(content(e).scene.bands =~= Seq::new(
        bands.len(),
        |i: int| band_at(e, 52 + n + 57 * i, 2),
    ));
}

/// A file cut off anywhere reads as nothing rather than as noise.
pub proof fn a_truncated_preset_is_refused(p: Preset, cut: int)
    requires
        0 <= cut < encoded(p).len(),
    ensures
        !readable(encoded(p).take(cut)),
{
    lemma_parts(p);
    let e = encoded(p);
    let n = name_bytes(p.name).len() as int;
    let short = e.take(cut);
    if readable(short) {
        assert(short[4] == e[4] && short[5] == e[5] && short[6] == e[6] && short[7] == e[7]);
        assert(short[51 + n] == e[51 + n]);
    }
}

/// What follows the last band is not looked at.
pub proof fn trailing_bytes_are_ignored(bytes: Seq<u8>, more: Seq<u8>)
    requires
        readable(bytes),
    ensures
        readable(bytes + more),
        content(bytes + more) == content(bytes),
{
    let longer = bytes + more;
    let version = u16_at(bytes, 4);
    let n = u16_at(bytes, 6);
    let at = count_at(version, n);
    assert(longer.take(4) =~= bytes.take(4));
    assert(longer.subrange(8, 8 + n) =~= bytes.subrange(8, 8 + n));
    assert(longer[at] == bytes[at]);
    assert forall|i: int| 0 <= i < bands_read(bytes[at] as int) implies #[trigger] band_at(
        longer,
        at + 1 + band_size(version) * i,
        version,
    ) == band_at(bytes, at + 1 + band_size(version) * i, version) by {
        let count = bands_read(bytes[at] as int);
        assert(band_size(version) * i + band_size(version) <= band_size(version) * count)
            by (nonlinear_arith)
            requires
                i + 1 <= count,
                band_size(version) > 0,
        ;
        assert(0 <= band_size(version) * i) by (nonlinear_arith)
            requires
                0 <= i,
                band_size(version) > 0,
        ;
    }
    assert(content(longer).scene.bands =~= content(bytes).scene.bands);
}

/// Where each field of a band stands in a file: the shape, the channel, the slope
/// in decibels an octave and the switches in a byte each, then the numbers, four
/// bytes each with the lowest first, and the resonance fields behind them.
pub proof fn a_band_is_laid_out_like_this(b: BandSnapshot)
    ensures
        ({
            let bytes = band_bytes(b);
            &&& bytes.len() == 57
            &&& bytes[0] == (match b.kind {
                BandKind::LowCut => 0u8,
                BandKind::LowShelf => 1,
                BandKind::Bell => 2,
                BandKind::Notch => 3,
                BandKind::BandPass => 4,
                BandKind::HighShelf => 5,
                BandKind::HighCut => 6,
            })
            &&& bytes[1] == (match b.channel {
                BandChannel::Stereo => 0u8,
                BandChannel::Mid => 1,
                BandChannel::Side => 2,
                BandChannel::Left => 3,
                BandChannel::Right => 4,
            })
            &&& bytes[2] == (match b.slope {
                Slope::S12 => 12u8,
                Slope::S24 => 24,
                Slope::S36 => 36,
                Slope::S48 => 48,
                Slope::S72 => 72,
                Slope::S96 => 96,
            })
            &&& bytes[3] < 8
            &&& bytes[3] % 2 == 1 <==> b.enabled
            &&& bytes[3] / 2 % 2 == 1 <==> b.dynamic
            &&& bytes[3] / 4 == 1 <==> b.dyn_mode == DynMode::Below
            &&& single_at(bytes, 4) == b.freq
            &&& single_at(bytes, 8) == b.gain
            &&& single_at(bytes, 12) == b.q
            &&& single_at(bytes, 16) == b.dyn_range
            &&& single_at(bytes, 20) == b.threshold
            &&& single_at(bytes, 24) == b.attack
            &&& single_at(bytes, 28) == b.release
            &&& single_at(bytes, 32) == b.resonance
            &&& bytes[36] == (match b.res_mode {
                BandResMode::Off => 0u8,
                BandResMode::Adaptive => 1,
                BandResMode::Spectral => 2,
            })
            &&& single_at(bytes, 37) == b.res_range
            &&& single_at(bytes, 41) == b.res_sens
            &&& single_at(bytes, 45) == b.res_width
            &&& single_at(bytes, 49) == b.res_attack
            &&& single_at(bytes, 53) == b.res_release
        }),
{
    let bytes = band_bytes(b);
    assert(bytes.len() == 57);
    assert(bytes.subrange(0, 57) =~= bytes);
    lemma_band_reads_back(bytes, 0, b);
}

/// Where each field of the resonance stage stands, behind the output gain.
pub proof fn a_stage_is_laid_out_like_this(gain: Single, r: ResonanceSnapshot)
    ensures
        ({
            let bytes = stage_bytes(gain, r);
            &&& bytes.len() == 43
            &&& single_at(bytes, 0) == gain
            &&& bytes[4] == (if r.enabled {
                1u8
            } else {
                0
            })
            &&& single_at(bytes, 5) == r.depth
            &&& single_at(bytes, 9) == r.sharpness
            &&& single_at(bytes, 13) == r.threshold
            &&& single_at(bytes, 17) == r.attack
            &&& single_at(bytes, 21) == r.release
            &&& single_at(bytes, 25) == r.low
            &&& single_at(bytes, 29) == r.high
            &&& single_at(bytes, 33) == r.mix
            &&& bytes[37] == (match r.mode {
                ResMode::Adaptive => 0u8,
                ResMode::Spectral => 1,
            })
            &&& bytes[38] == (match r.quality {
                ResQuality::Ultra => 0u8,
                ResQuality::Balanced => 1,
                ResQuality::High => 2,
            })
            &&& single_at(bytes, 39) == r.range
        }),
{
    let bytes = stage_bytes(gain, r);
    assert(bytes.len() == 43);
    assert(bytes.subrange(0, 43) =~= bytes);
    lemma_stage_reads_back(bytes, 0, gain, r);
}

/// Where the parts of a file stand: the four letters FBPF, the version, the length
/// of the name, the name, the output gain and the resonance stage, the number of
/// bands, and the bands one after the other.
pub proof fn a_file_is_laid_out_like_this(p: Preset)
    requires
        encode_utf8(p.name).len() <= 0xffff,
        p.scene.bands.len() <= 24,
    ensures
        ({
            let e = encoded(p);
            let n = encode_utf8(p.name).len() as int;
            &&& e.len() == 52 + n + 57 * p.scene.bands.len()
            &&& e[0] == 0x46 && e[1] == 0x42 && e[2] == 0x50 && e[3] == 0x46
            &&& e[4] == 2 && e[5] == 0
            &&& e[6] + 256 * e[7] == n
            &&& e.subrange(8, 8 + n) == encode_utf8(p.name)
            &&& e.subrange(8 + n, 51 + n) == stage_bytes(
                p.scene.output_gain,
                p.scene.resonance,
            )
            &&& e[51 + n] == p.scene.bands.len()
            &&& forall|i: int|
                0 <= i < p.scene.bands.len() ==> e.subrange(52 + n + 57 * i, 109 + n + 57 * i)
                    == band_bytes(#[trigger] p.scene.bands[i])
        }),
{
    let e = encoded(p);
    let n = encode_utf8(p.name).len() as int;
    let bands = p.scene.bands;
    lemma_parts(p);
    lemma_all_bands(bands);
    assert(e.take(4)[0] == 0x46 && e.take(4)[1] == 0x42 && e.take(4)[2] == 0x50 && e.take(4)[3]
        == 0x46);
    assert forall|i: int| 0 <= i < bands.len() implies e.subrange(
        52 + n + 57 * i,
        109 + n + 57 * i,
    ) == band_bytes(#[trigger] bands[i]) by {
        assert(e.subrange(52 + n + 57 * i, 109 + n + 57 * i) =~= e.subrange(
            52 + n,
            e.len() as int,
        ).subrange(57 * i, 57 * i + 57));
    }
}

/// A number is read with its lowest byte first.
pub proof fn a_number_is_read_lowest_byte_first(bytes: Seq<u8>, at: int)
    ensures
        single_at(bytes, at).bits == bytes[at] + 0x100 * bytes[at + 1] + 0x1_0000 * bytes[at + 2]
            + 0x100_0000 * bytes[at + 3],
{
}

/// A band of the first version is thirty-six bytes, and what it does not carry is
/// at its default; the rest stands where it stands today.
pub proof fn an_old_band_reads_with_defaults(bytes: Seq<u8>, at: int)
    ensures
        band_size(1) == 36,
        band_size(2) == 57,
        ({
            let old = band_at(bytes, at, 1);
            let new = band_at(bytes, at, 2);
            let d = crate::params::BandParams::fresh();
            &&& old == (BandSnapshot {
                res_mode: old.res_mode,
                res_range: old.res_range,
                res_sens: old.res_sens,
                res_width: old.res_width,
                res_attack: old.res_attack,
                res_release: old.res_release,
                ..new
            })
            &&& old.res_mode == BandResMode::Adaptive
            &&& old.res_range == d.res_range
            &&& old.res_sens == d.res_sens
            &&& old.res_width == d.res_width
            &&& old.res_attack == d.res_attack
            &&& old.res_release == d.res_release
        }),
{
}

/// A code nobody wrote reads as the default: a bell, stereo, 24 dB an octave.
pub proof fn an_unknown_code_reads_as_the_default(code: u8)
    ensures
        code > 6 ==> kind_of(code) == BandKind::Bell,
        code > 4 ==> channel_of(code) == BandChannel::Stereo,
        code != 12 && code != 24 && code != 36 && code != 48 && code != 72 && code != 96
            ==> slope_of(code) == Slope::S24,
        code > 2 ==> band_res_mode_of(code) == BandResMode::Adaptive,
        code > 1 ==> res_mode_of(code) == ResMode::Adaptive,
        code > 2 ==> quality_of(code) == ResQuality::Ultra,
{
}

} // verus!
