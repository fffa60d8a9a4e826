//! Per-band meter values, published by the audio thread and read by the editor.
//!
//! These are display-only: a dropped or slightly stale update costs a frame of
//! meter movement and nothing else.

use vstd::prelude::*;

use crate::params::MAX_BANDS;
use crate::single::Single;

verus! {

/// How many bands the resonance bank has: six to the octave, over ten octaves.
pub const RES_BANDS: usize = 60;

/// How many filters the spectral engine may run at once.
pub const MAX_TARGETS: usize = 24;

/// Where a level meter rests: -100 dBFS.
pub const RESTING_LEVEL: u32 = 0xc2c8_0000;

/// What a band's meter shows.
#[derive(Clone, Copy, Debug, PartialEq, Eq, Structural)]
pub struct BandMeter {
    /// Band level in dBFS, measured on the sidechain-filtered input.
    pub level_db: Single,
    /// Gain offset the dynamics section is applying, in dB.
    pub delta_db: Single,
}

/// One filter of the spectral engine, as it is published. A frequency of zero
/// marks an empty place.
#[derive(Clone, Copy, Debug, PartialEq, Eq, Structural)]
pub struct TargetView {
    pub freq: Single,
    pub cut_db: Single,
    pub q: Single,
    pub confidence: Single,
}

impl TargetView {
    /// A place with no filter in it.
    pub open spec fn empty() -> TargetView {
        TargetView {
            freq: Single { bits: 0 },
            cut_db: Single { bits: 0 },
            q: Single { bits: 0 },
            confidence: Single { bits: 0 },
        }
    }
}

/// Everything the meters show.
#[derive(Clone, Copy, Debug)]
pub struct Meters {
    pub level: [Single; MAX_BANDS],
    pub delta: [Single; MAX_BANDS],
    /// dB of cut per resonance band. Positive is a cut.
    pub resonance: [Single; RES_BANDS],
    /// The deepest of those, so the UI can show activity without the curve.
    pub resonance_peak: Single,
    pub targets: [TargetView; MAX_TARGETS],
}

impl Meters {
    /// Nothing is going on.
    pub open spec fn parked(self) -> bool {
        &&& forall|i: int| 0 <= i < MAX_BANDS ==> (#[trigger] self.level[i]).bits == RESTING_LEVEL
        &&& forall|i: int| 0 <= i < MAX_BANDS ==> (#[trigger] self.delta[i]).bits == 0
        &&& forall|i: int| 0 <= i < RES_BANDS ==> (#[trigger] self.resonance[i]).bits == 0
        &&& self.resonance_peak.bits == 0
        &&& forall|i: int|
            0 <= i < MAX_TARGETS ==> #[trigger] self.targets[i] == TargetView::empty()
    }

    /// Publish a band's meter.
    pub fn publish(&mut self, slot: usize, meter: BandMeter)
        requires
            slot < MAX_BANDS,
        ensures
            final(self).level@ == old(self).level@.update(slot as int, meter.level_db),
            final(self).delta@ == old(self).delta@.update(slot as int, meter.delta_db),
            final(self).resonance == old(self).resonance,
            final(self).resonance_peak == old(self).resonance_peak,
            final(self).targets == old(self).targets,
    {
        self.level[slot] = meter.level_db;
        self.delta[slot] = meter.delta_db;
    }

    /// Publish the reduction curve, as far as it goes, and its peak.
    pub fn publish_resonance(&mut self, curve: &[Single], peak: Single)
        ensures
            final(self).level == old(self).level,
            final(self).delta == old(self).delta,
            final(self).targets == old(self).targets,
            final(self).resonance_peak == peak,
            forall|i: int|
                0 <= i < RES_BANDS ==> #[trigger] final(self).resonance[i] == (if i
                    < curve@.len() {
                    curve@[i]
                } else {
                    old(self).resonance[i]
                }),
    {
        let mut i: usize = 0;
        while i < RES_BANDS && i < curve.len()
            invariant
                i <= RES_BANDS,
                i <= curve@.len(),
                self.level == old(self).level,
                self.delta == old(self).delta,
                self.targets == old(self).targets,
                forall|k: int|
                    0 <= k < RES_BANDS ==> #[trigger] self.resonance[k] == (if k < i {
                        curve@[k]
                    } else {
                        old(self).resonance[k]
                    }),
            decreases RES_BANDS - i,
        {
            self.resonance[i] = curve[i];
            i = i + 1;
        }
        self.resonance_peak = peak;
    }

    /// Read the band meters into two buffers, as far as the shorter one goes.
    pub fn read_into(&self, level: &mut Vec<Single>, delta: &mut Vec<Single>)
        ensures
            final(level)@.len() == old(level)@.len(),
            final(delta)@.len() == old(delta)@.len(),
            forall|i: int|
                0 <= i < old(level)@.len() ==> #[trigger] final(level)@[i] == (if i < MAX_BANDS && i
                    < old(delta)@.len() {
                    self.level[i]
                } else {
                    old(level)@[i]
                }),
            forall|i: int|
                0 <= i < old(delta)@.len() ==> #[trigger] final(delta)@[i] == (if i < MAX_BANDS && i
                    < old(level)@.len() {
                    self.delta[i]
                } else {
                    old(delta)@[i]
                }),
    {
        let mut i: usize = 0;
        while i < MAX_BANDS && i < level.len() && i < delta.len()
            invariant
                i <= MAX_BANDS,
                i <= level@.len() == old(level)@.len(),
                i <= delta@.len() == old(delta)@.len(),
                forall|k: int|
                    0 <= k < level@.len() ==> #[trigger] level@[k] == (if k < i {
                        self.level[k]
                    } else {
                        old(level)@[k]
                    }),
                forall|k: int|
                    0 <= k < delta@.len() ==> #[trigger] delta@[k] == (if k < i {
                        self.delta[k]
                    } else {
                        old(delta)@[k]
                    }),
            decreases MAX_BANDS - i,
        {
            level[i] = self.level[i];
            delta[i] = self.delta[i];
            i = i + 1;
        }
    }

    /// Read the reduction curve into a buffer, as far as it goes, and return the
    /// peak.
    pub fn read_resonance(&self, out: &mut Vec<Single>) -> (r: Single)
        ensures
            r == self.resonance_peak,
            final(out)@.len() == old(out)@.len(),
            forall|i: int|
                0 <= i < old(out)@.len() ==> #[trigger] final(out)@[i] == (if i < RES_BANDS {
                    self.resonance[i]
                } else {
                    old(out)@[i]
                }),
    {
        let mut i: usize = 0;
        while i < RES_BANDS && i < out.len()
            invariant
                i <= RES_BANDS,
                i <= out@.len() == old(out)@.len(),
                forall|k: int|
                    0 <= k < out@.len() ==> #[trigger] out@[k] == (if k < i {
                        self.resonance[k]
                    } else {
                        old(out)@[k]
                    }),
            decreases RES_BANDS - i,
        {
            out[i] = self.resonance[i];
            i = i + 1;
        }
        self.resonance_peak
    }

    /// Publish the spectral engine's targets, as far as they go.
    pub fn publish_targets(&mut self, views: &[TargetView])
        ensures
            final(self).level == old(self).level,
            final(self).delta == old(self).delta,
            final(self).resonance == old(self).resonance,
            final(self).resonance_peak == old(self).resonance_peak,
            forall|i: int|
                0 <= i < MAX_TARGETS ==> #[trigger] final(self).targets[i] == (if i
                    < views@.len() {
                    views@[i]
                } else {
                    old(self).targets[i]
                }),
    {
        let mut i: usize = 0;
        while i < MAX_TARGETS && i < views.len()
            invariant
                i <= MAX_TARGETS,
                i <= views@.len(),
                self.level == old(self).level,
                self.delta == old(self).delta,
                self.resonance == old(self).resonance,
                self.resonance_peak == old(self).resonance_peak,
                forall|k: int|
                    0 <= k < MAX_TARGETS ==> #[trigger] self.targets[k] == (if k < i {
                        views@[k]
                    } else {
                        old(self).targets[k]
                    }),
            decreases MAX_TARGETS - i,
        {
            self.targets[i] = views[i];
            i = i + 1;
        }
    }

    /// Read the targets into a buffer, as far as it goes.
    pub fn read_targets(&self, out: &mut Vec<TargetView>)
        ensures
            final(out)@.len() == old(out)@.len(),
            forall|i: int|
                0 <= i < old(out)@.len() ==> #[trigger] final(out)@[i] == (if i < MAX_TARGETS {
                    self.targets[i]
                } else {
                    old(out)@[i]
                }),
    {
        let mut i: usize = 0;
        while i < MAX_TARGETS && i < out.len()
            invariant
                i <= MAX_TARGETS,
                i <= out@.len() == old(out)@.len(),
                forall|k: int|
                    0 <= k < out@.len() ==> #[trigger] out@[k] == (if k < i {
                        self.targets[k]
                    } else {
                        old(out)@[k]
                    }),
            decreases MAX_TARGETS - i,
        {
            out[i] = self.targets[i];
            i = i + 1;
        }
    }

    /// Park every meter.
    pub fn clear(&mut self)
        ensures
            final(self).parked(),
    {
        *self = Meters::default();
    }
}

impl Default for Meters {
    fn default() -> (r: Meters)
        ensures
            r.parked(),
    {
        let zero: Single = Single { bits: 0 };
        Meters {
            level: [Single { bits: RESTING_LEVEL };MAX_BANDS],
            delta: [zero;MAX_BANDS],
            resonance: [zero;RES_BANDS],
            resonance_peak: zero,
            targets: [TargetView { freq: zero, cut_db: zero, q: zero, confidence: zero };MAX_TARGETS],
        }
    }
}

} // verus!
