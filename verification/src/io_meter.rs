//! The ballistics of the stereo input and output meters.
//!
//! Transients arrive immediately, levels fall smoothly in dB, and a short
//! peak-hold line keeps the crest visible.

use vstd::prelude::*;

use crate::single::{Single, SIGN_BIT};

verus! {

/// Bottom of the meters: -72 dB.
pub const FLOOR_DB: u32 = 0xc290_0000;

/// One rail of a meter.
#[derive(Clone, Copy, Debug, PartialEq, Eq, Structural)]
pub struct Channel {
    pub level_db: Single,
    pub held_db: Single,
}

/// What a rail is handed each frame, in dB.
#[derive(Clone, Copy, Debug, PartialEq, Eq, Structural)]
pub struct Reading {
    /// The peak that came in.
    pub incoming: Single,
    /// Where the level and the held peak have fallen to since the last frame.
    pub level_fallen: Single,
    pub held_fallen: Single,
    /// The peak has been held long enough.
    pub hold_over: bool,
}

/// The higher of two levels.
pub open spec fn higher(a: Single, b: Single) -> Single {
    if a.nan() || a.below(b) {
        b
    } else {
        a
    }
}

impl Reading {
    /// Nothing here is not a number, and a fall leads down.
    pub open spec fn sound(self, from: Channel) -> bool {
        &&& !self.incoming.nan() && !self.level_fallen.nan() && !self.held_fallen.nan()
        &&& self.level_fallen.rank() <= from.level_db.rank()
    }
}

impl Channel {
    /// At rest.
    pub open spec fn resting() -> Channel {
        Channel { level_db: Single { bits: FLOOR_DB }, held_db: Single { bits: FLOOR_DB } }
    }

    /// The held peak is over the level.
    pub open spec fn valid(self) -> bool {
        !self.level_db.nan() && !self.held_db.nan() && self.level_db.rank() <= self.held_db.rank()
    }

    /// The rail after a reading.
    pub open spec fn after(self, r: Reading) -> Channel {
        let level = if r.incoming.nan() || r.incoming.below(self.level_db) {
            higher(r.level_fallen, r.incoming)
        } else {
            r.incoming
        };
        Channel {
            level_db: level,
            held_db: if self.crests(r) {
                r.incoming
            } else if r.hold_over {
                higher(r.held_fallen, level)
            } else {
                self.held_db
            },
        }
    }

    /// Does a reading set a new peak to hold?
    pub open spec fn crests(self, r: Reading) -> bool {
        !r.incoming.nan() && !r.incoming.below(self.held_db)
    }

    /// Take in a reading. The answer is whether a new peak is held from now on.
    pub fn update(&mut self, r: Reading) -> (crested: bool)
        requires
            !old(self).level_db.nan(),
            !old(self).held_db.nan(),
        ensures
            *final(self) == old(self).after(r),
            crested == old(self).crests(r),
    {
        self.level_db =
        if r.incoming.is_nan() || r.incoming.lt(self.level_db) {
            r.level_fallen.max(r.incoming)
        } else {
            r.incoming
        };
        if !r.incoming.is_nan() && !r.incoming.lt(self.held_db) {
            self.held_db = r.incoming;
            true
        } else {
            if r.hold_over {
                self.held_db = r.held_fallen.max(self.level_db);
            }
            false
        }
    }

    /// A peak is shown the moment it arrives, a level never falls under what came
    /// in, and the held peak stays over the level.
    pub proof fn attack_is_instant(self, r: Reading)
        requires
            self.valid(),
            r.sound(self),
        ensures
            self.after(r).valid(),
            r.incoming.rank() <= self.after(r).level_db.rank(),
            self.level_db.rank() <= r.incoming.rank() ==> self.after(r).level_db == r.incoming,
            self.held_db.rank() <= r.incoming.rank() ==> self.after(r).held_db == r.incoming,
            !r.hold_over && r.incoming.rank() < self.held_db.rank() ==> self.after(r).held_db
                == self.held_db,
    {
    }
}

/// Does a sample peak light the clip lamp? It does at full scale and beyond.
pub fn clips(peak: Single) -> (r: bool)
    ensures
        r == (peak.finite() && peak.magnitude() >= 0x3f80_0000),
{
    peak.is_finite() && peak.bits % SIGN_BIT >= 0x3f80_0000
}

/// Both stereo meters.
#[derive(Clone, Copy, Debug)]
pub struct IoMeterState {
    pub input: [Channel; 2],
    pub output: [Channel; 2],
}

impl IoMeterState {
    /// All four rails, the input's first.
    pub open spec fn rails(self) -> Seq<Channel> {
        self.input@ + self.output@
    }

    /// Put every rail to rest.
    pub fn reset(&mut self)
        ensures
            forall|i: int| 0 <= i < 4 ==> final(self).rails()[i] == Channel::resting(),
    {
        let rest: Channel = Channel {
            level_db: Single { bits: FLOOR_DB },
            held_db: Single { bits: FLOOR_DB },
        };
        self.input = [rest, rest];
        self.output = [rest, rest];
    }

    /// Is there anything to show: a level, a held peak, or a clip lamp that is
    /// still lit?
    pub fn is_active(&self, clipping: bool) -> (r: bool)
        ensures
            r == (clipping || exists|i: int|
                0 <= i < 4 && (#[trigger] self.rails()[i]).shows()),
    {
        let a: bool = is_showing(&self.input[0]);
        let b: bool = is_showing(&self.input[1]);
        let c: bool = is_showing(&self.output[0]);
        let d: bool = is_showing(&self.output[1]);
        proof {
            assert(self.rails()[0] == self.input@[0]);
            assert(self.rails()[1] == self.input@[1]);
            assert(self.rails()[2] == self.output@[0]);
            assert(self.rails()[3] == self.output@[1]);
        }
        clipping || a || b || c || d
    }
}

impl Channel {
    /// Is there anything to show on this rail?
    pub open spec fn shows(self) -> bool {
        let floor = Single { bits: FLOOR_DB };
        floor.below(self.level_db) || floor.below(self.held_db)
    }
}

fn is_showing(c: &Channel) -> (r: bool)
    ensures
        r == c.shows(),
{
    let floor: Single = Single { bits: FLOOR_DB };
    floor.lt(c.level_db) || floor.lt(c.held_db)
}

impl Default for IoMeterState {
    fn default() -> (r: IoMeterState)
        ensures
            forall|i: int| 0 <= i < 4 ==> r.rails()[i] == Channel::resting(),
    {
        let rest: Channel = Channel {
            level_db: Single { bits: FLOOR_DB },
            held_db: Single { bits: FLOOR_DB },
        };
        IoMeterState { input: [rest, rest], output: [rest, rest] }
    }
}

impl Channel {
    /// A level that is not pushed up falls as far as it has fallen, but never under
    /// what comes in; and once a peak has been held long enough it falls as far as
    /// it has fallen, but never under the level. A new peak is held exactly when
    /// what comes in is no lower than the one that is held.
    pub proof fn a_fall_stops_at_what_comes_in(self, r: Reading)
        requires
            self.valid(),
            r.sound(self),
        ensures
            r.incoming.rank() < self.level_db.rank() ==> {
                let level = self.after(r).level_db;
                &&& level == r.level_fallen || level == r.incoming
                &&& level.rank() >= r.level_fallen.rank() && level.rank() >= r.incoming.rank()
            },
            r.incoming.rank() < self.held_db.rank() && r.hold_over ==> {
                let now = self.after(r);
                &&& now.held_db == r.held_fallen || now.held_db == now.level_db
                &&& now.held_db.rank() >= r.held_fallen.rank() && now.held_db.rank()
                    >= now.level_db.rank()
            },
            self.crests(r) <==> self.held_db.rank() <= r.incoming.rank(),
    {
    }

    /// At rest a rail stands at -72 dB and shows nothing; it shows something exactly
    /// when its level or its held peak is above that.
    pub proof fn a_rail_shows_what_is_above_its_floor(self)
        ensures
            Channel::resting().level_db.bits == 0xc290_0000,
            Channel::resting().held_db.bits == 0xc290_0000,
            !Channel::resting().shows(),
            self.shows() <==> (Single { bits: 0xc290_0000 }).below(self.level_db) || (Single {
                bits: 0xc290_0000,
            }).below(self.held_db),
    {
    }
}

} // verus!
