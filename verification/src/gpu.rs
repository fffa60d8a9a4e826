//! What the GPU effects decide: when they may run, what they sample, and which
//! render targets they keep.
//!
//! Frosted glass and bloom are screen-space passes over a dual-Kawase blur:
//! successive halvings on the way down, and back up again. Every effect has a
//! plain painted fallback while its programs initialise or after a driver
//! failure.

use vstd::prelude::*;

verus! {

/// Enough entries for the plot bloom and every distinct glass surface visible
/// at once. The small cache keeps resizing from retaining an unbounded trail of
/// old sizes.
pub const MAX_SCRATCH_CHAINS: usize = 8;

/// An effect, with the number of halvings before its blur turns around.
#[derive(Clone, Copy, Debug, PartialEq, Eq, Structural)]
pub enum Job {
    Glass(u32),
    Bloom(u32),
}

impl Job {
    pub open spec fn halvings(self) -> u32 {
        match self {
            Job::Glass(levels) => levels,
            Job::Bloom(levels) => levels,
        }
    }

    /// Three texels, doubled for each of up to five halvings.
    pub open spec fn reach(halvings: nat) -> int
        decreases halvings,
    {
        if halvings == 0 {
            3
        } else {
            2 * Job::reach((halvings - 1) as nat)
        }
    }

    /// How far outside the rectangle the blur has to reach for the edges to be
    /// fed real pixels rather than a clamped smear.
    pub fn padding(&self) -> (r: i32)
        ensures
            r == Job::reach(
                if self.halvings() <= 5 {
                    self.halvings() as nat
                } else {
                    5
                },
            ),
    {
        let levels: u32 = match self {
            Job::Glass(levels) => *levels,
            Job::Bloom(levels) => *levels,
        };
        proof {
            reveal_with_fuel(Job::reach, 6);
        }
        match levels {
            0 => 3,
            1 => 6,
            2 => 12,
            3 => 24,
            4 => 48,
            _ => 96,
        }
    }

    /// How many halvings there are: one at least and five at most.
    pub fn levels(&self) -> (r: u32)
        ensures
            r == (if self.halvings() < 1 {
                1
            } else if self.halvings() > 5 {
                5
            } else {
                self.halvings()
            }),
    {
        let levels: u32 = match self {
            Job::Glass(levels) => *levels,
            Job::Bloom(levels) => *levels,
        };
        if levels < 1 {
            1
        } else if levels > 5 {
            5
        } else {
            levels
        }
    }
}

/// A rectangle of pixels, counted from the bottom left.
#[derive(Clone, Copy, Debug, PartialEq, Eq, Structural)]
pub struct Region {
    pub left: i32,
    pub bottom: i32,
    pub width: i32,
    pub height: i32,
}

pub open spec fn larger(a: int, b: int) -> int {
    if a < b {
        b
    } else {
        a
    }
}

pub open spec fn smaller(a: int, b: int) -> int {
    if a < b {
        a
    } else {
        b
    }
}

/// The region actually sampled: the rectangle, grown so the blur has real pixels
/// to reach for, then clipped to the screen it is being read from. Nothing for a
/// rectangle too small to blur.
pub fn sampled(rect: &Region, screen_width: i32, screen_height: i32, pad: i32) -> (r: Option<
    Region,
>)
    requires
        pad >= 0,
    ensures
        ({
            let left = larger(rect.left - pad, 0);
            let bottom = larger(rect.bottom - pad, 0);
            let width = smaller(rect.left + rect.width + pad, screen_width as int) - left;
            let height = smaller(rect.bottom + rect.height + pad, screen_height as int) - bottom;
            match r {
                Some(region) => {
                    &&& rect.width >= 2 && rect.height >= 2 && width >= 4 && height >= 4
                    &&& region.left == left
                    &&& region.bottom == bottom
                    &&& region.width == width
                    &&& region.height == height
                },
                None => rect.width < 2 || rect.height < 2 || width < 4 || height < 4,
            }
        }),
{
    if rect.width < 2 || rect.height < 2 {
        return None;
    }
    let p: i64 = pad as i64;
    let mut left: i64 = rect.left as i64 - p;
    if left < 0 {
        left = 0;
    }
    let mut bottom: i64 = rect.bottom as i64 - p;
    if bottom < 0 {
        bottom = 0;
    }
    let mut right: i64 = rect.left as i64 + rect.width as i64 + p;
    if right > screen_width as i64 {
        right = screen_width as i64;
    }
    let mut top: i64 = rect.bottom as i64 + rect.height as i64 + p;
    if top > screen_height as i64 {
        top = screen_height as i64;
    }
    if right - left < 4 || top - bottom < 4 {
        return None;
    }
    Some(
        Region {
            left: left as i32,
            bottom: bottom as i32,
            width: (right - left) as i32,
            height: (top - bottom) as i32,
        },
    )
}

/// The sampled region lies on the screen, and covers all of the rectangle that
/// does.
pub proof fn the_sampled_region_covers_the_rectangle(
    rect: Region,
    screen_width: i32,
    screen_height: i32,
    pad: i32,
    x: int,
    y: int,
)
    requires
        pad >= 0,
        rect.left <= x < rect.left + rect.width,
        rect.bottom <= y < rect.bottom + rect.height,
        0 <= x < screen_width,
        0 <= y < screen_height,
    ensures
        larger(rect.left - pad, 0) <= x < smaller(
            rect.left + rect.width + pad,
            screen_width as int,
        ) <= screen_width,
        larger(rect.bottom - pad, 0) <= y < smaller(
            rect.bottom + rect.height + pad,
            screen_height as int,
        ) <= screen_height,
{
}

/// What a chain of render targets is made for.
#[derive(Clone, Copy, Debug, PartialEq, Eq, Structural)]
pub struct ChainKey {
    pub width: i32,
    pub height: i32,
    pub count: usize,
}

/// A length halved so many times, rounding down.
pub open spec fn halved(x: int, n: nat) -> int
    decreases n,
{
    if n == 0 {
        x
    } else {
        halved(x, (n - 1) as nat) / 2
    }
}

/// The size of one target of a chain.
#[derive(Clone, Copy, Debug, PartialEq, Eq, Structural)]
pub struct LevelSize {
    pub width: i32,
    pub height: i32,
}

/// The sizes of the targets of a chain: each half the one before it, and never
/// less than a pixel.
pub fn create_levels(key: &ChainKey) -> (r: Vec<LevelSize>)
    requires
        key.width >= 0,
        key.height >= 0,
    ensures
        r@.len() == key.count,
        forall|i: int|
            0 <= i < key.count ==> {
                &&& (#[trigger] r@[i]).width == larger(halved(key.width as int, i as nat), 1)
                &&& r@[i].height == larger(halved(key.height as int, i as nat), 1)
            },
{
    let mut sizes: Vec<LevelSize> = Vec::new();
    let mut w: i32 = key.width;
    let mut h: i32 = key.height;
    let mut i: usize = 0;
    while i < key.count
        invariant
            i <= key.count,
            w >= 0,
            h >= 0,
            w == halved(key.width as int, i as nat),
            h == halved(key.height as int, i as nat),
            sizes@.len() == i,
            forall|k: int|
                0 <= k < i ==> {
                    &&& (#[trigger] sizes@[k]).width == larger(
                        halved(key.width as int, k as nat),
                        1,
                    )
                    &&& sizes@[k].height == larger(halved(key.height as int, k as nat), 1)
                },
        decreases key.count - i,
    {
        sizes.push(
            LevelSize {
                width: if w < 1 {
                    1
                } else {
                    w
                },
                height: if h < 1 {
                    1
                } else {
                    h
                },
            },
        );
        w = w / 2;
        h = h / 2;
        i = i + 1;
    }
    sizes
}

/// One pass of the blur, from one target into another.
#[derive(Clone, Copy, Debug, PartialEq, Eq, Structural)]
pub struct Pass {
    pub source: usize,
    pub target: usize,
    /// Keep only what is bright enough to glow.
    pub bright: bool,
}

/// The passes down the chain. Only the first one extracts, and only for a bloom:
/// by the second rung the bright pixels have already been isolated.
pub open spec fn down_passes(count: int, bloom: bool) -> Seq<Pass> {
    Seq::new(
        (count - 1) as nat,
        |k: int|
            Pass { source: k as usize, target: (k + 1) as usize, bright: bloom && k == 0 },
    )
}

/// The passes back up, as far as the second target, which is the one the effect
/// is composited from.
pub open spec fn up_passes(count: int) -> Seq<Pass> {
    Seq::new(
        (count - 2) as nat,
        |k: int|
            Pass {
                source: (count - 1 - k) as usize,
                target: (count - 2 - k) as usize,
                bright: false,
            },
    )
}

/// The passes a chain of targets is blurred by, in order.
pub fn passes(job: &Job, count: usize) -> (r: Vec<Pass>)
    requires
        count >= 2,
    ensures
        r@ == down_passes(count as int, job is Bloom) + up_passes(count as int),
{
    let bloom: bool = match job {
        Job::Bloom(_) => true,
        Job::Glass(_) => false,
    };
    let mut passes: Vec<Pass> = Vec::new();
    let mut i: usize = 1;
    while i < count
        invariant
            1 <= i <= count,
            bloom == (job is Bloom),
            passes@ == down_passes(count as int, bloom).take(i - 1),
        decreases count - i,
    {
        passes.push(Pass { source: i - 1, target: i, bright: bloom && i == 1 });
        i = i + 1;
        assert(passes@ =~= down_passes(count as int, bloom).take(i - 1));
    }
    let ghost down = down_passes(count as int, bloom);
    assert(passes@ =~= down);
    let mut k: usize = count - 1;
    assert(passes@ =~= down + up_passes(count as int).take(0));
    while k >= 2
        invariant
            1 <= k < count,
            passes@ == down + up_passes(count as int).take(count - 1 - k),
        decreases k,
    {
        passes.push(Pass { source: k, target: k - 1, bright: false });
        k = k - 1;
        assert(passes@ =~= down + up_passes(count as int).take(count - 1 - k));
    }
    assert(up_passes(count as int).take(count - 2) =~= up_passes(count as int));
    passes
}

/// Every pass reads a target that was filled before it: the first one holds the
/// captured screen, and each other was written by the pass before. The last pass
/// leaves its result in the second target.
pub proof fn every_pass_reads_what_was_written(count: int, bloom: bool)
    requires
        2 <= count <= usize::MAX,
    ensures
        ({
            let all = down_passes(count, bloom) + up_passes(count);
            &&& all.len() == 2 * count - 3
            &&& all[0].source == 0
            &&& forall|i: int|
                0 < i < all.len() ==> (#[trigger] all[i]).source == all[i - 1].target
            &&& all.last().target == 1
        }),
{
    let down = down_passes(count, bloom);
    let up = up_passes(count);
    let all = down + up;
    assert forall|i: int| 0 < i < all.len() implies (#[trigger] all[i]).source == all[i
        - 1].target by {
        if i < down.len() {
            assert(all[i] == down[i] && all[i - 1] == down[i - 1]);
        } else if i == down.len() {
            assert(all[i] == up[0] && all[i - 1] == down[i - 1]);
        } else {
            let k = i - down.len();
            assert(all[i] == up[k] && all[i - 1] == up[k - 1]);
        }
    }
    if count == 2 {
        assert(all.last() == down[0]);
    } else {
        assert(all.last() == up[count - 3]);
    }
}

/// A chain of render targets that is kept for its size.
#[derive(Clone, Copy, Debug, PartialEq, Eq, Structural)]
pub struct ScratchChain {
    pub key: ChainKey,
    pub last_used: u64,
}

/// The chains that are kept, and a clock that counts their uses.
#[derive(Debug)]
pub struct ScratchCache {
    pub chains: Vec<ScratchChain>,
    pub use_counter: u64,
}

/// What came of looking a chain up.
#[derive(Clone, Copy, Debug, PartialEq, Eq, Structural)]
pub enum Lookup {
    /// It is kept, at this place.
    Hit(usize),
    /// It has to be made. The chain at this place, if any, has gone to make room:
    /// the last one has taken its place.
    Miss(Option<usize>),
}

/// A list with one item gone and the last one in its place.
pub open spec fn swap_removed(s: Seq<ScratchChain>, i: int) -> Seq<ScratchChain> {
    s.update(i, s.last()).drop_last()
}

impl ScratchCache {
    /// No more chains than there is room for, and no two for the same size.
    pub open spec fn well_formed(self) -> bool {
        &&& self.chains@.len() <= MAX_SCRATCH_CHAINS
        &&& forall|i: int, j: int|
            0 <= i < j < self.chains@.len() ==> (#[trigger] self.chains@[i]).key != (
            #[trigger] self.chains@[j]).key
    }

    pub open spec fn holds(self, key: ChainKey) -> bool {
        exists|i: int| 0 <= i < self.chains@.len() && (#[trigger] self.chains@[i]).key == key
    }

    /// The first of those that have gone unused the longest.
    pub open spec fn is_oldest(self, i: int) -> bool {
        &&& 0 <= i < self.chains@.len()
        &&& forall|k: int|
            0 <= k < self.chains@.len() ==> self.chains@[i].last_used <= (
            #[trigger] self.chains@[k]).last_used
        &&& forall|k: int|
            0 <= k < i ==> self.chains@[i].last_used < (#[trigger] self.chains@[k]).last_used
    }

    pub fn new() -> (r: ScratchCache)
        ensures
            r.well_formed(),
            r.chains@.len() == 0,
            r.use_counter == 0,
    {
        ScratchCache { chains: Vec::new(), use_counter: 0 }
    }

    fn oldest(&self) -> (r: usize)
        requires
            self.chains@.len() > 0,
        ensures
            self.is_oldest(r as int),
    {
        let mut best: usize = 0;
        let mut i: usize = 1;
        while i < self.chains.len()
            invariant
                best < i <= self.chains@.len(),
                forall|k: int|
                    0 <= k < i ==> self.chains@[best as int].last_used <= (
                    #[trigger] self.chains@[k]).last_used,
                forall|k: int|
                    0 <= k < best ==> self.chains@[best as int].last_used < (
                    #[trigger] self.chains@[k]).last_used,
            decreases self.chains.len() - i,
        {
            if self.chains[i].last_used < self.chains[best].last_used {
                best = i;
            }
            i = i + 1;
        }
        best
    }

    /// Look a chain up and mark it used. When there is none and no room either,
    /// the one that has gone unused the longest goes.
    pub fn scratch_chain(&mut self, key: ChainKey) -> (r: Lookup)
        requires
            old(self).well_formed(),
        ensures
            final(self).well_formed(),
            final(self).use_counter == old(self).use_counter.wrapping_add(1),
            match r {
                Lookup::Hit(i) => {
                    &&& i < old(self).chains@.len()
                    &&& old(self).chains@[i as int].key == key
                    &&& final(self).chains@ == old(self).chains@.update(
                        i as int,
                        ScratchChain { key, last_used: final(self).use_counter },
                    )
                },
                Lookup::Miss(None) => {
                    &&& !old(self).holds(key)
                    &&& old(self).chains@.len() < MAX_SCRATCH_CHAINS
                    &&& final(self).chains@ == old(self).chains@
                },
                Lookup::Miss(Some(i)) => {
                    &&& !old(self).holds(key)
                    &&& old(self).chains@.len() == MAX_SCRATCH_CHAINS
                    &&& old(self).is_oldest(i as int)
                    &&& final(self).chains@ == swap_removed(old(self).chains@, i as int)
                },
            },
            r is Miss ==> !final(self).holds(key) && final(self).chains@.len()
                < MAX_SCRATCH_CHAINS,
    {
        self.use_counter = self.use_counter.wrapping_add(1);
        let stamp: u64 = self.use_counter;
        let mut i: usize = 0;
        while i < self.chains.len()
            invariant
                i <= self.chains@.len(),
                self.chains@ == old(self).chains@,
                self.use_counter == stamp == old(self).use_counter.wrapping_add(1),
                old(self).well_formed(),
                forall|k: int| 0 <= k < i ==> (#[trigger] self.chains@[k]).key != key,
            decreases self.chains.len() - i,
        {
            if self.chains[i].key == key {
                self.chains[i] = ScratchChain { key, last_used: stamp };
                assert forall|a: int, b: int| 0 <= a < b < self.chains@.len() implies (
                #[trigger] self.chains@[a]).key != (#[trigger] self.chains@[b]).key by {
                    assert(old(self).chains@[a].key != old(self).chains@[b].key);
                }
                return Lookup::Hit(i);
            }
            i = i + 1;
        }
        assert(!old(self).holds(key));
        if self.chains.len() >= MAX_SCRATCH_CHAINS {
            let evict: usize = self.oldest();
            let ghost before = self.chains@;
            assert(old(self).is_oldest(evict as int));
            let _gone: ScratchChain = self.chains.swap_remove(evict);
            proof {
                assert(self.chains@ =~= swap_removed(before, evict as int));
                assert forall|a: int, b: int| 0 <= a < b < self.chains@.len() implies (
                #[trigger] self.chains@[a]).key != (#[trigger] self.chains@[b]).key by {
                    let last = before.len() - 1;
                    let x = if a == evict {
                        last
                    } else {
                        a
                    };
                    let y = if b == evict {
                        last
                    } else {
                        b
                    };
                    assert(self.chains@[a] == before[x] && self.chains@[b] == before[y]);
                    if x < y {
                        assert(before[x].key != before[y].key);
                    } else {
                        assert(before[y].key != before[x].key);
                    }
                }
                assert forall|k: int| 0 <= k < self.chains@.len() implies (
                #[trigger] self.chains@[k]).key != key by {
                    if k == evict {
                        assert(before[before.len() - 1].key != key);
                    } else {
                        assert(before[k].key != key);
                    }
                }
            }
            return Lookup::Miss(Some(evict));
        }
        Lookup::Miss(None)
    }

    /// Keep a chain that was just made, and return its place.
    pub fn keep(&mut self, key: ChainKey) -> (r: usize)
        requires
            old(self).well_formed(),
            !old(self).holds(key),
            old(self).chains@.len() < MAX_SCRATCH_CHAINS,
        ensures
            final(self).well_formed(),
            final(self).use_counter == old(self).use_counter,
            final(self).chains@ == old(self).chains@.push(
                ScratchChain { key, last_used: old(self).use_counter },
            ),
            r == old(self).chains@.len(),
    {
        self.chains.push(ScratchChain { key, last_used: self.use_counter });
        assert forall|a: int, b: int| 0 <= a < b < self.chains@.len() implies (
        #[trigger] self.chains@[a]).key != (#[trigger] self.chains@[b]).key by {
            if b < old(self).chains@.len() {
                assert(old(self).chains@[a].key != old(self).chains@[b].key);
            } else {
                assert(old(self).chains@[a].key != key);
            }
        }
        self.chains.len() - 1
    }
}

/// Whether the effects can run. Contexts are told apart by number: reopening the
/// editor makes a new one.
#[derive(Clone, Copy, Debug, PartialEq, Eq, Structural)]
pub enum FxState {
    Uninit,
    /// The shaders would not build, or stopped working, in this context.
    Failed(u64),
    Ready(u64),
}

/// What to do next about an effect.
#[derive(Clone, Copy, Debug, PartialEq, Eq, Structural)]
pub enum FxStep {
    /// Nothing: the flat paint underneath stays. The UI is repainted first where
    /// it was built on another footing.
    Flat { repaint: bool },
    /// Build the programs, and say how that went.
    Build,
    /// Run the effect, and say how that went.
    Run { repaint: bool },
}

/// Decides when the effects run.
#[derive(Clone, Copy, Debug)]
pub struct FxRenderer {
    pub state: FxState,
}

impl FxRenderer {
    pub fn new() -> (r: FxRenderer)
        ensures
            r.state == FxState::Uninit,
    {
        FxRenderer { state: FxState::Uninit }
    }

    /// Whether custom compositing is live. Until it is, callers keep their plain
    /// painted fallback underneath the controls.
    pub fn is_ready(&self, disabled: bool) -> (r: bool)
        ensures
            r == (!disabled && self.state is Ready),
    {
        !disabled && matches!(self.state, FxState::Ready(_))
    }

    /// What was built in another context is of no use in this one.
    pub open spec fn usable(self, context: u64) -> bool {
        match self.state {
            FxState::Ready(c) => c == context,
            FxState::Failed(c) => c == context,
            FxState::Uninit => false,
        }
    }

    /// Begin an effect in a context.
    pub fn start(&mut self, disabled: bool, context: u64) -> (r: FxStep)
        ensures
            r == (if disabled {
                FxStep::Flat { repaint: false }
            } else if !old(self).usable(context) {
                FxStep::Build
            } else if old(self).state is Ready {
                FxStep::Run { repaint: false }
            } else {
                FxStep::Flat { repaint: false }
            }),
            final(self).state == (if !disabled && !old(self).usable(context) {
                FxState::Uninit
            } else {
                old(self).state
            }),
    {
        if disabled {
            return FxStep::Flat { repaint: false };
        }
        match self.state {
            FxState::Ready(c) => {
                if c == context {
                    return FxStep::Run { repaint: false };
                }
            },
            FxState::Failed(c) => {
                if c == context {
                    return FxStep::Flat { repaint: false };
                }
            },
            FxState::Uninit => {},
        }
        self.state = FxState::Uninit;
        FxStep::Build
    }

    /// The programs were built, or would not build. Either way the UI was built
    /// on another footing.
    pub fn built(&mut self, context: u64, ok: bool) -> (r: FxStep)
        ensures
            final(self).state == (if ok {
                FxState::Ready(context)
            } else {
                FxState::Failed(context)
            }),
            r == (if ok {
                FxStep::Run { repaint: true }
            } else {
                FxStep::Flat { repaint: true }
            }),
    {
        if ok {
            self.state = FxState::Ready(context);
            FxStep::Run { repaint: true }
        } else {
            self.state = FxState::Failed(context);
            FxStep::Flat { repaint: true }
        }
    }

    /// The effect ran, or failed part of the way. A chain with a target missing
    /// cannot be sampled as a shorter one, so a failure ends the effects in this
    /// context.
    pub fn ran(&mut self, context: u64, ok: bool, repaint: bool) -> (r: bool)
        ensures
            final(self).state == (if ok {
                old(self).state
            } else {
                FxState::Failed(context)
            }),
            r == (repaint || !ok),
    {
        if !ok {
            self.state = FxState::Failed(context);
            return true;
        }
        repaint
    }
}

impl Job {
    /// A blur reaches three texels, and twice as far for each halving.
    pub proof fn a_halving_doubles_the_reach(halvings: nat)
        ensures
            Job::reach(0) == 3,
            Job::reach(halvings + 1) == 2 * Job::reach(halvings),
    {
    }

    /// The number of halvings is the one the effect was made with.
    pub proof fn an_effect_has_its_own_halvings(n: u32)
        ensures
            Job::Glass(n).halvings() == n,
            Job::Bloom(n).halvings() == n,
    {
    }
}

/// Only the first pass of a bloom keeps nothing but what is bright.
pub proof fn only_a_bloom_extracts(count: int, bloom: bool, i: int)
    requires
        2 <= count <= usize::MAX,
        0 <= i < (down_passes(count, bloom) + up_passes(count)).len(),
    ensures
        (down_passes(count, bloom) + up_passes(count))[i].bright <==> bloom && i == 0,
{
}

/// Each target of a chain is half the one before it, rounded down; and the larger
/// and the smaller of two numbers are one of them each.
pub proof fn a_target_is_half_the_one_before(x: int, n: nat, a: int, b: int)
    ensures
        halved(x, 0) == x,
        halved(x, n + 1) == halved(x, n) / 2,
        larger(a, b) >= a && larger(a, b) >= b && (larger(a, b) == a || larger(a, b) == b),
        smaller(a, b) <= a && smaller(a, b) <= b && (smaller(a, b) == a || smaller(a, b) == b),
{
}

/// A chain that goes leaves every other one in the list, one fewer than before.
pub proof fn only_the_one_that_goes_is_gone(s: Seq<ScratchChain>, i: int, k: int)
    requires
        0 <= i < s.len(),
        0 <= k < s.len(),
        k != i,
    ensures
        swap_removed(s, i).len() == s.len() - 1,
        swap_removed(s, i).contains(s[k]),
{
    let after = swap_removed(s, i);
    if k < s.len() - 1 {
        assert(after[k] == s[k]);
    } else {
        assert(after[i] == s[k]);
    }
}

impl FxRenderer {
    /// What was built, or would not build, counts in the context it was tried in and
    /// in no other.
    pub proof fn a_context_counts_for_itself(self, context: u64)
        ensures
            self.state == FxState::Ready(context) ==> self.usable(context),
            self.state == FxState::Failed(context) ==> self.usable(context),
            self.usable(context) ==> self.state == FxState::Ready(context) || self.state
                == FxState::Failed(context),
    {
    }
}

} // verus!
