//! A surface that slides in and out: the drawer from the side, a sheet from
//! below. It coasts by time, or follows the finger.
//!
//! How far it is out is counted in millionths, so that it is exact at both
//! ends. Times are milliseconds on the caller's clock, lengths thousandths of a
//! pixel.

use vstd::prelude::*;

verus! {

/// All the way out.
pub const FULL: u32 = 1_000_000;

/// How long a surface takes to coast open or shut.
pub const ANIM_MS: u64 = 220;

/// A release faster than this decides on its own, in thousandths of a pixel a
/// second.
pub const FLING: i64 = 200_000;

/// Closer to its target than this, a surface has arrived.
pub const NEAR: u32 = 1_000;

/// A finger that moved a surface by less than this did not move it.
pub const STILL: u32 = 500;

/// The length to go by where the real one is not known yet.
pub const ASSUMED_LENGTH: i64 = 300_000;

/// Where a surface stands, and where it is going.
#[derive(Debug, Clone, Copy, PartialEq, Eq, Structural)]
pub struct Slide {
    /// How far out it is.
    pub at: u32,
    /// Where it is going.
    pub target: u32,
    /// Where the current animation started; a reversal continues from what is
    /// on screen instead of jumping.
    pub from: u32,
    /// When the current animation started. `None` while the finger drives.
    pub start: Option<u64>,
    /// Whether the finger drives; time animation stays off.
    pub drag: bool,
    /// Where a drag started.
    pub drag_from: u32,
}

/// How advancing went.
#[derive(Debug, Clone, Copy, PartialEq, Eq, Structural)]
pub enum Advance {
    /// Still on its way.
    Moving,
    /// Arrived.
    Landed,
    /// Put at its target, having nowhere to come from.
    Jumped,
}

pub open spec fn distance(a: u32, b: u32) -> int {
    if a >= b {
        a - b
    } else {
        b - a
    }
}

/// How much of the animation has passed.
pub open spec fn progress(start: u64, now: u64) -> int {
    let elapsed = if now >= start {
        now - start
    } else {
        0
    };
    let t = elapsed * FULL / ANIM_MS as int;
    if t >= FULL {
        FULL as int
    } else {
        t
    }
}

/// Fast out, quiet in: one minus the cube of what is left.
pub open spec fn eased(t: int) -> int {
    FULL - (FULL - t) * (FULL - t) * (FULL - t) / (FULL * FULL)
}

/// Where an animation stands after `t`.
pub open spec fn between(from: u32, target: u32, t: int) -> int {
    if target >= from {
        from + (target - from) * eased(t) / FULL as int
    } else {
        from - (from - target) * eased(t) / FULL as int
    }
}

proof fn lemma_eased(t: int)
    requires
        0 <= t <= FULL,
    ensures
        0 <= eased(t) <= FULL,
        eased(FULL as int) == FULL,
        eased(0) == 0,
{
    let d = FULL - t;
    assert(0 <= d * d * d <= FULL * FULL * FULL) by (nonlinear_arith)
        requires
            0 <= d <= FULL,
    ;
    assert(FULL * FULL == 1_000_000_000_000) by (nonlinear_arith);
    assert(FULL * FULL * FULL == 1_000_000_000_000_000_000) by (nonlinear_arith);
    assert(0int * 0int * 0int == 0);
    assert((FULL - 0) * (FULL - 0) * (FULL - 0) == FULL * FULL * FULL) by (nonlinear_arith);
}

proof fn lemma_share(d: int, e: int)
    requires
        0 <= d <= FULL,
        0 <= e <= FULL,
    ensures
        0 <= d * e <= FULL * FULL,
        0 <= d * e / FULL as int <= d,
        e == FULL ==> d * e / FULL as int == d,
        e == 0 ==> d * e / FULL as int == 0,
{
    assert(0 <= d * e <= d * FULL) by (nonlinear_arith)
        requires
            0 <= d,
            0 <= e <= FULL,
    ;
    assert(d * FULL <= FULL * FULL) by (nonlinear_arith)
        requires
            d <= FULL,
    ;
    assert(d * e / FULL as int <= d * FULL / FULL as int) by (nonlinear_arith)
        requires
            d * e <= d * FULL,
    ;
    assert(d * FULL / FULL as int == d) by (nonlinear_arith);
    assert(e == 0 ==> d * e == 0) by (nonlinear_arith);
    assert(0 <= d * e / FULL as int) by (nonlinear_arith)
        requires
            0 <= d * e,
    ;
}

/// A coasting surface stays between where it came from and where it goes: it
/// starts at the one, and ends at the other.
pub proof fn coasting_stays_between(from: u32, target: u32, t: int)
    requires
        from <= FULL,
        target <= FULL,
        0 <= t <= FULL,
    ensures
        from <= target ==> from <= between(from, target, t) <= target,
        target <= from ==> target <= between(from, target, t) <= from,
        between(from, target, 0) == from,
        between(from, target, FULL as int) == target,
{
    lemma_eased(t);
    lemma_eased(0);
    lemma_eased(FULL as int);
    if target >= from {
        lemma_share(target - from, eased(t));
        lemma_share(target - from, 0);
        lemma_share(target - from, FULL as int);
    } else {
        lemma_share(from - target, eased(t));
        lemma_share(from - target, 0);
        lemma_share(from - target, FULL as int);
    }
}

/// An animation is over once its time has passed.
pub proof fn coasting_ends(start: u64, now: u64)
    requires
        now >= start + ANIM_MS,
    ensures
        progress(start, now) == FULL,
{
    let e = now - start;
    assert(e * FULL >= ANIM_MS * FULL) by (nonlinear_arith)
        requires
            e >= ANIM_MS,
    ;
    assert(e * FULL / ANIM_MS as int >= FULL) by (nonlinear_arith)
        requires
            e * FULL >= ANIM_MS * FULL,
            ANIM_MS == 220,
    ;
}

impl Slide {
    /// Within the two ends.
    pub open spec fn valid(self) -> bool {
        self.at <= FULL && self.target <= FULL && self.from <= FULL && self.drag_from <= FULL
    }

    /// Out, and not going anywhere.
    pub open spec fn resting() -> Slide {
        Slide {
            at: FULL,
            target: FULL,
            from: FULL,
            start: None,
            drag: false,
            drag_from: 0,
        }
    }

    /// Starting to open from shut.
    pub open spec fn opening(self, now: u64) -> Slide {
        Slide { at: 0, target: FULL, from: 0, start: Some(now), drag: false, ..self }
    }

    /// On the way to `target` from where it stands.
    pub open spec fn heading(self, target: u32, now: u64) -> Slide {
        Slide { target, from: self.at, start: Some(now), drag: false, ..self }
    }

    /// How advancing goes.
    pub open spec fn advancing(self, now: u64) -> Advance {
        if distance(self.at, self.target) < NEAR {
            Advance::Landed
        } else {
            match self.start {
                None => Advance::Jumped,
                Some(start) => if progress(start, now) == FULL {
                    Advance::Landed
                } else {
                    Advance::Moving
                },
            }
        }
    }

    /// Where it stands after advancing.
    pub open spec fn advanced(self, now: u64) -> Slide {
        if self.advancing(now) is Moving {
            Slide { at: between(self.from, self.target, progress(self.start->0, now)) as u32, ..self }
        } else {
            Slide { at: self.target, ..self }
        }
    }

    pub fn new() -> (r: Slide)
        ensures
            r == Slide::resting(),
            r.valid(),
    {
        Slide {
            at: FULL,
            target: FULL,
            from: FULL,
            start: None,
            drag: false,
            drag_from: 0,
        }
    }

    pub fn open(&mut self, now: u64)
        ensures
            *final(self) == old(self).opening(now),
            old(self).valid() ==> final(self).valid(),
    {
        self.at = 0;
        self.target = FULL;
        self.from = 0;
        self.start = Some(now);
        self.drag = false;
    }

    pub fn head(&mut self, target: u32, now: u64)
        ensures
            *final(self) == old(self).heading(target, now),
            old(self).valid() && target <= FULL ==> final(self).valid(),
    {
        self.target = target;
        self.from = self.at;
        self.start = Some(now);
        self.drag = false;
    }

    /// Advances towards the target.
    pub fn advance(&mut self, now: u64) -> (r: Advance)
        requires
            old(self).valid(),
        ensures
            *final(self) == old(self).advanced(now),
            r == old(self).advancing(now),
            final(self).valid(),
    {
        let gap = if self.at >= self.target {
            self.at - self.target
        } else {
            self.target - self.at
        };
        if gap < NEAR {
            self.at = self.target;
            return Advance::Landed;
        }
        let start = match self.start {
            Some(s) => s,
            None => {
                self.at = self.target;
                return Advance::Jumped;
            },
        };
        let elapsed: u64 = if now >= start {
            now - start
        } else {
            0
        };
        if elapsed >= ANIM_MS {
            proof {
                coasting_ends(start, now);
            }
            self.at = self.target;
            return Advance::Landed;
        }
        assert(elapsed * FULL < ANIM_MS * FULL) by (nonlinear_arith)
            requires
                elapsed < ANIM_MS,
        ;
        let t: u64 = elapsed * (FULL as u64) / ANIM_MS;
        assert(t < FULL) by (nonlinear_arith)
            requires
                t == elapsed * FULL / ANIM_MS as int,
                elapsed * FULL < ANIM_MS * FULL,
                ANIM_MS == 220,
        ;
        proof {
            lemma_eased(t as int);
            coasting_stays_between(self.from, self.target, t as int);
        }
        let left: u64 = FULL as u64 - t;
        assert(left * left <= FULL * FULL && left * left * left <= FULL * FULL * FULL)
            by (nonlinear_arith)
            requires
                left <= FULL,
        ;
        assert(FULL * FULL * FULL == 1_000_000_000_000_000_000) by (nonlinear_arith);
        assert(FULL * FULL == 1_000_000_000_000) by (nonlinear_arith);
        let e: u64 = FULL as u64 - left * left * left / 1_000_000_000_000;
        if self.target >= self.from {
            proof {
                lemma_share(self.target - self.from, e as int);
            }
            let d: u64 = (self.target - self.from) as u64;
            self.at = self.from + (d * e / FULL as u64) as u32;
        } else {
            proof {
                lemma_share(self.from - self.target, e as int);
            }
            let d: u64 = (self.from - self.target) as u64;
            self.at = self.from - (d * e / FULL as u64) as u32;
        }
        Advance::Moving
    }

    // ── the finger ─────────────────────────────────────────────────────────

    /// Held by the finger where it stands.
    pub open spec fn held(self) -> Slide {
        Slide { drag: true, drag_from: self.at, start: None, ..self }
    }

    pub fn hold(&mut self)
        ensures
            *final(self) == old(self).held(),
            old(self).valid() ==> final(self).valid(),
    {
        self.drag = true;
        self.drag_from = self.at;
        self.start = None;
    }

    /// Where a drag by `by` over a surface of `length` leads to, kept within
    /// the two ends.
    pub open spec fn dragged_to(self, by: i64, length: i64) -> u32 {
        let l = if length > 0 {
            length
        } else {
            ASSUMED_LENGTH
        };
        let to = self.drag_from + by * FULL / l as int;
        if to <= 0 {
            0
        } else if to >= FULL {
            FULL
        } else {
            to as u32
        }
    }

    /// Whether a drag by `by` moves a held surface.
    pub open spec fn moves(self, by: i64, length: i64) -> bool {
        distance(self.dragged_to(by, length), self.at) >= STILL
    }

    pub open spec fn followed(self, by: i64, length: i64) -> Slide {
        Slide { at: self.dragged_to(by, length), ..self }
    }

    /// Follows the finger, `by` towards open since it was held. Says whether it
    /// moved.
    pub fn follow(&mut self, by: i64, length: i64) -> (r: bool)
        requires
            old(self).valid(),
        ensures
            r == (old(self).drag && old(self).moves(by, length)),
            *final(self) == (if r {
                old(self).followed(by, length)
            } else {
                *old(self)
            }),
            final(self).valid(),
    {
        if !self.drag {
            return false;
        }
        let l: i64 = if length > 0 {
            length
        } else {
            ASSUMED_LENGTH
        };
        assert(-0x8000_0000_0000_0000 * 1_000_000 <= by * FULL <= 0x8000_0000_0000_0000
            * 1_000_000) by (nonlinear_arith)
            requires
                -0x8000_0000_0000_0000 <= by <= 0x8000_0000_0000_0000,
                FULL == 1_000_000,
        ;
        let scaled: i128 = by as i128 * FULL as i128;
        let share: i128 = if scaled >= 0 {
            scaled / l as i128
        } else {
            // Rounded down.
            -((l as i128 - 1 - scaled) / l as i128)
        };
        proof {
            lemma_floor(scaled as int, l as int, share as int);
            assert(share as int == by * FULL / l as int);
            lemma_quotient_bound(scaled as int, l as int);
        }
        let to: i128 = self.drag_from as i128 + share;
        let next: u32 = if to <= 0 {
            0
        } else if to >= FULL as i128 {
            FULL
        } else {
            to as u32
        };
        let gap = if next >= self.at {
            next - self.at
        } else {
            self.at - next
        };
        if gap < STILL {
            return false;
        }
        self.at = next;
        true
    }
}

proof fn lemma_floor(x: int, d: int, q: int)
    requires
        d > 0,
        x >= 0 ==> q == x / d,
        x < 0 ==> q == -((d - 1 - x) / d),
    ensures
        q == x / d,
{
    if x < 0 {
        let n = d - 1 - x;
        vstd::arithmetic::div_mod::lemma_fundamental_div_mod(n, d);
        let r = d - 1 - n % d;
        assert(x == d * q + r) by (nonlinear_arith)
            requires
                n == d * (n / d) + n % d,
                n == d - 1 - x,
                q == -(n / d),
                r == d - 1 - n % d,
        ;
        assert(0 <= n % d < d);
        vstd::arithmetic::div_mod::lemma_fundamental_div_mod_converse(x, d, q, r);
    }
}

proof fn lemma_quotient_bound(x: int, d: int)
    requires
        d >= 1,
    ensures
        x >= 0 ==> 0 <= x / d <= x,
        x < 0 ==> x <= x / d < 0 || x <= x / d <= 0,
{
    vstd::arithmetic::div_mod::lemma_fundamental_div_mod(x, d);
    let q = x / d;
    assert(x >= 0 ==> 0 <= q <= x) by (nonlinear_arith)
        requires
            d >= 1,
            x == d * q + x % d,
            0 <= x % d < d,
    ;
    assert(x < 0 ==> x <= q <= 0) by (nonlinear_arith)
        requires
            d >= 1,
            x == d * q + x % d,
            0 <= x % d < d,
    ;
}

/// A drag moves a surface by its share of the length, from where it was held,
/// and not past either end.
pub proof fn drags_move_by_their_share(s: Slide, by: i64, length: i64)
    requires
        length > 0,
        s.valid(),
    ensures
        ({
            let to = s.dragged_to(by, length);
            let want = s.drag_from + by * 1_000_000 / length as int;
            &&& 0 <= want <= 1_000_000 ==> to == want
            &&& want < 0 ==> to == 0
            &&& want > 1_000_000 ==> to == 1_000_000
        }),
        s.held().drag,
        s.held().drag_from == s.at,
        s.held().at == s.at,
        s.followed(by, length).at == s.dragged_to(by, length),
        s.followed(by, length).drag_from == s.drag_from,
{
}

/// Coasting takes 220 milliseconds, begins where the surface stands, and ends at
/// its target: it is under way before that, and has landed from then on.
pub proof fn coasting_takes_its_time(s: Slide, target: u32, now: u64, later: u64)
    requires
        s.valid(),
        target <= 1_000_000,
        now <= later,
        distance(s.at, target) >= 1_000,
    ensures
        s.heading(target, now).from == s.at,
        s.heading(target, now).target == target,
        s.heading(target, now).at == s.at,
        !s.heading(target, now).drag,
        later >= now + 220 ==> s.heading(target, now).advancing(later) is Landed && s.heading(
            target,
            now,
        ).advanced(later).at == target,
        later < now + 220 ==> s.heading(target, now).advancing(later) is Moving,
{
    if later >= now + 220 {
        coasting_ends(now, later);
    } else {
        let e = later - now;
        assert(e * FULL / (ANIM_MS as int) < FULL) by (nonlinear_arith)
            requires
                0 <= e < 220,
                ANIM_MS == 220,
                FULL == 1_000_000,
        ;
    }
}

} // verus!
