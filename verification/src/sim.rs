//! The frame-by-frame simulation: a fixed field of orbiters, a generator
//! for the periodic random resets, and the reset-cycle counter that
//! decides, frame by frame, between an update pass and a reset.

use crate::field::{
    in_bounds, lemma_nudge_sum_bound, stepped, stepped_orbiter, update, xs, ys, Orbiter, Point,
    COORD_LIMIT, SCALE, SPEED_INCREMENT,
};
use crate::rng::{pcg_32_bound, PcgRng, PCG_SEED_MULTIPLIER};
use vstd::arithmetic::div_mod::{
    lemma_add_mod_noop, lemma_mod_multiples_basic, lemma_mod_self_0, lemma_small_mod,
};
use vstd::prelude::*;

verus! {

/// Window width in pixels.
pub const WINDOW_WIDTH: u32 = 768;

/// Window height in pixels.
pub const WINDOW_HEIGHT: u32 = 768;

/// Number of orbiters in the field.
pub const SIZE: usize = 32;

/// Frames per second the frame loop aims at.
pub const FPS: u32 = 60;

/// A reset is triggered once the reset counter reaches this many frames.
pub const RELOAD_FRAME_INTERVAL: u32 = FPS * 10;

/// The window dimension in fixed-point units (width and height agree).
pub open spec fn window_span() -> int {
    (WINDOW_WIDTH as int) * (SCALE as int)
}

/// The largest total nudge one update pass can give one velocity
/// component of the fixed-size field.
pub open spec fn nudge_cap() -> int {
    (SIZE as int) * (SPEED_INCREMENT as int)
}

/// Velocity bound after `c` frames without a reset.
pub open spec fn speed_bound(c: int) -> int {
    c * nudge_cap()
}

/// Position bound after `c` frames without a reset.
pub open spec fn pos_bound(c: int) -> int {
    window_span() + c * c * nudge_cap()
}

/// The coordinates of one orbiter stay within the bounds that `c`
/// frames of updates since the last reset allow.
pub open spec fn orbiter_bounded(o: Orbiter, c: int) -> bool {
    &&& -speed_bound(c) <= o.speed.x <= speed_bound(c)
    &&& -speed_bound(c) <= o.speed.y <= speed_bound(c)
    &&& -pos_bound(c) <= o.pos.x <= pos_bound(c)
    &&& -pos_bound(c) <= o.pos.y <= pos_bound(c)
}

/// An orbiter as a reset leaves it: velocity exactly zero on both axes
/// and a whole-pixel position inside the window on both axes.
pub open spec fn reset_orbiter(o: Orbiter) -> bool {
    &&& o.speed.x == 0
    &&& o.speed.y == 0
    &&& 0 <= o.pos.x < window_span()
    &&& (o.pos.x as int) % (SCALE as int) == 0
    &&& 0 <= o.pos.y < window_span()
    &&& (o.pos.y as int) % (SCALE as int) == 0
}

/// A whole field as a reset leaves it.
pub open spec fn freshly_reset(s: Seq<Orbiter>) -> bool {
    forall|k: int| 0 <= k < s.len() ==> reset_orbiter(#[trigger] s[k])
}

/// Reinitializes every orbiter: position drawn uniformly over the window
/// on each axis, on the whole-pixel grid, and velocity set to zero.
pub fn reset(orbiters: &mut Vec<Orbiter>, rng: &mut PcgRng)
    ensures
        final(orbiters)@.len() == old(orbiters)@.len(),
        freshly_reset(final(orbiters)@),
        final(rng).increment == old(rng).increment,
{
    let ghost inc0 = rng.increment;
    let n: usize = orbiters.len();
    let mut k: usize = 0;
    while k < n
        invariant
            orbiters@.len() == n,
            k <= n,
            rng.increment == inc0,
            forall|t: int| 0 <= t < k ==> reset_orbiter(#[trigger] orbiters@[t]),
        decreases n - k,
    {
        let x: u32 = pcg_32_bound(rng, WINDOW_WIDTH);
        let y: u32 = pcg_32_bound(rng, WINDOW_HEIGHT);
        let o: Orbiter = Orbiter {
            pos: Point { x: (x as i64) * SCALE, y: (y as i64) * SCALE },
            speed: Point { x: 0, y: 0 },
        };
        proof {
            lemma_mod_multiples_basic(x as int, SCALE as int);
            lemma_mod_multiples_basic(y as int, SCALE as int);
        }
        orbiters[k] = o;
        k = k + 1;
    }
}

/// The whole simulation: the field, the generator that refills it, and
/// the count of frames since the last reset.
pub struct Simulation {
    pub orbiters: Vec<Orbiter>,
    pub rng: PcgRng,
    pub reset_counter: u32,
}

impl Simulation {
    /// The state invariant: a full field, a counter inside its cycle, and
    /// every coordinate within the bounds its age since the last reset
    /// allows — which keeps every update step inside the machine range.
    pub open spec fn wf(self) -> bool {
        &&& self.orbiters@.len() == SIZE
        &&& self.reset_counter <= RELOAD_FRAME_INTERVAL
        &&& forall|k: int|
            0 <= k < SIZE ==> orbiter_bounded(
                #[trigger] self.orbiters@[k],
                self.reset_counter as int,
            )
    }

    /// Whether the next frame will reset the field instead of updating it.
    pub open spec fn will_reset(self) -> bool {
        self.reset_counter >= RELOAD_FRAME_INTERVAL
    }

    /// A fresh simulation: a full field of orbiters at the origin with
    /// zero velocity, a seeded generator, and the counter set so that the
    /// first frame resets the field.
    pub fn new(seed: u64) -> (s: Simulation)
        ensures
            s.wf(),
            s.will_reset(),
            s.reset_counter == RELOAD_FRAME_INTERVAL,
            s.orbiters@.len() == SIZE,
            forall|k: int|
                0 <= k < SIZE ==> (#[trigger] s.orbiters@[k]) == (Orbiter {
                    pos: Point { x: 0, y: 0 },
                    speed: Point { x: 0, y: 0 },
                }),
            s.rng.state == vstd::wrapping::u64_specs::wrapping_mul(seed, PCG_SEED_MULTIPLIER),
            s.rng.increment == s.rng.state,
    {
        let mut orbiters: Vec<Orbiter> = Vec::new();
        let mut k: usize = 0;
        while k < SIZE
            invariant
                k <= SIZE,
                orbiters@.len() == k,
                forall|t: int|
                    0 <= t < k ==> (#[trigger] orbiters@[t]) == (Orbiter {
                        pos: Point { x: 0, y: 0 },
                        speed: Point { x: 0, y: 0 },
                    }),
            decreases SIZE - k,
        {
            orbiters.push(Orbiter { pos: Point { x: 0, y: 0 }, speed: Point { x: 0, y: 0 } });
            k = k + 1;
        }
        Simulation { orbiters, rng: PcgRng::new(seed), reset_counter: RELOAD_FRAME_INTERVAL }
    }

    /// One frame: when the counter has reached the reload interval the
    /// field is reset and the counter cleared; otherwise the field takes
    /// one update pass and the counter grows by one.
    pub fn frame(&mut self)
        requires
            old(self).wf(),
        ensures
            final(self).wf(),
            final(self).rng.increment == old(self).rng.increment,
            old(self).will_reset() ==> final(self).reset_counter == 0,
            old(self).will_reset() ==> freshly_reset(final(self).orbiters@),
            !old(self).will_reset() ==> final(self).reset_counter == old(self).reset_counter + 1,
            !old(self).will_reset() ==> final(self).orbiters@ == stepped(old(self).orbiters@),
    {
        if self.reset_counter >= RELOAD_FRAME_INTERVAL {
            reset(&mut self.orbiters, &mut self.rng);
            self.reset_counter = 0;
            proof {
                assert forall|k: int| 0 <= k < SIZE implies orbiter_bounded(
                    #[trigger] self.orbiters@[k],
                    0int,
                ) by {
                    assert(reset_orbiter(self.orbiters@[k]));
                }
            }
        } else {
            let ghost s0 = self.orbiters@;
            let ghost c = self.reset_counter as int;
            proof {
                assert forall|k: int|
                    0 <= k < s0.len() implies -COORD_LIMIT <= (#[trigger] s0[k]).pos.x
                    <= COORD_LIMIT && -COORD_LIMIT <= s0[k].pos.y <= COORD_LIMIT && -COORD_LIMIT
                    <= s0[k].speed.x <= COORD_LIMIT && -COORD_LIMIT <= s0[k].speed.y
                    <= COORD_LIMIT by {
                    assert(orbiter_bounded(s0[k], c));
                    assert(c * c <= 360000) by (nonlinear_arith)
                        requires
                            0 <= c < 600,
                    ;
                    assert(speed_bound(c) <= 1248000);
                    assert(pos_bound(c) <= 756480000);
                }
                assert(in_bounds(s0));
            }
            update(&mut self.orbiters);
            self.reset_counter = self.reset_counter + 1;
            proof {
                assert forall|k: int| 0 <= k < SIZE implies orbiter_bounded(
                    #[trigger] self.orbiters@[k],
                    c + 1,
                ) by {
                    lemma_nudge_sum_bound(xs(s0), k, SIZE as int);
                    lemma_nudge_sum_bound(ys(s0), k, SIZE as int);
                    assert(orbiter_bounded(s0[k], c));
                    assert(c * c <= 360000) by (nonlinear_arith)
                        requires
                            0 <= c < 600,
                    ;
                    assert((c + 1) * (c + 1) <= 360000) by (nonlinear_arith)
                        requires
                            0 <= c < 600,
                    ;
                    assert(c * c * 2080 + (c + 1) * 2080 <= (c + 1) * (c + 1) * 2080)
                        by (nonlinear_arith)
                        requires
                            0 <= c,
                    ;
                    let b: int = nudge_cap();
                    assert(b == 2080);
                    assert(c * b == c * 2080 && (c + 1) * b == (c + 1) * 2080 && c * c * b == c
                        * c * 2080 && (c + 1) * (c + 1) * b == (c + 1) * (c + 1) * 2080)
                        by (nonlinear_arith)
                        requires
                            b == 2080,
                    ;
                    assert(self.orbiters@[k] == stepped_orbiter(s0, k));
                }
                assert(self.orbiters@ =~= stepped(s0));
            }
        }
    }
}

/// The reset counter before frame `n` of a run that began with the
/// counter at `c`: each frame either clears a counter that reached the
/// reload interval or grows it by one, exactly as `Simulation::frame`
/// does.
pub open spec fn counter_model(c: u32, n: nat) -> u32
    decreases n,
{
    if n == 0 {
        c
    } else if counter_model(c, (n - 1) as nat) >= RELOAD_FRAME_INTERVAL {
        0u32
    } else {
        (counter_model(c, (n - 1) as nat) + 1) as u32
    }
}

/// Whether frame `n` of such a run resets the field.
pub open spec fn resets_at(c: u32, n: nat) -> bool {
    counter_model(c, n) >= RELOAD_FRAME_INTERVAL
}

/// Starting from a freshly cleared counter, the counter before frame `n`
/// is `n` modulo one more than the reload interval: a reset comes
/// precisely once every RELOAD_FRAME_INTERVAL + 1 frames — at the last
/// frame of each cycle — and never in between.
pub proof fn lemma_reset_period(n: nat)
    ensures
        counter_model(0, n) == n % ((RELOAD_FRAME_INTERVAL + 1) as nat),
        resets_at(0, n) <==> n % ((RELOAD_FRAME_INTERVAL + 1) as nat) == (
        RELOAD_FRAME_INTERVAL as nat),
    decreases n,
{
    let t: nat = (RELOAD_FRAME_INTERVAL + 1) as nat;
    if n == 0 {
        lemma_small_mod(0, t);
    } else {
        let m: nat = (n - 1) as nat;
        lemma_reset_period(m);
        let r: nat = m % t;
        lemma_add_mod_noop(m as int, 1int, t as int);
        lemma_small_mod(1, t);
        if r == RELOAD_FRAME_INTERVAL as nat {
            lemma_mod_self_0(t as int);
        } else {
            lemma_small_mod(r + 1, t);
        }
    }
}

} // verus!
