//! Orbiters: points with a position and a velocity in exact fixed-point
//! coordinates, the O(n^2) pairwise velocity-update pass, and the small
//! geometry helpers behind the drawn trail segments.

use vstd::prelude::*;

verus! {

/// Fixed-point units per pixel.
pub const SCALE: i64 = 10_000;

/// Per-comparison speed increment: 0.0065 pixels in fixed-point units.
pub const SPEED_INCREMENT: i64 = 65;

/// Most orbiters an update pass accepts; keeps the accumulated nudges
/// far inside the machine range.
pub const MAX_ORBITERS: usize = 65_536;

/// Largest coordinate magnitude the update pass accepts: 2^61, so that
/// one integration step cannot leave the machine range.
pub const COORD_LIMIT: i64 = 0x2000_0000_0000_0000;

/// Trail length: the drawn segment trails an orbiter by its velocity
/// scaled by this factor.
pub const TRAIL: i64 = 10;

/// Largest velocity magnitude the trail helper accepts: 2^56, so that
/// scaling by the trail length stays in the machine range.
pub const TRAIL_SPEED_LIMIT: i64 = 0x0100_0000_0000_0000;

/// Padding, in pixels, around the box drawn for the tracked orbiter.
pub const RECT_PAD: i64 = 12;

/// A 2-D vector in fixed-point units.
#[derive(Clone, Copy, PartialEq, Eq, Structural, Debug)]
pub struct Point {
    pub x: i64,
    pub y: i64,
}

/// A simulated point: position plus velocity.
#[derive(Clone, Copy, PartialEq, Eq, Structural, Debug)]
pub struct Orbiter {
    pub pos: Point,
    pub speed: Point,
}

/// The x coordinates of a field, in order.
pub open spec fn xs(s: Seq<Orbiter>) -> Seq<i64> {
    Seq::new(s.len(), |k: int| s[k].pos.x)
}

/// The y coordinates of a field, in order.
pub open spec fn ys(s: Seq<Orbiter>) -> Seq<i64> {
    Seq::new(s.len(), |k: int| s[k].pos.y)
}

/// What one comparison contributes to the velocity of the orbiter whose
/// coordinate is `a`, compared against `b`: the strictly smaller
/// coordinate loses one increment, the strictly larger gains one, and a
/// tie changes nothing.
pub open spec fn nudge(a: i64, b: i64) -> int {
    if a < b {
        -(SPEED_INCREMENT as int)
    } else if b < a {
        SPEED_INCREMENT as int
    } else {
        0
    }
}

/// The nudges that the first `n` coordinates of `c` give the one at `i`,
/// summed.
pub open spec fn nudge_sum_upto(c: Seq<i64>, i: int, n: int) -> int
    decreases n,
{
    if n <= 0 {
        0
    } else {
        nudge_sum_upto(c, i, n - 1) + nudge(c[i], c[n - 1])
    }
}

/// The velocity change of the orbiter at `i` on one axis: one nudge per
/// orbiter of the field, the self-comparison contributing nothing.
pub open spec fn nudge_sum(c: Seq<i64>, i: int) -> int {
    nudge_sum_upto(c, i, c.len() as int)
}

/// All coordinates of the field stand within the machine limit.
pub open spec fn in_bounds(s: Seq<Orbiter>) -> bool {
    forall|k: int|
        0 <= k < s.len() ==> -COORD_LIMIT <= #[trigger] s[k].pos.x <= COORD_LIMIT
            && -COORD_LIMIT <= s[k].pos.y <= COORD_LIMIT && -COORD_LIMIT <= s[k].speed.x
            <= COORD_LIMIT && -COORD_LIMIT <= s[k].speed.y <= COORD_LIMIT
}

/// The orbiter at `k` after one update step of the field `s`: its
/// velocity moved by the summed nudges of every comparison, then its
/// position moved by the new velocity.
pub open spec fn stepped_orbiter(s: Seq<Orbiter>, k: int) -> Orbiter {
    let vx: int = s[k].speed.x + nudge_sum(xs(s), k);
    let vy: int = s[k].speed.y + nudge_sum(ys(s), k);
    Orbiter {
        pos: Point { x: (s[k].pos.x + vx) as i64, y: (s[k].pos.y + vy) as i64 },
        speed: Point { x: vx as i64, y: vy as i64 },
    }
}

/// The whole field after one update step.
pub open spec fn stepped(s: Seq<Orbiter>) -> Seq<Orbiter> {
    Seq::new(s.len(), |k: int| stepped_orbiter(s, k))
}

/// The summed nudges of `n` comparisons stay within `n` increments.
pub proof fn lemma_nudge_sum_bound(c: Seq<i64>, i: int, n: int)
    requires
        0 <= n,
    ensures
        -(n * SPEED_INCREMENT) <= nudge_sum_upto(c, i, n) <= n * SPEED_INCREMENT,
    decreases n,
{
    if n > 0 {
        lemma_nudge_sum_bound(c, i, n - 1);
    }
}

/// Replacing the coordinate at `j` changes the nudges collected by the
/// orbiter at a different index `i` by exactly that one pair's nudge.
proof fn lemma_nudge_sum_upto_update(c: Seq<i64>, i: int, j: int, w: i64, n: int)
    requires
        0 <= i < c.len(),
        0 <= j < c.len(),
        i != j,
        0 <= n <= c.len(),
    ensures
        nudge_sum_upto(c.update(j, w), i, n) == nudge_sum_upto(c, i, n) + (if j < n {
            nudge(c[i], w) - nudge(c[i], c[j])
        } else {
            0
        }),
    decreases n,
{
    if n > 0 {
        lemma_nudge_sum_upto_update(c, i, j, w, n - 1);
    }
}

/// For every pair (i, j) of distinct orbiters, one update pass moves the
/// velocity of the strictly smaller coordinate down by exactly one
/// increment and the strictly larger one up by exactly one increment,
/// compared with the same field in which that single comparison is
/// neutralized (the other coordinate replaced by the orbiter's own, so
/// the pair ties); a tied pair moves neither velocity.
pub proof fn lemma_pairwise_increment(c: Seq<i64>, i: int, j: int)
    requires
        0 <= i < c.len(),
        0 <= j < c.len(),
        i != j,
    ensures
        c[i] < c[j] ==> nudge_sum(c, i) == nudge_sum(c.update(j, c[i]), i) - SPEED_INCREMENT,
        c[i] < c[j] ==> nudge_sum(c, j) == nudge_sum(c.update(i, c[j]), j) + SPEED_INCREMENT,
        c[i] == c[j] ==> nudge_sum(c, i) == nudge_sum(c.update(j, c[i]), i) && nudge_sum(c, j)
            == nudge_sum(c.update(i, c[j]), j),
{
    lemma_nudge_sum_upto_update(c, i, j, c[i], c.len() as int);
    lemma_nudge_sum_upto_update(c, j, i, c[j], c.len() as int);
}

/// Position integration is exact: after one update step every orbiter's
/// position is its old position plus its freshly updated velocity,
/// componentwise, and that velocity is the old one plus the summed
/// nudges of the pass.
pub proof fn lemma_integration_exact(s: Seq<Orbiter>, k: int)
    requires
        0 <= k < s.len(),
        s.len() <= MAX_ORBITERS,
        in_bounds(s),
    ensures
        stepped(s)[k].pos.x == s[k].pos.x + stepped(s)[k].speed.x,
        stepped(s)[k].pos.y == s[k].pos.y + stepped(s)[k].speed.y,
        stepped(s)[k].speed.x == s[k].speed.x + nudge_sum(xs(s), k),
        stepped(s)[k].speed.y == s[k].speed.y + nudge_sum(ys(s), k),
{
    lemma_nudge_sum_bound(xs(s), k, s.len() as int);
    lemma_nudge_sum_bound(ys(s), k, s.len() as int);
}

/// One update pass: every unordered pair of orbiters, the self-pairs
/// included, is compared once per axis; the strictly smaller coordinate
/// loses one speed increment on that axis and the strictly larger gains
/// one; then every position moves by its new velocity.
pub fn update(orbiters: &mut Vec<Orbiter>)
    requires
        old(orbiters)@.len() <= MAX_ORBITERS,
        in_bounds(old(orbiters)@),
    ensures
        final(orbiters)@.len() == old(orbiters)@.len(),
        forall|k: int|
            0 <= k < old(orbiters)@.len() ==> final(orbiters)@[k] == stepped_orbiter(
                old(orbiters)@,
                k,
            ),
{
    let ghost s0 = orbiters@;
    let n: usize = orbiters.len();
    let mut dvx: Vec<i64> = Vec::new();
    let mut dvy: Vec<i64> = Vec::new();
    let mut i: usize = 0;
    while i < n
        invariant
            n == s0.len(),
            orbiters@ == s0,
            n <= MAX_ORBITERS,
            in_bounds(s0),
            i <= n,
            dvx@.len() == i,
            dvy@.len() == i,
            forall|t: int|
                0 <= t < i ==> dvx@[t] == nudge_sum(xs(s0), t) && dvy@[t] == nudge_sum(ys(s0), t),
        decreases n - i,
    {
        let mut acc_x: i64 = 0;
        let mut acc_y: i64 = 0;
        let mut j: usize = 0;
        while j < n
            invariant
                n == s0.len(),
                orbiters@ == s0,
                n <= MAX_ORBITERS,
                in_bounds(s0),
                i < n,
                j <= n,
                acc_x == nudge_sum_upto(xs(s0), i as int, j as int),
                acc_y == nudge_sum_upto(ys(s0), i as int, j as int),
                -(j * SPEED_INCREMENT) <= acc_x <= j * SPEED_INCREMENT,
                -(j * SPEED_INCREMENT) <= acc_y <= j * SPEED_INCREMENT,
            decreases n - j,
        {
            let a: Orbiter = orbiters[i];
            let b: Orbiter = orbiters[j];
            if a.pos.x < b.pos.x {
                acc_x = acc_x - SPEED_INCREMENT;
            } else if b.pos.x < a.pos.x {
                acc_x = acc_x + SPEED_INCREMENT;
            }
            if a.pos.y < b.pos.y {
                acc_y = acc_y - SPEED_INCREMENT;
            } else if b.pos.y < a.pos.y {
                acc_y = acc_y + SPEED_INCREMENT;
            }
            j = j + 1;
        }
        dvx.push(acc_x);
        dvy.push(acc_y);
        i = i + 1;
    }
    let mut k: usize = 0;
    while k < n
        invariant
            n == s0.len(),
            orbiters@.len() == n,
            n <= MAX_ORBITERS,
            in_bounds(s0),
            k <= n,
            dvx@.len() == n,
            dvy@.len() == n,
            forall|t: int|
                0 <= t < n ==> dvx@[t] == nudge_sum(xs(s0), t) && dvy@[t] == nudge_sum(ys(s0), t),
            forall|t: int| k <= t < n ==> orbiters@[t] == s0[t],
            forall|t: int| 0 <= t < k ==> orbiters@[t] == stepped_orbiter(s0, t),
        decreases n - k,
    {
        proof {
            lemma_nudge_sum_bound(xs(s0), k as int, n as int);
            lemma_nudge_sum_bound(ys(s0), k as int, n as int);
        }
        let o: Orbiter = orbiters[k];
        let vx: i64 = o.speed.x + dvx[k];
        let vy: i64 = o.speed.y + dvy[k];
        let stepped_o: Orbiter = Orbiter {
            pos: Point { x: o.pos.x + vx, y: o.pos.y + vy },
            speed: Point { x: vx, y: vy },
        };
        orbiters[k] = stepped_o;
        k = k + 1;
    }
}

/// The tail end of an orbiter's drawn segment: its position minus its
/// velocity scaled by the trail length.
pub fn trail_endpoint(o: &Orbiter) -> (p: Point)
    requires
        -COORD_LIMIT <= o.pos.x <= COORD_LIMIT,
        -COORD_LIMIT <= o.pos.y <= COORD_LIMIT,
        -TRAIL_SPEED_LIMIT <= o.speed.x <= TRAIL_SPEED_LIMIT,
        -TRAIL_SPEED_LIMIT <= o.speed.y <= TRAIL_SPEED_LIMIT,
    ensures
        p.x == o.pos.x - o.speed.x * TRAIL,
        p.y == o.pos.y - o.speed.y * TRAIL,
{
    Point { x: o.pos.x - o.speed.x * TRAIL, y: o.pos.y - o.speed.y * TRAIL }
}

/// The padded span of a drawn segment on one axis: the smaller of the
/// two endpoints moved down by the padding, the larger moved up by it.
pub fn padded_span(a: i64, b: i64, pad: i64) -> (r: (i64, i64))
    requires
        -COORD_LIMIT <= a <= COORD_LIMIT,
        -COORD_LIMIT <= b <= COORD_LIMIT,
        0 <= pad <= COORD_LIMIT,
    ensures
        r.0 == (if a < b {
            a
        } else {
            b
        }) - pad,
        r.1 == (if a < b {
            b
        } else {
            a
        }) + pad,
{
    if a < b {
        (a - pad, b + pad)
    } else {
        (b - pad, a + pad)
    }
}

} // verus!

