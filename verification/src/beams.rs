//! The three light beams: which one is active, and where it points.
//!
//! Each beam is anchored at a fixed pivot. Every tick the beam whose pivot is
//! closest to the player becomes the active one, and only the active beam is
//! re-aimed at the pointer; the others keep their previous heading.

use vstd::prelude::*;

use crate::geom::{
    bounded, dist2, int_sqrt, lemma_sqrt_floor_at_least, scale_toward, sqrt_floor, Vec2,
};
use crate::{BeamColor, Pivot, Player, BEAM_LENGTH, WORLD_BOUND};

verus! {

/// One light beam: its fixed anchor, its primary color, and the point its
/// sprite is currently centred on (half a beam length from the pivot, along
/// the aimed direction).
#[derive(Clone, Copy, PartialEq, Eq, Structural, Debug)]
pub struct Beam {
    pub pivot: Pivot,
    pub color: BeamColor,
    pub translation: Vec2,
}

/// The color of the beam the player is currently steering.
#[derive(Clone, Copy, PartialEq, Eq, Structural, Debug)]
pub struct ClosestBeam(pub BeamColor);

// ---------------------------------------------------------------------------
// Beam selection
// ---------------------------------------------------------------------------

/// Index of the beam among the first `n` whose pivot is closest to `p`;
/// ties keep the earliest index.
pub open spec fn best_pivot_upto(beams: Seq<Beam>, p: Vec2, n: int) -> int
    recommends
        1 <= n <= beams.len(),
    decreases n,
{
    if n <= 1 {
        0
    } else {
        let b = best_pivot_upto(beams, p, n - 1);
        if dist2(beams[n - 1].pivot.0, p) < dist2(beams[b].pivot.0, p) {
            n - 1
        } else {
            b
        }
    }
}

/// The color of the beam whose pivot is closest to `p`.
pub open spec fn closest_beam(beams: Seq<Beam>, p: Vec2) -> BeamColor {
    beams[best_pivot_upto(beams, p, beams.len() as int)].color
}

/// The selected index is valid and achieves the minimum pivot distance.
pub proof fn lemma_best_pivot_upto(beams: Seq<Beam>, p: Vec2, n: int)
    requires
        1 <= n <= beams.len(),
    ensures
        0 <= best_pivot_upto(beams, p, n) < n,
        forall|j: int|
            0 <= j < n ==> dist2(beams[best_pivot_upto(beams, p, n)].pivot.0, p) <= dist2(
                (#[trigger] beams[j]).pivot.0,
                p,
            ),
    decreases n,
{
    if n > 1 {
        lemma_best_pivot_upto(beams, p, n - 1);
    }
}

/// Mark the beam whose pivot is closest to the player as the active one.
/// The choice is a pure function of the pivots and the player's position,
/// so it is stable across ticks with identical inputs; among equally close
/// pivots the earliest beam wins.
pub fn update_closest_beam(player: &Player, beams: &Vec<Beam>, color: &mut ClosestBeam)
    requires
        beams@.len() >= 1,
        bounded(player.translation, WORLD_BOUND as int),
        forall|i: int| 0 <= i < beams@.len() ==> bounded(#[trigger] beams@[i].pivot.0, WORLD_BOUND as int),
    ensures
        final(color).0 == closest_beam(beams@, player.translation),
{
    let p = player.translation;
    let mut best: usize = 0;
    let mut i: usize = 1;
    while i < beams.len()
        invariant
            1 <= i <= beams@.len(),
            0 <= best < i,
            best == best_pivot_upto(beams@, p, i as int),
            bounded(p, WORLD_BOUND as int),
            forall|k: int|
                0 <= k < beams@.len() ==> bounded(#[trigger] beams@[k].pivot.0, WORLD_BOUND as int),
        decreases beams@.len() - i,
    {
        let di = crate::geom::distance_squared(beams[i].pivot.0, p);
        let db = crate::geom::distance_squared(beams[best].pivot.0, p);
        if di < db {
            best = i;
        }
        i = i + 1;
    }
    color.0 = beams[best].color;
}

// ---------------------------------------------------------------------------
// Beam aiming
// ---------------------------------------------------------------------------

/// The magnitude of the horizontal offset from pivot to target. The mirror to
/// absolute value is deliberate: the beams fan out to one fixed side instead
/// of tracking the pointer's true bearing.
pub open spec fn aim_dx(pivot: Vec2, target: Vec2) -> int {
    if target.x >= pivot.x {
        target.x - pivot.x
    } else {
        pivot.x - target.x
    }
}

/// Where the active beam's sprite is centred after aiming at `target`: half a
/// beam length from the pivot along the direction `(|dx|, dy)`, scaled with
/// the exact integer square root.
pub open spec fn aim_point(pivot: Vec2, target: Vec2) -> Vec2
    recommends
        target != pivot,
{
    let dx = aim_dx(pivot, target);
    let dy = target.y - pivot.y;
    let d = sqrt_floor((dx * dx + dy * dy) as nat) as int;
    Vec2 {
        x: (pivot.x + dx * (BEAM_LENGTH as int / 2) / d) as i64,
        y: (pivot.y + scale_toward(dy, BEAM_LENGTH as int / 2, d)) as i64,
    }
}

/// What aiming at `target` does to one beam: only the active beam moves, and
/// a target exactly on the pivot leaves it where it was.
pub open spec fn aimed_beam(b: Beam, active: BeamColor, target: Vec2) -> Beam {
    if b.color != active {
        b
    } else if target == b.pivot.0 {
        b
    } else {
        Beam { translation: aim_point(b.pivot.0, target), ..b }
    }
}

/// Re-aim the active beam's sprite toward the pointer; inactive beams keep
/// their previous heading.
pub fn move_light_beam(beams: &mut Vec<Beam>, color: &ClosestBeam, mouse: &crate::mouse::MousePos)
    requires
        forall|i: int|
            0 <= i < old(beams)@.len() ==> bounded(
                #[trigger] old(beams)@[i].pivot.0,
                WORLD_BOUND as int - BEAM_LENGTH as int / 2,
            ),
        bounded(mouse.pos, WORLD_BOUND as int),
    ensures
        final(beams)@.len() == old(beams)@.len(),
        forall|i: int|
            0 <= i < old(beams)@.len() ==> final(beams)@[i] == aimed_beam(
                #[trigger] old(beams)@[i],
                color.0,
                mouse.pos,
            ),
        forall|i: int|
            0 <= i < final(beams)@.len() ==> bounded(
                #[trigger] final(beams)@[i].translation,
                WORLD_BOUND as int,
            ) || final(beams)@[i].translation == old(beams)@[i].translation,
{
    let ghost orig = beams@;
    let mut i: usize = 0;
    while i < beams.len()
        invariant
            beams@.len() == orig.len(),
            i <= orig.len(),
            forall|k: int| i <= k < orig.len() ==> beams@[k] == orig[k],
            forall|k: int|
                0 <= k < i ==> beams@[k] == aimed_beam(#[trigger] orig[k], color.0, mouse.pos),
            forall|k: int|
                0 <= k < i ==> bounded(#[trigger] beams@[k].translation, WORLD_BOUND as int)
                    || beams@[k].translation == orig[k].translation,
            forall|k: int|
                0 <= k < orig.len() ==> bounded(
                    #[trigger] orig[k].pivot.0,
                    WORLD_BOUND as int - BEAM_LENGTH as int / 2,
                ),
            bounded(mouse.pos, WORLD_BOUND as int),
        decreases orig.len() - i,
    {
        let b = beams[i];
        if b.color == color.0 && !(mouse.pos.x == b.pivot.0.x && mouse.pos.y == b.pivot.0.y) {
            let px = b.pivot.0.x;
            let py = b.pivot.0.y;
            let dx: i64 = if mouse.pos.x >= px {
                mouse.pos.x - px
            } else {
                px - mouse.pos.x
            };
            let dy: i64 = mouse.pos.y - py;
            let dy_mag: i64 = if dy >= 0 {
                dy
            } else {
                -dy
            };
            proof {
                crate::geom::lemma_square_bound(dx as int, 2 * WORLD_BOUND as int);
                crate::geom::lemma_square_bound(dy as int, 2 * WORLD_BOUND as int);
            }
            let n2: u64 = ((dx * dx) as u64) + ((dy * dy) as u64);
            let d: u64 = int_sqrt(n2);
            proof {
                if dx == 0 && dy == 0 {
                    assert(mouse.pos == b.pivot.0);
                }
                assert(dx != 0 ==> dx * dx >= 1) by (nonlinear_arith);
                assert(dy != 0 ==> dy * dy >= 1) by (nonlinear_arith);
                assert(n2 >= 1);
                lemma_sqrt_floor_at_least(n2 as nat, 1);
                lemma_sqrt_floor_at_least(n2 as nat, dx as nat);
                assert(dy_mag * dy_mag == dy * dy) by (nonlinear_arith)
                    requires
                        dy_mag == if dy >= 0 { dy as int } else { -(dy as int) },
                ;
                lemma_sqrt_floor_at_least(n2 as nat, dy_mag as nat);
            }
            let half: u64 = (BEAM_LENGTH / 2) as u64;
            proof {
                crate::geom::lemma_mul_le(dx as int, half as int, 2 * WORLD_BOUND as int, half as int);
                crate::geom::lemma_mul_le(
                    dy_mag as int,
                    half as int,
                    2 * WORLD_BOUND as int,
                    half as int,
                );
            }
            let sx: u64 = (dx as u64) * half / d;
            let sy_mag: u64 = (dy_mag as u64) * half / d;
            proof {
                crate::geom::lemma_scaled_step_bounded(dx as int, half as int, d as int);
                crate::geom::lemma_scaled_step_bounded(dy_mag as int, half as int, d as int);
            }
            let tx: i64 = px + (sx as i64);
            let ty: i64 = if dy >= 0 {
                py + (sy_mag as i64)
            } else {
                py - (sy_mag as i64)
            };
            beams[i].translation = Vec2 { x: tx, y: ty };
            proof {
                assert(beams@[i as int] == aimed_beam(orig[i as int], color.0, mouse.pos));
            }
        }
        i = i + 1;
    }
}

} // verus!
