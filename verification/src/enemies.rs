//! Enemies: spawning, movement, the beam hit test, damage over time, and
//! contact damage to the player.

use vstd::prelude::*;

use crate::beams::Beam;
use crate::geom::{bounded, dist2, Vec2, GEOM_BOUND};
use crate::player::PlayerHealth;
use crate::{
    decompose, made_by_spec, BeamColor, Colour, Enemy, Killable, Player, BEAM_LENGTH,
    ENEMY_APPROACH_X, ENEMY_RADIUS, ENEMY_SPEED, KILL_THRESHOLD_MS, MAX_TICK_MS, MELEE_RADIUS,
    PLAYER_MAX_X, PLAYER_MAX_Y, PLAYER_MIN_X, PLAYER_MIN_Y, SPAWN_PERIOD_MS, WORLD_BOUND,
};

verus! {

/// Repeating timer driving the spawner: milliseconds elapsed in the current
/// period.
#[derive(Clone, Copy, PartialEq, Eq, Structural, Debug)]
pub struct EnemySpawnerTimer(pub u64);

/// Event raised once for each enemy the beams destroy; the audio layer
/// consumes these.
#[derive(Clone, Copy, PartialEq, Eq, Structural, Debug)]
pub struct EnemyDead;

/// Running count of enemies destroyed by the beams: the score.
#[derive(Clone, Copy, PartialEq, Eq, Structural, Debug)]
pub struct EnemiesKilled(pub usize);

// ---------------------------------------------------------------------------
// The hit test
// ---------------------------------------------------------------------------

/// Whether the infinite line through `a` and `b` passes within `r` of `c`.
/// This is the squared form of "perpendicular distance below `r`": with
/// `cross` twice the triangle area and `len2` the squared length of `ab`, the
/// distance is `|cross| / sqrt(len2)`, so the comparison is exact in
/// integers. A degenerate line (`a == b`) hits nothing.
pub open spec fn line_near(a: Vec2, b: Vec2, c: Vec2, r: int) -> bool {
    let cross = (b.x - a.x) * (a.y - c.y) - (a.x - c.x) * (b.y - a.y);
    let len2 = (b.x - a.x) * (b.x - a.x) + (b.y - a.y) * (b.y - a.y);
    cross * cross < r * r * len2
}

/// The beam-against-circle line test of the combat resolver.
fn is_intersect(line_a: Vec2, line_b: Vec2, circle_center: Vec2, circle_radius: i64) -> (hit: bool)
    requires
        bounded(line_a, GEOM_BOUND as int),
        bounded(line_b, GEOM_BOUND as int),
        bounded(circle_center, GEOM_BOUND as int),
        0 <= circle_radius <= GEOM_BOUND,
    ensures
        hit == line_near(line_a, line_b, circle_center, circle_radius as int),
{
    let bax: i128 = (line_b.x as i128) - (line_a.x as i128);
    let bay: i128 = (line_b.y as i128) - (line_a.y as i128);
    let acy: i128 = (line_a.y as i128) - (circle_center.y as i128);
    let acx: i128 = (line_a.x as i128) - (circle_center.x as i128);
    proof {
        crate::geom::lemma_mul_abs_le(bax as int, acy as int, 200_000_000, 200_000_000);
        crate::geom::lemma_mul_abs_le(acx as int, bay as int, 200_000_000, 200_000_000);
    }
    let cross: i128 = bax * acy - acx * bay;
    proof {
        crate::geom::lemma_mul_abs_le(
            cross as int,
            cross as int,
            80_000_000_000_000_000,
            80_000_000_000_000_000,
        );
        crate::geom::lemma_square_bound(bax as int, 200_000_000);
        crate::geom::lemma_square_bound(bay as int, 200_000_000);
        crate::geom::lemma_square_bound(circle_radius as int, 100_000_000);
        crate::geom::lemma_mul_le(
            (circle_radius as int) * (circle_radius as int),
            (bax as int) * (bax as int) + (bay as int) * (bay as int),
            10_000_000_000_000_000,
            80_000_000_000_000_000,
        );
    }
    let len2: i128 = bax * bax + bay * bay;
    let r: i128 = circle_radius as i128;
    cross * cross < r * r * len2
}

/// The full dual test deciding whether a beam is hitting an enemy at `pos`:
/// the beam's infinite line passes within the enemy's radius, and the enemy
/// is within the beam's reach of the pivot — beam length plus half a radius
/// of slack. The pair approximates a bounded-segment test; the slack term is
/// part of the combat rule and must stay as it is.
pub open spec fn beam_hits(b: Beam, pos: Vec2) -> bool {
    &&& line_near(b.translation, b.pivot.0, pos, ENEMY_RADIUS as int)
    &&& dist2(pos, b.pivot.0) < (BEAM_LENGTH as int + ENEMY_RADIUS as int / 2) * (
    BEAM_LENGTH as int + ENEMY_RADIUS as int / 2)
}

fn beam_hits_exec(b: &Beam, pos: Vec2) -> (hit: bool)
    requires
        bounded(b.translation, WORLD_BOUND as int),
        bounded(b.pivot.0, WORLD_BOUND as int),
        bounded(pos, WORLD_BOUND as int),
    ensures
        hit == beam_hits(*b, pos),
{
    let range: i64 = BEAM_LENGTH + ENEMY_RADIUS / 2;
    is_intersect(b.translation, b.pivot.0, pos, ENEMY_RADIUS)
        && crate::geom::distance_squared(pos, b.pivot.0) < range * range
}

/// The set of primary colors currently incident on position `pos`.
pub open spec fn hitting_colors(beams: Seq<Beam>, pos: Vec2) -> Set<BeamColor> {
    Set::new(
        |c: BeamColor|
            exists|i: int|
                0 <= i < beams.len() && (#[trigger] beams[i]).color == c && beam_hits(
                    beams[i],
                    pos,
                ),
    )
}

/// Whether every primary the enemy's color requires is incident on it.
pub open spec fn full_match(beams: Seq<Beam>, e: Enemy) -> bool {
    decompose(e.colour).subset_of(hitting_colors(beams, e.translation))
}

fn contains_color(v: &Vec<BeamColor>, c: BeamColor) -> (r: bool)
    ensures
        r == v@.contains(c),
{
    let mut i: usize = 0;
    while i < v.len()
        invariant
            i <= v@.len(),
            forall|k: int| 0 <= k < i ==> v@[k] != c,
        decreases v@.len() - i,
    {
        if v[i] == c {
            return true;
        }
        i = i + 1;
    }
    false
}

/// Collect the colors of the beams whose dual test passes at `pos`.
fn colors_hitting(beams: &Vec<Beam>, pos: Vec2) -> (v: Vec<BeamColor>)
    requires
        forall|i: int|
            0 <= i < beams@.len() ==> bounded(
                (#[trigger] beams@[i]).translation,
                WORLD_BOUND as int,
            ) && bounded(beams@[i].pivot.0, WORLD_BOUND as int),
        bounded(pos, WORLD_BOUND as int),
    ensures
        forall|c: BeamColor| v@.contains(c) <==> hitting_colors(beams@, pos).contains(c),
{
    let mut v: Vec<BeamColor> = Vec::new();
    let mut i: usize = 0;
    while i < beams.len()
        invariant
            i <= beams@.len(),
            forall|k: int|
                0 <= k < beams@.len() ==> bounded(
                    (#[trigger] beams@[k]).translation,
                    WORLD_BOUND as int,
                ) && bounded(beams@[k].pivot.0, WORLD_BOUND as int),
            bounded(pos, WORLD_BOUND as int),
            forall|c: BeamColor|
                v@.contains(c) <==> exists|k: int|
                    0 <= k < i && (#[trigger] beams@[k]).color == c && beam_hits(beams@[k], pos),
        decreases beams@.len() - i,
    {
        let hit = beam_hits_exec(&beams[i], pos);
        let ghost old_v = v@;
        let c0 = beams[i].color;
        if hit {
            v.push(c0);
        }
        proof {
            let gi = i as int;
            if hit {
                assert forall|c: BeamColor| v@.contains(c) <==> old_v.contains(c) || c == c0 by {
                    vstd::seq_lib::lemma_seq_contains_after_push(old_v, c0, c);
                }
            }
            assert forall|c: BeamColor| v@.contains(c) implies exists|k: int|
                0 <= k < gi + 1 && (#[trigger] beams@[k]).color == c && beam_hits(
                    beams@[k],
                    pos,
                ) by {
                if hit && c == c0 {
                    assert(beams@[gi].color == c && beam_hits(beams@[gi], pos));
                } else {
                    assert(old_v.contains(c));
                    let k = choose|k: int|
                        0 <= k < gi && (#[trigger] beams@[k]).color == c && beam_hits(
                            beams@[k],
                            pos,
                        );
                    assert(beams@[k].color == c && beam_hits(beams@[k], pos));
                }
            }
            assert forall|c: BeamColor|
                (exists|k: int|
                    0 <= k < gi + 1 && (#[trigger] beams@[k]).color == c && beam_hits(
                        beams@[k],
                        pos,
                    )) implies v@.contains(c) by {
                let k = choose|k: int|
                    0 <= k < gi + 1 && (#[trigger] beams@[k]).color == c && beam_hits(
                        beams@[k],
                        pos,
                    );
                if k == gi {
                    assert(hit);
                    assert(v@[old_v.len() as int] == c0);
                    assert(v@.contains(c0));
                } else {
                    assert(old_v.contains(c));
                }
            }
        }
        i = i + 1;
    }
    v
}

/// Whether all required primaries of `e` are currently hitting it.
fn is_full_match(beams: &Vec<Beam>, e: &Enemy) -> (r: bool)
    requires
        forall|i: int|
            0 <= i < beams@.len() ==> bounded(
                (#[trigger] beams@[i]).translation,
                WORLD_BOUND as int,
            ) && bounded(beams@[i].pivot.0, WORLD_BOUND as int),
        bounded(e.translation, WORLD_BOUND as int),
    ensures
        r == full_match(beams@, *e),
{
    let hitting = colors_hitting(beams, e.translation);
    let required = e.colour.made_by();
    let mut i: usize = 0;
    while i < required.len()
        invariant
            i <= required@.len(),
            required@ == made_by_spec(e.colour),
            forall|c: BeamColor|
                hitting@.contains(c) <==> hitting_colors(beams@, e.translation).contains(c),
            forall|k: int|
                0 <= k < i ==> hitting_colors(beams@, e.translation).contains(
                    #[trigger] required@[k],
                ),
        decreases required@.len() - i,
    {
        if !contains_color(&hitting, required[i]) {
            proof {
                assert(decompose(e.colour).contains(required@[i as int]));
                assert(!full_match(beams@, *e));
            }
            return false;
        }
        i = i + 1;
    }
    proof {
        assert forall|c: BeamColor| decompose(e.colour).contains(c) implies hitting_colors(
            beams@,
            e.translation,
        ).contains(c) by {
            let k = choose|k: int| 0 <= k < required@.len() && required@[k] == c;
            assert(hitting_colors(beams@, e.translation).contains(required@[k]));
        }
    }
    true
}

// ---------------------------------------------------------------------------
// Damage over time and the kill decision
// ---------------------------------------------------------------------------

/// One resolver step on a single enemy: under a full color match it takes
/// damage and its timer advances by the tick delta; otherwise the timer
/// holds its value — a partial match neither advances nor decays it.
pub open spec fn resolve_enemy(e: Enemy, beams: Seq<Beam>, dt: u64) -> Enemy {
    if full_match(beams, e) {
        Enemy {
            killable: Killable { millis: (e.killable.millis + dt) as u64, under_damage: true },
            ..e
        }
    } else {
        Enemy { killable: Killable { millis: e.killable.millis, under_damage: false }, ..e }
    }
}

/// Whether this tick destroys the enemy: it must be under a full match and
/// its accumulated damage time must cross the kill threshold.
pub open spec fn enemy_dies(e: Enemy, beams: Seq<Beam>, dt: u64) -> bool {
    full_match(beams, e) && e.killable.millis + dt > KILL_THRESHOLD_MS
}

/// The enemies left after one resolver pass, each updated by
/// [`resolve_enemy`], in their original order.
pub open spec fn survivors(enemies: Seq<Enemy>, beams: Seq<Beam>, dt: u64) -> Seq<Enemy>
    decreases enemies.len(),
{
    if enemies.len() == 0 {
        Seq::empty()
    } else {
        let rest = survivors(enemies.drop_last(), beams, dt);
        let e = enemies.last();
        if enemy_dies(e, beams, dt) {
            rest
        } else {
            rest.push(resolve_enemy(e, beams, dt))
        }
    }
}

/// A resolver pass never grows the list, keeps every survivor inside the
/// world bound, and leaves every survivor's damage timer at or below the
/// kill threshold.
pub proof fn lemma_survivors_bounds(enemies: Seq<Enemy>, beams: Seq<Beam>, dt: u64)
    requires
        forall|i: int|
            0 <= i < enemies.len() ==> bounded(
                (#[trigger] enemies[i]).translation,
                WORLD_BOUND as int,
            ) && enemies[i].killable.millis <= KILL_THRESHOLD_MS,
        dt <= MAX_TICK_MS,
    ensures
        survivors(enemies, beams, dt).len() <= enemies.len(),
        forall|j: int|
            0 <= j < survivors(enemies, beams, dt).len() ==> bounded(
                (#[trigger] survivors(enemies, beams, dt)[j]).translation,
                WORLD_BOUND as int,
            ) && survivors(enemies, beams, dt)[j].killable.millis <= KILL_THRESHOLD_MS,
    decreases enemies.len(),
{
    if enemies.len() > 0 {
        lemma_survivors_bounds(enemies.drop_last(), beams, dt);
    }
}

/// Per tick, per live enemy: compute the beams hitting it, decide whether its
/// full required color set is present, accumulate damage time, and destroy it
/// once the threshold is crossed, scoring a point and raising one event per
/// kill.
pub fn damage_enemies(
    killable: &mut Vec<Enemy>,
    beams: &Vec<Beam>,
    dt_ms: u64,
    killed: &mut EnemiesKilled,
) -> (events: Vec<EnemyDead>)
    requires
        dt_ms <= MAX_TICK_MS,
        forall|i: int|
            0 <= i < old(killable)@.len() ==> bounded(
                (#[trigger] old(killable)@[i]).translation,
                WORLD_BOUND as int,
            ) && old(killable)@[i].killable.millis <= KILL_THRESHOLD_MS,
        forall|i: int|
            0 <= i < beams@.len() ==> bounded(
                (#[trigger] beams@[i]).translation,
                WORLD_BOUND as int,
            ) && bounded(beams@[i].pivot.0, WORLD_BOUND as int),
        old(killed).0 + old(killable)@.len() <= usize::MAX,
    ensures
        final(killable)@ == survivors(old(killable)@, beams@, dt_ms),
        final(killable)@.len() + events@.len() == old(killable)@.len(),
        final(killed).0 == old(killed).0 + events@.len(),
{
    let ghost orig = killable@;
    let mut out: Vec<Enemy> = Vec::new();
    let mut events: Vec<EnemyDead> = Vec::new();
    let mut i: usize = 0;
    while i < killable.len()
        invariant
            i <= orig.len(),
            killable@ == orig,
            out@ == survivors(orig.take(i as int), beams@, dt_ms),
            out@.len() + events@.len() == i,
            dt_ms <= MAX_TICK_MS,
            forall|k: int|
                0 <= k < orig.len() ==> bounded(
                    (#[trigger] orig[k]).translation,
                    WORLD_BOUND as int,
                ) && orig[k].killable.millis <= KILL_THRESHOLD_MS,
            forall|k: int|
                0 <= k < beams@.len() ==> bounded(
                    (#[trigger] beams@[k]).translation,
                    WORLD_BOUND as int,
                ) && bounded(beams@[k].pivot.0, WORLD_BOUND as int),
        decreases orig.len() - i,
    {
        let e = killable[i];
        let matched = is_full_match(beams, &e);
        proof {
            assert(orig.take(i + 1).drop_last() =~= orig.take(i as int));
            assert(orig.take(i + 1).last() == orig[i as int]);
        }
        if matched {
            let millis = e.killable.millis + dt_ms;
            if millis > KILL_THRESHOLD_MS {
                events.push(EnemyDead);
            } else {
                out.push(
                    Enemy { killable: Killable { millis, under_damage: true }, ..e },
                );
            }
        } else {
            out.push(
                Enemy {
                    killable: Killable { millis: e.killable.millis, under_damage: false },
                    ..e
                },
            );
        }
        i = i + 1;
    }
    proof {
        assert(orig.take(orig.len() as int) =~= orig);
    }
    killed.0 = killed.0 + events.len();
    *killable = out;
    events
}

// ---------------------------------------------------------------------------
// Laws of damage accumulation
// ---------------------------------------------------------------------------

/// Total simulated time of a run of tick deltas.
pub open spec fn sum_ms(dts: Seq<u64>) -> int
    decreases dts.len(),
{
    if dts.len() == 0 {
        0
    } else {
        sum_ms(dts.drop_last()) + dts.last()
    }
}

/// One enemy resolved through a whole run of ticks against fixed beams.
pub open spec fn resolve_iter(e: Enemy, beams: Seq<Beam>, dts: Seq<u64>) -> Enemy
    decreases dts.len(),
{
    if dts.len() == 0 {
        e
    } else {
        resolve_enemy(resolve_iter(e, beams, dts.drop_last()), beams, dts.last())
    }
}

/// Resolution never moves an enemy or changes its color, so whether its full
/// color set is matched is stable across a run of ticks.
pub proof fn lemma_resolve_iter_keeps_identity(e: Enemy, beams: Seq<Beam>, dts: Seq<u64>)
    ensures
        resolve_iter(e, beams, dts).translation == e.translation,
        resolve_iter(e, beams, dts).colour == e.colour,
        full_match(beams, resolve_iter(e, beams, dts)) == full_match(beams, e),
    decreases dts.len(),
{
    if dts.len() > 0 {
        lemma_resolve_iter_keeps_identity(e, beams, dts.drop_last());
    }
}

/// A partial color match never damages: however long the run of ticks, an
/// enemy whose required set is not fully covered keeps its damage timer
/// unchanged — it neither advances nor decays — and is never destroyed.
pub proof fn lemma_partial_match_never_damages(e: Enemy, beams: Seq<Beam>, dts: Seq<u64>)
    requires
        !full_match(beams, e),
    ensures
        resolve_iter(e, beams, dts).killable.millis == e.killable.millis,
        forall|k: int|
            0 <= k < dts.len() ==> !enemy_dies(
                resolve_iter(e, beams, #[trigger] dts.take(k)),
                beams,
                dts[k],
            ),
    decreases dts.len(),
{
    if dts.len() > 0 {
        let prefix = dts.drop_last();
        lemma_partial_match_never_damages(e, beams, prefix);
        lemma_resolve_iter_keeps_identity(e, beams, prefix);
        assert forall|k: int|
            0 <= k < dts.len() implies !enemy_dies(
            resolve_iter(e, beams, #[trigger] dts.take(k)),
            beams,
            dts[k],
        ) by {
            if k < dts.len() - 1 {
                assert(dts.take(k) =~= prefix.take(k));
                assert(dts[k] == prefix[k]);
            } else {
                assert(dts.take(k) =~= prefix);
                lemma_resolve_iter_keeps_identity(e, beams, prefix);
            }
        }
    }
}

/// Damage accumulates exactly under an unbroken full match: across any run of
/// ticks in which the enemy's whole required color set stays incident, its
/// timer advances by precisely the simulated time, and the run destroys it —
/// at some tick, scoring there — if and only if the accumulated time crosses
/// the kill threshold.
pub proof fn lemma_sustained_full_match(e: Enemy, beams: Seq<Beam>, dts: Seq<u64>)
    requires
        full_match(beams, e),
        e.killable.millis <= KILL_THRESHOLD_MS,
        e.killable.millis + sum_ms(dts) <= u64::MAX,
    ensures
        resolve_iter(e, beams, dts).killable.millis == e.killable.millis + sum_ms(dts),
        (exists|k: int|
            0 <= k < dts.len() && enemy_dies(
                resolve_iter(e, beams, #[trigger] dts.take(k)),
                beams,
                dts[k],
            )) <==> e.killable.millis + sum_ms(dts) > KILL_THRESHOLD_MS,
    decreases dts.len(),
{
    if dts.len() == 0 {
    } else {
        let prefix = dts.drop_last();
        let d = dts.last();
        let n = dts.len() as int;
        assert(sum_ms(prefix) <= sum_ms(dts)) by {
            lemma_sum_ms_nonneg(dts);
            lemma_sum_ms_nonneg(prefix);
        }
        lemma_sustained_full_match(e, beams, prefix);
        lemma_resolve_iter_keeps_identity(e, beams, prefix);
        let mid = resolve_iter(e, beams, prefix);
        assert(full_match(beams, mid));
        assert(dts.take(n - 1) =~= prefix);

        if e.killable.millis + sum_ms(dts) > KILL_THRESHOLD_MS {
            if e.killable.millis + sum_ms(prefix) > KILL_THRESHOLD_MS {
                let k = choose|k: int|
                    0 <= k < prefix.len() && enemy_dies(
                        resolve_iter(e, beams, #[trigger] prefix.take(k)),
                        beams,
                        prefix[k],
                    );
                assert(dts.take(k) =~= prefix.take(k));
                assert(enemy_dies(resolve_iter(e, beams, dts.take(k)), beams, dts[k]));
            } else {
                assert(enemy_dies(mid, beams, d));
                assert(enemy_dies(resolve_iter(e, beams, dts.take(n - 1)), beams, dts[n - 1]));
            }
        }
        if exists|k: int|
            0 <= k < dts.len() && enemy_dies(
                resolve_iter(e, beams, #[trigger] dts.take(k)),
                beams,
                dts[k],
            ) {
            let k = choose|k: int|
                0 <= k < dts.len() && enemy_dies(
                    resolve_iter(e, beams, #[trigger] dts.take(k)),
                    beams,
                    dts[k],
                );
            if k < n - 1 {
                assert(dts.take(k) =~= prefix.take(k));
                assert(enemy_dies(resolve_iter(e, beams, prefix.take(k)), beams, prefix[k]));
                assert(e.killable.millis + sum_ms(prefix) > KILL_THRESHOLD_MS);
                lemma_sum_ms_nonneg(dts);
            } else {
                assert(enemy_dies(mid, beams, d));
            }
        }
    }
}

/// Tick deltas are non-negative, so total time grows along a run.
pub proof fn lemma_sum_ms_nonneg(dts: Seq<u64>)
    ensures
        sum_ms(dts) >= 0,
        dts.len() > 0 ==> sum_ms(dts) >= dts.last(),
    decreases dts.len(),
{
    if dts.len() > 0 {
        lemma_sum_ms_nonneg(dts.drop_last());
    }
}

// ---------------------------------------------------------------------------
// The spawn difficulty curve
// ---------------------------------------------------------------------------

/// The colors an enemy may spawn with after `elapsed_ms` of the encounter:
/// primaries only at first, then two-primary composites with the primaries
/// double-weighted, then the same pool evenly, and finally all seven colors.
pub open spec fn tier_candidates(elapsed_ms: u64) -> Seq<Colour> {
    if elapsed_ms < 20_000 {
        seq![Colour::Red, Colour::Green, Colour::Blue]
    } else if elapsed_ms < 40_000 {
        seq![
            Colour::Red,
            Colour::Green,
            Colour::Blue,
            Colour::Red,
            Colour::Green,
            Colour::Blue,
            Colour::Cyan,
            Colour::Magenta,
            Colour::Yellow,
        ]
    } else if elapsed_ms < 60_000 {
        seq![
            Colour::Red,
            Colour::Green,
            Colour::Blue,
            Colour::Cyan,
            Colour::Magenta,
            Colour::Yellow,
        ]
    } else {
        seq![
            Colour::Red,
            Colour::Green,
            Colour::Blue,
            Colour::Yellow,
            Colour::Magenta,
            Colour::Cyan,
            Colour::White,
        ]
    }
}

/// Draw a spawn color uniformly from the tier the elapsed encounter time is
/// in.
pub fn get_random_colour(elapsed_ms: u64) -> (c: Colour)
    ensures
        tier_candidates(elapsed_ms).contains(c),
{
    let pool: Vec<Colour> = if elapsed_ms < 20_000 {
        vec![Colour::Red, Colour::Green, Colour::Blue]
    } else if elapsed_ms < 40_000 {
        vec![
            Colour::Red,
            Colour::Green,
            Colour::Blue,
            Colour::Red,
            Colour::Green,
            Colour::Blue,
            Colour::Cyan,
            Colour::Magenta,
            Colour::Yellow,
        ]
    } else if elapsed_ms < 60_000 {
        vec![
            Colour::Red,
            Colour::Green,
            Colour::Blue,
            Colour::Cyan,
            Colour::Magenta,
            Colour::Yellow,
        ]
    } else {
        vec![
            Colour::Red,
            Colour::Green,
            Colour::Blue,
            Colour::Yellow,
            Colour::Magenta,
            Colour::Cyan,
            Colour::White,
        ]
    };
    proof {
        assert(pool@ =~= tier_candidates(elapsed_ms));
    }
    let i = crate::rng::random_below(pool.len());
    let c = pool[i];
    proof {
        assert(tier_candidates(elapsed_ms)[i as int] == c);
    }
    c
}

// ---------------------------------------------------------------------------
// The spawner
// ---------------------------------------------------------------------------

/// Whether adding `dt` makes the repeating spawn timer fire this tick.
pub open spec fn timer_fires(t: u64, dt: u64) -> bool {
    t + dt >= SPAWN_PERIOD_MS
}

/// The timer's elapsed time after a tick: it wraps to the remainder when it
/// fires.
pub open spec fn timer_after(t: u64, dt: u64) -> int {
    if t + dt >= SPAWN_PERIOD_MS {
        (t + dt) % (SPAWN_PERIOD_MS as int)
    } else {
        t + dt
    }
}

/// The shape of a freshly spawned enemy: it appears at the given x just off
/// screen, on the row of one of the beam pivots, with a color from the
/// current tier, and with its damage state zeroed.
pub open spec fn spawn_ok(e: Enemy, beams: Seq<Beam>, spawn_x: i64, elapsed_ms: u64) -> bool {
    &&& e.translation.x == spawn_x
    &&& exists|k: int| 0 <= k < beams.len() && e.translation.y == (#[trigger] beams[k]).pivot.0.y
    &&& tier_candidates(elapsed_ms).contains(e.colour)
    &&& e.killable == (Killable { millis: 0, under_damage: false })
}

/// Tick the spawn timer; when it fires, spawn one enemy on the row of a
/// uniformly chosen beam pivot, with a color drawn from the elapsed-time
/// tier.
pub fn spawn_enemies(
    timer: &mut EnemySpawnerTimer,
    enemies: &mut Vec<Enemy>,
    beams: &Vec<Beam>,
    spawn_x: i64,
    elapsed_ms: u64,
    dt_ms: u64,
) -> (spawned: bool)
    requires
        old(timer).0 < SPAWN_PERIOD_MS,
        dt_ms <= MAX_TICK_MS,
        -WORLD_BOUND <= spawn_x <= WORLD_BOUND,
        beams@.len() >= 1,
        old(enemies)@.len() < usize::MAX,
    ensures
        final(timer).0 == timer_after(old(timer).0, dt_ms),
        final(timer).0 < SPAWN_PERIOD_MS,
        spawned == timer_fires(old(timer).0, dt_ms),
        !spawned ==> final(enemies)@ == old(enemies)@,
        spawned ==> final(enemies)@.len() == old(enemies)@.len() + 1 && final(enemies)@.drop_last()
            == old(enemies)@ && spawn_ok(final(enemies)@.last(), beams@, spawn_x, elapsed_ms),
{
    let elapsed_timer = timer.0 + dt_ms;
    if elapsed_timer >= SPAWN_PERIOD_MS {
        timer.0 = elapsed_timer % SPAWN_PERIOD_MS;
        let row = crate::rng::random_below(beams.len());
        let colour = get_random_colour(elapsed_ms);
        let e = Enemy {
            translation: Vec2 { x: spawn_x, y: beams[row].pivot.0.y },
            colour,
            killable: Killable { millis: 0, under_damage: false },
        };
        let ghost orig = enemies@;
        enemies.push(e);
        proof {
            assert(enemies@.drop_last() =~= orig);
            assert(enemies@.last().translation.y == beams@[row as int].pivot.0.y);
        }
        true
    } else {
        timer.0 = elapsed_timer;
        false
    }
}

// ---------------------------------------------------------------------------
// Enemy movement
// ---------------------------------------------------------------------------

/// Where one movement tick puts an enemy: it drifts straight left until it
/// reaches the approach line, then homes on the player at the same speed,
/// scaling the offset by its exact integer length. An enemy exactly on the
/// player does not move.
pub open spec fn enemy_step(pos: Vec2, player: Vec2, dt: u64) -> Vec2 {
    if pos.x > ENEMY_APPROACH_X {
        Vec2 { x: (pos.x - ENEMY_SPEED * dt) as i64, y: pos.y }
    } else {
        let dx = player.x - pos.x;
        let dy = player.y - pos.y;
        if dx == 0 && dy == 0 {
            pos
        } else {
            let d = crate::geom::sqrt_floor((dx * dx + dy * dy) as nat) as int;
            let step = ENEMY_SPEED * dt;
            Vec2 {
                x: (pos.x + crate::geom::scale_toward(dx, step, d)) as i64,
                y: (pos.y + crate::geom::scale_toward(dy, step, d)) as i64,
            }
        }
    }
}

/// Advance every enemy by one movement tick. Positions stay inside the world
/// bound because homing never carries an enemy more than one step past the
/// player, who lives deep inside it.
pub fn move_enemies(enemies: &mut Vec<Enemy>, player: &Player, dt_ms: u64)
    requires
        dt_ms <= MAX_TICK_MS,
        PLAYER_MIN_X <= player.translation.x <= PLAYER_MAX_X,
        PLAYER_MIN_Y <= player.translation.y <= PLAYER_MAX_Y,
        forall|i: int|
            0 <= i < old(enemies)@.len() ==> bounded(
                (#[trigger] old(enemies)@[i]).translation,
                WORLD_BOUND as int,
            ),
    ensures
        final(enemies)@.len() == old(enemies)@.len(),
        forall|i: int|
            0 <= i < old(enemies)@.len() ==> final(enemies)@[i] == (Enemy {
                translation: enemy_step(
                    (#[trigger] old(enemies)@[i]).translation,
                    player.translation,
                    dt_ms,
                ),
                ..old(enemies)@[i]
            }),
        forall|i: int|
            0 <= i < final(enemies)@.len() ==> bounded(
                (#[trigger] final(enemies)@[i]).translation,
                WORLD_BOUND as int,
            ),
{
    let ghost orig = enemies@;
    let p = player.translation;
    let step: i64 = ENEMY_SPEED * (dt_ms as i64);
    let mut i: usize = 0;
    while i < enemies.len()
        invariant
            enemies@.len() == orig.len(),
            i <= orig.len(),
            step == ENEMY_SPEED * dt_ms,
            0 <= step <= 500_000,
            dt_ms <= MAX_TICK_MS,
            PLAYER_MIN_X <= p.x <= PLAYER_MAX_X,
            PLAYER_MIN_Y <= p.y <= PLAYER_MAX_Y,
            forall|k: int| i <= k < orig.len() ==> enemies@[k] == orig[k],
            forall|k: int|
                0 <= k < orig.len() ==> bounded((#[trigger] orig[k]).translation, WORLD_BOUND as int),
            forall|k: int|
                0 <= k < i ==> enemies@[k] == (Enemy {
                    translation: enemy_step((#[trigger] orig[k]).translation, p, dt_ms),
                    ..orig[k]
                }),
            forall|k: int|
                0 <= k < i ==> bounded((#[trigger] enemies@[k]).translation, WORLD_BOUND as int),
        decreases orig.len() - i,
    {
        let pos = enemies[i].translation;
        proof {
            assert(enemies@[i as int] == orig[i as int]);
            assert(bounded(pos, WORLD_BOUND as int));
        }
        if pos.x > ENEMY_APPROACH_X {
            enemies[i].translation = Vec2 { x: pos.x - step, y: pos.y };
        } else {
            let dx: i64 = p.x - pos.x;
            let dy: i64 = p.y - pos.y;
            if !(dx == 0 && dy == 0) {
                let dx_mag: i64 = if dx >= 0 {
                    dx
                } else {
                    -dx
                };
                let dy_mag: i64 = if dy >= 0 {
                    dy
                } else {
                    -dy
                };
                proof {
                    crate::geom::lemma_square_bound(dx as int, 2 * WORLD_BOUND as int);
                    crate::geom::lemma_square_bound(dy as int, 2 * WORLD_BOUND as int);
                    assert(dx_mag * dx_mag == dx * dx) by (nonlinear_arith)
                        requires
                            dx_mag == if dx >= 0 { dx as int } else { -(dx as int) },
                    ;
                    assert(dy_mag * dy_mag == dy * dy) by (nonlinear_arith)
                        requires
                            dy_mag == if dy >= 0 { dy as int } else { -(dy as int) },
                    ;
                    assert(dx != 0 ==> dx * dx >= 1) by (nonlinear_arith);
                    assert(dy != 0 ==> dy * dy >= 1) by (nonlinear_arith);
                }
                let n2: u64 = ((dx * dx) as u64) + ((dy * dy) as u64);
                let d: u64 = crate::geom::int_sqrt(n2);
                proof {
                    crate::geom::lemma_sqrt_floor_at_least(n2 as nat, 1);
                    crate::geom::lemma_sqrt_floor_at_least(n2 as nat, dx_mag as nat);
                    crate::geom::lemma_sqrt_floor_at_least(n2 as nat, dy_mag as nat);
                    crate::geom::lemma_mul_le(
                        dx_mag as int,
                        step as int,
                        2 * WORLD_BOUND as int,
                        500_000,
                    );
                    crate::geom::lemma_mul_le(
                        dy_mag as int,
                        step as int,
                        2 * WORLD_BOUND as int,
                        500_000,
                    );
                    crate::geom::lemma_scaled_step_bounded(dx_mag as int, step as int, d as int);
                    crate::geom::lemma_scaled_step_bounded(dy_mag as int, step as int, d as int);
                }
                let vx_mag: u64 = (dx_mag as u64) * (step as u64) / d;
                let vy_mag: u64 = (dy_mag as u64) * (step as u64) / d;
                let vx: i64 = if dx >= 0 {
                    vx_mag as i64
                } else {
                    -(vx_mag as i64)
                };
                let vy: i64 = if dy >= 0 {
                    vy_mag as i64
                } else {
                    -(vy_mag as i64)
                };
                enemies[i].translation = Vec2 { x: pos.x + vx, y: pos.y + vy };
            }
        }
        i = i + 1;
    }
}

// ---------------------------------------------------------------------------
// Contact damage to the player
// ---------------------------------------------------------------------------

/// Whether an enemy is within melee range of the player.
pub open spec fn in_melee(e: Enemy, p: Vec2) -> bool {
    dist2(e.translation, p) < MELEE_RADIUS as int * MELEE_RADIUS as int
}

/// The enemies left after contact resolution: everyone in melee range
/// despawns, independently, in the same tick.
pub open spec fn contact_survivors(enemies: Seq<Enemy>, p: Vec2) -> Seq<Enemy>
    decreases enemies.len(),
{
    if enemies.len() == 0 {
        Seq::empty()
    } else {
        let rest = contact_survivors(enemies.drop_last(), p);
        if in_melee(enemies.last(), p) {
            rest
        } else {
            rest.push(enemies.last())
        }
    }
}

/// Contact resolution keeps survivors' fields unchanged, so their bounds and
/// timers carry over.
pub proof fn lemma_contact_survivors_bounds(enemies: Seq<Enemy>, p: Vec2)
    requires
        forall|i: int|
            0 <= i < enemies.len() ==> bounded(
                (#[trigger] enemies[i]).translation,
                WORLD_BOUND as int,
            ) && enemies[i].killable.millis <= KILL_THRESHOLD_MS,
    ensures
        contact_survivors(enemies, p).len() <= enemies.len(),
        forall|j: int|
            0 <= j < contact_survivors(enemies, p).len() ==> bounded(
                (#[trigger] contact_survivors(enemies, p)[j]).translation,
                WORLD_BOUND as int,
            ) && contact_survivors(enemies, p)[j].killable.millis <= KILL_THRESHOLD_MS,
    decreases enemies.len(),
{
    if enemies.len() > 0 {
        lemma_contact_survivors_bounds(enemies.drop_last(), p);
    }
}

/// Per tick, per live enemy: an enemy within melee range of the player
/// despawns and costs one point of health; several in range in the same tick
/// each cost one.
pub fn damage_player(enemies: &mut Vec<Enemy>, player: &Player, health: &mut PlayerHealth)
    requires
        bounded(player.translation, WORLD_BOUND as int),
        forall|i: int|
            0 <= i < old(enemies)@.len() ==> bounded(
                (#[trigger] old(enemies)@[i]).translation,
                WORLD_BOUND as int,
            ),
        old(health).health as int - old(enemies)@.len() >= i8::MIN,
    ensures
        final(enemies)@ == contact_survivors(old(enemies)@, player.translation),
        final(enemies)@.len() <= old(enemies)@.len(),
        final(health).health as int == old(health).health as int - (old(enemies)@.len()
            - final(enemies)@.len()),
{
    let ghost orig = enemies@;
    let p = player.translation;
    let mut out: Vec<Enemy> = Vec::new();
    let mut i: usize = 0;
    while i < enemies.len()
        invariant
            enemies@ == orig,
            i <= orig.len(),
            bounded(p, WORLD_BOUND as int),
            forall|k: int|
                0 <= k < orig.len() ==> bounded((#[trigger] orig[k]).translation, WORLD_BOUND as int),
            out@ == contact_survivors(orig.take(i as int), p),
            out@.len() <= i,
            old(health).health as int - orig.len() >= i8::MIN,
            health.health as int == old(health).health as int - (i - out@.len()),
        decreases orig.len() - i,
    {
        let e = enemies[i];
        proof {
            assert(orig.take(i + 1).drop_last() =~= orig.take(i as int));
            assert(orig.take(i + 1).last() == orig[i as int]);
        }
        if crate::geom::distance_squared(e.translation, p) < MELEE_RADIUS * MELEE_RADIUS {
            health.health = health.health - 1;
        } else {
            out.push(e);
        }
        i = i + 1;
    }
    proof {
        assert(orig.take(orig.len() as int) =~= orig);
    }
    *enemies = out;
}

} // verus!
