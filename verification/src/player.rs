//! The player: movement inside its fixed rectangle, health, the defeat
//! check, and the mood of its sprite.

use vstd::prelude::*;

use crate::geom::{clamp, clamp_i64, dist2, Vec2};
use crate::{
    Enemy, GameState, Player, MAX_TICK_MS, PLAYER_MAX_X, PLAYER_MAX_Y, PLAYER_MIN_X, PLAYER_MIN_Y,
    PLAYER_SPEED, WORLD_BOUND,
};

verus! {

/// The player's remaining health.
#[derive(Clone, Copy, PartialEq, Eq, Structural, Debug)]
pub struct PlayerHealth {
    pub health: i8,
}

/// The four directional key flags the input layer reports each tick.
#[derive(Clone, Copy, PartialEq, Eq, Structural, Debug)]
pub struct MoveKeys {
    pub up: bool,
    pub down: bool,
    pub left: bool,
    pub right: bool,
}

/// The displacement along one axis from a pair of opposing key flags:
/// `step` one way, `-step` the other, zero when they agree.
pub open spec fn axis_step(pos: bool, neg: bool, step: int) -> int {
    if pos && !neg {
        step
    } else if neg && !pos {
        -step
    } else {
        0
    }
}

/// Where one movement tick puts the player: each axis moves at full speed
/// for the tick delta and is clamped into the fixed rectangle.
pub open spec fn player_step(pos: Vec2, keys: MoveKeys, dt: u64) -> Vec2 {
    let step = PLAYER_SPEED * dt;
    Vec2 {
        x: clamp(
            pos.x + axis_step(keys.right, keys.left, step),
            PLAYER_MIN_X as int,
            PLAYER_MAX_X as int,
        ) as i64,
        y: clamp(
            pos.y + axis_step(keys.up, keys.down, step),
            PLAYER_MIN_Y as int,
            PLAYER_MAX_Y as int,
        ) as i64,
    }
}

/// Move the player by the pressed keys, clamped to its rectangle.
pub fn move_player(player: &mut Player, keys: MoveKeys, dt_ms: u64)
    requires
        dt_ms <= MAX_TICK_MS,
        -WORLD_BOUND <= old(player).translation.x <= WORLD_BOUND,
        -WORLD_BOUND <= old(player).translation.y <= WORLD_BOUND,
    ensures
        final(player).translation == player_step(old(player).translation, keys, dt_ms),
        PLAYER_MIN_X <= final(player).translation.x <= PLAYER_MAX_X,
        PLAYER_MIN_Y <= final(player).translation.y <= PLAYER_MAX_Y,
{
    let step: i64 = PLAYER_SPEED * (dt_ms as i64);
    let mut dx: i64 = 0;
    let mut dy: i64 = 0;
    if keys.up {
        dy = dy + step;
    }
    if keys.down {
        dy = dy - step;
    }
    if keys.left {
        dx = dx - step;
    }
    if keys.right {
        dx = dx + step;
    }
    player.translation = Vec2 {
        x: clamp_i64(player.translation.x + dx, PLAYER_MIN_X, PLAYER_MAX_X),
        y: clamp_i64(player.translation.y + dy, PLAYER_MIN_Y, PLAYER_MAX_Y),
    };
}

/// End the encounter the moment health runs out.
pub fn end_game_if_health_is_0(health: &PlayerHealth, state: &mut GameState)
    requires
        *old(state) == GameState::Game,
    ensures
        *final(state) == if health.health <= 0 {
            GameState::Death
        } else {
            GameState::Game
        },
{
    if health.health <= 0 {
        *state = GameState::Death;
    }
}

/// Which face the player wears, by how close the nearest enemy is.
#[derive(Clone, Copy, PartialEq, Eq, Structural, Debug)]
pub enum PlayerSprite {
    Happy,
    Neutral,
    Sad,
}

/// Distance (in world units, squared in fixed point) under which the player
/// looks sad.
pub const SAD_DISTANCE: i64 = 100_000;

/// Distance under which the player looks neutral.
pub const NEUTRAL_DISTANCE: i64 = 400_000;

/// Whether some enemy is within the squared distance `r2` of `p`.
pub open spec fn enemy_within(enemies: Seq<Enemy>, p: Vec2, r: int) -> bool {
    exists|i: int| 0 <= i < enemies.len() && dist2((#[trigger] enemies[i]).translation, p) < r * r
}

/// The face the player should wear: sad with an enemy nearby, neutral with
/// one in sight, happy otherwise.
pub open spec fn sprite_for(enemies: Seq<Enemy>, p: Vec2) -> PlayerSprite {
    if enemy_within(enemies, p, SAD_DISTANCE as int) {
        PlayerSprite::Sad
    } else if enemy_within(enemies, p, NEUTRAL_DISTANCE as int) {
        PlayerSprite::Neutral
    } else {
        PlayerSprite::Happy
    }
}

/// Scanning one more enemy extends the "some enemy within" predicate by
/// exactly that enemy's own test.
proof fn lemma_enemy_within_extend(enemies: Seq<Enemy>, p: Vec2, r: int, i: int)
    requires
        0 <= i < enemies.len(),
    ensures
        enemy_within(enemies.take(i + 1), p, r) <==> (enemy_within(enemies.take(i), p, r) || dist2(
            enemies[i].translation,
            p,
        ) < r * r),
{
    let pre = enemies.take(i);
    let ext = enemies.take(i + 1);
    if enemy_within(ext, p, r) {
        let k = choose|k: int|
            0 <= k < ext.len() && dist2((#[trigger] ext[k]).translation, p) < r * r;
        if k < i {
            assert(pre[k] == ext[k]);
            assert(enemy_within(pre, p, r));
        } else {
            assert(ext[k] == enemies[i]);
        }
    }
    if enemy_within(pre, p, r) {
        let k = choose|k: int|
            0 <= k < pre.len() && dist2((#[trigger] pre[k]).translation, p) < r * r;
        assert(dist2(ext[k].translation, p) < r * r);
        assert(enemy_within(ext, p, r));
    }
    if dist2(enemies[i].translation, p) < r * r {
        assert(dist2(ext[i].translation, p) < r * r);
        assert(enemy_within(ext, p, r));
    }
}

/// Pick the player's sprite from the distance to the nearest enemy.
pub fn change_player_sprite(player: &Player, enemies: &Vec<Enemy>) -> (s: PlayerSprite)
    requires
        crate::geom::bounded(player.translation, WORLD_BOUND as int),
        forall|i: int|
            0 <= i < enemies@.len() ==> crate::geom::bounded(
                (#[trigger] enemies@[i]).translation,
                WORLD_BOUND as int,
            ),
    ensures
        s == sprite_for(enemies@, player.translation),
{
    let p = player.translation;
    let mut sad = false;
    let mut neutral = false;
    let mut i: usize = 0;
    while i < enemies.len()
        invariant
            i <= enemies@.len(),
            crate::geom::bounded(p, WORLD_BOUND as int),
            forall|k: int|
                0 <= k < enemies@.len() ==> crate::geom::bounded(
                    (#[trigger] enemies@[k]).translation,
                    WORLD_BOUND as int,
                ),
            sad == enemy_within(enemies@.take(i as int), p, SAD_DISTANCE as int),
            neutral == enemy_within(enemies@.take(i as int), p, NEUTRAL_DISTANCE as int),
        decreases enemies@.len() - i,
    {
        let d2 = crate::geom::distance_squared(enemies[i].translation, p);
        proof {
            lemma_enemy_within_extend(enemies@, p, SAD_DISTANCE as int, i as int);
            lemma_enemy_within_extend(enemies@, p, NEUTRAL_DISTANCE as int, i as int);
        }
        if d2 < SAD_DISTANCE * SAD_DISTANCE {
            sad = true;
        }
        if d2 < NEUTRAL_DISTANCE * NEUTRAL_DISTANCE {
            neutral = true;
        }
        i = i + 1;
    }
    proof {
        assert(enemies@.take(enemies@.len() as int) =~= enemies@);
    }
    if sad {
        PlayerSprite::Sad
    } else if neutral {
        PlayerSprite::Neutral
    } else {
        PlayerSprite::Happy
    }
}

} // verus!
