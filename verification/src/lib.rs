//! Verified core of a beam-combat arcade simulation.
//!
//! The player aims three colored light beams; incoming enemies each require a
//! combination of primary colors to be incident on them simultaneously before
//! they take damage. This crate holds the simulation itself — beam selection,
//! the geometric hit test, the color composition rule, damage accumulation,
//! the spawn difficulty curve, contact damage and the encounter state machine
//! — with contracts proved for every tick. Rendering, audio and input
//! collection live outside; they feed the core plain values and display what
//! it computes.
//!
//! Conventions: world coordinates are fixed-point integers in thousandths of
//! a world unit, and all times are in milliseconds.

use vstd::prelude::*;

pub mod geom;
pub mod player;
pub mod enemies;
pub mod mouse;
pub mod ui;
pub mod menu;
pub mod death_screen;
pub mod audio;
pub mod beams;
mod rng;

use crate::geom::Vec2;

verus! {

// ---------------------------------------------------------------------------
// World constants. Coordinates are thousandths of a world unit, times are
// milliseconds.
// ---------------------------------------------------------------------------

/// Full length of a light beam.
pub const BEAM_LENGTH: i64 = 1_000_000;

/// Radius of an enemy for the beam hit test.
pub const ENEMY_RADIUS: i64 = 50_000;

/// An enemy closer to the player than this deals contact damage.
pub const MELEE_RADIUS: i64 = 55_000;

/// Accumulated damage time after which an enemy is destroyed.
pub const KILL_THRESHOLD_MS: u64 = 2_000;

/// Period of the enemy spawner.
pub const SPAWN_PERIOD_MS: u64 = 1_000;

/// Player speed, in thousandths of a unit per millisecond.
pub const PLAYER_SPEED: i64 = 150;

/// Enemy speed, in thousandths of a unit per millisecond.
pub const ENEMY_SPEED: i64 = 50;

/// Enemies drift straight left until they reach this x, then home on the player.
pub const ENEMY_APPROACH_X: i64 = -500_000;

/// Health the player starts an encounter with.
pub const START_HEALTH: i8 = 30;

/// Bounds of the rectangle the player can move in.
pub const PLAYER_MIN_X: i64 = -600_000;

pub const PLAYER_MAX_X: i64 = -525_000;

pub const PLAYER_MIN_Y: i64 = -120_000;

pub const PLAYER_MAX_Y: i64 = 140_000;

/// Every position the simulation handles stays inside this bound; it is far
/// below [`geom::GEOM_BOUND`], so the hit tests never overflow.
pub const WORLD_BOUND: i64 = 4_000_000;

/// Largest tick delta the simulation accepts.
pub const MAX_TICK_MS: u64 = 10_000;

/// Period of the sprite animation timer.
pub const ANIMATION_PERIOD_MS: u64 = 100;

// ---------------------------------------------------------------------------
// Screen flow
// ---------------------------------------------------------------------------

/// The screen the process is on. Only `Game` runs the simulation; the others
/// are menus drawn by the presentation layer.
#[derive(Clone, Copy, PartialEq, Eq, Structural, Debug, Hash)]
pub enum GameState {
    Loading,
    Menu,
    Game,
    Death,
}

// ---------------------------------------------------------------------------
// Color model
// ---------------------------------------------------------------------------

/// The primary color of one light beam.
#[derive(Clone, Copy, PartialEq, Eq, Structural, Debug)]
pub enum BeamColor {
    Red,
    Green,
    Blue,
}

/// The composite color an enemy requires: a non-empty combination of
/// primaries that must all be incident on it at once.
#[derive(Clone, Copy, PartialEq, Eq, Structural, Debug)]
pub enum Colour {
    Red,
    Green,
    Blue,
    // red + green
    Yellow,
    // red + blue
    Magenta,
    // green + blue
    Cyan,
    // red + green + blue
    White,
}

/// The primaries a composite color is made of, in enumeration order.
pub open spec fn made_by_spec(c: Colour) -> Seq<BeamColor> {
    match c {
        Colour::Red => seq![BeamColor::Red],
        Colour::Green => seq![BeamColor::Green],
        Colour::Blue => seq![BeamColor::Blue],
        Colour::Yellow => seq![BeamColor::Red, BeamColor::Green],
        Colour::Magenta => seq![BeamColor::Red, BeamColor::Blue],
        Colour::Cyan => seq![BeamColor::Green, BeamColor::Blue],
        Colour::White => seq![BeamColor::Red, BeamColor::Green, BeamColor::Blue],
    }
}

/// The set of primaries a composite color decomposes into.
pub open spec fn decompose(c: Colour) -> Set<BeamColor> {
    made_by_spec(c).to_set()
}

impl Colour {
    /// Table lookup of the primaries this color is made of.
    pub fn made_by(&self) -> (v: Vec<BeamColor>)
        ensures
            v@ == made_by_spec(*self),
    {
        match self {
            Colour::Red => vec![BeamColor::Red],
            Colour::Green => vec![BeamColor::Green],
            Colour::Blue => vec![BeamColor::Blue],
            Colour::Yellow => vec![BeamColor::Red, BeamColor::Green],
            Colour::Magenta => vec![BeamColor::Red, BeamColor::Blue],
            Colour::Cyan => vec![BeamColor::Green, BeamColor::Blue],
            Colour::White => vec![BeamColor::Red, BeamColor::Green, BeamColor::Blue],
        }
    }
}

/// Every composite color decomposes into a non-empty set of primaries, and
/// the decomposition is a fixed table: a pure function of the color alone.
pub proof fn lemma_decompose_nonempty_subset(c: Colour)
    ensures
        decompose(c).len() > 0,
        decompose(c).subset_of(
            set![BeamColor::Red, BeamColor::Green, BeamColor::Blue],
        ),
{
    let s = made_by_spec(c);
    assert(s.to_set().contains(s[0]));
    assert forall|b: BeamColor|
        decompose(c).contains(b) implies set![
        BeamColor::Red,
        BeamColor::Green,
        BeamColor::Blue,
    ].contains(b) by {
        match b {
            BeamColor::Red => {},
            BeamColor::Green => {},
            BeamColor::Blue => {},
        }
    }
    if decompose(c).len() == 0 {
        assert(decompose(c) =~= Set::<BeamColor>::empty());
    }
}

// ---------------------------------------------------------------------------
// Presentation color mixing (never used by the hit test)
// ---------------------------------------------------------------------------

/// An additive display color with 8-bit channels.
#[derive(Clone, Copy, PartialEq, Eq, Structural, Debug)]
pub struct Rgba {
    pub r: u8,
    pub g: u8,
    pub b: u8,
    pub a: u8,
}

/// Channel sum that saturates at the brightest value.
pub open spec fn sat_add(a: int, b: int) -> int {
    if a + b > 255 {
        255
    } else {
        a + b
    }
}

/// Channel-wise additive mix of primaries, fully opaque.
pub open spec fn compose_spec(s: Seq<BeamColor>) -> Rgba
    decreases s.len(),
{
    if s.len() == 0 {
        Rgba { r: 0, g: 0, b: 0, a: 255 }
    } else {
        let rest = compose_spec(s.drop_last());
        let last = beam_rgba(s.last());
        Rgba {
            r: sat_add(rest.r as int, last.r as int) as u8,
            g: sat_add(rest.g as int, last.g as int) as u8,
            b: sat_add(rest.b as int, last.b as int) as u8,
            a: 255,
        }
    }
}

/// The display color of one primary beam.
pub open spec fn beam_rgba(c: BeamColor) -> Rgba {
    match c {
        BeamColor::Red => Rgba { r: 255, g: 0, b: 0, a: 255 },
        BeamColor::Green => Rgba { r: 0, g: 255, b: 0, a: 255 },
        BeamColor::Blue => Rgba { r: 0, g: 0, b: 255, a: 255 },
    }
}

fn sat_add_u8(a: u8, b: u8) -> (r: u8)
    ensures
        r == sat_add(a as int, b as int),
{
    if a > 255 - b {
        255
    } else {
        a + b
    }
}

/// Additive mix of a list of primaries, used for display only.
pub fn compose(colors: &Vec<BeamColor>) -> (c: Rgba)
    ensures
        c == compose_spec(colors@),
{
    let mut c = Rgba { r: 0, g: 0, b: 0, a: 255 };
    let mut i: usize = 0;
    while i < colors.len()
        invariant
            i <= colors.len(),
            c == compose_spec(colors@.take(i as int)),
        decreases colors.len() - i,
    {
        let p = colors[i].color();
        c = Rgba {
            r: sat_add_u8(c.r, p.r),
            g: sat_add_u8(c.g, p.g),
            b: sat_add_u8(c.b, p.b),
            a: 255,
        };
        proof {
            assert(colors@.take(i + 1).drop_last() =~= colors@.take(i as int));
            assert(colors@.take(i + 1).last() == colors@[i as int]);
        }
        i = i + 1;
    }
    proof {
        assert(colors@.take(colors@.len() as int) =~= colors@);
    }
    c
}

impl BeamColor {
    /// The display color of this beam.
    pub fn color(&self) -> (c: Rgba)
        ensures
            c == beam_rgba(*self),
    {
        match self {
            BeamColor::Red => Rgba { r: 255, g: 0, b: 0, a: 255 },
            BeamColor::Green => Rgba { r: 0, g: 255, b: 0, a: 255 },
            BeamColor::Blue => Rgba { r: 0, g: 0, b: 255, a: 255 },
        }
    }
}

impl Colour {
    /// The display color of an enemy: the additive mix of its primaries.
    pub fn color(&self) -> (c: Rgba)
        ensures
            c == compose_spec(made_by_spec(*self)),
    {
        let parts = self.made_by();
        compose(&parts)
    }
}

// ---------------------------------------------------------------------------
// Entities
// ---------------------------------------------------------------------------

/// The fixed world-space anchor of a beam.
#[derive(Clone, Copy, PartialEq, Eq, Structural, Debug)]
pub struct Pivot(pub Vec2);

/// The player entity: its current world position.
#[derive(Clone, Copy, PartialEq, Eq, Structural, Debug)]
pub struct Player {
    pub translation: Vec2,
}

/// Damage bookkeeping of an enemy: accumulated time under the full required
/// color set, and whether it is taking damage this tick (display only).
#[derive(Clone, Copy, PartialEq, Eq, Structural, Debug)]
pub struct Killable {
    pub millis: u64,
    pub under_damage: bool,
}

/// An enemy: where it is, the color it requires, and its damage state.
#[derive(Clone, Copy, PartialEq, Eq, Structural, Debug)]
pub struct Enemy {
    pub translation: Vec2,
    pub colour: Colour,
    pub killable: Killable,
}

// ---------------------------------------------------------------------------
// Sprite animation
// ---------------------------------------------------------------------------

/// Repeating frame timer for a sprite sheet.
#[derive(Clone, Copy, PartialEq, Eq, Structural, Debug)]
pub struct AnimationTimer {
    pub timer_ms: u64,
    pub paused: bool,
}

/// What one animation step does to the frame index: a paused sprite shows
/// frame zero; otherwise the frame advances by one, wrapping, each time the
/// timer completes a period.
pub open spec fn animation_step(
    t: AnimationTimer,
    index: int,
    frames: int,
    dt: u64,
) -> (AnimationTimer, int) {
    if t.paused {
        (t, 0)
    } else {
        let elapsed = t.timer_ms + dt;
        if elapsed >= ANIMATION_PERIOD_MS {
            (
                AnimationTimer {
                    timer_ms: (elapsed % (ANIMATION_PERIOD_MS as int)) as u64,
                    ..t
                },
                (index + 1) % frames,
            )
        } else {
            (AnimationTimer { timer_ms: elapsed as u64, ..t }, index)
        }
    }
}

// ---------------------------------------------------------------------------
// The encounter world
// ---------------------------------------------------------------------------

/// When the running encounter started, in milliseconds since startup.
#[derive(Clone, Copy, PartialEq, Eq, Structural, Debug)]
pub struct GameStartTime(pub u64);

/// The whole simulation state: the screen being shown, the encounter's
/// resources, and the live entities. Exactly one of these exists; every
/// system of the simulation reads and writes it through `&mut`.
pub struct World {
    pub state: GameState,
    pub health: crate::player::PlayerHealth,
    pub killed: crate::enemies::EnemiesKilled,
    pub start: GameStartTime,
    pub closest: crate::beams::ClosestBeam,
    pub spawn_timer: crate::enemies::EnemySpawnerTimer,
    pub mouse: crate::mouse::MousePos,
    /// The player record. It only means anything while `state` is `Game`;
    /// between encounters it holds the previous encounter's last position.
    pub player: Player,
    pub beams: Vec<crate::beams::Beam>,
    pub enemies: Vec<Enemy>,
    /// Milliseconds since process startup, advanced once per tick.
    pub now: u64,
}

/// Where the player stands when an encounter begins.
pub open spec fn player_spawn() -> Vec2 {
    Vec2 { x: -550_000i64, y: 0i64 }
}

/// The three beams of an encounter, one per primary, at their canonical
/// pivots, initially pointing straight right.
pub open spec fn initial_beams() -> Seq<crate::beams::Beam> {
    seq![
        crate::beams::Beam {
            pivot: Pivot(Vec2 { x: -500_000i64, y: 120_000i64 }),
            color: BeamColor::Red,
            translation: Vec2 { x: 0i64, y: 120_000i64 },
        },
        crate::beams::Beam {
            pivot: Pivot(Vec2 { x: -500_000i64, y: 0i64 }),
            color: BeamColor::Green,
            translation: Vec2 { x: 0i64, y: 0i64 },
        },
        crate::beams::Beam {
            pivot: Pivot(Vec2 { x: -500_000i64, y: -120_000i64 }),
            color: BeamColor::Blue,
            translation: Vec2 { x: 0i64, y: -120_000i64 },
        },
    ]
}

impl World {
    /// The beams of a running encounter: exactly the three canonical ones,
    /// with their sprites somewhere inside the world bound.
    pub open spec fn beams_wf(self) -> bool {
        &&& self.beams@.len() == 3
        &&& forall|i: int|
            0 <= i < 3 ==> (#[trigger] self.beams@[i]).pivot == initial_beams()[i].pivot
                && self.beams@[i].color == initial_beams()[i].color
        &&& forall|i: int|
            0 <= i < 3 ==> geom::bounded(
                (#[trigger] self.beams@[i]).translation,
                WORLD_BOUND as int,
            )
    }

    /// Every live enemy sits inside the world bound with a damage timer at or
    /// below the kill threshold.
    pub open spec fn enemies_wf(self) -> bool {
        forall|i: int|
            0 <= i < self.enemies@.len() ==> geom::bounded(
                (#[trigger] self.enemies@[i]).translation,
                WORLD_BOUND as int,
            ) && self.enemies@[i].killable.millis <= KILL_THRESHOLD_MS
    }

    /// The invariant every tick preserves: the spawn timer is inside its
    /// period, the pointer is inside the world bound, a running encounter has
    /// its player in the movement rectangle and its entities well formed, and
    /// outside an encounter no entities exist.
    pub open spec fn wf(self) -> bool {
        &&& self.spawn_timer.0 < SPAWN_PERIOD_MS
        &&& geom::bounded(self.mouse.pos, WORLD_BOUND as int)
        &&& self.state == GameState::Game ==> {
            &&& PLAYER_MIN_X <= self.player.translation.x <= PLAYER_MAX_X
            &&& PLAYER_MIN_Y <= self.player.translation.y <= PLAYER_MAX_Y
            &&& self.beams_wf()
            &&& self.enemies_wf()
            &&& self.start.0 <= self.now
        }
        &&& self.state != GameState::Game ==> self.beams@.len() == 0 && self.enemies@.len() == 0
    }

    /// A fresh world on the menu screen, before any encounter.
    pub fn new() -> (w: World)
        ensures
            w.wf(),
            w.state == GameState::Menu,
            w.health.health == START_HEALTH,
            w.killed.0 == 0,
            w.now == 0,
            w.enemies@.len() == 0,
            w.beams@.len() == 0,
    {
        World {
            state: GameState::Menu,
            health: crate::player::PlayerHealth { health: START_HEALTH },
            killed: crate::enemies::EnemiesKilled(0),
            start: GameStartTime(0),
            closest: crate::beams::ClosestBeam(BeamColor::Green),
            spawn_timer: crate::enemies::EnemySpawnerTimer(0),
            mouse: crate::mouse::MousePos { pos: Vec2 { x: 0, y: 0 } },
            player: Player { translation: Vec2 { x: -550_000, y: 0 } },
            beams: Vec::new(),
            enemies: Vec::new(),
            now: 0,
        }
    }
}

/// What entering an encounter does to the world: the mutable encounter state
/// is reset — health to its start value, the score to zero, the encounter
/// clock to now — the three beams appear at their canonical pivots, the
/// player appears at its spawn point, and no enemies exist yet. Everything
/// else carries over.
pub open spec fn entered_game(pre: World, post: World) -> bool {
    &&& post.state == GameState::Game
    &&& post.health.health == START_HEALTH
    &&& post.killed.0 == 0
    &&& post.start.0 == pre.now
    &&& post.now == pre.now
    &&& post.enemies@.len() == 0
    &&& post.player == (Player { translation: player_spawn() })
    &&& post.beams@ == initial_beams()
    &&& post.closest == pre.closest
    &&& post.spawn_timer == pre.spawn_timer
    &&& post.mouse == pre.mouse
}

/// The encounter-entry action: reset the encounter state and spawn the fixed
/// beams and the player.
pub fn game_setup(w: &mut World)
    requires
        old(w).state == GameState::Game,
        old(w).enemies@.len() == 0,
        old(w).spawn_timer.0 < SPAWN_PERIOD_MS,
        geom::bounded(old(w).mouse.pos, WORLD_BOUND as int),
    ensures
        final(w).wf(),
        entered_game(*old(w), *final(w)),
{
    w.health.health = START_HEALTH;
    w.killed.0 = 0;
    w.start.0 = w.now;
    w.player = Player { translation: Vec2 { x: -550_000i64, y: 0i64 } };
    let mut beams: Vec<crate::beams::Beam> = Vec::new();
    beams.push(
        crate::beams::Beam {
            pivot: Pivot(Vec2 { x: -500_000i64, y: 120_000i64 }),
            color: BeamColor::Red,
            translation: Vec2 { x: 0i64, y: 120_000i64 },
        },
    );
    beams.push(
        crate::beams::Beam {
            pivot: Pivot(Vec2 { x: -500_000i64, y: 0i64 }),
            color: BeamColor::Green,
            translation: Vec2 { x: 0i64, y: 0i64 },
        },
    );
    beams.push(
        crate::beams::Beam {
            pivot: Pivot(Vec2 { x: -500_000i64, y: -120_000i64 }),
            color: BeamColor::Blue,
            translation: Vec2 { x: 0i64, y: -120_000i64 },
        },
    );
    proof {
        assert(beams@ =~= initial_beams());
    }
    w.beams = beams;
}

/// The encounter-exit action: destroy every entity the encounter owns.
pub fn cleanup(w: &mut World)
    requires
        old(w).state != GameState::Game,
    ensures
        *final(w) == (World {
            beams: final(w).beams,
            enemies: final(w).enemies,
            ..*old(w)
        }),
        final(w).beams@.len() == 0,
        final(w).enemies@.len() == 0,
{
    w.beams = Vec::new();
    w.enemies = Vec::new();
}

// ---------------------------------------------------------------------------
// The simulation tick
// ---------------------------------------------------------------------------

/// What one simulation tick does to a running encounter, given the values of
/// this tick's two random draws only through [`enemies::spawn_ok`]: the
/// player moves; the closest beam becomes active and is aimed at the pointer;
/// every enemy moves; the combat resolver updates damage timers and removes
/// kills, scoring each; enemies in melee range despawn and each costs one
/// health; the spawner may add one enemy; and a health at or below zero ends
/// the encounter, destroying every entity it owned.
pub open spec fn game_tick_post(
    pre: World,
    post: World,
    keys: crate::player::MoveKeys,
    pointer: Vec2,
    spawn_x: i64,
    dt: u64,
    n_events: int,
) -> bool {
    let p1 = crate::player::player_step(pre.player.translation, keys, dt);
    let active = crate::beams::closest_beam(pre.beams@, p1);
    let beams1 = pre.beams@.map_values(
        |b: crate::beams::Beam| crate::beams::aimed_beam(b, active, pointer),
    );
    let moved = pre.enemies@.map_values(
        |e: Enemy|
            Enemy { translation: crate::enemies::enemy_step(e.translation, p1, dt), ..e },
    );
    let fought = crate::enemies::survivors(moved, beams1, dt);
    let kills = moved.len() - fought.len();
    let standing = crate::enemies::contact_survivors(fought, p1);
    let contacts = fought.len() - standing.len();
    let health1 = pre.health.health - contacts;
    let fired = crate::enemies::timer_fires(pre.spawn_timer.0, dt);
    let dead = health1 <= 0;
    &&& post.player.translation == p1
    &&& post.closest.0 == active
    &&& post.health.health == health1
    &&& post.killed.0 == pre.killed.0 + kills
    &&& n_events == kills
    &&& post.spawn_timer.0 == crate::enemies::timer_after(pre.spawn_timer.0, dt)
    &&& post.start == pre.start
    &&& post.state == if dead {
        GameState::Death
    } else {
        GameState::Game
    }
    &&& if dead {
        post.beams@.len() == 0 && post.enemies@.len() == 0
    } else {
        &&& post.beams@ == beams1
        &&& if fired {
            &&& post.enemies@.len() == standing.len() + 1
            &&& post.enemies@.drop_last() == standing
            &&& crate::enemies::spawn_ok(
                post.enemies@.last(),
                beams1,
                spawn_x,
                ((pre.now + dt) - pre.start.0) as u64,
            )
        } else {
            post.enemies@ == standing
        }
    }
}

/// One simulation tick. Outside an encounter only the clock and the pointer
/// advance; inside one, the systems run in the order the determinism of the
/// combat demands — the player moves, the active beam is selected and aimed,
/// enemies move, the combat resolver and the contact check run, the spawner
/// may fire, and the defeat transition is taken last. Returns one event per
/// enemy the beams destroyed this tick.
pub fn tick(
    w: &mut World,
    keys: crate::player::MoveKeys,
    pointer: Vec2,
    spawn_x: i64,
    dt_ms: u64,
) -> (events: Vec<crate::enemies::EnemyDead>)
    requires
        old(w).wf(),
        dt_ms <= MAX_TICK_MS,
        geom::bounded(pointer, WORLD_BOUND as int),
        -WORLD_BOUND <= spawn_x <= WORLD_BOUND,
        old(w).now + dt_ms <= u64::MAX,
        old(w).state == GameState::Game ==> {
            &&& old(w).health.health as int - old(w).enemies@.len() >= i8::MIN
            &&& old(w).killed.0 + old(w).enemies@.len() <= usize::MAX
            &&& old(w).enemies@.len() < usize::MAX
        },
    ensures
        final(w).wf(),
        final(w).now == old(w).now + dt_ms,
        final(w).mouse.pos == pointer,
        old(w).state != GameState::Game ==> {
            &&& final(w).state == old(w).state
            &&& final(w).health == old(w).health
            &&& final(w).killed == old(w).killed
            &&& final(w).start == old(w).start
            &&& final(w).closest == old(w).closest
            &&& final(w).spawn_timer == old(w).spawn_timer
            &&& final(w).player == old(w).player
            &&& final(w).beams@ == old(w).beams@
            &&& final(w).enemies@ == old(w).enemies@
            &&& events@.len() == 0
        },
        old(w).state == GameState::Game ==> game_tick_post(
            *old(w),
            *final(w),
            keys,
            pointer,
            spawn_x,
            dt_ms,
            events@.len() as int,
        ),
{
    let ghost pre = *w;
    w.now = w.now + dt_ms;
    w.mouse.pos = pointer;
    if !(w.state == GameState::Game) {
        return Vec::new();
    }
    let ghost p1 = crate::player::player_step(pre.player.translation, keys, dt_ms);
    let ghost active = crate::beams::closest_beam(pre.beams@, p1);
    let ghost beams1 = pre.beams@.map_values(
        |b: crate::beams::Beam| crate::beams::aimed_beam(b, active, pointer),
    );
    let ghost moved = pre.enemies@.map_values(
        |e: Enemy|
            Enemy { translation: crate::enemies::enemy_step(e.translation, p1, dt_ms), ..e },
    );

    crate::player::move_player(&mut w.player, keys, dt_ms);
    proof {
        assert(w.player.translation == p1);
        assert forall|i: int| 0 <= i < 3 implies geom::bounded(
            (#[trigger] pre.beams@[i]).pivot.0,
            WORLD_BOUND as int,
        ) by {
            assert(pre.beams@[i].pivot == initial_beams()[i].pivot);
        }
    }
    crate::beams::update_closest_beam(&w.player, &w.beams, &mut w.closest);
    proof {
        assert(w.closest.0 == active);
        assert forall|i: int| 0 <= i < 3 implies geom::bounded(
            (#[trigger] pre.beams@[i]).pivot.0,
            WORLD_BOUND as int - BEAM_LENGTH as int / 2,
        ) by {
            assert(pre.beams@[i].pivot == initial_beams()[i].pivot);
        }
    }
    crate::beams::move_light_beam(&mut w.beams, &w.closest, &w.mouse);
    proof {
        assert(w.beams@ =~= beams1);
        assert forall|i: int| 0 <= i < beams1.len() implies geom::bounded(
            (#[trigger] beams1[i]).translation,
            WORLD_BOUND as int,
        ) && geom::bounded(beams1[i].pivot.0, WORLD_BOUND as int) by {
            assert(beams1[i] == crate::beams::aimed_beam(pre.beams@[i], active, pointer));
            assert(pre.beams@[i].pivot == initial_beams()[i].pivot);
        }
    }
    crate::enemies::move_enemies(&mut w.enemies, &w.player, dt_ms);
    proof {
        assert(w.enemies@ =~= moved);
        assert forall|i: int| 0 <= i < moved.len() implies geom::bounded(
            (#[trigger] moved[i]).translation,
            WORLD_BOUND as int,
        ) && moved[i].killable.millis <= KILL_THRESHOLD_MS by {
            assert(moved[i] == (Enemy {
                translation: crate::enemies::enemy_step(
                    pre.enemies@[i].translation,
                    p1,
                    dt_ms,
                ),
                ..pre.enemies@[i]
            }));
        }
    }
    let events = crate::enemies::damage_enemies(&mut w.enemies, &w.beams, dt_ms, &mut w.killed);
    let ghost fought = crate::enemies::survivors(moved, beams1, dt_ms);
    proof {
        assert(w.enemies@ == fought);
        crate::enemies::lemma_survivors_bounds(moved, beams1, dt_ms);
    }
    crate::enemies::damage_player(&mut w.enemies, &w.player, &mut w.health);
    let ghost standing = crate::enemies::contact_survivors(fought, p1);
    proof {
        assert(w.enemies@ == standing);
        crate::enemies::lemma_contact_survivors_bounds(fought, p1);
    }
    let elapsed = w.now - w.start.0;
    crate::enemies::spawn_enemies(
        &mut w.spawn_timer,
        &mut w.enemies,
        &w.beams,
        spawn_x,
        elapsed,
        dt_ms,
    );
    crate::player::end_game_if_health_is_0(&w.health, &mut w.state);
    if !(w.state == GameState::Game) {
        cleanup(w);
    }
    proof {
        if w.state == GameState::Game {
            if crate::enemies::timer_fires(pre.spawn_timer.0, dt_ms) {
                let last = w.enemies@.last();
                assert(crate::enemies::spawn_ok(last, beams1, spawn_x, elapsed));
                let k = choose|k: int|
                    0 <= k < beams1.len() && last.translation.y == (#[trigger] beams1[k]).pivot.0.y;
                assert(beams1[k] == crate::beams::aimed_beam(pre.beams@[k], active, pointer));
                assert(beams1[k].pivot == initial_beams()[k].pivot);
                assert(geom::bounded(last.translation, WORLD_BOUND as int));
                assert forall|i: int| 0 <= i < w.enemies@.len() implies geom::bounded(
                    (#[trigger] w.enemies@[i]).translation,
                    WORLD_BOUND as int,
                ) && w.enemies@[i].killable.millis <= KILL_THRESHOLD_MS by {
                    if i < w.enemies@.len() - 1 {
                        assert(w.enemies@.drop_last()[i] == w.enemies@[i]);
                        assert(w.enemies@[i] == standing[i]);
                    } else {
                        assert(w.enemies@[i] == last);
                    }
                }
            }
        }
    }
    events
}

/// Advance a sprite-sheet animation by one tick.
pub fn animate_sprite(timer: &mut AnimationTimer, index: &mut usize, frames: usize, dt_ms: u64)
    requires
        frames >= 1,
        old(index) < frames,
        old(timer).timer_ms < ANIMATION_PERIOD_MS,
        dt_ms <= MAX_TICK_MS,
    ensures
        (*final(timer), *final(index) as int) == animation_step(
            *old(timer),
            *old(index) as int,
            frames as int,
            dt_ms,
        ),
        final(timer).timer_ms < ANIMATION_PERIOD_MS,
        final(index) < frames,
{
    if timer.paused {
        *index = 0;
    } else {
        let elapsed = timer.timer_ms + dt_ms;
        if elapsed >= ANIMATION_PERIOD_MS {
            timer.timer_ms = elapsed % ANIMATION_PERIOD_MS;
            *index = (*index + 1) % frames;
        } else {
            timer.timer_ms = elapsed;
        }
    }
}

} // verus!
