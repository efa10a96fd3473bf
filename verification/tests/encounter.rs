//! The encounter as a whole: beam selection, aiming, the screen flow, the
//! full tick, player movement, the readouts, the kill jingle, and sprites.

use luminity::audio::{play_audio_when_enemy_dies, Note};
use luminity::beams::{move_light_beam, update_closest_beam, Beam, ClosestBeam};
use luminity::death_screen::death_screen;
use luminity::enemies::EnemyDead;
use luminity::geom::Vec2;
use luminity::menu::menu;
use luminity::mouse::MousePos;
use luminity::player::{change_player_sprite, move_player, MoveKeys, PlayerHealth, PlayerSprite};
use luminity::ui::{
    i64_to_string, u64_to_string, update_player_health_ui, update_points_ui, PlayerHealthText,
    PointsText,
};
use luminity::{
    animate_sprite, tick, AnimationTimer, BeamColor, Colour, Enemy, GameState, Killable, Pivot,
    Player, World,
};

fn canonical_beams() -> Vec<Beam> {
    vec![
        Beam {
            pivot: Pivot(Vec2 {
                x: -500_000,
                y: 120_000,
            }),
            color: BeamColor::Red,
            translation: Vec2 { x: 0, y: 120_000 },
        },
        Beam {
            pivot: Pivot(Vec2 { x: -500_000, y: 0 }),
            color: BeamColor::Green,
            translation: Vec2 { x: 0, y: 0 },
        },
        Beam {
            pivot: Pivot(Vec2 {
                x: -500_000,
                y: -120_000,
            }),
            color: BeamColor::Blue,
            translation: Vec2 {
                x: 0,
                y: -120_000,
            },
        },
    ]
}

const NO_KEYS: MoveKeys = MoveKeys {
    up: false,
    down: false,
    left: false,
    right: false,
};

/// With pivots at rows 120, 0 and -120 and the player on row 0, the selector
/// picks the beam at row 0 — and the choice repeats for identical inputs.
#[test]
fn selector_picks_the_row_zero_beam() {
    let beams = canonical_beams();
    let player = Player {
        translation: Vec2 { x: -550_000, y: 0 },
    };
    let mut closest = ClosestBeam(BeamColor::Red);
    update_closest_beam(&player, &beams, &mut closest);
    assert_eq!(closest.0, BeamColor::Green);
    update_closest_beam(&player, &beams, &mut closest);
    assert_eq!(closest.0, BeamColor::Green);
}

/// Moving the player up selects the top beam.
#[test]
fn selector_follows_the_player() {
    let beams = canonical_beams();
    let player = Player {
        translation: Vec2 {
            x: -550_000,
            y: 130_000,
        },
    };
    let mut closest = ClosestBeam(BeamColor::Green);
    update_closest_beam(&player, &beams, &mut closest);
    assert_eq!(closest.0, BeamColor::Red);
}

/// Aiming scales a 3-4-5 offset exactly, only for the active beam, and
/// mirrors the pointer's horizontal offset to one side.
#[test]
fn aiming_moves_only_the_active_beam() {
    let mut beams = canonical_beams();
    let closest = ClosestBeam(BeamColor::Green);
    let mouse = MousePos {
        pos: Vec2 {
            x: -200_000,
            y: 400_000,
        },
    };
    move_light_beam(&mut beams, &closest, &mouse);
    // Offset (300, 400) has length 500; scaled to half a beam length (500).
    assert_eq!(
        beams[1].translation,
        Vec2 {
            x: -200_000,
            y: 400_000
        }
    );
    // Inactive beams keep their heading.
    assert_eq!(beams[0].translation, Vec2 { x: 0, y: 120_000 });
    assert_eq!(beams[2].translation, Vec2 { x: 0, y: -120_000 });

    // A pointer the same distance to the left aims to the same point: the
    // horizontal offset is mirrored.
    let mouse_left = MousePos {
        pos: Vec2 {
            x: -800_000,
            y: 400_000,
        },
    };
    let mut beams2 = canonical_beams();
    move_light_beam(&mut beams2, &closest, &mouse_left);
    assert_eq!(
        beams2[1].translation,
        Vec2 {
            x: -200_000,
            y: 400_000
        }
    );
}

/// Player movement scales with the tick delta and clamps to the rectangle.
#[test]
fn player_moves_and_clamps() {
    let mut player = Player {
        translation: Vec2 { x: -550_000, y: 0 },
    };
    let up = MoveKeys {
        up: true,
        down: false,
        left: false,
        right: false,
    };
    move_player(&mut player, up, 100);
    assert_eq!(player.translation, Vec2 { x: -550_000, y: 15_000 });

    // Keep holding up for ten seconds: pinned to the top edge.
    move_player(&mut player, up, 10_000);
    assert_eq!(player.translation.y, 140_000);

    let left = MoveKeys {
        up: false,
        down: false,
        left: true,
        right: false,
    };
    move_player(&mut player, left, 10_000);
    assert_eq!(player.translation.x, -600_000);

    // Opposing keys cancel.
    let both = MoveKeys {
        up: true,
        down: true,
        left: false,
        right: false,
    };
    let before = player.translation;
    move_player(&mut player, both, 1_000);
    assert_eq!(player.translation, before);
}

/// Entering an encounter resets everything; dying ends it; retrying resets it
/// again with no enemy of the previous encounter left.
#[test]
fn phase_flow_resets_the_encounter() {
    let mut w = World::new();
    assert_eq!(w.state, GameState::Menu);

    // A tick on the menu is a no-op for the simulation.
    let events = tick(&mut w, NO_KEYS, Vec2 { x: 0, y: 0 }, 690_000, 16);
    assert!(events.is_empty());
    assert_eq!(w.state, GameState::Menu);
    assert_eq!(w.now, 16);

    // Click play: the encounter starts fresh.
    menu(&mut w, true);
    assert_eq!(w.state, GameState::Game);
    assert_eq!(w.health.health, 30);
    assert_eq!(w.killed.0, 0);
    assert_eq!(w.start.0, 16);
    assert_eq!(w.beams.len(), 3);
    assert!(w.enemies.is_empty());
    assert_eq!(
        w.player.translation,
        Vec2 {
            x: -550_000,
            y: 0
        }
    );

    // Put an enemy on the player and drain health to one: the next tick
    // destroys the enemy by contact, health reaches zero, and the encounter
    // ends with all entities gone.
    w.health.health = 1;
    w.enemies.push(Enemy {
        translation: Vec2 { x: -550_000, y: 0 },
        colour: Colour::Red,
        killable: Killable {
            millis: 0,
            under_damage: false,
        },
    });
    tick(&mut w, NO_KEYS, Vec2 { x: 0, y: 0 }, 690_000, 16);
    assert_eq!(w.state, GameState::Death);
    assert_eq!(w.health.health, 0);
    assert!(w.enemies.is_empty());
    assert!(w.beams.is_empty());

    // Retry: health 30, score 0, and no enemy from the prior encounter.
    death_screen(&mut w, true);
    assert_eq!(w.state, GameState::Game);
    assert_eq!(w.health.health, 30);
    assert_eq!(w.killed.0, 0);
    assert!(w.enemies.is_empty());
    assert_eq!(w.beams.len(), 3);
}

/// Ticks while assets load or while a menu is up only advance the clock and
/// the pointer.
#[test]
fn non_game_screens_are_simulation_noops() {
    let mut w = World::new();
    w.state = GameState::Loading;
    let events = tick(
        &mut w,
        NO_KEYS,
        Vec2 {
            x: 5_000,
            y: -7_000,
        },
        690_000,
        33,
    );
    assert!(events.is_empty());
    assert_eq!(w.state, GameState::Loading);
    assert_eq!(w.now, 33);
    assert_eq!(w.mouse.pos, Vec2 { x: 5_000, y: -7_000 });
    assert_eq!(w.health.health, 30);
    assert!(w.enemies.is_empty());
}

/// A full second of ticks inside an encounter makes the spawner fire exactly
/// once, with an early-tier color on a beam row.
#[test]
fn tick_spawns_after_one_second() {
    let mut w = World::new();
    menu(&mut w, true);
    for _ in 0..10 {
        tick(&mut w, NO_KEYS, Vec2 { x: 0, y: 0 }, 690_000, 100);
    }
    assert_eq!(w.enemies.len(), 1);
    let e = &w.enemies[0];
    assert_eq!(e.translation.x, 690_000);
    assert!([120_000, 0, -120_000].contains(&e.translation.y));
    assert!(matches!(
        e.colour,
        Colour::Red | Colour::Green | Colour::Blue
    ));
    assert_eq!(w.now, 1_000);
}

/// The tick aims the selected beam and counts kills through the resolver: a
/// red enemy parked on the aimed red beam's line dies after two seconds and
/// scores one.
#[test]
fn tick_resolves_combat_end_to_end() {
    let mut w = World::new();
    menu(&mut w, true);
    // Put a red enemy on the top row, right of the approach line: it drifts
    // straight left along the row, which is exactly the red beam's initial
    // line. The player stays on row zero, so the green beam is the one
    // selected and aimed; the red beam keeps its heading the whole time.
    w.enemies.push(Enemy {
        translation: Vec2 {
            x: 300_000,
            y: 120_000,
        },
        colour: Colour::Red,
        killable: Killable {
            millis: 0,
            under_damage: false,
        },
    });
    // The enemy homes toward the player very slowly compared to the beam's
    // reach; run 2.1 seconds in 100 ms ticks and count the kill events.
    let mut kill_events = 0;
    for _ in 0..21 {
        let events = tick(&mut w, NO_KEYS, Vec2 { x: 0, y: 0 }, 690_000, 100);
        kill_events += events.len();
    }
    assert_eq!(kill_events, 1);
    assert_eq!(w.killed.0, 1);
}

/// The readouts render the exact strings the screen shows.
#[test]
fn readouts_render_exact_text() {
    let mut text = PlayerHealthText {
        value: String::new(),
    };
    update_player_health_ui(&PlayerHealth { health: 30 }, &mut text);
    assert_eq!(text.value, "health: 30");
    update_player_health_ui(&PlayerHealth { health: -2 }, &mut text);
    assert_eq!(text.value, "health: -2");

    let mut points = PointsText {
        value: String::new(),
    };
    update_points_ui(&luminity::enemies::EnemiesKilled(0), &mut points);
    assert_eq!(points.value, "points: 0");
    update_points_ui(&luminity::enemies::EnemiesKilled(12_340), &mut points);
    assert_eq!(points.value, "points: 12340");

    assert_eq!(u64_to_string(0), "0");
    assert_eq!(u64_to_string(90_210), "90210");
    assert_eq!(i64_to_string(-1), "-1");
    assert_eq!(i64_to_string(i64::MIN), "-9223372036854775808");
}

/// The kill jingle advances one melody note per tick with a kill.
#[test]
fn kill_jingle_walks_the_melody() {
    let mut idx = 0usize;
    let none: Vec<EnemyDead> = Vec::new();
    assert_eq!(play_audio_when_enemy_dies(&none, &mut idx), None);
    assert_eq!(idx, 0);

    let one = vec![EnemyDead];
    let expected = [
        Note::C,
        Note::G,
        Note::E,
        Note::D,
        Note::C,
        Note::E,
        Note::D,
        Note::F,
        Note::C,
        Note::E,
        Note::D,
        Note::G,
        Note::C,
        Note::F,
        Note::E,
        Note::D,
        // and the melody wraps
        Note::C,
        Note::G,
    ];
    for (k, want) in expected.iter().enumerate() {
        assert_eq!(play_audio_when_enemy_dies(&one, &mut idx), Some(*want));
        assert_eq!(idx, k + 1);
    }
}

/// The player's face follows the nearest enemy: sad under 100 units, neutral
/// under 400, happy otherwise.
#[test]
fn player_sprite_tracks_nearest_enemy() {
    let player = Player {
        translation: Vec2 { x: -550_000, y: 0 },
    };
    let far = vec![Enemy {
        translation: Vec2 { x: -250_000, y: 0 },
        colour: Colour::Red,
        killable: Killable {
            millis: 0,
            under_damage: false,
        },
    }];
    assert_eq!(change_player_sprite(&player, &far), PlayerSprite::Neutral);

    let near = vec![Enemy {
        translation: Vec2 {
            x: -460_000,
            y: 0,
        },
        colour: Colour::Red,
        killable: Killable {
            millis: 0,
            under_damage: false,
        },
    }];
    assert_eq!(change_player_sprite(&player, &near), PlayerSprite::Sad);

    let none: Vec<Enemy> = Vec::new();
    assert_eq!(change_player_sprite(&player, &none), PlayerSprite::Happy);
}

/// The sprite animation wraps its frame on each full period and rests at
/// frame zero while paused.
#[test]
fn sprite_animation_wraps_frames() {
    let mut timer = AnimationTimer {
        timer_ms: 0,
        paused: false,
    };
    let mut index = 0usize;
    animate_sprite(&mut timer, &mut index, 2, 60);
    assert_eq!(index, 0);
    assert_eq!(timer.timer_ms, 60);
    animate_sprite(&mut timer, &mut index, 2, 60);
    assert_eq!(index, 1);
    assert_eq!(timer.timer_ms, 20);
    animate_sprite(&mut timer, &mut index, 2, 80);
    assert_eq!(index, 0);

    timer.paused = true;
    index = 1;
    animate_sprite(&mut timer, &mut index, 2, 60);
    assert_eq!(index, 0);
}
