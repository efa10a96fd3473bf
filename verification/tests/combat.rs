//! The combat resolver: the dual hit test, damage over time, the kill
//! threshold, contact damage, and enemy movement.

use luminity::beams::Beam;
use luminity::enemies::{damage_enemies, damage_player, move_enemies, EnemiesKilled};
use luminity::geom::Vec2;
use luminity::player::PlayerHealth;
use luminity::{Colour, Enemy, Killable, Pivot, Player};

/// The three canonical beams, each pointing straight right so its line is the
/// horizontal through its pivot.
fn canonical_beams() -> Vec<Beam> {
    vec![
        Beam {
            pivot: Pivot(Vec2 {
                x: -500_000,
                y: 120_000,
            }),
            color: luminity::BeamColor::Red,
            translation: Vec2 { x: 0, y: 120_000 },
        },
        Beam {
            pivot: Pivot(Vec2 { x: -500_000, y: 0 }),
            color: luminity::BeamColor::Green,
            translation: Vec2 { x: 0, y: 0 },
        },
        Beam {
            pivot: Pivot(Vec2 {
                x: -500_000,
                y: -120_000,
            }),
            color: luminity::BeamColor::Blue,
            translation: Vec2 {
                x: 0,
                y: -120_000,
            },
        },
    ]
}

fn fresh_enemy(x: i64, y: i64, colour: Colour) -> Enemy {
    Enemy {
        translation: Vec2 { x, y },
        colour,
        killable: Killable {
            millis: 0,
            under_damage: false,
        },
    }
}

/// A magenta enemy needs red and blue at once; on the red beam's line alone
/// its timer must not advance across a full simulated second.
#[test]
fn partial_match_never_advances_the_timer() {
    let beams = canonical_beams();
    let mut enemies = vec![fresh_enemy(0, 120_000, Colour::Magenta)];
    let mut killed = EnemiesKilled(0);
    for _ in 0..4 {
        let events = damage_enemies(&mut enemies, &beams, 250, &mut killed);
        assert!(events.is_empty());
    }
    assert_eq!(enemies.len(), 1);
    assert_eq!(enemies[0].killable.millis, 0);
    assert!(!enemies[0].killable.under_damage);
    assert_eq!(killed.0, 0);
}

/// A red enemy on the red beam's line takes continuous damage and dies just
/// past two simulated seconds, scoring exactly one point.
#[test]
fn sustained_full_match_kills_after_threshold() {
    let beams = canonical_beams();
    let mut enemies = vec![fresh_enemy(0, 120_000, Colour::Red)];
    let mut killed = EnemiesKilled(0);
    for tick in 1..=8 {
        let events = damage_enemies(&mut enemies, &beams, 250, &mut killed);
        assert!(events.is_empty());
        assert_eq!(enemies.len(), 1);
        assert_eq!(enemies[0].killable.millis, 250 * tick);
        assert!(enemies[0].killable.under_damage);
    }
    // 2000 ms accumulated: the threshold is strict, one more tick kills.
    let events = damage_enemies(&mut enemies, &beams, 250, &mut killed);
    assert_eq!(events.len(), 1);
    assert!(enemies.is_empty());
    assert_eq!(killed.0, 1);
}

/// A white enemy needs all three primaries; two are not enough, three are.
#[test]
fn white_needs_all_three_beams() {
    let mut beams = canonical_beams();
    // Aim all three lines through the origin row by centring their sprites
    // there: a beam hits what is near the line through sprite and pivot.
    beams[0].translation = Vec2 { x: 0, y: 0 };
    beams[2].translation = Vec2 { x: 0, y: 0 };
    // Red's line now runs from (-500, 120) through (0, 0); likewise blue
    // from below. The enemy sits where all three lines cross.
    let mut enemies = vec![fresh_enemy(0, 0, Colour::White)];
    let mut killed = EnemiesKilled(0);
    damage_enemies(&mut enemies, &beams, 100, &mut killed);
    assert_eq!(enemies[0].killable.millis, 100);
    assert!(enemies[0].killable.under_damage);

    // Point blue elsewhere: the match is partial again and the timer holds.
    beams[2].translation = Vec2 {
        x: -500_000,
        y: -800_000,
    };
    damage_enemies(&mut enemies, &beams, 100, &mut killed);
    assert_eq!(enemies[0].killable.millis, 100);
    assert!(!enemies[0].killable.under_damage);
}

/// The range gate: an enemy on the beam's infinite line but farther from the
/// pivot than a beam length plus half a radius is not hit.
#[test]
fn range_gate_cuts_the_infinite_line() {
    let beams = canonical_beams();
    // On red's line, 1100 units from its pivot: beyond 1000 + 25 of slack.
    let mut enemies = vec![fresh_enemy(600_000, 120_000, Colour::Red)];
    let mut killed = EnemiesKilled(0);
    damage_enemies(&mut enemies, &beams, 500, &mut killed);
    assert_eq!(enemies[0].killable.millis, 0);

    // Just inside the cutoff (1024 units) it is hit.
    enemies[0].translation = Vec2 {
        x: 524_000,
        y: 120_000,
    };
    damage_enemies(&mut enemies, &beams, 500, &mut killed);
    assert_eq!(enemies[0].killable.millis, 500);
}

/// A beam whose sprite sits exactly on its pivot has no line and hits
/// nothing.
#[test]
fn degenerate_beam_hits_nothing() {
    let mut beams = canonical_beams();
    beams[0].translation = beams[0].pivot.0;
    let mut enemies = vec![fresh_enemy(-500_000, 120_000, Colour::Red)];
    let mut killed = EnemiesKilled(0);
    damage_enemies(&mut enemies, &beams, 500, &mut killed);
    assert_eq!(enemies[0].killable.millis, 0);
}

/// Contact damage: an enemy 54 units from the player despawns and costs one
/// health; one at 56 units is unaffected.
#[test]
fn contact_damage_at_melee_range() {
    let player = Player {
        translation: Vec2 { x: -550_000, y: 0 },
    };
    let mut health = PlayerHealth { health: 30 };
    let mut enemies = vec![
        fresh_enemy(-550_000 + 54_000, 0, Colour::Red),
        fresh_enemy(-550_000 + 56_000, 0, Colour::Blue),
    ];
    damage_player(&mut enemies, &player, &mut health);
    assert_eq!(enemies.len(), 1);
    assert_eq!(enemies[0].translation.x, -550_000 + 56_000);
    assert_eq!(health.health, 29);
}

/// Several enemies in melee range in one tick each cost one health.
#[test]
fn simultaneous_contacts_stack() {
    let player = Player {
        translation: Vec2 { x: -550_000, y: 0 },
    };
    let mut health = PlayerHealth { health: 30 };
    let mut enemies = vec![
        fresh_enemy(-550_000, 10_000, Colour::Red),
        fresh_enemy(-550_000, -10_000, Colour::Blue),
        fresh_enemy(-550_000, 20_000, Colour::Cyan),
    ];
    damage_player(&mut enemies, &player, &mut health);
    assert!(enemies.is_empty());
    assert_eq!(health.health, 27);
}

/// Enemies drift straight left until the approach line, then home on the
/// player at the same speed.
#[test]
fn enemies_drift_then_home() {
    let player = Player {
        translation: Vec2 { x: -550_000, y: 0 },
    };
    // Drifting: 50 units per second, straight left.
    let mut enemies = vec![fresh_enemy(0, 120_000, Colour::Red)];
    move_enemies(&mut enemies, &player, 1_000);
    assert_eq!(enemies[0].translation, Vec2 { x: -50_000, y: 120_000 });

    // Homing: from the approach line straight toward the player.
    let mut enemies = vec![fresh_enemy(-500_000, 0, Colour::Red)];
    move_enemies(&mut enemies, &player, 100);
    assert_eq!(enemies[0].translation, Vec2 { x: -505_000, y: 0 });

    // An enemy exactly on the player stays put.
    let mut enemies = vec![fresh_enemy(-550_000, 0, Colour::Red)];
    move_enemies(&mut enemies, &player, 100);
    assert_eq!(enemies[0].translation, Vec2 { x: -550_000, y: 0 });
}

/// Movement never touches color or damage state.
#[test]
fn movement_preserves_damage_state() {
    let player = Player {
        translation: Vec2 { x: -550_000, y: 0 },
    };
    let mut enemies = vec![Enemy {
        translation: Vec2 { x: 0, y: 0 },
        colour: Colour::Cyan,
        killable: Killable {
            millis: 1_500,
            under_damage: true,
        },
    }];
    move_enemies(&mut enemies, &player, 250);
    assert_eq!(enemies[0].colour, Colour::Cyan);
    assert_eq!(enemies[0].killable.millis, 1_500);
    assert!(enemies[0].killable.under_damage);
}
