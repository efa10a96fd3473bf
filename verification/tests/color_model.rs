//! The color model: decomposition tables and additive mixing.

use luminity::BeamColor::{Blue, Green, Red};
use luminity::{compose, BeamColor, Colour, Rgba};

fn all_colours() -> Vec<Colour> {
    vec![
        Colour::Red,
        Colour::Green,
        Colour::Blue,
        Colour::Yellow,
        Colour::Magenta,
        Colour::Cyan,
        Colour::White,
    ]
}

#[test]
fn decompose_is_nonempty_subset_of_primaries() {
    for c in all_colours() {
        let parts = c.made_by();
        assert!(!parts.is_empty());
        for p in &parts {
            assert!(matches!(
                p,
                BeamColor::Red | BeamColor::Green | BeamColor::Blue
            ));
        }
    }
}

#[test]
fn decompose_is_stable() {
    for c in all_colours() {
        assert_eq!(c.made_by(), c.made_by());
    }
}

#[test]
fn decompose_tables_are_exact() {
    assert_eq!(Colour::Red.made_by(), vec![Red]);
    assert_eq!(Colour::Green.made_by(), vec![Green]);
    assert_eq!(Colour::Blue.made_by(), vec![Blue]);
    assert_eq!(Colour::Yellow.made_by(), vec![Red, Green]);
    assert_eq!(Colour::Magenta.made_by(), vec![Red, Blue]);
    assert_eq!(Colour::Cyan.made_by(), vec![Green, Blue]);
    assert_eq!(Colour::White.made_by(), vec![Red, Green, Blue]);
}

#[test]
fn composite_display_colors_mix_additively() {
    assert_eq!(
        Colour::Magenta.color(),
        Rgba {
            r: 255,
            g: 0,
            b: 255,
            a: 255
        }
    );
    assert_eq!(
        Colour::White.color(),
        Rgba {
            r: 255,
            g: 255,
            b: 255,
            a: 255
        }
    );
    assert_eq!(
        Colour::Red.color(),
        Rgba {
            r: 255,
            g: 0,
            b: 0,
            a: 255
        }
    );
}

#[test]
fn compose_saturates_and_is_opaque() {
    let doubled = vec![BeamColor::Red, BeamColor::Red];
    assert_eq!(
        compose(&doubled),
        Rgba {
            r: 255,
            g: 0,
            b: 0,
            a: 255
        }
    );
    let empty: Vec<BeamColor> = Vec::new();
    assert_eq!(
        compose(&empty),
        Rgba {
            r: 0,
            g: 0,
            b: 0,
            a: 255
        }
    );
}
