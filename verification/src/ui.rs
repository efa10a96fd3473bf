//! The two gameplay readouts: health and points, as the exact strings the
//! screen shows.

use vstd::prelude::*;
use vstd::string::StringExecFns;

use crate::enemies::EnemiesKilled;
use crate::player::PlayerHealth;

verus! {

/// The health readout: the text currently on screen.
#[derive(PartialEq, Eq, Debug)]
pub struct PlayerHealthText {
    pub value: String,
}

/// The points readout: the text currently on screen.
#[derive(PartialEq, Eq, Debug)]
pub struct PointsText {
    pub value: String,
}

/// The character of one decimal digit.
pub open spec fn digit_char(d: int) -> char {
    if d == 0 {
        '0'
    } else if d == 1 {
        '1'
    } else if d == 2 {
        '2'
    } else if d == 3 {
        '3'
    } else if d == 4 {
        '4'
    } else if d == 5 {
        '5'
    } else if d == 6 {
        '6'
    } else if d == 7 {
        '7'
    } else if d == 8 {
        '8'
    } else {
        '9'
    }
}

/// The decimal digits of a non-negative number, most significant first.
pub open spec fn dec_digits(n: nat) -> Seq<char>
    decreases n,
{
    if n < 10 {
        seq![digit_char(n as int)]
    } else {
        dec_digits(n / 10).push(digit_char((n % 10) as int))
    }
}

/// The decimal rendering of an integer, with a leading minus sign when it is
/// negative.
pub open spec fn dec_int(i: int) -> Seq<char> {
    if i < 0 {
        seq!['-'] + dec_digits((-i) as nat)
    } else {
        dec_digits(i as nat)
    }
}

/// The one-character string of a decimal digit.
fn digit_str(d: u64) -> (s: &'static str)
    requires
        d < 10,
    ensures
        s@ == seq![digit_char(d as int)],
{
    proof {
        reveal_strlit("0");
        reveal_strlit("1");
        reveal_strlit("2");
        reveal_strlit("3");
        reveal_strlit("4");
        reveal_strlit("5");
        reveal_strlit("6");
        reveal_strlit("7");
        reveal_strlit("8");
        reveal_strlit("9");
    }
    match d {
        0 => "0",
        1 => "1",
        2 => "2",
        3 => "3",
        4 => "4",
        5 => "5",
        6 => "6",
        7 => "7",
        8 => "8",
        _ => "9",
    }
}

/// The decimal digits of `n`, as a string.
pub fn u64_to_string(n: u64) -> (s: String)
    ensures
        s@ == dec_digits(n as nat),
    decreases n,
{
    if n < 10 {
        digit_str(n).to_owned()
    } else {
        let mut s = u64_to_string(n / 10);
        s.append(digit_str(n % 10));
        s
    }
}

/// The decimal rendering of `n`, minus sign included.
pub fn i64_to_string(n: i64) -> (s: String)
    ensures
        s@ == dec_int(n as int),
{
    if n < 0 {
        proof {
            reveal_strlit("-");
        }
        let mut s = "-".to_owned();
        let mag: u64 = if n == i64::MIN {
            9_223_372_036_854_775_808u64
        } else {
            (-n) as u64
        };
        let digits = u64_to_string(mag);
        s.append(digits.as_str());
        proof {
            assert(s@ =~= dec_int(n as int));
        }
        s
    } else {
        u64_to_string(n as u64)
    }
}

/// The exact health line the screen shows.
pub open spec fn health_text(h: int) -> Seq<char> {
    "health: "@ + dec_int(h)
}

/// The exact points line the screen shows.
pub open spec fn points_text(n: nat) -> Seq<char> {
    "points: "@ + dec_digits(n)
}

/// Rewrite the health readout from the player's health.
pub fn update_player_health_ui(health: &PlayerHealth, text: &mut PlayerHealthText)
    ensures
        final(text).value@ == health_text(health.health as int),
{
    let mut s = "health: ".to_owned();
    let digits = i64_to_string(health.health as i64);
    s.append(digits.as_str());
    text.value = s;
}

/// Rewrite the points readout from the score.
pub fn update_points_ui(points: &EnemiesKilled, text: &mut PointsText)
    ensures
        final(text).value@ == points_text(points.0 as nat),
{
    let mut s = "points: ".to_owned();
    let digits = u64_to_string(points.0 as u64);
    s.append(digits.as_str());
    text.value = s;
}

} // verus!
