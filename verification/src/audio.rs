//! Which note plays when enemies die: the kill jingle walks a fixed melody,
//! one note per tick that saw at least one kill. Mixing and playback live
//! with the audio layer.

use vstd::prelude::*;

use crate::enemies::EnemyDead;

verus! {

/// A note of the kill melody.
#[derive(Clone, Copy, PartialEq, Eq, Structural, Debug)]
pub enum Note {
    C,
    D,
    E,
    F,
    G,
}

/// The fixed sixteen-note kill melody.
pub open spec fn melody() -> Seq<Note> {
    seq![
        Note::C,
        Note::G,
        Note::E,
        Note::D,
        Note::C,
        Note::E,
        Note::D,
        Note::F,
        Note::C,
        Note::E,
        Note::D,
        Note::G,
        Note::C,
        Note::F,
        Note::E,
        Note::D,
    ]
}

/// Pick the note for this tick's kills: none without a kill event; otherwise
/// the next note of the melody, advancing the cursor.
pub fn play_audio_when_enemy_dies(enemy_death: &Vec<EnemyDead>, idx: &mut usize) -> (note: Option<
    Note,
>)
    requires
        *old(idx) < usize::MAX,
    ensures
        enemy_death@.len() == 0 ==> note is None && *final(idx) == *old(idx),
        enemy_death@.len() > 0 ==> note == Some(melody()[*old(idx) as int % 16]) && *final(idx)
            == *old(idx) + 1,
{
    if enemy_death.len() == 0 {
        return None;
    }
    let j = *idx % 16;
    *idx = *idx + 1;
    let note = match j {
        0 => Note::C,
        1 => Note::G,
        2 => Note::E,
        3 => Note::D,
        4 => Note::C,
        5 => Note::E,
        6 => Note::D,
        7 => Note::F,
        8 => Note::C,
        9 => Note::E,
        10 => Note::D,
        11 => Note::G,
        12 => Note::C,
        13 => Note::F,
        14 => Note::E,
        _ => Note::D,
    };
    Some(note)
}

} // verus!
