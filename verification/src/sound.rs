//! One sound of a transcription, and how it is written.

use vstd::prelude::*;
use crate::phoneme::{Consonants, Vowels, LENGTH, PALATALIZATION, SPACE};

verus! {

/// IPA sounds.
///
/// Only a consonant can be palatalized: the vowel has no such field.
#[derive(Clone, Copy, Debug, PartialEq, Eq, PartialOrd, Structural)]
#[allow(inconsistent_fields)]
pub enum Sound {
    Vowel { phoneme: Vowels, is_long: bool },
    Consonant { phoneme: Consonants, is_long: bool, is_palatalized: bool },
    /// The boundary between two words.
    Space,
}

/// The diacritic `c` where `present`, and nothing otherwise.
pub open spec fn mark(present: bool, c: char) -> Seq<char> {
    if present {
        seq![c]
    } else {
        Seq::empty()
    }
}

impl Sound {
    /// The characters that stand for this sound: the phoneme's symbol, then
    /// the palatalization mark, then the length mark.
    pub open spec fn text(self) -> Seq<char> {
        match self {
            Sound::Vowel { phoneme, is_long } => seq![phoneme.symbol()] + mark(is_long, LENGTH),
            Sound::Consonant { phoneme, is_long, is_palatalized } => seq![phoneme.symbol()] + mark(
                is_palatalized,
                PALATALIZATION,
            ) + mark(is_long, LENGTH),
            Sound::Space => seq![SPACE],
        }
    }

    /// Appends the characters of this sound to `out`.
    pub fn write_to(self, out: &mut String)
        ensures
            final(out)@ == old(out)@ + self.text(),
    {
        match self {
            Sound::Vowel { phoneme, is_long } => {
                out.push(char::from(phoneme));
                if is_long {
                    out.push(LENGTH);
                }
            },
            Sound::Consonant { phoneme, is_long, is_palatalized } => {
                out.push(char::from(phoneme));
                if is_palatalized {
                    out.push(PALATALIZATION);
                }
                if is_long {
                    out.push(LENGTH);
                }
            },
            Sound::Space => {
                out.push(SPACE);
            },
        }
    }
}

} // verus!
