//! What a text means as a transcription, and what a transcription looks like
//! as text.
//!
//! The reader visits every position of the text once, from left to right. At a
//! position that holds a base symbol it looks at most two positions ahead for
//! the diacritics that belong to the symbol. A position that holds a diacritic
//! gives no sound of its own. The first position that cannot be read ends the
//! reading with its error.

use vstd::prelude::*;
use crate::error::Error;
use crate::phoneme::{is_diacritic, Consonants, Vowels, LENGTH, PALATALIZATION, SPACE};
use crate::sound::Sound;

verus! {

/// Whether the palatalization mark stands directly behind position `i`.
pub open spec fn palatalized_at(text: Seq<char>, i: int) -> bool {
    i + 1 < text.len() && text[i + 1] == PALATALIZATION
}

/// Whether the length mark stands directly behind position `i`, or directly
/// behind the palatalization mark that follows position `i`.
pub open spec fn long_at(text: Seq<char>, i: int) -> bool {
    let j = if palatalized_at(text, i) {
        i + 2
    } else {
        i + 1
    };
    j < text.len() && text[j] == LENGTH
}

/// What position `i` of `text` contributes: nothing, a sound, or the error
/// that ends the reading.
pub open spec fn step_at(text: Seq<char>, i: int) -> Option<Result<Sound, Error>>
    recommends
        0 <= i < text.len(),
{
    let c = text[i];
    if is_diacritic(c) {
        None
    } else if c == SPACE {
        Some(Ok(Sound::Space))
    } else if let Some(phoneme) = Consonants::of_symbol(c) {
        Some(
            Ok(
                Sound::Consonant {
                    phoneme,
                    is_long: long_at(text, i),
                    is_palatalized: palatalized_at(text, i),
                },
            ),
        )
    } else if let Some(phoneme) = Vowels::of_symbol(c) {
        if palatalized_at(text, i) {
            Some(Err(Error::PalatalizedVowel(c)))
        } else {
            Some(Ok(Sound::Vowel { phoneme, is_long: long_at(text, i) }))
        }
    } else {
        Some(Err(Error::NotYetImplemented(c)))
    }
}

/// The result of reading the first `k` positions of `text`: the sounds found
/// so far, or the error of the first position that could not be read.
pub open spec fn scan(text: Seq<char>, k: int) -> Result<Seq<Sound>, Error>
    decreases k,
{
    if k <= 0 {
        Ok(Seq::empty())
    } else {
        match scan(text, k - 1) {
            Err(e) => Err(e),
            Ok(sounds) => match step_at(text, k - 1) {
                None => Ok(sounds),
                Some(Ok(sound)) => Ok(sounds.push(sound)),
                Some(Err(e)) => Err(e),
            },
        }
    }
}

/// The transcription that `text` stands for, or the reason why it stands for
/// none.
pub open spec fn parse_spec(text: Seq<char>) -> Result<Seq<Sound>, Error> {
    scan(text, text.len() as int)
}

/// The text of a transcription: the texts of its sounds, one after the other.
pub open spec fn format_spec(sounds: Seq<Sound>) -> Seq<char> {
    sounds.map_values(|sound: Sound| sound.text()).flatten()
}

/// The text grows by the text of each sound that is added at the end.
pub proof fn lemma_format_push(sounds: Seq<Sound>, sound: Sound)
    ensures
        format_spec(sounds.push(sound)) == format_spec(sounds) + sound.text(),
{
    let texts = sounds.map_values(|sound: Sound| sound.text());
    assert(sounds.push(sound).map_values(|sound: Sound| sound.text()) =~= texts.push(sound.text()));
    texts.lemma_flatten_push(sound.text());
}

/// Once a position has failed, the positions behind it change nothing.
pub proof fn lemma_scan_error_is_final(text: Seq<char>, k: int, m: int)
    requires
        k <= m,
        scan(text, k) is Err,
    ensures
        scan(text, m) == scan(text, k),
    decreases m - k,
{
    if k < m {
        lemma_scan_error_is_final(text, k, m - 1);
    }
}

} // verus!
