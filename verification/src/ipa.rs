//! A transcription: a sequence of sounds that is read from text once and
//! never changed afterwards.

use std::ops::Deref;
use vstd::prelude::*;
use vstd::std_specs::convert::TryFromSpecImpl;
use crate::error::Error;
use crate::grammar::{
    format_spec, lemma_format_push, lemma_scan_error_is_final, parse_spec, scan, step_at,
};
use crate::phoneme::{Consonants, Vowels, LENGTH, PALATALIZATION, SPACE};
use crate::sound::Sound;

verus! {

/// Struct containing a sequence of IPA sounds.
///
/// It is made by `Ipa::try_from` from a `&str` or a `String`, is written
/// back by `to_string`, and dereferences to the slice of its sounds.
#[derive(Debug, PartialEq, Eq)]
pub struct Ipa(Vec<Sound>);

impl View for Ipa {
    type V = Seq<Sound>;

    /// The sounds, in reading order.
    closed spec fn view(&self) -> Seq<Sound> {
        self.0@
    }
}

/// The result of a reading, with the transcription taken by its sounds.
pub open spec fn outcome(result: Result<Ipa, Error>) -> Result<Seq<Sound>, Error> {
    match result {
        Ok(ipa) => Ok(ipa@),
        Err(e) => Err(e),
    }
}

/// The characters of `text`, in order.
fn chars_of(text: &str) -> (chars: Vec<char>)
    ensures
        chars@ == text@,
{
    let mut chars: Vec<char> = Vec::new();
    let source = text.chars();
    for c in it: source
        invariant
            it.seq() == text@,
            chars@ == it.seq().take(it.index()),
    {
        chars.push(c);
    }
    chars
}

/// What the position `i` of `text` contributes to the transcription.
fn read_at(text: &Vec<char>, i: usize) -> (step: Option<Result<Sound, Error>>)
    requires
        i < text.len(),
    ensures
        step == step_at(text@, i as int),
{
    let len = text.len();
    let is_palatalized = i + 1 < len && text[i + 1] == PALATALIZATION;
    let is_long = if is_palatalized {
        i + 2 < len && text[i + 2] == LENGTH
    } else {
        i + 1 < len && text[i + 1] == LENGTH
    };
    let c = text[i];
    if c == PALATALIZATION || c == LENGTH {
        None
    } else if c == SPACE {
        Some(Ok(Sound::Space))
    } else {
        match (Consonants::from_char(c), Vowels::from_char(c)) {
            (Some(phoneme), _) => Some(Ok(Sound::Consonant { phoneme, is_long, is_palatalized })),
            (_, Some(phoneme)) => if is_palatalized {
                Some(Err(Error::PalatalizedVowel(c)))
            } else {
                Some(Ok(Sound::Vowel { phoneme, is_long }))
            },
            _ => Some(Err(Error::NotYetImplemented(c))),
        }
    }
}

impl TryFrom<&str> for Ipa {
    type Error = Error;

    /// Reads a transcription. The result is the one that the grammar gives
    /// for the characters of `text`: the sounds in reading order, or the
    /// error of the first position that cannot be read.
    fn try_from(text: &str) -> (result: Result<Ipa, Error>)
        ensures
            outcome(result) == parse_spec(text@),
    {
        let chars = chars_of(text);
        let mut sounds: Vec<Sound> = Vec::new();
        let mut i: usize = 0;
        while i < chars.len()
            invariant
                chars@ == text@,
                i <= chars.len(),
                scan(chars@, i as int) == Ok::<Seq<Sound>, Error>(sounds@),
            decreases chars.len() - i,
        {
            match read_at(&chars, i) {
                None => {},
                Some(Ok(sound)) => {
                    sounds.push(sound);
                },
                Some(Err(e)) => {
                    proof {
                        assert(scan(chars@, i + 1) == Err::<Seq<Sound>, Error>(e));
                        lemma_scan_error_is_final(chars@, i + 1, chars@.len() as int);
                    }
                    return Err(e);
                },
            }
            i += 1;
        }
        Ok(Ipa(sounds))
    }
}

impl TryFromSpecImpl<&str> for Ipa {
    /// The conversion is specified by its own `ensures`, over the sounds of
    /// the result, and not as an equation between two values of `Ipa`.
    open spec fn obeys_try_from_spec() -> bool {
        false
    }

    open spec fn try_from_spec(text: &str) -> Result<Ipa, Error> {
        arbitrary()
    }
}

impl TryFrom<String> for Ipa {
    type Error = Error;

    /// Reads a transcription from an owned string, as from a `&str`.
    fn try_from(text: String) -> (result: Result<Ipa, Error>)
        ensures
            outcome(result) == parse_spec(text@),
    {
        Ipa::try_from(text.as_str())
    }
}

impl TryFromSpecImpl<String> for Ipa {
    /// As for `&str`.
    open spec fn obeys_try_from_spec() -> bool {
        false
    }

    open spec fn try_from_spec(text: String) -> Result<Ipa, Error> {
        arbitrary()
    }
}

impl Ipa {
    /// Writes the transcription: the texts of its sounds, one after the
    /// other, with nothing between them.
    pub fn to_string(&self) -> (text: String)
        ensures
            text@ == format_spec(self@),
    {
        let mut text = String::new();
        let mut i: usize = 0;
        while i < self.0.len()
            invariant
                i <= self.0.len(),
                text@ == format_spec(self.0@.take(i as int)),
            decreases self.0.len() - i,
        {
            proof {
                lemma_format_push(self.0@.take(i as int), self.0@[i as int]);
                assert(self.0@.take(i + 1) == self.0@.take(i as int).push(self.0@[i as int]));
            }
            self.0[i].write_to(&mut text);
            i += 1;
        }
        assert(self.0@.take(i as int) == self.0@);
        text
    }
}

impl Deref for Ipa {
    type Target = [Sound];

    /// The sounds, for reading only.
    fn deref(&self) -> (sounds: &[Sound])
        ensures
            sounds@ == self@,
    {
        self.0.as_slice()
    }
}

impl Clone for Ipa {
    /// A transcription with the same sounds.
    fn clone(&self) -> (copy: Self)
        ensures
            copy@ == self@,
    {
        Ipa(self.0.clone())
    }
}

} // verus!
