//! Why a text is not a transcription.

use vstd::prelude::*;

verus! {

/// The two ways in which reading a transcription fails. Each carries the
/// character at which the reader stopped.
#[derive(Clone, Copy, Debug, PartialEq, Eq, Structural)]
pub enum Error {
    /// A vowel is followed by the palatalization diacritic.
    PalatalizedVowel(char),
    /// The character is no vowel, consonant, diacritic or space.
    NotYetImplemented(char),
}

impl Error {
    /// The text of `message`.
    pub open spec fn message_spec(self) -> Seq<char> {
        match self {
            Error::PalatalizedVowel(c) => "Vowel ("@ + seq![c] + ") cannot be palatalized"@,
            Error::NotYetImplemented(c) => "'"@ + seq![c] + "' is not yet implemented"@,
        }
    }

    /// A sentence for the user, naming the character.
    pub fn message(&self) -> (text: String)
        ensures
            text@ == self.message_spec(),
    {
        match self {
            Error::PalatalizedVowel(c) => {
                let mut text = "Vowel (".to_owned();
                text.push(*c);
                text.append(") cannot be palatalized");
                text
            },
            Error::NotYetImplemented(c) => {
                let mut text = "'".to_owned();
                text.push(*c);
                text.append("' is not yet implemented");
                text
            },
        }
    }
}

} // verus!
