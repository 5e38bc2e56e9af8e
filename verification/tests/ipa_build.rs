use ipa_sounds::{Consonants, Error, Ipa, Sound, Vowels};

#[test]
fn test_nja() {
    assert_eq!(
        Ipa::try_from("nʲæ").as_deref(),
        Ok(&[
            Sound::Consonant {
                phoneme: Consonants::VoicedAlveolarNasal,
                is_long: false,
                is_palatalized: true
            },
            Sound::Vowel {
                phoneme: Vowels::NearOpenFrontUrounded,
                is_long: false
            }
        ][..])
    );
}

#[test]
fn test_palatalized_vowel() {
    assert_eq!(
        Ipa::try_from("æʲ"),
        Err(Error::PalatalizedVowel('æ'))
    );
}

#[test]
fn test_not_implemented() {
    assert_eq!(
        Ipa::try_from("þ"),
        Err(Error::NotYetImplemented('þ'))
    );
}
