use ipa_sounds::sound::Sound;
use ipa_sounds::{Consonants, Error, Vowels};

const VOWELS: [(Vowels, char); 20] = [
    (Vowels::CloseBackRounded, 'u'),
    (Vowels::CloseBackUnrounded, 'ɯ'),
    (Vowels::CloseCentralRounded, 'ʉ'),
    (Vowels::CloseCentralUnrounded, 'ɨ'),
    (Vowels::CloseFrontRounded, 'y'),
    (Vowels::CloseFrontUnrounded, 'i'),
    (Vowels::CloseMidBackRounded, 'o'),
    (Vowels::CloseMidBackUnrounded, 'ɤ'),
    (Vowels::CloseMidCentralRounded, 'ɵ'),
    (Vowels::CloseMidCentralUnrounded, 'ɘ'),
    (Vowels::CloseMidFrontRounded, 'ø'),
    (Vowels::CloseMidFrontUnrounded, 'e'),
    (Vowels::MidCentral, 'ə'),
    (Vowels::NearCloseNearBackRounded, 'ʊ'),
    (Vowels::NearCloseNearFrontRounded, 'ʏ'),
    (Vowels::NearCloseNearFrontUnrounded, 'ɪ'),
    (Vowels::NearOpenFrontUrounded, 'æ'),
    (Vowels::OpenBackUnrounded, 'ɑ'),
    (Vowels::OpenFrontUnrounded, 'a'),
    (Vowels::OpenMidBackUnrounded, 'ʌ'),
];

const CONSONANTS: [(Consonants, char); 4] = [
    (Consonants::VoicedAlveolarNasal, 'n'),
    (Consonants::VoicedBilabialNasal, 'm'),
    (Consonants::VoicedPalatalApproximant, 'j'),
    (Consonants::VoicelessBilabialPlosive, 'p'),
];

#[test]
fn every_vowel_has_its_character() {
    for (vowel, c) in VOWELS {
        assert_eq!(char::from(vowel), c);
        assert_eq!(Vowels::from_char(c), Some(vowel));
    }
}

#[test]
fn every_consonant_has_its_character() {
    for (consonant, c) in CONSONANTS {
        assert_eq!(char::from(consonant), c);
        assert_eq!(Consonants::from_char(c), Some(consonant));
    }
}

#[test]
fn the_tables_share_no_character() {
    for (_, c) in VOWELS {
        assert_eq!(Consonants::from_char(c), None);
    }
    for (_, c) in CONSONANTS {
        assert_eq!(Vowels::from_char(c), None);
    }
}

#[test]
fn diacritics_and_space_are_in_no_table() {
    for c in ['ʲ', 'ː', ' ', 'þ', 'x'] {
        assert_eq!(Vowels::from_char(c), None);
        assert_eq!(Consonants::from_char(c), None);
    }
}

#[test]
fn a_sound_is_written_symbol_then_palatalization_then_length() {
    let mut out = String::from("x");
    Sound::Consonant { phoneme: Consonants::VoicedBilabialNasal, is_long: true, is_palatalized: true }
        .write_to(&mut out);
    assert_eq!(out, "xmʲː");
    Sound::Vowel { phoneme: Vowels::CloseBackRounded, is_long: true }.write_to(&mut out);
    assert_eq!(out, "xmʲːuː");
    Sound::Space.write_to(&mut out);
    Sound::Vowel { phoneme: Vowels::OpenFrontUnrounded, is_long: false }.write_to(&mut out);
    Sound::Consonant { phoneme: Consonants::VoicelessBilabialPlosive, is_long: false, is_palatalized: true }
        .write_to(&mut out);
    assert_eq!(out, "xmʲːuː apʲ");
}

#[test]
fn error_messages_name_the_character() {
    assert_eq!(Error::PalatalizedVowel('æ').message(), "Vowel (æ) cannot be palatalized");
    assert_eq!(Error::NotYetImplemented('þ').message(), "'þ' is not yet implemented");
}
