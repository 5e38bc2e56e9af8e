use ipa_sounds::{Consonants, Error, Ipa, Sound, Vowels};

fn n(is_long: bool, is_palatalized: bool) -> Sound {
    Sound::Consonant { phoneme: Consonants::VoicedAlveolarNasal, is_long, is_palatalized }
}

fn ae(is_long: bool) -> Sound {
    Sound::Vowel { phoneme: Vowels::NearOpenFrontUrounded, is_long }
}

fn sounds_of(text: &str) -> Vec<Sound> {
    Ipa::try_from(text).unwrap().to_vec()
}

#[test]
fn empty_text_is_empty_transcription() {
    let ipa = Ipa::try_from("").unwrap();
    assert_eq!(ipa.len(), 0);
    assert_eq!(ipa.to_string(), "");
}

#[test]
fn two_words_are_separated_by_one_space() {
    let text = "nʲæ nʲæn";
    let ipa = Ipa::try_from(text).unwrap();
    assert_eq!(
        ipa.to_vec(),
        vec![n(false, true), ae(false), Sound::Space, n(false, true), ae(false), n(false, false)]
    );
    assert_eq!(ipa.iter().filter(|s| **s == Sound::Space).count(), 1);
    assert_eq!(ipa.to_string(), text);
}

#[test]
fn length_mark_directly_behind_the_symbol() {
    assert_eq!(sounds_of("næː"), vec![n(false, false), ae(true)]);
    assert_eq!(sounds_of("nː"), vec![n(true, false)]);
}

#[test]
fn length_mark_behind_the_palatalization_mark() {
    assert_eq!(sounds_of("nʲː"), vec![n(true, true)]);
    assert_eq!(sounds_of("nʲːæ"), vec![n(true, true), ae(false)]);
}

#[test]
fn palatalization_mark_behind_the_length_mark_is_not_read() {
    assert_eq!(sounds_of("nːʲ"), vec![n(true, false)]);
}

#[test]
fn palatalization_mark_at_the_end() {
    assert_eq!(sounds_of("nʲ"), vec![n(false, true)]);
}

#[test]
fn diacritics_without_a_base_symbol_are_passed_over() {
    assert_eq!(sounds_of("ʲ"), vec![]);
    assert_eq!(sounds_of("ː"), vec![]);
    assert_eq!(sounds_of("ʲːn"), vec![n(false, false)]);
    assert_eq!(sounds_of("ːæ"), vec![ae(false)]);
    assert_eq!(sounds_of(" ʲ"), vec![Sound::Space]);
}

#[test]
fn space_takes_no_diacritics() {
    assert_eq!(sounds_of(" ː "), vec![Sound::Space, Sound::Space]);
}

#[test]
fn palatalized_vowel_fails_in_any_context() {
    assert_eq!(Ipa::try_from("næʲn"), Err(Error::PalatalizedVowel('æ')));
    assert_eq!(Ipa::try_from("n uʲː"), Err(Error::PalatalizedVowel('u')));
    assert_eq!(Ipa::try_from("aʲ"), Err(Error::PalatalizedVowel('a')));
}

#[test]
fn unknown_symbol_is_reported_with_its_character() {
    assert_eq!(Ipa::try_from("nxæ"), Err(Error::NotYetImplemented('x')));
    assert_eq!(Ipa::try_from("N"), Err(Error::NotYetImplemented('N')));
    assert_eq!(Ipa::try_from("n\tn"), Err(Error::NotYetImplemented('\t')));
}

#[test]
fn the_first_error_wins() {
    assert_eq!(Ipa::try_from("þæʲ"), Err(Error::NotYetImplemented('þ')));
    assert_eq!(Ipa::try_from("æʲþ"), Err(Error::PalatalizedVowel('æ')));
    assert_eq!(Ipa::try_from("þß"), Err(Error::NotYetImplemented('þ')));
}

#[test]
fn reading_twice_gives_the_same_result() {
    for text in ["nʲæ", "æʲ", "þ", "", "nʲæ nʲæn"] {
        assert_eq!(Ipa::try_from(text), Ipa::try_from(text));
    }
}

#[test]
fn owned_text_reads_as_borrowed_text() {
    for text in ["nʲæ nʲæn", "æʲ", "þ", ""] {
        assert_eq!(Ipa::try_from(text.to_owned()), Ipa::try_from(text));
    }
}

#[test]
fn round_trip_of_every_shape_of_sound() {
    for text in ["n", "nʲ", "nː", "nʲː", "æ", "æː", " ", "nʲːæː mjpuɯ", "ʉɨyioɤɵɘøeəʊʏɪæɑaʌ"] {
        let ipa = Ipa::try_from(text).unwrap();
        let written = ipa.to_string();
        assert_eq!(written, text);
        assert_eq!(Ipa::try_from(written.as_str()), Ok(ipa));
    }
}

#[test]
fn writing_drops_what_reading_passed_over() {
    let ipa = Ipa::try_from("ʲnːʲæ").unwrap();
    assert_eq!(ipa.to_vec(), vec![n(true, false), ae(false)]);
    assert_eq!(ipa.to_string(), "nːæ");
    assert_eq!(Ipa::try_from(ipa.to_string()), Ok(ipa));
}

#[test]
fn clone_has_the_same_sounds() {
    let ipa = Ipa::try_from("nʲæ n").unwrap();
    let copy = ipa.clone();
    assert_eq!(copy, ipa);
    assert_eq!(copy.to_vec(), ipa.to_vec());
}

#[test]
fn sounds_are_read_by_position() {
    let ipa = Ipa::try_from("nʲæ").unwrap();
    assert_eq!(ipa.len(), 2);
    assert_eq!(ipa[0], n(false, true));
    assert_eq!(ipa[1], ae(false));
    assert_eq!(ipa.first(), Some(&n(false, true)));
    assert_eq!(ipa.get(2), None);
}
