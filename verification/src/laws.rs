//! What holds of reading and writing, for every text and every transcription.

use vstd::prelude::*;
use crate::error::Error;
use crate::grammar::{
    format_spec, lemma_format_push, lemma_scan_error_is_final, long_at, palatalized_at,
    parse_spec, scan, step_at,
};
use crate::ipa::{outcome, Ipa};
use crate::phoneme::{
    is_diacritic, lemma_consonant_is_base, lemma_tables_disjoint, lemma_vowel_is_base,
    Consonants, Vowels, LENGTH, PALATALIZATION, SPACE,
};
use crate::sound::Sound;

verus! {

/// Whether `text` can follow another text without changing how that text is
/// read: it is empty, or it does not begin with a diacritic.
pub open spec fn starts_with_base(text: Seq<char>) -> bool {
    text.len() == 0 || !is_diacritic(text[0])
}

/// The two results of reading two texts, joined: the sounds of the first
/// followed by those of the second, or the first error in reading order.
pub open spec fn join(
    first: Result<Seq<Sound>, Error>,
    second: Result<Seq<Sound>, Error>,
) -> Result<Seq<Sound>, Error> {
    match first {
        Err(e) => Err(e),
        Ok(a) => match second {
            Err(e) => Err(e),
            Ok(b) => Ok(a + b),
        },
    }
}

/// A position is read in the same way when a text that begins with a base
/// symbol is put behind the text.
pub proof fn lemma_step_ignores_next_word(head: Seq<char>, tail: Seq<char>, i: int)
    requires
        0 <= i < head.len(),
        starts_with_base(tail),
    ensures
        step_at(head + tail, i) == step_at(head, i),
{
    let whole = head + tail;
    assert(whole[i] == head[i]);
    if i + 1 < head.len() {
        assert(whole[i + 1] == head[i + 1]);
    } else if tail.len() > 0 {
        assert(whole[i + 1] == tail[0]);
    }
    if i + 2 < head.len() {
        assert(whole[i + 2] == head[i + 2]);
    } else if i + 2 == head.len() && tail.len() > 0 {
        assert(whole[i + 2] == tail[0]);
    }
    assert(palatalized_at(whole, i) == palatalized_at(head, i));
    assert(long_at(whole, i) == long_at(head, i));
}

/// A position is read in the same way whatever stands before the text.
pub proof fn lemma_step_ignores_past(head: Seq<char>, tail: Seq<char>, j: int)
    requires
        0 <= j < tail.len(),
    ensures
        step_at(head + tail, head.len() + j) == step_at(tail, j),
{
    let whole = head + tail;
    let i = head.len() + j;
    assert(whole[i] == tail[j]);
    if j + 1 < tail.len() {
        assert(whole[i + 1] == tail[j + 1]);
    }
    if j + 2 < tail.len() {
        assert(whole[i + 2] == tail[j + 2]);
    }
    assert(palatalized_at(whole, i) == palatalized_at(tail, j));
    assert(long_at(whole, i) == long_at(tail, j));
}

/// Reading the first `k` positions of a text gives the same result when a
/// text that begins with a base symbol is put behind it.
pub proof fn lemma_scan_ignores_next_word(head: Seq<char>, tail: Seq<char>, k: int)
    requires
        0 <= k <= head.len(),
        starts_with_base(tail),
    ensures
        scan(head + tail, k) == scan(head, k),
    decreases k,
{
    if k > 0 {
        lemma_scan_ignores_next_word(head, tail, k - 1);
        lemma_step_ignores_next_word(head, tail, k - 1);
    }
}

/// Reading on into the second of two joined texts joins the two results.
pub proof fn lemma_scan_joined(head: Seq<char>, tail: Seq<char>, j: int)
    requires
        0 <= j <= tail.len(),
        starts_with_base(tail),
    ensures
        scan(head + tail, head.len() + j) == join(parse_spec(head), scan(tail, j)),
    decreases j,
{
    if j == 0 {
        lemma_scan_ignores_next_word(head, tail, head.len() as int);
        if let Ok(a) = parse_spec(head) {
            assert(a + Seq::<Sound>::empty() =~= a);
        }
    } else {
        lemma_scan_joined(head, tail, j - 1);
        lemma_step_ignores_past(head, tail, j - 1);
        if let Ok(a) = parse_spec(head) {
            if let Ok(b) = scan(tail, j - 1) {
                if let Some(Ok(sound)) = step_at(tail, j - 1) {
                    assert((a + b).push(sound) =~= a + b.push(sound));
                }
            }
        }
    }
}

/// Reading is compositional: where the second text begins with a base
/// symbol, or is empty, the joined text stands for the sounds of the first
/// followed by the sounds of the second, and fails with the first error in
/// reading order.
pub proof fn lemma_parse_joined(head: Seq<char>, tail: Seq<char>)
    requires
        starts_with_base(tail),
    ensures
        parse_spec(head + tail) == join(parse_spec(head), parse_spec(tail)),
{
    lemma_scan_joined(head, tail, tail.len() as int);
}

/// The text of a sound begins with a base symbol and stands for that sound
/// alone.
pub proof fn lemma_parse_sound(sound: Sound)
    ensures
        sound.text().len() > 0,
        starts_with_base(sound.text()),
        parse_spec(sound.text()) == Ok::<Seq<Sound>, Error>(seq![sound]),
{
    let text = sound.text();
    reveal_with_fuel(scan, 4);
    match sound {
        Sound::Vowel { phoneme, is_long } => {
            lemma_vowel_is_base(phoneme);
            Vowels::lemma_of_symbol(phoneme.symbol(), phoneme);
            assert forall|p: Consonants| p.symbol() != phoneme.symbol() by {
                lemma_tables_disjoint(phoneme, p);
            }
            assert(Consonants::of_symbol(phoneme.symbol()) is None);
            assert(text[0] == phoneme.symbol());
            if is_long {
                assert(text =~= seq![phoneme.symbol(), LENGTH]);
                assert(step_at(text, 1) is None);
            } else {
                assert(text =~= seq![phoneme.symbol()]);
            }
            assert(step_at(text, 0) == Some(Ok::<Sound, Error>(sound)));
            assert(Seq::<Sound>::empty().push(sound) =~= seq![sound]);
        },
        Sound::Consonant { phoneme, is_long, is_palatalized } => {
            lemma_consonant_is_base(phoneme);
            Consonants::lemma_of_symbol(phoneme.symbol(), phoneme);
            assert(text[0] == phoneme.symbol());
            if is_palatalized && is_long {
                assert(text =~= seq![phoneme.symbol(), PALATALIZATION, LENGTH]);
                assert(step_at(text, 1) is None);
                assert(step_at(text, 2) is None);
            } else if is_palatalized {
                assert(text =~= seq![phoneme.symbol(), PALATALIZATION]);
                assert(step_at(text, 1) is None);
            } else if is_long {
                assert(text =~= seq![phoneme.symbol(), LENGTH]);
                assert(step_at(text, 1) is None);
            } else {
                assert(text =~= seq![phoneme.symbol()]);
            }
            assert(step_at(text, 0) == Some(Ok::<Sound, Error>(sound)));
            assert(Seq::<Sound>::empty().push(sound) =~= seq![sound]);
        },
        Sound::Space => {
            assert(text =~= seq![SPACE]);
            assert(step_at(text, 0) == Some(Ok::<Sound, Error>(sound)));
            assert(Seq::<Sound>::empty().push(sound) =~= seq![sound]);
        },
    }
}

/// Round trip: the text of a transcription stands for that transcription.
/// This holds of every sequence of sounds, so of every transcription that a
/// reading has produced.
pub proof fn lemma_round_trip(sounds: Seq<Sound>)
    ensures
        parse_spec(format_spec(sounds)) == Ok::<Seq<Sound>, Error>(sounds),
    decreases sounds.len(),
{
    if sounds.len() == 0 {
        assert(format_spec(sounds) =~= Seq::<char>::empty());
        assert(sounds =~= Seq::<Sound>::empty());
    } else {
        let init = sounds.drop_last();
        let last = sounds.last();
        lemma_round_trip(init);
        lemma_parse_sound(last);
        assert(init.push(last) =~= sounds);
        lemma_format_push(init, last);
        assert(format_spec(sounds) == format_spec(init) + last.text());
        lemma_parse_joined(format_spec(init), last.text());
        assert(init + seq![last] =~= sounds);
    }
}

/// Round trip, of a transcription: reading what `to_string` gives succeeds
/// and yields the same sounds.
pub proof fn lemma_round_trip_of(ipa: Ipa, written: Seq<char>, read_back: Result<Ipa, Error>)
    requires
        written == format_spec(ipa@),
        outcome(read_back) == parse_spec(written),
    ensures
        read_back is Ok,
        read_back->Ok_0@ == ipa@,
{
    lemma_round_trip(ipa@);
}

/// Whether position `i` is the first position of `text` that cannot be read.
pub open spec fn first_failure(text: Seq<char>, i: int) -> bool {
    &&& 0 <= i < text.len()
    &&& step_at(text, i) matches Some(Err(_))
    &&& forall|j: int| 0 <= j < i ==> !(#[trigger] step_at(text, j) matches Some(Err(_)))
}

/// While no position has failed, the reading has not failed.
pub proof fn lemma_scan_ok(text: Seq<char>, k: int)
    requires
        0 <= k <= text.len(),
        forall|j: int| 0 <= j < k ==> !(#[trigger] step_at(text, j) matches Some(Err(_))),
    ensures
        scan(text, k) is Ok,
    decreases k,
{
    if k > 0 {
        lemma_scan_ok(text, k - 1);
        assert(!(step_at(text, k - 1) matches Some(Err(_))));
    }
}

/// Fail fast: the reading fails with the error of the first position that
/// cannot be read, whatever stands behind it.
pub proof fn lemma_first_failure_wins(text: Seq<char>, i: int)
    requires
        first_failure(text, i),
    ensures
        parse_spec(text) == Err::<Seq<Sound>, Error>(step_at(text, i)->Some_0->Err_0),
{
    lemma_scan_ok(text, i);
    assert(scan(text, i + 1) is Err);
    lemma_scan_error_is_final(text, i + 1, text.len() as int);
}

/// The reading succeeds exactly when every position can be read.
pub proof fn lemma_parse_ok_iff(text: Seq<char>)
    ensures
        parse_spec(text) is Ok <==> forall|j: int|
            0 <= j < text.len() ==> !(#[trigger] step_at(text, j) matches Some(Err(_))),
{
    if forall|j: int| 0 <= j < text.len() ==> !(#[trigger] step_at(text, j) matches Some(Err(_))) {
        lemma_scan_ok(text, text.len() as int);
    } else {
        let j = choose|j: int|
            0 <= j < text.len() && (#[trigger] step_at(text, j) matches Some(Err(_)));
        lemma_scan_fails_after(text, j);
        lemma_scan_error_is_final(text, j + 1, text.len() as int);
    }
}

/// Once a position that cannot be read has been passed, the reading has
/// failed.
pub proof fn lemma_scan_fails_after(text: Seq<char>, j: int)
    requires
        0 <= j < text.len(),
        step_at(text, j) matches Some(Err(_)),
    ensures
        scan(text, j + 1) is Err,
{
}

/// A vowel directly before the palatalization mark makes the reading fail,
/// whatever surrounds the two. Where no earlier position fails, the error is
/// `PalatalizedVowel` with that vowel's character.
pub proof fn lemma_palatalized_vowel(text: Seq<char>, i: int)
    requires
        0 <= i,
        i + 1 < text.len(),
        Vowels::of_symbol(text[i]) is Some,
        text[i + 1] == PALATALIZATION,
    ensures
        step_at(text, i) == Some(Err::<Sound, Error>(Error::PalatalizedVowel(text[i]))),
        parse_spec(text) is Err,
        scan(text, i) is Ok ==> parse_spec(text) == Err::<Seq<Sound>, Error>(
            Error::PalatalizedVowel(text[i]),
        ),
{
    let v = Vowels::of_symbol(text[i])->Some_0;
    Vowels::lemma_of_symbol(text[i], v);
    lemma_vowel_is_base(v);
    assert forall|p: Consonants| p.symbol() != text[i] by {
        lemma_tables_disjoint(v, p);
    }
    lemma_scan_fails_after(text, i);
    lemma_scan_error_is_final(text, i + 1, text.len() as int);
}

/// Whether `c` is outside the inventory: no vowel, no consonant, no
/// diacritic and not the space.
pub open spec fn is_unknown(c: char) -> bool {
    &&& Vowels::of_symbol(c) is None
    &&& Consonants::of_symbol(c) is None
    &&& !is_diacritic(c)
    &&& c != SPACE
}

/// A character outside the inventory makes the reading fail, wherever it
/// stands. Where no earlier position fails, the error is
/// `NotYetImplemented` with that very character.
pub proof fn lemma_unknown_symbol(text: Seq<char>, i: int)
    requires
        0 <= i < text.len(),
        is_unknown(text[i]),
    ensures
        step_at(text, i) == Some(Err::<Sound, Error>(Error::NotYetImplemented(text[i]))),
        parse_spec(text) is Err,
        scan(text, i) is Ok ==> parse_spec(text) == Err::<Seq<Sound>, Error>(
            Error::NotYetImplemented(text[i]),
        ),
{
    lemma_scan_fails_after(text, i);
    lemma_scan_error_is_final(text, i + 1, text.len() as int);
}

/// A text of one character outside the inventory fails with that character.
pub proof fn lemma_unknown_symbol_alone(c: char)
    requires
        is_unknown(c),
    ensures
        parse_spec(seq![c]) == Err::<Seq<Sound>, Error>(Error::NotYetImplemented(c)),
{
    lemma_unknown_symbol(seq![c], 0);
}

/// Determinism: two readings of the same text agree. Where one fails, the
/// other fails with the same error and the same character; where one
/// succeeds, the other yields the same sounds.
pub proof fn lemma_reading_is_deterministic(
    text: Seq<char>,
    first: Result<Ipa, Error>,
    second: Result<Ipa, Error>,
)
    requires
        outcome(first) == parse_spec(text),
        outcome(second) == parse_spec(text),
    ensures
        outcome(first) == outcome(second),
        first is Err ==> second == first,
        first is Ok ==> second is Ok && second->Ok_0@ == first->Ok_0@,
{
}

/// The empty text stands for the empty transcription, and the empty
/// transcription is written as the empty text.
pub proof fn lemma_empty()
    ensures
        parse_spec(Seq::<char>::empty()) == Ok::<Seq<Sound>, Error>(Seq::empty()),
        format_spec(Seq::<Sound>::empty()) == Seq::<char>::empty(),
{
    assert(format_spec(Seq::<Sound>::empty()) =~= Seq::<char>::empty());
}

/// A diacritic that no base symbol precedes is passed over: the text behind
/// it is read as if the diacritic were not there.
pub proof fn lemma_leading_diacritic(mark: char, rest: Seq<char>)
    requires
        is_diacritic(mark),
    ensures
        parse_spec(seq![mark] + rest) == parse_spec(rest),
{
    let head = seq![mark];
    let whole = head + rest;
    lemma_scan_skips_first(whole, rest, rest.len() as int);
}

/// Reading past a leading diacritic gives what reading the rest gives.
proof fn lemma_scan_skips_first(whole: Seq<char>, rest: Seq<char>, j: int)
    requires
        whole.len() == rest.len() + 1,
        is_diacritic(whole[0]),
        forall|k: int| 0 <= k < rest.len() ==> whole[k + 1] == rest[k],
        0 <= j <= rest.len(),
    ensures
        scan(whole, j + 1) == scan(rest, j),
    decreases j,
{
    reveal_with_fuel(scan, 2);
    if j > 0 {
        lemma_scan_skips_first(whole, rest, j - 1);
        assert(whole[j] == rest[j - 1]);
        if j < rest.len() {
            assert(whole[j + 1] == rest[j]);
        }
        if j + 1 < rest.len() {
            assert(whole[j + 2] == rest[j + 1]);
        }
        assert(palatalized_at(whole, j) == palatalized_at(rest, j - 1));
        assert(long_at(whole, j) == long_at(rest, j - 1));
        assert(step_at(whole, j) == step_at(rest, j - 1));
    } else {
        assert(step_at(whole, 0) is None);
    }
}

} // verus!
