//! The two symbol tables: which character stands for which vowel and for
//! which consonant.
//!
//! Each table is written once, as the `symbol` of a phoneme. Reading a
//! character back is specified as the inverse of `symbol`, and the lemmas at
//! the end of this file show that both tables are one-to-one, that they share
//! no character, and that neither holds a diacritic or the space.

use vstd::prelude::*;

verus! {

/// The diacritic that marks the preceding consonant as palatalized.
pub const PALATALIZATION: char = 'ʲ';

/// The diacritic that marks the preceding sound as long.
pub const LENGTH: char = 'ː';

/// The word separator.
pub const SPACE: char = ' ';

/// Whether `c` is one of the two diacritics.
pub open spec fn is_diacritic(c: char) -> bool {
    c == PALATALIZATION || c == LENGTH
}

/// IPA vowels.
#[derive(Clone, Copy, Debug, PartialEq, Eq, PartialOrd, Structural)]
pub enum Vowels {
    CloseBackRounded,
    CloseBackUnrounded,
    CloseCentralRounded,
    CloseCentralUnrounded,
    CloseFrontRounded,
    CloseFrontUnrounded,
    CloseMidBackRounded,
    CloseMidBackUnrounded,
    CloseMidCentralRounded,
    CloseMidCentralUnrounded,
    CloseMidFrontRounded,
    CloseMidFrontUnrounded,
    MidCentral,
    NearCloseNearBackRounded,
    NearCloseNearFrontRounded,
    NearCloseNearFrontUnrounded,
    NearOpenFrontUrounded,
    OpenBackUnrounded,
    OpenFrontUnrounded,
    OpenMidBackUnrounded,
}

/// IPA consonants.
#[derive(Clone, Copy, Debug, PartialEq, Eq, PartialOrd, Structural)]
pub enum Consonants {
    VoicedAlveolarNasal,
    VoicedBilabialNasal,
    VoicedPalatalApproximant,
    VoicelessBilabialPlosive,
}

impl Vowels {
    /// The character that stands for this vowel.
    pub open spec fn symbol(self) -> char {
        match self {
            Vowels::CloseBackRounded => 'u',
            Vowels::CloseBackUnrounded => 'ɯ',
            Vowels::CloseCentralRounded => 'ʉ',
            Vowels::CloseCentralUnrounded => 'ɨ',
            Vowels::CloseFrontRounded => 'y',
            Vowels::CloseFrontUnrounded => 'i',
            Vowels::CloseMidBackRounded => 'o',
            Vowels::CloseMidBackUnrounded => 'ɤ',
            Vowels::CloseMidCentralRounded => 'ɵ',
            Vowels::CloseMidCentralUnrounded => 'ɘ',
            Vowels::CloseMidFrontRounded => 'ø',
            Vowels::CloseMidFrontUnrounded => 'e',
            Vowels::MidCentral => 'ə',
            Vowels::NearCloseNearBackRounded => 'ʊ',
            Vowels::NearCloseNearFrontRounded => 'ʏ',
            Vowels::NearCloseNearFrontUnrounded => 'ɪ',
            Vowels::NearOpenFrontUrounded => 'æ',
            Vowels::OpenBackUnrounded => 'ɑ',
            Vowels::OpenFrontUnrounded => 'a',
            Vowels::OpenMidBackUnrounded => 'ʌ',
        }
    }

    /// The vowel that `c` stands for, if it stands for one.
    pub open spec fn of_symbol(c: char) -> Option<Vowels> {
        if exists|v: Vowels| v.symbol() == c {
            Some(choose|v: Vowels| v.symbol() == c)
        } else {
            None
        }
    }

    /// Looks `c` up in the vowel table.
    pub fn from_char(c: char) -> (found: Option<Vowels>)
        ensures
            found == Vowels::of_symbol(c),
            found matches Some(v) ==> v.symbol() == c,
            found is None ==> forall|v: Vowels| v.symbol() != c,
    {
        let found = match c {
            'u' => Some(Vowels::CloseBackRounded),
            'ɯ' => Some(Vowels::CloseBackUnrounded),
            'ʉ' => Some(Vowels::CloseCentralRounded),
            'ɨ' => Some(Vowels::CloseCentralUnrounded),
            'y' => Some(Vowels::CloseFrontRounded),
            'i' => Some(Vowels::CloseFrontUnrounded),
            'o' => Some(Vowels::CloseMidBackRounded),
            'ɤ' => Some(Vowels::CloseMidBackUnrounded),
            'ɵ' => Some(Vowels::CloseMidCentralRounded),
            'ɘ' => Some(Vowels::CloseMidCentralUnrounded),
            'ø' => Some(Vowels::CloseMidFrontRounded),
            'e' => Some(Vowels::CloseMidFrontUnrounded),
            'ə' => Some(Vowels::MidCentral),
            'ʊ' => Some(Vowels::NearCloseNearBackRounded),
            'ʏ' => Some(Vowels::NearCloseNearFrontRounded),
            'ɪ' => Some(Vowels::NearCloseNearFrontUnrounded),
            'æ' => Some(Vowels::NearOpenFrontUrounded),
            'ɑ' => Some(Vowels::OpenBackUnrounded),
            'a' => Some(Vowels::OpenFrontUnrounded),
            'ʌ' => Some(Vowels::OpenMidBackUnrounded),
            _ => None,
        };
        proof {
            if let Some(v) = found {
                assert(v.symbol() == c);
                Vowels::lemma_symbol_injective(v, choose|w: Vowels| w.symbol() == c);
            }
        }
        found
    }

    /// No two vowels share a character.
    pub proof fn lemma_symbol_injective(a: Vowels, b: Vowels)
        requires
            a.symbol() == b.symbol(),
        ensures
            a == b,
    {
    }

    /// Reading is the inverse of writing: `c` stands for `v` exactly when it
    /// is the symbol of `v`.
    pub proof fn lemma_of_symbol(c: char, v: Vowels)
        ensures
            Vowels::of_symbol(c) == Some(v) <==> v.symbol() == c,
            Vowels::of_symbol(v.symbol()) == Some(v),
    {
        if v.symbol() == c {
            Vowels::lemma_symbol_injective(v, choose|w: Vowels| w.symbol() == c);
        }
    }
}

impl Consonants {
    /// The character that stands for this consonant.
    pub open spec fn symbol(self) -> char {
        match self {
            Consonants::VoicedAlveolarNasal => 'n',
            Consonants::VoicedBilabialNasal => 'm',
            Consonants::VoicedPalatalApproximant => 'j',
            Consonants::VoicelessBilabialPlosive => 'p',
        }
    }

    /// The consonant that `c` stands for, if it stands for one.
    pub open spec fn of_symbol(c: char) -> Option<Consonants> {
        if exists|p: Consonants| p.symbol() == c {
            Some(choose|p: Consonants| p.symbol() == c)
        } else {
            None
        }
    }

    /// Looks `c` up in the consonant table.
    pub fn from_char(c: char) -> (found: Option<Consonants>)
        ensures
            found == Consonants::of_symbol(c),
            found matches Some(p) ==> p.symbol() == c,
            found is None ==> forall|p: Consonants| p.symbol() != c,
    {
        let found = match c {
            'n' => Some(Consonants::VoicedAlveolarNasal),
            'm' => Some(Consonants::VoicedBilabialNasal),
            'j' => Some(Consonants::VoicedPalatalApproximant),
            'p' => Some(Consonants::VoicelessBilabialPlosive),
            _ => None,
        };
        proof {
            if let Some(p) = found {
                assert(p.symbol() == c);
                Consonants::lemma_symbol_injective(p, choose|q: Consonants| q.symbol() == c);
            }
        }
        found
    }

    /// No two consonants share a character.
    pub proof fn lemma_symbol_injective(a: Consonants, b: Consonants)
        requires
            a.symbol() == b.symbol(),
        ensures
            a == b,
    {
    }

    /// Reading is the inverse of writing: `c` stands for `p` exactly when it
    /// is the symbol of `p`.
    pub proof fn lemma_of_symbol(c: char, p: Consonants)
        ensures
            Consonants::of_symbol(c) == Some(p) <==> p.symbol() == c,
            Consonants::of_symbol(p.symbol()) == Some(p),
    {
        if p.symbol() == c {
            Consonants::lemma_symbol_injective(p, choose|q: Consonants| q.symbol() == c);
        }
    }
}

impl From<Vowels> for char {
    fn from(vowel: Vowels) -> (c: char) {
        match vowel {
            Vowels::CloseBackRounded => 'u',
            Vowels::CloseBackUnrounded => 'ɯ',
            Vowels::CloseCentralRounded => 'ʉ',
            Vowels::CloseCentralUnrounded => 'ɨ',
            Vowels::CloseFrontRounded => 'y',
            Vowels::CloseFrontUnrounded => 'i',
            Vowels::CloseMidBackRounded => 'o',
            Vowels::CloseMidBackUnrounded => 'ɤ',
            Vowels::CloseMidCentralRounded => 'ɵ',
            Vowels::CloseMidCentralUnrounded => 'ɘ',
            Vowels::CloseMidFrontRounded => 'ø',
            Vowels::CloseMidFrontUnrounded => 'e',
            Vowels::MidCentral => 'ə',
            Vowels::NearCloseNearBackRounded => 'ʊ',
            Vowels::NearCloseNearFrontRounded => 'ʏ',
            Vowels::NearCloseNearFrontUnrounded => 'ɪ',
            Vowels::NearOpenFrontUrounded => 'æ',
            Vowels::OpenBackUnrounded => 'ɑ',
            Vowels::OpenFrontUnrounded => 'a',
            Vowels::OpenMidBackUnrounded => 'ʌ',
        }
    }
}

impl vstd::std_specs::convert::FromSpecImpl<Vowels> for char {
    open spec fn obeys_from_spec() -> bool {
        true
    }

    open spec fn from_spec(vowel: Vowels) -> char {
        vowel.symbol()
    }
}

impl From<Consonants> for char {
    fn from(consonant: Consonants) -> (c: char) {
        match consonant {
            Consonants::VoicedAlveolarNasal => 'n',
            Consonants::VoicedBilabialNasal => 'm',
            Consonants::VoicedPalatalApproximant => 'j',
            Consonants::VoicelessBilabialPlosive => 'p',
        }
    }
}

impl vstd::std_specs::convert::FromSpecImpl<Consonants> for char {
    open spec fn obeys_from_spec() -> bool {
        true
    }

    open spec fn from_spec(consonant: Consonants) -> char {
        consonant.symbol()
    }
}

/// The two tables share no character.
pub proof fn lemma_tables_disjoint(v: Vowels, p: Consonants)
    ensures
        v.symbol() != p.symbol(),
{
}

/// No vowel is written as a diacritic or as the space.
pub proof fn lemma_vowel_is_base(v: Vowels)
    ensures
        !is_diacritic(v.symbol()),
        v.symbol() != SPACE,
{
}

/// No consonant is written as a diacritic or as the space.
pub proof fn lemma_consonant_is_base(p: Consonants)
    ensures
        !is_diacritic(p.symbol()),
        p.symbol() != SPACE,
{
}

} // verus!
