//! IPA sounds: a closed inventory of vowels and consonants, the two
//! diacritics that can follow them, and the transcriptions built from them.
//!
//! A transcription is read from text with `Ipa::try_from` and written back
//! with `Ipa::to_string`. Both are verified against the grammar in
//! [`grammar`], and [`laws`] proves what holds of the two together.

pub mod error;
pub mod grammar;
pub mod ipa;
pub mod laws;
pub mod phoneme;
pub mod sound;
pub mod text;

pub use error::Error;
pub use ipa::Ipa;
pub use phoneme::{Consonants, Vowels};
pub use sound::Sound;
