//! Parsing of syllable templates for a word generator.
//!
//! A template such as `+adly -v` names a phoneme sequence (`adly`), where it
//! may stand in a word (`+`: only at the end), and what must stand next to it
//! (`-v`: a vowel before it). [`Syllable::new`] turns a template into a
//! [`Syllable`]; [`template::template_of`] is the mathematical reading of a
//! template that its contract refers to.

pub mod phonemes;
pub mod syllable;
pub mod template;

pub use syllable::{Classification, Rule, Syllable, SyllableView};
