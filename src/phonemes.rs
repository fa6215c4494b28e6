//! Character classes that templates are read with.

use vstd::prelude::*;

verus! {

/// Whether `c` is a word character in the sense of the `\w` class of regular
/// expressions: alphabetic characters, decimal digits, marks, connector
/// punctuation and join controls.
pub uninterp spec fn word_char(c: char) -> bool;

/// Relies on `regex_syntax::is_word_character`: membership of `c` in the
/// Unicode `\w` class (the crate is built with its `unicode-perl` tables, so
/// the call does not panic).
#[verifier::external_body]
pub(crate) fn is_word_char(c: char) -> (r: bool)
    ensures
        r == word_char(c),
{
    regex_syntax::is_word_character(c)
}

/// Which characters of `s` are word characters.
pub open spec fn word_flags_of(s: Seq<char>) -> Seq<bool> {
    Seq::new(s.len(), |k: int| word_char(s[k]))
}

/// For each character of `s`, whether it is a word character.
pub fn word_flags(s: &str) -> (r: Vec<bool>)
    ensures
        r@ == word_flags_of(s@),
{
    let n = s.unicode_len();
    let mut r: Vec<bool> = Vec::new();
    let mut i: usize = 0;
    while i < n
        invariant
            n == s@.len(),
            i <= n,
            r@.len() == i,
            forall|k: int| 0 <= k < i ==> r@[k] == word_char(s@[k]),
        decreases n - i,
    {
        r.push(is_word_char(s.get_char(i)));
        i += 1;
    }
    assert(r@ =~= word_flags_of(s@));
    r
}

/// The vowel inventory of the generator.
pub open spec fn vowel(c: char) -> bool {
    c == 'i' || c == 'y' || c == 'ɨ' || c == 'ʉ' || c == 'ɯ' || c == 'u' || c == 'ɪ'
        || c == 'ʏ' || c == 'ʊ' || c == 'e' || c == 'ø' || c == 'ɘ' || c == 'ɵ' || c == 'ɤ'
        || c == 'o' || c == 'ə' || c == 'ɛ' || c == 'œ' || c == 'ɜ' || c == 'ɞ' || c == 'ʌ'
        || c == 'ɔ' || c == 'æ' || c == 'ɐ' || c == 'a' || c == 'ɶ' || c == 'ä' || c == 'ɒ'
        || c == 'ɑ'
}

/// Membership of `c` in the vowel inventory.
pub fn is_vowel(c: char) -> (r: bool)
    ensures
        r == vowel(c),
{
    c == 'i' || c == 'y' || c == 'ɨ' || c == 'ʉ' || c == 'ɯ' || c == 'u' || c == 'ɪ'
        || c == 'ʏ' || c == 'ʊ' || c == 'e' || c == 'ø' || c == 'ɘ' || c == 'ɵ' || c == 'ɤ'
        || c == 'o' || c == 'ə' || c == 'ɛ' || c == 'œ' || c == 'ɜ' || c == 'ɞ' || c == 'ʌ'
        || c == 'ɔ' || c == 'æ' || c == 'ɐ' || c == 'a' || c == 'ɶ' || c == 'ä' || c == 'ɒ'
        || c == 'ɑ'
}

} // verus!
