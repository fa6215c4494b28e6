//! Parsed syllables and the parser that builds them.

use vstd::prelude::*;
use crate::phonemes::{is_vowel, vowel, word_flags};
use crate::template::{
    class_of_marker, clause_at, has_template, is_first_clause, is_first_start, lemma_first_clause_unique,
    lemma_first_start_unique, lemma_payload_end_unique, payload_begin, rule_of, rule_of_letter,
    starts_at, template_in, template_of, word_run,
};

verus! {

/// Where in a generated word a syllable may stand.
#[derive(Debug, Clone, Copy, PartialEq, Eq, Structural)]
pub enum Classification {
    /// Only at the start of a word.
    Prefix,
    /// Anywhere.
    Center,
    /// Only at the end of a word.
    Suffix,
}

/// What must stand right next to a syllable on one side.
#[derive(Debug, Clone, Copy, PartialEq, Eq, Structural)]
pub enum Rule {
    Consonant,
    Vowel,
    Either,
}

/// A parsed syllable template.
#[derive(Debug, PartialEq)]
pub struct Syllable {
    /// The phonemes, without sign and adjacency clauses; never empty.
    pub value: String,
    pub classification: Classification,
    /// What must follow the syllable.
    pub next: Rule,
    /// What must precede the syllable.
    pub previous: Rule,
}

/// The mathematical content of a [`Syllable`].
pub struct SyllableView {
    pub value: Seq<char>,
    pub classification: Classification,
    pub next: Rule,
    pub previous: Rule,
}

impl View for Syllable {
    type V = SyllableView;

    open spec fn view(&self) -> SyllableView {
        SyllableView {
            value: self.value@,
            classification: self.classification,
            next: self.next,
            previous: self.previous,
        }
    }
}

impl Syllable {
    /// Parses a template; `None` where it holds no payload.
    pub fn new(raw: &str) -> (r: Option<Syllable>)
        ensures
            match r {
                Some(syl) => template_of(raw@) == Some(syl@) && syl.value@.len() > 0,
                None => template_of(raw@) is None,
            },
    {
        let word = word_flags(raw);
        Syllable::from_word_flags(raw, &word)
    }

    /// Parses a template whose `k`-th character is a word character exactly
    /// where `word[k]` holds.
    pub fn from_word_flags(raw: &str, word: &Vec<bool>) -> (r: Option<Syllable>)
        requires
            word@.len() == raw@.len(),
        ensures
            match r {
                Some(syl) => template_in(raw@, word@) == Some(syl@) && syl.value@.len() > 0,
                None => template_in(raw@, word@) is None,
            },
    {
        if Syllable::template_start(raw, word).is_some() {
            let (classification, value) = Syllable::classify(raw, word);
            Some(
                Syllable {
                    value,
                    classification,
                    next: Syllable::determine_next_rule(raw),
                    previous: Syllable::determine_previous_rule(raw),
                },
            )
        } else {
            None
        }
    }

    pub fn ends_with_vowel(&self) -> (r: bool)
        requires
            self.value@.len() > 0,
        ensures
            r == vowel(self.value@.last()),
    {
        let n = self.value.as_str().unicode_len();
        is_vowel(self.value.as_str().get_char(n - 1))
    }

    pub fn starts_with_vowel(&self) -> (r: bool)
        requires
            self.value@.len() > 0,
        ensures
            r == vowel(self.value@[0]),
    {
        is_vowel(self.value.as_str().get_char(0))
    }

    /// The classification that a captured sign stands for: `-` a prefix,
    /// `+` a suffix, anything else a free syllable.
    pub fn determine_classification(s: &str) -> (r: Classification)
        ensures
            r == class_of_marker(s@),
    {
        let n = s.unicode_len();
        if n != 1 {
            assert(s@ != seq!['-'] && s@ != seq!['+']);
            return Classification::Center;
        }
        let c = s.get_char(0);
        if c == '-' {
            assert(s@ =~= seq!['-']);
            Classification::Prefix
        } else if c == '+' {
            assert(s@ =~= seq!['+']);
            Classification::Suffix
        } else {
            assert(s@ != seq!['-'] && s@ != seq!['+']) by {
                assert(seq!['-'][0] == '-' && seq!['+'][0] == '+');
            }
            Classification::Center
        }
    }

    /// The rule for what follows: the first `+` clause decides.
    pub fn determine_next_rule(s: &str) -> (r: Rule)
        ensures
            r == rule_of(s@, '+'),
    {
        Syllable::adjacency_rule(s, '+')
    }

    /// The rule for what precedes: the first `-` clause decides.
    pub fn determine_previous_rule(s: &str) -> (r: Rule)
        ensures
            r == rule_of(s@, '-'),
    {
        Syllable::adjacency_rule(s, '-')
    }

    fn adjacency_rule(s: &str, sign: char) -> (r: Rule)
        ensures
            r == rule_of(s@, sign),
    {
        match Syllable::find_clause(s, sign) {
            Some(k) => {
                proof {
                    lemma_first_clause_unique(s@, sign, k - 1);
                }
                Syllable::vowel_or_consonant_flag(s.get_char(k))
            },
            None => Rule::Either,
        }
    }

    fn vowel_or_consonant_flag(letter: char) -> (r: Rule)
        ensures
            r == rule_of_letter(letter),
    {
        if letter == 'v' || letter == 'V' {
            Rule::Vowel
        } else {
            Rule::Consonant
        }
    }

    /// The index of the letter of the first clause of polarity `sign`.
    fn find_clause(s: &str, sign: char) -> (r: Option<usize>)
        ensures
            match r {
                Some(k) => k < s@.len() && is_first_clause(s@, sign, k - 1),
                None => forall|j: int| !#[trigger] clause_at(s@, sign, j),
            },
    {
        let n = s.unicode_len();
        let mut j: usize = 1;
        while j < n && j + 1 < n
            invariant
                n == s@.len(),
                1 <= j,
                forall|k: int| 0 <= k < j ==> !#[trigger] clause_at(s@, sign, k),
            decreases n - j,
        {
            if s.get_char(j - 1) != '\n' && s.get_char(j) == sign {
                let letter = s.get_char(j + 1);
                if letter == 'v' || letter == 'V' || letter == 'c' || letter == 'C' {
                    return Some(j + 1);
                }
            }
            j += 1;
        }
        None
    }

    /// The classification and the value of the template `raw`, whose `k`-th
    /// character is a word character exactly where `word[k]` holds.
    pub fn classify(raw: &str, word: &Vec<bool>) -> (r: (Classification, String))
        requires
            word@.len() == raw@.len(),
            template_in(raw@, word@) is Some,
        ensures
            template_in(raw@, word@) matches Some(t) && r.0 == t.classification && r.1@
                == t.value,
            r.1@.len() > 0,
    {
        match Syllable::template_start(raw, word) {
            Some((i, b)) => {
                let e = Syllable::payload_end(word, b);
                proof {
                    lemma_first_start_unique(raw@, word@, i as int);
                    lemma_payload_end_unique(word@, b as int, e as int);
                }
                let classification = Syllable::determine_classification(raw.substring_char(i, b));
                let value = String::from_str(raw.substring_char(b, e));
                (classification, value)
            },
            None => {
                proof {
                    assert(false);
                }
                (Classification::Center, String::new())
            },
        }
    }

    /// The first index at which a match can start, and where its payload
    /// begins.
    fn template_start(raw: &str, word: &Vec<bool>) -> (r: Option<(usize, usize)>)
        requires
            word@.len() == raw@.len(),
        ensures
            match r {
                Some((i, b)) => is_first_start(raw@, word@, i as int) && b as int
                    == payload_begin(raw@, word@, i as int),
                None => !has_template(raw@, word@),
            },
    {
        let n = raw.unicode_len();
        let mut i: usize = 0;
        while i < n
            invariant
                n == raw@.len(),
                n == word@.len(),
                i <= n,
                forall|j: int| 0 <= j < i ==> !#[trigger] starts_at(raw@, word@, j),
            decreases n - i,
        {
            let c = raw.get_char(i);
            if (c == '-' || c == '+') && i + 1 < n && word[i + 1] {
                return Some((i, i + 1));
            }
            if word[i] {
                return Some((i, i));
            }
            i += 1;
        }
        None
    }

    /// The end of the longest run of word characters that begins at `b`.
    fn payload_end(word: &Vec<bool>, b: usize) -> (e: usize)
        requires
            b < word@.len(),
            word@[b as int],
        ensures
            word_run(word@, b as int, e as int),
    {
        let n = word.len();
        let mut e: usize = b + 1;
        loop
            invariant
                n == word@.len(),
                b < e <= n,
                forall|k: int| b <= k < e ==> #[trigger] word@[k],
            ensures
                word_run(word@, b as int, e as int),
            decreases n - e,
        {
            if e == n || !word[e] {
                break;
            }
            e += 1;
        }
        e
    }
}

} // verus!
