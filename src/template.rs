//! The meaning of a template string, as spec functions over its characters.
//!
//! A template is read in three independent passes over the whole string:
//! - the first place where `[-+]?\w+` can match gives the classification
//!   (from the optional sign) and the value (the longest run of word
//!   characters);
//! - the first `+` followed by one of `vcVC`, with some character other than a
//!   line break right before the `+`, gives the rule for what follows;
//! - the same with `-` gives the rule for what precedes.

use vstd::prelude::*;
use crate::phonemes::{word_char, word_flags_of};
use crate::syllable::{Classification, Rule, SyllableView};

verus! {

pub open spec fn is_marker(c: char) -> bool {
    c == '-' || c == '+'
}

// Below, `w[k]` says whether `s[k]` is a word character.

/// A sign at `i` belongs to the match: it is followed by a word character.
pub open spec fn marker_at(s: Seq<char>, w: Seq<bool>, i: int) -> bool {
    0 <= i && i + 1 < s.len() && is_marker(s[i]) && w[i + 1]
}

/// `[-+]?\w+` can match starting at index `i` of `s`.
pub open spec fn starts_at(s: Seq<char>, w: Seq<bool>, i: int) -> bool {
    0 <= i < s.len() && (w[i] || marker_at(s, w, i))
}

/// `i` is the leftmost index at which a match can start.
pub open spec fn is_first_start(s: Seq<char>, w: Seq<bool>, i: int) -> bool {
    starts_at(s, w, i) && forall|j: int| 0 <= j < i ==> !#[trigger] starts_at(s, w, j)
}

pub open spec fn has_template(s: Seq<char>, w: Seq<bool>) -> bool {
    exists|i: int| #[trigger] starts_at(s, w, i)
}

pub open spec fn first_start(s: Seq<char>, w: Seq<bool>) -> int {
    choose|i: int| is_first_start(s, w, i)
}

/// Where the payload of a match that starts at `i` begins: after its sign,
/// if it has one.
pub open spec fn payload_begin(s: Seq<char>, w: Seq<bool>, i: int) -> int {
    if marker_at(s, w, i) {
        i + 1
    } else {
        i
    }
}

/// `b..e` is a longest run of word characters that begins at `b`.
pub open spec fn word_run(w: Seq<bool>, b: int, e: int) -> bool {
    &&& 0 <= b < e <= w.len()
    &&& forall|k: int| b <= k < e ==> #[trigger] w[k]
    &&& e == w.len() || !w[e]
}

pub open spec fn payload_end(w: Seq<bool>, b: int) -> int {
    choose|e: int| word_run(w, b, e)
}

/// The classification that a captured sign (possibly empty) stands for.
pub open spec fn class_of_marker(m: Seq<char>) -> Classification {
    if m == seq!['-'] {
        Classification::Prefix
    } else if m == seq!['+'] {
        Classification::Suffix
    } else {
        Classification::Center
    }
}

pub open spec fn is_rule_letter(c: char) -> bool {
    c == 'v' || c == 'V' || c == 'c' || c == 'C'
}

/// An adjacency clause `sign` + letter at index `j`, with left context.
pub open spec fn clause_at(s: Seq<char>, sign: char, j: int) -> bool {
    &&& 1 <= j
    &&& j + 1 < s.len()
    &&& s[j - 1] != '\n'
    &&& s[j] == sign
    &&& is_rule_letter(s[j + 1])
}

pub open spec fn is_first_clause(s: Seq<char>, sign: char, j: int) -> bool {
    clause_at(s, sign, j) && forall|k: int| 0 <= k < j ==> !#[trigger] clause_at(s, sign, k)
}

/// The rule that a clause letter stands for, ignoring its case.
pub open spec fn rule_of_letter(c: char) -> Rule {
    if c == 'v' || c == 'V' {
        Rule::Vowel
    } else {
        Rule::Consonant
    }
}

/// The adjacency rule given by the clauses of polarity `sign` in `s`: the
/// first one decides, and without one anything may stand there.
pub open spec fn rule_of(s: Seq<char>, sign: char) -> Rule {
    if exists|j: int| #[trigger] clause_at(s, sign, j) {
        rule_of_letter(s[(choose|j: int| is_first_clause(s, sign, j)) + 1])
    } else {
        Rule::Either
    }
}

/// What the template `s` describes, given which of its characters are word
/// characters, or `None` where it holds no payload.
pub open spec fn template_in(s: Seq<char>, w: Seq<bool>) -> Option<SyllableView> {
    if has_template(s, w) {
        let i = first_start(s, w);
        let b = payload_begin(s, w, i);
        Some(
            SyllableView {
                value: s.subrange(b, payload_end(w, b)),
                classification: class_of_marker(s.subrange(i, b)),
                next: rule_of(s, '+'),
                previous: rule_of(s, '-'),
            },
        )
    } else {
        None
    }
}

/// What the template `s` describes, or `None` where it holds no payload.
pub open spec fn template_of(s: Seq<char>) -> Option<SyllableView> {
    template_in(s, word_flags_of(s))
}

/// A leftmost start is the one that `first_start` picks.
pub proof fn lemma_first_start_unique(s: Seq<char>, w: Seq<bool>, i: int)
    requires
        is_first_start(s, w, i),
    ensures
        has_template(s, w),
        first_start(s, w) == i,
{
    let k = first_start(s, w);
    assert(is_first_start(s, w, k));
    if k < i {
        assert(!starts_at(s, w, k));
    } else if i < k {
        assert(!starts_at(s, w, i));
    }
}

/// A longest run that begins at `b` ends where `payload_end` says.
pub proof fn lemma_payload_end_unique(w: Seq<bool>, b: int, e: int)
    requires
        word_run(w, b, e),
    ensures
        payload_end(w, b) == e,
{
    let f = payload_end(w, b);
    assert(word_run(w, b, f));
    if f < e {
        assert(w[f]);
    } else if e < f {
        assert(w[e]);
    }
}

/// The first clause of a polarity decides its rule.
pub proof fn lemma_first_clause_unique(s: Seq<char>, sign: char, j: int)
    requires
        is_first_clause(s, sign, j),
    ensures
        rule_of(s, sign) == rule_of_letter(s[j + 1]),
{
    assert(clause_at(s, sign, j));
    let k = choose|k: int| is_first_clause(s, sign, k);
    assert(is_first_clause(s, sign, k));
    if k < j {
        assert(!clause_at(s, sign, k));
    } else if j < k {
        assert(!clause_at(s, sign, j));
    }
}

/// A template without signs that is a run of word characters, with at most
/// non-word characters around it, is a free syllable with that run as its
/// value and no adjacency rules.
pub proof fn lemma_bare_payload(lead: Seq<char>, payload: Seq<char>, trail: Seq<char>)
    requires
        payload.len() > 0,
        forall|k: int| 0 <= k < payload.len() ==> word_char(#[trigger] payload[k]),
        forall|k: int| 0 <= k < lead.len() ==> !word_char(#[trigger] lead[k]),
        forall|k: int| 0 <= k < trail.len() ==> !word_char(#[trigger] trail[k]),
        forall|k: int| 0 <= k < (lead + payload + trail).len() ==> !is_marker(#[trigger] (lead + payload + trail)[k]),
    ensures
        template_of(lead + payload + trail) == Some(
            SyllableView {
                value: payload,
                classification: Classification::Center,
                next: Rule::Either,
                previous: Rule::Either,
            },
        ),
{
    let s = lead + payload + trail;
    let w = word_flags_of(s);
    let i = lead.len() as int;
    let e = i + payload.len();
    assert(s[i] == payload[0]);
    assert forall|j: int| 0 <= j < i implies !#[trigger] starts_at(s, w, j) by {
        assert(s[j] == lead[j]);
    }
    lemma_first_start_unique(s, w, i);
    assert forall|k: int| i <= k < e implies #[trigger] w[k] by {
        assert(s[k] == payload[k - i]);
    }
    if e < s.len() {
        assert(s[e] == trail[0]);
    }
    lemma_payload_end_unique(w, i, e);
    assert(s.subrange(i, e) =~= payload);
    assert(s.subrange(i, i).len() == 0 && seq!['-'].len() == 1 && seq!['+'].len() == 1);
    assert forall|j: int| !#[trigger] clause_at(s, '+', j) && !clause_at(s, '-', j) by {
        if 0 <= j < s.len() {
            assert(!is_marker(s[j]));
        }
    }
}

/// A sign followed by a run of word characters makes a prefix (`-`) or a
/// suffix (`+`) whose value is that run.
pub proof fn lemma_marked_payload(m: char, payload: Seq<char>)
    requires
        is_marker(m),
        payload.len() > 0,
        forall|k: int| 0 <= k < payload.len() ==> word_char(#[trigger] payload[k]),
    ensures
        template_of(seq![m] + payload) matches Some(t) && t.value == payload
            && t.classification == (if m == '-' {
            Classification::Prefix
        } else {
            Classification::Suffix
        }),
{
    let s = seq![m] + payload;
    let w = word_flags_of(s);
    assert(s[0] == m && s[1] == payload[0]);
    assert(marker_at(s, w, 0));
    lemma_first_start_unique(s, w, 0);
    assert forall|k: int| 1 <= k < s.len() implies #[trigger] w[k] by {
        assert(s[k] == payload[k - 1]);
    }
    lemma_payload_end_unique(w, 1, s.len() as int);
    assert(s.subrange(1, s.len() as int) =~= payload);
    assert(s.subrange(0, 1) =~= seq![m]);
}

proof fn lemma_trailing_clause(head: Seq<char>, sign: char, letter: char)
    requires
        head.len() >= 1,
        head.last() != '\n',
        is_rule_letter(letter),
        forall|k: int| 1 <= k < head.len() ==> #[trigger] head[k] != sign,
    ensures
        rule_of(head + seq![sign, letter], sign) == rule_of_letter(letter),
{
    let s = head + seq![sign, letter];
    let j = head.len() as int;
    assert(s[j - 1] == head.last() && s[j] == sign && s[j + 1] == letter);
    assert forall|k: int| 0 <= k < j implies !#[trigger] clause_at(s, sign, k) by {
        if 1 <= k {
            assert(s[k] == head[k]);
        }
    }
    lemma_first_clause_unique(s, sign, j);
}

/// A template that ends in a clause `+v`, `+V`, `+c` or `+C`, with no other
/// `+` after its first character, asks for a vowel after it where the letter
/// is `v` or `V` and for a consonant otherwise.
pub proof fn lemma_trailing_next_clause(head: Seq<char>, letter: char)
    requires
        head.len() >= 1,
        head.last() != '\n',
        is_rule_letter(letter),
        forall|k: int| 1 <= k < head.len() ==> #[trigger] head[k] != '+',
    ensures
        rule_of(head + seq!['+', letter], '+') == rule_of_letter(letter),
        template_of(head + seq!['+', letter]) matches Some(t) ==> t.next == rule_of_letter(letter),
{
    lemma_trailing_clause(head, '+', letter);
}

/// A template that ends in a clause `-v`, `-V`, `-c` or `-C`, with no other
/// `-` after its first character, asks for a vowel before it where the letter
/// is `v` or `V` and for a consonant otherwise.
pub proof fn lemma_trailing_previous_clause(head: Seq<char>, letter: char)
    requires
        head.len() >= 1,
        head.last() != '\n',
        is_rule_letter(letter),
        forall|k: int| 1 <= k < head.len() ==> #[trigger] head[k] != '-',
    ensures
        rule_of(head + seq!['-', letter], '-') == rule_of_letter(letter),
        template_of(head + seq!['-', letter]) matches Some(t) ==> t.previous == rule_of_letter(
            letter,
        ),
{
    lemma_trailing_clause(head, '-', letter);
}

/// Without a sign followed by one of `vcVC` in the template, nothing is asked
/// of either neighbour.
pub proof fn lemma_no_clause(s: Seq<char>, sign: char)
    requires
        forall|j: int| 0 <= j && j + 1 < s.len() ==> !(#[trigger] s[j] == sign && is_rule_letter(s[j + 1])),
    ensures
        rule_of(s, sign) == Rule::Either,
        template_of(s) matches Some(t) ==> (sign == '+' ==> t.next == Rule::Either) && (sign
            == '-' ==> t.previous == Rule::Either),
{
    assert forall|j: int| !#[trigger] clause_at(s, sign, j) by {
        if 0 <= j && j + 1 < s.len() {
            assert(!(s[j] == sign && is_rule_letter(s[j + 1])));
        }
    }
}

} // verus!
