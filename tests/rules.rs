use rng_syllable::phonemes::word_flags;
use rng_syllable::{Classification, Rule, Syllable};

fn check_classify(input: &str, classification: Classification, value: &str) {
    let word = word_flags(input);
    let (actual_classification, actual_value) = Syllable::classify(input, &word);
    assert_eq!(classification, actual_classification);
    assert_eq!(value.to_string(), actual_value);
}

#[test]
fn classify_suffix_with_clause() {
    check_classify("+sakku -V", Classification::Suffix, "sakku");
}

#[test]
fn classify_prefix_with_clause() {
    check_classify("-darr +v", Classification::Prefix, "darr");
}

#[test]
fn classify_bare() {
    check_classify("drov", Classification::Center, "drov");
}

#[test]
fn next_rule_without_clause() {
    assert_eq!(Rule::Either, Syllable::determine_next_rule(""));
    assert_eq!(Rule::Either, Syllable::determine_next_rule("-ahr"));
    assert_eq!(Rule::Either, Syllable::determine_next_rule("dus"));
    assert_eq!(Rule::Either, Syllable::determine_next_rule("+zou "));
}

#[test]
fn next_rule_vowel() {
    assert_eq!(Rule::Vowel, Syllable::determine_next_rule("ez -c +V"));
    assert_eq!(Rule::Vowel, Syllable::determine_next_rule("-ahr +v"));
}

#[test]
fn next_rule_consonant() {
    assert_eq!(Rule::Consonant, Syllable::determine_next_rule("-aby +c"));
    assert_eq!(Rule::Consonant, Syllable::determine_next_rule("dra +c"));
    assert_eq!(Rule::Consonant, Syllable::determine_next_rule("dra +C"));
}

#[test]
fn previous_rule_without_clause() {
    assert_eq!(Rule::Either, Syllable::determine_previous_rule(""));
    assert_eq!(Rule::Either, Syllable::determine_previous_rule("-ahr"));
    assert_eq!(Rule::Either, Syllable::determine_previous_rule("dus"));
    assert_eq!(Rule::Either, Syllable::determine_previous_rule("+zou "));
}

#[test]
fn previous_rule_vowel() {
    assert_eq!(Rule::Vowel, Syllable::determine_previous_rule("gru -v +c"));
    assert_eq!(Rule::Vowel, Syllable::determine_previous_rule("+sakku -V"));
}

#[test]
fn previous_rule_consonant() {
    assert_eq!(Rule::Consonant, Syllable::determine_previous_rule("ay -c"));
    assert_eq!(Rule::Consonant, Syllable::determine_previous_rule("it -c +v"));
    assert_eq!(Rule::Consonant, Syllable::determine_previous_rule("it -C"));
}

#[test]
fn first_clause_of_a_polarity_decides() {
    assert_eq!(Rule::Consonant, Syllable::determine_next_rule("ab +c +v"));
    assert_eq!(Rule::Vowel, Syllable::determine_previous_rule("ab -V -c"));
}

#[test]
fn clause_needs_left_context() {
    assert_eq!(Rule::Either, Syllable::determine_previous_rule("-v"));
    assert_eq!(Rule::Either, Syllable::determine_next_rule("+vab"));
    assert_eq!(Rule::Consonant, Syllable::determine_next_rule("+vab +c"));
    assert_eq!(Rule::Either, Syllable::determine_next_rule("ab\n+v"));
}

#[test]
fn sign_without_rule_letter_is_no_clause() {
    assert_eq!(Rule::Either, Syllable::determine_next_rule("ab +x"));
    assert_eq!(Rule::Either, Syllable::determine_previous_rule("ab -"));
}
