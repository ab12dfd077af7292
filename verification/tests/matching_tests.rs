use zigzag::matching::{chars_available_in, chars_of, fallback_match, position_of, FuzzyScorer};
use zigzag::text::{str_to_lowercase, u32_to_decimal, usize_to_decimal};

#[test]
fn bag_of_characters_matches_out_of_order_query() {
    let scorer = FuzzyScorer::new();
    assert_eq!(scorer.enhanced_fuzzy_match("Manager", "ageM"), Some(1));
}

#[test]
fn subsequence_query_gets_skim_score() {
    let scorer = FuzzyScorer::new();
    let score = scorer.enhanced_fuzzy_match("Manager", "mgr");
    assert!(score.is_some());
    assert!(score.unwrap() > 1);
}

#[test]
fn case_is_ignored_by_skim() {
    let scorer = FuzzyScorer::new();
    assert!(scorer.enhanced_fuzzy_match("Manager", "MGR").unwrap() > 1);
    assert!(scorer.enhanced_fuzzy_match("manager", "MGR").unwrap() > 1);
}

#[test]
fn unrelated_query_does_not_match() {
    let scorer = FuzzyScorer::new();
    assert_eq!(scorer.enhanced_fuzzy_match("Manager", "xyz"), None);
}

#[test]
fn repeated_character_must_occur_as_often() {
    let scorer = FuzzyScorer::new();
    // "ma" and "aam" reorderings are available, three a's are not.
    assert_eq!(scorer.enhanced_fuzzy_match("Manager", "aaam"), None);
    assert_eq!(scorer.enhanced_fuzzy_match("Manager", "rgm"), Some(1));
}

#[test]
fn empty_query_scores_zero() {
    let scorer = FuzzyScorer::new();
    assert_eq!(scorer.enhanced_fuzzy_match("anything", ""), Some(0));
    assert_eq!(scorer.enhanced_fuzzy_match("", ""), Some(0));
}

#[test]
fn empty_candidate_only_matches_empty_query() {
    let scorer = FuzzyScorer::new();
    assert_eq!(scorer.enhanced_fuzzy_match("", "a"), None);
}

#[test]
fn chars_available_counts_multiplicity() {
    assert!(chars_available_in("manager", "aam"));
    assert!(chars_available_in("manager", "regan"));
    assert!(!chars_available_in("manager", "aaam"));
    assert!(chars_available_in("manager", ""));
    assert!(!chars_available_in("", "a"));
}

#[test]
fn fallback_needs_a_non_empty_query() {
    assert_eq!(fallback_match("manager", "agem", "ageM"), Some(1));
    assert_eq!(fallback_match("manager", "", ""), None);
    assert_eq!(fallback_match("manager", "z", "Z"), None);
}

#[test]
fn position_finds_first_occurrence() {
    let v = vec!['a', 'b', 'a'];
    assert_eq!(position_of(&v, 'a'), Some(0));
    assert_eq!(position_of(&v, 'b'), Some(1));
    assert_eq!(position_of(&v, 'c'), None);
}

#[test]
fn chars_of_keeps_order() {
    assert_eq!(chars_of("héllo"), vec!['h', 'é', 'l', 'l', 'o']);
}

#[test]
fn lowercase_is_unicode_aware() {
    assert_eq!(str_to_lowercase("MaNaGeR"), "manager");
    assert_eq!(str_to_lowercase("ÉCOLE"), "école");
}

#[test]
fn decimal_formatting() {
    assert_eq!(usize_to_decimal(0), "0");
    assert_eq!(usize_to_decimal(1234), "1234");
    assert_eq!(u32_to_decimal(42), "42");
}

#[test]
fn ascii_query_ignores_case_and_order() {
    let scorer = FuzzyScorer::new();
    for q in ["mgr", "rgm", "ageM", "MGR", "Rgm", "NAMAGER"] {
        assert!(scorer.enhanced_fuzzy_match("Manager", q).is_some(), "{}", q);
    }
    for q in ["xyz", "aaam", "Zm"] {
        assert!(scorer.enhanced_fuzzy_match("Manager", q).is_none(), "{}", q);
    }
}

#[test]
fn lowercase_of_ascii_maps_capitals_only() {
    assert_eq!(str_to_lowercase("HELLO"), "hello");
    assert_eq!(str_to_lowercase("A-Z 09_az"), "a-z 09_az");
}
