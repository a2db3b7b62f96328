use hannahanna::error::HnError;
use hannahanna::fuzzy::{find_best_match, fuzzy_score};

#[test]
fn test_exact_match() {
    let candidates = vec!["feature-x".to_string(), "feature-y".to_string()];
    assert_eq!(find_best_match("feature-x", &candidates).unwrap(), "feature-x");
}

#[test]
fn test_prefix_match() {
    let candidates = vec!["feature-auth".to_string(), "feature-billing".to_string()];
    assert_eq!(find_best_match("feature-a", &candidates).unwrap(), "feature-auth");
}

#[test]
fn test_fuzzy_match() {
    let candidates = vec!["feature-authentication".to_string(), "fix-login-bug".to_string()];
    let result = find_best_match("fauth", &candidates).unwrap();
    assert_eq!(result, "feature-authentication");
}

#[test]
fn test_no_match() {
    let candidates = vec!["feature-x".to_string()];
    assert!(find_best_match("nonexistent", &candidates).is_err());
}

#[test]
fn prefix_match_ignores_case() {
    let candidates = vec!["Feature-Auth".to_string(), "bugfix".to_string()];
    assert_eq!(find_best_match("FEAT", &candidates).unwrap(), "Feature-Auth");
}

#[test]
fn several_prefix_matches_are_ambiguous() {
    let candidates = vec!["feature-a".to_string(), "feature-b".to_string()];
    match find_best_match("feat", &candidates) {
        Err(HnError::AmbiguousWorktreeName(q, ms)) => {
            assert_eq!(q, "feat");
            assert_eq!(ms, vec!["feature-a".to_string(), "feature-b".to_string()]);
        }
        other => panic!("unexpected: {:?}", other),
    }
}

#[test]
fn no_candidates_is_not_found() {
    let candidates: Vec<String> = Vec::new();
    match find_best_match("x", &candidates) {
        Err(HnError::WorktreeNotFound(q)) => assert_eq!(q, "x"),
        other => panic!("unexpected: {:?}", other),
    }
}

#[test]
fn unique_substring_match() {
    let candidates = vec!["feature-billing".to_string(), "fix-login".to_string()];
    assert_eq!(find_best_match("bill", &candidates).unwrap(), "feature-billing");
}

#[test]
fn fuzzy_scores() {
    // "ab" in "ab": first char at the start (1 + 10), second consecutive (5 + 1).
    assert_eq!(fuzzy_score("ab", "ab"), Some(17));
    assert_eq!(fuzzy_score("ba", "ab"), None);
    // "b" after a dash: 1 + 5.
    assert_eq!(fuzzy_score("b", "a-b"), Some(6));
}

#[test]
fn case_insensitive_exact_match_beats_prefix_matches() {
    let candidates = vec!["Feature".to_string(), "feature-x".to_string()];
    assert_eq!(find_best_match("FEATURE", &candidates).unwrap(), "Feature");
}
