//! Matching whole inputs against compiled patterns.

use matchers::{Pattern, ToMatcher};

#[test]
fn literal_pattern() {
    let pat = Pattern::new("hello world").unwrap();
    assert!(pat.matches("hello world"));
    assert_eq!(pat.matches("hello world!"), false);
}

#[test]
fn class_repetition_pattern() {
    let pat = Pattern::new("hel+o w[orl]{3}d").unwrap();
    assert!(pat.matches("hello world"));
}

#[test]
fn different_literal_rejects() {
    let pat = Pattern::new("goodbye world").unwrap();
    assert_eq!(pat.matches("hello world"), false);
}

#[test]
fn rep_pattern() {
    let pat = Pattern::new("a+b").unwrap();
    assert!(pat.matches("ab"));
    assert!(pat.matches("aaaab"));
    assert!(pat.matches("aaaaaaaaaab"));
    assert_eq!(pat.matches("b"), false);
    assert_eq!(pat.matches("abb"), false);
    assert_eq!(pat.matches("aaaaabb"), false);
}

#[test]
fn empty_input() {
    let pat = Pattern::new("a+b").unwrap();
    assert_eq!(pat.matches(""), false);
    let pat = Pattern::new("hello world").unwrap();
    assert_eq!(pat.matches(""), false);
}

#[test]
fn sparse_matches_like_dense() {
    let dense = Pattern::new("hel+o w[orl]{3}d").unwrap();
    let sparse = Pattern::new_sparse("hel+o w[orl]{3}d").unwrap();
    let inputs = ["hello world", "hellllo wrld", "hello world!", "goodbye world", ""];
    for input in inputs {
        assert_eq!(dense.matches(input), sparse.matches(input));
    }
    assert!(sparse.matches("hello world"));
    assert_eq!(sparse.matches("goodbye world"), false);
}

#[test]
fn fresh_matchers_agree() {
    let pat = Pattern::new("a+b").unwrap();
    let first = pat.matcher().matches("aaab");
    let second = pat.matcher().matches("aaab");
    assert_eq!(first, second);
    assert!(first);
    let first = pat.matcher().matches("aaabb");
    let second = pat.matcher().matches("aaabb");
    assert_eq!(first, second);
    assert_eq!(first, false);
}

#[test]
fn matcher_state_is_fresh_per_attempt() {
    let pat = Pattern::new("hello world").unwrap();
    assert_eq!(pat.matches("hello"), false);
    assert!(pat.matches("hello world"));
    assert!(pat.matches("hello world"));
}

#[test]
fn invalid_pattern_is_rejected() {
    assert!(Pattern::new("a(").is_err());
    assert!(Pattern::new_sparse("a(").is_err());
}

#[test]
fn unsupported_pattern_is_rejected() {
    // The automaton collaborator rejects look-around such as word boundaries.
    assert!(Pattern::new("\\bfoo").is_err());
}
