//! Streaming chunks into a matcher through its text and byte sinks.

use matchers::{Pattern, ToMatcher};

#[test]
fn streamed_text_matches() {
    let pat = Pattern::new("hello world").unwrap();
    let mut m = pat.matcher();
    m.write_str("hello ");
    m.write_str("world");
    assert!(m.is_matched());

    let mut m = pat.matcher();
    m.write_str("hello world!");
    assert_eq!(m.is_matched(), false);
}

#[test]
fn chunked_bytes_match() {
    let pat = Pattern::new("hello world").unwrap();
    let mut m = pat.matcher();
    assert_eq!(m.write(b"hello"), 5);
    assert_eq!(m.write(b" wor"), 4);
    assert_eq!(m.write(b"ld"), 2);
    m.flush();
    assert!(m.is_matched());
}

#[test]
fn streaming_equals_whole() {
    let pat = Pattern::new("hel+o w[orl]{3}d").unwrap();
    let whole = pat.matches("hello world");
    let mut m = pat.matcher();
    let chunks = ["h", "el", "lo w", "orld"];
    for chunk in chunks {
        m.write_str(chunk);
    }
    assert_eq!(m.is_matched(), whole);
    assert!(whole);
}

#[test]
fn byte_and_text_sinks_agree() {
    let pat = Pattern::new("a+b").unwrap();
    let mut by_text = pat.matcher();
    by_text.write_str("aaa");
    by_text.write_str("b");
    let mut by_bytes = pat.matcher();
    assert_eq!(by_bytes.write(b"aaab"), 4);
    assert_eq!(by_text.is_matched(), by_bytes.is_matched());
    assert!(by_text.is_matched());
}

#[test]
fn live_matcher_is_not_dead() {
    let pat = Pattern::new("a+b").unwrap();
    let mut m = pat.matcher();
    assert_eq!(m.is_dead(), false);
    m.write_str("aa");
    assert_eq!(m.is_dead(), false);
    assert_eq!(m.is_matched(), false);
    m.write_str("b");
    assert!(m.is_matched());
}
