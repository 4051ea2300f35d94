use subview::scan::first_word;
use subview::scan::first_word_offset;
use subview::scan::SEPARATOR;

#[test]
fn hello_world_first_word() {
    let s = String::from("hello world");
    assert_eq!(first_word_offset(s.as_bytes()), 5);
    assert_eq!(first_word(s.as_bytes()), b"hello");
}

#[test]
fn second_world_literal() {
    let s2 = "second world";
    assert_eq!(first_word_offset(s2.as_bytes()), 6);
    assert_eq!(first_word(s2.as_bytes()), b"second");
}

#[test]
fn no_separator_whole_sequence() {
    let s = String::from("hello");
    assert_eq!(first_word_offset(s.as_bytes()), 5);
    assert_eq!(first_word(s.as_bytes()), b"hello");
}

#[test]
fn empty_sequence_boundary() {
    let s: [u8; 0] = [];
    assert_eq!(first_word_offset(&s), 0);
    assert_eq!(first_word(&s).len(), 0);
}

#[test]
fn leading_separator_empty_token() {
    assert_eq!(first_word_offset(b" hello"), 0);
    assert_eq!(first_word(b" hello").len(), 0);
}

#[test]
fn only_first_separator_counts() {
    assert_eq!(first_word_offset(b"a b c"), 1);
    assert_eq!(first_word(b"a b c"), b"a");
}

#[test]
fn separator_is_ascii_space() {
    assert_eq!(SEPARATOR, b' ');
}

#[test]
fn offset_never_passes_length() {
    let samples: Vec<&[u8]> = vec![b"", b" ", b"ab", b"a b", b"  ", b"word "];
    for s in samples {
        assert!(first_word_offset(s) <= s.len());
    }
}

#[test]
fn owned_and_borrowed_inputs_agree() {
    let owned: Vec<u8> = b"hello world".to_vec();
    let borrowed: &[u8] = b"hello world";
    assert_eq!(first_word(&owned), first_word(borrowed));
}

#[test]
fn rescanning_a_view_is_stable() {
    let s = "hello world";
    let token = first_word(s.as_bytes());
    assert_eq!(first_word(token), token);
}
