use hotdog::text::{chars_of, contains, starts_with};

#[test]
fn chars_of_gives_each_character_in_turn() {
    assert_eq!(chars_of(""), Vec::<char>::new());
    assert_eq!(chars_of("dog"), vec!['d', 'o', 'g']);
    assert_eq!(chars_of("h\u{e9}\u{1F436}"), vec!['h', '\u{e9}', '\u{1F436}']);
}

#[test]
fn starts_with_finds_a_prefix() {
    assert!(starts_with("hotdog", "hot"));
    assert!(starts_with("hotdog", "hotdog"));
    assert!(starts_with("hotdog", ""));
    assert!(starts_with("", ""));
}

#[test]
fn starts_with_refuses_what_is_no_prefix() {
    assert!(!starts_with("hotdog", "dog"));
    assert!(!starts_with("hotdog", "hotdogs"));
    assert!(!starts_with("hot", "hoT"));
    assert!(!starts_with("", "h"));
}

#[test]
fn starts_with_compares_whole_characters() {
    assert!(starts_with("\u{e9}t\u{e9}", "\u{e9}"));
    assert!(!starts_with("\u{e9}t\u{e9}", "\u{e8}"));
    assert!(!starts_with("e\u{301}", "\u{e9}"));
}

#[test]
fn contains_finds_a_substring_anywhere() {
    assert!(contains("UNIQUE constraint failed: dogs.url", "UNIQUE constraint failed"));
    assert!(contains("error: UNIQUE constraint failed", "UNIQUE constraint failed"));
    assert!(contains("a UNIQUE constraint failed b", "UNIQUE constraint failed"));
    assert!(contains("hotdog", "td"));
    assert!(contains("hotdog", "g"));
    assert!(contains("hotdog", "hotdog"));
}

#[test]
fn contains_refuses_what_does_not_occur() {
    assert!(!contains("unique constraint failed", "UNIQUE constraint failed"));
    assert!(!contains("UNIQUE constraint", "UNIQUE constraint failed"));
    assert!(!contains("hotdog", "hotdogs"));
    assert!(!contains("hotdog", "dot"));
    assert!(!contains("", "x"));
}

#[test]
fn contains_needs_the_pieces_side_by_side() {
    assert!(!contains("UNIQUE constraint has failed", "UNIQUE constraint failed"));
    assert!(contains("aab", "ab"));
    assert!(contains("aaab", "aab"));
    assert!(!contains("abab", "bb"));
}

#[test]
fn empty_needle_occurs_in_every_string() {
    assert!(contains("", ""));
    assert!(contains("hotdog", ""));
}
