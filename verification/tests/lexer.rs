use rustc_parts::lexer::Ptr;
use rustc_parts::text::{join, str_eq, TextUnit};

#[test]
fn cursor_starts_at_the_beginning() {
    let ptr = Ptr::new("fn");
    assert_eq!(ptr.next(), Some('f'));
    assert_eq!(ptr.nnext(), Some('n'));
    assert_eq!(ptr.into_len(), TextUnit(0));
}

#[test]
fn empty_text_has_no_characters() {
    let mut ptr = Ptr::new("");
    assert_eq!(ptr.next(), None);
    assert_eq!(ptr.nnext(), None);
    assert_eq!(ptr.bump(), None);
    assert_eq!(ptr.into_len(), TextUnit(0));
}

#[test]
fn last_character_has_no_successor() {
    let ptr = Ptr::new("x");
    assert_eq!(ptr.next(), Some('x'));
    assert_eq!(ptr.nnext(), None);
}

#[test]
fn bump_reads_characters_of_every_width() {
    let mut ptr = Ptr::new("a\u{e9}\u{20ac}\u{1f600}z");
    assert_eq!(ptr.bump(), Some('a'));
    assert_eq!(ptr.bump(), Some('\u{e9}'));
    assert_eq!(ptr.next(), Some('\u{20ac}'));
    assert_eq!(ptr.nnext(), Some('\u{1f600}'));
    assert_eq!(ptr.bump(), Some('\u{20ac}'));
    assert_eq!(ptr.bump(), Some('\u{1f600}'));
    assert_eq!(ptr.next(), Some('z'));
    assert_eq!(ptr.nnext(), None);
    assert_eq!(ptr.into_len(), TextUnit(10));
}

#[test]
fn peeking_leaves_the_cursor_where_it_is() {
    let mut ptr = Ptr::new("ab");
    assert_eq!(ptr.next(), Some('a'));
    assert_eq!(ptr.next(), Some('a'));
    assert_eq!(ptr.nnext(), Some('b'));
    let ahead = ptr.nnext();
    assert_eq!(ptr.bump(), Some('a'));
    assert_eq!(ptr.next(), ahead);
}

#[test]
fn reading_yields_the_whole_text() {
    let text = "let \u{3b1} = 'x';\n";
    let mut ptr = Ptr::new(text);
    let mut read = String::new();
    while let Some(c) = ptr.bump() {
        read.push(c);
    }
    assert_eq!(read, text);
    assert_eq!(ptr.bump(), None);
    assert_eq!(ptr.into_len(), TextUnit(text.len() as u32));
}

#[test]
fn lengths_of_characters() {
    assert_eq!(TextUnit::new(7), TextUnit(7));
    for c in ['\0', '\u{7f}', '\u{80}', '\u{7ff}', '\u{800}', '\u{ffff}', '\u{10000}', char::MAX] {
        assert_eq!(TextUnit::len_of_char(c), TextUnit(c.len_utf8() as u32));
    }
}

#[test]
fn strings_are_compared_by_their_characters() {
    assert!(str_eq("", ""));
    assert!(str_eq("'_", "'_"));
    assert!(!str_eq("'_", "'a"));
    assert!(!str_eq("ab", "abc"));
    assert!(!str_eq("\u{e9}", "e"));
}

#[test]
fn joined_strings_have_separators_between_them() {
    let piece = |s: &str| s.to_string();
    assert_eq!(join(&vec![], ", "), "");
    assert_eq!(join(&vec![piece("a")], ", "), "a");
    assert_eq!(join(&vec![piece("a"), piece(""), piece("c")], ", "), "a, , c");
}
