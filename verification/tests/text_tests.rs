use nas::text::{from_chars, is_text, rank_chars, rank_text, to_chars, Rank};

#[test]
fn chars_and_strings_convert_both_ways() {
    assert_eq!(to_chars("a/b"), vec!['a', '/', 'b']);
    assert_eq!(to_chars(""), Vec::<char>::new());
    assert_eq!(from_chars(&vec!['h', 'i', '\u{e9}']), "hi\u{e9}");
    assert_eq!(from_chars(&to_chars("\u{1F496} ok")), "\u{1F496} ok");
}

#[test]
fn rank_is_lexicographic() {
    assert_eq!(rank_text("a", "b"), Rank::Before);
    assert_eq!(rank_text("b", "a"), Rank::After);
    assert_eq!(rank_text("abc", "abc"), Rank::Same);
    assert_eq!(rank_text("", ""), Rank::Same);
    assert_eq!(rank_text("", "a"), Rank::Before);
    assert_eq!(rank_text("ab", "a"), Rank::After);
    assert_eq!(rank_text("abd", "abcz"), Rank::After);
    assert_eq!(rank_chars(&vec!['a', 'b'], &vec!['a', 'c']), Rank::Before);
}

#[test]
fn is_text_compares_all_characters() {
    assert!(is_text(&vec!['m', 'p', '3'], "mp3"));
    assert!(!is_text(&vec!['m', 'p', '4'], "mp3"));
    assert!(!is_text(&vec!['m', 'p'], "mp3"));
    assert!(is_text(&Vec::new(), ""));
}
