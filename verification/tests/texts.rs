use timegrep::text::{chars_of, contains, contains_chars, find_chars, pad_to, same_chars, ESCAPE};

fn letters(s: &str) -> Vec<char> {
    s.chars().collect()
}

#[test]
fn chars_of_decodes_every_character() {
    assert_eq!(chars_of(""), Vec::<char>::new());
    assert_eq!(chars_of("abc"), vec!['a', 'b', 'c']);
    assert_eq!(chars_of("héllo"), vec!['h', 'é', 'l', 'l', 'o']);
    assert_eq!(chars_of("日本語"), vec!['日', '本', '語']);
}

#[test]
fn same_chars_compares_whole_texts() {
    assert!(same_chars(&letters(""), &letters("")));
    assert!(same_chars(&letters("abc"), &letters("abc")));
    assert!(!same_chars(&letters("abc"), &letters("abd")));
    assert!(!same_chars(&letters("abc"), &letters("ab")));
    assert!(!same_chars(&letters("ab"), &letters("abc")));
    assert!(!same_chars(&letters("abc"), &letters("ABC")));
    assert!(same_chars(&letters("é"), &letters("é")));
    assert!(!same_chars(&letters("é"), &letters("e")));
}

#[test]
fn escape_opens_a_control_sequence() {
    assert_eq!(ESCAPE, '\u{1b}');
}

#[test]
fn find_chars_gives_the_first_place() {
    assert_eq!(find_chars(&letters("a-match-1"), &letters("match")), Some(2));
    assert_eq!(find_chars(&letters("abcabc"), &letters("bc")), Some(1));
    assert_eq!(find_chars(&letters("aaa"), &letters("a")), Some(0));
    assert_eq!(find_chars(&letters("abc"), &letters("c")), Some(2));
    assert_eq!(find_chars(&letters("abc"), &letters("abc")), Some(0));
    assert_eq!(find_chars(&letters("abc"), &letters("")), Some(0));
    assert_eq!(find_chars(&letters(""), &letters("")), Some(0));
    assert_eq!(find_chars(&letters("abc"), &letters("abcd")), None);
    assert_eq!(find_chars(&letters("abc"), &letters("ac")), None);
    assert_eq!(find_chars(&letters(""), &letters("a")), None);
    assert_eq!(find_chars(&letters("aab"), &letters("ab")), Some(1));
    assert_eq!(find_chars(&letters("日本語"), &letters("語")), Some(2));
}

#[test]
fn contains_is_substring_containment() {
    assert!(contains("a-match-1", "match"));
    assert!(contains("match", "match"));
    assert!(contains("a-match", "match"));
    assert!(contains("match-1", "match"));
    assert!(!contains("no", "match"));
    assert!(!contains("matc", "match"));
    assert!(!contains("m-a-t-c-h", "match"));
    assert!(!contains("MATCH", "match"));
    assert!(contains("anything", ""));
    assert!(contains("", ""));
    assert!(!contains("", "x"));
    assert!(contains_chars(&letters("xyz"), &letters("yz")));
    assert!(!contains_chars(&letters("xyz"), &letters("zy")));
}

#[test]
fn contains_agrees_with_the_standard_library() {
    let texts = ["", "a", "ab", "aba", "abab", "baba", "b-ERR-1", "née", "ééé"];
    for hay in texts {
        for needle in texts {
            assert_eq!(contains(hay, needle), hay.contains(needle));
        }
    }
}

#[test]
fn pad_to_fills_the_field_on_the_right() {
    assert_eq!(pad_to("", 0), "");
    assert_eq!(pad_to("", 3), "   ");
    assert_eq!(pad_to("5ns", 10), "5ns       ");
    assert_eq!(pad_to("1.100us", 10), "1.100us   ");
    assert_eq!(pad_to("123456789", 10), "123456789 ");
}

#[test]
fn pad_to_keeps_what_is_wide_enough() {
    assert_eq!(pad_to("1234567890", 10), "1234567890");
    assert_eq!(pad_to("1234567.890us", 10), "1234567.890us");
    assert_eq!(pad_to("abc", 0), "abc");
}

#[test]
fn pad_to_counts_characters() {
    assert_eq!(pad_to("é", 3), "é  ");
    assert_eq!(pad_to("日本語", 5), "日本語  ");
    assert_eq!(pad_to("日本語", 3), "日本語");
}

#[test]
fn pad_to_agrees_with_the_standard_library() {
    for text in ["", "a", "1.100us", "1234567890", "12345678901", "né"] {
        for width in 0usize..13 {
            assert_eq!(pad_to(text, width), format!("{:<width$}", text));
        }
    }
}
