use orpheus::text::{
    find, holds, is_whitespace, push_chars, push_decimal, same, same_text, starts_at, string_of,
    to_chars, to_lower, trim,
};

fn chars(text: &str) -> Vec<char> {
    text.chars().collect()
}

fn text(chars: &[char]) -> String {
    chars.iter().collect()
}

#[test]
fn characters_of_a_string() {
    assert_eq!(to_chars("aé日🎵"), vec!['a', 'é', '日', '🎵']);
    assert_eq!(to_chars(""), Vec::<char>::new());
}

#[test]
fn string_of_characters() {
    assert_eq!(string_of(&['a', 'é', '日', '🎵']), "aé日🎵");
    assert_eq!(string_of(&[]), "");
    let mut s = String::from("x");
    push_chars(&mut s, &['y', 'z']);
    assert_eq!(s, "xyz");
}

#[test]
fn characters_and_back() {
    for s in ["", "plain", "with \"quotes\"", "été 🎵\n"] {
        assert_eq!(string_of(&to_chars(s)), s);
    }
}

#[test]
fn finding_a_pattern() {
    let hay = chars("abcabc");
    assert_eq!(find(&hay, &chars("bc"), 0), Some(1));
    assert_eq!(find(&hay, &chars("bc"), 1), Some(1));
    assert_eq!(find(&hay, &chars("bc"), 2), Some(4));
    assert_eq!(find(&hay, &chars("bc"), 5), None);
    assert_eq!(find(&hay, &chars("x"), 0), None);
    assert_eq!(find(&hay, &chars("abcabcd"), 0), None);
    assert_eq!(find(&hay, &chars("abcabc"), 0), Some(0));
    assert_eq!(find(&hay, &chars("c"), 100), None);
}

#[test]
fn finding_the_empty_pattern() {
    let hay = chars("ab");
    assert_eq!(find(&hay, &[], 0), Some(0));
    assert_eq!(find(&hay, &[], 2), Some(2));
    assert_eq!(find(&hay, &[], 3), None);
    assert_eq!(find(&[], &[], 0), Some(0));
}

#[test]
fn finding_as_the_standard_library_finds() {
    let hay = "aXbaXXab\"filename\":\"x\"ab";
    for pat in ["a", "aX", "XX", "ab", "\"filename\":", "\"", "zz", "b\""] {
        let expected = hay.find(pat);
        assert_eq!(find(&chars(hay), &chars(pat), 0), expected, "{}", pat);
    }
}

#[test]
fn a_pattern_at_a_place() {
    let hay = chars("abc");
    assert!(starts_at(&hay, &chars("bc"), 1));
    assert!(!starts_at(&hay, &chars("bc"), 0));
    assert!(!starts_at(&hay, &chars("bc"), 2));
    assert!(!starts_at(&hay, &chars("bc"), usize::MAX));
    assert!(starts_at(&hay, &[], 3));
    assert!(!starts_at(&hay, &[], 4));
}

#[test]
fn equal_texts() {
    assert!(same(&chars("abc"), &chars("abc")));
    assert!(!same(&chars("abc"), &chars("abd")));
    assert!(!same(&chars("abc"), &chars("ab")));
    assert!(same(&[], &[]));
    assert!(same_text("été", "été"));
    assert!(!same_text("ete", "été"));
}

#[test]
fn holding_an_item() {
    let list = vec!["a".to_string(), "b".to_string()];
    assert!(holds(&list, "a"));
    assert!(holds(&list, "b"));
    assert!(!holds(&list, "c"));
    assert!(!holds(&list, ""));
    assert!(!holds(&Vec::new(), "a"));
}

#[test]
fn decimal_digits() {
    for n in [0usize, 1, 9, 10, 19, 20, 99, 100, 999, 1000, 65535, usize::MAX] {
        let mut s = String::from("n=");
        push_decimal(&mut s, n);
        assert_eq!(s, format!("n={}", n));
    }
}

#[test]
fn white_space_is_what_the_standard_library_calls_so() {
    for code in 0..=0x10FFFFu32 {
        if let Some(c) = char::from_u32(code) {
            assert_eq!(is_whitespace(c), c.is_whitespace(), "U+{:04X}", code);
        }
    }
}

#[test]
fn trimming() {
    assert_eq!(text(trim(&chars("  a b \t\r\n"))), "a b");
    assert_eq!(text(trim(&chars("a"))), "a");
    assert_eq!(text(trim(&chars(""))), "");
    assert_eq!(text(trim(&chars(" \u{3000}\u{a0} "))), "");
    assert_eq!(text(trim(&chars("\u{2003}é\u{85}"))), "é");
}

#[test]
fn trimming_as_the_standard_library_trims() {
    for s in ["", " ", "a", " a", "a ", "  a  b  ", "\t\n x \r\n", "\u{feff}x", "\u{200b}x\u{200b}"] {
        assert_eq!(text(trim(&chars(s))), s.trim(), "{:?}", s);
    }
}


#[test]
fn lower_case_of_the_letters_a_to_z() {
    assert_eq!(text(&to_lower("MP3 Flac ÄÖ ogg")), "mp3 flac ÄÖ ogg");
    assert_eq!(text(&to_lower("AZ@[`{az")), "az@[`{az");
    assert_eq!(text(&to_lower("")), "");
}
