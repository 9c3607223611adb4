use orpheus::lines::{append_listing, lines};

fn chars(text: &str) -> Vec<char> {
    text.chars().collect()
}

fn text(chars: &[char]) -> String {
    chars.iter().collect()
}

#[test]
fn lines_of_a_text() {
    let content = chars("a\nb\r\n\nc");
    let found: Vec<String> = lines(&content).iter().map(|l| text(l)).collect();
    assert_eq!(found, vec!["a", "b", "", "c"]);
}

#[test]
fn lines_as_the_standard_library_splits() {
    for s in [
        "", "\n", "a", "a\n", "a\nb", "a\n\nb\n", "\r", "\r\n", "a\r", "a\r\nb\r", "a\r\r\n",
        "\n\n", "x\r\n\r\ny", "é\n日本\n",
    ] {
        let content = chars(s);
        let found: Vec<String> = lines(&content).iter().map(|l| text(l)).collect();
        let expected: Vec<String> = s.lines().map(|l| l.to_string()).collect();
        assert_eq!(found, expected, "{:?}", s);
    }
}

#[test]
fn a_listing_is_one_line_for_each_item() {
    let mut out = String::from(">");
    append_listing(&mut out, &vec!["a".to_string(), "".to_string(), "b c".to_string()]);
    assert_eq!(out, ">a\n\nb c\n");
    let mut unchanged = String::from("x");
    append_listing(&mut unchanged, &Vec::new());
    assert_eq!(unchanged, "x");
}

#[test]
fn listed_lines_read_back() {
    let items = vec!["/a.mp3".to_string(), "".to_string(), " b\rc ".to_string(), "é".to_string()];
    let mut out = String::new();
    append_listing(&mut out, &items);
    let content = chars(&out);
    let found: Vec<String> = lines(&content).iter().map(|l| text(l)).collect();
    assert_eq!(found, items);
}
