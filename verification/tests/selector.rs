use orpheus::selector::{parse_selection, selector_args, selector_input, SELECTOR_PROGRAM};

fn list(items: &[&str]) -> Vec<String> {
    items.iter().map(|s| s.to_string()).collect()
}

#[test]
fn the_selector_is_fzf() {
    assert_eq!(SELECTOR_PROGRAM, "fzf");
}

#[test]
fn a_choice_of_several_takes_the_flag() {
    assert_eq!(selector_args(true), list(&["-m"]));
    assert_eq!(selector_args(false), list(&[]));
}

#[test]
fn candidates_go_in_one_on_each_line() {
    assert_eq!(selector_input(&list(&["/a.mp3", "/b c.mp3"])), "/a.mp3\n/b c.mp3\n");
    assert_eq!(selector_input(&list(&[])), "");
}

#[test]
fn the_output_is_read_line_by_line() {
    assert_eq!(parse_selection(true, "/a.mp3\n/b.mp3\n"), list(&["/a.mp3", "/b.mp3"]));
    assert_eq!(parse_selection(true, "/a.mp3"), list(&["/a.mp3"]));
    assert_eq!(parse_selection(true, ""), list(&[]));
}

#[test]
fn white_space_around_a_choice_does_not_count() {
    assert_eq!(parse_selection(true, "  /a.mp3 \t\r\n/b.mp3\r\n"), list(&["/a.mp3", "/b.mp3"]));
    assert_eq!(parse_selection(true, "/a b.mp3\n"), list(&["/a b.mp3"]));
}

#[test]
fn an_empty_line_is_an_empty_choice() {
    assert_eq!(parse_selection(true, "\n"), list(&[""]));
    assert_eq!(parse_selection(true, "/a\n\n/b\n"), list(&["/a", "", "/b"]));
    assert_eq!(parse_selection(true, "  \n"), list(&[""]));
}

#[test]
fn a_selector_that_failed_chose_nothing() {
    assert_eq!(parse_selection(false, "/a.mp3\n"), list(&[]));
    assert_eq!(parse_selection(false, ""), list(&[]));
}

#[test]
fn the_output_is_read_as_the_standard_library_reads_it() {
    for output in ["a\nb", "a\r\nb\r\n", "a\rb\n", "\r\n", "a\n\r", " x \n\ty\n", "\n\n", "é 日本\n"] {
        let expected: Vec<String> = output.lines().map(|l| l.trim().to_string()).collect();
        assert_eq!(parse_selection(true, output), expected, "{:?}", output);
    }
}
