use repl_session::diff::format_diff;

#[test]
fn unchanged_text_is_indented() {
    let diff = format_diff(String::from("fn test() {\n    work();\n}"), vec![], vec![]);
    assert_eq!(diff, "  fn test() {\n      work();\n  }");
}

#[test]
fn empty_text_renders_one_blank_row() {
    let diff = format_diff(String::new(), vec![], vec![]);
    assert_eq!(diff, "");
}

#[test]
fn inserted_rows_get_plus_markers() {
    let diff = format_diff(
        String::from("a\nb\nc"),
        vec![],
        vec![1..2],
    );
    assert_eq!(diff, "  a\n+ b\n  c");
}

#[test]
fn deleted_lines_hang_above_their_row() {
    let diff = format_diff(
        String::from("a\nb"),
        vec![(1, String::from("x\n"))],
        vec![0..1],
    );
    assert_eq!(diff, "+ a\n- x\n  b");
}

#[test]
fn multiline_deletions_render_line_by_line() {
    let diff = format_diff(
        String::from("z"),
        vec![(0, String::from("p\nq"))],
        vec![],
    );
    assert_eq!(diff, "- p\n- q\n  z");
}

#[test]
fn empty_deleted_lines_have_no_trailing_space() {
    let diff = format_diff(String::from("z"), vec![(0, String::from("\n"))], vec![]);
    assert_eq!(diff, "-\n  z");
}

#[test]
fn only_the_first_deletion_for_a_row_is_shown() {
    let diff = format_diff(
        String::from("z"),
        vec![(0, String::from("first")), (0, String::from("second"))],
        vec![],
    );
    assert_eq!(diff, "- first\n  z");
}

#[test]
fn rendered_rows_are_trimmed_of_trailing_whitespace() {
    let diff = format_diff(String::from("a   \n\t"), vec![], vec![]);
    assert_eq!(diff, "  a\n");
}

#[test]
fn carriage_return_before_newline_is_stripped_from_deletions() {
    let diff = format_diff(String::from("z"), vec![(0, String::from("a\r\n"))], vec![]);
    assert_eq!(diff, "- a\n  z");
}

#[test]
fn bare_trailing_carriage_return_stays_on_a_deletions_last_line() {
    let diff = format_diff(String::from("z"), vec![(0, String::from("a\r"))], vec![]);
    assert_eq!(diff, "- a\r\n  z");
}

#[test]
fn trailing_unicode_whitespace_is_trimmed() {
    let diff = format_diff(String::from("a\u{00A0}\u{2003}"), vec![], vec![]);
    assert_eq!(diff, "  a");
}

#[test]
fn inserted_blank_row_keeps_a_bare_plus() {
    let diff = format_diff(String::from("\n"), vec![], vec![0..1]);
    assert_eq!(diff, "+\n");
}

#[test]
fn insertion_ranges_are_half_open() {
    let diff = format_diff(String::from("a\nb\nc"), vec![], vec![0..0, 2..3]);
    assert_eq!(diff, "  a\n  b\n+ c");
}
