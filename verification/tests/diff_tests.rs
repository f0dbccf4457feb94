use snaprun::diff::{
    count_lines, header, line_diff, number_column_width, render_line_diff, styled_line_diff, Diff, DiffColor, DiffLine,
    DiffSettings, LineSide, LineStyle, Side,
};
use snaprun::paths::{display_name, join_path, shown_path};

fn text_of(d: &Diff) -> String {
    d.render()
}

#[test]
fn readme_stdout_mismatch_diff() {
    let settings = DiffSettings::default()
        .names("expected".to_string(), "got".to_string())
        .max_line_number(30);
    let d = line_diff("foo bar baz", "Hello, World!\n", &settings);
    assert_eq!(
        text_of(&d),
        "---- left:  expected\n++++ right: got\n   1     - foo bar baz\n       1 + Hello, World!\n       2 + \n"
    );
}

#[test]
fn equal_texts_give_same() {
    let settings = DiffSettings::new();
    assert!(matches!(line_diff("a\nb\n", "a\nb\n", &settings), Diff::Same));
    assert!(matches!(line_diff("", "", &settings), Diff::Same));
    assert_eq!(text_of(&line_diff("x", "x", &settings)), "");
}

#[test]
fn line_endings_make_texts_differ() {
    let settings = DiffSettings::new();
    let d = line_diff("a\r\nb", "a\nb", &settings);
    assert_eq!(text_of(&d), "---- left\n++++ right\n  1  1 | a\n  2  2 | b\n");
    assert!(styled_line_diff("a\r\n", "a\n", &settings).is_some());
}

#[test]
fn counting_lines() {
    assert_eq!(count_lines(""), 0);
    assert_eq!(count_lines("a"), 1);
    assert_eq!(count_lines("a\n"), 1);
    assert_eq!(count_lines("a\n\n"), 2);
    assert_eq!(count_lines("a\r\nb\nc\r"), 3);
    assert_eq!(count_lines("\n"), 1);
    assert_eq!(count_lines("é\nü"), 2);
}

#[test]
fn final_line_feed_counts_as_a_line() {
    let settings = DiffSettings::new();
    let d = line_diff("a", "a\n", &settings);
    assert_eq!(text_of(&d), "---- left\n++++ right\n  1  1 | a\n     2 + \n");
}

#[test]
fn default_layout_without_names() {
    let settings = DiffSettings::new();
    let d = line_diff("a\nb\nc", "a\nx\nc", &settings);
    assert_eq!(
        text_of(&d),
        "---- left\n++++ right\n  1  1 | a\n  2    - b\n     2 + x\n  3  3 | c\n"
    );
}

#[test]
fn line_numbers_pad_to_the_widest() {
    let settings = DiffSettings::new().max_line_number(100);
    let d = line_diff("a", "b", &settings);
    assert_eq!(text_of(&d), "---- left\n++++ right\n    1      - a\n         1 + b\n");
}

#[test]
fn settings_defaults_and_builders() {
    let s = DiffSettings::new();
    assert_eq!(s.left_name, None);
    assert_eq!(s.right_name, None);
    assert_eq!(s.left_marker, '-');
    assert_eq!(s.right_marker, '+');
    assert_eq!(s.marker_count, 4);
    assert_eq!(s.indent_spaces, 2);
    assert!(!s.force_color);
    assert!(!s.no_color);
    assert_eq!(s.left_color, Some(DiffColor::Green));
    assert_eq!(s.right_color, Some(DiffColor::Red));
    assert_eq!(s.max_line_number, 0);
    let s = s.names("l".to_string(), "r".to_string()).max_line_number(7);
    assert_eq!(s.left_name.as_deref(), Some("l"));
    assert_eq!(s.right_name.as_deref(), Some("r"));
    assert_eq!(s.max_line_number, 7);
    assert_eq!(s.marker_count, 4);
}

#[test]
fn resolved_colors_fall_back_to_defaults() {
    let mut s = DiffSettings::new();
    s.left_color = None;
    s.right_color = Some(DiffColor::Blue);
    assert_eq!(s.resolved_left_color(), DiffColor::Green);
    assert_eq!(s.resolved_right_color(), DiffColor::Blue);
    s.right_color = None;
    assert_eq!(s.resolved_right_color(), DiffColor::Red);
}

#[test]
fn headers() {
    let name = "file.txt".to_string();
    assert_eq!(header(Side::Left, Some(&name), '-', 4), "---- left:  file.txt");
    assert_eq!(header(Side::Right, Some(&name), '+', 4), "++++ right: file.txt");
    assert_eq!(header(Side::Left, None, '=', 2), "== left");
    assert_eq!(header(Side::Right, None, '*', 0), " right");
    assert_eq!(Side::Left.label(), "left");
    assert_eq!(Side::Right.label(), "right");
}

#[test]
fn column_width() {
    assert_eq!(number_column_width(0), 1);
    assert_eq!(number_column_width(9), 1);
    assert_eq!(number_column_width(30), 2);
    assert_eq!(number_column_width(100), 3);
}

#[test]
fn render_given_entries() {
    let entries = vec![
        DiffLine { side: LineSide::Right, text: "new".to_string() },
        DiffLine { side: LineSide::Both, text: "same".to_string() },
        DiffLine { side: LineSide::Left, text: "old".to_string() },
    ];
    let settings = DiffSettings::new().names("a".to_string(), "b".to_string());
    let lines = render_line_diff(&entries, &settings);
    assert_eq!(
        lines,
        vec![
            "---- left:  a".to_string(),
            "++++ right: b".to_string(),
            "     1 + new".to_string(),
            "  1  2 | same".to_string(),
            "  2    - old".to_string(),
        ]
    );
}

#[test]
fn styled_lines_follow_sides() {
    let settings = DiffSettings::new();
    assert!(styled_line_diff("a", "a", &settings).is_none());
    let lines = styled_line_diff("a\nb", "a\nc", &settings).unwrap();
    let styles: Vec<LineStyle> = lines.iter().map(|l| l.style).collect();
    assert_eq!(
        styles,
        vec![
            LineStyle::Colored(DiffColor::Green),
            LineStyle::Colored(DiffColor::Red),
            LineStyle::Dimmed,
            LineStyle::Colored(DiffColor::Green),
            LineStyle::Colored(DiffColor::Red),
        ]
    );
    assert_eq!(lines[3].text, "  2    - b");
    assert_eq!(lines[4].text, "     2 + c");
}

#[test]
fn diff_render() {
    assert_eq!(Diff::Same.render(), "");
    assert_eq!(Diff::Diff("x\n".to_string()).render(), "x\n");
}

#[test]
fn display_names() {
    assert_eq!(display_name("/home/u/p/a.txt", "/home/u"), "./p/a.txt");
    assert_eq!(display_name("a.txt", "/home/u"), "a.txt");
    assert_eq!(display_name("/other/a.txt", "/home/u"), "./../../other/a.txt");
    assert_eq!(shown_path(Some("x".to_string()), "/y/x"), "./x");
    assert_eq!(shown_path(None, "/y/x"), "/y/x");
}

#[test]
fn joining_paths() {
    assert_eq!(join_path("dir", "f.txt"), "dir/f.txt");
    assert_eq!(join_path("dir/", "f.txt"), "dir/f.txt");
    assert_eq!(join_path("", "f.txt"), "f.txt");
    assert_eq!(join_path("dir", "/abs/f.txt"), "/abs/f.txt");
}
