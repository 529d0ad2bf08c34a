use workdir::{
    answer, attach_nested, decimal_string, fmt_effect, fmt_id, fmt_path, fmt_row, id_to_pos,
    parse_lines, pos_to_id, render_lines, resolve_position, Effect, Prompt,
};

#[test]
fn positions_and_indices() {
    assert_eq!(pos_to_id(1), 0);
    assert_eq!(pos_to_id(19), 18);
    assert_eq!(id_to_pos(0), 1);
    assert_eq!(id_to_pos(18), 19);
    assert_eq!(resolve_position(None), 0);
    assert_eq!(resolve_position(Some(3)), 2);
}

#[test]
fn decimal_numbers() {
    assert_eq!(decimal_string(0), "0");
    assert_eq!(decimal_string(7), "7");
    assert_eq!(decimal_string(10), "10");
    assert_eq!(decimal_string(1234), "1234");
    assert_eq!(decimal_string(usize::MAX), usize::MAX.to_string());
}

#[test]
fn bracketed_positions_and_rows() {
    assert_eq!(fmt_id(0), "[1]");
    assert_eq!(fmt_id(11), "[12]");
    assert_eq!(fmt_path(0, &"/a".to_string()), "[1] /a");
    assert_eq!(fmt_row(2, &"/c".to_string(), false), "[3] /c");
    assert_eq!(fmt_row(2, &"/c".to_string(), true), "[3] /c [*]");
}

#[test]
fn confirmation_texts() {
    let p = "/tmp".to_string();
    assert_eq!(fmt_effect(&Effect::Saved { at: 0 }, &p), "[1] /tmp");
    let c = "/c".to_string();
    assert_eq!(fmt_effect(&Effect::Moved { from: 2, to: 0 }, &c), "[3] -> [1] /c");
}

#[test]
fn nested_detail_follows_a_blank_line() {
    assert_eq!(attach_nested("boom"), "\n\nboom");
    assert_eq!(attach_nested(""), "\n\n");
}

#[test]
fn parse_drops_empty_lines_and_line_endings() {
    let r = parse_lines("/a\n\n/b\r\n\r\n/c");
    assert_eq!(r, vec!["/a".to_string(), "/b".to_string(), "/c".to_string()]);
    assert!(parse_lines("").is_empty());
    assert!(parse_lines("\n\n\n").is_empty());
    assert_eq!(parse_lines("/ä/ö\n"), vec!["/ä/ö".to_string()]);
}

#[test]
fn render_ends_each_path_with_newline() {
    let lines = vec!["/a".to_string(), "/b".to_string()];
    assert_eq!(render_lines(&lines), "/a\n/b\n");
    assert_eq!(render_lines(&Vec::new()), "");
}

#[test]
fn rendered_list_reads_back_the_same() {
    let lines = vec!["/c".to_string(), "/a b".to_string(), "/ü".to_string()];
    assert_eq!(parse_lines(&render_lines(&lines)), lines);
}

#[test]
fn replies_to_the_removal_question() {
    assert_eq!(answer("y\n"), Prompt::Remove);
    assert_eq!(answer("Yes\n"), Prompt::Remove);
    assert_eq!(answer("  n\n"), Prompt::Keep);
    assert_eq!(answer("No"), Prompt::Keep);
    assert_eq!(answer("\u{3000}y"), Prompt::Remove);
    assert_eq!(answer("maybe\n"), Prompt::AskAgain);
    assert_eq!(answer("\n"), Prompt::AskAgain);
    assert_eq!(answer(""), Prompt::AskAgain);
}
