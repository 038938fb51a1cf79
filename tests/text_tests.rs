use limail::unify_new_lines;

fn unify(s: &str) -> String {
    unify_new_lines(&String::from(s))
}

#[test]
fn blank_run_collapses_to_one() {
    assert_eq!(unify("Line1\n\n\n\nLine2"), "Line1\n\nLine2");
}

#[test]
fn single_blank_line_stays() {
    assert_eq!(unify("a\n\nb"), "a\n\nb");
}

#[test]
fn lines_are_trimmed() {
    assert_eq!(unify("  a  \n\tb\r\n c"), "a\nb\nc");
}

#[test]
fn whitespace_only_lines_count_as_blank() {
    assert_eq!(unify("a\n   \n\t\n \u{a0}\nb"), "a\n\nb");
}

#[test]
fn empty_body_stays_empty() {
    assert_eq!(unify(""), "");
}

#[test]
fn leading_and_trailing_blank_runs_keep_one_line() {
    assert_eq!(unify("\n\n\na\n\n\n"), "\na\n");
}

#[test]
fn unify_is_idempotent_on_samples() {
    for s in ["Line1\n\n\n\nLine2", "  x \n\n \n y\n", "\n\n", "abc", " \r\n\r\n z "] {
        let once = unify(s);
        assert_eq!(unify_new_lines(&once), once);
    }
}
