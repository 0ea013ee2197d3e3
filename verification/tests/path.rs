use clife::path::join;

#[test]
fn join_puts_one_separator_between() {
    assert_eq!(join("/home/parker/.clife", "a"), "/home/parker/.clife/a");
    assert_eq!(join("/home/parker/.clife/", "a"), "/home/parker/.clife/a");
    assert_eq!(join("a", "x.md"), "a/x.md");
}

#[test]
fn join_onto_nothing_is_the_relative_path() {
    assert_eq!(join("", "x.md"), "x.md");
}

#[test]
fn join_with_an_absolute_path_is_that_path() {
    assert_eq!(join("/home", "/etc/passwd"), "/etc/passwd");
}

#[test]
fn join_with_nothing_ends_in_a_separator() {
    assert_eq!(join("/home", ""), "/home/");
    assert_eq!(join("/home/", ""), "/home/");
}

#[test]
fn join_agrees_with_the_standard_path_type() {
    for (base, rel) in [("/r", "a"), ("/r/", "a/b"), ("", "a"), ("/r", "/abs"), ("/r", ""), ("r", "é")] {
        let mut expected = std::path::PathBuf::from(base);
        expected.push(rel);
        assert_eq!(join(base, rel), expected.to_str().unwrap());
    }
}
