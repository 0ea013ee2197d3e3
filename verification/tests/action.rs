use clife::action::{
    create_new_note, create_project, delete, next_attempt, note_candidate, note_file_name,
    plan_deletion, project_path, starting_suffix, AlreadyExists, Attempt, Deletion,
};
use clife::probe::{Config, FsError, FsErrorKind};
use clife::prompt::{parse_confirmation, Confirmation};

fn config() -> Config {
    Config { root_dir: String::from("/home/parker/.clife") }
}

fn names(text: &[&str]) -> Vec<String> {
    text.iter().map(|n| String::from(*n)).collect()
}

#[test]
fn note_file_name_holds_the_number() {
    assert_eq!(note_file_name(1), "new_note_1.md");
    assert_eq!(note_file_name(6), "new_note_6.md");
    assert_eq!(note_file_name(0), "new_note_0.md");
    assert_eq!(note_file_name(120), "new_note_120.md");
}

#[test]
fn note_candidate_lies_in_the_root() {
    assert_eq!(note_candidate(&config(), 4), "/home/parker/.clife/new_note_4.md");
}

#[test]
fn new_note_takes_the_first_free_number() {
    let taken = names(&["new_note_5.md"]);
    assert_eq!(
        create_new_note(&config(), 5, &taken),
        Some(String::from("/home/parker/.clife/new_note_6.md"))
    );
}

#[test]
fn new_note_takes_the_starting_number_when_it_is_free() {
    assert_eq!(
        create_new_note(&config(), 1, &vec![]),
        Some(String::from("/home/parker/.clife/new_note_1.md"))
    );
    let taken = names(&["new_note_1.md", "new_note_2.md", "other.md"]);
    assert_eq!(
        create_new_note(&config(), 4, &taken),
        Some(String::from("/home/parker/.clife/new_note_4.md"))
    );
}

#[test]
fn new_note_skips_every_taken_number() {
    let taken = names(&["new_note_9.md", "new_note_11.md", "new_note_10.md", "a.md"]);
    assert_eq!(
        create_new_note(&config(), 9, &taken),
        Some(String::from("/home/parker/.clife/new_note_12.md"))
    );
}

#[test]
fn new_note_never_counts_down() {
    let taken = names(&["new_note_5.md"]);
    // 4 is free, but the search starts at 5.
    assert_eq!(
        create_new_note(&config(), 5, &taken),
        Some(String::from("/home/parker/.clife/new_note_6.md"))
    );
}

#[test]
fn new_note_is_not_among_the_taken_names() {
    let taken = names(&["new_note_3.md", "new_note_4.md", "new_note_6.md"]);
    let path = create_new_note(&config(), 3, &taken).unwrap();
    assert_eq!(path, "/home/parker/.clife/new_note_5.md");
    for name in &taken {
        assert_ne!(path, format!("/home/parker/.clife/{}", name));
    }
}

#[test]
fn new_note_gives_up_after_the_largest_number() {
    let taken = vec![note_file_name(usize::MAX)];
    assert_eq!(create_new_note(&config(), usize::MAX, &taken), None);
    assert_eq!(
        create_new_note(&config(), usize::MAX, &vec![]),
        Some(format!("/home/parker/.clife/new_note_{}.md", usize::MAX))
    );
}

#[test]
fn next_attempt_creates_where_nothing_exists() {
    assert_eq!(
        next_attempt(&config(), 7, false),
        Attempt::Create { path: String::from("/home/parker/.clife/new_note_7.md") }
    );
}

#[test]
fn next_attempt_moves_on_where_something_exists() {
    assert_eq!(next_attempt(&config(), 7, true), Attempt::Retry { suffix: 8 });
    assert_eq!(next_attempt(&config(), usize::MAX - 1, true), Attempt::Retry { suffix: usize::MAX });
    assert_eq!(next_attempt(&config(), usize::MAX, true), Attempt::Exhausted);
}

#[test]
fn refusing_a_deletion_ends_the_run_cleanly() {
    let confirmation = parse_confirmation("n\n").unwrap();
    assert_eq!(plan_deletion(&config(), "a/x.md", confirmation), Deletion::Cancel { exit_code: 0 });
}

#[test]
fn confirming_a_deletion_removes_the_note_under_the_root() {
    let confirmation = parse_confirmation("y\n").unwrap();
    assert_eq!(
        plan_deletion(&config(), "a/x.md", confirmation),
        Deletion::Remove { path: String::from("/home/parker/.clife/a/x.md") }
    );
    assert_eq!(
        plan_deletion(&config(), "top.md", Confirmation::Yes),
        Deletion::Remove { path: String::from("/home/parker/.clife/top.md") }
    );
}

#[test]
fn delete_reports_success() {
    assert_eq!(delete("/home/parker/.clife/a/x.md", Ok(())), Ok(true));
}

#[test]
fn delete_reports_a_failure_on_the_path() {
    assert_eq!(
        delete("/home/parker/.clife/a/x.md", Err(FsErrorKind::NotFound)),
        Err(FsError { kind: FsErrorKind::NotFound, path: String::from("/home/parker/.clife/a/x.md") })
    );
    assert_eq!(
        delete("/r/x", Err(FsErrorKind::PermissionDenied)),
        Err(FsError { kind: FsErrorKind::PermissionDenied, path: String::from("/r/x") })
    );
}

#[test]
fn project_path_is_the_trimmed_name_under_the_root() {
    assert_eq!(
        project_path(&config(), &String::from("work")),
        Some(String::from("/home/parker/.clife/work"))
    );
    assert_eq!(
        project_path(&config(), &String::from("  my.project \n")),
        Some(String::from("/home/parker/.clife/my.project"))
    );
    assert_eq!(project_path(&config(), &String::from("hello parker")), None);
    assert_eq!(project_path(&config(), &String::from("")), None);
}

#[test]
fn project_is_created_where_nothing_exists() {
    let path = project_path(&config(), &String::from("work")).unwrap();
    assert_eq!(create_project(path, false), Ok(String::from("/home/parker/.clife/work")));
}

#[test]
fn project_is_not_created_over_something() {
    let path = project_path(&config(), &String::from("work")).unwrap();
    assert_eq!(
        create_project(path, true),
        Err(AlreadyExists { path: String::from("/home/parker/.clife/work") })
    );
}

#[test]
fn project_has_no_path_under_an_invalid_name() {
    assert_eq!(project_path(&config(), &String::from("&parker")), None);
    assert_eq!(project_path(&config(), &String::from("a/b")), None);
    assert_eq!(project_path(&config(), &String::from("_hello_(")), None);
}

#[test]
fn search_starts_one_past_the_number_of_notes() {
    assert_eq!(starting_suffix(0), 1);
    assert_eq!(starting_suffix(5), 6);
    assert_eq!(starting_suffix(usize::MAX - 1), usize::MAX);
    assert_eq!(starting_suffix(usize::MAX), usize::MAX);
}
