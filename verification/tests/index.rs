use clife::index::{create_note_objects, DirEntry, Node, Note, Walk, Walker};
use clife::probe::{Config, FsError, FsErrorKind};

fn file(name: &str) -> Node {
    Node::File { name: String::from(name) }
}

fn dir(name: &str, children: Vec<Node>) -> Node {
    Node::Dir { name: String::from(name), children }
}

fn unreadable(name: &str, kind: FsErrorKind) -> Node {
    Node::Unreadable { name: String::from(name), kind }
}

fn entry(name: &str, is_dir: bool) -> DirEntry {
    DirEntry { name: String::from(name), is_dir }
}

fn note(full_path: &str, trunc_path: &str) -> Note {
    Note { full_path: String::from(full_path), trunc_path: String::from(trunc_path) }
}

fn config(root: &str) -> Config {
    Config { root_dir: String::from(root) }
}

fn count(tree: &Vec<Node>) -> usize {
    let mut n = 0;
    for node in tree {
        match node {
            Node::File { .. } => n += 1,
            Node::Dir { children, .. } => n += count(children),
            Node::Unreadable { .. } => {}
        }
    }
    n
}

#[test]
fn test_create_note_objects() {
    let config = Config {
        root_dir: String::from("/home/parker/Documents/projects/clife/clife/test_data/.clife/"),
    };
    let tree = vec![dir("a", vec![file("x.md")]), dir("b", vec![file("y.md"), file("z.txt")])];
    let result: Vec<Note> = create_note_objects(&config, &tree).unwrap();
    assert_eq!(result.len(), 3);
}

#[test]
fn index_of_two_directories_lists_their_files_by_relative_path() {
    let config = config("/home/parker/.clife");
    let tree = vec![dir("a", vec![file("x.md")]), dir("b", vec![file("y.md"), file("z.txt")])];
    let notes = create_note_objects(&config, &tree).unwrap();
    assert_eq!(
        notes,
        vec![
            note("/home/parker/.clife/a/x.md", "a/x.md"),
            note("/home/parker/.clife/b/y.md", "b/y.md"),
            note("/home/parker/.clife/b/z.txt", "b/z.txt"),
        ]
    );
}

#[test]
fn index_of_an_empty_root_is_empty() {
    let notes = create_note_objects(&config("/r"), &vec![]).unwrap();
    assert_eq!(notes, vec![]);
}

#[test]
fn index_skips_empty_directories() {
    let tree = vec![dir("a", vec![]), dir("b", vec![dir("c", vec![])])];
    let notes = create_note_objects(&config("/r"), &tree).unwrap();
    assert_eq!(notes, vec![]);
}

#[test]
fn index_descends_into_a_directory_where_it_is_listed() {
    let tree = vec![
        file("first.md"),
        dir("a", vec![file("x.md"), dir("deep", vec![file("y.md")]), file("z.md")]),
        file("last.md"),
    ];
    let notes = create_note_objects(&config("/r"), &tree).unwrap();
    assert_eq!(
        notes,
        vec![
            note("/r/first.md", "first.md"),
            note("/r/a/x.md", "a/x.md"),
            note("/r/a/deep/y.md", "a/deep/y.md"),
            note("/r/a/z.md", "a/z.md"),
            note("/r/last.md", "last.md"),
        ]
    );
}

#[test]
fn index_holds_one_note_for_each_file() {
    let tree = vec![
        file("1"),
        dir("d", vec![file("2"), file("3"), dir("e", vec![file("4"), dir("f", vec![])])]),
        dir("g", vec![dir("h", vec![dir("i", vec![file("5")])])]),
        file("6"),
    ];
    let notes = create_note_objects(&config("/r"), &tree).unwrap();
    assert_eq!(notes.len(), count(&tree));
    assert_eq!(notes.len(), 6);
}

#[test]
fn index_joins_each_relative_path_onto_the_root() {
    let tree = vec![dir("a", vec![file("x.md")]), file("top.md")];
    for root in ["/r", "/r/", "relative/root"] {
        let notes = create_note_objects(&config(root), &tree).unwrap();
        for found in &notes {
            let mut expected = std::path::PathBuf::from(root);
            expected.push(&found.trunc_path);
            assert_eq!(found.full_path, expected.to_str().unwrap());
        }
    }
}

#[test]
fn index_takes_files_of_any_extension() {
    let tree = vec![file("notes.txt"), file("no_extension"), file(".hidden")];
    let notes = create_note_objects(&config("/r"), &tree).unwrap();
    assert_eq!(
        notes,
        vec![
            note("/r/notes.txt", "notes.txt"),
            note("/r/no_extension", "no_extension"),
            note("/r/.hidden", ".hidden"),
        ]
    );
}

#[test]
fn index_fails_on_a_directory_that_cannot_be_read() {
    let tree = vec![file("kept.md"), dir("a", vec![unreadable("locked", FsErrorKind::PermissionDenied)])];
    let result = create_note_objects(&config("/r"), &tree);
    assert_eq!(
        result,
        Err(FsError { kind: FsErrorKind::PermissionDenied, path: String::from("/r/a/locked") })
    );
}

#[test]
fn index_fails_on_the_first_unreadable_directory_of_the_walk() {
    let tree = vec![
        dir("a", vec![file("x.md"), unreadable("gone", FsErrorKind::NotFound)]),
        unreadable("locked", FsErrorKind::PermissionDenied),
    ];
    let result = create_note_objects(&config("/r"), &tree);
    assert_eq!(result, Err(FsError { kind: FsErrorKind::NotFound, path: String::from("/r/a/gone") }));
}

#[test]
fn walk_starts_by_asking_for_the_root() {
    let pending = Walker::begin(&config("/home/parker/.clife"));
    assert_eq!(pending.path(), "/home/parker/.clife");
}

#[test]
fn walk_fails_when_the_root_cannot_be_read() {
    let pending = Walker::begin(&config("/home/parker/.clife"));
    match pending.supply(Err(FsErrorKind::NotFound)) {
        Err(error) => assert_eq!(
            error,
            FsError { kind: FsErrorKind::NotFound, path: String::from("/home/parker/.clife") }
        ),
        Ok(_) => panic!("the walk went on without a listing"),
    }
}

#[test]
fn walk_of_an_empty_root_leaves_it_and_is_done() {
    let walker = Walker::begin(&config("/r")).supply(Ok(vec![])).ok().unwrap();
    let walker = match walker.step() {
        Walk::Continue(walker) => walker,
        _ => panic!("the walk did not leave the empty root"),
    };
    match walker.step() {
        Walk::Done(notes) => assert_eq!(notes, vec![]),
        _ => panic!("the walk did not end"),
    }
}

#[test]
fn walk_records_a_file_and_asks_for_a_directory() {
    let listing = vec![entry("x.md", false), entry("sub", true), entry("y.md", false)];
    let walker = Walker::begin(&config("/r")).supply(Ok(listing)).ok().unwrap();
    // x.md is recorded.
    let walker = match walker.step() {
        Walk::Continue(walker) => walker,
        _ => panic!("a file did not let the walk go on"),
    };
    // sub is asked for.
    let pending = match walker.step() {
        Walk::Read(pending) => pending,
        _ => panic!("a directory was not asked for"),
    };
    assert_eq!(pending.path(), "/r/sub");
    let walker = pending.supply(Ok(vec![entry("z.md", false)])).ok().unwrap();
    // z.md is recorded, sub is left, y.md is recorded, the root is left.
    let mut walker = walker;
    for _ in 0..4 {
        walker = match walker.step() {
            Walk::Continue(walker) => walker,
            _ => panic!("the walk stopped early"),
        };
    }
    match walker.step() {
        Walk::Done(notes) => assert_eq!(
            notes,
            vec![note("/r/x.md", "x.md"), note("/r/sub/z.md", "sub/z.md"), note("/r/y.md", "y.md")]
        ),
        _ => panic!("the walk did not end"),
    }
}

#[test]
fn walk_fails_on_the_path_of_the_directory_it_asked_for() {
    let listing = vec![entry("sub", true)];
    let walker = Walker::begin(&config("/r/")).supply(Ok(listing)).ok().unwrap();
    let pending = match walker.step() {
        Walk::Read(pending) => pending,
        _ => panic!("a directory was not asked for"),
    };
    match pending.supply(Err(FsErrorKind::Other)) {
        Err(error) => {
            assert_eq!(error, FsError { kind: FsErrorKind::Other, path: String::from("/r/sub") })
        }
        Ok(_) => panic!("the walk went on without a listing"),
    }
}

#[test]
fn index_of_a_real_directory_shape_has_no_two_equal_paths() {
    let tree = vec![
        file("x.md"),
        dir("a", vec![file("x.md"), dir("a", vec![file("x.md")])]),
        dir("b", vec![file("x.md"), file("a")]),
        file("a.md"),
    ];
    let notes = create_note_objects(&config("/r"), &tree).unwrap();
    assert_eq!(notes.len(), 6);
    for i in 0..notes.len() {
        for j in 0..notes.len() {
            if i != j {
                assert_ne!(notes[i].trunc_path, notes[j].trunc_path);
                assert_ne!(notes[i].full_path, notes[j].full_path);
            }
        }
    }
}
