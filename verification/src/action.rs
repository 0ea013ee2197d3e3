//! Carrying out the chosen action: which note file to create, which file to
//! remove, which directory to make.

use vstd::prelude::*;
use crate::path::{join, join_paths};
use crate::probe::{Config, FsError, FsErrorKind};
use crate::prompt::{Confirmation, valid_project_name, validate_project_name};
use crate::text::{contains_text, decimal, push_decimal, texts, trim, trimmed};

verus! {

/// The file name of the new note numbered `n`.
pub open spec fn note_name(n: nat) -> Seq<char> {
    "new_note_"@ + decimal(n) + ".md"@
}

/// The first number from `from` on whose note name is not among `taken`, as
/// far as numbers go on this machine.
pub open spec fn first_free(from: nat, taken: Seq<Seq<char>>) -> Option<nat>
    decreases usize::MAX - from + 1,
{
    if from > usize::MAX {
        None
    } else if !taken.contains(note_name(from)) {
        Some(from)
    } else {
        first_free(from + 1, taken)
    }
}

/// `first_free` gives a number whose note name is free while those of all
/// smaller numbers from `from` on are taken, and gives none only where every
/// name is taken.
pub proof fn lemma_first_free(from: nat, taken: Seq<Seq<char>>)
    ensures
        match first_free(from, taken) {
            Some(n) => from <= n <= usize::MAX && !taken.contains(note_name(n)) && forall|m: nat|
                from <= m < n ==> taken.contains(#[trigger] note_name(m)),
            None => forall|m: nat|
                from <= m <= usize::MAX ==> taken.contains(#[trigger] note_name(m)),
        },
    decreases usize::MAX - from + 1,
{
    if from <= usize::MAX && taken.contains(note_name(from)) {
        lemma_first_free(from + 1, taken);
    }
}

/// The number at which the search for a new note's name starts when there
/// are `note_count` notes: one more than that, or the largest number where
/// there is no larger one.
pub open spec fn first_suffix(note_count: usize) -> usize {
    if note_count < usize::MAX {
        (note_count + 1) as usize
    } else {
        usize::MAX
    }
}

/// The number at which the search for a new note's name starts when there
/// are `note_count` notes.
pub fn starting_suffix(note_count: usize) -> (suffix: usize)
    ensures
        suffix == first_suffix(note_count),
{
    if note_count < usize::MAX {
        note_count + 1
    } else {
        note_count
    }
}

/// The file name of the new note numbered `n`.
pub fn note_file_name(n: usize) -> (name: String)
    ensures
        name@ == note_name(n as nat),
{
    let mut name = String::from_str("new_note_");
    push_decimal(&mut name, n);
    name.append(".md");
    name
}

/// The path at which the new note numbered `suffix` would be created.
pub fn note_candidate(config: &Config, suffix: usize) -> (path: String)
    ensures
        path@ == join_paths(config.root_dir@, note_name(suffix as nat)),
{
    let name = note_file_name(suffix);
    join(config.root_dir.as_str(), name.as_str())
}

/// What to do once it is known whether a candidate path exists.
#[derive(Clone, Debug, PartialEq, Eq)]
pub enum Attempt {
    /// The path is free: create the note there.
    Create { path: String },
    /// The path is taken: try this number next.
    Retry { suffix: usize },
    /// The path is taken and there is no further number to try.
    Exhausted,
}

/// Decides how to go on after probing the candidate numbered `suffix`.
pub fn next_attempt(config: &Config, suffix: usize, exists: bool) -> (attempt: Attempt)
    ensures
        match attempt {
            Attempt::Create { path } => !exists && path@ == join_paths(
                config.root_dir@,
                note_name(suffix as nat),
            ),
            Attempt::Retry { suffix: next } => exists && next == suffix + 1,
            Attempt::Exhausted => exists && suffix == usize::MAX,
        },
{
    if !exists {
        Attempt::Create { path: note_candidate(config, suffix) }
    } else if suffix < usize::MAX {
        Attempt::Retry { suffix: suffix + 1 }
    } else {
        Attempt::Exhausted
    }
}

/// Picks the path of a new note in a storage root that holds the entries
/// named `taken`.
///
/// Numbers are tried from `note_suffix` upwards; the note gets the first one
/// whose file name is free, so the path returned is not among `taken`.
/// Nothing is returned only if every number up to the largest is taken.
pub fn create_new_note(config: &Config, note_suffix: usize, taken: &Vec<String>) -> (created:
    Option<String>)
    ensures
        match first_free(note_suffix as nat, texts(taken@)) {
            Some(n) => created is Some && created->0@ == join_paths(
                config.root_dir@,
                note_name(n),
            ),
            None => created is None,
        },
{
    let mut suffix = note_suffix;
    loop
        invariant
            first_free(suffix as nat, texts(taken@)) == first_free(
                note_suffix as nat,
                texts(taken@),
            ),
        decreases usize::MAX - suffix,
    {
        let name = note_file_name(suffix);
        let exists = contains_text(taken, name.as_str());
        match next_attempt(config, suffix, exists) {
            Attempt::Create { path } => {
                return Some(path);
            },
            Attempt::Retry { suffix: next } => {
                suffix = next;
            },
            Attempt::Exhausted => {
                assert(first_free((suffix + 1) as nat, texts(taken@)) is None);
                return None;
            },
        }
    }
}

/// What a confirmed or refused deletion comes to.
#[derive(Clone, Debug, PartialEq, Eq)]
pub enum Deletion {
    /// Remove the file at this path.
    Remove { path: String },
    /// Leave everything as it is and end the run with this exit code.
    Cancel { exit_code: i32 },
}

/// Decides what follows the user's confirmation for deleting the note with
/// the relative path `note`: on yes the note's file under the storage root is
/// removed; on no the run ends with exit code 0.
pub fn plan_deletion(config: &Config, note: &str, confirmation: Confirmation) -> (plan: Deletion)
    ensures
        match confirmation {
            Confirmation::Yes => plan matches Deletion::Remove { path } && path@ == join_paths(
                config.root_dir@,
                note@,
            ),
            Confirmation::No => plan matches Deletion::Cancel { exit_code } && exit_code == 0,
        },
{
    match confirmation {
        Confirmation::Yes => Deletion::Remove { path: join(config.root_dir.as_str(), note) },
        Confirmation::No => Deletion::Cancel { exit_code: 0 },
    }
}

/// What removing the file at `full_path` came to, given what the attempt
/// returned: `true` once it is gone, or an error on that path.
pub fn delete(full_path: &str, removed: Result<(), FsErrorKind>) -> (done: Result<bool, FsError>)
    ensures
        match removed {
            Ok(_) => done == Ok::<bool, FsError>(true),
            Err(kind) => done is Err && done->Err_0.kind == kind && done->Err_0.path@
                == full_path@,
        },
{
    match removed {
        Ok(_) => Ok(true),
        Err(kind) => Err(FsError { kind, path: String::from_str(full_path) }),
    }
}

/// A project that cannot be created because something is in its place.
#[derive(Clone, Debug, PartialEq, Eq)]
pub struct AlreadyExists {
    /// The path at which the project's directory would have been made.
    pub path: String,
}

/// The path of the directory of the project called `name`, if that is a
/// valid project name: the name, without the whitespace around it, under the
/// storage root.
pub fn project_path(config: &Config, name: &String) -> (path: Option<String>)
    ensures
        match path {
            Some(p) => valid_project_name(name@) && p@ == join_paths(
                config.root_dir@,
                trimmed(name@),
            ),
            None => !valid_project_name(name@),
        },
{
    if validate_project_name(name) {
        let dir = trim(name.as_str());
        Some(join(config.root_dir.as_str(), dir.as_str()))
    } else {
        None
    }
}

/// Decides whether a project can be created at `path`, given whether
/// something exists there already. A project is never created over a file or
/// a directory that is there; otherwise the result is the path of the
/// directory to make.
pub fn create_project(path: String, exists: bool) -> (created: Result<String, AlreadyExists>)
    ensures
        match created {
            Ok(dir) => !exists && dir == path,
            Err(error) => exists && error.path == path,
        },
{
    if exists {
        Err(AlreadyExists { path })
    } else {
        Ok(path)
    }
}

} // verus!
