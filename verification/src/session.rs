//! A whole run, one turn at a time.
//!
//! A run is a chain of turns. Each turn says what the run needs from outside
//! (a probe of the disk, a directory listing, a line from the user, an
//! operation on disk) and takes the answer to the next turn, until the run
//! ends. The stages come in a fixed order: the storage root is probed, and
//! created where it is missing; the notes are indexed; the user picks an
//! action; the action is carried out. A run never goes back to an earlier
//! stage.

use vstd::prelude::*;
use crate::action::{
    Attempt,
    Deletion,
    create_project,
    delete,
    first_suffix,
    next_attempt,
    note_candidate,
    note_name,
    plan_deletion,
    project_path,
    starting_suffix,
};
use crate::index::{
    DirEntry,
    Note,
    Pending,
    Walk,
    WalkView,
    Walker,
    all_under,
    begin_view,
    entered,
    entry_views,
    settled,
    trunc_paths,
};
use crate::path::join_paths;
use crate::probe::{Config, FsError, FsErrorKind, create_root_folder, detect_root_folder};
use crate::prompt::{
    Action,
    Confirmation,
    action_of,
    confirmation_of,
    note_of,
    parse_action,
    parse_confirmation,
    parse_note,
    valid_project_name,
};
use crate::text::trimmed;

verus! {

/// An operation on disk.
#[derive(Clone, Copy, Debug, PartialEq, Eq, Structural)]
pub enum Task {
    /// Create the storage root and every missing directory above it.
    CreateRoot,
    /// Create an empty note file and open it in the editor.
    CreateNote,
    /// Remove a note file.
    RemoveFile,
    /// Create the directory of a project.
    CreateDir,
}

/// What the user is asked.
#[derive(Clone, Debug, PartialEq, Eq)]
pub enum Question {
    /// Which action to take.
    Action,
    /// Which note to delete.
    Note,
    /// Whether to delete the note with this relative path.
    Confirm { note: String },
    /// What to call the new project.
    ProjectName,
}

/// What a path is checked for.
#[derive(Clone, Copy, Debug, PartialEq, Eq, Structural)]
pub enum Subject {
    /// The path is the candidate for the new note with this number.
    NoteCandidate { suffix: usize },
    /// The path is where the new project's directory would be made.
    Project,
}

/// The run needs to know whether the storage root exists.
#[derive(Debug)]
pub struct Probe {
    pub config: Config,
}

/// The run needs `task` done at `path`.
#[derive(Debug)]
pub struct Perform {
    pub config: Config,
    pub task: Task,
    pub path: String,
}

/// The run needs the listing of the directory that its walk waits for.
#[derive(Debug)]
pub struct Listing {
    pub config: Config,
    pub pending: Pending,
}

/// The run needs a line from the user in answer to `question`.
#[derive(Debug)]
pub struct Asking {
    pub config: Config,
    /// The note index.
    pub notes: Vec<Note>,
    pub question: Question,
    /// The line that was given to this question before and did not answer it.
    pub rejected: Option<String>,
}

/// The run needs to know whether something exists at `path`.
#[derive(Debug)]
pub struct Checking {
    pub config: Config,
    pub subject: Subject,
    pub path: String,
}

/// One turn of a run: what is needed next, or how the run ended.
#[derive(Debug)]
pub enum Turn {
    /// Find out whether the storage root exists.
    Probe(Probe),
    /// Do something on disk.
    Perform(Perform),
    /// List a directory.
    List(Listing),
    /// Ask the user a question and read a line.
    Ask(Asking),
    /// Find out whether something exists at a path.
    Check(Checking),
    /// The run is over; the process ends with this exit code.
    Exit { code: i32 },
    /// The run cannot go on; the process aborts.
    Abort { error: FsError },
}

/// How far a run has come: probing the root, creating it, indexing, asking
/// for the action, asking for its details, carrying it out, the end.
pub open spec fn stage(turn: Turn) -> nat {
    match turn {
        Turn::Probe(_) => 0,
        Turn::Perform(p) => if p.task is CreateRoot {
            1
        } else {
            6
        },
        Turn::List(_) => 2,
        Turn::Ask(a) => match a.question {
            Question::Action => 3,
            Question::Note => 4,
            Question::ProjectName => 4,
            Question::Confirm { .. } => 5,
        },
        Turn::Check(_) => 5,
        Turn::Exit { .. } => 7,
        Turn::Abort { .. } => 7,
    }
}

/// The turn `next` asks again for what `before` asked for: another directory
/// of the same walk, the same question once more, or the next candidate for
/// a new note.
pub open spec fn repeats(before: Turn, next: Turn) -> bool {
    match (before, next) {
        (Turn::List(_), Turn::List(_)) => true,
        (Turn::Ask(a), Turn::Ask(b)) => a.question == b.question,
        (Turn::Check(a), Turn::Check(b)) => a.subject is NoteCandidate && b.subject is NoteCandidate,
        _ => false,
    }
}

/// A run goes forward only: each turn leads to a later stage, or asks again
/// for the same kind of thing.
pub open spec fn advances(before: Turn, next: Turn) -> bool {
    stage(before) < stage(next) || repeats(before, next)
}

/// The turn with which the run aborts on `path` for the reason `kind`.
pub open spec fn aborts(next: Turn, kind: FsErrorKind, path: Seq<char>) -> bool {
    next matches Turn::Abort { error } && error.kind == kind && error.path@ == path
}

/// The turn with which the run ends normally.
pub open spec fn ends(next: Turn) -> bool {
    next matches Turn::Exit { code } && code == 0
}

/// The turn that starts indexing the storage root of `config`.
pub open spec fn indexes(next: Turn, config: Config) -> bool {
    next matches Turn::List(l) && l.config == config && l.pending@ == begin_view(config.root_dir@)
}

/// The turn that asks `question` for the first time.
pub open spec fn asks(next: Turn, config: Config, notes: Vec<Note>, question: Question) -> bool {
    next == Turn::Ask(Asking { config, notes, question, rejected: None })
}

/// The turn that asks the question of `before` again after `line` did not
/// answer it.
pub open spec fn asks_again(next: Turn, before: Asking, line: String) -> bool {
    next == Turn::Ask(Asking { rejected: Some(line), ..before })
}

/// Starts a run: the first thing to find out is whether the storage root
/// exists.
pub fn start(config: Config) -> (first: Turn)
    ensures
        first == Turn::Probe(Probe { config }),
{
    Turn::Probe(Probe { config })
}

/// The turn that starts indexing the storage root of `config`.
fn begin_index(config: Config) -> (next: Turn)
    ensures
        indexes(next, config),
{
    let pending = Walker::begin(&config);
    Turn::List(Listing { config, pending })
}

impl Probe {
    /// The path to probe.
    pub fn path(&self) -> (path: &String)
        ensures
            path == self.config.root_dir,
    {
        &self.config.root_dir
    }

    /// Goes on from what probing the storage root returned. A root that is
    /// there is indexed; a root that is missing is created first; a probe
    /// that could not be made aborts the run.
    pub fn answer(self, probe: Result<bool, FsErrorKind>) -> (next: Turn)
        ensures
            match probe {
                Ok(true) => indexes(next, self.config),
                Ok(false) => next == Turn::Perform(
                    Perform {
                        config: self.config,
                        task: Task::CreateRoot,
                        path: self.config.root_dir,
                    },
                ),
                Err(kind) => aborts(next, kind, self.config.root_dir@),
            },
            advances(Turn::Probe(self), next),
    {
        match detect_root_folder(&self.config, probe) {
            Ok(true) => begin_index(self.config),
            Ok(false) => {
                let path = self.config.root_dir.clone();
                Turn::Perform(Perform { config: self.config, task: Task::CreateRoot, path })
            },
            Err(error) => Turn::Abort { error },
        }
    }
}

impl Perform {
    /// Goes on from what the operation returned. Once the root is created it
    /// is indexed. Any other operation was the last thing to do: the run
    /// ends. An operation that failed aborts the run, except that a note
    /// file that could not be created is not looked into.
    pub fn answer(self, done: Result<(), FsErrorKind>) -> (next: Turn)
        ensures
            match self.task {
                Task::CreateRoot => match done {
                    Ok(_) => indexes(next, self.config),
                    Err(kind) => aborts(next, kind, self.config.root_dir@),
                },
                Task::CreateNote => ends(next),
                Task::RemoveFile => match done {
                    Ok(_) => ends(next),
                    Err(kind) => aborts(next, kind, self.path@),
                },
                Task::CreateDir => match done {
                    Ok(_) => ends(next),
                    Err(kind) => aborts(next, kind, self.path@),
                },
            },
            advances(Turn::Perform(self), next),
    {
        match self.task {
            Task::CreateRoot => match create_root_folder(&self.config, done) {
                Ok(_) => begin_index(self.config),
                Err(error) => Turn::Abort { error },
            },
            Task::CreateNote => Turn::Exit { code: 0 },
            Task::RemoveFile => match delete(self.path.as_str(), done) {
                Ok(_) => Turn::Exit { code: 0 },
                Err(error) => Turn::Abort { error },
            },
            Task::CreateDir => match done {
                Ok(_) => Turn::Exit { code: 0 },
                Err(kind) => Turn::Abort { error: FsError { kind, path: self.path } },
            },
        }
    }
}

impl Listing {
    /// The path of the directory to list.
    pub fn path(&self) -> (path: &String)
        ensures
            path@ == self.pending@.path,
    {
        self.pending.path()
    }

    /// Goes on from the listing that was asked for. The walk enters the
    /// directory and steps on; if it needs another directory the run asks for
    /// that one, and if it is over the run has its index and asks the user
    /// for an action. A directory that could not be read aborts the run.
    pub fn answer(self, listing: Result<Vec<DirEntry>, FsErrorKind>) -> (next: Turn)
        ensures
            match listing {
                Ok(entries) => match settled(entered(self.pending@, entry_views(entries@))) {
                    WalkView::Read(pending) => next matches Turn::List(l) && l.config
                        == self.config && l.pending@ == pending,
                    WalkView::Done(paths) => next matches Turn::Ask(a) && a.config == self.config
                        && trunc_paths(a.notes@) == paths && all_under(
                        a.notes@,
                        self.pending@.walker.root,
                    ) && a.question == Question::Action && a.rejected is None,
                    WalkView::Continue(_) => false,
                },
                Err(kind) => aborts(next, kind, self.pending@.path),
            },
            advances(Turn::List(self), next),
    {
        let Listing { config, pending } = self;
        match pending.supply(listing) {
            Err(error) => Turn::Abort { error },
            Ok(walker) => match walker.settle() {
                Walk::Read(pending) => Turn::List(Listing { config, pending }),
                Walk::Done(notes) => Turn::Ask(
                    Asking { config, notes, question: Question::Action, rejected: None },
                ),
                Walk::Continue(_) => unreached(),
            },
        }
    }
}

impl Asking {
    /// Goes on from a line of the user's input.
    ///
    /// A line that does not answer the question leads to the same question
    /// again. Otherwise: the action `c` leads to the first candidate for a
    /// new note, `d` to the question which note, `p` to the question for a
    /// project name; the relative path of a note leads to the question
    /// whether to delete it; `y` leads to the removal of the note's file
    /// under the storage root and `n` to the end of the run with exit code 0,
    /// nothing removed; a valid project name leads to a check of the path
    /// where the project's directory would be made.
    pub fn answer(self, line: String) -> (next: Turn)
        ensures
            match self.question {
                Question::Action => match action_of(trimmed(line@)) {
                    None => asks_again(next, self, line),
                    Some(Action::CreateNote) => next matches Turn::Check(c) && c.config
                        == self.config && c.subject == (Subject::NoteCandidate {
                        suffix: first_suffix(self.notes.len()),
                    }) && c.path@ == join_paths(
                        self.config.root_dir@,
                        note_name(first_suffix(self.notes.len()) as nat),
                    ),
                    Some(Action::Delete) => asks(next, self.config, self.notes, Question::Note),
                    Some(Action::CreateProject) => asks(
                        next,
                        self.config,
                        self.notes,
                        Question::ProjectName,
                    ),
                },
                Question::Note => match note_of(self.notes@, trimmed(line@)) {
                    None => asks_again(next, self, line),
                    Some(path) => {
                        &&& next matches Turn::Ask(a)
                        &&& a.config == self.config
                        &&& a.notes == self.notes
                        &&& a.rejected is None
                        &&& a.question matches Question::Confirm { note }
                        &&& note@ == path
                    },
                },
                Question::Confirm { note } => match confirmation_of(trimmed(line@)) {
                    None => asks_again(next, self, line),
                    Some(Confirmation::Yes) => next matches Turn::Perform(p) && p.config
                        == self.config && p.task == Task::RemoveFile && p.path@ == join_paths(
                        self.config.root_dir@,
                        note@,
                    ),
                    Some(Confirmation::No) => ends(next),
                },
                Question::ProjectName => if valid_project_name(line@) {
                    next matches Turn::Check(c) && c.config == self.config && c.subject
                        == Subject::Project && c.path@ == join_paths(
                        self.config.root_dir@,
                        trimmed(line@),
                    )
                } else {
                    asks_again(next, self, line)
                },
            },
            advances(Turn::Ask(self), next),
    {
        let Asking { config, notes, question, rejected: _ } = self;
        match question {
            Question::Action => match parse_action(line.as_str()) {
                None => Turn::Ask(Asking { config, notes, question, rejected: Some(line) }),
                Some(Action::CreateNote) => {
                    let suffix = starting_suffix(notes.len());
                    let path = note_candidate(&config, suffix);
                    Turn::Check(Checking { config, subject: Subject::NoteCandidate { suffix }, path })
                },
                Some(Action::Delete) => Turn::Ask(
                    Asking { config, notes, question: Question::Note, rejected: None },
                ),
                Some(Action::CreateProject) => Turn::Ask(
                    Asking { config, notes, question: Question::ProjectName, rejected: None },
                ),
            },
            Question::Note => match parse_note(&notes, line.as_str()) {
                None => Turn::Ask(Asking { config, notes, question, rejected: Some(line) }),
                Some(note) => Turn::Ask(
                    Asking { config, notes, question: Question::Confirm { note }, rejected: None },
                ),
            },
            Question::Confirm { note } => match parse_confirmation(line.as_str()) {
                None => Turn::Ask(
                    Asking {
                        config,
                        notes,
                        question: Question::Confirm { note },
                        rejected: Some(line),
                    },
                ),
                Some(confirmation) => match plan_deletion(&config, note.as_str(), confirmation) {
                    Deletion::Remove { path } => Turn::Perform(
                        Perform { config, task: Task::RemoveFile, path },
                    ),
                    Deletion::Cancel { exit_code } => Turn::Exit { code: exit_code },
                },
            },
            Question::ProjectName => match project_path(&config, &line) {
                None => Turn::Ask(Asking { config, notes, question, rejected: Some(line) }),
                Some(path) => Turn::Check(Checking { config, subject: Subject::Project, path }),
            },
        }
    }
}

impl Checking {
    /// Goes on from whether something exists at the path.
    ///
    /// A candidate for a new note that is free is created; one that is taken
    /// leads to the candidate with the next number, and aborts the run where
    /// there is no next number. A project's directory is made where nothing
    /// is in its place; otherwise the run aborts.
    pub fn answer(self, exists: bool) -> (next: Turn)
        ensures
            match self.subject {
                Subject::NoteCandidate { suffix } => if !exists {
                    next matches Turn::Perform(p) && p.config == self.config && p.task
                        == Task::CreateNote && p.path@ == join_paths(
                        self.config.root_dir@,
                        note_name(suffix as nat),
                    )
                } else if suffix < usize::MAX {
                    next matches Turn::Check(c) && c.config == self.config && c.subject
                        == (Subject::NoteCandidate { suffix: (suffix + 1) as usize }) && c.path@
                        == join_paths(self.config.root_dir@, note_name((suffix + 1) as nat))
                } else {
                    aborts(next, FsErrorKind::Other, self.path@)
                },
                Subject::Project => if exists {
                    aborts(next, FsErrorKind::Other, self.path@)
                } else {
                    next == Turn::Perform(
                        Perform { config: self.config, task: Task::CreateDir, path: self.path },
                    )
                },
            },
            advances(Turn::Check(self), next),
    {
        let Checking { config, subject, path } = self;
        match subject {
            Subject::NoteCandidate { suffix } => match next_attempt(&config, suffix, exists) {
                Attempt::Create { path } => Turn::Perform(
                    Perform { config, task: Task::CreateNote, path },
                ),
                Attempt::Retry { suffix: next } => {
                    let path = note_candidate(&config, next);
                    Turn::Check(
                        Checking { config, subject: Subject::NoteCandidate { suffix: next }, path },
                    )
                },
                Attempt::Exhausted => Turn::Abort {
                    error: FsError { kind: FsErrorKind::Other, path },
                },
            },
            Subject::Project => match create_project(path, exists) {
                Ok(path) => Turn::Perform(Perform { config, task: Task::CreateDir, path }),
                Err(error) => Turn::Abort {
                    error: FsError { kind: FsErrorKind::Other, path: error.path },
                },
            },
        }
    }
}

} // verus!
