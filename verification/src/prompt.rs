//! Reading the user's answers.
//!
//! Every question is answered by one line of input. A line that does not
//! answer the question is passed over and the question is asked again, so
//! each rule comes in two forms: what one line means, and what a whole
//! sequence of lines leads to.

use vstd::prelude::*;
use crate::index::Note;
use crate::text::{
    Classified,
    classified,
    classify,
    same_text,
    texts,
    trim,
    trim_bounds,
    trim_range,
    trimmed,
    whitespace_of,
};

verus! {

/// What the user can ask for.
#[derive(Clone, Copy, Debug, PartialEq, Eq, Structural)]
pub enum Action {
    CreateNote,
    Delete,
    CreateProject,
}

/// The user's answer to "are you sure?".
#[derive(Clone, Copy, Debug, PartialEq, Eq, Structural)]
pub enum Confirmation {
    Yes,
    No,
}

/// The action that `answer` names: `c`, `d` or `p`, and nothing else.
pub open spec fn action_of(answer: Seq<char>) -> Option<Action> {
    if answer == "c"@ {
        Some(Action::CreateNote)
    } else if answer == "d"@ {
        Some(Action::Delete)
    } else if answer == "p"@ {
        Some(Action::CreateProject)
    } else {
        None
    }
}

/// The confirmation that `answer` gives: `y` or `n`, and nothing else.
pub open spec fn confirmation_of(answer: Seq<char>) -> Option<Confirmation> {
    if answer == "y"@ {
        Some(Confirmation::Yes)
    } else if answer == "n"@ {
        Some(Confirmation::No)
    } else {
        None
    }
}

/// Whether some note of `notes` has `answer` as its relative path.
pub open spec fn names_note(notes: Seq<Note>, answer: Seq<char>) -> bool {
    exists|i: int| 0 <= i < notes.len() && (#[trigger] notes[i]).trunc_path@ == answer
}

/// The note that `answer` names: `answer` itself where it is the relative
/// path of a note of `notes`.
pub open spec fn note_of(notes: Seq<Note>, answer: Seq<char>) -> Option<Seq<char>> {
    if names_note(notes, answer) {
        Some(answer)
    } else {
        None
    }
}

/// Whether a character may stand in a project name: alphanumerics, `_` and
/// `.` may.
pub open spec fn is_name_char(c: Classified) -> bool {
    c.alphanumeric || c.ch == '_' || c.ch == '.'
}

/// Whether `text` is a project name once the whitespace at its ends is
/// dropped: something is left, and every character left may stand in a name.
pub open spec fn names_project(text: Seq<Classified>) -> bool {
    let range = trim_range(whitespace_of(text));
    range.0 < range.1 && forall|i: int| range.0 <= i < range.1 ==> is_name_char(#[trigger] text[i])
}

/// Whether `name` is a valid project name. Whitespace around the name is
/// ignored; whitespace inside it is not allowed.
pub open spec fn valid_project_name(name: Seq<char>) -> bool {
    names_project(classified(name))
}

/// The project name that `line` gives: its trimmed text where that is valid.
pub open spec fn project_name_of(line: Seq<char>) -> Option<Seq<char>> {
    if valid_project_name(line) {
        Some(trimmed(line))
    } else {
        None
    }
}

/// The action that the exact answer `answer` names.
pub fn action_for(answer: &str) -> (action: Option<Action>)
    ensures
        action == action_of(answer@),
{
    if same_text(answer, "c") {
        Some(Action::CreateNote)
    } else if same_text(answer, "d") {
        Some(Action::Delete)
    } else if same_text(answer, "p") {
        Some(Action::CreateProject)
    } else {
        None
    }
}

/// The action that a line of input names, whitespace around it ignored.
/// `None` means that the question is to be asked again.
pub fn parse_action(line: &str) -> (action: Option<Action>)
    ensures
        action == action_of(trimmed(line@)),
{
    let answer = trim(line);
    action_for(answer.as_str())
}

/// The confirmation that the exact answer `answer` gives.
pub fn confirmation_for(answer: &str) -> (confirmation: Option<Confirmation>)
    ensures
        confirmation == confirmation_of(answer@),
{
    if same_text(answer, "y") {
        Some(Confirmation::Yes)
    } else if same_text(answer, "n") {
        Some(Confirmation::No)
    } else {
        None
    }
}

/// The confirmation that a line of input gives, whitespace around it
/// ignored. `None` means that the question is to be asked again.
pub fn parse_confirmation(line: &str) -> (confirmation: Option<Confirmation>)
    ensures
        confirmation == confirmation_of(trimmed(line@)),
{
    let answer = trim(line);
    confirmation_for(answer.as_str())
}

/// The relative path that the exact answer `answer` selects among `notes`.
pub fn note_for(notes: &Vec<Note>, answer: &str) -> (selected: Option<String>)
    ensures
        match selected {
            Some(path) => note_of(notes@, answer@) == Some(path@),
            None => note_of(notes@, answer@) is None,
        },
{
    let mut i: usize = 0;
    while i < notes.len()
        invariant
            i <= notes.len(),
            forall|j: int| 0 <= j < i ==> (#[trigger] notes[j]).trunc_path@ != answer@,
        decreases notes.len() - i,
    {
        if same_text(notes[i].trunc_path.as_str(), answer) {
            return Some(String::from_str(answer));
        }
        i += 1;
    }
    None
}

/// The relative path that a line of input selects among `notes`, whitespace
/// around it ignored. `None` means that the question is to be asked again.
pub fn parse_note(notes: &Vec<Note>, line: &str) -> (selected: Option<String>)
    ensures
        match selected {
            Some(path) => note_of(notes@, trimmed(line@)) == Some(path@),
            None => note_of(notes@, trimmed(line@)) is None,
        },
{
    let answer = trim(line);
    note_for(notes, answer.as_str())
}

/// Whether a character of the given classes may stand in a project name.
pub fn is_project_name_char(c: Classified) -> (allowed: bool)
    ensures
        allowed == is_name_char(c),
{
    c.alphanumeric || c.ch == '_' || c.ch == '.'
}

/// Whether classified text is a project name once the whitespace at its ends
/// is dropped.
pub fn project_name_valid(text: &Vec<Classified>) -> (valid: bool)
    ensures
        valid == names_project(text@),
{
    let range = trim_bounds(text);
    if range.0 == range.1 {
        return false;
    }
    let mut i: usize = range.0;
    while i < range.1
        invariant
            range.0 <= i <= range.1 <= text.len(),
            (range.0 as int, range.1 as int) == trim_range(whitespace_of(text@)),
            forall|j: int| range.0 <= j < i ==> is_name_char(#[trigger] text[j]),
        decreases range.1 - i,
    {
        if !is_project_name_char(text[i]) {
            return false;
        }
        i += 1;
    }
    true
}

/// Whether `project_name` is a valid project name.
pub fn validate_project_name(project_name: &String) -> (valid: bool)
    ensures
        valid == valid_project_name(project_name@),
{
    let text = classify(project_name.as_str());
    project_name_valid(&text)
}

/// The project name that a line of input gives: the line without the
/// whitespace around it, if that is a valid name. `None` means that the
/// question is to be asked again.
pub fn parse_project_name(line: &str) -> (name: Option<String>)
    ensures
        match name {
            Some(n) => project_name_of(line@) == Some(n@),
            None => project_name_of(line@) is None,
        },
{
    let text = classify(line);
    if project_name_valid(&text) {
        Some(trim(line))
    } else {
        None
    }
}

/// A source of input lines that is known in advance.
pub struct Input {
    lines: Vec<String>,
    next: usize,
}

impl Input {
    #[verifier::type_invariant]
    spec fn within(self) -> bool {
        self.next <= self.lines.len()
    }

    /// The lines that have not been read yet.
    pub closed spec fn remaining(&self) -> Seq<Seq<char>> {
        texts(self.lines@).skip(self.next as int)
    }

    /// An input that will give `lines`, first to last.
    pub fn new(lines: Vec<String>) -> (input: Input)
        ensures
            input.remaining() == texts(lines@),
    {
        Input { lines, next: 0 }
    }

    /// Reads the next line, if there is one.
    pub fn read_line(&mut self) -> (line: Option<String>)
        ensures
            match line {
                Some(text) => old(self).remaining().len() > 0 && text@ == old(self).remaining()[0]
                    && final(self).remaining() == old(self).remaining().drop_first(),
                None => old(self).remaining().len() == 0 && final(self).remaining().len() == 0,
            },
    {
        proof {
            use_type_invariant(&*self);
        }
        if self.next < self.lines.len() {
            let text = self.lines[self.next].clone();
            self.next = self.next + 1;
            Some(text)
        } else {
            None
        }
    }
}

/// Asking a question until it is answered. The lines `before` are read one
/// by one; `answer` says what a line answers, if anything. The first line
/// that answers gives `result`, and `after` is what follows it. Where no line
/// answers there is no result, and nothing is left to read.
pub open spec fn asked<T>(
    before: Seq<Seq<char>>,
    after: Seq<Seq<char>>,
    answer: spec_fn(Seq<char>) -> Option<T>,
    result: Option<T>,
) -> bool {
    match result {
        Some(_) => exists|k: int|
            0 <= k < before.len() && #[trigger] answer(before[k]) == result && after
                == before.skip(k + 1) && forall|j: int|
                0 <= j < k ==> #[trigger] answer(before[j]) is None,
        None => after.len() == 0 && forall|j: int|
            0 <= j < before.len() ==> #[trigger] answer(before[j]) is None,
    }
}

/// Asks for an action until a line names one.
pub fn prompt_for_action(input: &mut Input) -> (action: Option<Action>)
    ensures
        asked(
            old(input).remaining(),
            final(input).remaining(),
            |line: Seq<char>| action_of(trimmed(line)),
            action,
        ),
{
    let ghost before = input.remaining();
    let ghost answer = |line: Seq<char>| action_of(trimmed(line));
    let ghost mut read: int = 0;
    loop
        invariant
            before == old(input).remaining(),
            answer == (|line: Seq<char>| action_of(trimmed(line))),
            0 <= read <= before.len(),
            input.remaining() == before.skip(read),
            forall|j: int| 0 <= j < read ==> #[trigger] answer(before[j]) is None,
        decreases before.len() - read,
    {
        match input.read_line() {
            None => {
                return None;
            },
            Some(line) => {
                assert(input.remaining() =~= before.skip(read + 1));
                let action = parse_action(line.as_str());
                if action.is_some() {
                    return action;
                }
                assert(answer(before[read]) is None);
                proof {
                    read = read + 1;
                }
            },
        }
    }
}

/// Asks for a confirmation until a line gives one.
pub fn confirm_delete(input: &mut Input) -> (confirmation: Option<Confirmation>)
    ensures
        asked(
            old(input).remaining(),
            final(input).remaining(),
            |line: Seq<char>| confirmation_of(trimmed(line)),
            confirmation,
        ),
{
    let ghost before = input.remaining();
    let ghost answer = |line: Seq<char>| confirmation_of(trimmed(line));
    let ghost mut read: int = 0;
    loop
        invariant
            before == old(input).remaining(),
            answer == (|line: Seq<char>| confirmation_of(trimmed(line))),
            0 <= read <= before.len(),
            input.remaining() == before.skip(read),
            forall|j: int| 0 <= j < read ==> #[trigger] answer(before[j]) is None,
        decreases before.len() - read,
    {
        match input.read_line() {
            None => {
                return None;
            },
            Some(line) => {
                assert(input.remaining() =~= before.skip(read + 1));
                let confirmation = parse_confirmation(line.as_str());
                if confirmation.is_some() {
                    return confirmation;
                }
                assert(answer(before[read]) is None);
                proof {
                    read = read + 1;
                }
            },
        }
    }
}

/// The text of a string that may be missing.
pub open spec fn text_of(s: Option<String>) -> Option<Seq<char>> {
    match s {
        Some(text) => Some(text@),
        None => None,
    }
}

/// Asks for a note until a line is the relative path of one of `notes`.
pub fn prompt_for_note(notes: &Vec<Note>, input: &mut Input) -> (selected: Option<String>)
    ensures
        asked(
            old(input).remaining(),
            final(input).remaining(),
            |line: Seq<char>| note_of(notes@, trimmed(line)),
            text_of(selected),
        ),
{
    let ghost before = input.remaining();
    let ghost answer = |line: Seq<char>| note_of(notes@, trimmed(line));
    let ghost mut read: int = 0;
    loop
        invariant
            before == old(input).remaining(),
            answer == (|line: Seq<char>| note_of(notes@, trimmed(line))),
            0 <= read <= before.len(),
            input.remaining() == before.skip(read),
            forall|j: int| 0 <= j < read ==> #[trigger] answer(before[j]) is None,
        decreases before.len() - read,
    {
        match input.read_line() {
            None => {
                return None;
            },
            Some(line) => {
                assert(input.remaining() =~= before.skip(read + 1));
                let selected = parse_note(notes, line.as_str());
                if selected.is_some() {
                    return selected;
                }
                assert(answer(before[read]) is None);
                proof {
                    read = read + 1;
                }
            },
        }
    }
}

/// Asks for a project name until a line gives a valid one.
pub fn prompt_for_project_name(input: &mut Input) -> (name: Option<String>)
    ensures
        asked(
            old(input).remaining(),
            final(input).remaining(),
            |line: Seq<char>| project_name_of(line),
            text_of(name),
        ),
{
    let ghost before = input.remaining();
    let ghost answer = |line: Seq<char>| project_name_of(line);
    let ghost mut read: int = 0;
    loop
        invariant
            before == old(input).remaining(),
            answer == (|line: Seq<char>| project_name_of(line)),
            0 <= read <= before.len(),
            input.remaining() == before.skip(read),
            forall|j: int| 0 <= j < read ==> #[trigger] answer(before[j]) is None,
        decreases before.len() - read,
    {
        match input.read_line() {
            None => {
                return None;
            },
            Some(line) => {
                assert(input.remaining() =~= before.skip(read + 1));
                let name = parse_project_name(line.as_str());
                if name.is_some() {
                    return name;
                }
                assert(answer(before[read]) is None);
                proof {
                    read = read + 1;
                }
            },
        }
    }
}

} // verus!
