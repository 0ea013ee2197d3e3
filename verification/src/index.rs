//! The note index: every file under the storage root, found by walking the
//! directory tree depth first.
//!
//! The walk never touches the disk. It says which directory it needs listed
//! next and is handed the listing; `create_note_objects` runs the same walk
//! over a tree that is already in memory.

use vstd::prelude::*;
use crate::distinct::{lemma_paths_distinct, well_named};
use crate::path::{join, join_paths};
use crate::probe::{Config, FsError, FsErrorKind};

verus! {

/// A note: a file somewhere under the storage root.
#[derive(Clone, Debug, PartialEq, Eq)]
pub struct Note {
    /// The path by which the filesystem finds the note.
    pub full_path: String,
    /// The path relative to the storage root, by which the user names the note.
    pub trunc_path: String,
}

impl Note {
    /// The full path is `root` joined with the relative path.
    pub open spec fn under(&self, root: Seq<char>) -> bool {
        self.full_path@ == join_paths(root, self.trunc_path@)
    }
}

/// The relative paths of `notes`, in order.
pub open spec fn trunc_paths(notes: Seq<Note>) -> Seq<Seq<char>> {
    notes.map_values(|n: Note| n.trunc_path@)
}

/// Every note of `notes` has its full path under `root`.
pub open spec fn all_under(notes: Seq<Note>, root: Seq<char>) -> bool {
    forall|i: int| 0 <= i < notes.len() ==> (#[trigger] notes[i]).under(root)
}

/// One entry of a directory listing.
#[derive(Clone, Debug, PartialEq, Eq)]
pub struct DirEntry {
    /// The entry's name inside its directory.
    pub name: String,
    /// Whether the entry is itself a directory.
    pub is_dir: bool,
}

/// What a `DirEntry` says, with its name as a sequence of characters.
pub struct EntryView {
    pub name: Seq<char>,
    pub is_dir: bool,
}

impl View for DirEntry {
    type V = EntryView;

    open spec fn view(&self) -> EntryView {
        EntryView { name: self.name@, is_dir: self.is_dir }
    }
}

/// The views of `entries`, in order.
pub open spec fn entry_views(entries: Seq<DirEntry>) -> Seq<EntryView> {
    entries.map_values(|e: DirEntry| e@)
}

/// A directory that the walk has entered: its path relative to the root and
/// the entries of its listing that are still to be visited.
pub struct FrameView {
    pub dir: Seq<char>,
    pub rest: Seq<EntryView>,
}

/// The state of a walk between two steps.
pub struct WalkerView {
    /// The storage root.
    pub root: Seq<char>,
    /// The directories entered and not yet left, outermost first.
    pub stack: Seq<FrameView>,
    /// The relative paths of the notes recorded so far.
    pub notes: Seq<Seq<char>>,
}

/// The state of a walk that waits for a directory listing.
pub struct PendingView {
    pub walker: WalkerView,
    /// The awaited directory, relative to the root.
    pub dir: Seq<char>,
    /// The path under which the awaited directory is to be read.
    pub path: Seq<char>,
}

/// What one step of a walk leads to.
pub enum WalkView {
    /// The walk goes on from this state.
    Continue(WalkerView),
    /// The walk needs a directory listed.
    Read(PendingView),
    /// The walk is over; these are the relative paths of its notes.
    Done(Seq<Seq<char>>),
}

/// One step of a walk. With no directory left the walk is over. A directory
/// whose entries are all visited is left. Otherwise the next entry is taken:
/// a file is recorded as a note, a sub-directory is asked for.
pub open spec fn step_of(w: WalkerView) -> WalkView {
    if w.stack.len() == 0 {
        WalkView::Done(w.notes)
    } else {
        let top = w.stack.last();
        if top.rest.len() == 0 {
            WalkView::Continue(WalkerView { stack: w.stack.drop_last(), ..w })
        } else {
            let entry = top.rest[0];
            let path = join_paths(top.dir, entry.name);
            let stack = w.stack.drop_last().push(
                FrameView { dir: top.dir, rest: top.rest.drop_first() },
            );
            if entry.is_dir {
                WalkView::Read(
                    PendingView {
                        walker: WalkerView { stack, ..w },
                        dir: path,
                        path: join_paths(w.root, path),
                    },
                )
            } else {
                WalkView::Continue(WalkerView { stack, notes: w.notes.push(path), ..w })
            }
        }
    }
}

/// The state of a walk of the storage root `root` before its first listing.
pub open spec fn begin_view(root: Seq<char>) -> PendingView {
    PendingView {
        walker: WalkerView { root, stack: Seq::empty(), notes: Seq::empty() },
        dir: Seq::empty(),
        path: root,
    }
}

/// The state of a walk after it is handed `entries` as the listing of the
/// directory it waited for: the walk has entered that directory.
pub open spec fn entered(pending: PendingView, entries: Seq<EntryView>) -> WalkerView {
    WalkerView {
        stack: pending.walker.stack.push(FrameView { dir: pending.dir, rest: entries }),
        ..pending.walker
    }
}

/// How much of a walk is known to lie ahead: every entry still to be visited
/// and every directory still to be left.
pub open spec fn work(stack: Seq<FrameView>) -> nat
    decreases stack.len(),
{
    if stack.len() == 0 {
        0
    } else {
        work(stack.drop_last()) + stack.last().rest.len() + 1
    }
}

/// Every step does some of the work that lies ahead.
pub proof fn lemma_step_works(w: WalkerView)
    ensures
        match step_of(w) {
            WalkView::Continue(next) => work(next.stack) < work(w.stack),
            WalkView::Read(pending) => work(pending.walker.stack) < work(w.stack),
            WalkView::Done(_) => true,
        },
{
    if w.stack.len() > 0 {
        let top = w.stack.last();
        if top.rest.len() > 0 {
            let frame = FrameView { dir: top.dir, rest: top.rest.drop_first() };
            let stack = w.stack.drop_last().push(frame);
            assert(stack.drop_last() =~= w.stack.drop_last());
        }
    }
}

/// Where a walk comes to rest when it steps on for as long as it can: at the
/// next directory that it needs listed, or at its end.
pub open spec fn settled(w: WalkerView) -> WalkView
    decreases work(w.stack),
    via settled_decreases
{
    match step_of(w) {
        WalkView::Continue(next) => settled(next),
        rest => rest,
    }
}

#[via_fn]
proof fn settled_decreases(w: WalkerView) {
    lemma_step_works(w);
}

/// A directory that the walk has entered: its listing, and how far the walk
/// has come in it.
#[derive(Debug)]
struct Frame {
    dir: String,
    entries: Vec<DirEntry>,
    next: usize,
}

impl Frame {
    spec fn wf(&self) -> bool {
        self.next <= self.entries.len()
    }

    spec fn view(&self) -> FrameView {
        FrameView { dir: self.dir@, rest: entry_views(self.entries@).skip(self.next as int) }
    }
}

spec fn frame_views(stack: Seq<Frame>) -> Seq<FrameView> {
    stack.map_values(|f: Frame| f.view())
}

/// A walk that is ready to take its next step.
#[derive(Debug)]
pub struct Walker {
    root: String,
    stack: Vec<Frame>,
    notes: Vec<Note>,
}

/// A walk that waits for the listing of one directory.
#[derive(Debug)]
pub struct Pending {
    walker: Walker,
    dir: String,
    path: String,
}

/// What a step of a walk returned.
#[derive(Debug)]
pub enum Walk {
    /// The walk goes on: take the next step.
    Continue(Walker),
    /// The walk needs a directory listed before it can go on.
    Read(Pending),
    /// The walk is over; these are its notes.
    Done(Vec<Note>),
}

impl View for Walker {
    type V = WalkerView;

    closed spec fn view(&self) -> WalkerView {
        WalkerView {
            root: self.root@,
            stack: frame_views(self.stack@),
            notes: trunc_paths(self.notes@),
        }
    }
}

impl View for Pending {
    type V = PendingView;

    closed spec fn view(&self) -> PendingView {
        PendingView { walker: self.walker@, dir: self.dir@, path: self.path@ }
    }
}

impl Walker {
    #[verifier::type_invariant]
    spec fn sound(self) -> bool {
        &&& forall|i: int| 0 <= i < self.stack.len() ==> (#[trigger] self.stack[i]).wf()
        &&& all_under(self.notes@, self.root@)
    }

    /// Starts a walk of the storage root. The first thing it needs is the
    /// listing of the root itself.
    pub fn begin(config: &Config) -> (pending: Pending)
        ensures
            pending@ == begin_view(config.root_dir@),
    {
        let pending = Pending {
            walker: Walker { root: config.root_dir.clone(), stack: Vec::new(), notes: Vec::new() },
            dir: String::new(),
            path: config.root_dir.clone(),
        };
        assert(pending@.walker.stack =~= Seq::empty());
        assert(pending@.walker.notes =~= Seq::empty());
        pending
    }

    /// Takes one step.
    pub fn step(self) -> (next: Walk)
        ensures
            match (next, step_of(self@)) {
                (Walk::Continue(w), WalkView::Continue(v)) => w@ == v,
                (Walk::Read(p), WalkView::Read(v)) => p@ == v,
                (Walk::Done(notes), WalkView::Done(v)) => trunc_paths(notes@) == v && all_under(
                    notes@,
                    self@.root,
                ),
                _ => false,
            },
    {
        let ghost before = self@;
        proof {
            use_type_invariant(&self);
        }
        let Walker { root, mut stack, mut notes } = self;
        if stack.len() == 0 {
            return Walk::Done(notes);
        }
        let mut frame = stack.pop().unwrap();
        let ghost top = frame.view();
        assert(frame_views(stack@) =~= before.stack.drop_last());
        if frame.next == frame.entries.len() {
            return Walk::Continue(Walker { root, stack, notes });
        }
        let rel = join(frame.dir.as_str(), frame.entries[frame.next].name.as_str());
        let is_dir = frame.entries[frame.next].is_dir;
        frame.next = frame.next + 1;
        assert(frame.view().rest =~= top.rest.drop_first());
        let ghost below = stack@;
        stack.push(frame);
        assert(frame_views(stack@) =~= frame_views(below).push(frame.view()));
        assert forall|i: int| 0 <= i < stack.len() implies (#[trigger] stack[i]).wf() by {}
        if is_dir {
            let path = join(root.as_str(), rel.as_str());
            Walk::Read(Pending { walker: Walker { root, stack, notes }, dir: rel, path })
        } else {
            let full_path = join(root.as_str(), rel.as_str());
            let ghost recorded = notes@;
            let note = Note { full_path, trunc_path: rel };
            notes.push(note);
            assert(trunc_paths(notes@) =~= trunc_paths(recorded).push(note.trunc_path@));
            Walk::Continue(Walker { root, stack, notes })
        }
    }
}

impl Walker {
    /// Steps on until the walk needs a directory listed or is over.
    pub fn settle(self) -> (rest: Walk)
        ensures
            match (rest, settled(self@)) {
                (Walk::Read(p), WalkView::Read(v)) => p@ == v,
                (Walk::Done(notes), WalkView::Done(v)) => trunc_paths(notes@) == v && all_under(
                    notes@,
                    self@.root,
                ),
                _ => false,
            },
    {
        let mut walker = self;
        loop
            invariant
                settled(walker@) == settled(self@),
                walker@.root == self@.root,
            decreases work(walker@.stack),
        {
            proof {
                lemma_step_works(walker@);
            }
            match walker.step() {
                Walk::Continue(next) => {
                    walker = next;
                },
                rest => {
                    return rest;
                },
            }
        }
    }
}

impl Pending {
    /// The path of the directory whose listing the walk waits for.
    pub fn path(&self) -> (path: &String)
        ensures
            path@ == self@.path,
    {
        &self.path
    }

    /// Hands the walk the listing it waits for, or the reason why the
    /// directory could not be read. With a listing the walk enters the
    /// directory; without one it ends in an error on the directory's path.
    pub fn supply(self, listing: Result<Vec<DirEntry>, FsErrorKind>) -> (walker: Result<
        Walker,
        FsError,
    >)
        ensures
            match listing {
                Ok(entries) => walker is Ok && walker->Ok_0@ == entered(
                    self@,
                    entry_views(entries@),
                ),
                Err(kind) => walker is Err && walker->Err_0.kind == kind && walker->Err_0.path@
                    == self@.path,
            },
    {
        let Pending { walker, dir, path } = self;
        proof {
            use_type_invariant(&walker);
        }
        match listing {
            Ok(entries) => {
                let Walker { root, mut stack, notes } = walker;
                let ghost below = stack@;
                let frame = Frame { dir, entries, next: 0 };
                assert(frame.view().rest =~= entry_views(entries@));
                stack.push(frame);
                assert(frame_views(stack@) =~= frame_views(below).push(frame.view()));
                assert forall|i: int| 0 <= i < stack.len() implies (#[trigger] stack[i]).wf() by {}
                Ok(Walker { root, stack, notes })
            },
            Err(kind) => Err(FsError { kind, path }),
        }
    }
}

/// A snapshot of one entry of a directory, together with everything below it.
#[derive(Debug)]
pub enum Node {
    /// A file.
    File { name: String },
    /// A directory and its entries, in the order in which they are listed.
    Dir { name: String, children: Vec<Node> },
    /// A directory that could not be read, and why.
    Unreadable { name: String, kind: FsErrorKind },
}

impl Node {
    /// The entry's name inside its directory.
    pub open spec fn name(self) -> Seq<char> {
        match self {
            Node::File { name } => name@,
            Node::Dir { name, .. } => name@,
            Node::Unreadable { name, .. } => name@,
        }
    }

    /// How the entry shows in its directory's listing.
    pub open spec fn entry(self) -> EntryView {
        EntryView { name: self.name(), is_dir: !(self is File) }
    }
}

/// The listing of a directory whose entries are `nodes`.
pub open spec fn listing_of(nodes: Seq<Node>) -> Seq<EntryView> {
    nodes.map_values(|n: Node| n.entry())
}

/// The relative paths of the files at or below `nodes`, the entries of the
/// directory `dir`, depth first and in listing order. Nothing is found below
/// a directory that could not be read.
pub open spec fn files_under(dir: Seq<char>, nodes: Seq<Node>) -> Seq<Seq<char>>
    decreases nodes,
{
    if nodes.len() == 0 {
        Seq::empty()
    } else {
        let before = files_under(dir, nodes.drop_last());
        match nodes.last() {
            Node::File { name } => before.push(join_paths(dir, name@)),
            Node::Dir { name, children } => before + files_under(
                join_paths(dir, name@),
                children@,
            ),
            Node::Unreadable { .. } => before,
        }
    }
}

/// The number of files at or below `nodes`.
pub open spec fn count_files(nodes: Seq<Node>) -> nat
    decreases nodes,
{
    if nodes.len() == 0 {
        0
    } else {
        count_files(nodes.drop_last()) + match nodes.last() {
            Node::File { .. } => 1,
            Node::Dir { children, .. } => count_files(children@),
            Node::Unreadable { .. } => 0,
        }
    }
}

/// The first directory at or below `nodes` that could not be read, in the
/// order of the walk: its path relative to the root, and why it failed.
pub open spec fn first_unreadable(dir: Seq<char>, nodes: Seq<Node>) -> Option<
    (Seq<char>, FsErrorKind),
>
    decreases nodes,
{
    if nodes.len() == 0 {
        None
    } else {
        match first_unreadable(dir, nodes.drop_last()) {
            Some(failure) => Some(failure),
            None => match nodes.last() {
                Node::File { .. } => None,
                Node::Dir { name, children } => first_unreadable(
                    join_paths(dir, name@),
                    children@,
                ),
                Node::Unreadable { name, kind } => Some((join_paths(dir, name@), kind)),
            },
        }
    }
}

/// A tree holds exactly as many files as the walk finds paths in it.
pub proof fn lemma_files_under_len(dir: Seq<char>, nodes: Seq<Node>)
    ensures
        files_under(dir, nodes).len() == count_files(nodes),
    decreases nodes,
{
    if nodes.len() > 0 {
        lemma_files_under_len(dir, nodes.drop_last());
        match nodes.last() {
            Node::Dir { name, children } => {
                lemma_files_under_len(join_paths(dir, name@), children@);
            },
            _ => {},
        }
    }
}

/// The listing of a directory whose entries are `nodes`.
fn listing(nodes: &Vec<Node>) -> (entries: Vec<DirEntry>)
    ensures
        entry_views(entries@) == listing_of(nodes@),
{
    let mut entries: Vec<DirEntry> = Vec::new();
    let mut i: usize = 0;
    while i < nodes.len()
        invariant
            i <= nodes.len(),
            entry_views(entries@) == listing_of(nodes@.take(i as int)),
        decreases nodes.len() - i,
    {
        let entry = match &nodes[i] {
            Node::File { name } => DirEntry { name: name.clone(), is_dir: false },
            Node::Dir { name, .. } => DirEntry { name: name.clone(), is_dir: true },
            Node::Unreadable { name, .. } => DirEntry { name: name.clone(), is_dir: true },
        };
        entries.push(entry);
        assert(listing_of(nodes@.take(i + 1)) =~= listing_of(nodes@.take(i as int)).push(
            nodes[i as int].entry(),
        ));
        i += 1;
    }
    entries
}

/// Runs a walk that waits for the directory whose entries are `nodes`
/// through that directory and everything below it.
fn walk_dir(pending: Pending, nodes: &Vec<Node>) -> (left: Result<Walker, FsError>)
    ensures
        match first_unreadable(pending@.dir, nodes@) {
            None => left is Ok && left->Ok_0@ == (WalkerView {
                notes: pending@.walker.notes + files_under(pending@.dir, nodes@),
                ..pending@.walker
            }),
            Some(failure) => left is Err && left->Err_0.kind == failure.1 && left->Err_0.path@
                == join_paths(pending@.walker.root, failure.0),
        },
    decreases nodes,
{
    let ghost base = pending@.walker;
    let ghost dir = pending@.dir;
    let ghost rest = listing_of(nodes@);
    let mut walker = match pending.supply(Ok(listing(nodes))) {
        Ok(walker) => walker,
        Err(_) => unreached(),
    };
    let mut i: usize = 0;
    assert(rest.skip(0) =~= rest);
    while i < nodes.len()
        invariant
            i <= nodes.len(),
            base == pending@.walker,
            dir == pending@.dir,
            rest == listing_of(nodes@),
            walker@ == (WalkerView {
                root: base.root,
                stack: base.stack.push(FrameView { dir, rest: rest.skip(i as int) }),
                notes: base.notes + files_under(dir, nodes@.take(i as int)),
            }),
            first_unreadable(dir, nodes@.take(i as int)) is None,
        decreases nodes.len() - i,
    {
        let ghost seen = nodes@.take(i as int);
        let ghost more = nodes@.take(i + 1);
        assert(more.drop_last() == seen);
        assert(rest.skip(i as int).drop_first() == rest.skip(i + 1));
        assert(walker@.stack.drop_last() == base.stack);
        match walker.step() {
            Walk::Continue(next) => {
                walker = next;
            },
            Walk::Read(awaited) => {
                match &nodes[i] {
                    Node::Dir { children, .. } => {
                        let ghost sub = awaited@.dir;
                        match walk_dir(awaited, children) {
                            Ok(next) => {
                                assert(base.notes + files_under(dir, more) =~= (base.notes
                                    + files_under(dir, seen)) + files_under(sub, children@));
                                walker = next;
                            },
                            Err(error) => {
                                proof {
                                    lemma_first_unreadable_prefix(dir, nodes@, i + 1);
                                }
                                return Err(error);
                            },
                        }
                    },
                    Node::Unreadable { kind, .. } => {
                        proof {
                            lemma_first_unreadable_prefix(dir, nodes@, i + 1);
                        }
                        match awaited.supply(Err(*kind)) {
                            Err(error) => {
                                return Err(error);
                            },
                            Ok(_) => {
                                walker = unreached();
                            },
                        }
                    },
                    Node::File { .. } => {
                        walker = unreached();
                    },
                }
            },
            Walk::Done(_) => {
                walker = unreached();
            },
        }
        i += 1;
    }
    assert(nodes@.take(i as int) == nodes@);
    assert(walker@.stack.drop_last() == base.stack);
    match walker.step() {
        Walk::Continue(next) => Ok(next),
        _ => unreached(),
    }
}

/// A failure among the first `n` entries is the failure of the whole
/// directory.
proof fn lemma_first_unreadable_prefix(dir: Seq<char>, nodes: Seq<Node>, n: int)
    requires
        0 <= n <= nodes.len(),
        first_unreadable(dir, nodes.take(n)) is Some,
    ensures
        first_unreadable(dir, nodes) == first_unreadable(dir, nodes.take(n)),
    decreases nodes.len() - n,
{
    if n < nodes.len() {
        assert(nodes.take(n + 1).drop_last() == nodes.take(n));
        lemma_first_unreadable_prefix(dir, nodes, n + 1);
    } else {
        assert(nodes.take(n) == nodes);
    }
}

/// Builds the note index of the storage root whose entries are `tree`.
///
/// The notes are the files of the tree in the order of a depth-first walk,
/// one note for each file, each with its path relative to the root and its
/// full path under the root. Where no directory of the tree holds two
/// entries of one name, no two notes have the same relative path.
/// If a directory of the tree could not be read there is no index: the result
/// is the error of the first such directory that the walk reaches.
pub fn create_note_objects(config: &Config, tree: &Vec<Node>) -> (index: Result<
    Vec<Note>,
    FsError,
>)
    ensures
        match first_unreadable(Seq::empty(), tree@) {
            None => index is Ok && trunc_paths(index->Ok_0@) == files_under(Seq::empty(), tree@)
                && index->Ok_0.len() == count_files(tree@) && all_under(
                index->Ok_0@,
                config.root_dir@,
            ) && (well_named(tree@) ==> trunc_paths(index->Ok_0@).no_duplicates()),
            Some(failure) => index is Err && index->Err_0.kind == failure.1
                && index->Err_0.path@ == join_paths(config.root_dir@, failure.0),
        },
{
    let walker = match walk_dir(Walker::begin(config), tree) {
        Ok(walker) => walker,
        Err(error) => {
            return Err(error);
        },
    };
    proof {
        lemma_files_under_len(Seq::empty(), tree@);
        if well_named(tree@) {
            lemma_paths_distinct(Seq::empty(), tree@);
        }
    }
    match walker.step() {
        Walk::Done(notes) => Ok(notes),
        _ => unreached(),
    }
}

} // verus!
