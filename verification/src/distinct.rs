//! Why no two notes of an index share a relative path: a directory never
//! holds two entries of one name.

use vstd::prelude::*;
use crate::index::{Node, files_under};
use crate::path::join_paths;

verus! {

/// A name that an entry of a directory can have: not empty, and without a
/// separator in it.
pub open spec fn is_entry_name(name: Seq<char>) -> bool {
    name.len() > 0 && forall|i: int| 0 <= i < name.len() ==> name[i] != '/'
}

/// Every entry at or below `nodes` has a proper name, and no two entries of
/// one directory have the same name.
pub open spec fn well_named(nodes: Seq<Node>) -> bool
    decreases nodes,
{
    if nodes.len() == 0 {
        true
    } else {
        &&& well_named(nodes.drop_last())
        &&& is_entry_name(nodes.last().name())
        &&& forall|i: int|
            0 <= i < nodes.len() - 1 ==> (#[trigger] nodes[i]).name() != nodes.last().name()
        &&& match nodes.last() {
            Node::Dir { children, .. } => well_named(children@),
            _ => true,
        }
    }
}

/// What every path below the directory `dir` starts with.
pub open spec fn below(dir: Seq<char>) -> Seq<char> {
    join_paths(dir, Seq::empty())
}

/// The path `p` lies at or below the entry `name` of the directory whose
/// paths start with `base`.
pub open spec fn headed(p: Seq<char>, base: Seq<char>, name: Seq<char>) -> bool {
    let end = (base.len() + name.len()) as int;
    &&& p.len() >= end
    &&& p.subrange(0, end) == base + name
    &&& p.len() > end ==> p[end] == '/'
}

/// The path of an entry is what its directory's paths start with, followed
/// by the entry's name.
proof fn lemma_join_name(dir: Seq<char>, name: Seq<char>)
    requires
        is_entry_name(name),
    ensures
        join_paths(dir, name) == below(dir) + name,
        below(join_paths(dir, name)) == below(dir) + name + seq!['/'],
{
}

/// A path lies at or below one entry of a directory only.
proof fn lemma_headed_once(p: Seq<char>, base: Seq<char>, a: Seq<char>, b: Seq<char>)
    requires
        headed(p, base, a),
        headed(p, base, b),
        is_entry_name(a),
        is_entry_name(b),
    ensures
        a == b,
{
    let n = base.len() as int;
    if a.len() < b.len() {
        assert(p.subrange(0, n + b.len())[n + a.len()] == (base + b)[n + a.len()]);
    } else if b.len() < a.len() {
        assert(p.subrange(0, n + a.len())[n + b.len()] == (base + a)[n + b.len()]);
    } else {
        assert forall|i: int| 0 <= i < a.len() implies a[i] == b[i] by {
            assert((base + b)[n + i] == b[i]);
        }
    }
}

/// The entries of a well-named directory have proper names, different from
/// one another.
proof fn lemma_names(nodes: Seq<Node>, i: int, j: int)
    requires
        well_named(nodes),
        0 <= i < nodes.len(),
        0 <= j < nodes.len(),
    ensures
        is_entry_name(nodes[i].name()),
        i != j ==> nodes[i].name() != nodes[j].name(),
    decreases nodes.len(),
{
    let last = nodes.len() - 1;
    if i < last && j < last {
        lemma_names(nodes.drop_last(), i, j);
    } else if i < last {
        lemma_names(nodes.drop_last(), i, i);
    } else if j < last {
        lemma_names(nodes.drop_last(), j, j);
    }
}

/// Each path found under a well-named directory lies at or below one of its
/// entries; the proof says which: the last entry for the paths that it
/// contributes, an earlier one for the others.
proof fn lemma_owner(dir: Seq<char>, nodes: Seq<Node>, i: int) -> (k: int)
    requires
        well_named(nodes),
        0 <= i < files_under(dir, nodes).len(),
    ensures
        0 <= k < nodes.len(),
        headed(files_under(dir, nodes)[i], below(dir), nodes[k].name()),
        (k < nodes.len() - 1) == (i < files_under(dir, nodes.drop_last()).len()),
    decreases nodes,
{
    let before = files_under(dir, nodes.drop_last());
    let p = files_under(dir, nodes)[i];
    let base = below(dir);
    if i < before.len() {
        lemma_owner(dir, nodes.drop_last(), i)
    } else {
        let k = nodes.len() - 1;
        match nodes.last() {
            Node::File { name } => {
                lemma_join_name(dir, name@);
                assert(p.subrange(0, p.len() as int) =~= base + name@);
            },
            Node::Dir { name, children } => {
                let sub = join_paths(dir, name@);
                lemma_join_name(dir, name@);
                let c = lemma_owner(sub, children@, i - before.len());
                let child = children@[c].name();
                let whole = below(sub) + child;
                let end = (base.len() + name@.len()) as int;
                assert(p.subrange(0, end) =~= base + name@) by {
                    assert forall|x: int| 0 <= x < end implies p[x] == (base + name@)[x] by {
                        assert(p.subrange(0, whole.len() as int)[x] == whole[x]);
                    }
                }
                assert(p[end] == '/') by {
                    assert(p.subrange(0, whole.len() as int)[end] == whole[end]);
                }
            },
            Node::Unreadable { .. } => {},
        }
        k
    }
}

/// No two notes of an index share a relative path, provided that no
/// directory of the tree holds two entries of one name.
pub proof fn lemma_paths_distinct(dir: Seq<char>, nodes: Seq<Node>)
    requires
        well_named(nodes),
    ensures
        files_under(dir, nodes).no_duplicates(),
    decreases nodes,
{
    let files = files_under(dir, nodes);
    if nodes.len() > 0 {
        let before = files_under(dir, nodes.drop_last());
        lemma_paths_distinct(dir, nodes.drop_last());
        match nodes.last() {
            Node::Dir { name, children } => {
                lemma_paths_distinct(join_paths(dir, name@), children@);
            },
            _ => {},
        }
        assert forall|i: int, j: int|
            0 <= i < files.len() && 0 <= j < files.len() && i != j implies files[i] != files[j] by {
            if (i < before.len()) != (j < before.len()) {
                let a = lemma_owner(dir, nodes, i);
                let b = lemma_owner(dir, nodes, j);
                lemma_names(nodes, a, b);
                lemma_names(nodes, b, a);
                if files[i] == files[j] {
                    lemma_headed_once(files[i], below(dir), nodes[a].name(), nodes[b].name());
                }
            }
        }
    }
}

} // verus!
