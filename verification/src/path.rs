//! Paths as `/`-separated strings.

use vstd::prelude::*;

verus! {

/// `rel` placed under `base`. A `rel` that starts at the filesystem root
/// stands for itself; otherwise one separator is put between the two unless
/// `base` is empty or already ends in one.
pub open spec fn join_paths(base: Seq<char>, rel: Seq<char>) -> Seq<char> {
    if rel.len() > 0 && rel[0] == '/' {
        rel
    } else if base.len() > 0 && base.last() != '/' {
        base + seq!['/'] + rel
    } else {
        base + rel
    }
}

/// Joins `rel` onto `base`.
pub fn join(base: &str, rel: &str) -> (path: String)
    ensures
        path@ == join_paths(base@, rel@),
{
    let rel_len = rel.unicode_len();
    if rel_len > 0 && rel.get_char(0) == '/' {
        return String::from_str(rel);
    }
    let base_len = base.unicode_len();
    let mut path = String::from_str(base);
    if base_len > 0 && base.get_char(base_len - 1) != '/' {
        proof {
            reveal_strlit("/");
        }
        path.append("/");
    }
    path.append(rel);
    path
}

/// Joining is associative: a path built one level at a time, from `root`
/// into `dir` and from there to `name`, is `root` joined with the path of
/// `name` relative to it.
pub proof fn lemma_join_assoc(root: Seq<char>, dir: Seq<char>, name: Seq<char>)
    ensures
        join_paths(join_paths(root, dir), name) == join_paths(root, join_paths(dir, name)),
{
}

} // verus!
