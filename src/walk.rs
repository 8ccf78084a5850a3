//! The glob patterns that select the files of a walk under a root directory.
use vstd::prelude::*;
use vstd::string::StringExecFns;
use crate::text::chars_of;

verus! {

/// Appended to the root to reach every file under it, at any depth.
pub const ANY_FILE: &'static str = "/**/*";

/// Appended to the root to reach every text file under it, at any depth.
pub const TEXT_FILE: &'static str = "/**/*.txt";

/// The pattern of the walk that sizes the tree: every file under `root`.
pub fn size_pattern(root: &str) -> (r: String)
    ensures
        r@ == root@ + ANY_FILE@,
{
    String::from_str(root).concat(ANY_FILE)
}

/// The pattern of the walk that a search visits: every text file under `root`.
pub fn search_pattern(root: &str) -> (r: String)
    ensures
        r@ == root@ + TEXT_FILE@,
{
    String::from_str(root).concat(TEXT_FILE)
}

/// `path` names an entry strictly below the directory `root`: `root` is an
/// initial part of it, and a `/` separates the two (or closes `root` itself).
pub open spec fn is_below(root: Seq<char>, path: Seq<char>) -> bool {
    &&& root.len() < path.len()
    &&& path.take(root.len() as int) == root
    &&& (path[root.len() as int] == '/' || (root.len() > 0 && root.last() == '/'))
}

/// Tells whether the entry `path` lies below the directory `root`; both are
/// expected in canonical form, so that no `..` or link is left in them.
pub fn within_root(root: &str, path: &str) -> (r: bool)
    ensures
        r == is_below(root@, path@),
{
    let rc = chars_of(root);
    let pc = chars_of(path);
    if rc.len() >= pc.len() {
        return false;
    }
    let mut i: usize = 0;
    while i < rc.len()
        invariant
            rc@ == root@,
            pc@ == path@,
            rc@.len() < pc@.len(),
            i <= rc@.len(),
            forall|k: int| 0 <= k < i ==> pc@[k] == rc@[k],
        decreases rc@.len() - i,
    {
        if pc[i] != rc[i] {
            assert(path@.take(root@.len() as int)[i as int] != root@[i as int]);
            return false;
        }
        i = i + 1;
    }
    assert(path@.take(root@.len() as int) =~= root@);
    pc[rc.len()] == '/' || (rc.len() > 0 && rc[rc.len() - 1] == '/')
}

} // verus!
