use std::path::Path;
use vstd::prelude::*;

verus! {

/// What `std::path::Path::parent` gives for a path.
pub uninterp spec fn parent_of(path: Seq<char>) -> Option<Seq<char>>;

/// What `std::path::Path::join` gives for a base and a path joined onto it.
pub uninterp spec fn joined(base: Seq<char>, path: Seq<char>) -> Seq<char>;

/// Calls `std::path::Path::parent`. Its result is named by `parent_of`; the
/// contract also claims what its documentation says, that the parent is the
/// path without its final component, so shorter than the path.
#[verifier::external_body]
pub(crate) fn path_parent(path: &str) -> (r: Option<String>)
    ensures
        r matches Some(p) ==> parent_of(path@) == Some(p@) && p@.len() < path@.len(),
        r is None ==> parent_of(path@) is None,
{
    match Path::new(path).parent() {
        Some(p) => Some(p.to_string_lossy().into_owned()),
        None => None,
    }
}

/// Calls `std::path::Path::join`. Its result is named by `joined`; nothing
/// more is claimed.
#[verifier::external_body]
pub(crate) fn path_join(base: &str, path: &str) -> (r: String)
    ensures
        r@ == joined(base@, path@),
{
    Path::new(base).join(path).to_string_lossy().into_owned()
}

/// The ancestors of a path, as `std::path::Path::ancestors` yields them: the
/// path itself, then its parent, the parent of that, and so on.
pub open spec fn ancestors_of(path: Seq<char>) -> Seq<Seq<char>>
    decreases path.len(),
{
    match parent_of(path) {
        Some(p) => if p.len() < path.len() {
            seq![path] + ancestors_of(p)
        } else {
            seq![path]
        },
        None => seq![path],
    }
}

/// The first ancestor of a path is the path itself, and each next one is
/// the parent of the one before.
pub proof fn lemma_ancestors_chain(path: Seq<char>)
    ensures
        ancestors_of(path).len() >= 1,
        ancestors_of(path)[0] == path,
        forall|i: int|
            0 <= i < ancestors_of(path).len() - 1 ==> parent_of(#[trigger] ancestors_of(path)[i])
                == Some(ancestors_of(path)[i + 1]),
    decreases path.len(),
{
    match parent_of(path) {
        Some(p) => {
            if p.len() < path.len() {
                lemma_ancestors_chain(p);
                let a = ancestors_of(path);
                assert forall|i: int| 0 <= i < a.len() - 1 implies parent_of(#[trigger] a[i])
                    == Some(a[i + 1]) by {
                    if i > 0 {
                        assert(a[i] == ancestors_of(p)[i - 1]);
                        assert(a[i + 1] == ancestors_of(p)[i]);
                    }
                }
            }
        },
        None => {},
    }
}

/// Lists the ancestors of `path`, starting with `path` itself.
pub fn path_ancestors(path: &str) -> (r: Vec<String>)
    ensures
        r@.map_values(|s: String| s@) == ancestors_of(path@),
{
    let mut out: Vec<String> = Vec::new();
    let mut cur = String::from_str(path);
    loop
        invariant
            out@.map_values(|s: String| s@) + ancestors_of(cur@) == ancestors_of(path@),
        decreases cur@.len(),
    {
        let ghost before = out@;
        out.push(cur.clone());
        assert(out@.map_values(|s: String| s@) =~= before.map_values(|s: String| s@).push(cur@));
        match path_parent(cur.as_str()) {
            Some(p) => {
                assert(ancestors_of(cur@) == seq![cur@] + ancestors_of(p@));
                assert(out@.map_values(|s: String| s@) + ancestors_of(p@)
                    =~= before.map_values(|s: String| s@) + ancestors_of(cur@));
                cur = p;
            },
            None => {
                assert(out@.map_values(|s: String| s@) =~= before.map_values(|s: String| s@) + ancestors_of(cur@));
                return out;
            },
        }
    }
}

} // verus!
