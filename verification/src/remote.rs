//! Paths and shell lines on the host that files are sent to.

use crate::text::{followed_by, is_char, texts};
use vstd::prelude::*;

verus! {

/// The parent of a path as [`std::path::Path::parent`] gives it: the path
/// without its last component, or nothing where the path ends in a root or
/// is empty.
pub uninterp spec fn path_parent(path: Seq<char>) -> Option<Seq<char>>;

/// Calls [`std::path::Path::parent`] on `path`.
///
/// Trusted: the result is a function of the path alone, and a parent is
/// shorter than the path, which it is cut from.
#[verifier::external_body]
fn parent_of(path: &str) -> (parent: Option<String>)
    ensures
        match parent {
            Some(p) => path_parent(path@) == Some(p@) && p@.len() < path@.len(),
            None => path_parent(path@) is None,
        },
{
    std::path::Path::new(path).parent().map(|p| p.display().to_string())
}

/// Whether `path` is the root of the file system.
pub open spec fn is_root(path: Seq<char>) -> bool {
    path == seq!['/']
}

/// `path` and the directories above it, the nearest first, up to the root
/// and without it.
pub open spec fn ancestors(path: Seq<char>) -> Seq<Seq<char>>
    decreases path.len(),
{
    if path.len() == 0 || is_root(path) {
        Seq::empty()
    } else {
        match path_parent(path) {
            Some(parent) => if parent.len() < path.len() {
                seq![path] + ancestors(parent)
            } else {
                seq![path]
            },
            None => seq![path],
        }
    }
}

/// The directories to create for `destination`, in the order to create them in.
pub open spec fn provisioning_order(destination: Seq<char>) -> Seq<Seq<char>> {
    ancestors(destination).reverse()
}

/// Where the directories above `path` end: at a path without a parent, or
/// at one whose parent is the root or empty.
pub open spec fn is_topmost(path: Seq<char>) -> bool {
    match path_parent(path) {
        Some(parent) => parent.len() == 0 || is_root(parent) || parent.len() >= path.len(),
        None => true,
    }
}

/// In `ancestors(path)` each directory is followed by its parent, and the
/// last one is the topmost.
pub proof fn lemma_ancestors_chain(path: Seq<char>)
    ensures
        ancestors(path).len() > 0 ==> ancestors(path)[0] == path && is_topmost(
            ancestors(path).last(),
        ),
        ancestors(path).len() == 0 <==> path.len() == 0 || is_root(path),
        forall|i: int|
            0 <= i < ancestors(path).len() - 1 ==> path_parent(#[trigger] ancestors(path)[i])
                == Some(ancestors(path)[i + 1]),
        forall|i: int|
            0 <= i < ancestors(path).len() ==> (#[trigger] ancestors(path)[i]).len() > 0
                && !is_root(ancestors(path)[i]),
    decreases path.len(),
{
    if path.len() > 0 && !is_root(path) {
        if let Some(parent) = path_parent(path) {
            if parent.len() < path.len() {
                lemma_ancestors_chain(parent);
            }
        }
    }
}

/// No directory is created before its parent: in the order of creation each
/// directory but the first is a child of the one before it, the first is the
/// topmost below the root, and the last is the destination.
pub proof fn lemma_parents_come_first(destination: Seq<char>)
    ensures
        provisioning_order(destination).len() > 0 ==> provisioning_order(destination).last()
            == destination && is_topmost(provisioning_order(destination)[0]),
        provisioning_order(destination).len() == 0 <==> destination.len() == 0 || is_root(
            destination,
        ),
        forall|i: int|
            1 <= i < provisioning_order(destination).len() ==> path_parent(
                #[trigger] provisioning_order(destination)[i],
            ) == Some(provisioning_order(destination)[i - 1]),
{
    lemma_ancestors_chain(destination);
}

/// The directories to create on the host for `destination`, each after its parent.
pub fn directories_to_create(destination: &str) -> (order: Vec<String>)
    ensures
        texts(order@) == provisioning_order(destination@),
{
    let mut chain: Vec<String> = Vec::new();
    let mut current: String = destination.to_owned();
    let mut more = true;
    while more
        invariant
            more ==> ancestors(destination@) == texts(chain@) + ancestors(current@),
            !more ==> ancestors(destination@) == texts(chain@),
        decreases
            if more { current@.len() + 1 } else { 0 },
    {
        if current.as_str().unicode_len() == 0 || is_char(current.as_str(), '/') {
            more = false;
        } else {
            let parent = parent_of(current.as_str());
            let ghost before = texts(chain@);
            let ghost here = current@;
            chain.push(current);
            match parent {
                Some(p) => {
                    current = p;
                    assert(before + (seq![here] + ancestors(p@)) =~= texts(chain@) + ancestors(
                        p@,
                    ));
                },
                None => {
                    current = String::new();
                    more = false;
                },
            }
        }
    }
    let ghost up = chain@;
    let mut order: Vec<String> = Vec::new();
    while chain.len() > 0
        invariant
            chain@.len() + order@.len() == up.len(),
            chain@ == up.take(chain@.len() as int),
            forall|i: int| 0 <= i < order@.len() ==> order@[i] == up[up.len() - 1 - i],
        decreases chain@.len(),
    {
        let last = chain.pop().unwrap();
        order.push(last);
    }
    order
}

/// The path of the file `name` in the directory `directory`.
pub open spec fn spec_file_in(directory: Seq<char>, name: Seq<char>) -> Seq<char> {
    directory + seq!['/'] + name
}

/// The shell line that unpacks `archive` into `destination`.
pub open spec fn spec_extract_line(archive: Seq<char>, destination: Seq<char>) -> Seq<char> {
    "tar -xf "@ + archive + " -C "@ + destination
}

/// The shell line that removes `archive`.
pub open spec fn spec_remove_line(archive: Seq<char>) -> Seq<char> {
    "rm "@ + archive
}

/// The path of the file `name` in the directory `directory`.
pub fn file_in(directory: &str, name: &str) -> (path: String)
    ensures
        path@ == spec_file_in(directory@, name@),
{
    let mut path = followed_by(directory, "/");
    proof {
        reveal_strlit("/");
    }
    path.append(name);
    path
}

/// The shell line that unpacks `archive` into `destination`.
pub fn extract_line(archive: &str, destination: &str) -> (line: String)
    ensures
        line@ == spec_extract_line(archive@, destination@),
{
    let mut line = followed_by("tar -xf ", archive);
    line.append(" -C ");
    line.append(destination);
    line
}

/// The shell line that removes `archive`.
pub fn remove_line(archive: &str) -> (line: String)
    ensures
        line@ == spec_remove_line(archive@),
{
    followed_by("rm ", archive)
}

} // verus!
