//! Picking the source files out of a directory tree that was read before.

use crate::text::{texts, to_chars};
use vstd::prelude::*;

verus! {

/// One place in a directory tree, as the scan found it: a root that was
/// handed to the scan, or an entry of a listing.
#[derive(Debug)]
pub enum Node {
    /// A directory and what it lists, in the order of the listing.
    Dir(Vec<Node>),
    /// Anything that is not a directory, with its path and its file name.
    File { path: String, name: String },
    /// A directory that could not be listed, or an entry of which the kind
    /// could not be told.
    Unreadable,
}

/// Whether `name` has a stem, then a period, then `ext` at its end.
pub open spec fn has_extension(name: Seq<char>, ext: Seq<char>) -> bool {
    &&& name.len() > ext.len() + 1
    &&& name[name.len() - ext.len() - 1] == '.'
    &&& name.skip(name.len() - ext.len()) == ext
}

/// Whether a file of this name is a source file or a header.
pub open spec fn is_source_name(name: Seq<char>) -> bool {
    has_extension(name, "cc"@) || has_extension(name, "h"@)
}

/// The paths of the source files that the entry `node` of a listing stands
/// for, in the order of the listings: the file itself when its name is that
/// of a source file, and for a directory those of its own entries. A
/// directory that could not be listed has none.
pub open spec fn sources(node: Node) -> Seq<Seq<char>>
    decreases node,
{
    match node {
        Node::Dir(entries) => all_sources(entries@),
        Node::File { path, name } => if is_source_name(name@) {
            seq![path@]
        } else {
            Seq::empty()
        },
        Node::Unreadable => Seq::empty(),
    }
}

/// The paths of the source files that the entries of a listing stand for,
/// entry after entry.
pub open spec fn all_sources(entries: Seq<Node>) -> Seq<Seq<char>>
    decreases entries,
{
    if entries.len() == 0 {
        Seq::empty()
    } else {
        all_sources(entries.drop_last()) + sources(entries.last())
    }
}

/// The paths of the source files below a root. A root is scanned as a
/// directory: one that is anything else, or that could not be listed, has no
/// files, whatever its name.
pub open spec fn root_sources(root: Node) -> Seq<Seq<char>> {
    match root {
        Node::Dir(entries) => all_sources(entries@),
        _ => Seq::empty(),
    }
}

/// The paths of the source files below all of `roots`, root after root.
pub open spec fn all_root_sources(roots: Seq<Node>) -> Seq<Seq<char>>
    decreases roots.len(),
{
    if roots.len() == 0 {
        Seq::empty()
    } else {
        all_root_sources(roots.drop_last()) + root_sources(roots.last())
    }
}

/// Checks whether `name` ends in a period and `ext` after a stem.
pub fn ends_with_extension(name: &[char], ext: &str) -> (b: bool)
    ensures
        b == has_extension(name@, ext@),
{
    let wanted = to_chars(ext);
    let n = name.len();
    let m = wanted.len();
    if n <= m || n - m < 2 {
        return false;
    }
    if name[n - m - 1] != '.' {
        return false;
    }
    let mut i: usize = 0;
    while i < m
        invariant
            i <= m,
            wanted@ == ext@,
            m == ext@.len(),
            n == name@.len(),
            m + 1 < n,
            forall|k: int| 0 <= k < i ==> name@[n - m + k] == ext@[k],
        decreases m - i,
    {
        if name[n - m + i] != wanted[i] {
            assert(name@.skip(n - m)[i as int] != ext@[i as int]);
            return false;
        }
        i += 1;
    }
    assert(name@.skip(n - m) =~= ext@);
    true
}

/// Whether a file of this name is a source file or a header.
pub fn is_source(name: &str) -> (b: bool)
    ensures
        b == is_source_name(name@),
{
    let name = to_chars(name);
    ends_with_extension(name.as_slice(), "cc") || ends_with_extension(name.as_slice(), "h")
}

/// Lists the source files that an entry of a listing stands for.
pub fn entry_paths(entry: &Node) -> (paths: Vec<String>)
    ensures
        texts(paths@) == sources(*entry),
    decreases entry,
{
    match entry {
        Node::Dir(entries) => listing_paths(entries),
        Node::File { path, name } => {
            let mut paths: Vec<String> = Vec::new();
            if is_source(name.as_str()) {
                paths.push(path.clone());
                assert(texts(paths@) =~= seq![path@]);
            } else {
                assert(texts(paths@) =~= Seq::<Seq<char>>::empty());
            }
            paths
        },
        Node::Unreadable => no_paths(),
    }
}

/// Lists the source files that the entries of a listing stand for, entry
/// after entry.
pub fn listing_paths(entries: &Vec<Node>) -> (paths: Vec<String>)
    ensures
        texts(paths@) == all_sources(entries@),
    decreases entries,
{
    let mut paths: Vec<String> = Vec::new();
    let mut i: usize = 0;
    assert(texts(paths@) =~= all_sources(entries@.take(0)));
    while i < entries.len()
        invariant
            i <= entries@.len(),
            texts(paths@) == all_sources(entries@.take(i as int)),
        decreases entries@.len() - i,
    {
        let ghost before = texts(paths@);
        let mut below = entry_paths(&entries[i]);
        let ghost added = texts(below@);
        paths.append(&mut below);
        proof {
            assert(texts(paths@) =~= before + added);
            assert(entries@.take(i + 1).drop_last() =~= entries@.take(i as int));
            assert(entries@.take(i + 1).last() == entries@[i as int]);
        }
        i += 1;
    }
    assert(entries@.take(entries@.len() as int) =~= entries@);
    paths
}

/// The empty list of paths.
fn no_paths() -> (paths: Vec<String>)
    ensures
        texts(paths@) == Seq::<Seq<char>>::empty(),
{
    let paths: Vec<String> = Vec::new();
    assert(texts(paths@) =~= Seq::<Seq<char>>::empty());
    paths
}

/// Lists the source files below `root`. Only a root that is a directory and
/// could be listed has any.
pub fn get_source_paths(root: &Node) -> (paths: Vec<String>)
    ensures
        texts(paths@) == root_sources(*root),
{
    match root {
        Node::Dir(entries) => listing_paths(entries),
        _ => no_paths(),
    }
}

/// Lists the source files below all of `roots`, root after root.
pub fn all_source_paths(roots: &Vec<Node>) -> (paths: Vec<String>)
    ensures
        texts(paths@) == all_root_sources(roots@),
{
    let mut paths: Vec<String> = Vec::new();
    let mut i: usize = 0;
    assert(texts(paths@) =~= all_root_sources(roots@.take(0)));
    while i < roots.len()
        invariant
            i <= roots@.len(),
            texts(paths@) == all_root_sources(roots@.take(i as int)),
        decreases roots@.len() - i,
    {
        let ghost before = texts(paths@);
        let mut below = get_source_paths(&roots[i]);
        let ghost added = texts(below@);
        paths.append(&mut below);
        proof {
            assert(texts(paths@) =~= before + added);
            assert(roots@.take(i + 1).drop_last() =~= roots@.take(i as int));
            assert(roots@.take(i + 1).last() == roots@[i as int]);
        }
        i += 1;
    }
    assert(roots@.take(roots@.len() as int) =~= roots@);
    paths
}

} // verus!
