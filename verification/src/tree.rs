//! Building a filtered preview tree from a file-system snapshot.
//!
//! The walk itself happens outside the library; it hands in an `FsNode`
//! snapshot of what the file system yielded, in enumeration order. The
//! builder applies the ignore patterns independently at every directory
//! level: an excluded entry is dropped together with its whole subtree, so
//! the walk never has to enter an excluded directory. A directory whose
//! listing could not be read is represented with no entries, so one
//! unreadable subdirectory degrades to an empty subtree instead of failing
//! the whole build.

use vstd::prelude::*;

use crate::error::CommandError;
use crate::error::ErrorKind;
use crate::filter::excluded;
use crate::filter::included;

verus! {

/// A snapshot of one file-system entry, as the enumeration yielded it.
pub enum FsNode {
    File { name: String, path: String },
    Dir { name: String, path: String, entries: Vec<FsNode> },
}

/// One node of the preview tree: a file, or a directory with its children
/// in enumeration order — the order the file system yielded them, never
/// normalized, so downstream artifacts depend on it. A directory with no
/// eligible children keeps an empty children list; it is never elided.
#[derive(Debug)]
pub enum ParsedPath {
    File { name: String, path: String },
    Directory { name: String, path: String, children: Vec<ParsedPath> },
}

/// The mathematical shape of a preview tree.
pub enum TreeView {
    File { name: Seq<char>, path: Seq<char> },
    Directory { name: Seq<char>, path: Seq<char>, children: Seq<TreeView> },
}

/// The shapes of a sequence of tree nodes.
pub open spec fn trees_view(cs: Seq<ParsedPath>) -> Seq<TreeView>
    decreases cs,
{
    if cs.len() == 0 {
        Seq::empty()
    } else {
        seq![tree_view(cs[0])] + trees_view(cs.subrange(1, cs.len() as int))
    }
}

/// The shape of one tree node.
pub open spec fn tree_view(t: ParsedPath) -> TreeView
    decreases t,
{
    match t {
        ParsedPath::File { name, path } => TreeView::File { name: name@, path: path@ },
        ParsedPath::Directory { name, path, children } => TreeView::Directory {
            name: name@,
            path: path@,
            children: trees_view(children@),
        },
    }
}

impl View for ParsedPath {
    type V = TreeView;

    open spec fn view(&self) -> TreeView {
        tree_view(*self)
    }
}

/// The name of a snapshot entry.
pub open spec fn fs_name(n: FsNode) -> Seq<char> {
    match n {
        FsNode::File { name, .. } => name@,
        FsNode::Dir { name, .. } => name@,
    }
}

/// The name of a tree node.
pub open spec fn node_name(t: TreeView) -> Seq<char> {
    match t {
        TreeView::File { name, .. } => name,
        TreeView::Directory { name, .. } => name,
    }
}

/// The tree that the builder produces for a snapshot: the node itself, with
/// the children of every directory filtered by the ignore patterns.
pub open spec fn build_spec(n: FsNode, patterns: Seq<String>) -> TreeView
    decreases n,
{
    match n {
        FsNode::File { name, path } => TreeView::File { name: name@, path: path@ },
        FsNode::Dir { name, path, entries } => TreeView::Directory {
            name: name@,
            path: path@,
            children: build_children_spec(entries@, patterns),
        },
    }
}

/// The filtered, recursively built children of a directory.
pub open spec fn build_children_spec(es: Seq<FsNode>, patterns: Seq<String>) -> Seq<TreeView>
    decreases es,
{
    if es.len() == 0 {
        Seq::empty()
    } else {
        let rest = build_children_spec(es.subrange(1, es.len() as int), patterns);
        if excluded(fs_name(es[0]), patterns) {
            rest
        } else {
            seq![build_spec(es[0], patterns)] + rest
        }
    }
}

/// No node anywhere below `t` has a name that the patterns exclude.
pub open spec fn tree_filtered(t: TreeView, patterns: Seq<String>) -> bool
    decreases t,
{
    match t {
        TreeView::File { .. } => true,
        TreeView::Directory { children, .. } => children_filtered(children, patterns),
    }
}

/// Every child survives the patterns, and so does everything below it.
pub open spec fn children_filtered(cs: Seq<TreeView>, patterns: Seq<String>) -> bool
    decreases cs,
{
    if cs.len() == 0 {
        true
    } else {
        &&& !excluded(node_name(cs[0]), patterns)
        &&& tree_filtered(cs[0], patterns)
        &&& children_filtered(cs.subrange(1, cs.len() as int), patterns)
    }
}

/// Appending one more entry extends the built children by at most one node.
proof fn lemma_build_children_snoc(es: Seq<FsNode>, e: FsNode, patterns: Seq<String>)
    ensures
        build_children_spec(es + seq![e], patterns) == build_children_spec(es, patterns) + (
        if excluded(fs_name(e), patterns) {
            Seq::<TreeView>::empty()
        } else {
            seq![build_spec(e, patterns)]
        }),
    decreases es.len(),
{
    reveal_with_fuel(build_children_spec, 3);
    let all = es + seq![e];
    let tail = if excluded(fs_name(e), patterns) {
        Seq::<TreeView>::empty()
    } else {
        seq![build_spec(e, patterns)]
    };
    if es.len() == 0 {
        assert(all.len() == 1);
        assert(all[0] == e);
        assert(all.subrange(1, 1) =~= Seq::<FsNode>::empty());
        assert(build_children_spec(all, patterns) =~= build_children_spec(es, patterns) + tail);
    } else {
        assert(all[0] == es[0]);
        assert(all.subrange(1, all.len() as int) =~= es.subrange(1, es.len() as int) + seq![e]);
        lemma_build_children_snoc(es.subrange(1, es.len() as int), e, patterns);
        assert(build_children_spec(all, patterns) =~= build_children_spec(es, patterns) + tail);
    }
}

/// Appending one more node extends the sequence of shapes by its shape.
proof fn lemma_trees_view_snoc(cs: Seq<ParsedPath>, c: ParsedPath)
    ensures
        trees_view(cs + seq![c]) == trees_view(cs) + seq![tree_view(c)],
    decreases cs.len(),
{
    reveal_with_fuel(trees_view, 3);
    let all = cs + seq![c];
    if cs.len() == 0 {
        assert(all[0] == c);
        assert(all.subrange(1, 1) =~= Seq::<ParsedPath>::empty());
        assert(trees_view(all) =~= trees_view(cs) + seq![tree_view(c)]);
    } else {
        assert(all[0] == cs[0]);
        assert(all.subrange(1, all.len() as int) =~= cs.subrange(1, cs.len() as int) + seq![c]);
        lemma_trees_view_snoc(cs.subrange(1, cs.len() as int), c);
        assert(trees_view(all) =~= trees_view(cs) + seq![tree_view(c)]);
    }
}

/// Subtree pruning: whatever the snapshot and the patterns, the built tree
/// holds no node whose name a pattern matches. An excluded directory is not
/// a node of the result, so it produces no descendants there either.
pub proof fn lemma_build_prunes(n: FsNode, patterns: Seq<String>)
    ensures
        tree_filtered(build_spec(n, patterns), patterns),
    decreases n,
{
    match n {
        FsNode::File { .. } => {},
        FsNode::Dir { entries, .. } => {
            lemma_build_children_prunes(entries@, patterns);
        },
    }
}

/// The children built from any entry sequence are all filtered.
pub proof fn lemma_build_children_prunes(es: Seq<FsNode>, patterns: Seq<String>)
    ensures
        children_filtered(build_children_spec(es, patterns), patterns),
    decreases es,
{
    if es.len() == 0 {
    } else {
        let rest = es.subrange(1, es.len() as int);
        lemma_build_children_prunes(rest, patterns);
        if excluded(fs_name(es[0]), patterns) {
        } else {
            lemma_build_prunes(es[0], patterns);
            let built = build_children_spec(es, patterns);
            assert(built[0] == build_spec(es[0], patterns));
            assert(built.subrange(1, built.len() as int) =~= build_children_spec(rest, patterns));
            assert(!excluded(node_name(built[0]), patterns));
        }
    }
}

/// Builds the preview tree for one snapshot node, filtering every directory
/// level by the ignore patterns.
pub fn build_node(n: &FsNode, patterns: &Vec<String>) -> (r: ParsedPath)
    ensures
        r@ == build_spec(*n, patterns@),
    decreases *n,
{
    match n {
        FsNode::File { name, path } => ParsedPath::File {
            name: name.clone(),
            path: path.clone(),
        },
        FsNode::Dir { name, path, entries } => {
            let mut children: Vec<ParsedPath> = Vec::new();
            let mut j: usize = 0;
            while j < entries.len()
                invariant
                    n is Dir,
                    n->Dir_entries == *entries,
                    0 <= j <= entries@.len(),
                    trees_view(children@) == build_children_spec(
                        entries@.take(j as int),
                        patterns@,
                    ),
                decreases entries@.len() - j,
            {
                proof {
                    assert(entries@.take(j + 1) =~= entries@.take(j as int) + seq![
                        entries@[j as int],
                    ]);
                    lemma_build_children_snoc(
                        entries@.take(j as int),
                        entries@[j as int],
                        patterns@,
                    );
                }
                let e = &entries[j];
                let keep = match e {
                    FsNode::File { name, .. } => included(name.as_str(), patterns),
                    FsNode::Dir { name, .. } => included(name.as_str(), patterns),
                };
                if keep {
                    proof {
                        assert(decreases_to!(*n => n->Dir_entries@[j as int]));
                    }
                    let built = build_node(e, patterns);
                    let ghost before = children@;
                    children.push(built);
                    proof {
                        assert(children@ =~= before + seq![built]);
                        lemma_trees_view_snoc(before, built);
                    }
                }
                j = j + 1;
                proof {
                    assert(trees_view(children@) =~= build_children_spec(
                        entries@.take(j as int),
                        patterns@,
                    ));
                }
            }
            proof {
                assert(entries@.take(entries@.len() as int) =~= entries@);
            }
            ParsedPath::Directory { name: name.clone(), path: path.clone(), children }
        },
    }
}

/// Builds the preview tree for a path that may not exist: a missing root
/// fails with `NotFound`, as a traversal of a vanished path would.
pub fn build_file_tree(root: Option<&FsNode>, patterns: &Vec<String>) -> (r: Result<
    ParsedPath,
    CommandError,
>)
    ensures
        match root {
            Some(n) => r is Ok && r->Ok_0@ == build_spec(*n, patterns@),
            None => r is Err && r->Err_0.kind == ErrorKind::NotFound,
        },
{
    match root {
        Some(n) => Ok(build_node(n, patterns)),
        None => Err(CommandError::not_found(String::from_str("path does not exist"))),
    }
}

/// What the preview of a list of roots holds: one built tree per existing
/// root, in input order; a missing root contributes nothing.
pub open spec fn preview_fn(patterns: Seq<String>) -> spec_fn(Option<FsNode>) -> Option<TreeView> {
    |o: Option<FsNode>|
        match o {
            Option::Some(n) => Option::Some(build_spec(n, patterns)),
            Option::None => Option::None,
        }
}

/// Builds one preview tree per existing root, skipping missing roots
/// silently.
pub fn get_preview_tree(roots: &Vec<Option<FsNode>>, patterns: &Vec<String>) -> (r: Vec<
    ParsedPath,
>)
    ensures
        trees_view(r@) == roots@.filter_map(preview_fn(patterns@)),
{
    let mut out: Vec<ParsedPath> = Vec::new();
    let mut i: usize = 0;
    while i < roots.len()
        invariant
            0 <= i <= roots@.len(),
            trees_view(out@) == roots@.take(i as int).filter_map(preview_fn(patterns@)),
        decreases roots@.len() - i,
    {
        proof {
            roots@.lemma_filter_map_take_succ(preview_fn(patterns@), i as int);
        }
        match &roots[i] {
            Some(n) => {
                let built = build_node(n, patterns);
                let ghost before = out@;
                out.push(built);
                proof {
                    assert(out@ =~= before + seq![built]);
                    lemma_trees_view_snoc(before, built);
                }
            },
            None => {},
        }
        i = i + 1;
        proof {
            assert(trees_view(out@) =~= roots@.take(i as int).filter_map(preview_fn(patterns@)));
        }
    }
    proof {
        assert(roots@.take(roots@.len() as int) =~= roots@);
    }
    out
}

/// A structural copy of one tree node.
pub fn clone_tree(t: &ParsedPath) -> (r: ParsedPath)
    ensures
        r@ == t@,
    decreases *t,
{
    match t {
        ParsedPath::File { name, path } => ParsedPath::File {
            name: name.clone(),
            path: path.clone(),
        },
        ParsedPath::Directory { name, path, children } => {
            let mut out: Vec<ParsedPath> = Vec::new();
            let mut j: usize = 0;
            while j < children.len()
                invariant
                    t is Directory,
                    t->Directory_children == *children,
                    0 <= j <= children@.len(),
                    trees_view(out@) == trees_view(children@.take(j as int)),
                decreases children@.len() - j,
            {
                proof {
                    assert(decreases_to!(*t => t->Directory_children@[j as int]));
                    assert(children@.take(j + 1) =~= children@.take(j as int) + seq![
                        children@[j as int],
                    ]);
                    lemma_trees_view_snoc(children@.take(j as int), children@[j as int]);
                }
                let c = clone_tree(&children[j]);
                let ghost before = out@;
                out.push(c);
                proof {
                    assert(out@ =~= before + seq![c]);
                    lemma_trees_view_snoc(before, c);
                }
                j = j + 1;
            }
            proof {
                assert(children@.take(children@.len() as int) =~= children@);
            }
            ParsedPath::Directory { name: name.clone(), path: path.clone(), children: out }
        },
    }
}

/// A structural copy of a sequence of tree nodes.
pub fn clone_trees(v: &Vec<ParsedPath>) -> (r: Vec<ParsedPath>)
    ensures
        trees_view(r@) == trees_view(v@),
{
    let mut out: Vec<ParsedPath> = Vec::new();
    let mut j: usize = 0;
    while j < v.len()
        invariant
            0 <= j <= v@.len(),
            trees_view(out@) == trees_view(v@.take(j as int)),
        decreases v@.len() - j,
    {
        proof {
            assert(v@.take(j + 1) =~= v@.take(j as int) + seq![v@[j as int]]);
            lemma_trees_view_snoc(v@.take(j as int), v@[j as int]);
        }
        let c = clone_tree(&v[j]);
        let ghost before = out@;
        out.push(c);
        proof {
            assert(out@ =~= before + seq![c]);
            lemma_trees_view_snoc(before, c);
        }
        j = j + 1;
    }
    proof {
        assert(v@.take(v@.len() as int) =~= v@);
    }
    out
}

} // verus!
