//! The guarantees the scan gives as a whole: an empty snapshot yields an
//! empty index, the scan is a function of the snapshot alone, and
//! config-style packages take precedence over library-root packages on a
//! name collision.

use vstd::prelude::*;

use crate::index::{
    index_contains_name, index_lookup, lemma_insert_contains, lemma_insert_fresh,
    lemma_insert_preserves_lookup,
};
use crate::package::PackageModel;
use crate::scan::{
    scan_children, scan_config_tree_spec, scan_roots, scan_trees, spec_scan, tree_has_config,
    tree_package,
};
use crate::snapshot::{ConfigTreeModel, LibRootChildModel, SnapshotModel};

verus! {

/// A prefix with no config trees and no existing library roots determines
/// an empty index.
pub proof fn lemma_empty_snapshot_scan(snap: SnapshotModel)
    requires
        snap.config_trees.len() == 0,
        snap.lib_roots.len() == 0,
    ensures
        spec_scan(snap) == Seq::<PackageModel>::empty(),
{
}

/// Scanning an unchanged snapshot twice yields element-for-element
/// identical indices: the scan is a function of the snapshot alone.
pub proof fn lemma_scan_idempotent(
    snap: SnapshotModel,
    r1: Seq<PackageModel>,
    r2: Seq<PackageModel>,
)
    requires
        r1 == spec_scan(snap),
        r2 == spec_scan(snap),
    ensures
        r1.len() == r2.len(),
        forall|i: int| 0 <= i < r1.len() ==> r1[i] == r2[i],
{
}

/// The config tree claims `name`: it is a package and is named `name`.
pub open spec fn tree_yields(t: ConfigTreeModel, name: Seq<char>) -> bool {
    tree_has_config(t.files) && t.parent_name == name
}

/// The names present after the config-tree phase: the names already
/// present, plus the name of every tree that is a package.
pub proof fn lemma_scan_trees_contains(
    s: Seq<PackageModel>,
    trees: Seq<ConfigTreeModel>,
    name: Seq<char>,
)
    ensures
        index_contains_name(scan_trees(s, trees), name) == (index_contains_name(s, name)
            || exists|i: int| 0 <= i < trees.len() && tree_yields(trees[i], name)),
    decreases trees.len(),
{
    if trees.len() == 0 {
    } else {
        let dl = trees.drop_last();
        let last = trees.last();
        lemma_scan_trees_contains(s, dl, name);
        let prev = scan_trees(s, dl);
        match scan_config_tree_spec(last) {
            Some(p) => {
                lemma_insert_contains(prev, p, name);
            },
            None => {},
        }
        let yields_some = exists|i: int| 0 <= i < trees.len() && tree_yields(trees[i], name);
        let yields_dl = exists|i: int| 0 <= i < dl.len() && tree_yields(dl[i], name);
        if yields_some {
            let i = choose|i: int| 0 <= i < trees.len() && tree_yields(trees[i], name);
            if i < dl.len() {
                assert(dl[i] == trees[i]);
                assert(yields_dl);
            } else {
                assert(trees[i] == last);
            }
        }
        if yields_dl {
            let i = choose|i: int| 0 <= i < dl.len() && tree_yields(dl[i], name);
            assert(trees[i] == dl[i]);
            assert(yields_some);
        }
        if tree_yields(last, name) {
            assert(trees[trees.len() - 1] == last);
            assert(yields_some);
        }
    }
}

/// A record already found by lookup is still the one found after a
/// library root's children are folded in: first-insert-wins never
/// replaces it.
pub proof fn lemma_scan_children_preserves_lookup(
    s: Seq<PackageModel>,
    children: Seq<LibRootChildModel>,
    name: Seq<char>,
)
    requires
        index_lookup(s, name) is Some,
    ensures
        index_lookup(scan_children(s, children), name) == index_lookup(s, name),
    decreases children.len(),
{
    if children.len() > 0 {
        let dl = children.drop_last();
        lemma_scan_children_preserves_lookup(s, dl, name);
        lemma_insert_preserves_lookup(
            scan_children(s, dl),
            crate::scan::scan_lib_child_spec(children.last()),
            name,
        );
    }
}

/// A record already found by lookup is still the one found after the whole
/// library-root phase.
pub proof fn lemma_scan_roots_preserves_lookup(
    s: Seq<PackageModel>,
    roots: Seq<Seq<LibRootChildModel>>,
    name: Seq<char>,
)
    requires
        index_lookup(s, name) is Some,
    ensures
        index_lookup(scan_roots(s, roots), name) == index_lookup(s, name),
    decreases roots.len(),
{
    if roots.len() > 0 {
        let dl = roots.drop_last();
        lemma_scan_roots_preserves_lookup(s, dl, name);
        lemma_scan_children_preserves_lookup(scan_roots(s, dl), roots.last(), name);
    }
}

/// After the config-tree phase, the first tree to claim a name that was
/// not already present is the record lookup finds under that name.
pub proof fn lemma_scan_trees_fresh(s: Seq<PackageModel>, trees: Seq<ConfigTreeModel>, i: int)
    requires
        0 <= i < trees.len(),
        tree_has_config(trees[i].files),
        !index_contains_name(s, trees[i].parent_name),
        forall|j: int| 0 <= j < i ==> !tree_yields(trees[j], trees[i].parent_name),
    ensures
        index_lookup(scan_trees(s, trees), trees[i].parent_name) == Some(tree_package(trees[i])),
    decreases trees.len(),
{
    let name = trees[i].parent_name;
    let dl = trees.drop_last();
    let last = trees.last();
    let prev = scan_trees(s, dl);
    if i == trees.len() - 1 {
        lemma_scan_trees_contains(s, dl, name);
        assert forall|j: int| 0 <= j < dl.len() implies !tree_yields(dl[j], name) by {
            assert(dl[j] == trees[j]);
        }
        assert(!index_contains_name(prev, name));
        assert(trees[i] == last);
        lemma_insert_fresh(prev, tree_package(last));
    } else {
        assert(dl[i] == trees[i]);
        assert forall|j: int| 0 <= j < i implies !tree_yields(dl[j], name) by {
            assert(dl[j] == trees[j]);
        }
        lemma_scan_trees_fresh(s, dl, i);
        match scan_config_tree_spec(last) {
            Some(q) => {
                lemma_insert_preserves_lookup(prev, q, name);
            },
            None => {},
        }
    }
}

/// Name-collision precedence: a config tree that is a package, whose name
/// no earlier config tree claims, is the record the final index retains
/// under that name — whatever the library roots contribute, its location,
/// version and navigation targets are the ones kept.
pub proof fn lemma_config_precedence(snap: SnapshotModel, i: int)
    requires
        0 <= i < snap.config_trees.len(),
        tree_has_config(snap.config_trees[i].files),
        forall|j: int|
            0 <= j < i ==> !tree_yields(snap.config_trees[j], snap.config_trees[i].parent_name),
    ensures
        index_lookup(spec_scan(snap), snap.config_trees[i].parent_name) == Some(
            tree_package(snap.config_trees[i]),
        ),
{
    let name = snap.config_trees[i].parent_name;
    lemma_scan_trees_fresh(Seq::empty(), snap.config_trees, i);
    lemma_scan_roots_preserves_lookup(
        scan_trees(Seq::empty(), snap.config_trees),
        snap.lib_roots,
        name,
    );
}

} // verus!
