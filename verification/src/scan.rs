//! The discovery scan: config trees first, then library roots, merged into
//! one index with first-insert-wins precedence.

use vstd::prelude::*;

use crate::index::{
    index_insert, index_wf, lemma_insert_wf, PackageIndex,
};
use crate::names::{
    is_config_file, is_config_name, is_config_version_file, is_config_version_name,
    is_module_file, is_module_name, spec_truncate_at_dot, truncate_at_dot,
};
use crate::package::{CMakePackage, CMakePackageFrom, FileType, PackageModel};
use crate::snapshot::{
    ChildKind, ChildKindModel, ConfigTree, ConfigTreeModel, FileEntry, FileEntryModel,
    LibRootChild, LibRootChildModel, PrefixSnapshot, SnapshotModel,
};
use crate::version::{get_version, spec_extract_version};

use vstd::string::StringExecFns;

verus! {

// ---------------------------------------------------------------------------
// Library roots
// ---------------------------------------------------------------------------
/// A singleton when the flag holds, nothing otherwise.
pub open spec fn opt_entry(b: bool, p: Seq<char>) -> Seq<Seq<char>> {
    if b {
        seq![p]
    } else {
        Seq::empty()
    }
}

/// The fixed ordered candidate list of library roots under a prefix: the
/// primary library dir, its two architecture-specific variants, and the
/// shared-data dir, each suffixed with `/cmake`.
pub open spec fn lib_candidates(prefix: Seq<char>) -> Seq<Seq<char>> {
    seq![
        prefix + "/lib/cmake"@,
        prefix + "/lib32/cmake"@,
        prefix + "/lib64/cmake"@,
        prefix + "/share/cmake"@,
    ]
}

/// The candidates marked present, in candidate order.
pub open spec fn existing_libs(prefix: Seq<char>, present: Seq<bool>) -> Seq<Seq<char>> {
    opt_entry(present[0], lib_candidates(prefix)[0]) + opt_entry(
        present[1],
        lib_candidates(prefix)[1],
    ) + opt_entry(present[2], lib_candidates(prefix)[2]) + opt_entry(
        present[3],
        lib_candidates(prefix)[3],
    )
}

/// Joins a prefix and a path tail.
fn join_path(prefix: &str, tail: &str) -> (r: String)
    ensures
        r@ == prefix@ + tail@,
{
    let p = prefix.to_owned();
    p.concat(tail)
}

/// The library roots to scan under `prefix`: each of the four candidates
/// whose flag says its directory exists on disk, in candidate order.
/// Non-existence is not an error; the flags come from the caller's look at
/// the filesystem.
pub fn get_available_libs(prefix: &str, present: &[bool; 4]) -> (r: Vec<String>)
    ensures
        r.deep_view() == existing_libs(prefix@, present@),
{
    let mut r: Vec<String> = Vec::new();
    let ghost mut acc: Seq<Seq<char>> = Seq::empty();
    if present[0] {
        r.push(join_path(prefix, "/lib/cmake"));
    }
    proof {
        acc = acc + opt_entry(present@[0], lib_candidates(prefix@)[0]);
        assert(r.deep_view() =~= acc);
    }
    if present[1] {
        r.push(join_path(prefix, "/lib32/cmake"));
    }
    proof {
        acc = acc + opt_entry(present@[1], lib_candidates(prefix@)[1]);
        assert(r.deep_view() =~= acc);
    }
    if present[2] {
        r.push(join_path(prefix, "/lib64/cmake"));
    }
    proof {
        acc = acc + opt_entry(present@[2], lib_candidates(prefix@)[2]);
        assert(r.deep_view() =~= acc);
    }
    if present[3] {
        r.push(join_path(prefix, "/share/cmake"));
    }
    proof {
        acc = acc + opt_entry(present@[3], lib_candidates(prefix@)[3]);
        assert(r.deep_view() =~= acc);
        assert(acc =~= existing_libs(prefix@, present@));
    }
    r
}

// ---------------------------------------------------------------------------
// What one config tree contributes
// ---------------------------------------------------------------------------
/// Some file of the tree is a config file, which marks the tree as a
/// package.
pub open spec fn tree_has_config(files: Seq<FileEntryModel>) -> bool
    decreases files.len(),
{
    if files.len() == 0 {
        false
    } else {
        tree_has_config(files.drop_last()) || is_config_name(files.last().name)
    }
}

/// The version a tree's files declare: every readable config-version file
/// overwrites it with its own parse result, so the last one wins.
pub open spec fn tree_version(files: Seq<FileEntryModel>) -> Option<Seq<char>>
    decreases files.len(),
{
    if files.len() == 0 {
        None
    } else if is_config_version_name(files.last().name) && files.last().content is Some {
        spec_extract_version(files.last().content->0)
    } else {
        tree_version(files.drop_last())
    }
}

/// The navigation targets of a config tree: the paths of all its `*.cmake`
/// files, in discovery order.
pub open spec fn tree_tojump(files: Seq<FileEntryModel>) -> Seq<Seq<char>>
    decreases files.len(),
{
    if files.len() == 0 {
        Seq::empty()
    } else {
        tree_tojump(files.drop_last()).push(files.last().path)
    }
}

/// The record a config tree yields when it is a package: named after the
/// parent of the `cmake` directory, located at the tree itself.
pub open spec fn tree_package(t: ConfigTreeModel) -> PackageModel {
    PackageModel {
        name: t.parent_name,
        filetype: FileType::Dir,
        filepath: t.tree_path,
        version: tree_version(t.files),
        tojump: tree_tojump(t.files),
        from: CMakePackageFrom::System,
    }
}

/// What scanning one config tree yields: its record when some file of the
/// tree is a config file, nothing otherwise.
pub open spec fn scan_config_tree_spec(t: ConfigTreeModel) -> Option<PackageModel> {
    if tree_has_config(t.files) {
        Some(tree_package(t))
    } else {
        None
    }
}

// ---------------------------------------------------------------------------
// What one library-root child contributes
// ---------------------------------------------------------------------------
/// The navigation targets of a directory-style child: the paths of its
/// files that are module files, in discovery order.
pub open spec fn dir_tojump(files: Seq<FileEntryModel>) -> Seq<Seq<char>>
    decreases files.len(),
{
    if files.len() == 0 {
        Seq::empty()
    } else if is_module_name(files.last().name) {
        dir_tojump(files.drop_last()).push(files.last().path)
    } else {
        dir_tojump(files.drop_last())
    }
}

/// The version a directory-style child declares: among its module files,
/// every readable config-version file overwrites it with its own parse
/// result, so the last one wins.
pub open spec fn dir_version(files: Seq<FileEntryModel>) -> Option<Seq<char>>
    decreases files.len(),
{
    if files.len() == 0 {
        None
    } else if is_module_name(files.last().name) && is_config_version_name(files.last().name)
        && files.last().content is Some {
        spec_extract_version(files.last().content->0)
    } else {
        dir_version(files.drop_last())
    }
}

/// The record a library-root child yields.  A directory child keeps its own
/// file-system name; a file child is named by its file name truncated at
/// the first `.`, and is its own sole navigation target.
pub open spec fn scan_lib_child_spec(c: LibRootChildModel) -> PackageModel {
    match c.kind {
        ChildKindModel::Dir(files) => PackageModel {
            name: c.name,
            filetype: FileType::Dir,
            filepath: c.path,
            version: dir_version(files),
            tojump: dir_tojump(files),
            from: CMakePackageFrom::System,
        },
        ChildKindModel::File => PackageModel {
            name: spec_truncate_at_dot(c.name),
            filetype: FileType::File,
            filepath: c.path,
            version: None,
            tojump: seq![c.path],
            from: CMakePackageFrom::System,
        },
    }
}

// ---------------------------------------------------------------------------
// The whole scan
// ---------------------------------------------------------------------------
/// Folds the config trees, in order, into the index.
pub open spec fn scan_trees(s: Seq<PackageModel>, trees: Seq<ConfigTreeModel>) -> Seq<
    PackageModel,
>
    decreases trees.len(),
{
    if trees.len() == 0 {
        s
    } else {
        let prev = scan_trees(s, trees.drop_last());
        match scan_config_tree_spec(trees.last()) {
            Some(p) => index_insert(prev, p),
            None => prev,
        }
    }
}

/// Folds one library root's children, in order, into the index.
pub open spec fn scan_children(s: Seq<PackageModel>, children: Seq<LibRootChildModel>) -> Seq<
    PackageModel,
>
    decreases children.len(),
{
    if children.len() == 0 {
        s
    } else {
        index_insert(
            scan_children(s, children.drop_last()),
            scan_lib_child_spec(children.last()),
        )
    }
}

/// Folds the library roots, in candidate order, into the index.
pub open spec fn scan_roots(s: Seq<PackageModel>, roots: Seq<Seq<LibRootChildModel>>) -> Seq<
    PackageModel,
>
    decreases roots.len(),
{
    if roots.len() == 0 {
        s
    } else {
        scan_children(scan_roots(s, roots.drop_last()), roots.last())
    }
}

/// The index a snapshot determines: config trees first, then library
/// roots, first-insert-wins throughout — so config-style packages take
/// strict priority over library-root packages when names collide.
pub open spec fn spec_scan(snap: SnapshotModel) -> Seq<PackageModel> {
    scan_roots(scan_trees(Seq::empty(), snap.config_trees), snap.lib_roots)
}

// ---------------------------------------------------------------------------
// Uniqueness of names
// ---------------------------------------------------------------------------
proof fn lemma_scan_trees_wf(s: Seq<PackageModel>, trees: Seq<ConfigTreeModel>)
    requires
        index_wf(s),
    ensures
        index_wf(scan_trees(s, trees)),
    decreases trees.len(),
{
    if trees.len() > 0 {
        lemma_scan_trees_wf(s, trees.drop_last());
        match scan_config_tree_spec(trees.last()) {
            Some(p) => lemma_insert_wf(scan_trees(s, trees.drop_last()), p),
            None => {},
        }
    }
}

proof fn lemma_scan_children_wf(s: Seq<PackageModel>, children: Seq<LibRootChildModel>)
    requires
        index_wf(s),
    ensures
        index_wf(scan_children(s, children)),
    decreases children.len(),
{
    if children.len() > 0 {
        lemma_scan_children_wf(s, children.drop_last());
        lemma_insert_wf(
            scan_children(s, children.drop_last()),
            scan_lib_child_spec(children.last()),
        );
    }
}

proof fn lemma_scan_roots_wf(s: Seq<PackageModel>, roots: Seq<Seq<LibRootChildModel>>)
    requires
        index_wf(s),
    ensures
        index_wf(scan_roots(s, roots)),
    decreases roots.len(),
{
    if roots.len() > 0 {
        lemma_scan_roots_wf(s, roots.drop_last());
        lemma_scan_children_wf(scan_roots(s, roots.drop_last()), roots.last());
    }
}

/// Package names are unique within the index a scan determines.
pub proof fn lemma_spec_scan_wf(snap: SnapshotModel)
    ensures
        index_wf(spec_scan(snap)),
{
    lemma_scan_trees_wf(Seq::empty(), snap.config_trees);
    lemma_scan_roots_wf(scan_trees(Seq::empty(), snap.config_trees), snap.lib_roots);
}

// ---------------------------------------------------------------------------
// Executable scanners
// ---------------------------------------------------------------------------
/// Scans one `share/*/cmake` tree: collects every `*.cmake` file as a
/// navigation target, extracts the declared version from the last readable
/// config-version file, and yields a record exactly when some file is a
/// config file.
pub fn scan_config_tree(tree: &ConfigTree) -> (r: Option<CMakePackage>)
    ensures
        r matches Some(p) ==> scan_config_tree_spec(tree@) == Some(p@),
        r is None ==> scan_config_tree_spec(tree@) is None,
{
    let ghost fsm = tree@.files;
    let n = tree.files.len();
    let mut tojump: Vec<String> = Vec::new();
    let mut version: Option<String> = None;
    let mut ispackage = false;
    let mut i: usize = 0;
    while i < n
        invariant
            i <= n,
            n == tree.files@.len(),
            fsm == tree@.files,
            fsm.len() == n,
            tojump.deep_view() == tree_tojump(fsm.take(i as int)),
            version.deep_view() == tree_version(fsm.take(i as int)),
            ispackage == tree_has_config(fsm.take(i as int)),
        decreases n - i,
    {
        proof {
            assert(fsm[i as int] == tree.files@[i as int]@);
        }
        let f = &tree.files[i];
        let ghost prev_tojump = tojump.deep_view();
        tojump.push(f.path.clone());
        if is_config_file(f.name.as_str()) {
            ispackage = true;
        }
        if is_config_version_file(f.name.as_str()) {
            if let Some(content) = &f.content {
                version = get_version(content.as_str());
            }
        }
        proof {
            assert(fsm.take(i + 1).drop_last() =~= fsm.take(i as int));
            assert(fsm.take(i + 1).last() == fsm[i as int]);
            assert(tojump.deep_view() =~= prev_tojump.push(fsm[i as int].path));
        }
        i += 1;
    }
    proof {
        assert(fsm.take(n as int) =~= fsm);
    }
    if ispackage {
        let p = CMakePackage {
            name: tree.parent_name.clone(),
            filetype: FileType::Dir,
            filepath: tree.tree_path.clone(),
            version,
            tojump,
            from: CMakePackageFrom::System,
        };
        proof {
            assert(p@ == tree_package(tree@));
        }
        Some(p)
    } else {
        None
    }
}

/// Scans one immediate child of a library root into its package record.
pub fn scan_lib_child(child: &LibRootChild) -> (r: CMakePackage)
    ensures
        r@ == scan_lib_child_spec(child@),
{
    match &child.kind {
        ChildKind::Dir(files) => {
            let ghost fsm = files@.map_values(|f: FileEntry| f@);
            let n = files.len();
            let mut tojump: Vec<String> = Vec::new();
            let mut version: Option<String> = None;
            let mut i: usize = 0;
            while i < n
                invariant
                    i <= n,
                    n == files@.len(),
                    fsm == files@.map_values(|f: FileEntry| f@),
                    fsm.len() == n,
                    tojump.deep_view() == dir_tojump(fsm.take(i as int)),
                    version.deep_view() == dir_version(fsm.take(i as int)),
                decreases n - i,
            {
                proof {
                    assert(fsm[i as int] == files@[i as int]@);
                }
                let f = &files[i];
                let ghost prev_tojump = tojump.deep_view();
                if is_module_file(f.name.as_str()) {
                    tojump.push(f.path.clone());
                    if is_config_version_file(f.name.as_str()) {
                        if let Some(content) = &f.content {
                            version = get_version(content.as_str());
                        }
                    }
                    proof {
                        assert(tojump.deep_view() =~= prev_tojump.push(fsm[i as int].path));
                    }
                }
                proof {
                    assert(fsm.take(i + 1).drop_last() =~= fsm.take(i as int));
                    assert(fsm.take(i + 1).last() == fsm[i as int]);
                }
                i += 1;
            }
            proof {
                assert(fsm.take(n as int) =~= fsm);
            }
            let p = CMakePackage {
                name: child.name.clone(),
                filetype: FileType::Dir,
                filepath: child.path.clone(),
                version,
                tojump,
                from: CMakePackageFrom::System,
            };
            proof {
                assert(child@.kind == ChildKindModel::Dir(fsm));
                assert(p@ == scan_lib_child_spec(child@));
            }
            p
        },
        ChildKind::File => {
            let p = CMakePackage {
                name: truncate_at_dot(child.name.as_str()),
                filetype: FileType::File,
                filepath: child.path.clone(),
                version: None,
                tojump: vec![child.path.clone()],
                from: CMakePackageFrom::System,
            };
            proof {
                assert(p@.tojump =~= seq![child@.path]);
                assert(p@ == scan_lib_child_spec(child@));
            }
            p
        },
    }
}

/// Builds the whole index for one prefix snapshot: all config trees first,
/// then all library roots, merged with first-insert-wins precedence.
pub fn get_cmake_message_with_prefix(snapshot: &PrefixSnapshot) -> (r: PackageIndex)
    ensures
        r@ == spec_scan(snapshot@),
        index_wf(r@),
{
    let mut index = PackageIndex::new();
    let n = snapshot.config_trees.len();
    let mut i: usize = 0;
    while i < n
        invariant
            i <= n,
            n == snapshot.config_trees@.len(),
            snapshot@.config_trees.len() == n,
            index@ == scan_trees(Seq::empty(), snapshot@.config_trees.take(i as int)),
        decreases n - i,
    {
        proof {
            assert(snapshot@.config_trees[i as int] == snapshot.config_trees@[i as int]@);
        }
        match scan_config_tree(&snapshot.config_trees[i]) {
            Some(p) => {
                index = index.insert_if_absent(p);
            },
            None => {},
        }
        proof {
            let ts = snapshot@.config_trees;
            assert(ts.take(i + 1).drop_last() =~= ts.take(i as int));
            assert(ts.take(i + 1).last() == ts[i as int]);
        }
        i += 1;
    }
    proof {
        assert(snapshot@.config_trees.take(n as int) =~= snapshot@.config_trees);
    }
    let ghost after_trees = index@;
    let m = snapshot.lib_roots.len();
    let mut j: usize = 0;
    while j < m
        invariant
            j <= m,
            m == snapshot.lib_roots@.len(),
            snapshot@.lib_roots.len() == m,
            after_trees == scan_trees(Seq::empty(), snapshot@.config_trees),
            index@ == scan_roots(after_trees, snapshot@.lib_roots.take(j as int)),
        decreases m - j,
    {
        proof {
            assert(snapshot@.lib_roots[j as int] == snapshot.lib_roots@[j as int]@);
        }
        let root = &snapshot.lib_roots[j];
        let ghost before_root = index@;
        let kn = root.children.len();
        let mut k: usize = 0;
        while k < kn
            invariant
                k <= kn,
                kn == root.children@.len(),
                root@.len() == kn,
                index@ == scan_children(before_root, root@.take(k as int)),
            decreases kn - k,
        {
            proof {
                assert(root@[k as int] == root.children@[k as int]@);
            }
            let p = scan_lib_child(&root.children[k]);
            index = index.insert_if_absent(p);
            proof {
                assert(root@.take(k + 1).drop_last() =~= root@.take(k as int));
                assert(root@.take(k + 1).last() == root@[k as int]);
            }
            k += 1;
        }
        proof {
            assert(root@.take(kn as int) =~= root@);
            let rs = snapshot@.lib_roots;
            assert(rs.take(j + 1).drop_last() =~= rs.take(j as int));
            assert(rs.take(j + 1).last() == rs[j as int]);
        }
        j += 1;
    }
    proof {
        assert(snapshot@.lib_roots.take(m as int) =~= snapshot@.lib_roots);
        lemma_spec_scan_wf(snapshot@);
    }
    index
}

/// Builds the index from the two environment variable values and the
/// snapshot scanned under the resolved prefix.  When neither variable is
/// set there is nothing to scan and the index is empty.
pub fn get_cmake_message(
    msystem_prefix: Option<String>,
    cmake_prefix_path: Option<String>,
    snapshot: &PrefixSnapshot,
) -> (r: PackageIndex)
    ensures
        crate::spec_get_prefix(msystem_prefix, cmake_prefix_path) is None ==> r@ == Seq::<
            PackageModel,
        >::empty(),
        crate::spec_get_prefix(msystem_prefix, cmake_prefix_path) is Some ==> r@ == spec_scan(
            snapshot@,
        ),
        index_wf(r@),
{
    match crate::get_prefix(msystem_prefix, cmake_prefix_path) {
        Some(_) => get_cmake_message_with_prefix(snapshot),
        None => PackageIndex::new(),
    }
}

} // verus!
