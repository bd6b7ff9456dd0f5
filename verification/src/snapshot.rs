//! A plain-value snapshot of the part of a filesystem prefix that package
//! discovery reads: the `share/*/cmake` trees and the immediate children of
//! the existing library roots.
//!
//! The caller that walks the real filesystem fills a [`PrefixSnapshot`] and
//! hands it to the scanner; the scan itself is then a pure computation over
//! this value.

use vstd::prelude::*;

use path_absolutize::Absolutize;

verus! {

/// One file as discovery sees it: its name, its canonicalized absolute
/// path, and its content where it could be read (`None` for an unreadable
/// file).
pub struct FileEntry {
    pub name: String,
    pub path: String,
    pub content: Option<String>,
}

/// The mathematical value of a file entry.
pub ghost struct FileEntryModel {
    pub name: Seq<char>,
    pub path: Seq<char>,
    pub content: Option<Seq<char>>,
}

impl View for FileEntry {
    type V = FileEntryModel;

    open spec fn view(&self) -> FileEntryModel {
        FileEntryModel { name: self.name@, path: self.path@, content: self.content.deep_view() }
    }
}

/// One `<prefix>/share/<Name>/cmake` tree: the name of the directory that
/// is the parent of the `cmake` directory, the tree's own canonicalized
/// path, and its immediate `*.cmake` files in enumeration order.
pub struct ConfigTree {
    pub parent_name: String,
    pub tree_path: String,
    pub files: Vec<FileEntry>,
}

/// The mathematical value of a config tree.
pub ghost struct ConfigTreeModel {
    pub parent_name: Seq<char>,
    pub tree_path: Seq<char>,
    pub files: Seq<FileEntryModel>,
}

impl View for ConfigTree {
    type V = ConfigTreeModel;

    open spec fn view(&self) -> ConfigTreeModel {
        ConfigTreeModel {
            parent_name: self.parent_name@,
            tree_path: self.tree_path@,
            files: self.files@.map_values(|f: FileEntry| f@),
        }
    }
}

/// What an immediate child of a library root is: a directory with its own
/// immediate regular files (in enumeration order), or a single file.
pub enum ChildKind {
    Dir(Vec<FileEntry>),
    File,
}

/// The mathematical value of a child's kind.
pub ghost enum ChildKindModel {
    Dir(Seq<FileEntryModel>),
    File,
}

impl View for ChildKind {
    type V = ChildKindModel;

    open spec fn view(&self) -> ChildKindModel {
        match self {
            ChildKind::Dir(files) => ChildKindModel::Dir(files@.map_values(|f: FileEntry| f@)),
            ChildKind::File => ChildKindModel::File,
        }
    }
}

/// One immediate child of a library root: its file-system name, its
/// canonicalized absolute path, and its kind.
pub struct LibRootChild {
    pub name: String,
    pub path: String,
    pub kind: ChildKind,
}

/// The mathematical value of a library-root child.
pub ghost struct LibRootChildModel {
    pub name: Seq<char>,
    pub path: Seq<char>,
    pub kind: ChildKindModel,
}

impl View for LibRootChild {
    type V = LibRootChildModel;

    open spec fn view(&self) -> LibRootChildModel {
        LibRootChildModel { name: self.name@, path: self.path@, kind: self.kind@ }
    }
}

/// One existing library root: its immediate children in enumeration order.
/// A root whose directory could not be listed is simply not part of the
/// snapshot.
pub struct LibRoot {
    pub children: Vec<LibRootChild>,
}

impl View for LibRoot {
    type V = Seq<LibRootChildModel>;

    open spec fn view(&self) -> Seq<LibRootChildModel> {
        self.children@.map_values(|c: LibRootChild| c@)
    }
}

/// Everything discovery reads under one prefix: the config trees matched by
/// `share/*/cmake`, then the existing library roots in candidate order.
pub struct PrefixSnapshot {
    pub config_trees: Vec<ConfigTree>,
    pub lib_roots: Vec<LibRoot>,
}

/// The mathematical value of a snapshot.
pub ghost struct SnapshotModel {
    pub config_trees: Seq<ConfigTreeModel>,
    pub lib_roots: Seq<Seq<LibRootChildModel>>,
}

impl View for PrefixSnapshot {
    type V = SnapshotModel;

    open spec fn view(&self) -> SnapshotModel {
        SnapshotModel {
            config_trees: self.config_trees@.map_values(|t: ConfigTree| t@),
            lib_roots: self.lib_roots@.map_values(|r: LibRoot| r@),
        }
    }
}

/// Relies on `path_absolutize::Absolutize::absolutize` for `Path`: it
/// resolves `.` and `..` components without touching the filesystem,
/// prepending the current working directory to a relative path; it returns
/// an error only when the working directory cannot be determined.  `None`
/// also covers a result that is not valid UTF-8.
#[verifier::external_body]
fn absolutize_path(path: &str) -> (r: Option<String>) {
    match std::path::Path::new(path).absolutize() {
        Ok(p) => match p.to_str() {
            Some(s) => Some(String::from(s)),
            None => None,
        },
        Err(_) => None,
    }
}

impl FileEntry {
    /// Builds a file entry, canonicalizing the file's path.  `None` means
    /// the path could not be resolved and the entry is to be skipped; the
    /// scan goes on without it.
    pub fn new(name: String, raw_path: &str, content: Option<String>) -> (r: Option<FileEntry>)
        ensures
            r matches Some(e) ==> e.name == name && e.content == content,
    {
        match absolutize_path(raw_path) {
            Some(p) => Some(FileEntry { name, path: p, content }),
            None => None,
        }
    }
}

impl ConfigTree {
    /// Builds a config tree, canonicalizing the tree's own path, which
    /// becomes the package's location.  `None` means the path could not be
    /// resolved and the tree is to be skipped.
    pub fn new(parent_name: String, raw_tree_path: &str, files: Vec<FileEntry>) -> (r: Option<
        ConfigTree,
    >)
        ensures
            r matches Some(t) ==> t.parent_name == parent_name && t.files == files,
    {
        match absolutize_path(raw_tree_path) {
            Some(p) => Some(ConfigTree { parent_name, tree_path: p, files }),
            None => None,
        }
    }
}

impl LibRootChild {
    /// Builds a directory-style child, canonicalizing the child's path,
    /// which becomes the package's location.  `None` means the path could
    /// not be resolved and the child is to be skipped.
    pub fn new_dir(name: String, raw_path: &str, files: Vec<FileEntry>) -> (r: Option<
        LibRootChild,
    >)
        ensures
            r matches Some(c) ==> c.name == name && c.kind == ChildKind::Dir(files),
    {
        match absolutize_path(raw_path) {
            Some(p) => Some(LibRootChild { name, path: p, kind: ChildKind::Dir(files) }),
            None => None,
        }
    }

    /// Builds a single-file child, canonicalizing the file's path, which
    /// becomes both the package's location and its sole navigation target.
    /// `None` means the path could not be resolved and the child is to be
    /// skipped.
    pub fn new_file(name: String, raw_path: &str) -> (r: Option<LibRootChild>)
        ensures
            r matches Some(c) ==> c.name == name && c.kind == ChildKind::File,
    {
        match absolutize_path(raw_path) {
            Some(p) => Some(LibRootChild { name, path: p, kind: ChildKind::File }),
            None => None,
        }
    }
}

} // verus!
