//! The package record: the sole entity the index holds.

use vstd::prelude::*;

verus! {

/// Whether a package is represented by a directory of relevant files or by
/// a single standalone module file.
#[derive(Clone, Copy, Debug, PartialEq, Eq, Structural)]
pub enum FileType {
    Dir,
    File,
}

/// Where a record came from.  This scanner only ever produces records from
/// a system-prefix scan.
#[derive(Clone, Copy, Debug, PartialEq, Eq, Structural)]
pub enum CMakePackageFrom {
    System,
}

/// A discovered CMake package.
#[derive(Clone, Debug, PartialEq, Eq)]
pub struct CMakePackage {
    /// The key used for lookup.
    pub name: String,
    /// Directory-style or single-file-style package.
    pub filetype: FileType,
    /// Canonicalized absolute path identifying the package's root directory
    /// (for `Dir`) or its file (for `File`).
    pub filepath: String,
    /// The declared version, when a config-version file was found and its
    /// content parsed; never the empty string.
    pub version: Option<String>,
    /// Canonicalized absolute paths of the package's relevant files, in
    /// discovery order.
    pub tojump: Vec<String>,
    /// Provenance of the record.
    pub from: CMakePackageFrom,
}

/// The mathematical value of a package record.
pub ghost struct PackageModel {
    pub name: Seq<char>,
    pub filetype: FileType,
    pub filepath: Seq<char>,
    pub version: Option<Seq<char>>,
    pub tojump: Seq<Seq<char>>,
    pub from: CMakePackageFrom,
}

impl View for CMakePackage {
    type V = PackageModel;

    open spec fn view(&self) -> PackageModel {
        PackageModel {
            name: self.name@,
            filetype: self.filetype,
            filepath: self.filepath@,
            version: self.version.deep_view(),
            tojump: self.tojump.deep_view(),
            from: self.from,
        }
    }
}

} // verus!
