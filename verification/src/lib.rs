//! A CMake package discovery index.
//!
//! Given a snapshot of an installation prefix (its `share/*/cmake` trees and
//! the immediate children of its library roots), this crate locates the CMake
//! config packages and module packages that a `find_package()` call could
//! resolve to, and builds a name-keyed index of package records.
//!
//! The index is built by an explicit function from a plain-value
//! [`snapshot::PrefixSnapshot`], so callers can construct independent
//! indices, and a caller that walks the real filesystem does so outside this
//! crate.  The scan runs in two phases — config trees first, then library
//! roots — merging with first-insert-wins precedence, so config-style
//! packages win name collisions; [`laws`] states and proves this and the
//! other guarantees of the scan as a whole.

use vstd::prelude::*;

pub mod index;
pub mod laws;
pub mod names;
pub mod package;
pub mod scan;
pub mod snapshot;
pub mod version;

verus! {

/// Resolves the prefix to scan: the MSYS-style prefix variable takes
/// precedence over the generic CMake prefix-path variable; if neither is
/// set there is no prefix and discovery yields an empty index.
pub open spec fn spec_get_prefix(
    msystem_prefix: Option<String>,
    cmake_prefix_path: Option<String>,
) -> Option<String> {
    if msystem_prefix is Some {
        msystem_prefix
    } else {
        cmake_prefix_path
    }
}

/// Picks the single prefix directory to scan from the values of the two
/// environment variables, MSYS prefix first.
pub fn get_prefix(msystem_prefix: Option<String>, cmake_prefix_path: Option<String>) -> (r: Option<
    String,
>)
    ensures
        r == spec_get_prefix(msystem_prefix, cmake_prefix_path),
{
    match msystem_prefix {
        Some(p) => Some(p),
        None => cmake_prefix_path,
    }
}

} // verus!
