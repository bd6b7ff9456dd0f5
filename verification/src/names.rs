//! File-name classification and version-string extraction.
//!
//! The classifiers answer, for a file name, whether it is a config file, a
//! config-version file, or a generic module file.  The extractor parses the
//! content of a config-version file into a declared version string.

use vstd::prelude::*;

verus! {

// ---------------------------------------------------------------------------
// Suffix matching
// ---------------------------------------------------------------------------
/// `s` ends with `suffix`.
pub open spec fn spec_ends_with(s: Seq<char>, suffix: Seq<char>) -> bool {
    suffix.len() <= s.len() && s.subrange(s.len() - suffix.len(), s.len() as int) == suffix
}

/// Suffix test on strings, character by character.
pub fn str_ends_with(s: &str, suffix: &str) -> (r: bool)
    ensures
        r == spec_ends_with(s@, suffix@),
{
    let n = s.unicode_len();
    let m = suffix.unicode_len();
    if m > n {
        return false;
    }
    let mut i: usize = 0;
    while i < m
        invariant
            i <= m <= n,
            n == s@.len(),
            m == suffix@.len(),
            forall|j: int| 0 <= j < i ==> s@[n - m + j] == suffix@[j],
        decreases m - i,
    {
        if s.get_char(n - m + i) != suffix.get_char(i) {
            proof {
                let tail = s@.subrange(s@.len() - suffix@.len(), s@.len() as int);
                assert(tail[i as int] == s@[n - m + i]);
            }
            return false;
        }
        i += 1;
    }
    proof {
        assert(s@.subrange(s@.len() - suffix@.len(), s@.len() as int) =~= suffix@);
    }
    true
}

/// Two strings hold the same characters.
pub fn str_eq(a: &str, b: &str) -> (r: bool)
    ensures
        r == (a@ == b@),
{
    let n = a.unicode_len();
    let m = b.unicode_len();
    if n != m {
        return false;
    }
    let mut i: usize = 0;
    while i < n
        invariant
            i <= n,
            n == a@.len(),
            n == b@.len(),
            forall|j: int| 0 <= j < i ==> a@[j] == b@[j],
        decreases n - i,
    {
        if a.get_char(i) != b.get_char(i) {
            return false;
        }
        i += 1;
    }
    proof {
        assert(a@ =~= b@);
    }
    true
}

// ---------------------------------------------------------------------------
// Classifiers
// ---------------------------------------------------------------------------
/// The name of a config file: `<Name>Config.cmake` or `<name>-config.cmake`.
pub open spec fn is_config_name(name: Seq<char>) -> bool {
    spec_ends_with(name, "Config.cmake"@) || spec_ends_with(name, "-config.cmake"@)
}

/// The name of a config-version file: `<Name>ConfigVersion.cmake` or
/// `<name>-config-version.cmake`.
pub open spec fn is_config_version_name(name: Seq<char>) -> bool {
    spec_ends_with(name, "ConfigVersion.cmake"@) || spec_ends_with(name, "-config-version.cmake"@)
}

/// The name of a generic CMake module file: anything ending in `.cmake`.
pub open spec fn is_module_name(name: Seq<char>) -> bool {
    spec_ends_with(name, ".cmake"@)
}

/// Is this file name a config file?
pub fn is_config_file(name: &str) -> (r: bool)
    ensures
        r == is_config_name(name@),
{
    str_ends_with(name, "Config.cmake") || str_ends_with(name, "-config.cmake")
}

/// Is this file name a config-version file?
pub fn is_config_version_file(name: &str) -> (r: bool)
    ensures
        r == is_config_version_name(name@),
{
    str_ends_with(name, "ConfigVersion.cmake") || str_ends_with(name, "-config-version.cmake")
}

/// Is this file name a CMake module file?
pub fn is_module_file(name: &str) -> (r: bool)
    ensures
        r == is_module_name(name@),
{
    str_ends_with(name, ".cmake")
}

// ---------------------------------------------------------------------------
// First occurrence of a character
// ---------------------------------------------------------------------------
/// Index of the first occurrence of `c` in `s`, or `s.len()` if absent.
pub open spec fn first_index_of(s: Seq<char>, c: char) -> int
    decreases s.len(),
{
    if s.len() == 0 {
        0
    } else if s[0] == c {
        0
    } else {
        1 + first_index_of(s.subrange(1, s.len() as int), c)
    }
}

pub proof fn lemma_first_index_of(s: Seq<char>, c: char)
    ensures
        0 <= first_index_of(s, c) <= s.len(),
        forall|j: int| 0 <= j < first_index_of(s, c) ==> s[j] != c,
        first_index_of(s, c) < s.len() ==> s[first_index_of(s, c)] == c,
    decreases s.len(),
{
    if s.len() == 0 {
    } else if s[0] == c {
    } else {
        let t = s.subrange(1, s.len() as int);
        lemma_first_index_of(t, c);
        let f = first_index_of(s, c);
        assert forall|j: int| 0 <= j < f implies s[j] != c by {
            if j > 0 {
                assert(s[j] == t[j - 1]);
            }
        }
        if f < s.len() {
            assert(s[f] == t[f - 1]);
        }
    }
}

/// The first occurrence of `c` is exactly at `k`: no occurrence before it,
/// and either `k` holds `c` or `k` is the length.
pub proof fn lemma_first_index_of_is(s: Seq<char>, c: char, k: int)
    requires
        0 <= k <= s.len(),
        forall|j: int| 0 <= j < k ==> s[j] != c,
        k < s.len() ==> s[k] == c,
    ensures
        first_index_of(s, c) == k,
{
    lemma_first_index_of(s, c);
    let f = first_index_of(s, c);
    if f < k {
        assert(s[f] == c);
        assert(false);
    }
    if k < f {
        assert(s[k] != c);
        assert(false);
    }
}

// ---------------------------------------------------------------------------
// Package name from a file name
// ---------------------------------------------------------------------------
/// The package name a single-file module gets: the file name truncated at
/// its first `.`, so `FindFoo.cmake` gives `FindFoo` and `Foo.Bar.cmake`
/// gives `Foo`.
pub open spec fn spec_truncate_at_dot(name: Seq<char>) -> Seq<char> {
    name.subrange(0, first_index_of(name, '.'))
}

/// Derives the package name of a single-file module from its file name.
pub fn truncate_at_dot(name: &str) -> (r: String)
    ensures
        r@ == spec_truncate_at_dot(name@),
{
    let n = name.unicode_len();
    let mut i: usize = 0;
    while i < n
        invariant
            i <= n,
            n == name@.len(),
            forall|j: int| 0 <= j < i ==> name@[j] != '.',
        decreases n - i,
    {
        if name.get_char(i) == '.' {
            proof {
                lemma_first_index_of_is(name@, '.', i as int);
            }
            return name.substring_char(0, i).to_owned();
        }
        i += 1;
    }
    proof {
        lemma_first_index_of_is(name@, '.', n as int);
        assert(name@.subrange(0, n as int) =~= name@);
    }
    name.to_owned()
}

} // verus!
