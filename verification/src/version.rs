//! Declared-version extraction from config-version file content.
//!
//! A version declaration is the first occurrence of `set(PACKAGE_VERSION "`
//! in the content; the version string is everything up to the next `"`.
//! An unterminated or empty declaration yields no version: a parsed version
//! is never the empty string.

use vstd::prelude::*;

use crate::names::{first_index_of, lemma_first_index_of_is};

verus! {

/// The text that opens a version declaration.
pub open spec fn version_marker() -> Seq<char> {
    "set(PACKAGE_VERSION \""@
}

/// The marker occurs in `s` at position `i`.
pub open spec fn marker_at(s: Seq<char>, i: int) -> bool {
    0 <= i && i + version_marker().len() <= s.len() && s.subrange(
        i,
        i + version_marker().len(),
    ) == version_marker()
}

/// Position of the first occurrence of the marker in `s`, or `s.len()` if
/// there is none.
pub open spec fn first_marker_index(s: Seq<char>) -> int
    decreases s.len(),
{
    if s.len() == 0 {
        0
    } else if marker_at(s, 0) {
        0
    } else {
        1 + first_marker_index(s.subrange(1, s.len() as int))
    }
}

proof fn lemma_marker_at_shift(s: Seq<char>, j: int)
    requires
        s.len() > 0,
        0 <= j,
    ensures
        marker_at(s, j + 1) == marker_at(s.subrange(1, s.len() as int), j),
{
    let t = s.subrange(1, s.len() as int);
    let m = version_marker().len();
    if j + 1 + m <= s.len() {
        assert(s.subrange(j + 1, j + 1 + m as int) =~= t.subrange(j, j + m as int));
    }
}

pub proof fn lemma_first_marker_index(s: Seq<char>)
    ensures
        0 <= first_marker_index(s) <= s.len(),
        forall|j: int| 0 <= j < first_marker_index(s) ==> !marker_at(s, j),
        first_marker_index(s) < s.len() ==> marker_at(s, first_marker_index(s)),
    decreases s.len(),
{
    if s.len() == 0 {
    } else if marker_at(s, 0) {
    } else {
        let t = s.subrange(1, s.len() as int);
        lemma_first_marker_index(t);
        let f = first_marker_index(s);
        assert forall|j: int| 0 <= j < f implies !marker_at(s, j) by {
            if j > 0 {
                lemma_marker_at_shift(s, j - 1);
            }
        }
        if f < s.len() {
            lemma_marker_at_shift(s, f - 1);
        }
    }
}

/// The first occurrence of the marker is exactly at `k`.
pub proof fn lemma_first_marker_index_is(s: Seq<char>, k: int)
    requires
        0 <= k <= s.len(),
        forall|j: int| 0 <= j < k ==> !marker_at(s, j),
        k < s.len() ==> marker_at(s, k),
    ensures
        first_marker_index(s) == k,
{
    lemma_first_marker_index(s);
    let f = first_marker_index(s);
    if f < k {
        assert(marker_at(s, f));
        assert(false);
    }
    if k < f {
        assert(!marker_at(s, k));
        assert(false);
    }
}

/// The version declared by `s`: the characters between the first marker and
/// the `"` that closes it.  `None` when there is no marker, the declaration
/// is unterminated, or the declared version is empty.
pub open spec fn spec_extract_version(s: Seq<char>) -> Option<Seq<char>> {
    let m = first_marker_index(s);
    if marker_at(s, m) {
        let rest = s.subrange(m + version_marker().len(), s.len() as int);
        let q = first_index_of(rest, '"');
        if 0 < q < rest.len() {
            Some(rest.subrange(0, q))
        } else {
            None
        }
    } else {
        None
    }
}

/// Tests whether the marker occurs in `content` at position `i`.
fn marker_matches_at(content: &str, i: usize) -> (r: bool)
    requires
        i + "set(PACKAGE_VERSION \""@.len() <= content@.len(),
    ensures
        r == marker_at(content@, i as int),
{
    proof {
        reveal_strlit("set(PACKAGE_VERSION \"");
    }
    let n = content.unicode_len();
    let marker = "set(PACKAGE_VERSION \"";
    let lm = marker.unicode_len();
    let mut k: usize = 0;
    while k < lm
        invariant
            k <= lm,
            lm == version_marker().len(),
            marker@ == version_marker(),
            n == content@.len(),
            i + lm <= n,
            forall|j: int| 0 <= j < k ==> content@[i + j] == version_marker()[j],
        decreases lm - k,
    {
        if content.get_char(i + k) != marker.get_char(k) {
            proof {
                let sub = content@.subrange(i as int, i + version_marker().len());
                assert(sub[k as int] == content@[i + k]);
            }
            return false;
        }
        k += 1;
    }
    proof {
        assert(content@.subrange(i as int, i + version_marker().len()) =~= version_marker());
    }
    true
}

/// Extracts the declared version from config-version file content, the
/// first `set(PACKAGE_VERSION "<version>")` declaration deciding.
pub fn get_version(content: &str) -> (r: Option<String>)
    ensures
        r.deep_view() == spec_extract_version(content@),
{
    proof {
        reveal_strlit("set(PACKAGE_VERSION \"");
    }
    let marker = "set(PACKAGE_VERSION \"";
    let lm = marker.unicode_len();
    let n = content.unicode_len();
    if lm > n {
        proof {
            lemma_first_marker_index_is(content@, n as int);
        }
        return None;
    }
    let mut i: usize = 0;
    while i <= n - lm
        invariant
            lm == version_marker().len(),
            lm >= 1,
            n == content@.len(),
            lm <= n,
            i <= n,
            forall|j: int| 0 <= j < i ==> !marker_at(content@, j),
        decreases n - i,
    {
        if marker_matches_at(content, i) {
            proof {
                lemma_first_marker_index_is(content@, i as int);
            }
            let rest_start = i + lm;
            let ghost rest = content@.subrange(rest_start as int, n as int);
            let mut q: usize = rest_start;
            while q < n
                invariant
                    rest_start <= q <= n,
                    n == content@.len(),
                    rest_start <= n,
                    lm == version_marker().len(),
                    rest_start == i + lm,
                    first_marker_index(content@) == i as int,
                    marker_at(content@, i as int),
                    rest == content@.subrange(rest_start as int, n as int),
                    forall|j: int| rest_start <= j < q ==> content@[j] != '"',
                decreases n - q,
            {
                if content.get_char(q) == '"' {
                    proof {
                        assert forall|j: int| 0 <= j < q - rest_start implies rest[j] != '"' by {
                            assert(rest[j] == content@[rest_start + j]);
                        }
                        assert(rest[q - rest_start] == content@[q as int]);
                        lemma_first_index_of_is(rest, '"', q - rest_start);
                    }
                    if q == rest_start {
                        return None;
                    }
                    let v = content.substring_char(rest_start, q).to_owned();
                    proof {
                        assert(v@ =~= rest.subrange(0, q - rest_start));
                    }
                    return Some(v);
                }
                q += 1;
            }
            proof {
                assert forall|j: int| 0 <= j < rest.len() implies rest[j] != '"' by {
                    assert(rest[j] == content@[rest_start + j]);
                }
                lemma_first_index_of_is(rest, '"', rest.len() as int);
            }
            return None;
        }
        i += 1;
    }
    proof {
        assert forall|j: int| 0 <= j <= n implies !marker_at(content@, j) by {
            if i <= j {
                assert(j + version_marker().len() > n);
            }
        }
        lemma_first_marker_index_is(content@, n as int);
    }
    None
}

} // verus!
