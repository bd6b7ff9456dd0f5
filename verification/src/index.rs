//! The name-keyed package index.
//!
//! The index keeps its records in insertion order and inserts with
//! first-insert-wins semantics: once a name is present, a later record with
//! the same name changes nothing.  It offers two read-only views: the
//! ordered record list and lookup by name.

use vstd::prelude::*;

use crate::names::str_eq;
use crate::package::{CMakePackage, PackageModel};

verus! {

/// Some record in `s` carries `name`.
pub open spec fn index_contains_name(s: Seq<PackageModel>, name: Seq<char>) -> bool {
    exists|i: int| 0 <= i < s.len() && s[i].name == name
}

/// The first record in `s` carrying `name`, if any.
pub open spec fn index_lookup(s: Seq<PackageModel>, name: Seq<char>) -> Option<PackageModel>
    decreases s.len(),
{
    if s.len() == 0 {
        None
    } else if s[0].name == name {
        Some(s[0])
    } else {
        index_lookup(s.subrange(1, s.len() as int), name)
    }
}

/// First-insert-wins: `p` is appended only if its name is not yet present.
pub open spec fn index_insert(s: Seq<PackageModel>, p: PackageModel) -> Seq<PackageModel> {
    if index_contains_name(s, p.name) {
        s
    } else {
        s.push(p)
    }
}

/// Names are unique within the index.
pub open spec fn index_wf(s: Seq<PackageModel>) -> bool {
    forall|i: int, j: int| 0 <= i < j < s.len() ==> s[i].name != s[j].name
}

/// A name is present exactly when lookup finds a record.
pub proof fn lemma_lookup_contains(s: Seq<PackageModel>, name: Seq<char>)
    ensures
        index_contains_name(s, name) <==> index_lookup(s, name) is Some,
    decreases s.len(),
{
    if s.len() == 0 {
    } else if s[0].name == name {
    } else {
        let t = s.subrange(1, s.len() as int);
        lemma_lookup_contains(t, name);
        if index_contains_name(s, name) {
            let i = choose|i: int| 0 <= i < s.len() && s[i].name == name;
            assert(t[i - 1] == s[i]);
        }
        if index_contains_name(t, name) {
            let i = choose|i: int| 0 <= i < t.len() && t[i].name == name;
            assert(s[i + 1] == t[i]);
        }
    }
}

/// When the first record carrying `name` stands at `k`, lookup returns it.
pub proof fn lemma_lookup_at(s: Seq<PackageModel>, name: Seq<char>, k: int)
    requires
        0 <= k < s.len(),
        forall|j: int| 0 <= j < k ==> s[j].name != name,
        s[k].name == name,
    ensures
        index_lookup(s, name) == Some(s[k]),
    decreases k,
{
    if k == 0 {
    } else {
        let t = s.subrange(1, s.len() as int);
        assert forall|j: int| 0 <= j < k - 1 implies t[j].name != name by {
            assert(t[j] == s[j + 1]);
        }
        assert(t[k - 1] == s[k]);
        lemma_lookup_at(t, name, k - 1);
    }
}

/// When no record carries `name`, lookup finds nothing.
pub proof fn lemma_lookup_none(s: Seq<PackageModel>, name: Seq<char>)
    requires
        forall|j: int| 0 <= j < s.len() ==> s[j].name != name,
    ensures
        index_lookup(s, name) is None,
{
    lemma_lookup_contains(s, name);
    if index_lookup(s, name) is Some {
        assert(index_contains_name(s, name));
        let i = choose|i: int| 0 <= i < s.len() && s[i].name == name;
        assert(false);
    }
}

/// What lookup sees after an append: an already-found record stays found,
/// and the appended record is found only under its own, previously absent,
/// name.
pub proof fn lemma_lookup_push(s: Seq<PackageModel>, q: PackageModel, name: Seq<char>)
    ensures
        index_lookup(s.push(q), name) == (if index_lookup(s, name) is Some {
            index_lookup(s, name)
        } else if q.name == name {
            Some(q)
        } else {
            None
        }),
    decreases s.len(),
{
    let sq = s.push(q);
    if s.len() == 0 {
        assert(sq[0] == q);
        if q.name == name {
            assert(index_lookup(sq, name) == Some(q));
        } else {
            assert(sq.subrange(1, 1) =~= Seq::<PackageModel>::empty());
            assert(index_lookup(sq.subrange(1, 1), name) is None);
            assert(index_lookup(sq, name) is None);
        }
    } else {
        assert(sq[0] == s[0]);
        if s[0].name == name {
            assert(index_lookup(s, name) == Some(s[0]));
            assert(index_lookup(sq, name) == Some(s[0]));
        } else {
            let t = s.subrange(1, s.len() as int);
            assert(sq.subrange(1, sq.len() as int) =~= t.push(q));
            lemma_lookup_push(t, q, name);
            assert(index_lookup(s, name) == index_lookup(t, name));
            assert(index_lookup(sq, name) == index_lookup(t.push(q), name));
        }
    }
}

/// First-insert-wins never disturbs a record already found by lookup.
pub proof fn lemma_insert_preserves_lookup(
    s: Seq<PackageModel>,
    q: PackageModel,
    name: Seq<char>,
)
    requires
        index_lookup(s, name) is Some,
    ensures
        index_lookup(index_insert(s, q), name) == index_lookup(s, name),
{
    if !index_contains_name(s, q.name) {
        lemma_lookup_push(s, q, name);
    }
}

/// Inserting a record whose name is absent makes it the one lookup finds.
pub proof fn lemma_insert_fresh(s: Seq<PackageModel>, p: PackageModel)
    requires
        !index_contains_name(s, p.name),
    ensures
        index_lookup(index_insert(s, p), p.name) == Some(p),
{
    lemma_lookup_contains(s, p.name);
    lemma_lookup_push(s, p, p.name);
}

/// The names present after an insert: exactly the old names, plus the
/// inserted record's.
pub proof fn lemma_insert_contains(s: Seq<PackageModel>, p: PackageModel, name: Seq<char>)
    ensures
        index_contains_name(index_insert(s, p), name) == (index_contains_name(s, name) || p.name
            == name),
{
    if index_contains_name(s, p.name) {
        if p.name == name {
            let i = choose|i: int| 0 <= i < s.len() && s[i].name == p.name;
            assert(s[i].name == name);
        }
    } else {
        let sq = s.push(p);
        if index_contains_name(sq, name) {
            let i = choose|i: int| 0 <= i < sq.len() && sq[i].name == name;
            if i < s.len() {
                assert(sq[i] == s[i]);
            } else {
                assert(sq[i] == p);
            }
        }
        if index_contains_name(s, name) {
            let i = choose|i: int| 0 <= i < s.len() && s[i].name == name;
            assert(sq[i] == s[i]);
        }
        if p.name == name {
            assert(sq[s.len() as int] == p);
        }
    }
}

/// Insertion keeps names unique.
pub proof fn lemma_insert_wf(s: Seq<PackageModel>, p: PackageModel)
    requires
        index_wf(s),
    ensures
        index_wf(index_insert(s, p)),
{
    if !index_contains_name(s, p.name) {
        let sq = s.push(p);
        assert forall|i: int, j: int| 0 <= i < j < sq.len() implies sq[i].name != sq[j].name by {
            if j < s.len() {
                assert(sq[i] == s[i] && sq[j] == s[j]);
            } else {
                assert(sq[j] == p);
                assert(sq[i] == s[i]);
                assert(!(s[i].name == p.name));
            }
        }
    }
}

/// The package index: records in insertion order, names unique whenever it
/// was built by insertion alone.
pub struct PackageIndex {
    records: Vec<CMakePackage>,
}

impl View for PackageIndex {
    type V = Seq<PackageModel>;

    closed spec fn view(&self) -> Seq<PackageModel> {
        self.records@.map_values(|p: CMakePackage| p@)
    }
}

impl PackageIndex {
    /// The empty index.
    pub fn new() -> (r: PackageIndex)
        ensures
            r@ == Seq::<PackageModel>::empty(),
    {
        let r = PackageIndex { records: Vec::new() };
        proof {
            assert(r@ =~= Seq::<PackageModel>::empty());
        }
        r
    }

    /// How many packages the index holds.
    pub fn len(&self) -> (r: usize)
        ensures
            r == self@.len(),
    {
        self.records.len()
    }

    /// Is a record with this name already present?
    pub fn contains_name(&self, name: &str) -> (r: bool)
        ensures
            r == index_contains_name(self@, name@),
    {
        let n = self.records.len();
        let mut i: usize = 0;
        while i < n
            invariant
                i <= n,
                n == self.records@.len(),
                n == self@.len(),
                forall|j: int| 0 <= j < i ==> self@[j].name != name@,
            decreases n - i,
        {
            proof {
                assert(self@[i as int] == self.records@[i as int]@);
            }
            if str_eq(self.records[i].name.as_str(), name) {
                return true;
            }
            i += 1;
        }
        false
    }

    /// Inserts with first-insert-wins semantics: when the name is already
    /// present the index is returned unchanged.
    pub fn insert_if_absent(self, p: CMakePackage) -> (r: PackageIndex)
        ensures
            r@ == index_insert(self@, p@),
    {
        if self.contains_name(p.name.as_str()) {
            self
        } else {
            let ghost old_view = self@;
            let mut records = self.records;
            records.push(p);
            let r = PackageIndex { records };
            proof {
                assert(r@ =~= old_view.push(p@));
            }
            r
        }
    }

    /// The ordered view: all records in insertion order.
    pub fn records(&self) -> (r: &Vec<CMakePackage>)
        ensures
            r@.map_values(|p: CMakePackage| p@) == self@,
    {
        &self.records
    }

    /// The keyed view: the first record inserted under `name`, if any.
    pub fn get(&self, name: &str) -> (r: Option<&CMakePackage>)
        ensures
            r matches Some(p) ==> index_lookup(self@, name@) == Some(p@),
            r is None ==> index_lookup(self@, name@) is None,
    {
        let n = self.records.len();
        let mut i: usize = 0;
        while i < n
            invariant
                i <= n,
                n == self.records@.len(),
                n == self@.len(),
                forall|j: int| 0 <= j < i ==> self@[j].name != name@,
            decreases n - i,
        {
            proof {
                assert(self@[i as int] == self.records@[i as int]@);
            }
            if str_eq(self.records[i].name.as_str(), name) {
                proof {
                    lemma_lookup_at(self@, name@, i as int);
                }
                return Some(&self.records[i]);
            }
            i += 1;
        }
        proof {
            lemma_lookup_none(self@, name@);
        }
        None
    }
}

} // verus!
