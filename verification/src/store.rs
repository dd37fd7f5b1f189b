//! The in-memory version store: an ordered collection of discovered
//! version records, kept sorted ascending by version number.

use vstd::prelude::*;
use vstd::multiset::Multiset;
use vstd::seq_lib::group_to_multiset_ensures;

verus! {

/// One discovered version: its probe-sequence number and the
/// last-modification timestamp reported for its content location.
pub struct Version {
    pub version: u32,
    pub date: String,
}

/// The accumulated mapping from version numbers to timestamps for one
/// asset. Invariant (see [`Versions::wf`]): records are sorted strictly
/// ascending by version number, so version numbers are unique.
pub struct Versions {
    pub assetid: u64,
    pub versions: Vec<Version>,
}

/// The records of `s` are sorted ascending (non-strict) by version number.
pub open spec fn sorted_le(s: Seq<Version>) -> bool {
    forall|i: int, j: int| 0 <= i < j < s.len() ==> s[i].version <= s[j].version
}

/// The records of `s` are sorted strictly ascending by version number;
/// this implies that no version number occurs twice.
pub open spec fn sorted_strict(s: Seq<Version>) -> bool {
    forall|i: int, j: int| 0 <= i < j < s.len() ==> s[i].version < s[j].version
}

/// Some record of `s` carries version number `v`.
pub open spec fn has_version(s: Seq<Version>, v: u32) -> bool {
    exists|i: int| 0 <= i < s.len() && s[i].version == v
}

/// Insert `x` into the sorted vector `out`, keeping it sorted. Every
/// record already present stays present (multiset view), and records
/// with the same version number as `x` end up before it.
fn insert_sorted(out: &mut Vec<Version>, x: Version)
    requires
        sorted_le(old(out)@),
    ensures
        sorted_le(final(out)@),
        final(out)@.to_multiset() == old(out)@.to_multiset().insert(x),
        final(out)@.len() == old(out)@.len() + 1,
        sorted_strict(old(out)@) && !has_version(old(out)@, x.version) ==> sorted_strict(
            final(out)@,
        ),
{
    broadcast use group_to_multiset_ensures;

    let mut idx: usize = 0;
    while idx < out.len() && out[idx].version <= x.version
        invariant
            idx <= out@.len(),
            sorted_le(out@),
            out@ == old(out)@,
            forall|k: int| 0 <= k < idx ==> out@[k].version <= x.version,
        decreases out@.len() - idx,
    {
        idx += 1;
    }
    assert(forall|k: int| idx <= k < out@.len() ==> x.version < out@[k].version);
    out.insert(idx, x);
    assert(sorted_le(out@)) by {
        assert(forall|i: int, j: int|
            0 <= i < j < out@.len() ==> out@[i].version <= out@[j].version) by {
            assert(forall|i: int| 0 <= i < idx ==> out@[i] == old(out)@[i]);
            assert(forall|i: int|
                idx < i < out@.len() ==> out@[i] == old(out)@[i - 1]);
            assert(out@[idx as int] == x);
        }
    }
    proof { if sorted_strict(old(out)@) && !has_version(old(out)@, x.version) {
        assert(sorted_strict(out@)) by {
            assert(forall|i: int| 0 <= i < idx ==> out@[i] == old(out)@[i]);
            assert(forall|i: int|
                idx < i < out@.len() ==> out@[i] == old(out)@[i - 1]);
            assert(out@[idx as int] == x);
            assert(forall|k: int|
                0 <= k < idx ==> out@[k].version != x.version) by {
                assert(forall|k: int|
                    0 <= k < idx ==> old(out)@[k].version != x.version);
            }
        }
    } }
}

impl Versions {
    /// Well-formedness: the collection is sorted strictly ascending by
    /// version number after every mutation.
    pub open spec fn wf(self) -> bool {
        sorted_strict(self.versions@)
    }

    /// A fresh, empty collection for the given asset.
    pub fn new(assetid: u64) -> (c: Versions)
        ensures
            c.wf(),
            c.assetid == assetid,
            c.versions@.len() == 0,
    {
        Versions { assetid, versions: Vec::new() }
    }

    /// Re-establish the sort order: afterwards the records are sorted
    /// ascending by version number and are, as a multiset, exactly the
    /// records that were present before.
    pub fn sort_versions(&mut self)
        ensures
            final(self).assetid == old(self).assetid,
            sorted_le(final(self).versions@),
            final(self).versions@.to_multiset() == old(self).versions@.to_multiset(),
            final(self).versions@.len() == old(self).versions@.len(),
    {
        broadcast use group_to_multiset_ensures, vstd::multiset::group_multiset_axioms;

        let mut out: Vec<Version> = Vec::new();
        while self.versions.len() != 0
            invariant
                sorted_le(out@),
                out@.to_multiset().add(self.versions@.to_multiset())
                    == old(self).versions@.to_multiset(),
                out@.len() + self.versions@.len() == old(self).versions@.len(),
                self.assetid == old(self).assetid,
            decreases self.versions@.len(),
        {
            let ghost pre = self.versions@;
            let ghost a = out@.to_multiset();
            let x = self.versions.pop().unwrap();
            assert(pre =~= self.versions@.push(x));
            assert(pre.to_multiset() == self.versions@.push(x).to_multiset());
            proof {
                vstd::seq_lib::to_multiset_build(self.versions@, x);
            }
            assert(pre.to_multiset() == self.versions@.to_multiset().insert(x));
            insert_sorted(&mut out, x);
            proof {
                broadcast use vstd::multiset::group_multiset_axioms;

                assert(out@.to_multiset() == a.insert(x));
                assert(a.add(self.versions@.to_multiset().insert(x)) == old(
                    self,
                ).versions@.to_multiset());
                assert(a.insert(x).add(self.versions@.to_multiset()) =~= a.add(
                    self.versions@.to_multiset().insert(x),
                ));
            }
        }
        assert(self.versions@.to_multiset() =~= Multiset::<Version>::empty()) by {
            assert(self.versions@ =~= Seq::<Version>::empty());
        }
        self.versions = out;
    }

    /// Whether a record with version number `v` is already present.
    pub fn contains_version(&self, v: u32) -> (b: bool)
        ensures
            b == has_version(self.versions@, v),
    {
        let mut i: usize = 0;
        while i < self.versions.len()
            invariant
                i <= self.versions@.len(),
                forall|k: int| 0 <= k < i ==> self.versions@[k].version != v,
            decreases self.versions@.len() - i,
        {
            if self.versions[i].version == v {
                return true;
            }
            i += 1;
        }
        false
    }

    /// Runtime check of the well-formedness invariant, for callers that
    /// did not build the collection through this module alone.
    pub fn is_well_formed(&self) -> (b: bool)
        ensures
            b == self.wf(),
    {
        let n = self.versions.len();
        if n == 0 {
            return true;
        }
        let mut i: usize = 0;
        while i < n - 1
            invariant
                n == self.versions@.len(),
                n >= 1,
                i <= n - 1,
                forall|k: int| 0 <= k < i ==> #[trigger] self.versions@[k].version < self.versions@[k + 1].version,
            decreases n - i,
        {
            if self.versions[i].version >= self.versions[i + 1].version {
                assert(!self.wf());
                return false;
            }
            i += 1;
        }
        assert(self.wf()) by {
            assert(forall|k: int|
                0 <= k < self.versions@.len() - 1 ==> #[trigger] self.versions@[k].version
                    < self.versions@[k + 1].version);
            assert forall|a: int, b: int| 0 <= a < b < self.versions@.len() implies self.versions@[a].version
                < self.versions@[b].version by {
                lemma_adjacent_strict(self.versions@, a, b);
            }
        }
        true
    }

    /// Add one record. If no record with that version number exists yet,
    /// the new record is inserted at its sorted position; otherwise the
    /// existing record is overwritten in place (the later insertion wins).
    pub fn insert_record(&mut self, r: Version)
        requires
            old(self).wf(),
        ensures
            final(self).wf(),
            final(self).assetid == old(self).assetid,
            !has_version(old(self).versions@, r.version) ==> {
                &&& final(self).versions@.to_multiset() == old(
                    self,
                ).versions@.to_multiset().insert(r)
                &&& final(self).versions@.len() == old(self).versions@.len() + 1
            },
            has_version(old(self).versions@, r.version) ==> exists|i: int|
                0 <= i < old(self).versions@.len() && old(self).versions@[i].version == r.version
                    && final(self).versions@ == old(self).versions@.update(i, r),
    {
        let mut idx: usize = 0;
        while idx < self.versions.len() && self.versions[idx].version < r.version
            invariant
                idx <= self.versions@.len(),
                self == old(self),
                forall|k: int| 0 <= k < idx ==> self.versions@[k].version < r.version,
            decreases self.versions@.len() - idx,
        {
            idx += 1;
        }
        assert(forall|k: int|
            idx <= k < self.versions@.len() ==> r.version <= self.versions@[k].version) by {
            assert(forall|k: int|
                idx < k < self.versions@.len() ==> self.versions@[idx as int].version
                    <= self.versions@[k].version);
        }
        if idx < self.versions.len() && self.versions[idx].version == r.version {
            let ghost pre = self.versions@;
            self.versions.remove(idx);
            self.versions.insert(idx, r);
            assert(final(self).versions@ =~= pre.update(idx as int, r));
            assert(sorted_strict(self.versions@)) by {
                assert(forall|k: int|
                    0 <= k < self.versions@.len() && k != idx ==> self.versions@[k] == pre[k]);
            }
        } else {
            assert(!has_version(self.versions@, r.version));
            let ghost pre = self.versions@;
            broadcast use group_to_multiset_ensures;

            self.versions.insert(idx, r);
            assert(sorted_strict(self.versions@)) by {
                assert(forall|i: int| 0 <= i < idx ==> self.versions@[i] == pre[i]);
                assert(forall|i: int|
                    idx < i < self.versions@.len() ==> self.versions@[i] == pre[i - 1]);
                assert(self.versions@[idx as int] == r);
                assert(forall|k: int|
                    idx <= k < pre.len() ==> r.version < pre[k].version);
            }
        }
    }

    /// A read-consistent deep copy for persistence.
    pub fn snapshot(&self) -> (c: Versions)
        ensures
            c.assetid == self.assetid,
            c.versions@ == self.versions@,
    {
        let mut out: Vec<Version> = Vec::new();
        let mut i: usize = 0;
        while i < self.versions.len()
            invariant
                i <= self.versions@.len(),
                out@ == self.versions@.subrange(0, i as int),
            decreases self.versions@.len() - i,
        {
            let rec = Version {
                version: self.versions[i].version,
                date: self.versions[i].date.clone(),
            };
            assert(rec == self.versions@[i as int]);
            out.push(rec);
            assert(out@ =~= self.versions@.subrange(0, i + 1));
            i += 1;
        }
        assert(out@ =~= self.versions@);
        Versions { assetid: self.assetid, versions: out }
    }
}

/// In a sequence whose adjacent records are strictly increasing by
/// version number, any earlier record's version number is below any
/// later one's.
proof fn lemma_adjacent_strict(s: Seq<Version>, a: int, b: int)
    requires
        forall|k: int| 0 <= k < s.len() - 1 ==> #[trigger] s[k].version < s[k + 1].version,
        0 <= a < b < s.len(),
    ensures
        s[a].version < s[b].version,
    decreases b - a,
{
    if b == a + 1 {
    } else {
        lemma_adjacent_strict(s, a, b - 1);
    }
}

/// Every collection the run builds is sorted strictly ascending by
/// version number with no duplicate version numbers: `new` establishes
/// the invariant and `insert_record` preserves it, whatever order the
/// probe tasks complete in.
pub proof fn lemma_collection_sorted_unique(c: Versions)
    requires
        c.wf(),
    ensures
        forall|i: int, j: int|
            0 <= i < j < c.versions@.len() ==> c.versions@[i].version < c.versions@[j].version,
        forall|i: int, j: int|
            0 <= i < j < c.versions@.len() ==> c.versions@[i].version != c.versions@[j].version,
{
}

} // verus!
