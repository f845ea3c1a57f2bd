//! Ordered storage-slot mappings: the shape in which instances export their
//! canonical state and in which raw storage diffs arrive.

use vstd::prelude::*;
use crate::W256;

verus! {

/// An ordered mapping from storage-slot key to 256-bit value, with strictly
/// increasing keys.
pub struct StorageMap {
    pub entries: Vec<(u64, W256)>,
}

/// The value stored under `k` in `s` at or after position `i`, if any.
pub open spec fn seq_get_from(s: Seq<(u64, W256)>, k: u64, i: int) -> Option<W256>
    decreases s.len() - i,
{
    if i < 0 || i >= s.len() {
        None
    } else if s[i].0 == k {
        Some(s[i].1)
    } else {
        seq_get_from(s, k, i + 1)
    }
}

/// The value stored under `k` in `s`, if any.
pub open spec fn seq_get(s: Seq<(u64, W256)>, k: u64) -> Option<W256> {
    seq_get_from(s, k, 0)
}

impl StorageMap {
    /// Keys are strictly increasing along the entry list.
    pub open spec fn wf(self) -> bool {
        forall|i: int, j: int|
            0 <= i < j < self.entries@.len() ==> (#[trigger] self.entries@[i]).0
                < (#[trigger] self.entries@[j]).0
    }

    /// The entry list as a sequence.
    pub open spec fn view(self) -> Seq<(u64, W256)> {
        self.entries@
    }

    /// An empty mapping.
    pub fn new() -> (r: StorageMap)
        ensures
            r.wf(),
            r@ =~= Seq::<(u64, W256)>::empty(),
    {
        StorageMap { entries: Vec::new() }
    }

    /// Appends an entry whose key lies above every present key.
    pub fn append(&mut self, k: u64, v: W256)
        requires
            old(self).wf(),
            old(self)@.len() > 0 ==> old(self)@.last().0 < k,
        ensures
            final(self).wf(),
            final(self)@ =~= old(self)@.push((k, v)),
    {
        self.entries.push((k, v));
        proof {
            let s = self.entries@;
            let n = s.len() as int;
            assert forall|i: int, j: int| 0 <= i < j < n implies (#[trigger] s[i]).0
                < (#[trigger] s[j]).0 by {
                if j < n - 1 {
                } else {
                    if i < n - 2 {
                        assert(old(self)@[i].0 < old(self)@[n - 2].0);
                    }
                }
            }
        }
    }

    /// Looks the key up among the entries.
    pub fn get(&self, k: u64) -> (r: Option<W256>)
        ensures
            r == seq_get(self@, k),
    {
        let n = self.entries.len();
        let mut i: usize = 0;
        while i < n
            invariant
                i <= n,
                n == self.entries@.len(),
                seq_get(self@, k) == seq_get_from(self@, k, i as int),
            decreases n - i,
        {
            if self.entries[i].0 == k {
                return Some(self.entries[i].1);
            }
            i = i + 1;
        }
        None
    }

    /// Structural equality of two mappings.
    pub fn equals(&self, other: &StorageMap) -> (r: bool)
        ensures
            r <==> self@ == other@,
    {
        if self.entries.len() != other.entries.len() {
            proof {
                assert(self@.len() != other@.len());
            }
            return false;
        }
        let n = self.entries.len();
        let mut i: usize = 0;
        while i < n
            invariant
                i <= n,
                n == self.entries@.len(),
                n == other.entries@.len(),
                forall|j: int| 0 <= j < i ==> self.entries@[j] == other.entries@[j],
            decreases n - i,
        {
            let (ka, va) = self.entries[i];
            let (kb, vb) = other.entries[i];
            if ka != kb || va.hi != vb.hi || va.lo != vb.lo {
                proof {
                    assert(self@[i as int] != other@[i as int]);
                }
                return false;
            }
            i = i + 1;
        }
        proof {
            assert(self@ =~= other@);
        }
        true
    }
}

} // verus!
