//! Correlation tables: a map from short identifier tokens to byte strings,
//! kept as an association list with unique keys. The `pending` and `results`
//! tables of the telemetry state are both of this shape.
use vstd::prelude::*;

verus! {

/// First-match lookup in an association list of byte strings.
pub open spec fn assoc_lookup(s: Seq<(Vec<u8>, Vec<u8>)>, k: Seq<u8>) -> Option<Seq<u8>>
    decreases s.len(),
{
    if s.len() == 0 {
        None
    } else if s[0].0@ == k {
        Some(s[0].1@)
    } else {
        assoc_lookup(s.drop_first(), k)
    }
}

/// No two entries share a key.
pub open spec fn keys_unique(s: Seq<(Vec<u8>, Vec<u8>)>) -> bool {
    forall|i: int, j: int| 0 <= i < j < s.len() ==> (#[trigger] s[i]).0@ != (#[trigger] s[j]).0@
}

pub proof fn lemma_lookup_none_iff_absent(s: Seq<(Vec<u8>, Vec<u8>)>, k: Seq<u8>)
    ensures
        assoc_lookup(s, k) is None <==> (forall|i: int|
            0 <= i < s.len() ==> (#[trigger] s[i]).0@ != k),
    decreases s.len(),
{
    if s.len() > 0 {
        lemma_lookup_none_iff_absent(s.drop_first(), k);
        assert(forall|i: int|
            1 <= i < s.len() ==> (#[trigger] s[i]).0@ == s.drop_first()[i - 1].0@);
    }
}

pub proof fn lemma_lookup_push(s: Seq<(Vec<u8>, Vec<u8>)>, e: (Vec<u8>, Vec<u8>), k: Seq<u8>)
    ensures
        assoc_lookup(s.push(e), k) == if assoc_lookup(s, k) is Some {
            assoc_lookup(s, k)
        } else if e.0@ == k {
            Some(e.1@)
        } else {
            None
        },
    decreases s.len(),
{
    if s.len() == 0 {
        assert(s.push(e)[0] == e);
        assert(s.push(e).drop_first() =~= Seq::<(Vec<u8>, Vec<u8>)>::empty());
        assert(assoc_lookup(s.push(e).drop_first(), k) is None);
    } else {
        assert(s.push(e)[0] == s[0]);
        assert(s.push(e).drop_first() =~= s.drop_first().push(e));
        lemma_lookup_push(s.drop_first(), e, k);
        assert(assoc_lookup(s.push(e), k) == if s[0].0@ == k {
            Some(s[0].1@)
        } else {
            assoc_lookup(s.drop_first().push(e), k)
        });
    }
}

/// Removing the first entry that carries key `k` (with no earlier entry
/// carrying it) erases `k` and leaves every other key untouched, provided
/// keys are unique.
pub proof fn lemma_lookup_remove(s: Seq<(Vec<u8>, Vec<u8>)>, i: int, k: Seq<u8>, k2: Seq<u8>)
    requires
        keys_unique(s),
        0 <= i < s.len(),
        s[i].0@ == k,
        forall|j: int| 0 <= j < i ==> (#[trigger] s[j]).0@ != k,
    ensures
        assoc_lookup(s.remove(i), k2) == if k2 == k {
            None::<Seq<u8>>
        } else {
            assoc_lookup(s, k2)
        },
    decreases s.len(),
{
    if i == 0 {
        assert(s.remove(0) =~= s.drop_first());
        if k2 == k {
            lemma_lookup_none_iff_absent(s.drop_first(), k);
            assert(forall|j: int|
                0 <= j < s.drop_first().len() ==> (#[trigger] s.drop_first()[j]).0@ == s[j
                    + 1].0@);
        }
    } else {
        assert(s.remove(i).len() == s.len() - 1);
        assert(s.remove(i)[0] == s[0]);
        assert(s.remove(i).drop_first() =~= s.drop_first().remove(i - 1));
        assert(keys_unique(s.drop_first())) by {
            assert(forall|a: int|
                0 <= a < s.drop_first().len() ==> #[trigger] s.drop_first()[a] == s[a + 1]);
        }
        assert(forall|j: int| 0 <= j < i - 1 ==> (#[trigger] s.drop_first()[j]).0@ != k);
        lemma_lookup_remove(s.drop_first(), i - 1, k, k2);
    }
}

pub proof fn lemma_unique_remove(s: Seq<(Vec<u8>, Vec<u8>)>, i: int)
    requires
        keys_unique(s),
        0 <= i < s.len(),
    ensures
        keys_unique(s.remove(i)),
{
    assert forall|a: int, b: int| 0 <= a < b < s.remove(i).len() implies (#[trigger] s.remove(
        i,
    )[a]).0@ != (#[trigger] s.remove(i)[b]).0@ by {
        let a0 = if a < i {
            a
        } else {
            a + 1
        };
        let b0 = if b < i {
            b
        } else {
            b + 1
        };
        assert(s.remove(i)[a] == s[a0]);
        assert(s.remove(i)[b] == s[b0]);
    }
}

/// A table of correlation entries, identifiers mapped to byte strings.
pub struct Table {
    entries: Vec<(Vec<u8>, Vec<u8>)>,
}

impl Table {
    /// The entries, oldest first.
    pub closed spec fn entries_seq(self) -> Seq<(Vec<u8>, Vec<u8>)> {
        self.entries@
    }

    /// The mapping the table denotes.
    pub open spec fn spec_get(self, k: Seq<u8>) -> Option<Seq<u8>> {
        assoc_lookup(self.entries_seq(), k)
    }

    pub open spec fn spec_contains(self, k: Seq<u8>) -> bool {
        self.spec_get(k) is Some
    }

    /// The table as a map from identifiers to byte strings.
    pub open spec fn view(self) -> Map<Seq<u8>, Seq<u8>> {
        Map::new(|k: Seq<u8>| self.spec_contains(k), |k: Seq<u8>| self.spec_get(k).unwrap())
    }

    /// Well-formed: no identifier occurs twice.
    pub open spec fn wf(self) -> bool {
        keys_unique(self.entries_seq())
    }

    pub fn new() -> (t: Table)
        ensures
            t.wf(),
            forall|k: Seq<u8>| t.spec_get(k) is None,
    {
        Table { entries: Vec::new() }
    }

    /// Look the key up without disturbing the table.
    pub fn get(&self, k: &[u8]) -> (r: Option<&Vec<u8>>)
        ensures
            match r {
                Some(v) => self.spec_get(k@) == Some(v@),
                None => self.spec_get(k@) is None,
            },
    {
        let idx = self.find(k);
        match idx {
            Some(i) => Some(&self.entries[i].1),
            None => None,
        }
    }

    /// Index of the entry carrying `k`, if any.
    fn find(&self, k: &[u8]) -> (r: Option<usize>)
        ensures
            match r {
                Some(i) => {
                    &&& 0 <= i < self.entries_seq().len()
                    &&& self.entries_seq()[i as int].0@ == k@
                    &&& forall|j: int|
                        0 <= j < i ==> (#[trigger] self.entries_seq()[j]).0@ != k@
                    &&& self.spec_get(k@) == Some(self.entries_seq()[i as int].1@)
                },
                None => self.spec_get(k@) is None,
            },
    {
        let ghost s = self.entries@;
        let n = self.entries.len();
        let mut i: usize = 0;
        while i < n
            invariant
                0 <= i <= n,
                n == s.len(),
                s == self.entries@,
                forall|j: int| 0 <= j < i ==> (#[trigger] s[j]).0@ != k@,
            decreases n - i,
        {
            if bytes_eq(&self.entries[i].0, k) {
                proof {
                    lemma_lookup_found(s, i as int, k@);
                }
                return Some(i);
            }
            i = i + 1;
        }
        proof {
            lemma_lookup_none_iff_absent(s, k@);
        }
        None
    }

    /// Map `k` to `v`, replacing any entry that carried `k` before.
    pub fn insert(&mut self, k: Vec<u8>, v: Vec<u8>)
        requires
            old(self).wf(),
        ensures
            final(self).wf(),
            final(self).spec_get(k@) == Some(v@),
            forall|k2: Seq<u8>|
                k2 != k@ ==> #[trigger] final(self).spec_get(k2) == old(self).spec_get(k2),
    {
        let _ = self.remove(&k);
        let ghost mid = *self;
        let ghost s = self.entries@;
        proof {
            lemma_lookup_none_iff_absent(s, k@);
        }
        self.entries.push((k, v));
        proof {
            lemma_lookup_push(s, (k, v), k@);
            assert forall|k2: Seq<u8>| k2 != k@ implies #[trigger] self.spec_get(k2) == old(
                self,
            ).spec_get(k2) by {
                lemma_lookup_push(s, (k, v), k2);
                assert(mid.spec_get(k2) == old(self).spec_get(k2));
            }
            assert(keys_unique(self.entries@)) by {
                assert(forall|a: int|
                    0 <= a < s.len() ==> #[trigger] self.entries@[a] == s[a]);
                assert(forall|a: int|
                    0 <= a < s.len() ==> (#[trigger] self.entries@[a]).0@ != k@);
            }
        }
    }

    /// Take the entry for `k` out of the table and hand its value back.
    pub fn remove(&mut self, k: &[u8]) -> (r: Option<Vec<u8>>)
        requires
            old(self).wf(),
        ensures
            final(self).wf(),
            match r {
                Some(v) => old(self).spec_get(k@) == Some(v@),
                None => old(self).spec_get(k@) is None,
            },
            final(self).spec_get(k@) is None,
            forall|k2: Seq<u8>|
                k2 != k@ ==> #[trigger] final(self).spec_get(k2) == old(self).spec_get(k2),
    {
        let ghost s = self.entries@;
        let idx = self.find(k);
        match idx {
            Some(i) => {
                let (_, v) = self.entries.remove(i);
                proof {
                    assert forall|k2: Seq<u8>| true implies #[trigger] assoc_lookup(
                        self.entries@,
                        k2,
                    ) == if k2 == k@ {
                        None::<Seq<u8>>
                    } else {
                        assoc_lookup(s, k2)
                    } by {
                        lemma_lookup_remove(s, i as int, k@, k2);
                    }
                    lemma_unique_remove(s, i as int);
                }
                Some(v)
            },
            None => None,
        }
    }
}

/// `assoc_lookup` yields the first matching entry.
pub proof fn lemma_lookup_found(s: Seq<(Vec<u8>, Vec<u8>)>, i: int, k: Seq<u8>)
    requires
        0 <= i < s.len(),
        s[i].0@ == k,
        forall|j: int| 0 <= j < i ==> (#[trigger] s[j]).0@ != k,
    ensures
        assoc_lookup(s, k) == Some(s[i].1@),
    decreases i,
{
    if i > 0 {
        assert(forall|j: int| 0 <= j < i - 1 ==> (#[trigger] s.drop_first()[j]).0@ == s[j + 1].0@);
        lemma_lookup_found(s.drop_first(), i - 1, k);
    }
}

/// Byte-for-byte equality of two byte strings.
pub fn bytes_eq(a: &[u8], b: &[u8]) -> (r: bool)
    ensures
        r == (a@ == b@),
{
    if a.len() != b.len() {
        return false;
    }
    let n = a.len();
    let mut i: usize = 0;
    while i < n
        invariant
            0 <= i <= n,
            n == a@.len() == b@.len(),
            forall|j: int| 0 <= j < i ==> a@[j] == b@[j],
        decreases n - i,
    {
        if a[i] != b[i] {
            return false;
        }
        i = i + 1;
    }
    assert(a@ =~= b@);
    true
}

} // verus!
