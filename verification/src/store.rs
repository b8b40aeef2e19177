use vstd::prelude::*;

use crate::stats::SummaryStatistics;

verus! {

/// What a key's slot holds: a summary of this library's registered type,
/// or a value of some other registered type, which this library never
/// reads beyond noting the mismatch.
#[derive(Clone, Copy, Debug, PartialEq, Eq)]
pub enum Slot {
    Stats(SummaryStatistics),
    Foreign,
}

/// One key with its typed slot.
#[derive(Debug)]
pub struct StoreEntry {
    pub key: Vec<u8>,
    pub slot: Slot,
}

/// The keyspace as the commands see it: keys are byte strings, each
/// resolving to at most one typed slot.
#[derive(Debug)]
pub struct Store {
    pub entries: Vec<StoreEntry>,
}

/// The slot behind a key in a sequence of entries: the first match.
pub open spec fn entries_lookup(s: Seq<StoreEntry>, k: Seq<u8>) -> Option<Slot>
    decreases s.len(),
{
    if s.len() == 0 {
        None
    } else if s[0].key@ == k {
        Some(s[0].slot)
    } else {
        entries_lookup(s.drop_first(), k)
    }
}

/// Replacing an entry's slot, the key kept, changes no other key's slot.
proof fn lemma_lookup_update_other(s: Seq<StoreEntry>, i: int, e: StoreEntry, k2: Seq<u8>)
    requires
        0 <= i < s.len(),
        e.key@ == s[i].key@,
        k2 != e.key@,
    ensures
        entries_lookup(s.update(i, e), k2) == entries_lookup(s, k2),
    decreases s.len(),
{
    let su = s.update(i, e);
    if i == 0 {
        assert(su.drop_first() =~= s.drop_first());
    } else {
        assert(su[0] == s[0]);
        assert(su.drop_first() =~= s.drop_first().update(i - 1, e));
        if s[0].key@ != k2 {
            lemma_lookup_update_other(s.drop_first(), i - 1, e, k2);
        }
    }
}

/// The first match among entries whose earlier keys all differ.
proof fn lemma_lookup_first_match(s: Seq<StoreEntry>, i: int)
    requires
        0 <= i < s.len(),
        forall|j: int| 0 <= j < i ==> s[j].key@ != s[i].key@,
    ensures
        entries_lookup(s, s[i].key@) == Some(s[i].slot),
    decreases i,
{
    if i > 0 {
        assert(s.drop_first()[i - 1] == s[i]);
        lemma_lookup_first_match(s.drop_first(), i - 1);
    }
}

/// Appending an entry answers for its key only where no earlier entry
/// did, and changes no other key's slot.
proof fn lemma_lookup_push(s: Seq<StoreEntry>, e: StoreEntry, k2: Seq<u8>)
    ensures
        entries_lookup(s.push(e), k2) == (if entries_lookup(s, k2) is Some {
            entries_lookup(s, k2)
        } else if e.key@ == k2 {
            Some(e.slot)
        } else {
            None
        }),
    decreases s.len(),
{
    let sp = s.push(e);
    if s.len() == 0 {
        assert(sp[0] == e);
        assert(sp.drop_first() =~= Seq::<StoreEntry>::empty());
        assert(entries_lookup(s, k2) is None);
        if e.key@ == k2 {
            assert(entries_lookup(sp, k2) == Some(e.slot));
        } else {
            assert(entries_lookup(sp, k2) == entries_lookup(sp.drop_first(), k2));
            assert(entries_lookup(sp, k2) is None);
        }
    } else {
        assert(sp[0] == s[0]);
        assert(sp.drop_first() =~= s.drop_first().push(e));
        if s[0].key@ == k2 {
            assert(entries_lookup(sp, k2) == Some(s[0].slot));
            assert(entries_lookup(s, k2) == Some(s[0].slot));
        } else {
            lemma_lookup_push(s.drop_first(), e, k2);
            assert(entries_lookup(sp, k2) == entries_lookup(s.drop_first().push(e), k2));
            assert(entries_lookup(s, k2) == entries_lookup(s.drop_first(), k2));
        }
    }
}

/// Byte-for-byte comparison of two keys.
fn key_eq(a: &Vec<u8>, b: &Vec<u8>) -> (r: bool)
    ensures
        r == (a@ == b@),
{
    if a.len() != b.len() {
        return false;
    }
    let mut i: usize = 0;
    while i < a.len()
        invariant
            i <= a@.len(),
            a@.len() == b@.len(),
            forall|j: int| 0 <= j < i ==> a@[j] == b@[j],
        decreases a@.len() - i,
    {
        if a[i] != b[i] {
            return false;
        }
        i = i + 1;
    }
    proof {
        assert(a@ =~= b@);
    }
    true
}

/// A fresh copy of a key's bytes.
fn copy_key(key: &Vec<u8>) -> (r: Vec<u8>)
    ensures
        r@ == key@,
{
    let mut r: Vec<u8> = Vec::new();
    proof {
        assert(r@ =~= key@.take(0));
    }
    let mut i: usize = 0;
    while i < key.len()
        invariant
            i <= key@.len(),
            r@ == key@.take(i as int),
        decreases key@.len() - i,
    {
        r.push(key[i]);
        proof {
            assert(r@ =~= key@.take(i as int + 1));
        }
        i = i + 1;
    }
    proof {
        assert(key@.take(key@.len() as int) =~= key@);
    }
    r
}

impl Store {
    /// The slot this store resolves a key to.
    pub open spec fn spec_lookup(self, k: Seq<u8>) -> Option<Slot> {
        entries_lookup(self.entries@, k)
    }

    /// Every stored summary is well formed.
    pub open spec fn wf(self) -> bool {
        forall|k: Seq<u8>| (#[trigger] self.spec_lookup(k)) matches Some(Slot::Stats(a)) ==> a.wf()
    }

    /// A store with no keys.
    pub fn new() -> (r: Store)
        ensures
            forall|k: Seq<u8>| r.spec_lookup(k) is None,
            r.wf(),
    {
        Store { entries: Vec::new() }
    }

    /// The position of a key among the entries, when the key is there.
    fn find_index(&self, key: &Vec<u8>) -> (r: Option<usize>)
        ensures
            match r {
                Some(i) => i < self.entries@.len() && self.entries@[i as int].key@ == key@
                    && self.spec_lookup(key@) == Some(self.entries@[i as int].slot) && (forall|
                    j: int,
                |
                    0 <= j < i ==> self.entries@[j].key@ != key@),
                None => self.spec_lookup(key@) is None,
            },
    {
        let ghost s = self.entries@;
        proof {
            assert(s.skip(0) =~= s);
        }
        let mut i: usize = 0;
        while i < self.entries.len()
            invariant
                i <= s.len(),
                s == self.entries@,
                entries_lookup(s.skip(i as int), key@) == entries_lookup(s, key@),
                forall|j: int| 0 <= j < i ==> s[j].key@ != key@,
            decreases s.len() - i,
        {
            proof {
                assert(s.skip(i as int)[0] == s[i as int]);
            }
            if key_eq(&self.entries[i].key, key) {
                return Some(i);
            }
            proof {
                assert(s.skip(i as int).drop_first() =~= s.skip(i as int + 1));
            }
            i = i + 1;
        }
        proof {
            assert(s.skip(s.len() as int) =~= Seq::<StoreEntry>::empty());
        }
        None
    }

    /// The slot behind a key, or nothing when the key is absent.
    pub fn get_slot(&self, key: &Vec<u8>) -> (r: Option<Slot>)
        ensures
            r == self.spec_lookup(key@),
    {
        match self.find_index(key) {
            Some(i) => Some(self.entries[i].slot),
            None => None,
        }
    }

    /// Store a slot behind a key, replacing whatever the key held; no
    /// other key's slot changes, and well-formed contents stay so.
    pub fn set_slot(&mut self, key: &Vec<u8>, slot: Slot)
        ensures
            final(self).spec_lookup(key@) == Some(slot),
            forall|k2: Seq<u8>|
                k2 != key@ ==> final(self).spec_lookup(k2) == old(self).spec_lookup(k2),
            old(self).wf() && (slot matches Slot::Stats(a) ==> a.wf()) ==> final(self).wf(),
    {
        let ghost s0 = self.entries@;
        match self.find_index(key) {
            Some(i) => {
                self.entries[i].slot = slot;
                proof {
                    let e = self.entries@[i as int];
                    assert(self.entries@ =~= s0.update(i as int, e));
                    assert(e.key@ == key@ && e.slot == slot);
                    lemma_lookup_first_match(self.entries@, i as int);
                    assert forall|k2: Seq<u8>| k2 != key@ implies self.spec_lookup(k2) == old(
                        self,
                    ).spec_lookup(k2) by {
                        lemma_lookup_update_other(s0, i as int, e, k2);
                    }
                }
            },
            None => {
                let e = StoreEntry { key: copy_key(key), slot };
                let ghost ge = e;
                self.entries.push(e);
                proof {
                    assert(self.entries@ =~= s0.push(ge));
                    lemma_lookup_push(s0, ge, key@);
                    assert forall|k2: Seq<u8>| k2 != key@ implies self.spec_lookup(k2) == old(
                        self,
                    ).spec_lookup(k2) by {
                        lemma_lookup_push(s0, ge, k2);
                    }
                }
            },
        }
    }
}

} // verus!
