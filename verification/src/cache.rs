//! A model of the host's ephemeral key-value cache: binary keys and
//! values, isolated strictly by calling-module identity. Two modules
//! using identical keys never observe each other's data; a write is
//! overwrite-idempotent; a removal returns the prior value.
//!
//! The live cache sits behind the capability bridge and promises no
//! retention. This store captures the part the system itself guarantees -
//! the per-identity isolation semantics - so that it can be stated and
//! proved.

use vstd::prelude::*;

verus! {

/// One recorded write: module identity, key, and the value written, or
/// `None` for a removal.
pub struct CacheStore {
    entries: Vec<(Vec<u8>, Vec<u8>, Option<Vec<u8>>)>,
}

/// A recorded write, in mathematical form.
pub type CacheEntry = (Seq<u8>, Seq<u8>, Option<Seq<u8>>);

impl View for CacheStore {
    type V = Seq<CacheEntry>;

    closed spec fn view(&self) -> Seq<CacheEntry> {
        self.entries@.map_values(
            |e: (Vec<u8>, Vec<u8>, Option<Vec<u8>>)|
                (
                    e.0@,
                    e.1@,
                    match e.2 {
                        Some(v) => Some(v@),
                        None => None,
                    },
                ),
        )
    }
}

/// The value module `id` currently sees under `key`: the latest write by
/// that identity for that key, and nothing written by anyone else.
pub open spec fn spec_cache_get(entries: Seq<CacheEntry>, id: Seq<u8>, key: Seq<u8>) -> Option<
    Seq<u8>,
>
    decreases entries.len(),
{
    if entries.len() == 0 {
        None
    } else if entries.last().0 == id && entries.last().1 == key {
        entries.last().2
    } else {
        spec_cache_get(entries.drop_last(), id, key)
    }
}

/// Byte-for-byte equality of a byte vector and a byte slice.
pub fn vecs_equal(a: &Vec<u8>, b: &[u8]) -> (r: bool)
    ensures
        r == (a@ == b@),
{
    if a.len() != b.len() {
        assert(a@ != b@);
        return false;
    }
    let mut i: usize = 0;
    while i < a.len()
        invariant
            i <= a@.len() == b@.len(),
            forall|j: int| 0 <= j < i ==> a@[j] == b@[j],
        decreases a@.len() - i,
    {
        if a[i] != *vstd::slice::slice_index_get(b, i) {
            assert(a@ != b@);
            return false;
        }
        i = i + 1;
    }
    assert(a@ =~= b@);
    true
}

/// Byte-for-byte equality of two byte vectors.
fn bytes_eq(a: &Vec<u8>, b: &Vec<u8>) -> (r: bool)
    ensures
        r == (a@ == b@),
{
    if a.len() != b.len() {
        assert(a@ != b@);
        return false;
    }
    let mut i: usize = 0;
    while i < a.len()
        invariant
            i <= a@.len() == b@.len(),
            forall|j: int| 0 <= j < i ==> a@[j] == b@[j],
        decreases a@.len() - i,
    {
        if a[i] != b[i] {
            assert(a@ != b@);
            return false;
        }
        i = i + 1;
    }
    assert(a@ =~= b@);
    true
}

/// Appending one write changes that identity's view of that key and no
/// other (identity, key) pair: the recorded history is read strictly per
/// identity.
pub proof fn lemma_cache_write_isolated(
    entries: Seq<CacheEntry>,
    id: Seq<u8>,
    key: Seq<u8>,
    value: Option<Seq<u8>>,
    id2: Seq<u8>,
    key2: Seq<u8>,
)
    ensures
        spec_cache_get(entries.push((id, key, value)), id, key) == value,
        !(id2 == id && key2 == key) ==> spec_cache_get(entries.push((id, key, value)), id2, key2)
            == spec_cache_get(entries, id2, key2),
{
    let pushed = entries.push((id, key, value));
    assert(pushed.drop_last() =~= entries);
    assert(pushed.last() == (id, key, value));
}

/// Isolation by identity (the law the store exists for): a write by one
/// module is invisible to every other module, whatever keys the two use.
pub proof fn lemma_cache_isolation(
    entries: Seq<CacheEntry>,
    id: Seq<u8>,
    key: Seq<u8>,
    value: Option<Seq<u8>>,
    id2: Seq<u8>,
    key2: Seq<u8>,
)
    requires
        id2 != id,
    ensures
        spec_cache_get(entries.push((id, key, value)), id2, key2) == spec_cache_get(
            entries,
            id2,
            key2,
        ),
{
    lemma_cache_write_isolated(entries, id, key, value, id2, key2);
}

impl CacheStore {
    /// An empty cache: every read misses.
    pub fn new() -> (r: CacheStore)
        ensures
            r@ =~= Seq::<CacheEntry>::empty(),
    {
        CacheStore { entries: Vec::new() }
    }

    /// Record that module `id` bound `key` to `value`, replacing whatever
    /// that module had bound before; every other (identity, key) pair is
    /// untouched.
    pub fn set(&mut self, id: &Vec<u8>, key: &Vec<u8>, value: Vec<u8>)
        ensures
            spec_cache_get(final(self)@, id@, key@) == Some(value@),
            forall|id2: Seq<u8>, key2: Seq<u8>|
                !(id2 == id@ && key2 == key@) ==> spec_cache_get(final(self)@, id2, key2)
                    == spec_cache_get(old(self)@, id2, key2),
    {
        let ghost gvalue = value@;
        let id_copy = crate::codec::copy_range(id, 0, id.len());
        let key_copy = crate::codec::copy_range(key, 0, key.len());
        assert(id_copy@ =~= id@);
        assert(key_copy@ =~= key@);
        self.entries.push((id_copy, key_copy, Some(value)));
        proof {
            assert(self@ =~~= old(self)@.push((id@, key@, Some(gvalue))));
            assert forall|id2: Seq<u8>, key2: Seq<u8>| true implies #[trigger] spec_cache_get(
                self@,
                id2,
                key2,
            ) == if id2 == id@ && key2 == key@ {
                Some(gvalue)
            } else {
                spec_cache_get(old(self)@, id2, key2)
            } by {
                lemma_cache_write_isolated(old(self)@, id@, key@, Some(gvalue), id2, key2);
            }
        }
    }

    /// The value module `id` sees under `key`, if that module wrote one
    /// and has not removed it since.
    pub fn get(&self, id: &Vec<u8>, key: &Vec<u8>) -> (r: Option<Vec<u8>>)
        ensures
            match r {
                Some(v) => spec_cache_get(self@, id@, key@) == Some(v@),
                None => spec_cache_get(self@, id@, key@) is None,
            },
    {
        let mut i: usize = self.entries.len();
        assert(self@.take(i as int) =~= self@);
        while i > 0
            invariant
                i <= self.entries@.len(),
                spec_cache_get(self@, id@, key@) == spec_cache_get(
                    self@.take(i as int),
                    id@,
                    key@,
                ),
            decreases i,
        {
            i = i - 1;
            assert(self@.take(i + 1).last() == self@[i as int]);
            assert(self@.take(i + 1).drop_last() =~= self@.take(i as int));
            let e = &self.entries[i];
            if bytes_eq(&e.0, id) && bytes_eq(&e.1, key) {
                match &e.2 {
                    Some(v) => {
                        let out = crate::codec::copy_range(v, 0, v.len());
                        assert(out@ =~= v@);
                        return Some(out);
                    },
                    None => {
                        return None;
                    },
                }
            }
        }
        None
    }

    /// Remove module `id`'s binding of `key`, returning the prior value
    /// or `None`; every other (identity, key) pair is untouched.
    pub fn remove(&mut self, id: &Vec<u8>, key: &Vec<u8>) -> (r: Option<Vec<u8>>)
        ensures
            match r {
                Some(v) => spec_cache_get(old(self)@, id@, key@) == Some(v@),
                None => spec_cache_get(old(self)@, id@, key@) is None,
            },
            spec_cache_get(final(self)@, id@, key@) is None,
            forall|id2: Seq<u8>, key2: Seq<u8>|
                !(id2 == id@ && key2 == key@) ==> spec_cache_get(final(self)@, id2, key2)
                    == spec_cache_get(old(self)@, id2, key2),
    {
        let prior = self.get(id, key);
        let id_copy = crate::codec::copy_range(id, 0, id.len());
        let key_copy = crate::codec::copy_range(key, 0, key.len());
        assert(id_copy@ =~= id@);
        assert(key_copy@ =~= key@);
        self.entries.push((id_copy, key_copy, None));
        proof {
            assert(self@ =~~= old(self)@.push((id@, key@, None)));
            assert forall|id2: Seq<u8>, key2: Seq<u8>| true implies #[trigger] spec_cache_get(
                self@,
                id2,
                key2,
            ) == if id2 == id@ && key2 == key@ {
                None
            } else {
                spec_cache_get(old(self)@, id2, key2)
            } by {
                lemma_cache_write_isolated(old(self)@, id@, key@, None, id2, key2);
            }
        }
        prior
    }
}

} // verus!
