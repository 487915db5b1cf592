//! In-memory secret store, fully read-write.
//!
//! Secrets live in the store value itself and are lost when it is dropped.
//! Useful for tests and short-lived overrides.

use vstd::prelude::*;

verus! {

use crate::secret_types::{SecretInfo, SecretStoreError, SecretStoreResult};
use vstd::string::StringExecFns;

/// The first entry with the given key.
pub open spec fn spec_assoc(s: Seq<(Seq<char>, Seq<char>)>, key: Seq<char>) -> Option<Seq<char>>
    decreases s.len(),
{
    if s.len() == 0 {
        None
    } else if s[0].0 == key {
        Some(s[0].1)
    } else {
        spec_assoc(s.drop_first(), key)
    }
}

pub open spec fn keys_unique(s: Seq<(Seq<char>, Seq<char>)>) -> bool {
    forall|i: int, j: int| 0 <= i < j < s.len() ==> s[i].0 != s[j].0
}

pub open spec fn entries_model(v: Seq<(String, String)>) -> Seq<(Seq<char>, Seq<char>)> {
    v.map(|i: int, p: (String, String)| (p.0@, p.1@))
}

proof fn lemma_assoc_absent(s: Seq<(Seq<char>, Seq<char>)>, key: Seq<char>)
    ensures
        (spec_assoc(s, key) == None::<Seq<char>>) <==> (forall|i: int|
            0 <= i < s.len() ==> (#[trigger] s[i]).0 != key),
    decreases s.len(),
{
    if s.len() > 0 {
        lemma_assoc_absent(s.drop_first(), key);
        if s[0].0 != key {
            if spec_assoc(s, key) is None {
                assert forall|i: int| 0 <= i < s.len() implies (#[trigger] s[i]).0 != key by {
                    if i > 0 {
                        assert(s.drop_first()[i - 1] == s[i]);
                    }
                }
            } else {
                let i = choose|i: int|
                    0 <= i < s.drop_first().len() && (#[trigger] s.drop_first()[i]).0 == key;
                assert(s[i + 1].0 == key);
            }
        }
    }
}

proof fn lemma_assoc_at(s: Seq<(Seq<char>, Seq<char>)>, key: Seq<char>, i: int)
    requires
        keys_unique(s),
        0 <= i < s.len(),
        s[i].0 == key,
    ensures
        spec_assoc(s, key) == Some(s[i].1),
    decreases s.len(),
{
    if i == 0 {
    } else {
        assert(s.drop_first()[i - 1] == s[i]);
        lemma_assoc_at(s.drop_first(), key, i - 1);
    }
}

proof fn lemma_assoc_update(s: Seq<(Seq<char>, Seq<char>)>, at: int, p: (Seq<char>, Seq<char>), key: Seq<char>)
    requires
        keys_unique(s),
        0 <= at < s.len(),
        s[at].0 == p.0,
    ensures
        spec_assoc(s.update(at, p), key) == (if p.0 == key {
            Some(p.1)
        } else {
            spec_assoc(s, key)
        }),
        keys_unique(s.update(at, p)),
    decreases s.len(),
{
    let t = s.update(at, p);
    assert forall|i: int, j: int| 0 <= i < j < t.len() implies t[i].0 != t[j].0 by {
        assert(s[i].0 != s[j].0);
    }
    if at == 0 {
        assert(t[0] == p);
        if p.0 != key {
            assert(t.drop_first() =~= s.drop_first());
        }
    } else {
        assert(t[0] == s[0]);
        if s[0].0 == key {
            assert(s[at].0 != key);
        } else {
            assert(t.drop_first() =~= s.drop_first().update(at - 1, p));
            assert(s.drop_first()[at - 1] == s[at]);
            lemma_assoc_update(s.drop_first(), at - 1, p, key);
        }
    }
}

proof fn lemma_assoc_push(s: Seq<(Seq<char>, Seq<char>)>, p: (Seq<char>, Seq<char>), key: Seq<char>)
    ensures
        spec_assoc(s.push(p), key) == (if spec_assoc(s, key) is Some {
            spec_assoc(s, key)
        } else if p.0 == key {
            Some(p.1)
        } else {
            None
        }),
    decreases s.len(),
{
    if s.len() == 0 {
        assert(s.push(p)[0] == p);
        if p.0 != key {
            assert(s.push(p).drop_first() =~= Seq::empty());
        }
    } else {
        assert(s.push(p)[0] == s[0]);
        if s[0].0 != key {
            assert(s.push(p).drop_first() =~= s.drop_first().push(p));
            lemma_assoc_push(s.drop_first(), p, key);
        }
    }
}

proof fn lemma_assoc_remove(s: Seq<(Seq<char>, Seq<char>)>, at: int, key: Seq<char>)
    requires
        keys_unique(s),
        0 <= at < s.len(),
    ensures
        spec_assoc(s.remove(at), key) == (if s[at].0 == key {
            None
        } else {
            spec_assoc(s, key)
        }),
        keys_unique(s.remove(at)),
    decreases s.len(),
{
    let t = s.remove(at);
    assert forall|i: int, j: int| 0 <= i < j < t.len() implies t[i].0 != t[j].0 by {
        let si = if i < at { i } else { i + 1 };
        let sj = if j < at { j } else { j + 1 };
        assert(t[i] == s[si] && t[j] == s[sj]);
    }
    if at == 0 {
        assert(t =~= s.drop_first());
        if s[0].0 == key {
            lemma_assoc_absent(s.drop_first(), key);
            assert forall|i: int| 0 <= i < s.drop_first().len() implies (#[trigger] s.drop_first()[i]).0
                != key by {
                assert(s.drop_first()[i] == s[i + 1]);
            }
        }
    } else {
        assert(t[0] == s[0]);
        if s[0].0 == key {
            assert(s[at].0 != key);
        } else {
            assert(t.drop_first() =~= s.drop_first().remove(at - 1));
            assert(s.drop_first()[at - 1] == s[at]);
            lemma_assoc_remove(s.drop_first(), at - 1, key);
        }
    }
}

/// In-memory secret store.
pub struct MemorySecretStore {
    entries: Vec<(String, String)>,
}

impl MemorySecretStore {
    /// The store's invariant: keys are unique. Constructors establish it and
    /// every operation preserves it.
    pub closed spec fn inv(&self) -> bool {
        keys_unique(entries_model(self.entries@))
    }

    /// What the store holds under a key.
    pub closed spec fn spec_get(&self, key: Seq<char>) -> Option<Seq<char>> {
        spec_assoc(entries_model(self.entries@), key)
    }

    /// How many secrets the store holds.
    pub closed spec fn spec_len(&self) -> nat {
        self.entries@.len()
    }

    /// Make an empty store.
    pub fn new() -> (r: Self)
        ensures
            r.inv(),
            r.spec_len() == 0,
            forall|k: Seq<char>| r.spec_get(k) == None::<Seq<char>>,
    {
        let r = MemorySecretStore { entries: Vec::new() };
        proof {
            assert(entries_model(r.entries@) =~= Seq::<(Seq<char>, Seq<char>)>::empty());
        }
        r
    }

    /// Make a store holding the given pairs, inserted in order: a later pair
    /// under the same key overwrites an earlier one.
    pub fn with_secrets(initial: Vec<(String, String)>) -> (r: Self)
        ensures
            r.inv(),
            r.spec_len() <= initial@.len(),
            forall|k: Seq<char>| #[trigger] r.spec_get(k) == spec_assoc_last(entries_model(initial@), k),
            keys_unique(entries_model(initial@)) ==> r.spec_len() == initial@.len(),
    {
        let ghost init = entries_model(initial@);
        let mut r = MemorySecretStore::new();
        let mut i: usize = 0;
        proof {
            assert(init.subrange(0, 0) =~= Seq::<(Seq<char>, Seq<char>)>::empty());
            lemma_assoc_last_empty();
        }
        while i < initial.len()
            invariant
                i <= initial@.len(),
                init == entries_model(initial@),
                r.inv(),
                r.spec_len() <= i,
                forall|k: Seq<char>| #[trigger] r.spec_get(k) == spec_assoc_last(
                    init.subrange(0, i as int),
                    k,
                ),
                keys_unique(init.subrange(0, i as int)) ==> r.spec_len() == i,
            decreases initial@.len() - i,
        {
            let (k, v) = (initial[i].0.clone(), initial[i].1.clone());
            let ghost prev = init.subrange(0, i as int);
            let ghost had = r.spec_get(k@) is Some;
            let _ = r.store_value(k, v);
            i = i + 1;
            proof {
                let cur = init.subrange(0, i as int);
                assert(cur.drop_last() =~= prev);
                assert(cur.last() == init[i - 1]);
                assert forall|key: Seq<char>| #[trigger] r.spec_get(key) == spec_assoc_last(cur, key) by {
                    lemma_assoc_last_step(cur, key);
                }
                if keys_unique(cur) {
                    assert(keys_unique(prev)) by {
                        assert forall|a: int, b: int| 0 <= a < b < prev.len() implies prev[a].0
                            != prev[b].0 by {
                            assert(cur[a] == prev[a] && cur[b] == prev[b]);
                        }
                    }
                    if had {
                        lemma_assoc_last_index(prev, init[i - 1].0);
                        let ghost newkey = init[i - 1].0;
                        let j = choose|j: int| 0 <= j < prev.len() && (#[trigger] prev[j]).0 == newkey;
                        assert(cur[j] == prev[j] && cur[i - 1] == init[i - 1]);
                        assert(false);
                    }
                }
            }
        }
        proof {
            assert(init.subrange(0, init.len() as int) =~= init);
        }
        r
    }

    /// The store's name.
    pub fn name(&self) -> (r: &'static str)
        ensures
            r@ == "memory"@,
    {
        "memory"
    }

    /// This store is always available.
    pub fn is_available(&self) -> (r: bool)
        ensures
            r,
    {
        true
    }

    /// The value stored under a key.
    pub fn get(&self, key: &str) -> (r: Option<String>)
        ensures
            match r {
                Some(v) => self.spec_get(key@) == Some(v@),
                None => self.spec_get(key@) == None::<Seq<char>>,
            },
    {
        let key_s = String::from_str(key);
        let ghost m = entries_model(self.entries@);
        proof {
            assert(m.skip(0) =~= m);
        }
        let mut i: usize = 0;
        while i < self.entries.len()
            invariant
                i <= self.entries@.len(),
                m == entries_model(self.entries@),
                key_s@ == key@,
                spec_assoc(m, key@) == spec_assoc(m.skip(i as int), key@),
            decreases self.entries@.len() - i,
        {
            proof {
                assert(m.skip(i as int)[0] == (self.entries@[i as int].0@, self.entries@[i as int].1@));
                assert(m.skip(i as int).drop_first() =~= m.skip(i + 1));
            }
            if self.entries[i].0 == key_s {
                return Some(self.entries[i].1.clone());
            }
            i = i + 1;
        }
        proof {
            assert(m.skip(m.len() as int) =~= Seq::<(Seq<char>, Seq<char>)>::empty());
        }
        None
    }

    fn index_of(&self, key: &String) -> (r: Option<usize>)
        ensures
            match r {
                Some(i) => i < self.entries@.len() && self.entries@[i as int].0@ == key@,
                None => forall|i: int|
                    0 <= i < self.entries@.len() ==> (#[trigger] self.entries@[i]).0@ != key@,
            },
    {
        let mut i: usize = 0;
        while i < self.entries.len()
            invariant
                i <= self.entries@.len(),
                forall|k: int| 0 <= k < i ==> (#[trigger] self.entries@[k]).0@ != key@,
            decreases self.entries@.len() - i,
        {
            if self.entries[i].0 == *key {
                return Some(i);
            }
            i = i + 1;
        }
        None
    }

    fn store_value(&mut self, key: String, value: String)
        requires
            old(self).inv(),
        ensures
            final(self).inv(),
            final(self).spec_get(key@) == Some(value@),
            forall|k: Seq<char>|
                k != key@ ==> #[trigger] final(self).spec_get(k) == old(self).spec_get(k),
            final(self).spec_len() == (if old(self).spec_get(key@) is Some {
                old(self).spec_len()
            } else {
                old(self).spec_len() + 1
            }),
    {
        let ghost old_m = entries_model(self.entries@);
        match self.index_of(&key) {
            Some(i) => {
                proof {
                    lemma_assoc_at(old_m, key@, i as int);
                }
                self.entries.set(i, (key, value));
                proof {
                    let new_m = entries_model(self.entries@);
                    assert(new_m =~= old_m.update(i as int, (new_m[i as int].0, new_m[i as int].1)));
                    assert forall|k: Seq<char>| true implies #[trigger] spec_assoc(new_m, k) == (if k
                        == new_m[i as int].0 {
                        Some(new_m[i as int].1)
                    } else {
                        spec_assoc(old_m, k)
                    }) by {
                        lemma_assoc_update(old_m, i as int, new_m[i as int], k);
                    }
                    lemma_assoc_update(old_m, i as int, new_m[i as int], new_m[i as int].0);
                }
            },
            None => {
                proof {
                    lemma_assoc_absent(old_m, key@);
                }
                self.entries.push((key, value));
                proof {
                    let new_m = entries_model(self.entries@);
                    assert(new_m =~= old_m.push((new_m.last().0, new_m.last().1)));
                    assert forall|k: Seq<char>| true implies #[trigger] spec_assoc(new_m, k) == (if
                        spec_assoc(old_m, k) is Some {
                        spec_assoc(old_m, k)
                    } else if k == new_m.last().0 {
                        Some(new_m.last().1)
                    } else {
                        None
                    }) by {
                        lemma_assoc_push(old_m, (new_m.last().0, new_m.last().1), k);
                    }
                    assert forall|i: int, j: int| 0 <= i < j < new_m.len() implies new_m[i].0
                        != new_m[j].0 by {
                        if j == new_m.len() - 1 {
                            assert(new_m[i] == old_m[i]);
                        } else {
                            assert(new_m[i] == old_m[i] && new_m[j] == old_m[j]);
                        }
                    }
                }
            },
        }
    }

    /// Store a secret, overwriting any previous value under the key.
    pub fn store(&mut self, key: &str, value: &str) -> (r: SecretStoreResult<()>)
        requires
            old(self).inv(),
        ensures
            final(self).inv(),
            r is Ok,
            final(self).spec_get(key@) == Some(value@),
            forall|k: Seq<char>|
                k != key@ ==> #[trigger] final(self).spec_get(k) == old(self).spec_get(k),
            final(self).spec_len() == (if old(self).spec_get(key@) is Some {
                old(self).spec_len()
            } else {
                old(self).spec_len() + 1
            }),
    {
        self.store_value(String::from_str(key), String::from_str(value));
        Ok(())
    }

    /// Remove the secret under a key; removing an absent key is fine.
    pub fn delete(&mut self, key: &str) -> (r: SecretStoreResult<()>)
        requires
            old(self).inv(),
        ensures
            final(self).inv(),
            r is Ok,
            final(self).spec_get(key@) == None::<Seq<char>>,
            forall|k: Seq<char>|
                k != key@ ==> #[trigger] final(self).spec_get(k) == old(self).spec_get(k),
            final(self).spec_len() == (if old(self).spec_get(key@) is Some {
                (old(self).spec_len() - 1) as nat
            } else {
                old(self).spec_len()
            }),
    {
        let key_s = String::from_str(key);
        let ghost old_m = entries_model(self.entries@);
        match self.index_of(&key_s) {
            Some(i) => {
                proof {
                    lemma_assoc_at(old_m, key@, i as int);
                }
                self.entries.remove(i);
                proof {
                    let new_m = entries_model(self.entries@);
                    assert(new_m =~= old_m.remove(i as int));
                    assert forall|k: Seq<char>| true implies #[trigger] spec_assoc(new_m, k) == (if k
                        == old_m[i as int].0 {
                        None
                    } else {
                        spec_assoc(old_m, k)
                    }) by {
                        lemma_assoc_remove(old_m, i as int, k);
                    }
                }
            },
            None => {
                proof {
                    lemma_assoc_absent(old_m, key@);
                }
            },
        }
        Ok(())
    }

    /// Whether a secret exists under the key.
    pub fn has(&self, key: &str) -> (r: bool)
        ensures
            r == (self.spec_get(key@) is Some),
    {
        self.get(key).is_some()
    }

    /// Whether the key exists, with this store's name as the source.
    pub fn get_info(&self, key: &str) -> (r: SecretInfo)
        ensures
            r.available == (self.spec_get(key@) is Some),
            r.available ==> r.source@ == "memory"@,
            !r.available ==> r.source@ == "none"@,
    {
        if self.has(key) {
            SecretInfo::new(true, "memory")
        } else {
            SecretInfo::not_found()
        }
    }

    /// Remove every secret.
    pub fn clear(&mut self)
        ensures
            final(self).inv(),
            final(self).spec_len() == 0,
            forall|k: Seq<char>| #[trigger] final(self).spec_get(k) == None::<Seq<char>>,
    {
        self.entries.clear();
        proof {
            assert(entries_model(self.entries@) =~= Seq::<(Seq<char>, Seq<char>)>::empty());
        }
    }

    /// The number of secrets in the store.
    pub fn len(&self) -> (r: usize)
        ensures
            r == self.spec_len(),
    {
        self.entries.len()
    }

    /// Whether the store holds no secret.
    pub fn is_empty(&self) -> (r: bool)
        ensures
            r == (self.spec_len() == 0),
    {
        self.entries.len() == 0
    }

    /// Store a secret without a result; a convenience for initialization.
    pub fn store_sync(&mut self, key: &str, value: &str)
        requires
            old(self).inv(),
        ensures
            final(self).inv(),
            final(self).spec_get(key@) == Some(value@),
            forall|k: Seq<char>|
                k != key@ ==> #[trigger] final(self).spec_get(k) == old(self).spec_get(k),
    {
        self.store_value(String::from_str(key), String::from_str(value));
    }

    /// Read a secret; a convenience twin of `get`.
    pub fn get_sync(&self, key: &str) -> (r: Option<String>)
        ensures
            match r {
                Some(v) => self.spec_get(key@) == Some(v@),
                None => self.spec_get(key@) == None::<Seq<char>>,
            },
    {
        self.get(key)
    }
}

impl Clone for MemorySecretStore {
    /// A clone holds the same secrets; changing one store never affects the
    /// other.
    fn clone(&self) -> (r: Self)
        ensures
            r.inv() == self.inv(),
            forall|k: Seq<char>| #[trigger] r.spec_get(k) == self.spec_get(k),
            r.spec_len() == self.spec_len(),
    {
        let mut entries: Vec<(String, String)> = Vec::new();
        let mut i: usize = 0;
        while i < self.entries.len()
            invariant
                i <= self.entries@.len(),
                entries@.len() == i,
                forall|k: int|
                    0 <= k < i ==> (#[trigger] entries@[k]).0@ == self.entries@[k].0@
                        && entries@[k].1@ == self.entries@[k].1@,
            decreases self.entries@.len() - i,
        {
            entries.push((self.entries[i].0.clone(), self.entries[i].1.clone()));
            i = i + 1;
        }
        let r = MemorySecretStore { entries };
        proof {
            assert(entries_model(r.entries@) =~= entries_model(self.entries@));
        }
        r
    }
}

/// The last entry with the given key: the value that inserting the pairs in
/// order leaves behind.
pub open spec fn spec_assoc_last(s: Seq<(Seq<char>, Seq<char>)>, key: Seq<char>) -> Option<Seq<char>>
    decreases s.len(),
{
    if s.len() == 0 {
        None
    } else if s.last().0 == key {
        Some(s.last().1)
    } else {
        spec_assoc_last(s.drop_last(), key)
    }
}

proof fn lemma_assoc_last_empty()
    ensures
        forall|k: Seq<char>| #[trigger] spec_assoc_last(Seq::<(Seq<char>, Seq<char>)>::empty(), k)
            == None::<Seq<char>>,
{
}

proof fn lemma_assoc_last_step(s: Seq<(Seq<char>, Seq<char>)>, key: Seq<char>)
    requires
        s.len() > 0,
    ensures
        spec_assoc_last(s, key) == (if s.last().0 == key {
            Some(s.last().1)
        } else {
            spec_assoc_last(s.drop_last(), key)
        }),
{
}

proof fn lemma_assoc_last_index(s: Seq<(Seq<char>, Seq<char>)>, key: Seq<char>)
    requires
        spec_assoc_last(s, key) is Some,
    ensures
        exists|i: int| 0 <= i < s.len() && (#[trigger] s[i]).0 == key,
    decreases s.len(),
{
    if s.len() > 0 {
        if s.last().0 == key {
            assert(s[s.len() - 1].0 == key);
        } else {
            lemma_assoc_last_index(s.drop_last(), key);
            let i = choose|i: int| 0 <= i < s.drop_last().len() && (#[trigger] s.drop_last()[i]).0 == key;
            assert(s[i].0 == key);
        }
    }
}

} // verus!
