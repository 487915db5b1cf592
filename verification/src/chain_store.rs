//! A chain of secret stores with fallback reads and one designated write
//! target.
//!
//! Reads try each member in order and return the first hit from an available
//! store; writes go to the write store alone (the first member unless chosen
//! otherwise); deletes are best-effort across every member that holds the
//! key and never fail just because a member is read-only.

use vstd::prelude::*;

verus! {

use crate::env_store::{spec_env_get, EnvSecretStore};
use crate::keychain_store::KeychainSecretStore;
use crate::memory_store::MemorySecretStore;
use crate::secret_types::{SecretInfo, SecretStoreError, SecretStoreResult};

/// One member of a chain: any of the crate's secret store backends.
pub enum SecretBackend {
    Memory(MemorySecretStore),
    Env(EnvSecretStore),
    Keychain(KeychainSecretStore),
}

impl SecretBackend {
    /// Whether the backend's reads are a function of its value alone. The
    /// credential manager's are not: they depend on the platform store.
    pub open spec fn deterministic(&self) -> bool {
        match self {
            SecretBackend::Keychain(_) => false,
            _ => true,
        }
    }

    pub open spec fn inv(&self) -> bool {
        match self {
            SecretBackend::Memory(m) => m.inv(),
            _ => true,
        }
    }

    /// Whether the backend can be read; meaningful for deterministic ones.
    pub open spec fn spec_available(&self) -> bool {
        match self {
            SecretBackend::Memory(_) => true,
            SecretBackend::Env(_) => true,
            SecretBackend::Keychain(_) => arbitrary(),
        }
    }

    /// What the backend holds under a key; meaningful for deterministic ones.
    pub open spec fn spec_get(&self, key: Seq<char>) -> Option<Seq<char>> {
        match self {
            SecretBackend::Memory(m) => m.spec_get(key),
            SecretBackend::Env(e) => spec_env_get(e.spec_vars(), key),
            SecretBackend::Keychain(_) => arbitrary(),
        }
    }

    pub open spec fn spec_name(&self) -> Seq<char> {
        match self {
            SecretBackend::Memory(_) => "memory"@,
            SecretBackend::Env(_) => "env"@,
            SecretBackend::Keychain(_) => "keychain"@,
        }
    }

    /// The backend's name.
    pub fn name(&self) -> (r: &'static str)
        ensures
            r@ == self.spec_name(),
    {
        match self {
            SecretBackend::Memory(m) => m.name(),
            SecretBackend::Env(e) => e.name(),
            SecretBackend::Keychain(k) => k.name(),
        }
    }

    /// Whether the backend can be read here and now.
    pub fn is_available(&self) -> (r: bool)
        ensures
            self.deterministic() ==> r == self.spec_available(),
    {
        match self {
            SecretBackend::Memory(m) => m.is_available(),
            SecretBackend::Env(e) => e.is_available(),
            SecretBackend::Keychain(k) => k.is_available(),
        }
    }

    /// The value under a key.
    pub fn get(&self, key: &str) -> (r: Option<String>)
        ensures
            self.deterministic() ==> match r {
                Some(v) => self.spec_get(key@) == Some(v@),
                None => self.spec_get(key@) == None::<Seq<char>>,
            },
    {
        match self {
            SecretBackend::Memory(m) => m.get(key),
            SecretBackend::Env(e) => e.get(key),
            SecretBackend::Keychain(k) => k.get(key),
        }
    }

    /// Whether a value exists under the key.
    pub fn has(&self, key: &str) -> (r: bool)
        ensures
            self.deterministic() ==> r == (self.spec_get(key@) is Some),
    {
        self.get(key).is_some()
    }

    /// Store a value, where the backend can write.
    pub fn store(&mut self, key: &str, value: &str) -> (r: SecretStoreResult<()>)
        requires
            old(self).inv(),
        ensures
            final(self).inv(),
            final(self).deterministic() == old(self).deterministic(),
            final(self).spec_name() == old(self).spec_name(),
            (*old(self) is Memory) <==> (*final(self) is Memory),
            (*old(self) is Env) <==> (*final(self) is Env),
            (*old(self) is Keychain) <==> (*final(self) is Keychain),
            old(self) matches SecretBackend::Env(_) ==> (r matches Err(SecretStoreError::ReadOnly)
                && *final(self) == *old(self)),
            old(self) matches SecretBackend::Keychain(_) ==> *final(self) == *old(self),
            old(self) matches SecretBackend::Memory(_) ==> {
                &&& r is Ok
                &&& final(self).spec_get(key@) == Some(value@)
                &&& forall|k: Seq<char>|
                    k != key@ ==> #[trigger] final(self).spec_get(k) == old(self).spec_get(k)
                &&& final(self).spec_available() == old(self).spec_available()
            },
    {
        match self {
            SecretBackend::Memory(m) => m.store(key, value),
            SecretBackend::Env(e) => e.store(key, value),
            SecretBackend::Keychain(k) => k.store(key, value),
        }
    }

    /// Delete the value under a key, where the backend can.
    pub fn delete(&mut self, key: &str) -> (r: SecretStoreResult<()>)
        requires
            old(self).inv(),
        ensures
            final(self).inv(),
            final(self).deterministic() == old(self).deterministic(),
            final(self).spec_name() == old(self).spec_name(),
            (*old(self) is Memory) <==> (*final(self) is Memory),
            (*old(self) is Env) <==> (*final(self) is Env),
            (*old(self) is Keychain) <==> (*final(self) is Keychain),
            old(self) matches SecretBackend::Env(_) ==> (r matches Err(SecretStoreError::ReadOnly)
                && *final(self) == *old(self)),
            old(self) matches SecretBackend::Keychain(_) ==> *final(self) == *old(self),
            old(self) matches SecretBackend::Memory(_) ==> {
                &&& r is Ok
                &&& final(self).spec_get(key@) == None::<Seq<char>>
                &&& forall|k: Seq<char>|
                    k != key@ ==> #[trigger] final(self).spec_get(k) == old(self).spec_get(k)
                &&& final(self).spec_available() == old(self).spec_available()
            },
    {
        match self {
            SecretBackend::Memory(m) => m.delete(key),
            SecretBackend::Env(e) => e.delete(key),
            SecretBackend::Keychain(k) => k.delete(key),
        }
    }
}

pub open spec fn all_deterministic(s: Seq<SecretBackend>) -> bool {
    forall|i: int| 0 <= i < s.len() ==> (#[trigger] s[i]).deterministic()
}

pub open spec fn all_inv(s: Seq<SecretBackend>) -> bool {
    forall|i: int| 0 <= i < s.len() ==> (#[trigger] s[i]).inv()
}

/// What a chain read returns: the first member, in order, that is available
/// and holds the key.
pub open spec fn spec_chain_get(s: Seq<SecretBackend>, key: Seq<char>) -> Option<Seq<char>>
    decreases s.len(),
{
    if s.len() == 0 {
        None
    } else if s[0].spec_available() && s[0].spec_get(key) is Some {
        s[0].spec_get(key)
    } else {
        spec_chain_get(s.drop_first(), key)
    }
}

/// The name of the first member that is available and holds the key.
pub open spec fn spec_chain_source(s: Seq<SecretBackend>, key: Seq<char>) -> Option<Seq<char>>
    decreases s.len(),
{
    if s.len() == 0 {
        None
    } else if s[0].spec_available() && s[0].spec_get(key) is Some {
        Some(s[0].spec_name())
    } else {
        spec_chain_source(s.drop_first(), key)
    }
}

/// Why a chain could not be built.
#[derive(Debug)]
pub enum ChainStoreError {
    /// A chain needs at least one store.
    Empty,
    /// The write store index points past the last store.
    WriteIndexOutOfBounds,
}

impl ChainStoreError {
    /// A human-readable description, in place of a `Display` impl.
    pub fn message(&self) -> (r: String)
        ensures
            match self {
                ChainStoreError::Empty => r@ == "ChainSecretStore requires at least one store"@,
                ChainStoreError::WriteIndexOutOfBounds => r@ == "write_store_index out of bounds"@,
            },
    {
        match self {
            ChainStoreError::Empty => String::from_str("ChainSecretStore requires at least one store"),
            ChainStoreError::WriteIndexOutOfBounds => String::from_str("write_store_index out of bounds"),
        }
    }
}

/// An ordered chain of secret stores.
pub struct ChainSecretStore {
    stores: Vec<SecretBackend>,
    write_store_index: usize,
}

impl ChainSecretStore {
    pub closed spec fn inv(&self) -> bool {
        self.write_store_index < self.stores@.len() && all_inv(self.stores@)
    }

    /// The chain's members, in read order.
    pub closed spec fn spec_stores(&self) -> Seq<SecretBackend> {
        self.stores@
    }

    /// Which member writes go to.
    pub closed spec fn spec_write_index(&self) -> nat {
        self.write_store_index as nat
    }

    /// Make a chain whose first store takes the writes. An empty chain is a
    /// construction error, not a panic.
    pub fn new(stores: Vec<SecretBackend>) -> (r: Result<Self, ChainStoreError>)
        requires
            all_inv(stores@),
        ensures
            match r {
                Ok(c) => stores@.len() > 0 && c.inv() && c.spec_stores() == stores@
                    && c.spec_write_index() == 0,
                Err(e) => stores@.len() == 0 && (e matches ChainStoreError::Empty),
            },
    {
        if stores.len() == 0 {
            return Err(ChainStoreError::Empty);
        }
        Ok(ChainSecretStore { stores, write_store_index: 0 })
    }

    /// Make a chain with a chosen write store. An empty chain or an index
    /// past the end is a construction error, not a panic.
    pub fn with_write_store(stores: Vec<SecretBackend>, write_store_index: usize) -> (r: Result<
        Self,
        ChainStoreError,
    >)
        requires
            all_inv(stores@),
        ensures
            match r {
                Ok(c) => stores@.len() > 0 && write_store_index < stores@.len() && c.inv()
                    && c.spec_stores() == stores@ && c.spec_write_index() == write_store_index,
                Err(e) => (stores@.len() == 0 && (e matches ChainStoreError::Empty)) || (stores@.len()
                    > 0 && write_store_index >= stores@.len() && (e
                    matches ChainStoreError::WriteIndexOutOfBounds)),
            },
    {
        if stores.len() == 0 {
            return Err(ChainStoreError::Empty);
        }
        if write_store_index >= stores.len() {
            return Err(ChainStoreError::WriteIndexOutOfBounds);
        }
        Ok(ChainSecretStore { stores, write_store_index })
    }

    /// The stores in this chain.
    pub fn stores(&self) -> (r: &Vec<SecretBackend>)
        ensures
            r@ == self.spec_stores(),
    {
        &self.stores
    }

    /// The store that writes go to.
    pub fn write_store(&self) -> (r: &SecretBackend)
        requires
            self.inv(),
        ensures
            *r == self.spec_stores()[self.spec_write_index() as int],
    {
        &self.stores[self.write_store_index]
    }

    /// The chain's name.
    pub fn name(&self) -> (r: &'static str)
        ensures
            r@ == "chain"@,
    {
        "chain"
    }

    /// The chain is available when any member is.
    pub fn is_available(&self) -> (r: bool)
        ensures
            all_deterministic(self.spec_stores()) ==> r == exists|i: int|
                0 <= i < self.spec_stores().len() && (#[trigger] self.spec_stores()[i]).spec_available(),
    {
        let mut i: usize = 0;
        while i < self.stores.len()
            invariant
                i <= self.stores@.len(),
                all_deterministic(self.stores@) ==> forall|k: int|
                    0 <= k < i ==> !(#[trigger] self.stores@[k]).spec_available(),
            decreases self.stores@.len() - i,
        {
            if self.stores[i].is_available() {
                return true;
            }
            i = i + 1;
        }
        false
    }

    /// The first member that is available and holds the key.
    pub fn find_store(&self, key: &str) -> (r: Option<&SecretBackend>)
        ensures
            all_deterministic(self.spec_stores()) ==> match r {
                Some(b) => spec_chain_source(self.spec_stores(), key@) == Some(b.spec_name())
                    && b.spec_get(key@) is Some,
                None => spec_chain_source(self.spec_stores(), key@) == None::<Seq<char>>,
            },
    {
        let ghost s = self.stores@;
        proof {
            assert(s.skip(0) =~= s);
        }
        let mut i: usize = 0;
        while i < self.stores.len()
            invariant
                i <= self.stores@.len(),
                s == self.stores@,
                all_deterministic(s) ==> spec_chain_source(s, key@) == spec_chain_source(
                    s.skip(i as int),
                    key@,
                ),
            decreases self.stores@.len() - i,
        {
            proof {
                assert(s.skip(i as int)[0] == s[i as int]);
                assert(s.skip(i as int).drop_first() =~= s.skip(i + 1));
            }
            if self.stores[i].is_available() && self.stores[i].has(key) {
                return Some(&self.stores[i]);
            }
            i = i + 1;
        }
        proof {
            assert(s.skip(s.len() as int) =~= Seq::<SecretBackend>::empty());
        }
        None
    }

    /// Read through the chain: the first available member that holds the key
    /// gives the value.
    pub fn get(&self, key: &str) -> (r: Option<String>)
        ensures
            all_deterministic(self.spec_stores()) ==> match r {
                Some(v) => spec_chain_get(self.spec_stores(), key@) == Some(v@),
                None => spec_chain_get(self.spec_stores(), key@) == None::<Seq<char>>,
            },
    {
        let ghost s = self.stores@;
        proof {
            assert(s.skip(0) =~= s);
        }
        let mut i: usize = 0;
        while i < self.stores.len()
            invariant
                i <= self.stores@.len(),
                s == self.stores@,
                all_deterministic(s) ==> spec_chain_get(s, key@) == spec_chain_get(
                    s.skip(i as int),
                    key@,
                ),
            decreases self.stores@.len() - i,
        {
            proof {
                assert(s.skip(i as int)[0] == s[i as int]);
                assert(s.skip(i as int).drop_first() =~= s.skip(i + 1));
            }
            if self.stores[i].is_available() {
                if let Some(value) = self.stores[i].get(key) {
                    return Some(value);
                }
            }
            i = i + 1;
        }
        proof {
            assert(s.skip(s.len() as int) =~= Seq::<SecretBackend>::empty());
        }
        None
    }

    /// Write through the chain: the value goes to the write store alone.
    pub fn store(&mut self, key: &str, value: &str) -> (r: SecretStoreResult<()>)
        requires
            old(self).inv(),
        ensures
            final(self).inv(),
            final(self).spec_write_index() == old(self).spec_write_index(),
            final(self).spec_stores().len() == old(self).spec_stores().len(),
            forall|i: int|
                0 <= i < old(self).spec_stores().len() && i != old(self).spec_write_index()
                    ==> #[trigger] final(self).spec_stores()[i] == old(self).spec_stores()[i],
            old(self).spec_stores()[old(self).spec_write_index() as int]
                matches SecretBackend::Memory(_) ==> {
                &&& r is Ok
                &&& final(self).spec_stores()[old(self).spec_write_index() as int].spec_get(key@)
                    == Some(value@)
                &&& forall|k: Seq<char>|
                    k != key@ ==> #[trigger] final(self).spec_stores()[old(
                        self,
                    ).spec_write_index() as int].spec_get(k) == old(self).spec_stores()[old(
                        self,
                    ).spec_write_index() as int].spec_get(k)
            },
            old(self).spec_stores()[old(self).spec_write_index() as int]
                matches SecretBackend::Env(_) ==> (r matches Err(SecretStoreError::ReadOnly)
                && final(self).spec_stores() == old(self).spec_stores()),
    {
        let ghost old_stores = self.stores@;
        let idx = self.write_store_index;
        let backend = &mut self.stores[idx];
        let r = backend.store(key, value);
        proof {
            assert forall|i: int|
                0 <= i < old_stores.len() && i != idx as int implies #[trigger] self.stores@[i]
                == old_stores[i] by {}
            if old_stores[idx as int] matches SecretBackend::Env(_) {
                assert(self.stores@ =~= old_stores);
            }
        }
        r
    }

    /// Delete through the chain: best-effort on every member that holds the
    /// key; a read-only member or an absent key never fails the delete.
    pub fn delete(&mut self, key: &str) -> (r: SecretStoreResult<()>)
        requires
            old(self).inv(),
        ensures
            final(self).inv(),
            r is Ok,
            final(self).spec_write_index() == old(self).spec_write_index(),
            final(self).spec_stores().len() == old(self).spec_stores().len(),
            forall|i: int|
                (0 <= i < old(self).spec_stores().len() && ((#[trigger] old(self).spec_stores()[i])
                    matches SecretBackend::Memory(_))) ==> final(self).spec_stores()[i].spec_get(key@)
                    == None::<Seq<char>>,
    {
        let mut i: usize = 0;
        while i < self.stores.len()
            invariant
                i <= self.stores@.len(),
                self.stores@.len() == old(self).spec_stores().len(),
                self.write_store_index == old(self).spec_write_index(),
                all_inv(self.stores@),
                forall|k: int|
                    (0 <= k < self.stores@.len() && ((#[trigger] old(self).spec_stores()[k])
                        matches SecretBackend::Memory(_))) ==> (self.stores@[k]
                        matches SecretBackend::Memory(_)),
                forall|k: int|
                    (0 <= k < i && ((#[trigger] old(self).spec_stores()[k])
                        matches SecretBackend::Memory(_))) ==> self.stores@[k].spec_get(key@)
                        == None::<Seq<char>>,
            decreases self.stores@.len() - i,
        {
            let backend = &mut self.stores[i];
            if backend.has(key) {
                let _ = backend.delete(key);
            }
            i = i + 1;
        }
        Ok(())
    }

    /// Whether the key exists, with the first holding member's name as the
    /// source.
    pub fn get_info(&self, key: &str) -> (r: SecretInfo)
        ensures
            all_deterministic(self.spec_stores()) ==> match spec_chain_source(
                self.spec_stores(),
                key@,
            ) {
                Some(src) => r.available && r.source@ == src,
                None => !r.available && r.source@ == "none"@,
            },
    {
        match self.find_store(key) {
            Some(backend) => SecretInfo::new(true, backend.name()),
            None => SecretInfo::not_found(),
        }
    }
}

/// Chain priority law: when both members of a two-store chain are available
/// and the first holds the key, a chain read returns the first store's value.
pub proof fn lemma_chain_priority(a: SecretBackend, b: SecretBackend, key: Seq<char>)
    requires
        a.spec_available(),
        a.spec_get(key) is Some,
    ensures
        spec_chain_get(seq![a, b], key) == a.spec_get(key),
{
    assert(seq![a, b][0] == a);
}

/// Chain fallback law: when the first member of a two-store chain does not
/// hold the key (or cannot be read) and the second does, a chain read
/// returns the second store's value.
pub proof fn lemma_chain_fallback(a: SecretBackend, b: SecretBackend, key: Seq<char>)
    requires
        !(a.spec_available() && a.spec_get(key) is Some),
        b.spec_available(),
        b.spec_get(key) is Some,
    ensures
        spec_chain_get(seq![a, b], key) == b.spec_get(key),
{
    assert(seq![a, b][0] == a);
    assert(seq![a, b].drop_first() =~= seq![b]);
    assert(seq![b][0] == b);
    assert(spec_chain_get(seq![b], key) == b.spec_get(key));
}

} // verus!
