//! Registry of secret store factories, keyed by name.
//!
//! The built-in backends are registered up front; host applications may add
//! their own definitions. A definition names the backend kind to construct,
//! in place of reflection-based plugin discovery.

use vstd::prelude::*;

verus! {

use crate::chain_store::SecretBackend;
use crate::env_store::EnvSecretStore;
use crate::keychain_store::KeychainSecretStore;
use crate::memory_store::MemorySecretStore;
use vstd::string::StringExecFns;

/// Which backend a definition constructs.
#[derive(Clone, Copy, PartialEq, Eq, Structural)]
pub enum StoreKind {
    Env,
    Memory,
    Keychain,
}

/// A registered secret store: its name, what it is, and how to make one.
pub struct StoreDefinition {
    /// Unique name of the store.
    pub name: String,
    /// Human-readable description.
    pub description: String,
    /// The backend this definition constructs.
    pub kind: StoreKind,
    /// Whether the definition came from an external plugin.
    pub is_plugin: bool,
    /// Package name for plugins.
    pub package_name: Option<String>,
}

/// A definition as plain values.
pub struct StoreDefModel {
    pub name: Seq<char>,
    pub description: Seq<char>,
    pub kind: StoreKind,
    pub is_plugin: bool,
    pub package_name: Option<Seq<char>>,
}

pub open spec fn def_model(d: StoreDefinition) -> StoreDefModel {
    StoreDefModel {
        name: d.name@,
        description: d.description@,
        kind: d.kind,
        is_plugin: d.is_plugin,
        package_name: d.package_name.deep_view(),
    }
}

/// The first definition with the given name.
pub open spec fn spec_find_def(s: Seq<StoreDefinition>, name: Seq<char>) -> Option<StoreDefModel>
    decreases s.len(),
{
    if s.len() == 0 {
        None
    } else if s[0].name@ == name {
        Some(def_model(s[0]))
    } else {
        spec_find_def(s.drop_first(), name)
    }
}

pub open spec fn def_names_unique(s: Seq<StoreDefinition>) -> bool {
    forall|i: int, j: int| 0 <= i < j < s.len() ==> s[i].name@ != s[j].name@
}

proof fn lemma_def_absent(s: Seq<StoreDefinition>, name: Seq<char>)
    ensures
        (spec_find_def(s, name) == None::<StoreDefModel>) <==> (forall|i: int|
            0 <= i < s.len() ==> (#[trigger] s[i]).name@ != name),
    decreases s.len(),
{
    if s.len() > 0 {
        lemma_def_absent(s.drop_first(), name);
        if s[0].name@ != name {
            if spec_find_def(s, name) is None {
                assert forall|i: int| 0 <= i < s.len() implies (#[trigger] s[i]).name@ != name by {
                    if i > 0 {
                        assert(s.drop_first()[i - 1] == s[i]);
                    }
                }
            } else {
                let i = choose|i: int|
                    0 <= i < s.drop_first().len() && (#[trigger] s.drop_first()[i]).name@ == name;
                assert(s[i + 1].name@ == name);
            }
        }
    }
}

proof fn lemma_def_at(s: Seq<StoreDefinition>, name: Seq<char>, i: int)
    requires
        def_names_unique(s),
        0 <= i < s.len(),
        s[i].name@ == name,
    ensures
        spec_find_def(s, name) == Some(def_model(s[i])),
    decreases s.len(),
{
    if i == 0 {
    } else {
        assert(s.drop_first()[i - 1] == s[i]);
        lemma_def_at(s.drop_first(), name, i - 1);
    }
}

proof fn lemma_def_update(s: Seq<StoreDefinition>, at: int, d: StoreDefinition, name: Seq<char>)
    requires
        def_names_unique(s),
        0 <= at < s.len(),
        s[at].name@ == d.name@,
    ensures
        spec_find_def(s.update(at, d), name) == (if d.name@ == name {
            Some(def_model(d))
        } else {
            spec_find_def(s, name)
        }),
        def_names_unique(s.update(at, d)),
    decreases s.len(),
{
    let t = s.update(at, d);
    assert forall|i: int, j: int| 0 <= i < j < t.len() implies t[i].name@ != t[j].name@ by {
        assert(s[i].name@ != s[j].name@);
    }
    if at == 0 {
        assert(t[0] == d);
        if d.name@ != name {
            assert(t.drop_first() =~= s.drop_first());
        }
    } else {
        assert(t[0] == s[0]);
        if s[0].name@ == name {
            assert(s[at].name@ != name);
        } else {
            assert(t.drop_first() =~= s.drop_first().update(at - 1, d));
            assert(s.drop_first()[at - 1] == s[at]);
            lemma_def_update(s.drop_first(), at - 1, d, name);
        }
    }
}

proof fn lemma_def_push(s: Seq<StoreDefinition>, d: StoreDefinition, name: Seq<char>)
    ensures
        spec_find_def(s.push(d), name) == (if spec_find_def(s, name) is Some {
            spec_find_def(s, name)
        } else if d.name@ == name {
            Some(def_model(d))
        } else {
            None
        }),
    decreases s.len(),
{
    if s.len() == 0 {
        assert(s.push(d)[0] == d);
        if d.name@ != name {
            assert(s.push(d).drop_first() =~= Seq::<StoreDefinition>::empty());
            assert(spec_find_def(Seq::<StoreDefinition>::empty(), name) is None);
        } else {
            assert(spec_find_def(s.push(d), name) == Some(def_model(d)));
        }
    } else {
        assert(s.push(d)[0] == s[0]);
        if s[0].name@ != name {
            assert(s.push(d).drop_first() =~= s.drop_first().push(d));
            lemma_def_push(s.drop_first(), d, name);
        }
    }
}

proof fn lemma_def_remove(s: Seq<StoreDefinition>, at: int, name: Seq<char>)
    requires
        def_names_unique(s),
        0 <= at < s.len(),
    ensures
        spec_find_def(s.remove(at), name) == (if s[at].name@ == name {
            None
        } else {
            spec_find_def(s, name)
        }),
        def_names_unique(s.remove(at)),
    decreases s.len(),
{
    let t = s.remove(at);
    assert forall|i: int, j: int| 0 <= i < j < t.len() implies t[i].name@ != t[j].name@ by {
        let si = if i < at { i } else { i + 1 };
        let sj = if j < at { j } else { j + 1 };
        assert(t[i] == s[si] && t[j] == s[sj]);
    }
    if at == 0 {
        assert(t =~= s.drop_first());
        if s[0].name@ == name {
            lemma_def_absent(s.drop_first(), name);
            assert forall|i: int| 0 <= i < s.drop_first().len() implies (#[trigger] s.drop_first()[i]).name@
                != name by {
                assert(s.drop_first()[i] == s[i + 1]);
            }
        }
    } else {
        assert(t[0] == s[0]);
        if s[0].name@ == name {
            assert(s[at].name@ != name);
        } else {
            assert(t.drop_first() =~= s.drop_first().remove(at - 1));
            assert(s.drop_first()[at - 1] == s[at]);
            lemma_def_remove(s.drop_first(), at - 1, name);
        }
    }
}

/// The registry of secret store definitions.
pub struct SecretStoreRegistry {
    defs: Vec<StoreDefinition>,
}

impl SecretStoreRegistry {
    /// The registry's invariant: definition names are unique.
    pub closed spec fn inv(&self) -> bool {
        def_names_unique(self.defs@)
    }

    /// What the registry holds under a name.
    pub closed spec fn spec_def(&self, name: Seq<char>) -> Option<StoreDefModel> {
        spec_find_def(self.defs@, name)
    }

    /// Make an empty registry.
    pub fn new() -> (r: Self)
        ensures
            r.inv(),
            forall|n: Seq<char>| r.spec_def(n) == None::<StoreDefModel>,
    {
        let r = SecretStoreRegistry { defs: Vec::new() };
        proof {
            assert(forall|n: Seq<char>| r.spec_def(n) == None::<StoreDefModel>);
        }
        r
    }

    /// Make a registry holding the built-in stores: `env`, `memory` and
    /// `keychain`.
    pub fn with_builtins() -> (r: Self)
        ensures
            r.inv(),
            r.spec_def("env"@) matches Some(m) && m.name == "env"@ && m.description
                == "Read API keys from environment variables"@ && m.kind == StoreKind::Env
                && !m.is_plugin && m.package_name is None,
            r.spec_def("memory"@) matches Some(m) && m.name == "memory"@ && m.description
                == "In-memory storage for testing"@ && m.kind == StoreKind::Memory && !m.is_plugin
                && m.package_name is None,
            r.spec_def("keychain"@) matches Some(m) && m.name == "keychain"@ && m.description
                == "System keychain (macOS Keychain, Windows Credential Manager, Linux Secret Service)"@
                && m.kind == StoreKind::Keychain && !m.is_plugin && m.package_name is None,
    {
        let mut r = SecretStoreRegistry::new();
        register_secret_store(
            &mut r,
            "env",
            "Read API keys from environment variables",
            StoreKind::Env,
            false,
            None,
        );
        register_secret_store(&mut r, "memory", "In-memory storage for testing", StoreKind::Memory, false, None);
        register_secret_store(
            &mut r,
            "keychain",
            "System keychain (macOS Keychain, Windows Credential Manager, Linux Secret Service)",
            StoreKind::Keychain,
            false,
            None,
        );
        proof {
            reveal_strlit("env");
            reveal_strlit("memory");
            reveal_strlit("keychain");
            assert("env"@.len() == 3 && "memory"@.len() == 6 && "keychain"@.len() == 8);
            assert("env"@ != "memory"@ && "env"@ != "keychain"@ && "memory"@ != "keychain"@);
        }
        r
    }

    fn index_of(&self, name: &String) -> (r: Option<usize>)
        ensures
            match r {
                Some(i) => i < self.defs@.len() && self.defs@[i as int].name@ == name@,
                None => forall|i: int|
                    0 <= i < self.defs@.len() ==> (#[trigger] self.defs@[i]).name@ != name@,
            },
    {
        let mut i: usize = 0;
        while i < self.defs.len()
            invariant
                i <= self.defs@.len(),
                forall|k: int| 0 <= k < i ==> (#[trigger] self.defs@[k]).name@ != name@,
            decreases self.defs@.len() - i,
        {
            if self.defs[i].name == *name {
                return Some(i);
            }
            i = i + 1;
        }
        None
    }
}

/// Register a store definition, overwriting any entry with the same name.
pub fn register_secret_store(
    registry: &mut SecretStoreRegistry,
    name: &str,
    description: &str,
    kind: StoreKind,
    is_plugin: bool,
    package_name: Option<String>,
)
    requires
        old(registry).inv(),
    ensures
        final(registry).inv(),
        final(registry).spec_def(name@) matches Some(m) && m.name == name@ && m.description
            == description@ && m.kind == kind && m.is_plugin == is_plugin && m.package_name
            == package_name.deep_view(),
        forall|n: Seq<char>|
            n != name@ ==> final(registry).spec_def(n) == old(registry).spec_def(n),
{
    let def = StoreDefinition {
        name: String::from_str(name),
        description: String::from_str(description),
        kind,
        is_plugin,
        package_name,
    };
    let ghost old_seq = registry.defs@;
    let ghost mut removed_at: Option<int> = None;
    match registry.index_of(&def.name) {
        Some(i) => {
            registry.defs.remove(i);
            proof {
                removed_at = Some(i as int);
                lemma_def_remove(old_seq, i as int, name@);
            }
        },
        None => {
        },
    }
    let ghost mid_seq = registry.defs@;
    proof {
        if removed_at is Some {
            lemma_def_remove(old_seq, removed_at->Some_0, name@);
        }
        lemma_def_absent(mid_seq, name@);
        assert(spec_find_def(mid_seq, name@) is None);
    }
    registry.defs.push(def);
    proof {
        lemma_def_push(mid_seq, def, name@);
        assert forall|n: Seq<char>| n != name@ implies final(registry).spec_def(n) == spec_find_def(
            old_seq,
            n,
        ) by {
            lemma_def_push(mid_seq, def, n);
            match removed_at {
                Some(i) => {
                    lemma_def_remove(old_seq, i, n);
                },
                None => {
                },
            }
        }
        assert forall|i: int| 0 <= i < mid_seq.len() implies (#[trigger] mid_seq[i]).name@ != name@ by {
            lemma_def_absent(mid_seq, name@);
        }
        let ghost new_seq = final(registry).defs@;
        assert forall|i: int, j: int| 0 <= i < j < new_seq.len() implies new_seq[i].name@
            != new_seq[j].name@ by {
            if j < mid_seq.len() {
                match removed_at {
                    Some(at) => {
                        lemma_def_remove(old_seq, at, mid_seq[i].name@);
                    },
                    None => {
                    },
                }
                assert(new_seq[i] == mid_seq[i]);
                assert(new_seq[j] == mid_seq[j]);
            } else {
                assert(new_seq[i] == mid_seq[i]);
            }
        }
    }
}

/// Whether a store is registered under the name.
pub fn has_secret_store(registry: &SecretStoreRegistry, name: &str) -> (r: bool)
    requires
        registry.inv(),
    ensures
        r == (registry.spec_def(name@) is Some),
{
    get_store_definition(registry, name).is_some()
}

/// The definition registered under a name: its name, description, plugin
/// flag and package name.
pub fn get_store_definition(registry: &SecretStoreRegistry, name: &str) -> (r: Option<
    (String, String, bool, Option<String>),
>)
    requires
        registry.inv(),
    ensures
        match r {
            Some(d) => registry.spec_def(name@) matches Some(m) && m.name == d.0@ && m.description
                == d.1@ && m.is_plugin == d.2 && m.package_name == d.3.deep_view(),
            None => registry.spec_def(name@) == None::<StoreDefModel>,
        },
{
    let name_s = String::from_str(name);
    match registry.index_of(&name_s) {
        Some(i) => {
            proof {
                lemma_def_at(registry.defs@, name@, i as int);
            }
            let d = &registry.defs[i];
            let package = match &d.package_name {
                Some(p) => Some(p.clone()),
                None => None,
            };
            Some((d.name.clone(), d.description.clone(), d.is_plugin, package))
        },
        None => {
            proof {
                lemma_def_absent(registry.defs@, name@);
            }
            None
        },
    }
}

/// Construct a store from its registered definition: `None` when the name is
/// not registered. An `env` store starts from an empty snapshot; the caller
/// fills it from its own environment.
pub fn create_secret_store(registry: &SecretStoreRegistry, name: &str) -> (r: Option<SecretBackend>)
    requires
        registry.inv(),
    ensures
        r is Some <==> registry.spec_def(name@) is Some,
        r matches Some(b) ==> b.inv() && (match registry.spec_def(name@)->Some_0.kind {
            StoreKind::Env => b is Env,
            StoreKind::Memory => b is Memory,
            StoreKind::Keychain => b is Keychain,
        }),
{
    let name_s = String::from_str(name);
    match registry.index_of(&name_s) {
        Some(i) => {
            proof {
                lemma_def_at(registry.defs@, name@, i as int);
            }
            match registry.defs[i].kind {
                StoreKind::Env => Some(SecretBackend::Env(EnvSecretStore::new())),
                StoreKind::Memory => Some(SecretBackend::Memory(MemorySecretStore::new())),
                StoreKind::Keychain => Some(SecretBackend::Keychain(KeychainSecretStore::new())),
            }
        },
        None => {
            proof {
                lemma_def_absent(registry.defs@, name@);
            }
            None
        },
    }
}

/// Every registered store as `(name, description, is_plugin)`, in
/// registration order: exactly the definitions' own fields.
pub fn list_secret_stores(registry: &SecretStoreRegistry) -> (r: Vec<(String, String, bool)>)
    ensures
        r@.len() == registry.spec_list().len(),
        forall|i: int|
            0 <= i < r@.len() ==> {
                let m = registry.spec_list()[i];
                (#[trigger] r@[i]).0@ == m.name && r@[i].1@ == m.description && r@[i].2
                    == m.is_plugin
            },
{
    let mut out: Vec<(String, String, bool)> = Vec::new();
    let mut i: usize = 0;
    while i < registry.defs.len()
        invariant
            i <= registry.defs@.len(),
            out@.len() == i,
            forall|k: int|
                0 <= k < i ==> (#[trigger] out@[k]).0@ == registry.defs@[k].name@ && out@[k].1@
                    == registry.defs@[k].description@ && out@[k].2 == registry.defs@[k].is_plugin,
        decreases registry.defs@.len() - i,
    {
        let d = &registry.defs[i];
        out.push((d.name.clone(), d.description.clone(), d.is_plugin));
        i = i + 1;
    }
    out
}

/// Remove a store definition; whether one was registered under the name.
pub fn unregister_secret_store(registry: &mut SecretStoreRegistry, name: &str) -> (r: bool)
    requires
        old(registry).inv(),
    ensures
        final(registry).inv(),
        r == (old(registry).spec_def(name@) is Some),
        final(registry).spec_def(name@) == None::<StoreDefModel>,
        forall|n: Seq<char>|
            n != name@ ==> final(registry).spec_def(n) == old(registry).spec_def(n),
{
    let name_s = String::from_str(name);
    let ghost old_seq = registry.defs@;
    match registry.index_of(&name_s) {
        Some(i) => {
            proof {
                lemma_def_at(old_seq, name@, i as int);
            }
            registry.defs.remove(i);
            proof {
                assert forall|n: Seq<char>| true implies spec_find_def(final(registry).defs@, n) == (
                if n == name@ {
                    None
                } else {
                    spec_find_def(old_seq, n)
                }) by {
                    lemma_def_remove(old_seq, i as int, n);
                    if n == name@ {
                        lemma_def_absent(old_seq.remove(i as int), n);
                        assert forall|k: int| 0 <= k < old_seq.remove(i as int).len()
                            implies (#[trigger] old_seq.remove(i as int)[k]).name@ != name@ by {
                            if k < i {
                                assert(old_seq.remove(i as int)[k] == old_seq[k]);
                            } else {
                                assert(old_seq.remove(i as int)[k] == old_seq[k + 1]);
                            }
                        }
                    }
                }
                lemma_def_remove(old_seq, i as int, name@);
            }
            true
        },
        None => {
            proof {
                lemma_def_absent(old_seq, name@);
            }
            false
        },
    }
}

impl SecretStoreRegistry {
    /// The registered names, in registration order.
    pub closed spec fn spec_names(&self) -> Seq<Seq<char>> {
        self.defs@.map(|i: int, d: StoreDefinition| d.name@)
    }

    /// The registered definitions as plain values, in registration order.
    pub closed spec fn spec_list(&self) -> Seq<StoreDefModel> {
        self.defs@.map(|i: int, d: StoreDefinition| def_model(d))
    }
}

} // verus!
