//! Scope-aware configuration resolution over a shared in-memory cache.
//!
//! The cache is one table, keyed by lowercase provider name, shared by every
//! resolver instance that is handed it: the single source of truth for reads
//! during the process lifetime. `load_from_sources` rebuilds it by merging
//! the user scope and then the workspace scope (later overwrites earlier,
//! case-insensitively), from the native files or the host's settings — never
//! both, as the preference selects. A write updates the cache first and only
//! then yields the persistence step, so readers observe writer intent even
//! while the durable write is still in flight; a failed persistence is
//! reported, never rolled back.

use vstd::prelude::*;

verus! {

use crate::casing::{lower, lower_of};
use crate::config_doc::{providers_model, spec_name_taken};
use crate::config_types::{provider_config_model, ProviderConfig, ProviderConfigModel};
use crate::endpoint::{spec_first_registered, RpcEndpointRegistry};
use crate::jsonio::{json_quote_bytes, json_quoted_bytes};
use vstd::string::StringExecFns;

/// A provider configuration with source tracking: the merged, in-memory view.
pub struct ResolvedProvider {
    /// Provider name.
    pub name: String,
    /// Whether the provider is enabled.
    pub enabled: bool,
    /// Custom API base URL.
    pub api_base: Option<String>,
    /// Configured models.
    pub models: Vec<String>,
    /// Which source provided this configuration.
    pub source: String,
    /// Human-readable source description.
    pub source_detail: String,
}

/// A resolved provider as plain values.
pub struct ResolvedProviderModel {
    pub name: Seq<char>,
    pub enabled: bool,
    pub api_base: Option<Seq<char>>,
    pub models: Seq<Seq<char>>,
    pub source: Seq<char>,
    pub source_detail: Seq<char>,
}

pub open spec fn resolved_model(p: ResolvedProvider) -> ResolvedProviderModel {
    ResolvedProviderModel {
        name: p.name@,
        enabled: p.enabled,
        api_base: p.api_base.deep_view(),
        models: p.models.deep_view(),
        source: p.source@,
        source_detail: p.source_detail@,
    }
}

impl Clone for ResolvedProvider {
    fn clone(&self) -> (r: Self)
        ensures
            resolved_model(r) == resolved_model(*self),
    {
        let api_base = match &self.api_base {
            Some(b) => Some(b.clone()),
            None => None,
        };
        let r = ResolvedProvider {
            name: self.name.clone(),
            enabled: self.enabled,
            api_base,
            models: crate::config_types::clone_string_vec(&self.models),
            source: self.source.clone(),
            source_detail: self.source_detail.clone(),
        };
        proof {
            assert(resolved_model(r) == resolved_model(*self));
        }
        r
    }
}

/// All resolved providers.
pub struct ResolvedConfig {
    pub providers: Vec<ResolvedProvider>,
}

/// Which source family provider configuration is read from and written to.
#[derive(Clone, Copy, PartialEq, Eq, Structural, Debug)]
pub enum ConfigSourcePreference {
    /// The native configuration files.
    Native,
    /// The host editor's settings, over RPC.
    VsCode,
}

impl Default for ConfigSourcePreference {
    /// Outside a host editor the native files are the default.
    fn default() -> (r: Self)
        ensures
            r == ConfigSourcePreference::Native,
    {
        ConfigSourcePreference::Native
    }
}

impl ConfigSourcePreference {
    /// The preference a configuration string names; anything unknown means
    /// the native files.
    pub fn from_str(s: &str) -> (r: Self)
        ensures
            (r == ConfigSourcePreference::VsCode) == (lower_of(s@) == "vscode"@ || lower_of(s@)
                == "vs_code"@ || lower_of(s@) == "vs-code"@),
    {
        let low = lower(s);
        if low == String::from_str("vscode") || low == String::from_str("vs_code") || low
            == String::from_str("vs-code") {
            ConfigSourcePreference::VsCode
        } else {
            ConfigSourcePreference::Native
        }
    }
}

// ---------------------------------------------------------------------------
// The shared provider cache
// ---------------------------------------------------------------------------

/// The last entry with the given key.
pub open spec fn rp_assoc_last(s: Seq<(Seq<char>, ResolvedProviderModel)>, key: Seq<char>) -> Option<
    ResolvedProviderModel,
>
    decreases s.len(),
{
    if s.len() == 0 {
        None
    } else if s.last().0 == key {
        Some(s.last().1)
    } else {
        rp_assoc_last(s.drop_last(), key)
    }
}

pub open spec fn rp_assoc(s: Seq<(Seq<char>, ResolvedProviderModel)>, key: Seq<char>) -> Option<
    ResolvedProviderModel,
>
    decreases s.len(),
{
    if s.len() == 0 {
        None
    } else if s[0].0 == key {
        Some(s[0].1)
    } else {
        rp_assoc(s.drop_first(), key)
    }
}

pub open spec fn rp_keys_unique(s: Seq<(Seq<char>, ResolvedProviderModel)>) -> bool {
    forall|i: int, j: int| 0 <= i < j < s.len() ==> s[i].0 != s[j].0
}

pub open spec fn cache_model(v: Seq<(String, ResolvedProvider)>) -> Seq<
    (Seq<char>, ResolvedProviderModel),
> {
    v.map(|i: int, p: (String, ResolvedProvider)| (p.0@, resolved_model(p.1)))
}

proof fn lemma_rp_absent(s: Seq<(Seq<char>, ResolvedProviderModel)>, key: Seq<char>)
    ensures
        (rp_assoc(s, key) == None::<ResolvedProviderModel>) <==> (forall|i: int|
            0 <= i < s.len() ==> (#[trigger] s[i]).0 != key),
    decreases s.len(),
{
    if s.len() > 0 {
        lemma_rp_absent(s.drop_first(), key);
        if s[0].0 != key {
            if rp_assoc(s, key) is None {
                assert forall|i: int| 0 <= i < s.len() implies (#[trigger] s[i]).0 != key by {
                    if i > 0 {
                        assert(s.drop_first()[i - 1] == s[i]);
                    }
                }
            } else {
                let i = choose|i: int|
                    0 <= i < s.drop_first().len() && (#[trigger] s.drop_first()[i]).0 == key;
                assert(s[i + 1].0 == key);
            }
        }
    }
}

proof fn lemma_rp_at(s: Seq<(Seq<char>, ResolvedProviderModel)>, key: Seq<char>, i: int)
    requires
        rp_keys_unique(s),
        0 <= i < s.len(),
        s[i].0 == key,
    ensures
        rp_assoc(s, key) == Some(s[i].1),
    decreases s.len(),
{
    if i == 0 {
    } else {
        assert(s.drop_first()[i - 1] == s[i]);
        lemma_rp_at(s.drop_first(), key, i - 1);
    }
}

proof fn lemma_rp_update(
    s: Seq<(Seq<char>, ResolvedProviderModel)>,
    at: int,
    p: (Seq<char>, ResolvedProviderModel),
    key: Seq<char>,
)
    requires
        rp_keys_unique(s),
        0 <= at < s.len(),
        s[at].0 == p.0,
    ensures
        rp_assoc(s.update(at, p), key) == (if p.0 == key {
            Some(p.1)
        } else {
            rp_assoc(s, key)
        }),
        rp_keys_unique(s.update(at, p)),
    decreases s.len(),
{
    let t = s.update(at, p);
    assert forall|i: int, j: int| 0 <= i < j < t.len() implies t[i].0 != t[j].0 by {
        assert(s[i].0 != s[j].0);
    }
    if at == 0 {
        assert(t[0] == p);
        if p.0 != key {
            assert(t.drop_first() =~= s.drop_first());
        }
    } else {
        assert(t[0] == s[0]);
        if s[0].0 == key {
            assert(s[at].0 != key);
        } else {
            assert(t.drop_first() =~= s.drop_first().update(at - 1, p));
            assert(s.drop_first()[at - 1] == s[at]);
            lemma_rp_update(s.drop_first(), at - 1, p, key);
        }
    }
}

proof fn lemma_rp_push(
    s: Seq<(Seq<char>, ResolvedProviderModel)>,
    p: (Seq<char>, ResolvedProviderModel),
    key: Seq<char>,
)
    ensures
        rp_assoc(s.push(p), key) == (if rp_assoc(s, key) is Some {
            rp_assoc(s, key)
        } else if p.0 == key {
            Some(p.1)
        } else {
            None
        }),
    decreases s.len(),
{
    if s.len() == 0 {
        assert(s.push(p)[0] == p);
        if p.0 != key {
            assert(s.push(p).drop_first() =~= Seq::<(Seq<char>, ResolvedProviderModel)>::empty());
        } else {
            assert(rp_assoc(s.push(p), key) == Some(p.1));
        }
    } else {
        assert(s.push(p)[0] == s[0]);
        if s[0].0 != key {
            assert(s.push(p).drop_first() =~= s.drop_first().push(p));
            lemma_rp_push(s.drop_first(), p, key);
        }
    }
}

proof fn lemma_rp_remove(s: Seq<(Seq<char>, ResolvedProviderModel)>, at: int, key: Seq<char>)
    requires
        rp_keys_unique(s),
        0 <= at < s.len(),
    ensures
        rp_assoc(s.remove(at), key) == (if s[at].0 == key {
            None
        } else {
            rp_assoc(s, key)
        }),
        rp_keys_unique(s.remove(at)),
    decreases s.len(),
{
    let t = s.remove(at);
    assert forall|i: int, j: int| 0 <= i < j < t.len() implies t[i].0 != t[j].0 by {
        let si = if i < at { i } else { i + 1 };
        let sj = if j < at { j } else { j + 1 };
        assert(t[i] == s[si] && t[j] == s[sj]);
    }
    if at == 0 {
        assert(t =~= s.drop_first());
        if s[0].0 == key {
            lemma_rp_absent(s.drop_first(), key);
            assert forall|i: int| 0 <= i < s.drop_first().len() implies (#[trigger] s.drop_first()[i]).0
                != key by {
                assert(s.drop_first()[i] == s[i + 1]);
            }
        }
    } else {
        assert(t[0] == s[0]);
        if s[0].0 == key {
            assert(s[at].0 != key);
        } else {
            assert(t.drop_first() =~= s.drop_first().remove(at - 1));
            assert(s.drop_first()[at - 1] == s[at]);
            lemma_rp_remove(s.drop_first(), at - 1, key);
        }
    }
}

/// Where in the entries a held key stands: a cached key has an entry index
/// carrying exactly what `spec_get` returns, so a read through `values` can
/// find it.
pub proof fn lemma_rp_entry_index(s: Seq<(Seq<char>, ResolvedProviderModel)>, key: Seq<char>)
    requires
        rp_assoc(s, key) is Some,
    ensures
        exists|i: int|
            0 <= i < s.len() && (#[trigger] s[i]).0 == key && s[i].1 == rp_assoc(s, key)->Some_0,
    decreases s.len(),
{
    if s.len() > 0 {
        if s[0].0 == key {
            assert(s[0].0 == key && s[0].1 == rp_assoc(s, key)->Some_0);
        } else {
            lemma_rp_entry_index(s.drop_first(), key);
            let i = choose|i: int|
                0 <= i < s.drop_first().len() && (#[trigger] s.drop_first()[i]).0 == key
                    && s.drop_first()[i].1 == rp_assoc(s.drop_first(), key)->Some_0;
            assert(s[i + 1].0 == key && s[i + 1].1 == rp_assoc(s, key)->Some_0);
        }
    }
}

/// The shared in-memory provider table, keyed by lowercase provider name.
pub struct ProviderCache {
    entries: Vec<(String, ResolvedProvider)>,
}

impl ProviderCache {
    /// The cache's invariant: keys are unique.
    pub closed spec fn inv(&self) -> bool {
        rp_keys_unique(cache_model(self.entries@))
    }

    /// The cache's entries as plain values, in insertion order.
    pub closed spec fn spec_entries(&self) -> Seq<(Seq<char>, ResolvedProviderModel)> {
        cache_model(self.entries@)
    }

    /// What the cache holds under a lowercase name.
    pub open spec fn spec_get(&self, key: Seq<char>) -> Option<ResolvedProviderModel> {
        rp_assoc(self.spec_entries(), key)
    }

    /// How many providers the cache holds: one per entry.
    pub open spec fn spec_len(&self) -> nat {
        self.spec_entries().len()
    }

    /// An empty cache.
    pub fn new() -> (r: Self)
        ensures
            r.inv(),
            r.spec_len() == 0,
            forall|k: Seq<char>| r.spec_get(k) == None::<ResolvedProviderModel>,
    {
        let r = ProviderCache { entries: Vec::new() };
        proof {
            assert(cache_model(r.entries@) =~= Seq::<(Seq<char>, ResolvedProviderModel)>::empty());
        }
        r
    }

    /// Remove every entry.
    pub fn clear(&mut self)
        ensures
            final(self).inv(),
            final(self).spec_len() == 0,
            forall|k: Seq<char>| final(self).spec_get(k) == None::<ResolvedProviderModel>,
    {
        self.entries.clear();
        proof {
            assert(cache_model(self.entries@) =~= Seq::<(Seq<char>, ResolvedProviderModel)>::empty());
        }
    }

    fn index_of(&self, key: &String) -> (r: Option<usize>)
        ensures
            match r {
                Some(i) => i < self.entries@.len() && self.entries@[i as int].0@ == key@,
                None => forall|i: int|
                    0 <= i < self.entries@.len() ==> (#[trigger] self.entries@[i]).0@ != key@,
            },
    {
        let mut i: usize = 0;
        while i < self.entries.len()
            invariant
                i <= self.entries@.len(),
                forall|k: int| 0 <= k < i ==> (#[trigger] self.entries@[k]).0@ != key@,
            decreases self.entries@.len() - i,
        {
            if self.entries[i].0 == *key {
                return Some(i);
            }
            i = i + 1;
        }
        None
    }

    /// Insert or overwrite the entry under a lowercase name.
    pub fn insert(&mut self, key: String, value: ResolvedProvider)
        requires
            old(self).inv(),
        ensures
            final(self).inv(),
            final(self).spec_get(key@) == Some(resolved_model(value)),
            forall|k: Seq<char>|
                k != key@ ==> #[trigger] final(self).spec_get(k) == old(self).spec_get(k),
    {
        let ghost old_m = cache_model(self.entries@);
        match self.index_of(&key) {
            Some(i) => {
                proof {
                    lemma_rp_at(old_m, key@, i as int);
                }
                self.entries.set(i, (key, value));
                proof {
                    let new_m = cache_model(self.entries@);
                    assert(new_m =~= old_m.update(i as int, (new_m[i as int].0, new_m[i as int].1)));
                    assert forall|k: Seq<char>| true implies #[trigger] rp_assoc(new_m, k) == (if k
                        == new_m[i as int].0 {
                        Some(new_m[i as int].1)
                    } else {
                        rp_assoc(old_m, k)
                    }) by {
                        lemma_rp_update(old_m, i as int, new_m[i as int], k);
                    }
                    lemma_rp_update(old_m, i as int, new_m[i as int], new_m[i as int].0);
                }
            },
            None => {
                proof {
                    lemma_rp_absent(old_m, key@);
                }
                self.entries.push((key, value));
                proof {
                    let new_m = cache_model(self.entries@);
                    assert(new_m =~= old_m.push((new_m.last().0, new_m.last().1)));
                    assert forall|k: Seq<char>| true implies #[trigger] rp_assoc(new_m, k) == (if
                        rp_assoc(old_m, k) is Some {
                        rp_assoc(old_m, k)
                    } else if k == new_m.last().0 {
                        Some(new_m.last().1)
                    } else {
                        None
                    }) by {
                        lemma_rp_push(old_m, (new_m.last().0, new_m.last().1), k);
                    }
                    assert forall|i: int, j: int| 0 <= i < j < new_m.len() implies new_m[i].0
                        != new_m[j].0 by {
                        if j == new_m.len() - 1 {
                            assert(new_m[i] == old_m[i]);
                        } else {
                            assert(new_m[i] == old_m[i] && new_m[j] == old_m[j]);
                        }
                    }
                }
            },
        }
    }

    /// Remove the entry under a lowercase name; removing an absent name is
    /// fine.
    pub fn remove(&mut self, key: &str)
        requires
            old(self).inv(),
        ensures
            final(self).inv(),
            final(self).spec_get(key@) == None::<ResolvedProviderModel>,
            forall|k: Seq<char>|
                k != key@ ==> #[trigger] final(self).spec_get(k) == old(self).spec_get(k),
    {
        let key_s = String::from_str(key);
        let ghost old_m = cache_model(self.entries@);
        match self.index_of(&key_s) {
            Some(i) => {
                self.entries.remove(i);
                proof {
                    let new_m = cache_model(self.entries@);
                    assert(new_m =~= old_m.remove(i as int));
                    assert forall|k: Seq<char>| true implies #[trigger] rp_assoc(new_m, k) == (if k
                        == old_m[i as int].0 {
                        None
                    } else {
                        rp_assoc(old_m, k)
                    }) by {
                        lemma_rp_remove(old_m, i as int, k);
                    }
                }
            },
            None => {
                proof {
                    lemma_rp_absent(old_m, key@);
                }
            },
        }
    }

    /// A held key has an entry index carrying exactly what `spec_get`
    /// returns, inside the `spec_len` bound: this lets a caller carry a
    /// cache write through a `values` read.
    pub proof fn lemma_held_entry(&self, key: Seq<char>)
        requires
            self.spec_get(key) is Some,
        ensures
            exists|i: int|
                0 <= i < self.spec_entries().len() && (#[trigger] self.spec_entries()[i]).0 == key
                    && self.spec_entries()[i].1 == self.spec_get(key)->Some_0,
    {
        lemma_rp_entry_index(self.spec_entries(), key);
    }

    /// The entry under a lowercase name.
    pub fn get(&self, key: &str) -> (r: Option<ResolvedProvider>)
        requires
            self.inv(),
        ensures
            match r {
                Some(p) => self.spec_get(key@) == Some(resolved_model(p)),
                None => self.spec_get(key@) == None::<ResolvedProviderModel>,
            },
    {
        let key_s = String::from_str(key);
        match self.index_of(&key_s) {
            Some(i) => {
                proof {
                    lemma_rp_at(cache_model(self.entries@), key@, i as int);
                }
                Some(self.entries[i].1.clone())
            },
            None => {
                proof {
                    lemma_rp_absent(cache_model(self.entries@), key@);
                }
                None
            },
        }
    }

    /// Every held provider, in insertion order.
    pub fn values(&self) -> (r: Vec<ResolvedProvider>)
        ensures
            r@.len() == self.spec_len(),
            forall|i: int|
                0 <= i < r@.len() ==> resolved_model(#[trigger] r@[i]) == self.spec_entries()[i].1,
    {
        let mut out: Vec<ResolvedProvider> = Vec::new();
        let mut i: usize = 0;
        while i < self.entries.len()
            invariant
                i <= self.entries@.len(),
                out@.len() == i,
                forall|k: int|
                    0 <= k < i ==> resolved_model(#[trigger] out@[k]) == cache_model(
                        self.entries@,
                    )[k].1,
            decreases self.entries@.len() - i,
        {
            out.push(self.entries[i].1.clone());
            i = i + 1;
        }
        out
    }
}

// ---------------------------------------------------------------------------
// Labeling and loading
// ---------------------------------------------------------------------------

/// A provider labeled with its source, keyed by its lowercase name.
pub open spec fn labeled(p: ProviderConfigModel, source: Seq<char>, detail: Seq<char>) -> (
    Seq<char>,
    ResolvedProviderModel,
) {
    (
        lower_of(p.name),
        ResolvedProviderModel {
            name: p.name,
            enabled: p.enabled,
            api_base: p.api_base,
            models: p.models,
            source: source,
            source_detail: detail,
        },
    )
}

pub open spec fn labeled_list(s: Seq<ProviderConfigModel>, source: Seq<char>, detail: Seq<char>) -> Seq<
    (Seq<char>, ResolvedProviderModel),
> {
    s.map(|i: int, p: ProviderConfigModel| labeled(p, source, detail))
}

/// Insert every provider of a list into the cache under its lowercase name,
/// labeled with the source: within the list, the last entry under a name
/// wins; entries under other names stay.
pub fn cache_insert_list(
    cache: &mut ProviderCache,
    list: &Vec<ProviderConfig>,
    source: &str,
    detail: &str,
)
    requires
        old(cache).inv(),
    ensures
        final(cache).inv(),
        forall|k: Seq<char>|
            #[trigger] final(cache).spec_get(k) == (match rp_assoc_last(
                labeled_list(providers_model(list@), source@, detail@),
                k,
            ) {
                Some(m) => Some(m),
                None => old(cache).spec_get(k),
            }),
{
    let ghost lab = labeled_list(providers_model(list@), source@, detail@);
    let mut i: usize = 0;
    proof {
        assert(lab.subrange(0, 0) =~= Seq::<(Seq<char>, ResolvedProviderModel)>::empty());
    }
    while i < list.len()
        invariant
            i <= list@.len(),
            lab == labeled_list(providers_model(list@), source@, detail@),
            cache.inv(),
            forall|k: Seq<char>|
                #[trigger] cache.spec_get(k) == (match rp_assoc_last(lab.subrange(0, i as int), k) {
                    Some(m) => Some(m),
                    None => old(cache).spec_get(k),
                }),
        decreases list@.len() - i,
    {
        let p = &list[i];
        let key = lower(p.name.as_str());
        let api_base = match &p.api_base {
            Some(b) => Some(b.clone()),
            None => None,
        };
        let value = ResolvedProvider {
            name: p.name.clone(),
            enabled: p.enabled,
            api_base,
            models: crate::config_types::clone_string_vec(&p.models),
            source: String::from_str(source),
            source_detail: String::from_str(detail),
        };
        proof {
            assert(resolved_model(value) == lab[i as int].1);
            assert(key@ == lab[i as int].0);
        }
        cache.insert(key, value);
        i = i + 1;
        proof {
            let prev = lab.subrange(0, i - 1);
            let cur = lab.subrange(0, i as int);
            assert(cur.drop_last() =~= prev);
            assert(cur.last() == lab[i - 1]);
        }
    }
    proof {
        assert(lab.subrange(0, lab.len() as int) =~= lab);
    }
}

/// Rebuild the cache from the native files: first the user scope, then the
/// workspace scope, which overwrites it on a name collision. A scope whose
/// file does not exist contributes nothing.
pub fn load_native(
    cache: &mut ProviderCache,
    user: Option<Vec<ProviderConfig>>,
    workspace: Option<Vec<ProviderConfig>>,
)
    ensures
        final(cache).inv(),
        forall|k: Seq<char>|
            #[trigger] final(cache).spec_get(k) == {
                let user_m = (match user {
                    Some(u) => rp_assoc_last(
                        labeled_list(
                            providers_model(u@),
                            "native:user"@,
                            "~/.config/openllm/config.yaml"@,
                        ),
                        k,
                    ),
                    None => None,
                });
                let ws_m = (match workspace {
                    Some(w) => rp_assoc_last(
                        labeled_list(
                            providers_model(w@),
                            "native:workspace"@,
                            ".config/openllm/config.yaml"@,
                        ),
                        k,
                    ),
                    None => None,
                });
                match ws_m {
                    Some(m) => Some(m),
                    None => user_m,
                }
            },
{
    cache.clear();
    match &user {
        Some(u) => {
            cache_insert_list(cache, u, "native:user", "~/.config/openllm/config.yaml");
        },
        None => {},
    }
    match &workspace {
        Some(w) => {
            cache_insert_list(cache, w, "native:workspace", ".config/openllm/config.yaml");
        },
        None => {},
    }
}

/// Rebuild the cache from a host's settings: the user scope, then the
/// workspace scope, which overwrites it on a name collision.
pub fn load_rpc(
    cache: &mut ProviderCache,
    endpoint_name: &str,
    user: Vec<ProviderConfig>,
    workspace: Vec<ProviderConfig>,
)
    ensures
        final(cache).inv(),
        forall|k: Seq<char>|
            #[trigger] final(cache).spec_get(k) == {
                let user_m = rp_assoc_last(
                    labeled_list(
                        providers_model(user@),
                        "rpc:"@ + endpoint_name@ + ":user"@,
                        endpoint_name@ + " User Settings"@,
                    ),
                    k,
                );
                let ws_m = rp_assoc_last(
                    labeled_list(
                        providers_model(workspace@),
                        "rpc:"@ + endpoint_name@ + ":workspace"@,
                        endpoint_name@ + " Workspace Settings"@,
                    ),
                    k,
                );
                match ws_m {
                    Some(m) => Some(m),
                    None => user_m,
                }
            },
{
    cache.clear();
    let mut user_source = String::from_str("rpc:");
    user_source.append(endpoint_name);
    user_source.append(":user");
    let mut user_detail = String::from_str(endpoint_name);
    user_detail.append(" User Settings");
    cache_insert_list(cache, &user, user_source.as_str(), user_detail.as_str());
    let mut ws_source = String::from_str("rpc:");
    ws_source.append(endpoint_name);
    ws_source.append(":workspace");
    let mut ws_detail = String::from_str(endpoint_name);
    ws_detail.append(" Workspace Settings");
    cache_insert_list(cache, &workspace, ws_source.as_str(), ws_detail.as_str());
}

// ---------------------------------------------------------------------------
// The resolver
// ---------------------------------------------------------------------------

/// Where a configuration write will land.
pub enum ConfigWritePlan {
    /// Through the named registered endpoint, at the given scope.
    Rpc { endpoint: String },
    /// Into the user-level native file.
    NativeUser,
    /// Into the workspace-level native file.
    NativeWorkspace,
}

/// Resolves provider configuration across the configured sources. Instances
/// are cheap values holding only preferences; the shared cache is handed in.
pub struct UnifiedConfigResolver {
    /// Workspace root for workspace-level configuration.
    pub workspace_path: Option<String>,
    /// RPC endpoint names to try, in order.
    pub rpc_endpoints: Vec<String>,
    /// Which source family to read and write.
    pub config_source: ConfigSourcePreference,
}

impl UnifiedConfigResolver {
    /// A resolver with the native files preferred and `vscode` as the
    /// candidate endpoint. Nothing is loaded until `load_native` or
    /// `load_rpc` runs against the shared cache.
    pub fn new() -> (r: Self)
        ensures
            r.workspace_path is None,
            r.config_source == ConfigSourcePreference::Native,
            r.rpc_endpoints.deep_view() =~~= seq!["vscode"@],
    {
        let mut rpc_endpoints: Vec<String> = Vec::new();
        rpc_endpoints.push(String::from_str("vscode"));
        let r = UnifiedConfigResolver {
            workspace_path: None,
            rpc_endpoints,
            config_source: ConfigSourcePreference::Native,
        };
        proof {
            assert(r.rpc_endpoints.deep_view() =~~= seq!["vscode"@]);
        }
        r
    }

    /// A resolver with a workspace root.
    pub fn with_workspace(workspace_path: &str) -> (r: Self)
        ensures
            r.workspace_path matches Some(w) && w@ == workspace_path@,
            r.config_source == ConfigSourcePreference::Native,
    {
        let mut base = Self::new();
        base.workspace_path = Some(String::from_str(workspace_path));
        base
    }

    /// Set or clear the workspace root. The caller reloads the cache after.
    pub fn set_workspace(&mut self, path: Option<String>)
        ensures
            final(self).workspace_path == path,
            final(self).config_source == old(self).config_source,
    {
        self.workspace_path = path;
    }

    /// Set the preferred source family. The caller reloads the cache after.
    pub fn set_config_source(&mut self, source: ConfigSourcePreference)
        ensures
            final(self).config_source == source,
            final(self).workspace_path == old(self).workspace_path,
    {
        self.config_source = source;
    }

    /// Set the preferred source family from a configuration string.
    pub fn set_config_source_str(&mut self, source: &str)
        ensures
            (final(self).config_source == ConfigSourcePreference::VsCode) == (lower_of(source@)
                == "vscode"@ || lower_of(source@) == "vs_code"@ || lower_of(source@) == "vs-code"@),
            final(self).workspace_path == old(self).workspace_path,
    {
        let s = ConfigSourcePreference::from_str(source);
        self.config_source = s;
    }

    /// The preferred source family.
    pub fn get_config_source(&self) -> (r: &ConfigSourcePreference)
        ensures
            *r == self.config_source,
    {
        &self.config_source
    }

    /// Add a candidate RPC endpoint name.
    pub fn add_rpc_endpoint(&mut self, name: &str)
        ensures
            final(self).rpc_endpoints.deep_view() == old(self).rpc_endpoints.deep_view().push(name@),
            final(self).config_source == old(self).config_source,
            final(self).workspace_path == old(self).workspace_path,
    {
        self.rpc_endpoints.push(String::from_str(name));
        proof {
            assert(self.rpc_endpoints.deep_view() =~~= old(self).rpc_endpoints.deep_view().push(
                name@,
            ));
        }
    }

    /// Every provider in the shared cache: an instant read, no probing.
    pub fn get_all_providers(&self, cache: &ProviderCache) -> (r: ResolvedConfig)
        ensures
            r.providers@.len() == cache.spec_len(),
            forall|i: int|
                0 <= i < r.providers@.len() ==> resolved_model(#[trigger] r.providers@[i])
                    == cache.spec_entries()[i].1,
    {
        ResolvedConfig { providers: cache.values() }
    }

    /// The cached provider under a name, compared case-insensitively.
    pub fn get_provider(&self, cache: &ProviderCache, name: &str) -> (r: Option<ResolvedProvider>)
        requires
            cache.inv(),
        ensures
            match r {
                Some(p) => cache.spec_get(lower_of(name@)) == Some(resolved_model(p)),
                None => cache.spec_get(lower_of(name@)) == None::<ResolvedProviderModel>,
            },
    {
        let low = lower(name);
        cache.get(low.as_str())
    }

    /// Whether a write goes to a native file: always under the native
    /// preference, and under the host preference when no candidate endpoint
    /// is registered.
    pub open spec fn spec_routes_native(&self, registry: &RpcEndpointRegistry) -> bool {
        self.config_source == ConfigSourcePreference::Native || spec_first_registered(
            self.rpc_endpoints.deep_view(),
            registry,
        ) is None
    }

    fn first_registered_endpoint(&self, registry: &RpcEndpointRegistry) -> (r: Option<String>)
        requires
            registry.inv(),
        ensures
            match r {
                Some(n) => spec_first_registered(self.rpc_endpoints.deep_view(), registry) == Some(
                    n@,
                ) && registry.spec_get(n@) is Some,
                None => spec_first_registered(self.rpc_endpoints.deep_view(), registry) == None::<
                    Seq<char>,
                >,
            },
    {
        let ghost eps = self.rpc_endpoints.deep_view();
        proof {
            assert(eps.skip(0) =~~= eps);
            crate::endpoint::lemma_first_registered_registered(eps, registry);
        }
        let mut i: usize = 0;
        while i < self.rpc_endpoints.len()
            invariant
                registry.inv(),
                i <= self.rpc_endpoints@.len(),
                eps == self.rpc_endpoints.deep_view(),
                spec_first_registered(eps, registry) == spec_first_registered(
                    eps.skip(i as int),
                    registry,
                ),
            decreases self.rpc_endpoints@.len() - i,
        {
            proof {
                assert(eps.skip(i as int)[0] == eps[i as int]);
                assert(eps[i as int] == self.rpc_endpoints@[i as int]@);
                assert(eps.skip(i as int).drop_first() =~~= eps.skip(i + 1));
            }
            if registry.get(self.rpc_endpoints[i].as_str()).is_some() {
                proof {
                    crate::endpoint::lemma_first_registered_registered(eps, registry);
                }
                return Some(self.rpc_endpoints[i].clone());
            }
            i = i + 1;
        }
        proof {
            assert(eps.skip(eps.len() as int) =~~= Seq::<Seq<char>>::empty());
        }
        None
    }

    /// Where a write at the scope will land: the native file for the native
    /// preference; the first registered endpoint for the host preference,
    /// falling back to the native file when none is registered.
    pub fn get_write_destination(&self, registry: &RpcEndpointRegistry, scope: &str) -> (r:
        ConfigWritePlan)
        requires
            registry.inv(),
        ensures
            r matches ConfigWritePlan::Rpc { endpoint } ==> (self.config_source
                == ConfigSourcePreference::VsCode && registry.spec_get(endpoint@) is Some),
            self.spec_routes_native(registry) ==> ((r is NativeWorkspace <==> scope@
                == "workspace"@) && (r is NativeUser <==> scope@ != "workspace"@)),
            (self.config_source == ConfigSourcePreference::VsCode && spec_first_registered(
                self.rpc_endpoints.deep_view(),
                registry,
            ) is Some) ==> (r matches ConfigWritePlan::Rpc { endpoint } && Some(endpoint@)
                == spec_first_registered(self.rpc_endpoints.deep_view(), registry)),
    {
        proof {
            crate::endpoint::lemma_first_registered_registered(
                self.rpc_endpoints.deep_view(),
                registry,
            );
        }
        let is_workspace = scope_is_workspace(scope);
        match self.config_source {
            ConfigSourcePreference::Native => {
                if is_workspace {
                    ConfigWritePlan::NativeWorkspace
                } else {
                    ConfigWritePlan::NativeUser
                }
            },
            ConfigSourcePreference::VsCode => match self.first_registered_endpoint(registry) {
                Some(endpoint) => ConfigWritePlan::Rpc { endpoint },
                None => {
                    if is_workspace {
                        ConfigWritePlan::NativeWorkspace
                    } else {
                        ConfigWritePlan::NativeUser
                    }
                },
            },
        }
    }

    /// The human-readable description of where a write at the scope lands.
    pub fn compute_source_detail(&self, scope: &str) -> (r: String)
        ensures
            self.config_source == ConfigSourcePreference::Native ==> (scope@ == "workspace"@ ==> r@
                == ".config/openllm/config.yaml"@) && (scope@ != "workspace"@ ==> r@
                == "~/.config/openllm/config.yaml"@),
    {
        match self.config_source {
            ConfigSourcePreference::VsCode => {
                let mut s = String::from_str("vscode ");
                if scope_is_workspace(scope) {
                    s.append("Workspace");
                } else {
                    s.append("User");
                }
                s.append(" Settings");
                s
            },
            ConfigSourcePreference::Native => {
                if scope_is_workspace(scope) {
                    String::from_str(".config/openllm/config.yaml")
                } else {
                    String::from_str("~/.config/openllm/config.yaml")
                }
            },
        }
    }

    /// Save a provider at a scope. The shared cache is updated first — so a
    /// read on any resolver instance sees the record at once — and the still
    /// unperformed persistence step comes back as the plan: one RPC call, or
    /// a native file write whose merged content the caller assembles with
    /// `merge_provider_into_file` from the file's own current providers. A
    /// workspace-scope native write without a workspace root fails, with the
    /// cache already updated; the caller may reload to roll that back.
    pub fn save_provider(
        &self,
        cache: &mut ProviderCache,
        registry: &RpcEndpointRegistry,
        provider: &ResolvedProvider,
        scope: &str,
    ) -> (r: Result<ConfigWritePlan, String>)
        requires
            old(cache).inv(),
            registry.inv(),
        ensures
            final(cache).inv(),
            final(cache).spec_get(lower_of(provider.name@)) matches Some(m) && m.name
                == provider.name@ && m.enabled == provider.enabled && m.api_base
                == provider.api_base.deep_view() && m.models == provider.models.deep_view(),
            forall|k: Seq<char>|
                k != lower_of(provider.name@) ==> #[trigger] final(cache).spec_get(k) == old(
                    cache,
                ).spec_get(k),
            r matches Ok(ConfigWritePlan::Rpc { endpoint }) ==> registry.spec_get(endpoint@)
                is Some,
            r matches Ok(ConfigWritePlan::NativeWorkspace) ==> self.workspace_path is Some,
            r is Err <==> (self.spec_routes_native(registry) && scope@ == "workspace"@
                && self.workspace_path is None),
            (self.spec_routes_native(registry) && scope@ == "workspace"@ && self.workspace_path
                is Some) ==> r matches Ok(ConfigWritePlan::NativeWorkspace),
            (self.spec_routes_native(registry) && scope@ != "workspace"@) ==> r matches Ok(
                ConfigWritePlan::NativeUser,
            ),
            (self.config_source == ConfigSourcePreference::VsCode && spec_first_registered(
                self.rpc_endpoints.deep_view(),
                registry,
            ) is Some) ==> (r matches Ok(ConfigWritePlan::Rpc { endpoint }) && Some(endpoint@)
                == spec_first_registered(self.rpc_endpoints.deep_view(), registry)),
    {
        let source = match self.config_source {
            ConfigSourcePreference::VsCode => {
                let mut s = String::from_str("rpc:vscode:");
                s.append(scope);
                s
            },
            ConfigSourcePreference::Native => {
                let mut s = String::from_str("native:");
                s.append(scope);
                s
            },
        };
        let source_detail = self.compute_source_detail(scope);
        let record = ResolvedProvider {
            name: provider.name.clone(),
            enabled: provider.enabled,
            api_base: (match &provider.api_base {
                Some(b) => Some(b.clone()),
                None => None,
            }),
            models: crate::config_types::clone_string_vec(&provider.models),
            source,
            source_detail,
        };
        let key = lower(provider.name.as_str());
        cache.insert(key, record);
        let plan = self.get_write_destination(registry, scope);
        match plan {
            ConfigWritePlan::NativeWorkspace => {
                if self.workspace_path.is_none() {
                    return Err(String::from_str("No workspace path set for workspace-level config"));
                }
                Ok(ConfigWritePlan::NativeWorkspace)
            },
            other => Ok(other),
        }
    }

    /// Enable or disable a provider, keeping its other cached fields.
    pub fn toggle_provider(
        &self,
        cache: &mut ProviderCache,
        registry: &RpcEndpointRegistry,
        provider_name: &str,
        enabled: bool,
        scope: &str,
    ) -> (r: Result<ConfigWritePlan, String>)
        requires
            old(cache).inv(),
            registry.inv(),
        ensures
            final(cache).inv(),
            final(cache).spec_get(lower_of(provider_name@)) matches Some(m) && m.name
                == provider_name@ && m.enabled == enabled,
    {
        let existing = self.get_provider(cache, provider_name);
        let provider = match existing {
            Some(p) => ResolvedProvider {
                name: String::from_str(provider_name),
                enabled,
                api_base: p.api_base,
                models: p.models,
                source: String::new(),
                source_detail: String::new(),
            },
            None => ResolvedProvider {
                name: String::from_str(provider_name),
                enabled,
                api_base: None,
                models: Vec::new(),
                source: String::new(),
                source_detail: String::new(),
            },
        };
        self.save_provider(cache, registry, &provider, scope)
    }

    /// Replace a provider's models, keeping its other cached fields.
    pub fn update_provider_models(
        &self,
        cache: &mut ProviderCache,
        registry: &RpcEndpointRegistry,
        provider_name: &str,
        models: Vec<String>,
        scope: &str,
    ) -> (r: Result<ConfigWritePlan, String>)
        requires
            old(cache).inv(),
            registry.inv(),
        ensures
            final(cache).inv(),
            final(cache).spec_get(lower_of(provider_name@)) matches Some(m) && m.name
                == provider_name@ && m.models == models.deep_view(),
    {
        let existing = self.get_provider(cache, provider_name);
        let provider = match existing {
            Some(p) => ResolvedProvider {
                name: String::from_str(provider_name),
                enabled: p.enabled,
                api_base: p.api_base,
                models,
                source: String::new(),
                source_detail: String::new(),
            },
            None => ResolvedProvider {
                name: String::from_str(provider_name),
                enabled: true,
                api_base: None,
                models,
                source: String::new(),
                source_detail: String::new(),
            },
        };
        self.save_provider(cache, registry, &provider, scope)
    }

    /// Route the removal of a provider at a scope, dropping it from the
    /// shared cache first — every write mutates the cache, so reads never see
    /// a removed provider while the durable step is in flight. The step comes
    /// back as the plan: one RPC call that disables the provider with no
    /// models, or a native file rewrite whose content the caller assembles
    /// without the provider.
    pub fn remove_provider(
        &self,
        cache: &mut ProviderCache,
        registry: &RpcEndpointRegistry,
        provider_name: &str,
        scope: &str,
    ) -> (r: Result<ConfigWritePlan, String>)
        requires
            old(cache).inv(),
            registry.inv(),
        ensures
            final(cache).inv(),
            final(cache).spec_get(lower_of(provider_name@)) is None,
            forall|k: Seq<char>|
                k != lower_of(provider_name@) ==> #[trigger] final(cache).spec_get(k) == old(
                    cache,
                ).spec_get(k),
            r matches Ok(ConfigWritePlan::Rpc { endpoint }) ==> registry.spec_get(endpoint@)
                is Some,
            r matches Ok(ConfigWritePlan::NativeWorkspace) ==> self.workspace_path is Some,
            r is Err <==> (self.spec_routes_native(registry) && scope@ == "workspace"@
                && self.workspace_path is None),
            (self.spec_routes_native(registry) && scope@ == "workspace"@ && self.workspace_path
                is Some) ==> r matches Ok(ConfigWritePlan::NativeWorkspace),
            (self.spec_routes_native(registry) && scope@ != "workspace"@) ==> r matches Ok(
                ConfigWritePlan::NativeUser,
            ),
            (self.config_source == ConfigSourcePreference::VsCode && spec_first_registered(
                self.rpc_endpoints.deep_view(),
                registry,
            ) is Some) ==> (r matches Ok(ConfigWritePlan::Rpc { endpoint }) && Some(endpoint@)
                == spec_first_registered(self.rpc_endpoints.deep_view(), registry)),
    {
        let key = lower(provider_name);
        cache.remove(key.as_str());
        let plan = self.get_write_destination(registry, scope);
        match plan {
            ConfigWritePlan::NativeWorkspace => {
                if self.workspace_path.is_none() {
                    return Err(String::from_str("No workspace path set"));
                }
                Ok(ConfigWritePlan::NativeWorkspace)
            },
            other => Ok(other),
        }
    }


    /// The providers visible at one scope alone, labeled with their sources:
    /// the native file's providers, then each endpoint's, in order. The file
    /// and RPC contents are handed in by the embedding program.
    pub fn get_providers_at_scope(
        &self,
        scope: &str,
        native: Option<Vec<ProviderConfig>>,
        rpc: Vec<(String, Vec<ProviderConfig>)>,
    ) -> (r: Vec<ResolvedProvider>)
        ensures
            forall|i: int|
                0 <= i < r@.len() ==> resolved_model(#[trigger] r@[i]).source_detail.len() > 0,
            (native is Some && rpc@.len() == 0) ==> r@.len() == native->Some_0@.len(),
            (native is None && rpc@.len() == 0) ==> r@.len() == 0,
    {
        let is_workspace = scope_is_workspace(scope);
        let mut out: Vec<ResolvedProvider> = Vec::new();
        let (native_source, native_detail) = if is_workspace {
            ("native:workspace", ".config/openllm/config.yaml")
        } else {
            ("native:user", "~/.config/openllm/config.yaml")
        };
        match native {
            Some(list) => {
                let mut i: usize = 0;
                while i < list.len()
                    invariant
                        i <= list@.len(),
                        out@.len() == i,
                        native_detail@ == ".config/openllm/config.yaml"@ || native_detail@
                            == "~/.config/openllm/config.yaml"@,
                        forall|k: int|
                            0 <= k < out@.len() ==> resolved_model(
                                #[trigger] out@[k],
                            ).source_detail.len() > 0,
                    decreases list@.len() - i,
                {
                    let p = &list[i];
                    out.push(ResolvedProvider {
                        name: p.name.clone(),
                        enabled: p.enabled,
                        api_base: (match &p.api_base {
                            Some(b) => Some(b.clone()),
                            None => None,
                        }),
                        models: crate::config_types::clone_string_vec(&p.models),
                        source: String::from_str(native_source),
                        source_detail: String::from_str(native_detail),
                    });
                    proof {
                        reveal_strlit(".config/openllm/config.yaml");
                        reveal_strlit("~/.config/openllm/config.yaml");
                    }
                    i = i + 1;
                }
            },
            None => {},
        }
        let ghost n0 = out@.len();
        let mut e: usize = 0;
        while e < rpc.len()
            invariant
                e <= rpc@.len(),
                e == 0 ==> out@.len() == n0,
                forall|k: int|
                    0 <= k < out@.len() ==> resolved_model(#[trigger] out@[k]).source_detail.len()
                        > 0,
            decreases rpc@.len() - e,
        {
            let (endpoint_name, list) = &rpc[e];
            let mut source = String::from_str("rpc:");
            source.append(endpoint_name.as_str());
            source.append(":");
            source.append(scope);
            let mut detail = endpoint_name.clone();
            if is_workspace {
                detail.append(" Workspace Settings");
            } else {
                detail.append(" User Settings");
            }
            proof {
                reveal_strlit(" Workspace Settings");
                reveal_strlit(" User Settings");
            }
            let mut i: usize = 0;
            while i < list.len()
                invariant
                    i <= list@.len(),
                    detail@.len() > 0,
                    forall|k: int|
                        0 <= k < out@.len() ==> resolved_model(
                            #[trigger] out@[k],
                        ).source_detail.len() > 0,
                decreases list@.len() - i,
            {
                let p = &list[i];
                out.push(ResolvedProvider {
                    name: p.name.clone(),
                    enabled: p.enabled,
                    api_base: (match &p.api_base {
                        Some(b) => Some(b.clone()),
                        None => None,
                    }),
                    models: crate::config_types::clone_string_vec(&p.models),
                    source: source.clone(),
                    source_detail: detail.clone(),
                });
                i = i + 1;
            }
            e = e + 1;
        }
        out
    }

    /// The sources a load would consult and whether each is usable: the
    /// native files' existence, or each endpoint's reachability, as the
    /// preference selects. Existence and reachability are handed in by the
    /// embedding program.
    pub fn list_sources(
        &self,
        user_file: (bool, &str),
        workspace_file: Option<(bool, &str)>,
        rpc_reachable: &Vec<(String, bool)>,
    ) -> (r: Vec<(String, bool, String)>)
        ensures
            self.config_source == ConfigSourcePreference::Native ==> r@.len() >= 1,
            self.config_source == ConfigSourcePreference::VsCode ==> r@.len()
                == 2 * self.rpc_endpoints@.len(),
    {
        let mut out: Vec<(String, bool, String)> = Vec::new();
        match self.config_source {
            ConfigSourcePreference::Native => {
                out.push((
                    String::from_str("native:user"),
                    user_file.0,
                    String::from_str(user_file.1),
                ));
                match workspace_file {
                    Some((exists, path)) => {
                        out.push((
                            String::from_str("native:workspace"),
                            exists,
                            String::from_str(path),
                        ));
                    },
                    None => {},
                }
            },
            ConfigSourcePreference::VsCode => {
                let mut scope_pass: usize = 0;
                while scope_pass < 2
                    invariant
                        scope_pass <= 2,
                        out@.len() == scope_pass * self.rpc_endpoints@.len(),
                    decreases 2 - scope_pass,
                {
                    let scope_word = if scope_pass == 0 {
                        "user"
                    } else {
                        "workspace"
                    };
                    let detail_word = if scope_pass == 0 {
                        " User Settings"
                    } else {
                        " Workspace Settings"
                    };
                    let mut i: usize = 0;
                    while i < self.rpc_endpoints.len()
                        invariant
                            i <= self.rpc_endpoints@.len(),
                            scope_pass <= 1,
                            out@.len() == scope_pass * self.rpc_endpoints@.len() + i,
                        decreases self.rpc_endpoints@.len() - i,
                    {
                        let name = &self.rpc_endpoints[i];
                        let mut id = String::from_str("rpc:");
                        id.append(name.as_str());
                        id.append(":");
                        id.append(scope_word);
                        let mut reachable = false;
                        let mut k: usize = 0;
                        while k < rpc_reachable.len()
                            invariant
                                k <= rpc_reachable@.len(),
                            decreases rpc_reachable@.len() - k,
                        {
                            if rpc_reachable[k].0 == *name {
                                reachable = rpc_reachable[k].1;
                            }
                            k = k + 1;
                        }
                        let mut detail = name.clone();
                        detail.append(detail_word);
                        out.push((id, reachable, detail));
                        i = i + 1;
                    }
                    scope_pass = scope_pass + 1;
                }
            },
        }
        out
    }

    /// Where a write at the scope would land, as an identifier and a
    /// human-readable description, without performing it.
    pub fn get_write_destination_info(&self, registry: &RpcEndpointRegistry, scope: &str) -> (r: (
        String,
        String,
    ))
        requires
            registry.inv(),
        ensures
            self.spec_routes_native(registry) ==> {
                &&& r.0@ == "native:"@ + scope@
                &&& (scope@ != "workspace"@ ==> r.1@ == "~/.config/openllm/config.yaml"@)
                &&& ((scope@ == "workspace"@ && self.workspace_path is Some) ==> r.1@
                    == self.workspace_path->Some_0@ + "/.config/openllm/config.yaml"@)
                &&& ((scope@ == "workspace"@ && self.workspace_path is None) ==> r.1@
                    == ".config/openllm/config.yaml"@)
            },
            (self.config_source == ConfigSourcePreference::VsCode && spec_first_registered(
                self.rpc_endpoints.deep_view(),
                registry,
            ) is Some) ==> {
                let n = spec_first_registered(self.rpc_endpoints.deep_view(), registry)->Some_0;
                &&& r.0@ == "rpc:"@ + n + ":"@ + scope@
                &&& (scope@ == "workspace"@ ==> r.1@ == n + " Workspace Settings"@)
                &&& (scope@ != "workspace"@ ==> r.1@ == n + " User Settings"@)
            },
    {
        match self.get_write_destination(registry, scope) {
            ConfigWritePlan::Rpc { endpoint } => {
                let mut id = String::from_str("rpc:");
                id.append(endpoint.as_str());
                id.append(":");
                id.append(scope);
                let mut detail = endpoint;
                if scope_is_workspace(scope) {
                    detail.append(" Workspace Settings");
                } else {
                    detail.append(" User Settings");
                }
                (id, detail)
            },
            ConfigWritePlan::NativeUser => {
                let mut id = String::from_str("native:");
                id.append(scope);
                (id, String::from_str("~/.config/openllm/config.yaml"))
            },
            ConfigWritePlan::NativeWorkspace => {
                let mut id = String::from_str("native:");
                id.append(scope);
                let detail = match &self.workspace_path {
                    Some(w) => {
                        let mut d = w.clone();
                        d.append("/.config/openllm/config.yaml");
                        d
                    },
                    None => String::from_str(".config/openllm/config.yaml"),
                };
                (id, detail)
            },
        }
    }
}

/// Merge one provider into a file's provider list: the first entry under the
/// same name (case-insensitively) is replaced, a new name is appended, and
/// every other entry stays exactly as it was — so providers this session
/// never touched survive the write.
#[verifier::loop_isolation(false)]
pub fn merge_provider_into_file(
    file_providers: &mut Vec<ProviderConfig>,
    provider: &ResolvedProvider,
    scope: &str,
)
    ensures
        ({
            let old_m = providers_model(old(file_providers)@);
            let new_m = providers_model(final(file_providers)@);
            let rec = merged_record_model(*provider, scope@);
            if spec_name_taken(old_m, lower_of(provider.name@)) {
                exists|i: int|
                    0 <= i < old_m.len() && lower_of(#[trigger] old_m[i].name) == lower_of(
                        provider.name@,
                    ) && (forall|k: int|
                        0 <= k < i ==> lower_of(#[trigger] old_m[k].name) != lower_of(
                            provider.name@,
                        )) && new_m == old_m.update(i, rec)
            } else {
                new_m == old_m.push(rec)
            }
        }),
{
    let ghost old_m = providers_model(file_providers@);
    let config = ProviderConfig {
        name: provider.name.clone(),
        enabled: provider.enabled,
        api_base: (match &provider.api_base {
            Some(b) => Some(b.clone()),
            None => None,
        }),
        models: crate::config_types::clone_string_vec(&provider.models),
        source: (if scope_is_workspace(scope) {
            crate::config_types::ConfigSource::NativeWorkspace
        } else {
            crate::config_types::ConfigSource::NativeUser
        }),
    };
    proof {
        assert(provider_config_model(config) == merged_record_model(*provider, scope@));
    }
    let low = lower(provider.name.as_str());
    let mut i: usize = 0;
    while i < file_providers.len()
        invariant
            i <= file_providers@.len(),
            file_providers@ == old(file_providers)@,
            forall|k: int|
                0 <= k < i ==> lower_of((#[trigger] old_m[k]).name) != lower_of(provider.name@),
        decreases file_providers@.len() - i,
    {
        let this_low = lower(file_providers[i].name.as_str());
        if this_low == low {
            proof {
                assert(lower_of(old_m[i as int].name) == lower_of(provider.name@));
                assert(spec_name_taken(old_m, lower_of(provider.name@)));
            }
            file_providers.set(i, config);
            proof {
                assert(providers_model(file_providers@) =~~= old_m.update(
                    i as int,
                    merged_record_model(*provider, scope@),
                ));
            }
            return ;
        }
        i = i + 1;
    }
    proof {
        if spec_name_taken(old_m, lower_of(provider.name@)) {
            let k = choose|k: int|
                0 <= k < old_m.len() && lower_of((#[trigger] old_m[k]).name) == lower_of(
                    provider.name@,
                );
            assert(false);
        }
    }
    file_providers.push(config);
    proof {
        assert(providers_model(file_providers@) =~~= old_m.push(
            merged_record_model(*provider, scope@),
        ));
    }
}

/// The record a native merge writes for a provider at a scope.
pub open spec fn merged_record_model(provider: ResolvedProvider, scope: Seq<char>) -> ProviderConfigModel {
    ProviderConfigModel {
        name: provider.name@,
        enabled: provider.enabled,
        api_base: provider.api_base.deep_view(),
        models: provider.models.deep_view(),
        source: (if scope == "workspace"@ {
            crate::config_types::ConfigSource::NativeWorkspace
        } else {
            crate::config_types::ConfigSource::NativeUser
        }),
    }
}

/// The serialized `config/set` body for a provider: its enabled flag, its
/// models, and its api base when one is set.
pub open spec fn spec_set_config_json(
    enabled: bool,
    models: Seq<Seq<char>>,
    api_base: Option<Seq<char>>,
) -> Seq<u8> {
    let head = seq![123u8] + "\"enabled\":"@.map(|i: int, c: char| c as u8) + (if enabled {
        "true"@.map(|i: int, c: char| c as u8)
    } else {
        "false"@.map(|i: int, c: char| c as u8)
    }) + ",\"models\":["@.map(|i: int, c: char| c as u8) + spec_arr_items(models) + seq![93u8];
    match api_base {
        Some(b) => head + ",\"apiBase\":"@.map(|i: int, c: char| c as u8) + json_quoted_bytes(b)
            + seq![125u8],
        None => head + seq![125u8],
    }
}

/// The members of a JSON string array, comma-separated.
pub open spec fn spec_arr_items(models: Seq<Seq<char>>) -> Seq<u8>
    decreases models.len(),
{
    if models.len() == 0 {
        Seq::empty()
    } else if models.len() == 1 {
        json_quoted_bytes(models[0])
    } else {
        spec_arr_items(models.drop_last()) + seq![44u8] + json_quoted_bytes(models.last())
    }
}

fn push_plain_ascii(out: &mut Vec<u8>, s: &str)
    requires
        s@ =~= "\"enabled\":"@ || s@ =~= "true"@ || s@ =~= "false"@ || s@ =~= ",\"models\":["@ || s@
            =~= ",\"apiBase\":"@,
    ensures
        final(out)@ == old(out)@ + s@.map(|i: int, c: char| c as u8),
{
    proof {
        reveal_strlit("\"enabled\":");
        reveal_strlit("true");
        reveal_strlit("false");
        reveal_strlit(",\"models\":[");
        reveal_strlit(",\"apiBase\":");
    }
    let n = s.unicode_len();
    let mut i: usize = 0;
    while i < n
        invariant
            n == s@.len(),
            i <= n,
            s.is_ascii(),
            out@ == old(out)@ + s@.map(|k: int, c: char| c as u8).subrange(0, i as int),
        decreases n - i,
    {
        let c = s.get_ascii(i);
        out.push(c);
        i = i + 1;
        proof {
            assert(out@ =~= old(out)@ + s@.map(|k: int, c: char| c as u8).subrange(0, i as int));
        }
    }
    proof {
        let m = s@.map(|k: int, c: char| c as u8);
        assert(m.subrange(0, m.len() as int) =~= m);
    }
}

/// Build the serialized `config/set` body.
pub fn set_config_json(enabled: bool, models: &Vec<String>, api_base: Option<&str>) -> (r: Vec<u8>)
    ensures
        r@ == spec_set_config_json(
            enabled,
            models.deep_view(),
            match api_base {
                Some(b) => Some(b@),
                None => None,
            },
        ),
{
    let ghost models_m = models.deep_view();
    let mut out: Vec<u8> = Vec::new();
    out.push(123u8);
    push_plain_ascii(&mut out, "\"enabled\":");
    if enabled {
        push_plain_ascii(&mut out, "true");
    } else {
        push_plain_ascii(&mut out, "false");
    }
    push_plain_ascii(&mut out, ",\"models\":[");
    let ghost arr_start = out@;
    let mut i: usize = 0;
    while i < models.len()
        invariant
            i <= models@.len(),
            models_m == models.deep_view(),
            out@ == arr_start + spec_arr_items(models_m.subrange(0, i as int)),
        decreases models@.len() - i,
    {
        if i > 0 {
            out.push(44u8);
        }
        let q = json_quote_bytes(models[i].as_str());
        crate::envelope::push_bytes(&mut out, q.as_slice());
        i = i + 1;
        proof {
            let cur = models_m.subrange(0, i as int);
            assert(cur.drop_last() =~~= models_m.subrange(0, i - 1));
            assert(cur.last() == models_m[i - 1]);
            assert(models_m[i - 1] == models@[i - 1]@);
            assert(out@ =~= arr_start + spec_arr_items(cur));
        }
    }
    proof {
        assert(models_m.subrange(0, models_m.len() as int) =~~= models_m);
    }
    out.push(93u8);
    match api_base {
        Some(b) => {
            push_plain_ascii(&mut out, ",\"apiBase\":");
            let q = json_quote_bytes(b);
            crate::envelope::push_bytes(&mut out, q.as_slice());
            out.push(125u8);
        },
        None => {
            out.push(125u8);
        },
    }
    proof {
        assert(out@ =~= spec_set_config_json(
            enabled,
            models_m,
            match api_base {
                Some(b) => Some(b@),
                None => None::<Seq<char>>,
            },
        ));
    }
    out
}

/// Whether a scope string names the workspace scope.
pub fn scope_is_workspace(scope: &str) -> (r: bool)
    ensures
        r == (scope@ == "workspace"@),
{
    let a = String::from_str(scope);
    let b = String::from_str("workspace");
    a == b
}

} // verus!
