//! The provider configuration document and its in-memory provider.
//!
//! A document holds the providers and optional defaults that the persisted
//! YAML file carries. Provider names are unique within a document, compared
//! case-insensitively: adding a name that already exists, in any casing,
//! fails with `ProviderExists`.

use vstd::prelude::*;

verus! {

use crate::casing::{lower, lower_of};
use crate::config_types::{
    provider_config_model, ConfigError, ConfigResult, DefaultSettings, ProviderConfig,
    ProviderConfigModel, ConfigSource,
};
use vstd::string::StringExecFns;

/// Providers as plain values.
pub open spec fn providers_model(v: Seq<ProviderConfig>) -> Seq<ProviderConfigModel> {
    v.map(|i: int, p: ProviderConfig| provider_config_model(p))
}

/// Whether some provider's lowercased name is `lower`.
pub open spec fn spec_name_taken(s: Seq<ProviderConfigModel>, lower: Seq<char>) -> bool {
    exists|i: int| 0 <= i < s.len() && lower_of((#[trigger] s[i]).name) == lower
}

/// The providers whose lowercased name is not `lower`, in order.
pub open spec fn spec_without_name(s: Seq<ProviderConfigModel>, lower: Seq<char>) -> Seq<
    ProviderConfigModel,
> {
    s.filter(|p: ProviderConfigModel| lower_of(p.name) != lower)
}

/// First index whose provider's lowercased name is `lower`.
fn find_provider_index(v: &Vec<ProviderConfig>, lower_name: &String) -> (r: Option<usize>)
    ensures
        match r {
            Some(i) => i < v@.len() && lower_of(v@[i as int].name@) == lower_name@,
            None => forall|i: int|
                0 <= i < v@.len() ==> lower_of((#[trigger] v@[i]).name@) != lower_name@,
        },
{
    let mut i: usize = 0;
    while i < v.len()
        invariant
            i <= v@.len(),
            forall|k: int| 0 <= k < i ==> lower_of((#[trigger] v@[k]).name@) != lower_name@,
        decreases v@.len() - i,
    {
        let low = lower(v[i].name.as_str());
        if low == *lower_name {
            return Some(i);
        }
        i = i + 1;
    }
    None
}

/// Add a provider to a list; a case-insensitive name collision fails with
/// `ProviderExists` and leaves the list unchanged.
pub fn add_provider_to(v: &mut Vec<ProviderConfig>, config: ProviderConfig) -> (r: ConfigResult<()>)
    ensures
        r is Err <==> spec_name_taken(providers_model(old(v)@), lower_of(config.name@)),
        r matches Err(e) ==> (e matches ConfigError::ProviderExists(n) && n@ == config.name@
            && final(v)@ == old(v)@),
        r is Ok ==> final(v)@ == old(v)@.push(config),
{
    let low = lower(config.name.as_str());
    match find_provider_index(v, &low) {
        Some(i) => {
            proof {
                assert(lower_of(providers_model(v@)[i as int].name) == lower_of(config.name@));
            }
            Err(ConfigError::ProviderExists(config.name))
        },
        None => {
            proof {
                if spec_name_taken(providers_model(v@), lower_of(config.name@)) {
                    let i = choose|i: int|
                        0 <= i < providers_model(v@).len() && lower_of(
                            (#[trigger] providers_model(v@)[i]).name,
                        ) == lower_of(config.name@);
                    assert(lower_of(v@[i].name@) == lower_of(config.name@));
                    assert(false);
                }
            }
            v.push(config);
            Ok(())
        },
    }
}

/// Replace the provider under a name; an absent name fails with
/// `ProviderNotFound` and leaves the list unchanged.
pub fn update_provider_in(v: &mut Vec<ProviderConfig>, name: &str, config: ProviderConfig) -> (r:
    ConfigResult<()>)
    ensures
        r is Ok <==> spec_name_taken(providers_model(old(v)@), lower_of(name@)),
        r matches Err(e) ==> (e matches ConfigError::ProviderNotFound(n) && n@ == name@ && final(v)@
            == old(v)@),
        r is Ok ==> exists|i: int|
            0 <= i < old(v)@.len() && lower_of((#[trigger] old(v)@[i]).name@) == lower_of(name@)
                && final(v)@ == old(v)@.update(i, config),
{
    let low = lower(name);
    match find_provider_index(v, &low) {
        Some(i) => {
            proof {
                assert(lower_of(providers_model(v@)[i as int].name) == lower_of(name@));
            }
            v.set(i, config);
            Ok(())
        },
        None => {
            proof {
                if spec_name_taken(providers_model(v@), lower_of(name@)) {
                    let i = choose|i: int|
                        0 <= i < providers_model(v@).len() && lower_of(
                            (#[trigger] providers_model(v@)[i]).name,
                        ) == lower_of(name@);
                    assert(lower_of(v@[i].name@) == lower_of(name@));
                    assert(false);
                }
            }
            Err(ConfigError::ProviderNotFound(String::from_str(name)))
        },
    }
}

/// Remove every provider under a name; an absent name fails with
/// `ProviderNotFound` and leaves the list unchanged.
pub fn remove_provider_from(v: &mut Vec<ProviderConfig>, name: &str) -> (r: ConfigResult<()>)
    ensures
        r is Ok <==> spec_name_taken(providers_model(old(v)@), lower_of(name@)),
        r matches Err(e) ==> (e matches ConfigError::ProviderNotFound(n) && n@ == name@ && final(v)@
            == old(v)@),
        providers_model(final(v)@) == spec_without_name(providers_model(old(v)@), lower_of(name@)),
{
    let low = lower(name);
    let ghost old_m = providers_model(v@);
    let ghost pred = |p: ProviderConfigModel| lower_of(p.name) != low@;
    let mut out: Vec<ProviderConfig> = Vec::new();
    let mut i: usize = 0;
    let mut removed_any = false;
    proof {
        assert(old_m.subrange(0, 0) =~= Seq::<ProviderConfigModel>::empty());
        reveal_with_fuel(Seq::<ProviderConfigModel>::filter, 1);
        assert(providers_model(out@) =~= old_m.subrange(0, 0).filter(pred));
    }
    while i < v.len()
        invariant
            i <= v@.len(),
            old_m == providers_model(v@),
            low@ == lower_of(name@),
            pred == (|p: ProviderConfigModel| lower_of(p.name) != low@),
            providers_model(out@) == old_m.subrange(0, i as int).filter(pred),
            removed_any == spec_name_taken(old_m.subrange(0, i as int), lower_of(name@)),
            !removed_any ==> out@.len() == i,
            !removed_any ==> forall|k: int|
                0 <= k < i ==> provider_config_model(#[trigger] out@[k]) == old_m[k],
        decreases v@.len() - i,
    {
        let ghost prev = old_m.subrange(0, i as int);
        let ghost cur = old_m.subrange(0, i + 1);
        proof {
            assert(cur.drop_last() =~= prev);
            assert(cur.last() == old_m[i as int]);
            reveal_with_fuel(Seq::<ProviderConfigModel>::filter, 2);
        }
        let this_low = lower(v[i].name.as_str());
        if this_low == low {
            removed_any = true;
            proof {
                assert(lower_of(cur[i as int].name) == lower_of(name@));
                assert(spec_name_taken(cur, lower_of(name@)));
                assert(providers_model(out@) =~= cur.filter(pred));
            }
        } else {
            out.push(v[i].clone());
            proof {
                assert(providers_model(out@) =~= prev.filter(pred).push(
                    provider_config_model(v@[i as int]),
                ));
                assert(providers_model(out@) =~= cur.filter(pred));
                if spec_name_taken(cur, lower_of(name@)) && !spec_name_taken(prev, lower_of(name@)) {
                    let k = choose|k: int|
                        0 <= k < cur.len() && lower_of((#[trigger] cur[k]).name) == lower_of(name@);
                    assert(k == i as int);
                    assert(false);
                }
                if spec_name_taken(prev, lower_of(name@)) {
                    let k = choose|k: int|
                        0 <= k < prev.len() && lower_of((#[trigger] prev[k]).name) == lower_of(name@);
                    assert(lower_of(cur[k].name) == lower_of(name@));
                }
            }
        }
        i = i + 1;
    }
    proof {
        assert(old_m.subrange(0, old_m.len() as int) =~= old_m);
    }
    if removed_any {
        *v = out;
        Ok(())
    } else {
        proof {
            assert(providers_model(out@) =~= old_m);
        }
        Err(ConfigError::ProviderNotFound(String::from_str(name)))
    }
}

/// Clone a provider list.
pub fn clone_providers(v: &Vec<ProviderConfig>) -> (r: Vec<ProviderConfig>)
    ensures
        providers_model(r@) == providers_model(v@),
        r@.len() == v@.len(),
{
    let mut out: Vec<ProviderConfig> = Vec::new();
    let mut i: usize = 0;
    while i < v.len()
        invariant
            i <= v@.len(),
            out@.len() == i,
            forall|k: int|
                0 <= k < i ==> provider_config_model(#[trigger] out@[k]) == provider_config_model(
                    v@[k],
                ),
        decreases v@.len() - i,
    {
        out.push(v[i].clone());
        i = i + 1;
    }
    proof {
        assert(providers_model(out@) =~= providers_model(v@));
    }
    out
}

/// User-level or workspace-level configuration.
#[derive(Clone, Copy, PartialEq, Eq, Structural)]
pub enum ConfigLevel {
    /// The user's global configuration.
    User,
    /// A project's own configuration.
    Workspace,
}

impl ConfigLevel {
    /// The level's name as the write-scope strings use it.
    pub fn as_str(&self) -> (r: &'static str)
        ensures
            match self {
                ConfigLevel::User => r@ == "user"@,
                ConfigLevel::Workspace => r@ == "workspace"@,
            },
    {
        match self {
            ConfigLevel::User => "user",
            ConfigLevel::Workspace => "workspace",
        }
    }
}

/// The persisted configuration document: providers and optional defaults.
/// Reading and writing the file itself is the embedding program's part; the
/// document's content and rules live here.
pub struct ConfigDocument {
    pub providers: Vec<ProviderConfig>,
    pub defaults: Option<DefaultSettings>,
}

impl ConfigDocument {
    /// An empty document.
    pub fn new() -> (r: Self)
        ensures
            r.providers@.len() == 0,
            r.defaults is None,
    {
        ConfigDocument { providers: Vec::new(), defaults: None }
    }

    /// The providers, labeled with the source for a level.
    pub fn providers_at(&self, level: ConfigLevel) -> (r: Vec<ProviderConfig>)
        ensures
            r@.len() == self.providers@.len(),
            forall|i: int|
                0 <= i < r@.len() ==> {
                    let m = provider_config_model(#[trigger] r@[i]);
                    let o = provider_config_model(self.providers@[i]);
                    m.name == o.name && m.enabled == o.enabled && m.api_base == o.api_base
                        && m.models == o.models && m.source == (match level {
                        ConfigLevel::User => ConfigSource::NativeUser,
                        ConfigLevel::Workspace => ConfigSource::NativeWorkspace,
                    })
                },
    {
        let source = match level {
            ConfigLevel::User => ConfigSource::NativeUser,
            ConfigLevel::Workspace => ConfigSource::NativeWorkspace,
        };
        let mut out: Vec<ProviderConfig> = Vec::new();
        let mut i: usize = 0;
        while i < self.providers.len()
            invariant
                i <= self.providers@.len(),
                out@.len() == i,
                source == (match level {
                    ConfigLevel::User => ConfigSource::NativeUser,
                    ConfigLevel::Workspace => ConfigSource::NativeWorkspace,
                }),
                forall|k: int|
                    0 <= k < i ==> {
                        let m = provider_config_model(#[trigger] out@[k]);
                        let o = provider_config_model(self.providers@[k]);
                        m.name == o.name && m.enabled == o.enabled && m.api_base == o.api_base
                            && m.models == o.models && m.source == source
                    },
            decreases self.providers@.len() - i,
        {
            let p = self.providers[i].clone().with_source(source);
            out.push(p);
            i = i + 1;
        }
        out
    }

    /// Add a provider; a case-insensitive name collision fails with
    /// `ProviderExists`.
    pub fn add_provider(&mut self, config: ProviderConfig) -> (r: ConfigResult<()>)
        ensures
            r is Err <==> spec_name_taken(
                providers_model(old(self).providers@),
                lower_of(config.name@),
            ),
            r matches Err(e) ==> (e matches ConfigError::ProviderExists(n) && n@ == config.name@
                && final(self).providers@ == old(self).providers@),
            r is Ok ==> final(self).providers@ == old(self).providers@.push(config),
            final(self).defaults == old(self).defaults,
    {
        add_provider_to(&mut self.providers, config)
    }

    /// Replace the provider under a name; an absent name fails with
    /// `ProviderNotFound`.
    pub fn update_provider(&mut self, name: &str, config: ProviderConfig) -> (r: ConfigResult<()>)
        ensures
            r is Ok <==> spec_name_taken(providers_model(old(self).providers@), lower_of(name@)),
            r matches Err(e) ==> (e matches ConfigError::ProviderNotFound(n) && n@ == name@
                && final(self).providers@ == old(self).providers@),
            r is Ok ==> exists|i: int|
                0 <= i < old(self).providers@.len() && lower_of(
                    (#[trigger] old(self).providers@[i]).name@,
                ) == lower_of(name@) && final(self).providers@ == old(self).providers@.update(
                    i,
                    config,
                ),
            final(self).defaults == old(self).defaults,
    {
        update_provider_in(&mut self.providers, name, config)
    }

    /// Remove the provider under a name; an absent name fails with
    /// `ProviderNotFound`.
    pub fn remove_provider(&mut self, name: &str) -> (r: ConfigResult<()>)
        ensures
            r is Ok <==> spec_name_taken(providers_model(old(self).providers@), lower_of(name@)),
            r matches Err(e) ==> (e matches ConfigError::ProviderNotFound(n) && n@ == name@),
            providers_model(final(self).providers@) == spec_without_name(
                providers_model(old(self).providers@),
                lower_of(name@),
            ),
    {
        remove_provider_from(&mut self.providers, name)
    }
}

/// In-memory configuration provider, for tests and ephemeral use.
pub struct MemoryConfigProvider {
    providers: Vec<ProviderConfig>,
}

impl MemoryConfigProvider {
    /// The held providers as plain values.
    pub closed spec fn spec_providers(&self) -> Seq<ProviderConfigModel> {
        providers_model(self.providers@)
    }

    /// An empty provider.
    pub fn new() -> (r: Self)
        ensures
            r.spec_providers().len() == 0,
    {
        let r = MemoryConfigProvider { providers: Vec::new() };
        proof {
            assert(r.spec_providers() =~= Seq::<ProviderConfigModel>::empty());
        }
        r
    }

    /// A provider holding the given configurations.
    pub fn with_providers(providers: Vec<ProviderConfig>) -> (r: Self)
        ensures
            r.spec_providers() == providers_model(providers@),
    {
        MemoryConfigProvider { providers }
    }

    /// Replace every held configuration.
    pub fn set_providers(&mut self, providers: Vec<ProviderConfig>)
        ensures
            final(self).spec_providers() == providers_model(providers@),
    {
        self.providers = providers;
    }

    /// Remove every held configuration.
    pub fn clear(&mut self)
        ensures
            final(self).spec_providers().len() == 0,
    {
        self.providers.clear();
        proof {
            assert(self.spec_providers() =~= Seq::<ProviderConfigModel>::empty());
        }
    }

    /// All held configurations.
    pub fn get_providers(&self) -> (r: Vec<ProviderConfig>)
        ensures
            providers_model(r@) == self.spec_providers(),
    {
        clone_providers(&self.providers)
    }

    /// Add a provider; a case-insensitive name collision fails with
    /// `ProviderExists`.
    pub fn add_provider(&mut self, config: ProviderConfig) -> (r: ConfigResult<()>)
        ensures
            r is Err <==> spec_name_taken(old(self).spec_providers(), lower_of(config.name@)),
            r matches Err(e) ==> (e matches ConfigError::ProviderExists(n) && n@ == config.name@
                && final(self).spec_providers() == old(self).spec_providers()),
            r is Ok ==> final(self).spec_providers() == old(self).spec_providers().push(
                provider_config_model(config),
            ),
    {
        let ghost old_m = providers_model(self.providers@);
        let r = add_provider_to(&mut self.providers, config);
        proof {
            if r is Ok {
                assert(providers_model(self.providers@) =~= old_m.push(provider_config_model(config)));
            }
        }
        r
    }

    /// Replace the provider under a name; an absent name fails with
    /// `ProviderNotFound`.
    pub fn update_provider(&mut self, name: &str, config: ProviderConfig) -> (r: ConfigResult<()>)
        ensures
            r is Ok <==> spec_name_taken(old(self).spec_providers(), lower_of(name@)),
            r matches Err(e) ==> (e matches ConfigError::ProviderNotFound(n) && n@ == name@
                && final(self).spec_providers() == old(self).spec_providers()),
            r is Ok ==> exists|i: int|
                0 <= i < old(self).spec_providers().len() && lower_of(
                    (#[trigger] old(self).spec_providers()[i]).name,
                ) == lower_of(name@) && final(self).spec_providers() == old(
                    self,
                ).spec_providers().update(i, provider_config_model(config)),
    {
        let ghost old_m = providers_model(self.providers@);
        let ghost old_seq = self.providers@;
        let r = update_provider_in(&mut self.providers, name, config);
        proof {
            if r is Ok {
                let i = choose|i: int|
                    0 <= i < old_seq.len() && lower_of((#[trigger] old_seq[i]).name@) == lower_of(
                        name@,
                    ) && self.providers@ == old_seq.update(i, config);
                assert(lower_of(old_m[i].name) == lower_of(name@));
                assert(providers_model(self.providers@) =~~= old_m.update(
                    i,
                    provider_config_model(config),
                ));
            }
        }
        r
    }

    /// Remove the provider under a name; an absent name fails with
    /// `ProviderNotFound`.
    pub fn remove_provider(&mut self, name: &str) -> (r: ConfigResult<()>)
        ensures
            r is Ok <==> spec_name_taken(old(self).spec_providers(), lower_of(name@)),
            r matches Err(e) ==> (e matches ConfigError::ProviderNotFound(n) && n@ == name@),
            final(self).spec_providers() == spec_without_name(
                old(self).spec_providers(),
                lower_of(name@),
            ),
    {
        remove_provider_from(&mut self.providers, name)
    }
}

} // verus!
