//! Read-only secret store over a snapshot of environment variables.
//!
//! A lookup key is tried three ways, first non-empty match wins: as an exact
//! variable name, through the provider-name mapping table, and as the
//! synthesized `{UPPER(key)}_API_KEY`. The snapshot is handed in by the
//! embedding program; the store itself never touches the process environment.

use vstd::prelude::*;

verus! {

use crate::casing::{lower, lower_of, upper, upper_of};
use crate::secret_types::{SecretInfo, SecretStoreError, SecretStoreResult};
use vstd::string::StringExecFns;

/// Environment variables as plain values.
pub open spec fn vars_model(v: Seq<(String, String)>) -> Seq<(Seq<char>, Seq<char>)> {
    v.map(|i: int, p: (String, String)| (p.0@, p.1@))
}

/// The first variable with the given name.
pub open spec fn spec_var_lookup(vars: Seq<(Seq<char>, Seq<char>)>, name: Seq<char>) -> Option<
    Seq<char>,
>
    decreases vars.len(),
{
    if vars.len() == 0 {
        None
    } else if vars[0].0 == name {
        Some(vars[0].1)
    } else {
        spec_var_lookup(vars.drop_first(), name)
    }
}

/// The first variable with the given name whose value is non-empty.
pub open spec fn spec_var_nonempty(vars: Seq<(Seq<char>, Seq<char>)>, name: Seq<char>) -> Option<
    Seq<char>,
> {
    match spec_var_lookup(vars, name) {
        Some(v) => if v.len() > 0 {
            Some(v)
        } else {
            None
        },
        None => None,
    }
}

/// The variable names a provider's key is stored under, tried in order.
/// `None` means the name is not in the mapping table.
pub open spec fn spec_provider_env_vars(provider_lower: Seq<char>) -> Option<Seq<Seq<char>>> {
    if provider_lower == "openai"@ {
        Some(seq!["OPENAI_API_KEY"@])
    } else if provider_lower == "anthropic"@ {
        Some(seq!["ANTHROPIC_API_KEY"@])
    } else if provider_lower == "gemini"@ || provider_lower == "google"@ {
        Some(seq!["GEMINI_API_KEY"@, "GOOGLE_API_KEY"@])
    } else if provider_lower == "mistral"@ {
        Some(seq!["MISTRAL_API_KEY"@])
    } else if provider_lower == "azure"@ {
        Some(seq!["AZURE_API_KEY"@, "AZURE_OPENAI_API_KEY"@])
    } else if provider_lower == "openrouter"@ {
        Some(seq!["OPENROUTER_API_KEY"@])
    } else if provider_lower == "ollama"@ {
        Some(Seq::empty())
    } else {
        None
    }
}

/// The first non-empty value among the given variable names.
pub open spec fn spec_first_of(vars: Seq<(Seq<char>, Seq<char>)>, names: Seq<Seq<char>>) -> Option<
    Seq<char>,
>
    decreases names.len(),
{
    if names.len() == 0 {
        None
    } else {
        match spec_var_nonempty(vars, names[0]) {
            Some(v) => Some(v),
            None => spec_first_of(vars, names.drop_first()),
        }
    }
}

/// What an environment lookup of `key` resolves to: the exact name first,
/// then the provider mapping for the lowercased key, then the synthesized
/// `{UPPER(key)}_API_KEY`; empty values never match.
pub open spec fn spec_env_get(vars: Seq<(Seq<char>, Seq<char>)>, key: Seq<char>) -> Option<
    Seq<char>,
> {
    match spec_var_nonempty(vars, key) {
        Some(v) => Some(v),
        None => {
            let mapped = match spec_provider_env_vars(lower_of(key)) {
                Some(names) => spec_first_of(vars, names),
                None => None,
            };
            match mapped {
                Some(v) => Some(v),
                None => spec_var_nonempty(vars, upper_of(key) + "_API_KEY"@),
            }
        },
    }
}

/// Secret store that reads from an environment snapshot. Read-only.
pub struct EnvSecretStore {
    vars: Vec<(String, String)>,
}

impl EnvSecretStore {
    /// The snapshot as plain values.
    pub closed spec fn spec_vars(&self) -> Seq<(Seq<char>, Seq<char>)> {
        vars_model(self.vars@)
    }

    /// Make a store over an empty snapshot.
    pub fn new() -> (r: Self)
        ensures
            r.spec_vars() == Seq::<(Seq<char>, Seq<char>)>::empty(),
    {
        let r = EnvSecretStore { vars: Vec::new() };
        proof {
            assert(r.spec_vars() =~= Seq::<(Seq<char>, Seq<char>)>::empty());
        }
        r
    }

    /// Make a store over a snapshot of variables.
    pub fn from_vars(vars: Vec<(String, String)>) -> (r: Self)
        ensures
            r.spec_vars() == vars_model(vars@),
    {
        EnvSecretStore { vars }
    }

    /// The store's name.
    pub fn name(&self) -> (r: &'static str)
        ensures
            r@ == "env"@,
    {
        "env"
    }

    /// This store can always be read.
    pub fn is_available(&self) -> (r: bool)
        ensures
            r,
    {
        true
    }

    /// The variable names a provider's key is stored under, or `None` when
    /// the provider is not in the mapping table.
    pub fn get_env_vars_for_provider(provider: &str) -> (r: Option<Vec<String>>)
        ensures
            match r {
                Some(v) => spec_provider_env_vars(lower_of(provider@)) == Some(v.deep_view()),
                None => spec_provider_env_vars(lower_of(provider@)) == None::<Seq<Seq<char>>>,
            },
    {
        let low = lower(provider);
        if low == String::from_str("openai") {
            let mut v: Vec<String> = Vec::new();
            v.push(String::from_str("OPENAI_API_KEY"));
            proof {
                assert(v.deep_view() =~~= seq!["OPENAI_API_KEY"@]);
            }
            Some(v)
        } else if low == String::from_str("anthropic") {
            let mut v: Vec<String> = Vec::new();
            v.push(String::from_str("ANTHROPIC_API_KEY"));
            proof {
                assert(v.deep_view() =~~= seq!["ANTHROPIC_API_KEY"@]);
            }
            Some(v)
        } else if low == String::from_str("gemini") || low == String::from_str("google") {
            let mut v: Vec<String> = Vec::new();
            v.push(String::from_str("GEMINI_API_KEY"));
            v.push(String::from_str("GOOGLE_API_KEY"));
            proof {
                assert(v.deep_view() =~~= seq!["GEMINI_API_KEY"@, "GOOGLE_API_KEY"@]);
            }
            Some(v)
        } else if low == String::from_str("mistral") {
            let mut v: Vec<String> = Vec::new();
            v.push(String::from_str("MISTRAL_API_KEY"));
            proof {
                assert(v.deep_view() =~~= seq!["MISTRAL_API_KEY"@]);
            }
            Some(v)
        } else if low == String::from_str("azure") {
            let mut v: Vec<String> = Vec::new();
            v.push(String::from_str("AZURE_API_KEY"));
            v.push(String::from_str("AZURE_OPENAI_API_KEY"));
            proof {
                assert(v.deep_view() =~~= seq!["AZURE_API_KEY"@, "AZURE_OPENAI_API_KEY"@]);
            }
            Some(v)
        } else if low == String::from_str("openrouter") {
            let mut v: Vec<String> = Vec::new();
            v.push(String::from_str("OPENROUTER_API_KEY"));
            proof {
                assert(v.deep_view() =~~= seq!["OPENROUTER_API_KEY"@]);
            }
            Some(v)
        } else if low == String::from_str("ollama") {
            let v: Vec<String> = Vec::new();
            proof {
                assert(v.deep_view() =~~= Seq::<Seq<char>>::empty());
            }
            Some(v)
        } else {
            None
        }
    }

    fn lookup_nonempty(&self, name: &String) -> (r: Option<String>)
        ensures
            match r {
                Some(v) => spec_var_nonempty(self.spec_vars(), name@) == Some(v@),
                None => spec_var_nonempty(self.spec_vars(), name@) == None::<Seq<char>>,
            },
    {
        let ghost vars = self.spec_vars();
        proof {
            assert(vars.skip(0) =~= vars);
        }
        let mut i: usize = 0;
        while i < self.vars.len()
            invariant
                i <= self.vars@.len(),
                vars == vars_model(self.vars@),
                spec_var_lookup(vars, name@) == spec_var_lookup(vars.skip(i as int), name@),
            decreases self.vars@.len() - i,
        {
            proof {
                assert(vars.skip(i as int)[0] == (self.vars@[i as int].0@, self.vars@[i as int].1@));
                assert(vars.skip(i as int).drop_first() =~= vars.skip(i + 1));
            }
            if self.vars[i].0 == *name {
                let v = self.vars[i].1.clone();
                if v.as_str().is_empty() {
                    return None;
                }
                return Some(v);
            }
            i = i + 1;
        }
        proof {
            assert(vars.skip(vars.len() as int) =~= Seq::<(Seq<char>, Seq<char>)>::empty());
        }
        None
    }

    /// Look a key up in the snapshot, in the resolution order described for
    /// `spec_env_get`.
    pub fn get(&self, key: &str) -> (r: Option<String>)
        ensures
            match r {
                Some(v) => spec_env_get(self.spec_vars(), key@) == Some(v@),
                None => spec_env_get(self.spec_vars(), key@) == None::<Seq<char>>,
            },
    {
        let key_s = String::from_str(key);
        if let Some(v) = self.lookup_nonempty(&key_s) {
            return Some(v);
        }
        if let Some(names) = Self::get_env_vars_for_provider(key) {
            let ghost names_m = names.deep_view();
            proof {
                assert(names_m.skip(0) =~~= names_m);
            }
            let mut i: usize = 0;
            while i < names.len()
                invariant
                    i <= names@.len(),
                    names_m == names.deep_view(),
                    spec_var_nonempty(self.spec_vars(), key@) is None,
                    spec_provider_env_vars(lower_of(key@)) == Some(names_m),
                    spec_first_of(self.spec_vars(), names_m) == spec_first_of(
                        self.spec_vars(),
                        names_m.skip(i as int),
                    ),
                decreases names@.len() - i,
            {
                proof {
                    assert(names_m.skip(i as int)[0] == names@[i as int]@);
                    assert(names_m.skip(i as int).drop_first() =~~= names_m.skip(i + 1));
                }
                if let Some(v) = self.lookup_nonempty(&names[i]) {
                    proof {
                        assert(spec_first_of(self.spec_vars(), names_m.skip(i as int)) == Some(v@));
                        assert(spec_env_get(self.spec_vars(), key@) == Some(v@));
                    }
                    return Some(v);
                }
                i = i + 1;
            }
            proof {
                assert(names_m.skip(names_m.len() as int) =~~= Seq::<Seq<char>>::empty());
                assert(spec_first_of(self.spec_vars(), names_m) == None::<Seq<char>>);
            }
        }
        let mut auto = upper(key);
        auto.append("_API_KEY");
        self.lookup_nonempty(&auto)
    }

    /// Whether the key resolves to a value.
    pub fn has(&self, key: &str) -> (r: bool)
        ensures
            r == (spec_env_get(self.spec_vars(), key@) is Some),
    {
        self.get(key).is_some()
    }

    /// Environment variables cannot be written through this store.
    pub fn store(&mut self, key: &str, value: &str) -> (r: SecretStoreResult<()>)
        ensures
            r matches Err(SecretStoreError::ReadOnly),
            *final(self) == *old(self),
    {
        Err(SecretStoreError::ReadOnly)
    }

    /// Environment variables cannot be deleted through this store.
    pub fn delete(&mut self, key: &str) -> (r: SecretStoreResult<()>)
        ensures
            r matches Err(SecretStoreError::ReadOnly),
            *final(self) == *old(self),
    {
        Err(SecretStoreError::ReadOnly)
    }

    /// Whether the key resolves, with this store's name as the source.
    pub fn get_info(&self, key: &str) -> (r: SecretInfo)
        ensures
            r.available == (spec_env_get(self.spec_vars(), key@) is Some),
            r.available ==> r.source@ == "env"@,
            !r.available ==> r.source@ == "none"@,
    {
        if self.has(key) {
            SecretInfo::new(true, "env")
        } else {
            SecretInfo::not_found()
        }
    }
}

} // verus!
