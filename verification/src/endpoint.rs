//! Registration and discovery of RPC endpoints.
//!
//! A host application registers the remote hosts it can reach (socket path,
//! auth token, capability set) in a registry; resolvers look them up by name
//! or by capability. Registering a name that already exists overwrites the
//! old entry: the last registration wins.

use vstd::prelude::*;

verus! {

use vstd::string::StringExecFns;

/// A named remote host reachable over the RPC wire protocol.
pub struct RpcEndpoint {
    /// Human-readable name, such as `vscode`.
    pub name: String,
    /// Path of the Unix socket or named pipe.
    pub socket_path: String,
    /// Token sent with every authenticated request.
    pub auth_token: String,
    /// What the host supports, such as `secrets` or `config`.
    pub capabilities: Vec<String>,
}

/// An endpoint as a plain value.
pub struct EndpointModel {
    pub name: Seq<char>,
    pub socket_path: Seq<char>,
    pub auth_token: Seq<char>,
    pub capabilities: Seq<Seq<char>>,
}

pub open spec fn endpoint_model(e: RpcEndpoint) -> EndpointModel {
    EndpointModel {
        name: e.name@,
        socket_path: e.socket_path@,
        auth_token: e.auth_token@,
        capabilities: e.capabilities.deep_view(),
    }
}

fn clone_strings(v: &Vec<String>) -> (r: Vec<String>)
    ensures
        r.deep_view() == v.deep_view(),
{
    let mut out: Vec<String> = Vec::new();
    proof {
        assert(out.deep_view() =~~= v.deep_view().subrange(0, 0));
    }
    let mut i: usize = 0;
    while i < v.len()
        invariant
            i <= v@.len(),
            out@.len() == i,
            forall|k: int| 0 <= k < i ==> out@[k]@ == v@[k]@,
        decreases v@.len() - i,
    {
        out.push(v[i].clone());
        i = i + 1;
    }
    proof {
        assert(out.deep_view() =~~= v.deep_view());
    }
    out
}

impl RpcEndpoint {
    /// Make an endpoint from its parts.
    pub fn new(name: &str, socket_path: &str, auth_token: &str, capabilities: Vec<String>) -> (r: Self)
        ensures
            r.name@ == name@,
            r.socket_path@ == socket_path@,
            r.auth_token@ == auth_token@,
            r.capabilities == capabilities,
    {
        RpcEndpoint {
            name: String::from_str(name),
            socket_path: String::from_str(socket_path),
            auth_token: String::from_str(auth_token),
            capabilities,
        }
    }

    /// Whether this endpoint supports the given capability.
    pub fn has_capability(&self, capability: &str) -> (r: bool)
        ensures
            r == self.capabilities.deep_view().contains(capability@),
    {
        let want = String::from_str(capability);
        let mut i: usize = 0;
        while i < self.capabilities.len()
            invariant
                i <= self.capabilities@.len(),
                want@ == capability@,
                forall|k: int| 0 <= k < i ==> self.capabilities.deep_view()[k] != capability@,
            decreases self.capabilities@.len() - i,
        {
            if self.capabilities[i] == want {
                proof {
                    assert(self.capabilities.deep_view()[i as int] == capability@);
                }
                return true;
            }
            i = i + 1;
        }
        proof {
            if self.capabilities.deep_view().contains(capability@) {
                let k = choose|k: int|
                    0 <= k < self.capabilities.deep_view().len()
                        && self.capabilities.deep_view()[k] == capability@;
                assert(false);
            }
        }
        false
    }

    /// Whether this endpoint supports secret storage.
    pub fn supports_secrets(&self) -> (r: bool)
        ensures
            r == self.capabilities.deep_view().contains("secrets"@),
    {
        self.has_capability("secrets")
    }

    /// Whether this endpoint supports configuration access.
    pub fn supports_config(&self) -> (r: bool)
        ensures
            r == self.capabilities.deep_view().contains("config"@),
    {
        self.has_capability("config")
    }
}

impl Clone for RpcEndpoint {
    fn clone(&self) -> (r: Self)
        ensures
            endpoint_model(r) == endpoint_model(*self),
    {
        let r = RpcEndpoint {
            name: self.name.clone(),
            socket_path: self.socket_path.clone(),
            auth_token: self.auth_token.clone(),
            capabilities: clone_strings(&self.capabilities),
        };
        proof {
            assert(endpoint_model(r) == endpoint_model(*self));
        }
        r
    }
}

/// The first entry with the given name, as a model.
pub open spec fn spec_find(s: Seq<RpcEndpoint>, name: Seq<char>) -> Option<EndpointModel>
    decreases s.len(),
{
    if s.len() == 0 {
        None
    } else if s[0].name@ == name {
        Some(endpoint_model(s[0]))
    } else {
        spec_find(s.drop_first(), name)
    }
}

pub open spec fn names_unique(s: Seq<RpcEndpoint>) -> bool {
    forall|i: int, j: int| 0 <= i < j < s.len() ==> s[i].name@ != s[j].name@
}

proof fn lemma_find_absent(s: Seq<RpcEndpoint>, name: Seq<char>)
    ensures
        (spec_find(s, name) == None::<EndpointModel>) <==> (forall|i: int|
            0 <= i < s.len() ==> (#[trigger] s[i]).name@ != name),
    decreases s.len(),
{
    if s.len() > 0 {
        lemma_find_absent(s.drop_first(), name);
        if s[0].name@ != name {
            if spec_find(s, name) is None {
                assert forall|i: int| 0 <= i < s.len() implies (#[trigger] s[i]).name@ != name by {
                    if i > 0 {
                        assert(s.drop_first()[i - 1] == s[i]);
                    }
                }
            } else {
                let i = choose|i: int|
                    0 <= i < s.drop_first().len() && (#[trigger] s.drop_first()[i]).name@ == name;
                assert(s[i + 1].name@ == name);
            }
        }
    }
}

proof fn lemma_find_at(s: Seq<RpcEndpoint>, name: Seq<char>, i: int)
    requires
        names_unique(s),
        0 <= i < s.len(),
        s[i].name@ == name,
    ensures
        spec_find(s, name) == Some(endpoint_model(s[i])),
    decreases s.len(),
{
    if i == 0 {
    } else {
        assert(s[0].name@ != name);
        assert(s.drop_first()[i - 1] == s[i]);
        lemma_find_at(s.drop_first(), name, i - 1);
    }
}

/// The process-wide table of registered endpoints.
pub struct RpcEndpointRegistry {
    endpoints: Vec<RpcEndpoint>,
}

impl RpcEndpointRegistry {
    /// The registry's invariant: registered names are unique. Every
    /// constructor establishes it and every operation preserves it.
    pub closed spec fn inv(&self) -> bool {
        names_unique(self.endpoints@)
    }

    /// What the registry holds under a name.
    pub closed spec fn spec_get(&self, name: Seq<char>) -> Option<EndpointModel> {
        spec_find(self.endpoints@, name)
    }

    /// How many endpoints are registered.
    pub closed spec fn spec_len(&self) -> nat {
        self.endpoints@.len()
    }

    /// The registered names, in registration order.
    pub closed spec fn spec_names(&self) -> Seq<Seq<char>> {
        self.endpoints@.map(|i: int, e: RpcEndpoint| e.name@)
    }

    /// Make an empty registry.
    pub fn new() -> (r: Self)
        ensures
            r.inv(),
            r.spec_len() == 0,
            forall|n: Seq<char>| r.spec_get(n) == None::<EndpointModel>,
    {
        let r = RpcEndpointRegistry { endpoints: Vec::new() };
        proof {
            assert(forall|n: Seq<char>| r.spec_get(n) == None::<EndpointModel>);
        }
        r
    }

    fn index_of(&self, name: &String) -> (r: Option<usize>)
        ensures
            match r {
                Some(i) => i < self.endpoints@.len() && self.endpoints@[i as int].name@ == name@,
                None => forall|i: int|
                    0 <= i < self.endpoints@.len() ==> (#[trigger] self.endpoints@[i]).name@ != name@,
            },
    {
        let mut i: usize = 0;
        while i < self.endpoints.len()
            invariant
                i <= self.endpoints@.len(),
                forall|k: int| 0 <= k < i ==> (#[trigger] self.endpoints@[k]).name@ != name@,
            decreases self.endpoints@.len() - i,
        {
            if self.endpoints[i].name == *name {
                return Some(i);
            }
            i = i + 1;
        }
        None
    }

    /// Register an endpoint, overwriting any entry with the same name.
    pub fn register(&mut self, endpoint: RpcEndpoint)
        requires
            old(self).inv(),
        ensures
            final(self).inv(),
            final(self).spec_get(endpoint.name@) == Some(endpoint_model(endpoint)),
            forall|n: Seq<char>|
                n != endpoint.name@ ==> final(self).spec_get(n) == old(self).spec_get(n),
    {
        let ghost old_seq = self.endpoints@;
        let ghost mut removed_at: Option<int> = None;
        match self.index_of(&endpoint.name) {
            Some(i) => {
                self.endpoints.remove(i);
                proof {
                    removed_at = Some(i as int);
                    lemma_unique_remove(old_seq, i as int);
                    lemma_find_remove(old_seq, i as int, endpoint.name@);
                }
            },
            None => {
            },
        }
        let ghost mid_seq = self.endpoints@;
        proof {
            lemma_find_absent(mid_seq, endpoint.name@);
            if removed_at is None {
                assert(mid_seq == old_seq);
            }
            assert(spec_find(mid_seq, endpoint.name@) is None);
        }
        self.endpoints.push(endpoint);
        proof {
            lemma_find_push(mid_seq, endpoint, endpoint.name@);
            assert forall|n: Seq<char>| n != endpoint.name@ implies final(self).spec_get(n)
                == spec_find(old_seq, n) by {
                lemma_find_push(mid_seq, endpoint, n);
                match removed_at {
                    Some(i) => {
                        lemma_find_remove(old_seq, i, n);
                    },
                    None => {
                    },
                }
            }
            assert forall|i: int| 0 <= i < mid_seq.len() implies (#[trigger] mid_seq[i]).name@
                != endpoint.name@ by {
                lemma_find_absent(mid_seq, endpoint.name@);
            }
            lemma_unique_push(mid_seq, endpoint);
        }
    }

    /// Remove an endpoint by name, returning it if it was registered.
    pub fn unregister(&mut self, name: &str) -> (r: Option<RpcEndpoint>)
        requires
            old(self).inv(),
        ensures
            final(self).inv(),
            final(self).spec_get(name@) == None::<EndpointModel>,
            forall|n: Seq<char>| n != name@ ==> final(self).spec_get(n) == old(self).spec_get(n),
            match r {
                Some(e) => old(self).spec_get(name@) == Some(endpoint_model(e)),
                None => old(self).spec_get(name@) == None::<EndpointModel>,
            },
    {
        let ghost old_seq = self.endpoints@;
        let name_s = String::from_str(name);
        match self.index_of(&name_s) {
            Some(i) => {
                proof {
                    lemma_find_at(old_seq, name@, i as int);
                }
                let e = self.endpoints.remove(i);
                proof {
                    lemma_unique_remove(old_seq, i as int);
                    assert forall|n: Seq<char>| true implies spec_find(final(self).endpoints@, n)
                        == (if n == name@ { None } else { spec_find(old_seq, n) }) by {
                        lemma_find_remove(old_seq, i as int, n);
                        if n == name@ {
                            lemma_find_absent(old_seq.remove(i as int), n);
                            assert forall|k: int| 0 <= k < old_seq.remove(i as int).len()
                                implies (#[trigger] old_seq.remove(i as int)[k]).name@ != name@ by {
                                if k < i {
                                    assert(old_seq.remove(i as int)[k] == old_seq[k]);
                                } else {
                                    assert(old_seq.remove(i as int)[k] == old_seq[k + 1]);
                                }
                            }
                        }
                    }
                }
                Some(e)
            },
            None => {
                proof {
                    lemma_find_absent(old_seq, name@);
                }
                None
            },
        }
    }

    /// Look up an endpoint by name.
    pub fn get(&self, name: &str) -> (r: Option<&RpcEndpoint>)
        requires
            self.inv(),
        ensures
            match r {
                Some(e) => self.spec_get(name@) == Some(endpoint_model(*e)),
                None => self.spec_get(name@) == None::<EndpointModel>,
            },
    {
        let name_s = String::from_str(name);
        match self.index_of(&name_s) {
            Some(i) => {
                proof {
                    lemma_find_at(self.endpoints@, name@, i as int);
                }
                Some(&self.endpoints[i])
            },
            None => {
                proof {
                    lemma_find_absent(self.endpoints@, name@);
                }
                None
            },
        }
    }

    /// All endpoints that support a capability, in registration order.
    pub fn get_by_capability(&self, capability: &str) -> (r: Vec<RpcEndpoint>)
        requires
            self.inv(),
        ensures
            forall|k: int|
                0 <= k < r@.len() ==> (#[trigger] endpoint_model(r@[k])).capabilities.contains(
                    capability@,
                ) && self.spec_get(endpoint_model(r@[k]).name) == Some(endpoint_model(r@[k])),
            forall|n: Seq<char>|
                (#[trigger] self.spec_get(n)) is Some && self.spec_get(n)->Some_0.capabilities.contains(
                    capability@,
                ) ==> exists|k: int| 0 <= k < r@.len() && endpoint_model(r@[k]) == self.spec_get(n)->Some_0,
            forall|i: int, j: int|
                0 <= i < j < r@.len() ==> endpoint_model(r@[i]).name != endpoint_model(r@[j]).name,
    {
        let mut out: Vec<RpcEndpoint> = Vec::new();
        let mut i: usize = 0;
        while i < self.endpoints.len()
            invariant
                i <= self.endpoints@.len(),
                names_unique(self.endpoints@),
                forall|k: int|
                    0 <= k < out@.len() ==> (#[trigger] endpoint_model(out@[k])).capabilities.contains(
                        capability@,
                    ) && spec_find(self.endpoints@, endpoint_model(out@[k]).name)
                        == Some(endpoint_model(out@[k])),
                forall|k: int|
                    0 <= k < out@.len() ==> exists|j: int|
                        0 <= j < i && endpoint_model(#[trigger] out@[k]) == endpoint_model(
                            self.endpoints@[j],
                        ),
                forall|a: int, b: int|
                    0 <= a < b < out@.len() ==> endpoint_model(out@[a]).name != endpoint_model(
                        out@[b],
                    ).name,
                forall|j: int|
                    0 <= j < i && (#[trigger] self.endpoints@[j]).capabilities.deep_view().contains(
                        capability@,
                    ) ==> exists|k: int|
                        0 <= k < out@.len() && endpoint_model(out@[k]) == endpoint_model(
                            self.endpoints@[j],
                        ),
            decreases self.endpoints@.len() - i,
        {
            let ghost prev_out = out@;
            if self.endpoints[i].has_capability(capability) {
                let e = self.endpoints[i].clone();
                proof {
                    lemma_find_at(self.endpoints@, self.endpoints@[i as int].name@, i as int);
                }
                out.push(e);
                proof {
                    assert(endpoint_model(out@[out@.len() - 1]) == endpoint_model(
                        self.endpoints@[i as int],
                    ));
                    assert forall|a: int, b: int| 0 <= a < b < out@.len() implies endpoint_model(
                        out@[a],
                    ).name != endpoint_model(out@[b]).name by {
                        if b == out@.len() - 1 {
                            let j = choose|j: int|
                                0 <= j < i && endpoint_model(out@[a]) == endpoint_model(
                                    self.endpoints@[j],
                                );
                            assert(self.endpoints@[j].name@ != self.endpoints@[i as int].name@);
                        }
                    }
                }
            }
            proof {
                assert forall|j: int|
                    0 <= j < i + 1 && (#[trigger] self.endpoints@[j]).capabilities.deep_view().contains(
                        capability@,
                    ) implies exists|k: int|
                    0 <= k < out@.len() && endpoint_model(out@[k]) == endpoint_model(
                        self.endpoints@[j],
                    ) by {
                    if j < i {
                        let k = choose|k: int|
                            0 <= k < prev_out.len() && endpoint_model(prev_out[k]) == endpoint_model(
                                self.endpoints@[j],
                            );
                        assert(out@[k] == prev_out[k]);
                    } else {
                        assert(endpoint_model(out@[out@.len() - 1]) == endpoint_model(
                            self.endpoints@[j],
                        ));
                    }
                }
            }
            i = i + 1;
        }
        proof {
            assert forall|n: Seq<char>|
                (#[trigger] self.spec_get(n)) is Some && self.spec_get(n)->Some_0.capabilities.contains(
                    capability@,
                ) implies exists|k: int|
                0 <= k < out@.len() && endpoint_model(out@[k]) == self.spec_get(n)->Some_0 by {
                lemma_find_index(self.endpoints@, n);
            }
        }
        out
    }

    /// The names of all registered endpoints, in registration order.
    pub fn list(&self) -> (r: Vec<String>)
        ensures
            r.deep_view() == self.spec_names(),
            r@.len() == self.spec_len(),
    {
        let mut out: Vec<String> = Vec::new();
        let mut i: usize = 0;
        while i < self.endpoints.len()
            invariant
                i <= self.endpoints@.len(),
                out@.len() == i,
                forall|k: int| 0 <= k < i ==> out@[k]@ == (#[trigger] self.endpoints@[k]).name@,
            decreases self.endpoints@.len() - i,
        {
            out.push(self.endpoints[i].name.clone());
            i = i + 1;
        }
        proof {
            assert(out.deep_view() =~~= self.spec_names());
        }
        out
    }

    /// Whether no endpoint is registered.
    pub fn is_empty(&self) -> (r: bool)
        ensures
            r == (self.spec_len() == 0),
    {
        self.endpoints.len() == 0
    }
}

proof fn lemma_find_index(s: Seq<RpcEndpoint>, name: Seq<char>)
    requires
        spec_find(s, name) is Some,
    ensures
        exists|i: int|
            0 <= i < s.len() && (#[trigger] s[i]).name@ == name && endpoint_model(s[i])
                == spec_find(s, name)->Some_0,
    decreases s.len(),
{
    if s.len() > 0 {
        if s[0].name@ == name {
            assert(s[0].name@ == name && endpoint_model(s[0]) == spec_find(s, name)->Some_0);
        } else {
            lemma_find_index(s.drop_first(), name);
            let i = choose|i: int|
                0 <= i < s.drop_first().len() && (#[trigger] s.drop_first()[i]).name@ == name
                    && endpoint_model(s.drop_first()[i]) == spec_find(s.drop_first(), name)->Some_0;
            assert(s[i + 1] == s.drop_first()[i]);
        }
    }
}

proof fn lemma_unique_push(s: Seq<RpcEndpoint>, e: RpcEndpoint)
    requires
        names_unique(s),
        forall|i: int| 0 <= i < s.len() ==> (#[trigger] s[i]).name@ != e.name@,
    ensures
        names_unique(s.push(e)),
{
    assert forall|i: int, j: int| 0 <= i < j < s.push(e).len() implies s.push(e)[i].name@
        != s.push(e)[j].name@ by {
        if j < s.len() {
            assert(s.push(e)[i] == s[i] && s.push(e)[j] == s[j]);
        } else {
            assert(s.push(e)[i] == s[i] && s.push(e)[j] == e);
        }
    }
}

proof fn lemma_unique_remove(s: Seq<RpcEndpoint>, at: int)
    requires
        names_unique(s),
        0 <= at < s.len(),
    ensures
        names_unique(s.remove(at)),
{
    assert forall|i: int, j: int| 0 <= i < j < s.remove(at).len() implies s.remove(at)[i].name@
        != s.remove(at)[j].name@ by {
        let si = if i < at { i } else { i + 1 };
        let sj = if j < at { j } else { j + 1 };
        assert(s.remove(at)[i] == s[si] && s.remove(at)[j] == s[sj]);
    }
}

proof fn lemma_find_remove(s: Seq<RpcEndpoint>, at: int, name: Seq<char>)
    requires
        names_unique(s),
        0 <= at < s.len(),
    ensures
        spec_find(s.remove(at), name) == (if s[at].name@ == name {
            None
        } else {
            spec_find(s, name)
        }),
    decreases s.len(),
{
    if s.len() == 0 {
    } else if at == 0 {
        assert(s.remove(0) =~= s.drop_first());
        if s[0].name@ == name {
            lemma_find_absent(s.drop_first(), name);
            assert forall|i: int| 0 <= i < s.drop_first().len() implies (#[trigger] s.drop_first()[i]).name@
                != name by {
                assert(s.drop_first()[i] == s[i + 1]);
            }
        }
    } else {
        assert(s.remove(at)[0] == s[0]);
        if s[0].name@ == name {
            assert(s[at].name@ != name);
            assert(spec_find(s.remove(at), name) == Some(endpoint_model(s.remove(at)[0])));
        } else {
            assert(s.remove(at).drop_first() =~= s.drop_first().remove(at - 1));
            assert(s.drop_first()[at - 1] == s[at]);
            lemma_find_remove(s.drop_first(), at - 1, name);
        }
    }
}

proof fn lemma_find_push(s: Seq<RpcEndpoint>, e: RpcEndpoint, name: Seq<char>)
    ensures
        spec_find(s.push(e), name) == (if spec_find(s, name) is Some {
            spec_find(s, name)
        } else if e.name@ == name {
            Some(endpoint_model(e))
        } else {
            None
        }),
    decreases s.len(),
{
    if s.len() == 0 {
        assert(s.push(e)[0] == e);
        if e.name@ != name {
            assert(s.push(e).drop_first() =~= Seq::empty());
        } else {
            assert(spec_find(s.push(e), name) == Some(endpoint_model(e)));
        }
    } else {
        assert(s.push(e)[0] == s[0]);
        if s[0].name@ == name {
        } else {
            assert(s.push(e).drop_first() =~= s.drop_first().push(e));
            lemma_find_push(s.drop_first(), e, name);
        }
    }
}

// ---------------------------------------------------------------------------
// The global registry's operations, on an explicit registry value
// ---------------------------------------------------------------------------

impl RpcEndpointRegistry {
    /// A name is listed exactly when an endpoint is registered under it.
    pub proof fn lemma_listed_iff_registered(&self, name: Seq<char>)
        requires
            self.inv(),
        ensures
            self.spec_names().contains(name) <==> self.spec_get(name) is Some,
    {
        if self.spec_names().contains(name) {
            let i = choose|i: int|
                0 <= i < self.spec_names().len() && self.spec_names()[i] == name;
            lemma_find_at(self.endpoints@, name, i);
        }
        if self.spec_get(name) is Some {
            lemma_find_index(self.endpoints@, name);
            let i = choose|i: int|
                0 <= i < self.endpoints@.len() && (#[trigger] self.endpoints@[i]).name@ == name
                    && endpoint_model(self.endpoints@[i]) == spec_find(self.endpoints@, name)->Some_0;
            assert(self.spec_names()[i] == name);
        }
    }
}

/// The first of the candidate names that is registered.
pub open spec fn spec_first_registered(names: Seq<Seq<char>>, registry: &RpcEndpointRegistry) -> Option<
    Seq<char>,
>
    decreases names.len(),
{
    if names.len() == 0 {
        None
    } else if registry.spec_get(names[0]) is Some {
        Some(names[0])
    } else {
        spec_first_registered(names.drop_first(), registry)
    }
}

/// The first registered candidate names a registered endpoint.
pub proof fn lemma_first_registered_registered(names: Seq<Seq<char>>, registry: &RpcEndpointRegistry)
    ensures
        spec_first_registered(names, registry) matches Some(n) ==> registry.spec_get(n) is Some,
    decreases names.len(),
{
    if names.len() > 0 && !(registry.spec_get(names[0]) is Some) {
        lemma_first_registered_registered(names.drop_first(), registry);
    }
}

/// Register an endpoint; the last registration under a name wins.
pub fn register_rpc_endpoint(registry: &mut RpcEndpointRegistry, endpoint: RpcEndpoint)
    requires
        old(registry).inv(),
    ensures
        final(registry).inv(),
        final(registry).spec_get(endpoint.name@) == Some(endpoint_model(endpoint)),
        forall|n: Seq<char>|
            n != endpoint.name@ ==> final(registry).spec_get(n) == old(registry).spec_get(n),
{
    registry.register(endpoint);
}

/// Look up an endpoint by name.
pub fn get_rpc_endpoint<'a>(registry: &'a RpcEndpointRegistry, name: &str) -> (r: Option<
    &'a RpcEndpoint,
>)
    requires
        registry.inv(),
    ensures
        match r {
            Some(e) => registry.spec_get(name@) == Some(endpoint_model(*e)),
            None => registry.spec_get(name@) == None::<EndpointModel>,
        },
{
    registry.get(name)
}

/// All endpoints that support a capability.
pub fn get_rpc_endpoints_by_capability(registry: &RpcEndpointRegistry, capability: &str) -> (r: Vec<
    RpcEndpoint,
>)
    requires
        registry.inv(),
    ensures
        forall|k: int|
            0 <= k < r@.len() ==> (#[trigger] endpoint_model(r@[k])).capabilities.contains(capability@)
                && registry.spec_get(endpoint_model(r@[k]).name) == Some(endpoint_model(r@[k])),
        forall|n: Seq<char>|
            (#[trigger] registry.spec_get(n)) is Some && registry.spec_get(
                n,
            )->Some_0.capabilities.contains(capability@) ==> exists|k: int|
                0 <= k < r@.len() && endpoint_model(r@[k]) == registry.spec_get(n)->Some_0,
        forall|i: int, j: int|
            0 <= i < j < r@.len() ==> endpoint_model(r@[i]).name != endpoint_model(r@[j]).name,
{
    registry.get_by_capability(capability)
}

/// Remove an endpoint by name, returning it if it was registered.
pub fn unregister_rpc_endpoint(registry: &mut RpcEndpointRegistry, name: &str) -> (r: Option<
    RpcEndpoint,
>)
    requires
        old(registry).inv(),
    ensures
        final(registry).inv(),
        final(registry).spec_get(name@) == None::<EndpointModel>,
        forall|n: Seq<char>| n != name@ ==> final(registry).spec_get(n) == old(registry).spec_get(n),
        match r {
            Some(e) => old(registry).spec_get(name@) == Some(endpoint_model(e)),
            None => old(registry).spec_get(name@) == None::<EndpointModel>,
        },
{
    registry.unregister(name)
}

/// The names of all registered endpoints: exactly the registered names,
/// each once.
pub fn list_rpc_endpoints(registry: &RpcEndpointRegistry) -> (r: Vec<String>)
    ensures
        r.deep_view() == registry.spec_names(),
        r@.len() == registry.spec_len(),
{
    registry.list()
}

} // verus!
