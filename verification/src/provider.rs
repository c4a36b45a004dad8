//! Credential providers: where the secret bundle of a policy comes from.

use vstd::prelude::*;

verus! {

use vstd::string::*;
use crate::kv::Pairs;
use crate::proxy_policy::ProxyPolicyAuth;

/// A resolved secret source: either a cluster secret object to fetch by
/// namespace and name, or inline data.
#[derive(Clone, Debug)]
pub enum Provider {
    Kubernetes { namespace: String, name: String },
    Raw(Vec<(String, String)>),
}

/// Mathematical shape of a `Provider`.
pub enum SpecProvider {
    Kubernetes(Seq<char>, Seq<char>),
    Raw(Pairs),
}

/// View of a provider.
pub open spec fn provider_view(p: Provider) -> SpecProvider {
    match p {
        Provider::Kubernetes { namespace, name } => SpecProvider::Kubernetes(namespace@, name@),
        Provider::Raw(data) => SpecProvider::Raw(data.deep_view()),
    }
}

/// View of a provider resolution outcome.
pub open spec fn provider_res_view(r: Result<Provider, String>) -> Result<
    SpecProvider,
    Seq<char>,
> {
    match r {
        Ok(p) => Ok(provider_view(p)),
        Err(e) => Err(e@),
    }
}

/// Which provider an auth record denotes.  Exactly one of the reference and
/// the raw data must be set; a reference must carry namespace and name.
pub open spec fn spec_provider(auth: ProxyPolicyAuth) -> Result<SpecProvider, Seq<char>> {
    match (auth.secret.reference, auth.secret.raw) {
        (Some(obj), None) => match obj.namespace {
            None => Err("namespace required"@),
            Some(ns) => match obj.name {
                None => Err("name required"@),
                Some(n) => Ok(SpecProvider::Kubernetes(ns@, n@)),
            },
        },
        (None, Some(data)) => Ok(SpecProvider::Raw(data.deep_view())),
        _ => Err("exactly one of secret reference and raw data must be set"@),
    }
}

/// Resolve the secret source declared by `auth`.
pub fn provider(auth: &ProxyPolicyAuth) -> (r: Result<Provider, String>)
    ensures
        provider_res_view(r) == spec_provider(*auth),
{
    match (&auth.secret.reference, &auth.secret.raw) {
        (Some(obj), None) => {
            let namespace = match &obj.namespace {
                Some(ns) => ns.clone(),
                None => {
                    return Err(String::from_str("namespace required"));
                }
            };
            let name = match &obj.name {
                Some(n) => n.clone(),
                None => {
                    return Err(String::from_str("name required"));
                }
            };
            Ok(Provider::Kubernetes { namespace, name })
        }
        (None, Some(data)) => Ok(Provider::Raw(crate::kv::clone_pairs(data))),
        _ => Err(String::from_str("exactly one of secret reference and raw data must be set")),
    }
}

impl Provider {
    /// Inline data carried by the provider, if it needs no fetch.
    pub fn raw_data(&self) -> (r: Option<Vec<(String, String)>>)
        ensures
            match r {
                Some(d) => self is Raw && provider_view(*self) == SpecProvider::Raw(d.deep_view()),
                None => self is Kubernetes,
            },
    {
        match self {
            Provider::Raw(data) => Some(crate::kv::clone_pairs(data)),
            Provider::Kubernetes { .. } => None,
        }
    }
}

} // verus!
