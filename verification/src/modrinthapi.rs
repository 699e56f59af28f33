//! The registry's view of one mod: side support on the client and server
//! axes and an ordered category sequence, together with the process-wide
//! cache of registry answers.

use vstd::prelude::*;
use crate::resolver::views_of;

verus! {

/// The side-support and category metadata the registry reports for a mod.
#[derive(Debug, Clone)]
pub struct ModrinthProject {
    pub client_side: String,
    pub server_side: String,
    pub categories: Vec<String>,
}

/// The plain-value content of a registry record: the two side strings and
/// the category sequence.
pub open spec fn project_view(p: ModrinthProject) -> (Seq<char>, Seq<char>, Seq<Seq<char>>) {
    (p.client_side@, p.server_side@, views_of(p.categories@))
}

/// The plain-value content of an optional registry record.
pub open spec fn opt_project_view(p: Option<ModrinthProject>) -> Option<
    (Seq<char>, Seq<char>, Seq<Seq<char>>),
> {
    match p {
        Some(r) => Some(project_view(r)),
        None => None,
    }
}

/// Declares `dashmap::DashMap`, the concurrent map the registry cache
/// holds its answers in; its contents are visible to contracts only
/// through `cache_contents`.
#[verifier::external_type_specification]
#[verifier::external_body]
#[verifier::reject_recursive_types(K)]
#[verifier::reject_recursive_types(V)]
#[verifier::reject_recursive_types(S)]
pub struct ExDashMap<K, V, S>(dashmap::DashMap<K, V, S>);

/// The dashmap instantiation the registry cache holds its answers in.
pub type AnswerMap = dashmap::DashMap<String, Option<ModrinthProject>>;

/// What the registry cache holds: for each queried mod identifier, the
/// registry's answer, where `None` records that the registry had no record.
pub uninterp spec fn cache_contents(m: AnswerMap) -> Map<Seq<char>, Option<(Seq<char>, Seq<char>, Seq<Seq<char>>)>>;

/// The cache state in which no identifier has been queried yet.
pub open spec fn no_answers() -> Map<Seq<char>, Option<(Seq<char>, Seq<char>, Seq<Seq<char>>)>> {
    Map::empty()
}

/// Relies on `dashmap::DashMap::new`: a fresh map is empty.
#[verifier::external_body]
fn dashmap_new() -> (r: AnswerMap)
    ensures
        cache_contents(r) == no_answers(),
{
    dashmap::DashMap::new()
}

/// Relies on `dashmap::DashMap::get`: it returns the value stored under
/// the key, or nothing when the key was never inserted.
#[verifier::external_body]
fn dashmap_get(m: &AnswerMap, key: &String) -> (r: Option<Option<ModrinthProject>>)
    ensures
        (r is Some) == cache_contents(*m).contains_key(key@),
        r matches Some(v) ==> cache_contents(*m)[key@] == opt_project_view(v),
{
    match m.get(key) {
        Some(entry) => Some(entry.value().clone()),
        None => None,
    }
}

/// Relies on `dashmap::DashMap::insert`: it stores the value under the
/// key, replacing any earlier value.
#[verifier::external_body]
fn dashmap_insert(m: &mut AnswerMap, key: &String, value: Option<ModrinthProject>)
    ensures
        cache_contents(*final(m)) == cache_contents(*old(m)).insert(key@, opt_project_view(value)),
{
    m.insert(key.clone(), value);
}

/// The process-wide cache of registry answers, keyed by mod identifier.
/// A present key whose value is `None` records that the registry was
/// asked and had no record, which is distinct from a key never queried.
pub struct RegistryCache {
    map: AnswerMap,
}

impl RegistryCache {
    pub closed spec fn view(&self) -> Map<Seq<char>, Option<(Seq<char>, Seq<char>, Seq<Seq<char>>)>> {
        cache_contents(self.map)
    }

    /// An empty cache: no identifier has been queried yet.
    pub fn new() -> (r: Self)
        ensures
            r@ == no_answers(),
    {
        RegistryCache { map: dashmap_new() }
    }

    /// The cached answer for a mod identifier: `None` when the identifier
    /// was never queried, `Some(None)` when the registry had no record.
    pub fn lookup(&self, mod_id: &String) -> (r: Option<Option<ModrinthProject>>)
        ensures
            (r is Some) == self@.contains_key(mod_id@),
            r matches Some(v) ==> self@[mod_id@] == opt_project_view(v),
    {
        dashmap_get(&self.map, mod_id)
    }

    /// Records the registry's answer for a mod identifier, a negative
    /// answer included.
    pub fn store(&mut self, mod_id: &String, answer: Option<ModrinthProject>)
        ensures
            final(self)@ == old(self)@.insert(mod_id@, opt_project_view(answer)),
    {
        dashmap_insert(&mut self.map, mod_id, answer)
    }
}

/// The registry resource a mod identifier is queried at: the configured
/// base endpoint joined with the fixed project path segment and the
/// identifier.
pub fn project_url(endpoint: &str, mod_id: &str) -> (r: String)
    ensures
        r@ == endpoint@ + "/project/"@ + mod_id@,
{
    let mut r = endpoint.to_owned();
    r.append("/project/");
    r.append(mod_id);
    r
}

} // verus!
