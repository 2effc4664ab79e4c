//! The provider catalog: the OpenAI-compatible providers that setup offers.

use vstd::prelude::*;

use crate::error::AgentError;
use crate::text::str_eq;

verus! {

/// One provider of the catalog.
#[derive(Debug, Clone, PartialEq, Eq)]
pub struct Provider {
    /// Unique id (the `provider` value in `config.toml`).
    pub id: String,
    /// The name shown in the picker.
    pub display_name: String,
    /// OpenAI-compatible base URL, without `/v1`.
    pub endpoint: String,
    /// The default model.
    pub default_model: String,
    /// The environment variable that holds the API key.
    pub env_var: String,
    /// The keychain service name.
    pub keychain_service: String,
    /// Further models the picker offers (may be empty).
    pub extra_models: Vec<String>,
}

/// What a provider holds, as text.
pub struct ProviderView {
    pub id: Seq<char>,
    pub display_name: Seq<char>,
    pub endpoint: Seq<char>,
    pub default_model: Seq<char>,
    pub env_var: Seq<char>,
    pub keychain_service: Seq<char>,
    pub extra_models: Seq<Seq<char>>,
}

impl Provider {
    /// What the provider holds, as text.
    pub open spec fn view(self) -> ProviderView {
        ProviderView {
            id: self.id@,
            display_name: self.display_name@,
            endpoint: self.endpoint@,
            default_model: self.default_model@,
            env_var: self.env_var@,
            keychain_service: self.keychain_service@,
            extra_models: self.extra_models@.map_values(|m: String| m@),
        }
    }
}

/// A catalog entry with no extra models.
pub open spec fn entry(
    id: Seq<char>,
    display_name: Seq<char>,
    endpoint: Seq<char>,
    default_model: Seq<char>,
    env_var: Seq<char>,
    keychain_service: Seq<char>,
) -> ProviderView {
    ProviderView {
        id,
        display_name,
        endpoint,
        default_model,
        env_var,
        keychain_service,
        extra_models: Seq::empty(),
    }
}

/// The catalog, in order: DeepSeek, MiniMax, Kimi and a custom endpoint
/// (whose endpoint and model the user gives).
pub open spec fn catalog() -> Seq<ProviderView> {
    seq![
        entry("deepseek"@, "DeepSeek"@, "https://api.deepseek.com"@, "deepseek-chat"@, "DEEPSEEK_API_KEY"@, "aura-deepseek"@),
        entry("minimax"@, "MiniMax"@, "https://api.minimaxi.com"@, "MiniMax-Text-01"@, "MINIMAX_API_KEY"@, "aura-minimax"@),
        entry("kimi"@, "Kimi (Moonshot)"@, "https://api.moonshot.cn"@, "moonshot-v1-8k"@, "MOONSHOT_API_KEY"@, "aura-kimi"@),
        entry("custom"@, "Custom (OpenAI-compatible)"@, ""@, ""@, "AURA_API_KEY"@, "aura-custom"@),
    ]
}

fn provider(
    id: &str,
    display_name: &str,
    endpoint: &str,
    default_model: &str,
    env_var: &str,
    keychain_service: &str,
) -> (p: Provider)
    ensures
        p.view() == entry(id@, display_name@, endpoint@, default_model@, env_var@, keychain_service@),
{
    let p = Provider {
        id: String::from_str(id),
        display_name: String::from_str(display_name),
        endpoint: String::from_str(endpoint),
        default_model: String::from_str(default_model),
        env_var: String::from_str(env_var),
        keychain_service: String::from_str(keychain_service),
        extra_models: Vec::new(),
    };
    assert(p.extra_models@.map_values(|m: String| m@) =~= Seq::<Seq<char>>::empty());
    p
}

/// Every provider, in catalog order.
pub fn all() -> (r: Vec<Provider>)
    ensures
        r@.map_values(|p: Provider| p.view()) == catalog(),
{
    let mut r: Vec<Provider> = Vec::new();
    r.push(provider("deepseek", "DeepSeek", "https://api.deepseek.com", "deepseek-chat", "DEEPSEEK_API_KEY", "aura-deepseek"));
    r.push(provider("minimax", "MiniMax", "https://api.minimaxi.com", "MiniMax-Text-01", "MINIMAX_API_KEY", "aura-minimax"));
    r.push(provider("kimi", "Kimi (Moonshot)", "https://api.moonshot.cn", "moonshot-v1-8k", "MOONSHOT_API_KEY", "aura-kimi"));
    r.push(provider("custom", "Custom (OpenAI-compatible)", "", "", "AURA_API_KEY", "aura-custom"));
    assert(r@.map_values(|p: Provider| p.view()) =~= catalog());
    r
}

/// The index of the first provider with id `id`, if any.
pub open spec fn index_of_id(ps: Seq<ProviderView>, id: Seq<char>) -> Option<int>
    decreases ps.len(),
{
    if ps.len() == 0 {
        None
    } else if ps[0].id == id {
        Some(0)
    } else {
        match index_of_id(ps.drop_first(), id) {
            Some(i) => Some(i + 1),
            None => None,
        }
    }
}

proof fn lemma_index_of_id(ps: Seq<ProviderView>, id: Seq<char>, j: int)
    requires
        0 <= j <= ps.len(),
        forall|k: int| 0 <= k < j ==> (#[trigger] ps[k]).id != id,
    ensures
        j < ps.len() && ps[j].id == id ==> index_of_id(ps, id) == Some(j),
        j == ps.len() ==> index_of_id(ps, id) is None,
    decreases j,
{
    if j > 0 {
        lemma_index_of_id(ps.drop_first(), id, j - 1);
    }
}

fn find(ps: &Vec<Provider>, id: &str) -> (r: Option<usize>)
    ensures
        match r {
            Some(i) => i < ps@.len() && index_of_id(ps@.map_values(|p: Provider| p.view()), id@) == Some(
                i as int,
            ),
            None => index_of_id(ps@.map_values(|p: Provider| p.view()), id@) is None,
        },
{
    let ghost vs = ps@.map_values(|p: Provider| p.view());
    let mut i: usize = 0;
    while i < ps.len()
        invariant
            vs == ps@.map_values(|p: Provider| p.view()),
            i <= ps@.len(),
            forall|k: int| 0 <= k < i ==> (#[trigger] vs[k]).id != id@,
        decreases ps@.len() - i,
    {
        if str_eq(ps[i].id.as_str(), id) {
            proof {
                lemma_index_of_id(vs, id@, i as int);
            }
            return Some(i);
        }
        i = i + 1;
    }
    proof {
        lemma_index_of_id(vs, id@, i as int);
    }
    None
}

/// The text of the refusal of an unknown provider id.
pub open spec fn unknown_provider(id: Seq<char>) -> Seq<char> {
    "unknown provider: "@ + id
}

/// The provider with id `id`; an unknown id is an `UnknownTool` error.
pub fn lookup(id: &str) -> (r: Result<Provider, AgentError>)
    ensures
        match index_of_id(catalog(), id@) {
            Some(i) => r matches Ok(p) && p.view() == catalog()[i],
            None => r matches Err(AgentError::UnknownTool(m)) && m@ == unknown_provider(id@),
        },
{
    let mut ps = all();
    match find(&ps, id) {
        Some(i) => {
            let ghost v = ps@.map_values(|p: Provider| p.view());
            let p = ps.remove(i);
            assert(p.view() == v[i as int]);
            Ok(p)
        },
        None => {
            let mut m = String::from_str("unknown provider: ");
            m.append(id);
            Err(AgentError::UnknownTool(m))
        },
    }
}

/// The default `(endpoint, model, env_var)` of a provider, if the id is known.
pub fn default_for_id(id: &str) -> (r: Option<(String, String, String)>)
    ensures
        match index_of_id(catalog(), id@) {
            Some(i) => r matches Some(t) && t.0@ == catalog()[i].endpoint && t.1@ == catalog()[i].default_model
                && t.2@ == catalog()[i].env_var,
            None => r is None,
        },
{
    match lookup(id) {
        Ok(p) => Some((p.endpoint, p.default_model, p.env_var)),
        Err(_) => None,
    }
}

/// Whether some provider before `i` has the same field as provider `i`.
pub open spec fn repeats(seen: Seq<Seq<char>>, x: Seq<char>) -> bool {
    seen.contains(x)
}

/// The problems that provider `i` of `ps` adds, in order: a repeated id,
/// env var or keychain service, and a missing endpoint or model on any
/// provider but `custom`.
pub open spec fn problems_at(ps: Seq<ProviderView>, i: int) -> Seq<Seq<char>> {
    let p = ps[i];
    let before = ps.take(i);
    let ids = before.map_values(|q: ProviderView| q.id);
    let envs = before.map_values(|q: ProviderView| q.env_var);
    let svcs = before.map_values(|q: ProviderView| q.keychain_service);
    (if ids.contains(p.id) {
        seq!["duplicate id: "@ + p.id]
    } else {
        Seq::empty()
    }) + (if envs.contains(p.env_var) {
        seq!["duplicate env_var: "@ + p.env_var + " (provider "@ + p.id + ")"@]
    } else {
        Seq::empty()
    }) + (if svcs.contains(p.keychain_service) {
        seq!["duplicate keychain_service: "@ + p.keychain_service + " (provider "@ + p.id + ")"@]
    } else {
        Seq::empty()
    }) + (if p.id != "custom"@ && (p.endpoint.len() == 0 || p.default_model.len() == 0) {
        seq!["non-custom provider "@ + p.id + " must have endpoint + default_model"@]
    } else {
        Seq::empty()
    })
}

/// The problems of the first `k` providers.
pub open spec fn problems_upto(ps: Seq<ProviderView>, k: int) -> Seq<Seq<char>>
    decreases k,
{
    if k <= 0 {
        Seq::empty()
    } else {
        problems_upto(ps, k - 1) + problems_at(ps, k - 1)
    }
}

fn contains_text(v: &Vec<String>, x: &str) -> (b: bool)
    ensures
        b == v@.map_values(|s: String| s@).contains(x@),
{
    let ghost m = v@.map_values(|s: String| s@);
    let mut i: usize = 0;
    while i < v.len()
        invariant
            m == v@.map_values(|s: String| s@),
            i <= v@.len(),
            forall|k: int| 0 <= k < i ==> m[k] != x@,
        decreases v@.len() - i,
    {
        if str_eq(v[i].as_str(), x) {
            assert(m[i as int] == x@);
            return true;
        }
        i = i + 1;
    }
    false
}

/// The consistency problems of a provider list (none for a sound catalog).
pub fn catalog_problems(ps: &Vec<Provider>) -> (r: Vec<String>)
    ensures
        r@.map_values(|s: String| s@) == problems_upto(
            ps@.map_values(|p: Provider| p.view()),
            ps@.len() as int,
        ),
{
    let ghost vs = ps@.map_values(|p: Provider| p.view());
    let mut problems: Vec<String> = Vec::new();
    let mut ids: Vec<String> = Vec::new();
    let mut envs: Vec<String> = Vec::new();
    let mut svcs: Vec<String> = Vec::new();
    let mut i: usize = 0;
    while i < ps.len()
        invariant
            vs == ps@.map_values(|p: Provider| p.view()),
            i <= ps@.len(),
            problems@.map_values(|s: String| s@) == problems_upto(vs, i as int),
            ids@.map_values(|s: String| s@) == vs.take(i as int).map_values(|q: ProviderView| q.id),
            envs@.map_values(|s: String| s@) == vs.take(i as int).map_values(|q: ProviderView| q.env_var),
            svcs@.map_values(|s: String| s@) == vs.take(i as int).map_values(
                |q: ProviderView| q.keychain_service,
            ),
        decreases ps@.len() - i,
    {
        let p = &ps[i];
        let ghost before = problems@.map_values(|s: String| s@);
        let ghost pv = vs[i as int];
        let mut added: Vec<String> = Vec::new();
        if contains_text(&ids, p.id.as_str()) {
            let mut m = String::from_str("duplicate id: ");
            m.append(p.id.as_str());
            added.push(m);
        }
        if contains_text(&envs, p.env_var.as_str()) {
            let mut m = String::from_str("duplicate env_var: ");
            m.append(p.env_var.as_str());
            m.append(" (provider ");
            m.append(p.id.as_str());
            m.append(")");
            added.push(m);
        }
        if contains_text(&svcs, p.keychain_service.as_str()) {
            let mut m = String::from_str("duplicate keychain_service: ");
            m.append(p.keychain_service.as_str());
            m.append(" (provider ");
            m.append(p.id.as_str());
            m.append(")");
            added.push(m);
        }
        if !str_eq(p.id.as_str(), "custom") && (p.endpoint.unicode_len() == 0
            || p.default_model.unicode_len() == 0) {
            let mut m = String::from_str("non-custom provider ");
            m.append(p.id.as_str());
            m.append(" must have endpoint + default_model");
            added.push(m);
        }
        assert(added@.map_values(|s: String| s@) =~= problems_at(vs, i as int));
        let ghost a = added@.map_values(|s: String| s@);
        problems.append(&mut added);
        assert(problems@.map_values(|s: String| s@) =~= before + a);
        let ghost ids0 = ids@.map_values(|s: String| s@);
        let ghost envs0 = envs@.map_values(|s: String| s@);
        let ghost svcs0 = svcs@.map_values(|s: String| s@);
        ids.push(p.id.clone());
        envs.push(p.env_var.clone());
        svcs.push(p.keychain_service.clone());
        proof {
            assert(pv.id == p.id@ && pv.env_var == p.env_var@);
            assert(ids@.map_values(|s: String| s@) =~= ids0.push(pv.id));
            assert(envs@.map_values(|s: String| s@) =~= envs0.push(pv.env_var));
            assert(pv.keychain_service == p.keychain_service@);
            assert(svcs@.map_values(|s: String| s@) =~= svcs0.push(pv.keychain_service));
            assert(vs.take(i + 1) =~= vs.take(i as int).push(pv));
            assert(ids@.map_values(|s: String| s@) =~= vs.take(i + 1).map_values(|q: ProviderView| q.id));
            assert(envs@.map_values(|s: String| s@) =~= vs.take(i + 1).map_values(|q: ProviderView| q.env_var));
            assert(svcs@.map_values(|s: String| s@) =~= vs.take(i + 1).map_values(
                |q: ProviderView| q.keychain_service,
            ));
        }
        i = i + 1;
    }
    problems
}

/// The consistency problems of the catalog: repeated ids, env vars or
/// keychain services, and providers other than `custom` without endpoint or
/// model.
pub fn validate_invariants() -> (r: Vec<String>)
    ensures
        r@.map_values(|s: String| s@) == problems_upto(catalog(), 4),
{
    let ps = all();
    catalog_problems(&ps)
}

/// The catalog is consistent: ids, env vars and keychain services are all
/// different, and every provider but `custom` has an endpoint and a model.
pub proof fn law_catalog_is_consistent()
    ensures
        problems_upto(catalog(), 4) == Seq::<Seq<char>>::empty(),
{
    reveal_strlit("deepseek");
    reveal_strlit("minimax");
    reveal_strlit("kimi");
    reveal_strlit("custom");
    reveal_strlit("DEEPSEEK_API_KEY");
    reveal_strlit("MINIMAX_API_KEY");
    reveal_strlit("MOONSHOT_API_KEY");
    reveal_strlit("AURA_API_KEY");
    reveal_strlit("aura-deepseek");
    reveal_strlit("aura-minimax");
    reveal_strlit("aura-kimi");
    reveal_strlit("aura-custom");
    reveal_strlit("https://api.deepseek.com");
    reveal_strlit("https://api.minimaxi.com");
    reveal_strlit("https://api.moonshot.cn");
    reveal_strlit("deepseek-chat");
    reveal_strlit("MiniMax-Text-01");
    reveal_strlit("moonshot-v1-8k");
    let c = catalog();
    assert forall|i: int| 0 <= i < 4 implies problems_at(c, i) == Seq::<Seq<char>>::empty() by {
        let before = c.take(i);
        assert("DEEPSEEK_API_KEY"@[0] != "MOONSHOT_API_KEY"@[0]);
        assert forall|k: int| 0 <= k < i implies c[k].id != c[i].id && c[k].env_var != c[i].env_var
            && c[k].keychain_service != c[i].keychain_service by {
            assert(c[k].keychain_service.len() != c[i].keychain_service.len());
            assert(c[k].id.len() != c[i].id.len() || c[k].id[0] != c[i].id[0]);
            assert(c[k].env_var.len() != c[i].env_var.len() || c[k].env_var[0] != c[i].env_var[0]);
        }
        assert(!before.map_values(|q: ProviderView| q.id).contains(c[i].id));
        assert(!before.map_values(|q: ProviderView| q.env_var).contains(c[i].env_var));
        assert(!before.map_values(|q: ProviderView| q.keychain_service).contains(c[i].keychain_service));
        assert(problems_at(c, i) =~= Seq::<Seq<char>>::empty());
    }
    assert(problems_upto(c, 0) =~= Seq::<Seq<char>>::empty());
    assert(problems_at(c, 0) =~= Seq::<Seq<char>>::empty());
    assert(problems_upto(c, 1) =~= Seq::<Seq<char>>::empty());
    assert(problems_upto(c, 2) =~= Seq::<Seq<char>>::empty());
    assert(problems_upto(c, 3) =~= Seq::<Seq<char>>::empty());
    assert(problems_upto(c, 4) =~= Seq::<Seq<char>>::empty());
}

} // verus!
