use vstd::prelude::*;
use crate::config::{ConfigError, EnvOr, EnvSnapshot, spec_resolve_text, spec_resolve_parsed, u32_parse};
use crate::llm::{EmbedModelConfig, ModelConfig, ModelParameters, Provider, SimpleLlmClient, spec_resolve, spec_resolve_embed};
use crate::text::{assoc, copy_str, join3, keyed, last_assoc, table_insert, unique_keys};

verus! {

// ── Raw configuration ────────────────────────────────────────────────────────

/// A chat model as configured. The temperature is given as the bit pattern of
/// an `f32`, already read.
#[derive(Debug)]
pub struct RawModel {
    pub max_tokens: Option<EnvOr<u32>>,
    pub temperature: Option<u32>,
}

/// A provider as configured: its endpoint, its key, and the models it serves.
#[derive(Debug)]
pub struct RawProvider {
    pub base_url: EnvOr<String>,
    pub key: Option<EnvOr<String>>,
    pub models: Vec<(String, RawModel)>,
    pub embed_models: Vec<String>,
}

/// The models used to summarise and embed users' interests.
#[derive(Debug)]
pub struct RawInterestsModels {
    pub summary_model: String,
    pub embed_model: String,
}

/// The LLM section of the configuration: providers by name.
#[derive(Debug)]
pub struct RawLlmConfig {
    pub providers: Vec<(String, RawProvider)>,
    pub interests: RawInterestsModels,
}

/// The resolved LLM settings: tables of providers, chat models and embedding
/// models (models named `provider:model`), and the interests models.
#[derive(Debug)]
pub struct LlmConfig {
    pub providers: Vec<(String, Provider)>,
    pub models: Vec<(String, ModelConfig)>,
    pub embed_models: Vec<(String, EmbedModelConfig)>,
    pub interests_summary_model: String,
    pub interests_embed_model: String,
}

// ── Resolution ───────────────────────────────────────────────────────────────

/// A provider with every value resolved.
pub struct ResolvedProvider {
    pub name: Seq<char>,
    pub base_url: Seq<char>,
    pub api_key: Option<Seq<char>>,
    pub models: Seq<(Seq<char>, ModelParameters)>,
    pub embed_models: Seq<Seq<char>>,
}

/// The parameters of a configured model: its token limit and temperature, nothing else.
pub open spec fn spec_model_params(m: RawModel, env: Seq<(Seq<char>, Seq<char>)>) -> Result<ModelParameters, Seq<char>> {
    match m.max_tokens {
        None => Ok(ModelParameters { max_tokens: None, temperature: m.temperature, top_p: None, frequency_penalty: None, presence_penalty: None, seed: None }),
        Some(v) => match spec_resolve_parsed(v, env, |s: Seq<char>| u32_parse(s)) {
            Err(e) => Err(e),
            Ok(n) => Ok(ModelParameters { max_tokens: Some(n), temperature: m.temperature, top_p: None, frequency_penalty: None, presence_penalty: None, seed: None }),
        },
    }
}

/// A provider's models resolved in order; the first failure is the error.
pub open spec fn spec_resolve_models(ms: Seq<(String, RawModel)>, env: Seq<(Seq<char>, Seq<char>)>) -> Result<Seq<(Seq<char>, ModelParameters)>, Seq<char>>
    decreases ms.len(),
{
    if ms.len() == 0 {
        Ok(Seq::empty())
    } else {
        match spec_resolve_models(ms.drop_last(), env) {
            Err(e) => Err(e),
            Ok(done) => match spec_model_params(ms.last().1, env) {
                Err(e) => Err(e),
                Ok(p) => Ok(done.push((ms.last().0@, p))),
            },
        }
    }
}

/// An optional key resolved: absent stays absent.
pub open spec fn spec_resolve_key(key: Option<EnvOr<String>>, env: Seq<(Seq<char>, Seq<char>)>) -> Result<Option<Seq<char>>, Seq<char>> {
    match key {
        None => Ok(None),
        Some(k) => match spec_resolve_text(k, env) {
            Err(e) => Err(e),
            Ok(s) => Ok(Some(s)),
        },
    }
}

/// A provider resolved: its key first, then its endpoint, then its models.
pub open spec fn spec_resolve_provider(name: Seq<char>, p: RawProvider, env: Seq<(Seq<char>, Seq<char>)>) -> Result<ResolvedProvider, Seq<char>> {
    match spec_resolve_key(p.key, env) {
        Err(e) => Err(e),
        Ok(api_key) => match spec_resolve_text(p.base_url, env) {
            Err(e) => Err(e),
            Ok(base_url) => match spec_resolve_models(p.models@, env) {
                Err(e) => Err(e),
                Ok(models) => Ok(ResolvedProvider {
                    name,
                    base_url,
                    api_key,
                    models,
                    embed_models: p.embed_models@.map_values(|m: String| m@),
                }),
            },
        },
    }
}

/// The providers resolved in order; the first failure is the error.
pub open spec fn spec_resolve_providers(ps: Seq<(String, RawProvider)>, env: Seq<(Seq<char>, Seq<char>)>) -> Result<Seq<ResolvedProvider>, Seq<char>>
    decreases ps.len(),
{
    if ps.len() == 0 {
        Ok(Seq::empty())
    } else {
        match spec_resolve_providers(ps.drop_last(), env) {
            Err(e) => Err(e),
            Ok(done) => match spec_resolve_provider(ps.last().0@, ps.last().1, env) {
                Err(e) => Err(e),
                Ok(p) => Ok(done.push(p)),
            },
        }
    }
}

proof fn lemma_models_error_stays(ms: Seq<(String, RawModel)>, j: int, env: Seq<(Seq<char>, Seq<char>)>)
    requires
        0 <= j <= ms.len(),
        spec_resolve_models(ms.take(j), env) is Err,
    ensures
        spec_resolve_models(ms, env) == spec_resolve_models(ms.take(j), env),
    decreases ms.len() - j,
{
    if j < ms.len() {
        assert(ms.take(j + 1).drop_last() =~= ms.take(j));
        lemma_models_error_stays(ms, j + 1, env);
    } else {
        assert(ms.take(j) =~= ms);
    }
}

proof fn lemma_providers_error_stays(ps: Seq<(String, RawProvider)>, j: int, env: Seq<(Seq<char>, Seq<char>)>)
    requires
        0 <= j <= ps.len(),
        spec_resolve_providers(ps.take(j), env) is Err,
    ensures
        spec_resolve_providers(ps, env) == spec_resolve_providers(ps.take(j), env),
    decreases ps.len() - j,
{
    if j < ps.len() {
        assert(ps.take(j + 1).drop_last() =~= ps.take(j));
        lemma_providers_error_stays(ps, j + 1, env);
    } else {
        assert(ps.take(j) =~= ps);
    }
}

/// A provider's settings once resolved.
struct ProviderSettings {
    name: String,
    base_url: String,
    api_key: Option<String>,
    models: Vec<(String, ModelParameters)>,
    embed_models: Vec<String>,
}

spec fn settings_view(s: ProviderSettings) -> ResolvedProvider {
    ResolvedProvider {
        name: s.name@,
        base_url: s.base_url@,
        api_key: s.api_key.deep_view(),
        models: s.models@.map_values(|m: (String, ModelParameters)| (m.0@, m.1)),
        embed_models: s.embed_models@.map_values(|m: String| m@),
    }
}

spec fn settings_views(s: Seq<ProviderSettings>) -> Seq<ResolvedProvider> {
    s.map_values(|x: ProviderSettings| settings_view(x))
}

fn copy_strings(v: &Vec<String>) -> (r: Vec<String>)
    ensures
        r@.map_values(|m: String| m@) == v@.map_values(|m: String| m@),
{
    let mut out: Vec<String> = Vec::new();
    let mut i: usize = 0;
    assert(out@.map_values(|m: String| m@) =~= v@.take(0).map_values(|m: String| m@));
    while i < v.len()
        invariant
            i <= v@.len(),
            out@.map_values(|m: String| m@) == v@.take(i as int).map_values(|m: String| m@),
        decreases v.len() - i,
    {
        let ghost before = out@;
        let c = copy_str(v[i].as_str());
        out.push(c);
        assert(out@ =~= before.push(c));
        assert(out@.map_values(|m: String| m@) =~= before.map_values(|m: String| m@).push(v@[i as int]@));
        assert(v@.take(i + 1).map_values(|m: String| m@) =~= v@.take(i as int).map_values(|m: String| m@).push(v@[i as int]@));
        i = i + 1;
    }
    assert(v@.take(v@.len() as int) =~= v@);
    out
}

fn resolve_model(m: &RawModel, env: &EnvSnapshot) -> (r: Result<ModelParameters, ConfigError>)
    ensures
        match r {
            Ok(p) => spec_model_params(*m, env@) == Ok::<ModelParameters, Seq<char>>(p),
            Err(e) => spec_model_params(*m, env@) == Err::<ModelParameters, Seq<char>>(e.message@),
        },
{
    let max_tokens = match &m.max_tokens {
        None => None,
        Some(v) => match v.resolve_u32(env) {
            Ok(n) => Some(n),
            Err(e) => return Err(e),
        },
    };
    Ok(ModelParameters { max_tokens, temperature: m.temperature, top_p: None, frequency_penalty: None, presence_penalty: None, seed: None })
}

fn resolve_provider(name: &String, p: &RawProvider, env: &EnvSnapshot) -> (r: Result<ProviderSettings, ConfigError>)
    ensures
        match r {
            Ok(s) => spec_resolve_provider(name@, *p, env@) == Ok::<ResolvedProvider, Seq<char>>(settings_view(s)),
            Err(e) => spec_resolve_provider(name@, *p, env@) == Err::<ResolvedProvider, Seq<char>>(e.message@),
        },
{
    let api_key = match &p.key {
        None => None,
        Some(k) => match k.resolve_text(env) {
            Ok(s) => Some(s),
            Err(e) => return Err(e),
        },
    };
    let base_url = match p.base_url.resolve_text(env) {
        Ok(s) => s,
        Err(e) => return Err(e),
    };
    let ghost ms = p.models@;
    let mut models: Vec<(String, ModelParameters)> = Vec::new();
    let mut j: usize = 0;
    assert(ms.take(0) =~= Seq::<(String, RawModel)>::empty());
    assert(models@.map_values(|m: (String, ModelParameters)| (m.0@, m.1)) =~= Seq::<(Seq<char>, ModelParameters)>::empty());
    while j < p.models.len()
        invariant
            ms == p.models@,
            spec_resolve_key(p.key, env@) == Ok::<Option<Seq<char>>, Seq<char>>(api_key.deep_view()),
            spec_resolve_text(p.base_url, env@) == Ok::<Seq<char>, Seq<char>>(base_url@),
            j <= ms.len(),
            spec_resolve_models(ms.take(j as int), env@)
                == Ok::<Seq<(Seq<char>, ModelParameters)>, Seq<char>>(models@.map_values(|m: (String, ModelParameters)| (m.0@, m.1))),
        decreases p.models.len() - j,
    {
        assert(ms.take(j + 1).drop_last() =~= ms.take(j as int));
        let params = match resolve_model(&p.models[j].1, env) {
            Ok(x) => x,
            Err(e) => {
                proof {
                    lemma_models_error_stays(ms, j + 1, env@);
                }
                return Err(e);
            },
        };
        let ghost before = models@;
        models.push((copy_str(p.models[j].0.as_str()), params));
        assert(models@.map_values(|m: (String, ModelParameters)| (m.0@, m.1))
            =~= before.map_values(|m: (String, ModelParameters)| (m.0@, m.1)).push((ms[j as int].0@, params)));
        j = j + 1;
    }
    assert(ms.take(ms.len() as int) =~= ms);
    Ok(ProviderSettings {
        name: copy_str(name.as_str()),
        base_url,
        api_key,
        models,
        embed_models: copy_strings(&p.embed_models),
    })
}

fn resolve_providers(ps: &Vec<(String, RawProvider)>, env: &EnvSnapshot) -> (r: Result<Vec<ProviderSettings>, ConfigError>)
    ensures
        match r {
            Ok(v) => spec_resolve_providers(ps@, env@) == Ok::<Seq<ResolvedProvider>, Seq<char>>(settings_views(v@)),
            Err(e) => spec_resolve_providers(ps@, env@) == Err::<Seq<ResolvedProvider>, Seq<char>>(e.message@),
        },
{
    let mut out: Vec<ProviderSettings> = Vec::new();
    let mut i: usize = 0;
    assert(ps@.take(0) =~= Seq::<(String, RawProvider)>::empty());
    assert(settings_views(out@) =~= Seq::<ResolvedProvider>::empty());
    while i < ps.len()
        invariant
            i <= ps@.len(),
            spec_resolve_providers(ps@.take(i as int), env@) == Ok::<Seq<ResolvedProvider>, Seq<char>>(settings_views(out@)),
        decreases ps.len() - i,
    {
        assert(ps@.take(i + 1).drop_last() =~= ps@.take(i as int));
        let settings = match resolve_provider(&ps[i].0, &ps[i].1, env) {
            Ok(s) => s,
            Err(e) => {
                proof {
                    lemma_providers_error_stays(ps@, i + 1, env@);
                }
                return Err(e);
            },
        };
        let ghost before = out@;
        out.push(settings);
        assert(settings_views(out@) =~= settings_views(before).push(settings_view(settings)));
        i = i + 1;
    }
    assert(ps@.take(ps@.len() as int) =~= ps@);
    Ok(out)
}

// ── Tables ───────────────────────────────────────────────────────────────────

/// The name under which a provider's model is known: `provider:model`.
pub open spec fn qualified_name(provider: Seq<char>, model: Seq<char>) -> Seq<char> {
    provider + ":"@ + model
}

/// The provider table's entries, in insertion order: each provider's endpoint and key.
pub open spec fn provider_entries(rs: Seq<ResolvedProvider>) -> Seq<(Seq<char>, (Seq<char>, Option<Seq<char>>))> {
    rs.map_values(|r: ResolvedProvider| (r.name, (r.base_url, r.api_key)))
}

/// One provider's chat models, under their qualified names.
pub open spec fn model_entries_of(r: ResolvedProvider) -> Seq<(Seq<char>, (Seq<char>, ModelParameters))> {
    r.models.map_values(|m: (Seq<char>, ModelParameters)| (qualified_name(r.name, m.0), (r.name, m.1)))
}

/// The chat-model table's entries, in insertion order: provider by provider.
pub open spec fn model_entries(rs: Seq<ResolvedProvider>) -> Seq<(Seq<char>, (Seq<char>, ModelParameters))>
    decreases rs.len(),
{
    if rs.len() == 0 {
        Seq::empty()
    } else {
        model_entries(rs.drop_last()) + model_entries_of(rs.last())
    }
}

/// One provider's embedding models, under their qualified names.
pub open spec fn embed_entries_of(r: ResolvedProvider) -> Seq<(Seq<char>, Seq<char>)> {
    r.embed_models.map_values(|m: Seq<char>| (qualified_name(r.name, m), r.name))
}

/// The embedding-model table's entries, in insertion order: provider by provider.
pub open spec fn embed_entries(rs: Seq<ResolvedProvider>) -> Seq<(Seq<char>, Seq<char>)>
    decreases rs.len(),
{
    if rs.len() == 0 {
        Seq::empty()
    } else {
        embed_entries(rs.drop_last()) + embed_entries_of(rs.last())
    }
}

/// What a provider table entry holds: endpoint and key.
pub open spec fn provider_view() -> spec_fn(Provider) -> (Seq<char>, Option<Seq<char>>) {
    |p: Provider| (p.base_url@, p.api_key.deep_view())
}

/// What a chat-model table entry holds: provider name and parameters.
pub open spec fn model_view() -> spec_fn(ModelConfig) -> (Seq<char>, ModelParameters) {
    |m: ModelConfig| (m.provider_name@, m.params)
}

/// What an embedding-model table entry holds: provider name.
pub open spec fn embed_view() -> spec_fn(EmbedModelConfig) -> Seq<char> {
    |e: EmbedModelConfig| e.provider_name@
}

/// `o` with `f` applied to its value.
pub open spec fn opt_map<T, V>(o: Option<T>, f: spec_fn(T) -> V) -> Option<V> {
    match o {
        Some(x) => Some(f(x)),
        None => None,
    }
}

/// A table with unique keys that holds, under each key, what inserting `es` into a
/// map in order leaves there.
pub open spec fn table_agrees<T, V>(t: Seq<(String, T)>, f: spec_fn(T) -> V, es: Seq<(Seq<char>, V)>) -> bool {
    &&& unique_keys(keyed(t))
    &&& forall|k: Seq<char>| #[trigger] opt_map(assoc(keyed(t), k), f) == last_assoc(es, k)
}

proof fn lemma_agrees_empty<T, V>(t: Seq<(String, T)>, f: spec_fn(T) -> V)
    requires
        t.len() == 0,
    ensures
        table_agrees(t, f, Seq::empty()),
{
    assert forall|k: Seq<char>| #[trigger] opt_map(assoc(keyed(t), k), f) == last_assoc(Seq::<(Seq<char>, V)>::empty(), k) by {
        assert(keyed(t).len() == 0);
    }
}

proof fn lemma_agrees_insert<T, V>(
    old_t: Seq<(String, T)>,
    new_t: Seq<(String, T)>,
    f: spec_fn(T) -> V,
    es: Seq<(Seq<char>, V)>,
    key: Seq<char>,
    v: T,
)
    requires
        table_agrees(old_t, f, es),
        unique_keys(keyed(new_t)),
        forall|k: Seq<char>| #[trigger] assoc(keyed(new_t), k)
            == if k == key { Some(v) } else { assoc(keyed(old_t), k) },
    ensures
        table_agrees(new_t, f, es.push((key, f(v)))),
{
    let es2 = es.push((key, f(v)));
    assert(es2.drop_last() =~= es);
    assert forall|k: Seq<char>| #[trigger] opt_map(assoc(keyed(new_t), k), f) == last_assoc(es2, k) by {
        assert(assoc(keyed(new_t), k) == if k == key { Some(v) } else { assoc(keyed(old_t), k) });
        if k != key {
            assert(opt_map(assoc(keyed(old_t), k), f) == last_assoc(es, k));
        }
    }
}

proof fn lemma_take_last<T>(s: Seq<T>, i: int)
    requires
        0 <= i < s.len(),
    ensures
        s.take(i + 1).drop_last() == s.take(i),
        s.take(i + 1).last() == s[i],
{
    assert(s.take(i + 1).drop_last() =~= s.take(i));
}

fn insert_models(
    table: &mut Vec<(String, ModelConfig)>,
    settings: &ProviderSettings,
    Ghost(before): Ghost<Seq<(Seq<char>, (Seq<char>, ModelParameters))>>,
)
    requires
        table_agrees(old(table)@, model_view(), before),
    ensures
        table_agrees(final(table)@, model_view(), before + model_entries_of(settings_view(*settings))),
{
    let ghost all = model_entries_of(settings_view(*settings));
    let mut j: usize = 0;
    assert(before + all.take(0) =~= before);
    while j < settings.models.len()
        invariant
            all == model_entries_of(settings_view(*settings)),
            all.len() == settings.models@.len(),
            j <= all.len(),
            table_agrees(table@, model_view(), before + all.take(j as int)),
        decreases settings.models.len() - j,
    {
        let key = join3(settings.name.as_str(), ":", settings.models[j].0.as_str());
        let config = ModelConfig { provider_name: copy_str(settings.name.as_str()), params: settings.models[j].1 };
        let ghost old_t = table@;
        let ghost kv = key@;
        let ghost cv = config;
        table_insert(table, key, config);
        proof {
            lemma_agrees_insert(old_t, table@, model_view(), before + all.take(j as int), kv, cv);
            assert(before + all.take(j + 1) =~= (before + all.take(j as int)).push((kv, model_view()(cv))));
        }
        j = j + 1;
    }
    assert(all.take(all.len() as int) =~= all);
}

fn insert_embed_models(
    table: &mut Vec<(String, EmbedModelConfig)>,
    settings: &ProviderSettings,
    Ghost(before): Ghost<Seq<(Seq<char>, Seq<char>)>>,
)
    requires
        table_agrees(old(table)@, embed_view(), before),
    ensures
        table_agrees(final(table)@, embed_view(), before + embed_entries_of(settings_view(*settings))),
{
    let ghost all = embed_entries_of(settings_view(*settings));
    let mut j: usize = 0;
    assert(before + all.take(0) =~= before);
    while j < settings.embed_models.len()
        invariant
            all == embed_entries_of(settings_view(*settings)),
            all.len() == settings.embed_models@.len(),
            j <= all.len(),
            table_agrees(table@, embed_view(), before + all.take(j as int)),
        decreases settings.embed_models.len() - j,
    {
        let key = join3(settings.name.as_str(), ":", settings.embed_models[j].as_str());
        let config = EmbedModelConfig { provider_name: copy_str(settings.name.as_str()) };
        let ghost old_t = table@;
        let ghost kv = key@;
        let ghost cv = config;
        table_insert(table, key, config);
        proof {
            lemma_agrees_insert(old_t, table@, embed_view(), before + all.take(j as int), kv, cv);
            assert(before + all.take(j + 1) =~= (before + all.take(j as int)).push((kv, embed_view()(cv))));
        }
        j = j + 1;
    }
    assert(all.take(all.len() as int) =~= all);
}

/// The three tables built from resolved providers.
struct Tables {
    providers: Vec<(String, Provider)>,
    models: Vec<(String, ModelConfig)>,
    embed_models: Vec<(String, EmbedModelConfig)>,
}

fn build_tables(rs: &Vec<ProviderSettings>) -> (t: Tables)
    ensures
        table_agrees(t.providers@, provider_view(), provider_entries(settings_views(rs@))),
        table_agrees(t.models@, model_view(), model_entries(settings_views(rs@))),
        table_agrees(t.embed_models@, embed_view(), embed_entries(settings_views(rs@))),
{
    let ghost views = settings_views(rs@);
    let mut providers: Vec<(String, Provider)> = Vec::new();
    let mut models: Vec<(String, ModelConfig)> = Vec::new();
    let mut embed_models: Vec<(String, EmbedModelConfig)> = Vec::new();
    proof {
        lemma_agrees_empty(providers@, provider_view());
        lemma_agrees_empty(models@, model_view());
        lemma_agrees_empty(embed_models@, embed_view());
        assert(views.take(0) =~= Seq::<ResolvedProvider>::empty());
        assert(provider_entries(views.take(0)) =~= Seq::<(Seq<char>, (Seq<char>, Option<Seq<char>>))>::empty());
    }
    let mut i: usize = 0;
    while i < rs.len()
        invariant
            views == settings_views(rs@),
            views.len() == rs@.len(),
            i <= views.len(),
            table_agrees(providers@, provider_view(), provider_entries(views.take(i as int))),
            table_agrees(models@, model_view(), model_entries(views.take(i as int))),
            table_agrees(embed_models@, embed_view(), embed_entries(views.take(i as int))),
        decreases rs.len() - i,
    {
        let settings = &rs[i];
        proof {
            lemma_take_last(views, i as int);
            assert(views[i as int] == settings_view(*settings));
        }
        let provider = Provider {
            base_url: copy_str(settings.base_url.as_str()),
            api_key: crate::text::copy_opt_str(&settings.api_key),
        };
        let ghost old_p = providers@;
        let ghost pv = provider;
        let name = copy_str(settings.name.as_str());
        let ghost nv = name@;
        table_insert(&mut providers, name, provider);
        proof {
            lemma_agrees_insert(old_p, providers@, provider_view(), provider_entries(views.take(i as int)), nv, pv);
            assert(provider_entries(views.take(i + 1))
                =~= provider_entries(views.take(i as int)).push((nv, provider_view()(pv))));
        }
        insert_models(&mut models, settings, Ghost(model_entries(views.take(i as int))));
        insert_embed_models(&mut embed_models, settings, Ghost(embed_entries(views.take(i as int))));
        i = i + 1;
    }
    assert(views.take(views.len() as int) =~= views);
    Tables { providers, models, embed_models }
}

impl RawLlmConfig {
    /// Resolves the LLM section: providers in order (each one's key, then its
    /// endpoint, then its models' token limits), failing at the first value that
    /// cannot be resolved; then fills the provider and model tables.
    pub fn into_config(self, env: &EnvSnapshot) -> (r: Result<LlmConfig, ConfigError>)
        ensures
            match r {
                Ok(c) => {
                    &&& spec_resolve_providers(self.providers@, env@) matches Ok(rs)
                    &&& table_agrees(c.providers@, provider_view(), provider_entries(rs))
                    &&& table_agrees(c.models@, model_view(), model_entries(rs))
                    &&& table_agrees(c.embed_models@, embed_view(), embed_entries(rs))
                    &&& c.interests_summary_model@ == self.interests.summary_model@
                    &&& c.interests_embed_model@ == self.interests.embed_model@
                },
                Err(e) => spec_resolve_providers(self.providers@, env@) == Err::<Seq<ResolvedProvider>, Seq<char>>(e.message@),
            },
    {
        let resolved = match resolve_providers(&self.providers, env) {
            Ok(v) => v,
            Err(e) => return Err(e),
        };
        let tables = build_tables(&resolved);
        Ok(LlmConfig {
            providers: tables.providers,
            models: tables.models,
            embed_models: tables.embed_models,
            interests_summary_model: self.interests.summary_model,
            interests_embed_model: self.interests.embed_model,
        })
    }
}

// ── Laws ─────────────────────────────────────────────────────────────────────

proof fn lemma_last_assoc_concat<V>(a: Seq<(Seq<char>, V)>, b: Seq<(Seq<char>, V)>, k: Seq<char>)
    ensures
        last_assoc(a + b, k) == match last_assoc(b, k) {
            Some(v) => Some(v),
            None => last_assoc(a, k),
        },
    decreases b.len(),
{
    if b.len() == 0 {
        assert(a + b =~= a);
    } else {
        assert((a + b).drop_last() =~= a + b.drop_last());
        assert((a + b).last() == b.last());
        lemma_last_assoc_concat(a, b.drop_last(), k);
    }
}

proof fn lemma_last_assoc_in<V>(es: Seq<(Seq<char>, V)>, k: Seq<char>)
    ensures
        last_assoc(es, k) matches Some(v) ==> exists|i: int| 0 <= i < es.len() && #[trigger] es[i] == (k, v),
    decreases es.len(),
{
    if es.len() > 0 {
        lemma_last_assoc_in(es.drop_last(), k);
        if es.last().0 != k && last_assoc(es.drop_last(), k) is Some {
            let v = last_assoc(es.drop_last(), k)->0;
            let i = choose|i: int| 0 <= i < es.drop_last().len() && #[trigger] es.drop_last()[i] == (k, v);
            assert(es[i] == (k, v));
        } else if es.last().0 == k {
            assert(es[es.len() - 1] == (k, es.last().1));
        }
    }
}

proof fn lemma_model_provider_known(rs: Seq<ResolvedProvider>, k: Seq<char>)
    ensures
        last_assoc(model_entries(rs), k) matches Some(m) ==> last_assoc(provider_entries(rs), m.0) is Some,
    decreases rs.len(),
{
    if rs.len() > 0 {
        let front = rs.drop_last();
        let r = rs.last();
        lemma_model_provider_known(front, k);
        lemma_last_assoc_concat(model_entries(front), model_entries_of(r), k);
        assert(provider_entries(rs) =~= provider_entries(front).push((r.name, (r.base_url, r.api_key))));
        assert(provider_entries(rs).drop_last() =~= provider_entries(front));
        lemma_last_assoc_in(model_entries_of(r), k);
    }
}

proof fn lemma_embed_provider_known(rs: Seq<ResolvedProvider>, k: Seq<char>)
    ensures
        last_assoc(embed_entries(rs), k) matches Some(pn) ==> last_assoc(provider_entries(rs), pn) is Some,
    decreases rs.len(),
{
    if rs.len() > 0 {
        let front = rs.drop_last();
        let r = rs.last();
        lemma_embed_provider_known(front, k);
        lemma_last_assoc_concat(embed_entries(front), embed_entries_of(r), k);
        assert(provider_entries(rs) =~= provider_entries(front).push((r.name, (r.base_url, r.api_key))));
        assert(provider_entries(rs).drop_last() =~= provider_entries(front));
        lemma_last_assoc_in(embed_entries_of(r), k);
    }
}

/// With tables filled from a resolved configuration, a chat model resolves exactly
/// when it was configured (as `provider:model`), to the provider it was configured
/// under and with the parameters configured for it: the provider of a configured
/// model is never unknown.
pub proof fn lemma_configured_models_resolve(client: SimpleLlmClient, rs: Seq<ResolvedProvider>, k: Seq<char>)
    requires
        table_agrees(client.providers@, provider_view(), provider_entries(rs)),
        table_agrees(client.models@, model_view(), model_entries(rs)),
    ensures
        spec_resolve(client, k) is Ok <==> last_assoc(model_entries(rs), k) is Some,
        spec_resolve(client, k) matches Ok((p, mc)) ==> {
            &&& last_assoc(model_entries(rs), k) == Some((mc.provider_name@, mc.params))
            &&& last_assoc(provider_entries(rs), mc.provider_name@) == Some(provider_view()(p))
        },
{
    assert(opt_map(assoc(keyed(client.models@), k), model_view()) == last_assoc(model_entries(rs), k));
    lemma_model_provider_known(rs, k);
    match assoc(keyed(client.models@), k) {
        Some(mc) => {
            assert(opt_map(assoc(keyed(client.providers@), mc.provider_name@), provider_view())
                == last_assoc(provider_entries(rs), mc.provider_name@));
        },
        None => {},
    }
}

/// With tables filled from a resolved configuration, an embedding model resolves
/// exactly when it was configured, to the provider it was configured under.
pub proof fn lemma_configured_embed_models_resolve(client: SimpleLlmClient, rs: Seq<ResolvedProvider>, k: Seq<char>)
    requires
        table_agrees(client.providers@, provider_view(), provider_entries(rs)),
        table_agrees(client.embed_models@, embed_view(), embed_entries(rs)),
    ensures
        spec_resolve_embed(client, k) is Ok <==> last_assoc(embed_entries(rs), k) is Some,
        spec_resolve_embed(client, k) matches Ok(p) ==> exists|pn: Seq<char>| {
            &&& last_assoc(embed_entries(rs), k) == Some(pn)
            &&& last_assoc(provider_entries(rs), pn) == Some(provider_view()(p))
        },
{
    assert(opt_map(assoc(keyed(client.embed_models@), k), embed_view()) == last_assoc(embed_entries(rs), k));
    lemma_embed_provider_known(rs, k);
    match assoc(keyed(client.embed_models@), k) {
        Some(ec) => {
            assert(opt_map(assoc(keyed(client.providers@), ec.provider_name@), provider_view())
                == last_assoc(provider_entries(rs), ec.provider_name@));
        },
        None => {},
    }
}

/// A model's parameters set at most its token limit and temperature.
pub open spec fn limit_and_temperature_only(p: ModelParameters) -> bool {
    &&& p.top_p is None
    &&& p.frequency_penalty is None
    &&& p.presence_penalty is None
    &&& p.seed is None
}

proof fn lemma_resolved_models_plain(ms: Seq<(String, RawModel)>, env: Seq<(Seq<char>, Seq<char>)>)
    ensures
        spec_resolve_models(ms, env) matches Ok(out) ==> forall|j: int| 0 <= j < out.len()
            ==> limit_and_temperature_only(#[trigger] out[j].1),
    decreases ms.len(),
{
    if ms.len() > 0 {
        lemma_resolved_models_plain(ms.drop_last(), env);
    }
}

/// Configured models never set `top_p`, a frequency or presence penalty, or a seed:
/// every model of a resolved configuration carries at most its token limit and
/// temperature.
pub proof fn lemma_configured_models_plain(ps: Seq<(String, RawProvider)>, env: Seq<(Seq<char>, Seq<char>)>)
    ensures
        spec_resolve_providers(ps, env) matches Ok(rs) ==> forall|i: int, j: int|
            0 <= i < rs.len() && 0 <= j < rs[i].models.len()
            ==> limit_and_temperature_only(#[trigger] rs[i].models[j].1),
    decreases ps.len(),
{
    if ps.len() > 0 {
        lemma_configured_models_plain(ps.drop_last(), env);
        lemma_resolved_models_plain(ps.last().1.models@, env);
        if let Ok(rs) = spec_resolve_providers(ps, env) {
            let front = spec_resolve_providers(ps.drop_last(), env)->Ok_0;
            assert forall|i: int, j: int| 0 <= i < rs.len() && 0 <= j < rs[i].models.len()
                implies limit_and_temperature_only(#[trigger] rs[i].models[j].1) by {
                if i < front.len() {
                    assert(rs[i] == front[i]);
                }
            }
        }
    }
}

} // verus!
