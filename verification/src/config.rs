use vstd::prelude::*;
use vstd::string::*;
use crate::text::{str_eq, join2, join3, copy_str};
use crate::user;

verus! {

/// The process environment, as pairs of variable name and value, taken once at startup.
pub struct EnvSnapshot {
    pub vars: Vec<(String, String)>,
}

impl View for EnvSnapshot {
    type V = Seq<(Seq<char>, Seq<char>)>;

    open spec fn view(&self) -> Seq<(Seq<char>, Seq<char>)> {
        self.vars.deep_view()
    }
}

/// The value of the first variable named `name`.
pub open spec fn env_lookup(vars: Seq<(Seq<char>, Seq<char>)>, name: Seq<char>) -> Option<Seq<char>>
    decreases vars.len(),
{
    if vars.len() == 0 {
        None
    } else if vars[0].0 == name {
        Some(vars[0].1)
    } else {
        env_lookup(vars.drop_first(), name)
    }
}

impl EnvSnapshot {
    /// The value of variable `name`, if set.
    pub fn get(&self, name: &str) -> (r: Option<&str>)
        ensures
            r.deep_view() == env_lookup(self@, name@),
    {
        let ghost vs = self@;
        let mut i: usize = 0;
        assert(vs.skip(0) =~= vs);
        while i < self.vars.len()
            invariant
                vs == self@,
                vs.len() == self.vars@.len(),
                0 <= i <= vs.len(),
                env_lookup(vs, name@) == env_lookup(vs.skip(i as int), name@),
            decreases self.vars.len() - i,
        {
            let ghost rest = vs.skip(i as int);
            assert(rest.len() > 0);
            assert(rest[0] == vs[i as int]);
            assert(vs[i as int] == (self.vars@[i as int].0@, self.vars@[i as int].1@));
            if str_eq(self.vars[i].0.as_str(), name) {
                return Some(self.vars[i].1.as_str());
            }
            assert(rest.drop_first() =~= vs.skip(i + 1));
            i = i + 1;
        }
        None
    }
}

/// A configuration error, with its message.
#[derive(Debug)]
pub struct ConfigError {
    pub message: String,
}

/// The message for an unset variable.
pub open spec fn not_set_message(var: Seq<char>) -> Seq<char> {
    "env var '"@ + var + "' is not set"@
}

/// The message for a variable whose value cannot be read as the expected type,
/// followed by the parser's own error text.
pub open spec fn unparsable_message(var: Seq<char>, error: Seq<char>) -> Seq<char> {
    "env var '"@ + var + "' could not be parsed: "@ + error
}

/// A configuration value given either inline or by naming an environment variable.
#[derive(Debug, Clone)]
pub enum EnvOr<T> {
    Value(T),
    Env { var: String },
}

/// The model of a configuration result.
pub open spec fn config_view<T: View>(r: Result<T, ConfigError>) -> Result<T::V, Seq<char>> {
    match r {
        Ok(v) => Ok(v@),
        Err(e) => Err(e.message@),
    }
}

/// A text setting resolved against the environment.
pub open spec fn spec_resolve_text(v: EnvOr<String>, env: Seq<(Seq<char>, Seq<char>)>) -> Result<Seq<char>, Seq<char>> {
    match v {
        EnvOr::Value(s) => Ok(s@),
        EnvOr::Env { var } => match env_lookup(env, var@) {
            Some(s) => Ok(s),
            None => Err(not_set_message(var@)),
        },
    }
}

/// A setting read from text by `parse`, resolved against the environment.
pub open spec fn spec_resolve_parsed<T>(v: EnvOr<T>, env: Seq<(Seq<char>, Seq<char>)>, parse: spec_fn(Seq<char>) -> Result<T, Seq<char>>) -> Result<T, Seq<char>> {
    match v {
        EnvOr::Value(x) => Ok(x),
        EnvOr::Env { var } => match env_lookup(env, var@) {
            None => Err(not_set_message(var@)),
            Some(s) => match parse(s) {
                Ok(x) => Ok(x),
                Err(e) => Err(unparsable_message(var@, e)),
            },
        },
    }
}

/// `str::parse::<bool>`: exactly `true` and `false`.
pub open spec fn bool_parse(s: Seq<char>) -> Option<bool> {
    if s == "true"@ {
        Some(true)
    } else if s == "false"@ {
        Some(false)
    } else {
        None
    }
}

/// Names what `str::parse::<u32>` reads from a text, or the text of the error it reports.
pub uninterp spec fn u32_parse(s: Seq<char>) -> Result<u32, Seq<char>>;

/// Trusted: `str::parse::<u32>`, claimed to give what `u32_parse` names: the number,
/// or the error's text.
#[verifier::external_body]
fn parse_u32(s: &str) -> (r: Result<u32, String>)
    ensures
        match r {
            Ok(v) => u32_parse(s@) == Ok::<u32, Seq<char>>(v),
            Err(m) => u32_parse(s@) == Err::<u32, Seq<char>>(m@),
        },
{
    s.parse::<u32>().map_err(|e| e.to_string())
}

/// Names the text of the error `str::parse::<bool>` reports for a text.
pub uninterp spec fn bool_parse_error(s: Seq<char>) -> Seq<char>;

/// Trusted: the text of the error `str::parse::<bool>` reports for `s`, claimed to be
/// the one `bool_parse_error` names; called only where parsing fails.
#[verifier::external_body]
fn bool_error_text(s: &str) -> (r: String)
    requires
        bool_parse(s@) is None,
    ensures
        r@ == bool_parse_error(s@),
{
    match s.parse::<bool>() {
        Ok(_) => String::new(),
        Err(e) => e.to_string(),
    }
}

/// `str::parse::<bool>` with its error text.
pub open spec fn bool_outcome(s: Seq<char>) -> Result<bool, Seq<char>> {
    match bool_parse(s) {
        Some(b) => Ok(b),
        None => Err(bool_parse_error(s)),
    }
}

/// `str::parse::<bool>`.
pub fn parse_bool(s: &str) -> (r: Option<bool>)
    ensures
        r == bool_parse(s@),
{
    if str_eq(s, "true") {
        Some(true)
    } else if str_eq(s, "false") {
        Some(false)
    } else {
        None
    }
}

fn not_set(var: &str) -> (e: ConfigError)
    ensures
        e.message@ == not_set_message(var@),
{
    ConfigError { message: join3("env var '", var, "' is not set") }
}

fn unparsable(var: &str, error: &str) -> (e: ConfigError)
    ensures
        e.message@ == unparsable_message(var@, error@),
{
    let head = join3("env var '", var, "' could not be parsed: ");
    ConfigError { message: join2(head.as_str(), error) }
}

/// The model of a configuration result over a plain value.
pub open spec fn plain_view<T>(r: Result<T, ConfigError>) -> Result<T, Seq<char>> {
    match r {
        Ok(v) => Ok(v),
        Err(e) => Err(e.message@),
    }
}

impl EnvOr<String> {
    /// The text, inline or from the environment.
    pub fn resolve_text(&self, env: &EnvSnapshot) -> (r: Result<String, ConfigError>)
        ensures
            config_view(r) == spec_resolve_text(*self, env@),
    {
        match self {
            EnvOr::Value(s) => Ok(copy_str(s.as_str())),
            EnvOr::Env { var } => match env.get(var.as_str()) {
                Some(s) => Ok(copy_str(s)),
                None => Err(not_set(var.as_str())),
            },
        }
    }
}

impl EnvOr<u32> {
    /// The number, inline or parsed from the environment.
    pub fn resolve_u32(&self, env: &EnvSnapshot) -> (r: Result<u32, ConfigError>)
        ensures
            plain_view(r) == spec_resolve_parsed(*self, env@, |s: Seq<char>| u32_parse(s)),
    {
        match self {
            EnvOr::Value(v) => Ok(*v),
            EnvOr::Env { var } => match env.get(var.as_str()) {
                None => Err(not_set(var.as_str())),
                Some(s) => match parse_u32(s) {
                    Ok(v) => Ok(v),
                    Err(m) => Err(unparsable(var.as_str(), m.as_str())),
                },
            },
        }
    }
}

impl EnvOr<bool> {
    /// The flag, inline or parsed from the environment.
    pub fn resolve_bool(&self, env: &EnvSnapshot) -> (r: Result<bool, ConfigError>)
        ensures
            plain_view(r) == spec_resolve_parsed(*self, env@, |s: Seq<char>| bool_outcome(s)),
    {
        match self {
            EnvOr::Value(v) => Ok(*v),
            EnvOr::Env { var } => match env.get(var.as_str()) {
                None => Err(not_set(var.as_str())),
                Some(s) => match parse_bool(s) {
                    Some(v) => Ok(v),
                    None => {
                        let m = bool_error_text(s);
                        Err(unparsable(var.as_str(), m.as_str()))
                    },
                },
            },
        }
    }
}

// ── Tier settings ────────────────────────────────────────────────────────────

/// The features of one tier, as configured.
#[derive(Debug, Clone, Copy, PartialEq, Eq, Structural)]
pub struct TierFeatures {
    pub max_projects: u32,
    pub max_storage_gb: u32,
    pub can_export: bool,
    pub api_calls_per_day: u32,
}

/// The features of every tier, as configured.
#[derive(Debug, Clone, Copy, PartialEq, Eq, Structural)]
pub struct TierConfig {
    pub free: TierFeatures,
    pub essential: TierFeatures,
    pub pro: TierFeatures,
    pub enterprise: TierFeatures,
}

/// The features of one tier, as written in the configuration.
#[derive(Debug)]
pub struct RawTierFeatures {
    pub max_projects: EnvOr<u32>,
    pub max_storage_gb: EnvOr<u32>,
    pub can_export: EnvOr<bool>,
    pub api_calls_per_day: EnvOr<u32>,
}

/// The tier section of the configuration.
#[derive(Debug)]
pub struct RawTierConfig {
    pub free: RawTierFeatures,
    pub essential: RawTierFeatures,
    pub pro: RawTierFeatures,
    pub enterprise: RawTierFeatures,
}

/// The features of a tier, resolved field by field in declaration order; the
/// first field that fails gives the error.
pub open spec fn spec_into_features(r: RawTierFeatures, env: Seq<(Seq<char>, Seq<char>)>) -> Result<TierFeatures, Seq<char>> {
    match spec_resolve_parsed(r.max_projects, env, |s: Seq<char>| u32_parse(s)) {
        Err(e) => Err(e),
        Ok(max_projects) => match spec_resolve_parsed(r.max_storage_gb, env, |s: Seq<char>| u32_parse(s)) {
            Err(e) => Err(e),
            Ok(max_storage_gb) => match spec_resolve_parsed(r.can_export, env, |s: Seq<char>| bool_outcome(s)) {
                Err(e) => Err(e),
                Ok(can_export) => match spec_resolve_parsed(r.api_calls_per_day, env, |s: Seq<char>| u32_parse(s)) {
                    Err(e) => Err(e),
                    Ok(api_calls_per_day) => Ok(TierFeatures { max_projects, max_storage_gb, can_export, api_calls_per_day }),
                },
            },
        },
    }
}

/// The tier settings, resolved tier by tier from Free to Enterprise.
pub open spec fn spec_into_tier_config(r: RawTierConfig, env: Seq<(Seq<char>, Seq<char>)>) -> Result<TierConfig, Seq<char>> {
    match spec_into_features(r.free, env) {
        Err(e) => Err(e),
        Ok(free) => match spec_into_features(r.essential, env) {
            Err(e) => Err(e),
            Ok(essential) => match spec_into_features(r.pro, env) {
                Err(e) => Err(e),
                Ok(pro) => match spec_into_features(r.enterprise, env) {
                    Err(e) => Err(e),
                    Ok(enterprise) => Ok(TierConfig { free, essential, pro, enterprise }),
                },
            },
        },
    }
}

impl RawTierFeatures {
    pub fn into_features(self, env: &EnvSnapshot) -> (r: Result<TierFeatures, ConfigError>)
        ensures
            plain_view(r) == spec_into_features(self, env@),
    {
        let max_projects = match self.max_projects.resolve_u32(env) {
            Ok(v) => v,
            Err(e) => return Err(e),
        };
        let max_storage_gb = match self.max_storage_gb.resolve_u32(env) {
            Ok(v) => v,
            Err(e) => return Err(e),
        };
        let can_export = match self.can_export.resolve_bool(env) {
            Ok(v) => v,
            Err(e) => return Err(e),
        };
        let api_calls_per_day = match self.api_calls_per_day.resolve_u32(env) {
            Ok(v) => v,
            Err(e) => return Err(e),
        };
        Ok(TierFeatures { max_projects, max_storage_gb, can_export, api_calls_per_day })
    }
}

impl RawTierConfig {
    pub fn into_config(self, env: &EnvSnapshot) -> (r: Result<TierConfig, ConfigError>)
        ensures
            plain_view(r) == spec_into_tier_config(self, env@),
    {
        let free = match self.free.into_features(env) {
            Ok(v) => v,
            Err(e) => return Err(e),
        };
        let essential = match self.essential.into_features(env) {
            Ok(v) => v,
            Err(e) => return Err(e),
        };
        let pro = match self.pro.into_features(env) {
            Ok(v) => v,
            Err(e) => return Err(e),
        };
        let enterprise = match self.enterprise.into_features(env) {
            Ok(v) => v,
            Err(e) => return Err(e),
        };
        Ok(TierConfig { free, essential, pro, enterprise })
    }
}

/// The domain's view of configured features: the same four values.
pub open spec fn spec_features_from(f: TierFeatures) -> user::TierFeatures {
    user::TierFeatures {
        max_projects: f.max_projects,
        max_storage_gb: f.max_storage_gb,
        can_export: f.can_export,
        api_calls_per_day: f.api_calls_per_day,
    }
}

/// The domain's tier settings from the configured ones, tier by tier.
pub open spec fn spec_settings_from(c: TierConfig) -> user::TierSettings {
    user::TierSettings {
        free: spec_features_from(c.free),
        essential: spec_features_from(c.essential),
        pro: spec_features_from(c.pro),
        enterprise: spec_features_from(c.enterprise),
    }
}

impl From<TierFeatures> for user::TierFeatures {
    fn from(f: TierFeatures) -> (r: user::TierFeatures) {
        user::TierFeatures {
            max_projects: f.max_projects,
            max_storage_gb: f.max_storage_gb,
            can_export: f.can_export,
            api_calls_per_day: f.api_calls_per_day,
        }
    }
}

impl vstd::std_specs::convert::FromSpecImpl<TierFeatures> for user::TierFeatures {
    open spec fn obeys_from_spec() -> bool {
        true
    }

    open spec fn from_spec(f: TierFeatures) -> user::TierFeatures {
        spec_features_from(f)
    }
}

impl From<TierConfig> for user::TierSettings {
    fn from(c: TierConfig) -> (r: user::TierSettings) {
        user::TierSettings {
            free: user::TierFeatures::from(c.free),
            essential: user::TierFeatures::from(c.essential),
            pro: user::TierFeatures::from(c.pro),
            enterprise: user::TierFeatures::from(c.enterprise),
        }
    }
}

impl vstd::std_specs::convert::FromSpecImpl<TierConfig> for user::TierSettings {
    open spec fn obeys_from_spec() -> bool {
        true
    }

    open spec fn from_spec(c: TierConfig) -> user::TierSettings {
        spec_settings_from(c)
    }
}

// ── Identity provider ────────────────────────────────────────────────────────

/// The identity provider's settings.
#[derive(Debug, Clone)]
pub struct ZitadelConfig {
    pub issuer: String,
    pub client_id: String,
    pub jwks_url: String,
}

/// The identity provider section of the configuration.
#[derive(Debug)]
pub struct RawZitadelConfig {
    pub issuer: EnvOr<String>,
    pub client_id: EnvOr<String>,
    pub jwks_url: EnvOr<String>,
}

/// Model of resolved identity-provider settings: issuer, client id, JWKS URL.
pub open spec fn spec_into_zitadel(r: RawZitadelConfig, env: Seq<(Seq<char>, Seq<char>)>) -> Result<(Seq<char>, Seq<char>, Seq<char>), Seq<char>> {
    match spec_resolve_text(r.issuer, env) {
        Err(e) => Err(e),
        Ok(issuer) => match spec_resolve_text(r.client_id, env) {
            Err(e) => Err(e),
            Ok(client_id) => match spec_resolve_text(r.jwks_url, env) {
                Err(e) => Err(e),
                Ok(jwks_url) => Ok((issuer, client_id, jwks_url)),
            },
        },
    }
}

impl RawZitadelConfig {
    pub fn into_config(self, env: &EnvSnapshot) -> (r: Result<ZitadelConfig, ConfigError>)
        ensures
            spec_into_zitadel(self, env@) == (match r {
                Ok(c) => Ok((c.issuer@, c.client_id@, c.jwks_url@)),
                Err(e) => Err(e.message@),
            }),
    {
        let issuer = match self.issuer.resolve_text(env) {
            Ok(v) => v,
            Err(e) => return Err(e),
        };
        let client_id = match self.client_id.resolve_text(env) {
            Ok(v) => v,
            Err(e) => return Err(e),
        };
        let jwks_url = match self.jwks_url.resolve_text(env) {
            Ok(v) => v,
            Err(e) => return Err(e),
        };
        Ok(ZitadelConfig { issuer, client_id, jwks_url })
    }
}

// ── Database, Stripe and mail provider ───────────────────────────────────────

/// The database settings.
#[derive(Debug, Clone)]
pub struct DatabaseConfig {
    pub url: String,
    pub max_connections: u32,
}

/// The database section of the configuration.
#[derive(Debug)]
pub struct RawDatabaseConfig {
    pub url: EnvOr<String>,
    pub max_connections: EnvOr<u32>,
}

/// Model of resolved database settings: URL and pool size.
pub open spec fn spec_into_database(r: RawDatabaseConfig, env: Seq<(Seq<char>, Seq<char>)>) -> Result<(Seq<char>, u32), Seq<char>> {
    match spec_resolve_text(r.url, env) {
        Err(e) => Err(e),
        Ok(url) => match spec_resolve_parsed(r.max_connections, env, |s: Seq<char>| u32_parse(s)) {
            Err(e) => Err(e),
            Ok(n) => Ok((url, n)),
        },
    }
}

impl RawDatabaseConfig {
    pub fn into_config(self, env: &EnvSnapshot) -> (r: Result<DatabaseConfig, ConfigError>)
        ensures
            spec_into_database(self, env@) == (match r {
                Ok(c) => Ok((c.url@, c.max_connections)),
                Err(e) => Err(e.message@),
            }),
    {
        let url = match self.url.resolve_text(env) {
            Ok(v) => v,
            Err(e) => return Err(e),
        };
        let max_connections = match self.max_connections.resolve_u32(env) {
            Ok(v) => v,
            Err(e) => return Err(e),
        };
        Ok(DatabaseConfig { url, max_connections })
    }
}

/// The Stripe settings.
#[derive(Debug, Clone)]
pub struct StripeConfig {
    pub secret_key: String,
    pub webhook_secret: String,
    pub essential_price_id: String,
    pub pro_price_id: String,
    pub success_url: String,
    pub cancel_url: String,
    pub portal_return_url: String,
}

/// The Stripe section of the configuration.
#[derive(Debug)]
pub struct RawStripeConfig {
    pub secret_key: EnvOr<String>,
    pub webhook_secret: EnvOr<String>,
    pub essential_price_id: EnvOr<String>,
    pub pro_price_id: EnvOr<String>,
    pub success_url: EnvOr<String>,
    pub cancel_url: EnvOr<String>,
    pub portal_return_url: EnvOr<String>,
}

/// Text settings resolved in order; the first failure is the error.
pub open spec fn spec_resolve_texts(vs: Seq<EnvOr<String>>, env: Seq<(Seq<char>, Seq<char>)>) -> Result<Seq<Seq<char>>, Seq<char>>
    decreases vs.len(),
{
    if vs.len() == 0 {
        Ok(Seq::empty())
    } else {
        match spec_resolve_texts(vs.drop_last(), env) {
            Err(e) => Err(e),
            Ok(done) => match spec_resolve_text(vs.last(), env) {
                Err(e) => Err(e),
                Ok(x) => Ok(done.push(x)),
            },
        }
    }
}

/// The Stripe section's values in declaration order.
pub open spec fn stripe_fields(r: RawStripeConfig) -> Seq<EnvOr<String>> {
    seq![r.secret_key, r.webhook_secret, r.essential_price_id, r.pro_price_id, r.success_url, r.cancel_url, r.portal_return_url]
}

/// The values of resolved Stripe settings, in declaration order.
pub open spec fn stripe_values(c: StripeConfig) -> Seq<Seq<char>> {
    seq![c.secret_key@, c.webhook_secret@, c.essential_price_id@, c.pro_price_id@, c.success_url@, c.cancel_url@, c.portal_return_url@]
}

proof fn lemma_texts_step(vs: Seq<EnvOr<String>>, i: int, env: Seq<(Seq<char>, Seq<char>)>)
    requires
        0 <= i < vs.len(),
    ensures
        spec_resolve_texts(vs.take(i + 1), env) == match spec_resolve_texts(vs.take(i), env) {
            Err(e) => Err(e),
            Ok(done) => match spec_resolve_text(vs[i], env) {
                Err(e) => Err(e),
                Ok(x) => Ok(done.push(x)),
            },
        },
{
    assert(vs.take(i + 1).drop_last() =~= vs.take(i));
}

proof fn lemma_texts_error_stays(vs: Seq<EnvOr<String>>, j: int, env: Seq<(Seq<char>, Seq<char>)>)
    requires
        0 <= j <= vs.len(),
        spec_resolve_texts(vs.take(j), env) is Err,
    ensures
        spec_resolve_texts(vs, env) == spec_resolve_texts(vs.take(j), env),
    decreases vs.len() - j,
{
    if j < vs.len() {
        lemma_texts_step(vs, j, env);
        lemma_texts_error_stays(vs, j + 1, env);
    } else {
        assert(vs.take(j) =~= vs);
    }
}

/// Resolves text settings in order, stopping at the first failure.
fn resolve_texts(vs: &Vec<EnvOr<String>>, env: &EnvSnapshot) -> (r: Result<Vec<String>, ConfigError>)
    ensures
        match r {
            Ok(v) => spec_resolve_texts(vs@, env@) == Ok::<Seq<Seq<char>>, Seq<char>>(v.deep_view()),
            Err(e) => spec_resolve_texts(vs@, env@) is Err
                && spec_resolve_texts(vs@, env@) == Err::<Seq<Seq<char>>, Seq<char>>(e.message@),
        },
{
    let mut out: Vec<String> = Vec::new();
    let mut i: usize = 0;
    assert(vs@.take(0) =~= Seq::<EnvOr<String>>::empty());
    assert(out.deep_view() =~= Seq::<Seq<char>>::empty());
    while i < vs.len()
        invariant
            i <= vs@.len(),
            spec_resolve_texts(vs@.take(i as int), env@) == Ok::<Seq<Seq<char>>, Seq<char>>(out.deep_view()),
        decreases vs.len() - i,
    {
        proof {
            lemma_texts_step(vs@, i as int, env@);
        }
        let x = match vs[i].resolve_text(env) {
            Ok(x) => x,
            Err(e) => {
                proof {
                    lemma_texts_error_stays(vs@, i + 1, env@);
                }
                return Err(e);
            },
        };
        let ghost before = out.deep_view();
        out.push(x);
        assert(out.deep_view() =~= before.push(x@));
        i = i + 1;
    }
    assert(vs@.take(vs@.len() as int) =~= vs@);
    Ok(out)
}

impl RawStripeConfig {
    /// Resolves the Stripe section field by field in declaration order.
    pub fn into_config(self, env: &EnvSnapshot) -> (r: Result<StripeConfig, ConfigError>)
        ensures
            match r {
                Ok(c) => spec_resolve_texts(stripe_fields(self), env@) == Ok::<Seq<Seq<char>>, Seq<char>>(stripe_values(c)),
                Err(e) => spec_resolve_texts(stripe_fields(self), env@) == Err::<Seq<Seq<char>>, Seq<char>>(e.message@),
            },
    {
        let ghost fields = stripe_fields(self);
        let mut vs: Vec<EnvOr<String>> = Vec::new();
        vs.push(self.secret_key);
        vs.push(self.webhook_secret);
        vs.push(self.essential_price_id);
        vs.push(self.pro_price_id);
        vs.push(self.success_url);
        vs.push(self.cancel_url);
        vs.push(self.portal_return_url);
        assert(vs@ =~= fields);
        let mut values = match resolve_texts(&vs, env) {
            Ok(v) => v,
            Err(e) => return Err(e),
        };
        let ghost got = values.deep_view();
        assert(got.len() == 7) by {
            reveal_with_fuel(spec_resolve_texts, 8);
        }
        let portal_return_url = values.pop().unwrap();
        let cancel_url = values.pop().unwrap();
        let success_url = values.pop().unwrap();
        let pro_price_id = values.pop().unwrap();
        let essential_price_id = values.pop().unwrap();
        let webhook_secret = values.pop().unwrap();
        let secret_key = values.pop().unwrap();
        let c = StripeConfig { secret_key, webhook_secret, essential_price_id, pro_price_id, success_url, cancel_url, portal_return_url };
        assert(stripe_values(c) =~= got);
        Ok(c)
    }
}

/// The mail provider's settings.
#[derive(Debug, Clone)]
pub struct ResendConfig {
    pub api_key: String,
    pub sender_email: String,
    pub sender_name: String,
}

/// The mail provider section of the configuration.
#[derive(Debug)]
pub struct RawResendConfig {
    pub api_key: EnvOr<String>,
    pub sender_email: EnvOr<String>,
    pub sender_name: EnvOr<String>,
}

/// Model of resolved mail settings: key, sender address, sender name.
pub open spec fn spec_into_resend(r: RawResendConfig, env: Seq<(Seq<char>, Seq<char>)>) -> Result<(Seq<char>, Seq<char>, Seq<char>), Seq<char>> {
    match spec_resolve_text(r.api_key, env) {
        Err(e) => Err(e),
        Ok(api_key) => match spec_resolve_text(r.sender_email, env) {
            Err(e) => Err(e),
            Ok(sender_email) => match spec_resolve_text(r.sender_name, env) {
                Err(e) => Err(e),
                Ok(sender_name) => Ok((api_key, sender_email, sender_name)),
            },
        },
    }
}

impl RawResendConfig {
    pub fn into_config(self, env: &EnvSnapshot) -> (r: Result<ResendConfig, ConfigError>)
        ensures
            spec_into_resend(self, env@) == (match r {
                Ok(c) => Ok((c.api_key@, c.sender_email@, c.sender_name@)),
                Err(e) => Err(e.message@),
            }),
    {
        let api_key = match self.api_key.resolve_text(env) {
            Ok(v) => v,
            Err(e) => return Err(e),
        };
        let sender_email = match self.sender_email.resolve_text(env) {
            Ok(v) => v,
            Err(e) => return Err(e),
        };
        let sender_name = match self.sender_name.resolve_text(env) {
            Ok(v) => v,
            Err(e) => return Err(e),
        };
        Ok(ResendConfig { api_key, sender_email, sender_name })
    }
}

// ── Laws ─────────────────────────────────────────────────────────────────────

/// An inline value is used as written, whatever the environment holds; a
/// variable reference is resolved to the variable's value when it is set, and
/// is an error naming the variable when it is not.
pub proof fn lemma_resolve_text(v: EnvOr<String>, env: Seq<(Seq<char>, Seq<char>)>)
    ensures
        v matches EnvOr::Value(s) ==> spec_resolve_text(v, env) == Ok::<Seq<char>, Seq<char>>(s@),
        v matches EnvOr::Env { var } ==> (env_lookup(env, var@) is Some <==> spec_resolve_text(v, env) is Ok),
        v matches EnvOr::Env { var } ==> (spec_resolve_text(v, env) is Err ==> spec_resolve_text(v, env) == Err::<Seq<char>, Seq<char>>(not_set_message(var@))),
{
}

/// Configured features become the domain's settings unchanged, tier by tier.
pub proof fn lemma_settings_preserve_features(c: TierConfig, t: user::Tier)
    ensures
        user::features_of(spec_settings_from(c), t) == spec_features_from(match t {
            user::Tier::Free => c.free,
            user::Tier::Essential => c.essential,
            user::Tier::Pro => c.pro,
            user::Tier::Enterprise => c.enterprise,
        }),
{
}

} // verus!
