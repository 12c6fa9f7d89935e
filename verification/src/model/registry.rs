//! Which builtin model providers register, from the values the environment and the
//! secret files hold, and which of them is the default.

use crate::model::auth::{nonempty, result_view, ConsumerWebAuth, ConsumerWebConfig};
use crate::model::consumer::{ChatGptCodexProvider, ChatGptWebProvider, GrokWebProvider};
use crate::model::error::ModelError;
use crate::model::openai_compatible::OpenAiCompatibleConfig;
use crate::text::{
    chars_of, debug_strings, debug_strings_exec, list_contains, split, split_exec, string_of,
    trim, trim_exec, trim_str, views,
};
use vstd::prelude::*;

verus! {

/// How a provider authenticates to its upstream (never secrets).
#[derive(Debug, Clone, Copy, PartialEq, Eq, Structural)]
pub enum AuthKind {
    ApiKey,
    OauthAccessToken,
    BrowserSession,
}

impl AuthKind {
    /// The kind's wire name.
    pub open spec fn name(self) -> Seq<char> {
        match self {
            AuthKind::ApiKey => "api_key"@,
            AuthKind::OauthAccessToken => "oauth_access_token"@,
            AuthKind::BrowserSession => "browser_session"@,
        }
    }

    pub fn as_str(self) -> (r: &'static str)
        ensures
            r@ == self.name(),
    {
        match self {
            AuthKind::ApiKey => "api_key",
            AuthKind::OauthAccessToken => "oauth_access_token",
            AuthKind::BrowserSession => "browser_session",
        }
    }
}

/// Distinct kinds have distinct wire names.
pub proof fn lemma_auth_kind_names_distinct(a: AuthKind, b: AuthKind)
    requires
        a != b,
    ensures
        a.name() != b.name(),
{
    reveal_strlit("api_key");
    reveal_strlit("oauth_access_token");
    reveal_strlit("browser_session");
    if a.name() == b.name() {
        assert(a.name().len() == b.name().len());
        assert(a.name()[0] == b.name()[0]);
    }
}

/// Non-secret catalog entry for a model provider.
#[derive(Debug, Clone)]
pub struct ProviderDescriptor {
    pub name: String,
    pub auth_kind: AuthKind,
    pub display_name: String,
    pub default_model: String,
    /// Recommended or allowlisted model ids (empty: any model accepted).
    pub models: Vec<String>,
    pub registered: bool,
    pub supports_model_override: bool,
}

/// The names of the registered descriptors, in order.
pub open spec fn registered_names(ds: Seq<ProviderDescriptor>) -> Seq<Seq<char>>
    decreases ds.len(),
{
    if ds.len() == 0 {
        Seq::empty()
    } else {
        let prev = registered_names(ds.drop_last());
        if ds.last().registered {
            prev.push(ds.last().name@)
        } else {
            prev
        }
    }
}

/// The names of the providers that registered.
pub fn provider_names(descriptors: &[ProviderDescriptor]) -> (r: Vec<String>)
    ensures
        views(r@) == registered_names(descriptors@),
{
    let mut out: Vec<String> = Vec::new();
    let mut i: usize = 0;
    assert(descriptors@.take(0) =~= Seq::<ProviderDescriptor>::empty());
    while i < descriptors.len()
        invariant
            i <= descriptors@.len(),
            views(out@) == registered_names(descriptors@.take(i as int)),
        decreases descriptors@.len() - i,
    {
        let ghost before = views(out@);
        assert(descriptors@.take(i + 1).drop_last() =~= descriptors@.take(i as int));
        if descriptors[i].registered {
            out.push(descriptors[i].name.clone());
            assert(views(out@) =~= before.push(descriptors@[i as int].name@));
        }
        i = i + 1;
    }
    assert(descriptors@.take(i as int) =~= descriptors@);
    out
}

/// The default provider when none is named: the only one registered.
pub open spec fn unset_default(registered: Seq<Seq<char>>) -> Result<Seq<char>, Seq<char>> {
    if registered.len() == 0 {
        Err("no model providers registered"@)
    } else if registered.len() == 1 {
        Ok(registered[0])
    } else {
        Err("multiple model providers registered ("@ + debug_strings(registered)
            + "); set KERYX_DEFAULT_PROVIDER to one of them"@)
    }
}

/// The default provider when `KERYX_DEFAULT_PROVIDER` is unset or blank.
pub fn resolve_when_unset(registered: &[String]) -> (r: Result<String, String>)
    ensures
        result_view(r) == unset_default(views(registered@)),
{
    if registered.len() == 0 {
        Err(String::from_str("no model providers registered"))
    } else if registered.len() == 1 {
        Ok(registered[0].clone())
    } else {
        Err(String::from_str("multiple model providers registered (").concat(
            debug_strings_exec(registered).as_str(),
        ).concat("); set KERYX_DEFAULT_PROVIDER to one of them"))
    }
}

/// The default provider from `KERYX_DEFAULT_PROVIDER` (trimmed) when it is set and not
/// blank: never `fake`, and only a registered one.
pub open spec fn default_provider(env_value: Option<Seq<char>>, registered: Seq<Seq<char>>) -> Result<
    Seq<char>,
    Seq<char>,
> {
    match env_value {
        None => unset_default(registered),
        Some(raw) => {
            let name = trim(raw);
            if name.len() == 0 {
                unset_default(registered)
            } else if name == "fake"@ {
                Err(
                    "KERYX_DEFAULT_PROVIDER=fake is no longer supported; configure a real provider (openai, grok, openai_codex, openai_web, grok_web)"@,
                )
            } else if !registered.contains(name) {
                Err("KERYX_DEFAULT_PROVIDER='"@ + name + "' is not available (registered: "@
                    + debug_strings(registered) + ")"@)
            } else {
                Ok(name)
            }
        },
    }
}

/// Resolve the default provider from the value of `KERYX_DEFAULT_PROVIDER`, if set.
pub fn resolve_default_provider(env_value: Option<&str>, registered: &[String]) -> (r: Result<
    String,
    String,
>)
    ensures
        result_view(r) == default_provider(crate::model::auth::opt_str_view(env_value), views(registered@)),
{
    match env_value {
        None => resolve_when_unset(registered),
        Some(raw) => {
            let name = trim_str(raw);
            if name.as_str().is_empty() {
                return resolve_when_unset(registered);
            }
            if crate::text::str_eq(name.as_str(), "fake") {
                return Err(
                    String::from_str(
                        "KERYX_DEFAULT_PROVIDER=fake is no longer supported; configure a real provider (openai, grok, openai_codex, openai_web, grok_web)",
                    ),
                );
            }
            if !list_contains(registered, name.as_str()) {
                return Err(String::from_str("KERYX_DEFAULT_PROVIDER='").concat(name.as_str()).concat(
                    "' is not available (registered: ",
                ).concat(debug_strings_exec(registered).as_str()).concat(")"));
            }
            Ok(name)
        },
    }
}

/// The message when no provider has usable secrets.
pub open spec fn no_providers_message() -> Seq<char> {
    "no model providers configured. Set one of: OPENAI_API_KEY / OPENAI_API_KEY_FILE, XAI_API_KEY / XAI_API_KEY_FILE, CHATGPT_WEB_ACCESS_TOKEN (Codex sub / openai_codex), CHATGPT_WEB_COOKIE (openai_web), or GROK_WEB_COOKIE (grok_web). See docs/deploy/consumer-web-sessions.md and .env.example."@
}

/// The default provider once registration is done: none registered is an error,
/// otherwise `KERYX_DEFAULT_PROVIDER` decides among the registered names.
pub open spec fn registration_default(
    descriptors: Seq<ProviderDescriptor>,
    env_value: Option<Seq<char>>,
) -> Result<Seq<char>, Seq<char>> {
    if registered_names(descriptors).len() == 0 {
        Err(no_providers_message())
    } else {
        default_provider(env_value, registered_names(descriptors))
    }
}

/// Close registration: fail when nothing registered, else resolve the default.
pub fn finish_registration(descriptors: &[ProviderDescriptor], env_value: Option<&str>) -> (r:
    Result<String, String>)
    ensures
        result_view(r) == registration_default(
            descriptors@,
            crate::model::auth::opt_str_view(env_value),
        ),
{
    let names = provider_names(descriptors);
    if names.len() == 0 {
        return Err(
            String::from_str(
                "no model providers configured. Set one of: OPENAI_API_KEY / OPENAI_API_KEY_FILE, XAI_API_KEY / XAI_API_KEY_FILE, CHATGPT_WEB_ACCESS_TOKEN (Codex sub / openai_codex), CHATGPT_WEB_COOKIE (openai_web), or GROK_WEB_COOKIE (grok_web). See docs/deploy/consumer-web-sessions.md and .env.example.",
            ),
        );
    }
    resolve_default_provider(env_value, names.as_slice())
}

/// What performing a registered provider's requests takes.
pub enum ProviderHandle {
    Api(OpenAiCompatibleConfig),
    OpenAiWeb(ChatGptWebProvider),
    Codex(ChatGptCodexProvider),
    GrokWeb(GrokWebProvider),
}

/// The registered providers by name, their descriptors, and the default.
pub struct Registration {
    pub providers: Vec<(String, ProviderHandle)>,
    pub descriptors: Vec<ProviderDescriptor>,
    pub default_provider: String,
}

/// The providers that registered, in the order they were tried.
pub open spec fn present(found: Seq<Option<(ProviderHandle, ProviderDescriptor)>>) -> Seq<
    (ProviderHandle, ProviderDescriptor),
>
    decreases found.len(),
{
    if found.len() == 0 {
        Seq::empty()
    } else {
        present(found.drop_last()) + match found.last() {
            Some(p) => seq![p],
            None => Seq::empty(),
        }
    }
}

/// Append a provider that registered, by its descriptor's name.
fn add_found(
    providers: &mut Vec<(String, ProviderHandle)>,
    descriptors: &mut Vec<ProviderDescriptor>,
    found: Option<(ProviderHandle, ProviderDescriptor)>,
)
    ensures
        final(providers)@ == old(providers)@ + match found {
            Some(p) => seq![(final(providers)@.last().0, p.0)],
            None => Seq::empty(),
        },
        match found {
            Some(p) => final(providers)@.last().0@ == p.1.name@,
            None => true,
        },
        final(descriptors)@ == old(descriptors)@ + match found {
            Some(p) => seq![p.1],
            None => Seq::empty(),
        },
{
    if let Some((h, d)) = found {
        providers.push((String::from_str(d.name.as_str()), h));
        descriptors.push(d);
    }
}

/// `providers` and `descriptors` are those of `found`, name by name.
pub open spec fn built_from(
    providers: Seq<(String, ProviderHandle)>,
    descriptors: Seq<ProviderDescriptor>,
    found: Seq<(ProviderHandle, ProviderDescriptor)>,
) -> bool {
    &&& descriptors == found.map_values(|p: (ProviderHandle, ProviderDescriptor)| p.1)
    &&& providers.len() == found.len()
    &&& forall|i: int|
        0 <= i < found.len() ==> #[trigger] providers[i].0@ == found[i].1.name@ && providers[i].1
            == found[i].0
}

proof fn lemma_add_keeps(
    p0: Seq<(String, ProviderHandle)>,
    d0: Seq<ProviderDescriptor>,
    fs: Seq<(ProviderHandle, ProviderDescriptor)>,
    o: Option<(ProviderHandle, ProviderDescriptor)>,
    p1: Seq<(String, ProviderHandle)>,
    d1: Seq<ProviderDescriptor>,
)
    requires
        built_from(p0, d0, fs),
        p1 == p0 + match o {
            Some(p) => seq![(p1.last().0, p.0)],
            None => Seq::empty(),
        },
        match o {
            Some(p) => p1.last().0@ == p.1.name@,
            None => true,
        },
        d1 == d0 + match o {
            Some(p) => seq![p.1],
            None => Seq::empty(),
        },
    ensures
        built_from(
            p1,
            d1,
            fs + match o {
                Some(p) => seq![p],
                None => Seq::empty(),
            },
        ),
{
    let fs1 = fs + match o {
        Some(p) => seq![p],
        None => Seq::<(ProviderHandle, ProviderDescriptor)>::empty(),
    };
    assert(d1 =~= fs1.map_values(|p: (ProviderHandle, ProviderDescriptor)| p.1));
    assert forall|i: int| 0 <= i < fs1.len() implies #[trigger] p1[i].0@ == fs1[i].1.name@
        && p1[i].1 == fs1[i].0 by {
        if i < fs.len() {
            assert(p1[i] == p0[i]);
        }
    }
}

/// Register the builtin providers that were found, in a fixed order (OpenAI, xAI,
/// ChatGPT web, ChatGPT Codex, Grok web), then resolve the default: none registered is
/// an error, otherwise `KERYX_DEFAULT_PROVIDER` decides.
pub fn register_in_order(
    openai: Option<(ProviderHandle, ProviderDescriptor)>,
    grok: Option<(ProviderHandle, ProviderDescriptor)>,
    openai_web: Option<(ProviderHandle, ProviderDescriptor)>,
    openai_codex: Option<(ProviderHandle, ProviderDescriptor)>,
    grok_web: Option<(ProviderHandle, ProviderDescriptor)>,
    default_env: Option<&str>,
) -> (r: Result<Registration, String>)
    ensures
        ({
            let found = present(seq![openai, grok, openai_web, openai_codex, grok_web]);
            let ds = found.map_values(|p: (ProviderHandle, ProviderDescriptor)| p.1);
            match r {
                Ok(reg) => reg.descriptors@ == ds && reg.providers@.len() == found.len() && (forall|
                    i: int,
                |
                    0 <= i < found.len() ==> #[trigger] reg.providers@[i].0@ == found[i].1.name@
                        && reg.providers@[i].1 == found[i].0) && registration_default(
                    ds,
                    crate::model::auth::opt_str_view(default_env),
                ) == Ok::<Seq<char>, Seq<char>>(reg.default_provider@),
                Err(e) => registration_default(ds, crate::model::auth::opt_str_view(default_env))
                    == Err::<Seq<char>, Seq<char>>(e@),
            }
        }),
{
    let ghost f = seq![openai, grok, openai_web, openai_codex, grok_web];
    let mut providers: Vec<(String, ProviderHandle)> = Vec::new();
    let mut descriptors: Vec<ProviderDescriptor> = Vec::new();
    proof {
        assert(f.take(0) =~= Seq::<Option<(ProviderHandle, ProviderDescriptor)>>::empty());
        assert(built_from(providers@, descriptors@, present(f.take(0)))) by {
            assert(descriptors@ =~= present(f.take(0)).map_values(
                |p: (ProviderHandle, ProviderDescriptor)| p.1,
            ));
        }
    }
    let ghost (p0, d0) = (providers@, descriptors@);
    add_found(&mut providers, &mut descriptors, openai);
    proof {
        assert(f.take(1).drop_last() =~= f.take(0));
        lemma_add_keeps(p0, d0, present(f.take(0)), f[0], providers@, descriptors@);
    }
    let ghost (p0, d0) = (providers@, descriptors@);
    add_found(&mut providers, &mut descriptors, grok);
    proof {
        assert(f.take(2).drop_last() =~= f.take(1));
        lemma_add_keeps(p0, d0, present(f.take(1)), f[1], providers@, descriptors@);
    }
    let ghost (p0, d0) = (providers@, descriptors@);
    add_found(&mut providers, &mut descriptors, openai_web);
    proof {
        assert(f.take(3).drop_last() =~= f.take(2));
        lemma_add_keeps(p0, d0, present(f.take(2)), f[2], providers@, descriptors@);
    }
    let ghost (p0, d0) = (providers@, descriptors@);
    add_found(&mut providers, &mut descriptors, openai_codex);
    proof {
        assert(f.take(4).drop_last() =~= f.take(3));
        lemma_add_keeps(p0, d0, present(f.take(3)), f[3], providers@, descriptors@);
    }
    let ghost (p0, d0) = (providers@, descriptors@);
    add_found(&mut providers, &mut descriptors, grok_web);
    proof {
        assert(f.take(5).drop_last() =~= f.take(4));
        lemma_add_keeps(p0, d0, present(f.take(4)), f[4], providers@, descriptors@);
        assert(f.take(5) =~= f);
    }
    match finish_registration(descriptors.as_slice(), default_env) {
        Ok(default_provider) => Ok(Registration { providers, descriptors, default_provider }),
        Err(e) => Err(e),
    }
}

/// The non-empty trimmed pieces, in order.
pub open spec fn nonempty_trimmed(parts: Seq<Seq<char>>) -> Seq<Seq<char>>
    decreases parts.len(),
{
    if parts.len() == 0 {
        Seq::empty()
    } else {
        let prev = nonempty_trimmed(parts.drop_last());
        if trim(parts.last()).len() > 0 {
            prev.push(trim(parts.last()))
        } else {
            prev
        }
    }
}

/// A comma-separated model list: trimmed, blanks dropped; unset gives none.
pub open spec fn model_list(raw: Option<Seq<char>>) -> Seq<Seq<char>> {
    match raw {
        None => Seq::empty(),
        Some(s) => nonempty_trimmed(split(s, ',')),
    }
}

/// Parse a comma-separated model list from an environment value.
pub fn parse_model_list(raw: Option<&str>) -> (r: Vec<String>)
    ensures
        views(r@) == model_list(crate::model::auth::opt_str_view(raw)),
{
    let mut out: Vec<String> = Vec::new();
    match raw {
        None => out,
        Some(s) => {
            let cs = chars_of(s);
            let parts = split_exec(cs.as_slice(), ',');
            let ghost pv = parts@.map_values(|v: Vec<char>| v@);
            let mut i: usize = 0;
            assert(pv.take(0) =~= Seq::<Seq<char>>::empty());
            while i < parts.len()
                invariant
                    i <= parts@.len(),
                    pv == parts@.map_values(|v: Vec<char>| v@),
                    views(out@) == nonempty_trimmed(pv.take(i as int)),
                decreases parts@.len() - i,
            {
                let ghost before = views(out@);
                assert(pv.take(i + 1).drop_last() =~= pv.take(i as int));
                assert(pv.take(i + 1).last() == parts@[i as int]@);
                let t = trim_exec(parts[i].as_slice());
                if t.len() > 0 {
                    out.push(string_of(t.as_slice()));
                    assert(views(out@) =~= before.push(t@));
                }
                i = i + 1;
            }
            assert(pv.take(i as int) =~= pv);
            out
        },
    }
}

/// An environment value, or the default when unset.
pub open spec fn value_or(raw: Option<Seq<char>>, default: Seq<char>) -> Seq<char> {
    match raw {
        Some(s) => s,
        None => default,
    }
}

/// A trimmed environment value, or the default when unset or blank.
pub open spec fn trimmed_or(raw: Option<Seq<char>>, default: Seq<char>) -> Seq<char> {
    match raw {
        Some(s) => if trim(s).len() > 0 {
            trim(s)
        } else {
            default
        },
        None => default,
    }
}

pub(crate) fn or_default(raw: Option<String>, default: &str) -> (r: String)
    ensures
        r@ == value_or(crate::text::opt_view(raw), default@),
{
    match raw {
        Some(s) => s,
        None => String::from_str(default),
    }
}

pub(crate) fn trimmed_or_default(raw: Option<String>, default: &str) -> (r: String)
    ensures
        r@ == trimmed_or(crate::text::opt_view(raw), default@),
{
    match raw {
        Some(s) => {
            let t = trim_str(s.as_str());
            if t.as_str().is_empty() {
                String::from_str(default)
            } else {
                t
            }
        },
        None => String::from_str(default),
    }
}

/// The catalog entry of a registered provider.
pub open spec fn registered_descriptor(
    d: ProviderDescriptor,
    name: Seq<char>,
    kind: AuthKind,
    display: Seq<char>,
    model: Seq<char>,
    models: Seq<Seq<char>>,
) -> bool {
    &&& d.name@ == name
    &&& d.auth_kind == kind
    &&& d.display_name@ == display
    &&& d.default_model@ == model
    &&& views(d.models@) == models
    &&& d.registered
    &&& d.supports_model_override
}

fn registered(name: &str, kind: AuthKind, display: &str, model: String, models: Vec<String>) -> (r:
    ProviderDescriptor)
    ensures
        registered_descriptor(r, name@, kind, display@, model@, views(models@)),
{
    ProviderDescriptor {
        name: String::from_str(name),
        auth_kind: kind,
        display_name: String::from_str(display),
        default_model: model,
        models,
        registered: true,
        supports_model_override: true,
    }
}

/// The environment values an API-key provider reads.
pub struct ApiProviderEnv {
    /// The secret key (variable or `_FILE`), if set.
    pub api_key: Option<String>,
    pub model: Option<String>,
    pub models: Option<String>,
    pub reasoning_effort: Option<String>,
    pub base_url: Option<String>,
}

/// What registering an API-key provider yields from its environment: nothing without
/// a non-empty key; else the configuration and the catalog entry.
pub open spec fn api_registration_ok(
    r: Option<(OpenAiCompatibleConfig, ProviderDescriptor)>,
    env: ApiProviderEnv,
    grok: bool,
) -> bool {
    let name = if grok { "grok"@ } else { "openai"@ };
    let display = if grok { "Grok (xAI) API"@ } else { "OpenAI Platform API"@ };
    let default_model = if grok { "grok-4.5"@ } else { "gpt-5.6-sol"@ };
    let default_effort = if grok { "medium"@ } else { "low"@ };
    let default_base = if grok { "https://api.x.ai/v1"@ } else { "https://api.openai.com/v1"@ };
    let model = value_or(crate::text::opt_view(env.model), default_model);
    let models = model_list(crate::text::opt_view(env.models));
    match env.api_key {
        None => r is None,
        Some(k) => if k@.len() == 0 {
            r is None
        } else {
            r matches Some((cfg, d)) && {
                &&& cfg.api_key == k
                &&& cfg.model@ == model
                &&& cfg.provider_name@ == name
                &&& cfg.reasoning_effort matches Some(e) && e@ == trimmed_or(
                    crate::text::opt_view(env.reasoning_effort),
                    default_effort,
                )
                &&& cfg.base_url@ == (match env.base_url {
                    Some(b) => if trim(b@).len() > 0 {
                        b@
                    } else {
                        default_base
                    },
                    None => default_base,
                })
                &&& views(cfg.allowed_models@) == models
                &&& registered_descriptor(d, name, AuthKind::ApiKey, display, model, models)
            }
        },
    }
}

fn api_registration(env: ApiProviderEnv, grok: bool) -> (r: Option<
    (OpenAiCompatibleConfig, ProviderDescriptor),
>)
    ensures
        api_registration_ok(r, env, grok),
{
    proof {
        reveal_strlit("low");
        reveal_strlit("medium");
    }
    let ghost env0 = env;
    let ApiProviderEnv { api_key, model, models, reasoning_effort, base_url } = env;
    let key = match api_key {
        Some(k) => if k.as_str().is_empty() {
            return None;
        } else {
            k
        },
        None => return None,
    };
    let model = or_default(model, if grok { "grok-4.5" } else { "gpt-5.6-sol" });
    let models = parse_model_list(
        match &models {
            Some(m) => Some(m.as_str()),
            None => None,
        },
    );
    let effort = trimmed_or_default(reasoning_effort, if grok { "medium" } else { "low" });
    proof {
        crate::text::lemma_trim_idempotent(effort@);
        if trim(effort@).len() == 0 {
            crate::text::lemma_trim_idempotent(crate::text::opt_view(env0.reasoning_effort)->Some_0);
        }
    }
    let mut cfg = if grok {
        OpenAiCompatibleConfig::grok(key, model.clone())
    } else {
        OpenAiCompatibleConfig::openai(key, model.clone())
    };
    cfg = cfg.with_reasoning_effort(effort);
    match base_url {
        Some(b) => {
            let t = trim_str(b.as_str());
            if !t.as_str().is_empty() {
                cfg = cfg.with_base_url(b);
            }
        },
        None => {},
    }
    if models.len() > 0 {
        cfg = cfg.with_allowed_models(crate::text::clone_strings(&models));
    }
    assert(views(cfg.allowed_models@) =~= views(models@));
    let d = if grok {
        registered("grok", AuthKind::ApiKey, "Grok (xAI) API", model, models)
    } else {
        registered("openai", AuthKind::ApiKey, "OpenAI Platform API", model, models)
    };
    Some((cfg, d))
}

/// Register OpenAI when an API key is configured.
pub fn try_register_openai(env: ApiProviderEnv) -> (r: Option<
    (OpenAiCompatibleConfig, ProviderDescriptor),
>)
    ensures
        api_registration_ok(r, env, false),
{
    api_registration(env, false)
}

/// Register Grok (xAI) when an API key is configured.
pub fn try_register_grok(env: ApiProviderEnv) -> (r: Option<
    (OpenAiCompatibleConfig, ProviderDescriptor),
>)
    ensures
        api_registration_ok(r, env, true),
{
    api_registration(env, true)
}

/// The browser user agent the web-session providers send by default.
pub open spec fn default_user_agent() -> Seq<char> {
    "Mozilla/5.0 (compatible; KeryxWorker/0.1; +https://github.com/Jack-Siow-CTO/keryx)"@
}

/// The environment values the ChatGPT browser-session provider reads.
pub struct WebSessionEnv {
    pub access_token: Option<String>,
    pub cookie: Option<String>,
    /// The extra headers of `CHATGPT_WEB_HEADERS_FILE`.
    pub headers: Vec<(String, String)>,
    /// `CHATGPT_WEB_FORCE`: register with a token alone.
    pub force: Option<String>,
    pub model: Option<String>,
    pub models: Option<String>,
    pub base_url: Option<String>,
    pub path: Option<String>,
    pub user_agent: Option<String>,
}

/// `CHATGPT_WEB_FORCE` asks for registration (`1`, `true` or `yes`).
pub open spec fn force_on(f: Option<Seq<char>>) -> bool {
    f == Some("1"@) || f == Some("true"@) || f == Some("yes"@)
}

/// What registering the browser-session provider yields: nothing without usable
/// session material, nor with a token alone unless forced (a lone token is the
/// subscription path); else the provider and its catalog entry.
pub open spec fn web_registration_ok(
    r: Option<(ChatGptWebProvider, ProviderDescriptor)>,
    env: WebSessionEnv,
) -> bool {
    let usable = nonempty(env.cookie) || nonempty(env.access_token);
    let register = usable && (nonempty(env.cookie) || force_on(crate::text::opt_view(env.force)));
    let model = value_or(crate::text::opt_view(env.model), "gpt-5.6-sol"@);
    let models = model_list(crate::text::opt_view(env.models));
    if !register {
        r is None
    } else {
        r matches Some((p, d)) && {
            let c = p.config;
            &&& c.provider_name@ == "openai_web"@
            &&& c.base_url@ == value_or(crate::text::opt_view(env.base_url), "https://chatgpt.com"@)
            &&& c.path@ == value_or(crate::text::opt_view(env.path), "/backend-api/conversation"@)
            &&& c.model@ == model
            &&& c.auth.cookie_header == env.cookie
            &&& c.auth.bearer_token == env.access_token
            &&& c.auth.extra_headers == env.headers
            &&& c.user_agent@ == value_or(crate::text::opt_view(env.user_agent), default_user_agent())
            &&& views(c.allowed_models@) == models
            &&& registered_descriptor(
                d,
                "openai_web"@,
                AuthKind::BrowserSession,
                "ChatGPT browser session"@,
                model,
                models,
            )
        }
    }
}

fn is_force(f: &Option<String>) -> (r: bool)
    ensures
        r == force_on(crate::text::opt_view(*f)),
{
    match f {
        Some(s) => crate::text::str_eq(s.as_str(), "1") || crate::text::str_eq(s.as_str(), "true")
            || crate::text::str_eq(s.as_str(), "yes"),
        None => false,
    }
}

/// Register the ChatGPT browser-session provider from its environment values.
pub fn try_register_openai_web(env: WebSessionEnv) -> (r: Option<
    (ChatGptWebProvider, ProviderDescriptor),
>)
    ensures
        web_registration_ok(r, env),
{
    let ghost env0 = env;
    let WebSessionEnv {
        access_token,
        cookie,
        headers,
        force,
        model,
        models,
        base_url,
        path,
        user_agent,
    } = env;
    let auth = ConsumerWebAuth { cookie_header: cookie, bearer_token: access_token, extra_headers: headers };
    if !auth.is_usable() {
        return None;
    }
    let has_cookie = match &auth.cookie_header {
        Some(c) => !c.as_str().is_empty(),
        None => false,
    };
    if !has_cookie && !is_force(&force) {
        return None;
    }
    let model = or_default(model, "gpt-5.6-sol");
    let models = parse_model_list(
        match &models {
            Some(m) => Some(m.as_str()),
            None => None,
        },
    );
    let config = ConsumerWebConfig {
        provider_name: String::from_str("openai_web"),
        base_url: or_default(base_url, "https://chatgpt.com"),
        path: or_default(path, "/backend-api/conversation"),
        model: model.clone(),
        auth,
        user_agent: or_default(
            user_agent,
            "Mozilla/5.0 (compatible; KeryxWorker/0.1; +https://github.com/Jack-Siow-CTO/keryx)",
        ),
        allowed_models: crate::text::clone_strings(&models),
    };
    let provider = match ChatGptWebProvider::new(config) {
        Ok(p) => p,
        Err(_) => return None,
    };
    let d = registered("openai_web", AuthKind::BrowserSession, "ChatGPT browser session", model, models);
    Some((provider, d))
}

/// The subscription access token: `CHATGPT_CODEX_ACCESS_TOKEN` when set, else
/// `CHATGPT_WEB_ACCESS_TOKEN`; an empty one means none.
pub open spec fn codex_token(codex: Option<Seq<char>>, web: Option<Seq<char>>) -> Option<Seq<char>> {
    let t = match codex {
        Some(c) => Some(c),
        None => web,
    };
    match t {
        Some(s) => if s.len() > 0 {
            Some(s)
        } else {
            None
        },
        None => None,
    }
}

/// Pick the subscription access token from the two variables that may hold it.
pub fn codex_access_token(codex: Option<String>, web: Option<String>) -> (r: Option<String>)
    ensures
        crate::text::opt_view(r) == codex_token(crate::text::opt_view(codex), crate::text::opt_view(web)),
{
    let t = match codex {
        Some(c) => Some(c),
        None => web,
    };
    match t {
        Some(s) => if s.as_str().is_empty() {
            None
        } else {
            Some(s)
        },
        None => None,
    }
}

/// Register the subscription provider built from its token: its catalog entry, or the
/// configuration error.
pub fn try_register_openai_codex(
    provider: Result<ChatGptCodexProvider, ModelError>,
    models: Option<&str>,
) -> (r: Result<(ChatGptCodexProvider, ProviderDescriptor), String>)
    ensures
        match provider {
            Ok(p) => r matches Ok((q, d)) && q == p && registered_descriptor(
                d,
                "openai_codex"@,
                AuthKind::OauthAccessToken,
                "ChatGPT subscription (Codex)"@,
                p.config.model@,
                model_list(crate::model::auth::opt_str_view(models)),
            ),
            Err(e) => r matches Err(m) && m@ == "openai_codex config: "@ + e.message@,
        },
{
    match provider {
        Ok(p) => {
            let default_model = String::from_str(p.default_model());
            let list = parse_model_list(models);
            let d = registered(
                "openai_codex",
                AuthKind::OauthAccessToken,
                "ChatGPT subscription (Codex)",
                default_model,
                list,
            );
            Ok((p, d))
        },
        Err(e) => Err(String::from_str("openai_codex config: ").concat(e.message.as_str())),
    }
}

/// The Grok session cookie when it is set and non-empty.
pub fn grok_web_cookie(raw: Option<String>) -> (r: Option<String>)
    ensures
        crate::text::opt_view(r) == (match crate::text::opt_view(raw) {
            Some(c) => if c.len() > 0 {
                Some(c)
            } else {
                None
            },
            None => None,
        }),
{
    match raw {
        Some(c) => if c.as_str().is_empty() {
            None
        } else {
            Some(c)
        },
        None => None,
    }
}

/// The environment values the Grok web provider reads besides its cookie.
pub struct GrokWebEnv {
    /// The extra headers of `GROK_WEB_HEADERS_FILE`.
    pub headers: Vec<(String, String)>,
    pub model: Option<String>,
    pub models: Option<String>,
    pub reasoning_effort: Option<String>,
    pub base_url: Option<String>,
    pub path: Option<String>,
    pub user_agent: Option<String>,
}

/// Register the Grok web provider for a non-empty session cookie.
pub fn try_register_grok_web(cookie: String, env: GrokWebEnv) -> (r: (GrokWebProvider, ProviderDescriptor))
    requires
        cookie@.len() > 0,
    ensures
        ({
            let (p, d) = r;
            let c = p.config;
            let model = value_or(crate::text::opt_view(env.model), "grok-4.5"@);
            let models = model_list(crate::text::opt_view(env.models));
            &&& c.provider_name@ == "grok_web"@
            &&& c.base_url@ == value_or(crate::text::opt_view(env.base_url), "https://grok.com"@)
            &&& c.path@ == value_or(
                crate::text::opt_view(env.path),
                "/rest/app-chat/conversations/new"@,
            )
            &&& c.model@ == model
            &&& c.auth.cookie_header == Some(cookie)
            &&& c.auth.bearer_token is None
            &&& c.auth.extra_headers == env.headers
            &&& c.user_agent@ == value_or(crate::text::opt_view(env.user_agent), default_user_agent())
            &&& views(c.allowed_models@) == models
            &&& p.reasoning_effort matches Some(e) && e@ == trimmed_or(
                crate::text::opt_view(env.reasoning_effort),
                "medium"@,
            )
            &&& registered_descriptor(
                d,
                "grok_web"@,
                AuthKind::BrowserSession,
                "Grok web session"@,
                model,
                models,
            )
        }),
{
    let GrokWebEnv { headers, model, models, reasoning_effort, base_url, path, user_agent } = env;
    let model = or_default(model, "grok-4.5");
    let models = parse_model_list(
        match &models {
            Some(m) => Some(m.as_str()),
            None => None,
        },
    );
    let effort = trimmed_or_default(reasoning_effort, "medium");
    let config = ConsumerWebConfig {
        provider_name: String::from_str("grok_web"),
        base_url: or_default(base_url, "https://grok.com"),
        path: or_default(path, "/rest/app-chat/conversations/new"),
        model: model.clone(),
        auth: ConsumerWebAuth { cookie_header: Some(cookie), bearer_token: None, extra_headers: headers },
        user_agent: or_default(
            user_agent,
            "Mozilla/5.0 (compatible; KeryxWorker/0.1; +https://github.com/Jack-Siow-CTO/keryx)",
        ),
        allowed_models: crate::text::clone_strings(&models),
    };
    let provider = match GrokWebProvider::new_with_reasoning(config, Some(effort)) {
        Ok(p) => p,
        Err(_) => vstd::pervasive::unreached(),
    };
    let d = registered("grok_web", AuthKind::BrowserSession, "Grok web session", model, models);
    (provider, d)
}

/// The decimal text of an integer, with a minus sign when negative.
pub open spec fn int_text(n: int) -> Seq<char> {
    if n < 0 {
        "-"@ + crate::text::decimal((-n) as nat)
    } else {
        crate::text::decimal(n as nat)
    }
}

/// The decimal text of a 32-bit integer, as `Display` writes it.
pub fn int_string(n: i32) -> (r: String)
    ensures
        r@ == int_text(n as int),
{
    if n < 0 {
        let m: u64 = (-(n as i64)) as u64;
        String::from_str("-").concat(crate::text::decimal_string(m).as_str())
    } else {
        crate::text::decimal_string(n as u64)
    }
}

/// The decimal text of a 64-bit integer, as `Display` writes it.
pub fn int64_string(n: i64) -> (r: String)
    ensures
        r@ == int_text(n as int),
{
    if n < 0 {
        let m: u64 = (0i128 - (n as i128)) as u64;
        String::from_str("-").concat(crate::text::decimal_string(m).as_str())
    } else {
        crate::text::decimal_string(n as u64)
    }
}

} // verus!
