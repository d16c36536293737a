//! Provider selection: configuration records, their resolution from an
//! environment profile, and the plan a factory follows to build a
//! provider.

use vstd::prelude::*;

use crate::error::{Error, ErrorV};

verus! {

broadcast use vstd::string::group_string_axioms;

/// Supported LLM providers.
#[derive(Debug, Clone, Copy, PartialEq, Eq, Structural)]
pub enum ProviderType {
    OpenAI,
    Google,
    Anthropic,
}

impl ProviderType {
    /// Whether this provider is served through Vertex AI.
    pub fn is_supported_via_vertex(&self) -> (r: bool)
        ensures
            r == (*self == ProviderType::Google || *self == ProviderType::Anthropic),
    {
        match self {
            ProviderType::Google => true,
            ProviderType::Anthropic => true,
            ProviderType::OpenAI => false,
        }
    }
}

/// Configuration for creating providers.
#[derive(Debug, Clone)]
pub struct ProviderConfig {
    pub provider_type: ProviderType,
    pub api_key: Option<String>,
    pub project_id: Option<String>,
    pub location: Option<String>,
    pub access_token: Option<String>,
}

/// Abstract value of a `ProviderConfig`.
pub struct ProviderConfigV {
    pub provider_type: ProviderType,
    pub api_key: Option<Seq<char>>,
    pub project_id: Option<Seq<char>>,
    pub location: Option<Seq<char>>,
    pub access_token: Option<Seq<char>>,
}

impl View for ProviderConfig {
    type V = ProviderConfigV;

    open spec fn view(&self) -> ProviderConfigV {
        ProviderConfigV {
            provider_type: self.provider_type,
            api_key: match self.api_key {
                Some(ref s) => Some(s@),
                None => None,
            },
            project_id: match self.project_id {
                Some(ref s) => Some(s@),
                None => None,
            },
            location: match self.location {
                Some(ref s) => Some(s@),
                None => None,
            },
            access_token: match self.access_token {
                Some(ref s) => Some(s@),
                None => None,
            },
        }
    }
}

impl ProviderConfig {
    /// Configuration for the OpenAI provider.
    pub fn openai(api_key: String) -> (r: ProviderConfig)
        ensures
            r@.provider_type == ProviderType::OpenAI,
            r@.api_key matches Some(k) && k == api_key@,
            r@.project_id is None,
            r@.location is None,
            r@.access_token is None,
    {
        ProviderConfig {
            provider_type: ProviderType::OpenAI,
            api_key: Some(api_key),
            project_id: None,
            location: None,
            access_token: None,
        }
    }

    /// Configuration for a Vertex AI provider with a pre-minted access
    /// token. Only Vertex providers (Google and Anthropic) are allowed
    /// here.
    pub fn vertex(
        provider_type: ProviderType,
        project_id: String,
        location: String,
        access_token: String,
    ) -> (r: ProviderConfig)
        requires
            provider_type == ProviderType::Google || provider_type == ProviderType::Anthropic,
        ensures
            r@.provider_type == provider_type,
            r@.api_key is None,
            r@.project_id matches Some(p) && p == project_id@,
            r@.location matches Some(l) && l == location@,
            r@.access_token matches Some(t) && t == access_token@,
    {
        ProviderConfig {
            provider_type,
            api_key: None,
            project_id: Some(project_id),
            location: Some(location),
            access_token: Some(access_token),
        }
    }

    /// Configuration for a Vertex AI provider using ambient application
    /// credentials. Only Vertex providers (Google and Anthropic) are
    /// allowed here.
    pub fn vertex_with_adc(
        provider_type: ProviderType,
        project_id: String,
        location: String,
    ) -> (r: ProviderConfig)
        requires
            provider_type == ProviderType::Google || provider_type == ProviderType::Anthropic,
        ensures
            r@.provider_type == provider_type,
            r@.api_key is None,
            r@.project_id matches Some(p) && p == project_id@,
            r@.location matches Some(l) && l == location@,
            r@.access_token is None,
    {
        ProviderConfig {
            provider_type,
            api_key: None,
            project_id: Some(project_id),
            location: Some(location),
            access_token: None,
        }
    }
}

/// The environment profile the factory reads: each recognized variable
/// as an optional value, handed in by the caller that read the process
/// environment.
#[derive(Debug, Clone)]
pub struct EnvProfile {
    pub provider_type: Option<String>,
    pub openai_api_key: Option<String>,
    pub google_cloud_project: Option<String>,
    pub google_cloud_region: Option<String>,
    pub vertex_access_token: Option<String>,
    pub anthropic_vertex_access_token: Option<String>,
    pub google_application_credentials: Option<String>,
    pub anthropic_model: Option<String>,
}

/// Abstract value of an `EnvProfile`.
pub struct EnvProfileV {
    pub provider_type: Option<Seq<char>>,
    pub openai_api_key: Option<Seq<char>>,
    pub google_cloud_project: Option<Seq<char>>,
    pub google_cloud_region: Option<Seq<char>>,
    pub vertex_access_token: Option<Seq<char>>,
    pub anthropic_vertex_access_token: Option<Seq<char>>,
    pub google_application_credentials: Option<Seq<char>>,
    pub anthropic_model: Option<Seq<char>>,
}

impl View for EnvProfile {
    type V = EnvProfileV;

    open spec fn view(&self) -> EnvProfileV {
        EnvProfileV {
            provider_type: match self.provider_type {
                Some(ref s) => Some(s@),
                None => None,
            },
            openai_api_key: match self.openai_api_key {
                Some(ref s) => Some(s@),
                None => None,
            },
            google_cloud_project: match self.google_cloud_project {
                Some(ref s) => Some(s@),
                None => None,
            },
            google_cloud_region: match self.google_cloud_region {
                Some(ref s) => Some(s@),
                None => None,
            },
            vertex_access_token: match self.vertex_access_token {
                Some(ref s) => Some(s@),
                None => None,
            },
            anthropic_vertex_access_token: match self.anthropic_vertex_access_token {
                Some(ref s) => Some(s@),
                None => None,
            },
            google_application_credentials: match self.google_application_credentials {
                Some(ref s) => Some(s@),
                None => None,
            },
            anthropic_model: match self.anthropic_model {
                Some(ref s) => Some(s@),
                None => None,
            },
        }
    }
}

/// `c` lowered, for ASCII letters only.
pub open spec fn lower_char(c: char) -> char {
    if 'A' <= c <= 'Z' {
        ((c as u32) + 32) as char
    } else {
        c
    }
}

/// `s` lowered character by character, ASCII letters only.
pub open spec fn lower_chars(s: Seq<char>) -> Seq<char> {
    s.map_values(|c: char| lower_char(c))
}

/// The default Vertex region when none is configured.
pub open spec fn default_region() -> Seq<char> {
    "europe-west1"@
}

/// The configuration an environment profile resolves to, or the text
/// of the configuration error. Provider-type names are matched with
/// ASCII letters lowered. With no explicit type, an OpenAI key wins
/// first; otherwise a Vertex provider is inferred — Anthropic exactly
/// when a model hint names one, else Google — with the pre-minted
/// token when one is present.
pub open spec fn resolve_env(e: EnvProfileV) -> Result<ProviderConfigV, Seq<char>> {
    match e.provider_type {
        Some(pt) => {
            if lower_chars(pt) == "openai"@ {
                match e.openai_api_key {
                    Some(k) => Ok(
                        ProviderConfigV {
                            provider_type: ProviderType::OpenAI,
                            api_key: Some(k),
                            project_id: None,
                            location: None,
                            access_token: None,
                        },
                    ),
                    None => Err(
                        "OPENAI_API_KEY environment variable is required for OpenAI provider"@,
                    ),
                }
            } else if lower_chars(pt) == "google"@ {
                resolve_vertex(e, ProviderType::Google)
            } else if lower_chars(pt) == "anthropic"@ {
                resolve_vertex(e, ProviderType::Anthropic)
            } else {
                Err("Invalid PROVIDER_TYPE. Valid values are: openai, google, anthropic"@)
            }
        },
        None => {
            if e.openai_api_key is Some {
                Ok(
                    ProviderConfigV {
                        provider_type: ProviderType::OpenAI,
                        api_key: e.openai_api_key,
                        project_id: None,
                        location: None,
                        access_token: None,
                    },
                )
            } else if e.vertex_access_token is Some || e.anthropic_vertex_access_token is Some
                || e.google_application_credentials is Some || e.google_cloud_project is Some {
                let kind = if e.anthropic_model is Some {
                    ProviderType::Anthropic
                } else {
                    ProviderType::Google
                };
                match e.google_cloud_project {
                    Some(p) => Ok(
                        ProviderConfigV {
                            provider_type: kind,
                            api_key: None,
                            project_id: Some(p),
                            location: Some(region_or_default(e)),
                            access_token: inferred_token(e, kind),
                        },
                    ),
                    None => if kind == ProviderType::Google {
                        Err("GOOGLE_CLOUD_PROJECT environment variable is required for Google"@)
                    } else {
                        Err(
                            "GOOGLE_CLOUD_PROJECT environment variable is required for Anthropic"@,
                        )
                    },
                }
            } else {
                Err(
                    "No valid API credentials found in environment. Set PROVIDER_TYPE (openai/google/anthropic) with appropriate credentials"@,
                )
            }
        },
    }
}

/// The pre-minted token an inferred Vertex provider runs with, if any:
/// an inferred Anthropic prefers its own token variable and falls back
/// to the shared one.
pub open spec fn inferred_token(e: EnvProfileV, kind: ProviderType) -> Option<Seq<char>> {
    if kind == ProviderType::Anthropic {
        match e.anthropic_vertex_access_token {
            Some(t) => Some(t),
            None => e.vertex_access_token,
        }
    } else {
        e.vertex_access_token
    }
}

/// The configured region, or the default.
pub open spec fn region_or_default(e: EnvProfileV) -> Seq<char> {
    match e.google_cloud_region {
        Some(r) => r,
        None => default_region(),
    }
}

/// An explicitly chosen Vertex provider: the project is required, the
/// region defaults, and a pre-minted token is taken when present.
pub open spec fn resolve_vertex(e: EnvProfileV, kind: ProviderType) -> Result<
    ProviderConfigV,
    Seq<char>,
> {
    match e.google_cloud_project {
        Some(p) => Ok(
            ProviderConfigV {
                provider_type: kind,
                api_key: None,
                project_id: Some(p),
                location: Some(region_or_default(e)),
                access_token: e.vertex_access_token,
            },
        ),
        None => if kind == ProviderType::Google {
            Err("GOOGLE_CLOUD_PROJECT environment variable is required for Google provider"@)
        } else {
            Err("GOOGLE_CLOUD_PROJECT environment variable is required for Anthropic provider"@)
        },
    }
}

/// Compare a string with a lowercase ASCII keyword, lowering the ASCII
/// letters of the string first.
fn eq_lowered(s: &str, kw: &str) -> (r: bool)
    ensures
        r == (lower_chars(s@) == kw@),
{
    let n = s.unicode_len();
    let m = kw.unicode_len();
    if n != m {
        proof {
            assert(lower_chars(s@).len() == s@.len());
        }
        return false;
    }
    let mut i: usize = 0;
    while i < n
        invariant
            0 <= i <= n,
            n == s@.len(),
            n == kw@.len(),
            forall|k: int| 0 <= k < i ==> lower_char(s@[k]) == kw@[k],
        decreases n - i,
    {
        let c = s.get_char(i);
        let k = kw.get_char(i);
        let lc = if c >= 'A' && c <= 'Z' {
            proof {
                vstd::utf8::char_is_scalar(c);
            }
            char_from_u32((c as u32) + 32)
        } else {
            c
        };
        if lc != k {
            proof {
                assert(lower_chars(s@)[i as int] == lower_char(s@[i as int]));
            }
            return false;
        }
        i = i + 1;
    }
    proof {
        assert(lower_chars(s@) =~= kw@);
    }
    true
}

/// Relies on std's char::from_u32: the scalar value names its
/// character.
#[verifier::external_body]
fn char_from_u32(v: u32) -> (r: char)
    requires
        v < 0xD800 || (0xE000 <= v <= 0x10FFFF),
    ensures
        r == (v as char),
{
    char::from_u32(v).unwrap_or(' ')
}

/// Resolve a configuration from the values of the recognized
/// environment variables.
pub fn from_env_values(env: &EnvProfile) -> (r: Result<ProviderConfig, Error>)
    ensures
        (match resolve_env(env@) {
            Ok(c) => r matches Ok(x) && x@ == c,
            Err(m) => r matches Err(e) && e@ == ErrorV::Config(m),
        }),
{
    match &env.provider_type {
        Some(pt) => {
            if eq_lowered(pt.as_str(), "openai") {
                match &env.openai_api_key {
                    Some(k) => Ok(ProviderConfig::openai(k.clone())),
                    None => Err(
                        Error::config(
                            "OPENAI_API_KEY environment variable is required for OpenAI provider",
                        ),
                    ),
                }
            } else if eq_lowered(pt.as_str(), "google") {
                from_env_vertex(env, ProviderType::Google)
            } else if eq_lowered(pt.as_str(), "anthropic") {
                from_env_vertex(env, ProviderType::Anthropic)
            } else {
                Err(Error::config("Invalid PROVIDER_TYPE. Valid values are: openai, google, anthropic"))
            }
        },
        None => {
            if env.openai_api_key.is_some() {
                match &env.openai_api_key {
                    Some(k) => Ok(ProviderConfig::openai(k.clone())),
                    None => Err(Error::config("unreachable")),
                }
            } else if env.vertex_access_token.is_some()
                || env.anthropic_vertex_access_token.is_some()
                || env.google_application_credentials.is_some()
                || env.google_cloud_project.is_some() {
                let kind = if env.anthropic_model.is_some() {
                    ProviderType::Anthropic
                } else {
                    ProviderType::Google
                };
                match &env.google_cloud_project {
                    Some(p) => {
                        let token = if env.anthropic_model.is_some() {
                            match &env.anthropic_vertex_access_token {
                                Some(t) => Some(t.clone()),
                                None => match &env.vertex_access_token {
                                    Some(t) => Some(t.clone()),
                                    None => None,
                                },
                            }
                        } else {
                            match &env.vertex_access_token {
                                Some(t) => Some(t.clone()),
                                None => None,
                            }
                        };
                        match token {
                            Some(t) => Ok(
                                ProviderConfig::vertex(
                                    kind,
                                    p.clone(),
                                    region_or_default_exec(env),
                                    t,
                                ),
                            ),
                            None => Ok(
                                ProviderConfig::vertex_with_adc(
                                    kind,
                                    p.clone(),
                                    region_or_default_exec(env),
                                ),
                            ),
                        }
                    },
                    None => {
                        if env.anthropic_model.is_some() {
                            Err(
                                Error::config(
                                    "GOOGLE_CLOUD_PROJECT environment variable is required for Anthropic",
                                ),
                            )
                        } else {
                            Err(
                                Error::config(
                                    "GOOGLE_CLOUD_PROJECT environment variable is required for Google",
                                ),
                            )
                        }
                    },
                }
            } else {
                Err(
                    Error::config(
                        "No valid API credentials found in environment. Set PROVIDER_TYPE (openai/google/anthropic) with appropriate credentials",
                    ),
                )
            }
        },
    }
}

/// The configured region, or the default.
fn region_or_default_exec(env: &EnvProfile) -> (r: String)
    ensures
        r@ == region_or_default(env@),
{
    match &env.google_cloud_region {
        Some(s) => s.clone(),
        None => String::from_str("europe-west1"),
    }
}

/// Resolve an explicitly chosen Vertex provider.
fn from_env_vertex(env: &EnvProfile, kind: ProviderType) -> (r: Result<ProviderConfig, Error>)
    requires
        kind == ProviderType::Google || kind == ProviderType::Anthropic,
    ensures
        (match resolve_vertex(env@, kind) {
            Ok(c) => r matches Ok(x) && x@ == c,
            Err(m) => r matches Err(e) && e@ == ErrorV::Config(m),
        }),
{
    match &env.google_cloud_project {
        Some(p) => {
            let location = region_or_default_exec(env);
            match &env.vertex_access_token {
                Some(t) => Ok(ProviderConfig::vertex(kind, p.clone(), location, t.clone())),
                None => Ok(ProviderConfig::vertex_with_adc(kind, p.clone(), location)),
            }
        },
        None => {
            if kind == ProviderType::Google {
                Err(
                    Error::config(
                        "GOOGLE_CLOUD_PROJECT environment variable is required for Google provider",
                    ),
                )
            } else {
                Err(
                    Error::config(
                        "GOOGLE_CLOUD_PROJECT environment variable is required for Anthropic provider",
                    ),
                )
            }
        },
    }
}

/// The auth mode a Vertex provider runs with.
#[derive(Debug, Clone)]
pub enum VertexAuth {
    /// A pre-minted bearer token.
    AccessToken(String),
    /// Ambient application credentials, obtained on demand.
    ApplicationDefault,
}

/// Abstract value of a `VertexAuth`.
pub enum VertexAuthV {
    AccessToken(Seq<char>),
    ApplicationDefault,
}

impl View for VertexAuth {
    type V = VertexAuthV;

    open spec fn view(&self) -> VertexAuthV {
        match self {
            VertexAuth::AccessToken(t) => VertexAuthV::AccessToken(t@),
            VertexAuth::ApplicationDefault => VertexAuthV::ApplicationDefault,
        }
    }
}

/// The concrete provider a configuration calls for.
#[derive(Debug, Clone)]
pub enum ProviderPlan {
    OpenAI { api_key: String },
    Vertex { kind: ProviderType, project_id: String, location: String, auth: VertexAuth },
}

/// Abstract value of a `ProviderPlan`.
pub enum ProviderPlanV {
    OpenAI { api_key: Seq<char> },
    Vertex { kind: ProviderType, project_id: Seq<char>, location: Seq<char>, auth: VertexAuthV },
}

impl View for ProviderPlan {
    type V = ProviderPlanV;

    open spec fn view(&self) -> ProviderPlanV {
        match self {
            ProviderPlan::OpenAI { api_key } => ProviderPlanV::OpenAI { api_key: api_key@ },
            ProviderPlan::Vertex { kind, project_id, location, auth } => ProviderPlanV::Vertex {
                kind: *kind,
                project_id: project_id@,
                location: location@,
                auth: auth@,
            },
        }
    }
}

/// The plan a configuration resolves to, or the text of the
/// configuration error: OpenAI needs its key; a Vertex provider needs
/// project and location, and runs with the token when one is present,
/// else with ambient credentials.
pub open spec fn plan_of(c: ProviderConfigV) -> Result<ProviderPlanV, Seq<char>> {
    match c.provider_type {
        ProviderType::OpenAI => {
            match c.api_key {
                Some(k) => Ok(ProviderPlanV::OpenAI { api_key: k }),
                None => Err("API key required for OpenAI provider"@),
            }
        },
        ProviderType::Google => plan_vertex(c, ProviderType::Google),
        ProviderType::Anthropic => plan_vertex(c, ProviderType::Anthropic),
    }
}

/// The Vertex part of `plan_of`.
pub open spec fn plan_vertex(c: ProviderConfigV, kind: ProviderType) -> Result<
    ProviderPlanV,
    Seq<char>,
> {
    match c.project_id {
        Some(p) => {
            match c.location {
                Some(l) => Ok(
                    ProviderPlanV::Vertex {
                        kind,
                        project_id: p,
                        location: l,
                        auth: match c.access_token {
                            Some(t) => VertexAuthV::AccessToken(t),
                            None => VertexAuthV::ApplicationDefault,
                        },
                    },
                ),
                None => if kind == ProviderType::Google {
                    Err("Location required for Google provider"@)
                } else {
                    Err("Location required for Anthropic provider"@)
                },
            }
        },
        None => if kind == ProviderType::Google {
            Err("Project ID required for Google provider"@)
        } else {
            Err("Project ID required for Anthropic provider"@)
        },
    }
}

/// Decide which provider a configuration calls for, checking that the
/// fields it needs are present.
pub fn creation_plan(config: &ProviderConfig) -> (r: Result<ProviderPlan, Error>)
    ensures
        (match plan_of(config@) {
            Ok(p) => r matches Ok(x) && x@ == p,
            Err(m) => r matches Err(e) && e@ == ErrorV::Config(m),
        }),
{
    match config.provider_type {
        ProviderType::OpenAI => {
            match &config.api_key {
                Some(k) => Ok(ProviderPlan::OpenAI { api_key: k.clone() }),
                None => Err(Error::config("API key required for OpenAI provider")),
            }
        },
        ProviderType::Google => creation_plan_vertex(config, ProviderType::Google),
        ProviderType::Anthropic => creation_plan_vertex(config, ProviderType::Anthropic),
    }
}

/// The Vertex part of `creation_plan`.
fn creation_plan_vertex(config: &ProviderConfig, kind: ProviderType) -> (r: Result<
    ProviderPlan,
    Error,
>)
    requires
        kind == ProviderType::Google || kind == ProviderType::Anthropic,
    ensures
        (match plan_vertex(config@, kind) {
            Ok(p) => r matches Ok(x) && x@ == p,
            Err(m) => r matches Err(e) && e@ == ErrorV::Config(m),
        }),
{
    match &config.project_id {
        Some(p) => {
            match &config.location {
                Some(l) => {
                    let auth = match &config.access_token {
                        Some(t) => VertexAuth::AccessToken(t.clone()),
                        None => VertexAuth::ApplicationDefault,
                    };
                    Ok(
                        ProviderPlan::Vertex {
                            kind,
                            project_id: p.clone(),
                            location: l.clone(),
                            auth,
                        },
                    )
                },
                None => {
                    if kind == ProviderType::Google {
                        Err(Error::config("Location required for Google provider"))
                    } else {
                        Err(Error::config("Location required for Anthropic provider"))
                    }
                },
            }
        },
        None => {
            if kind == ProviderType::Google {
                Err(Error::config("Project ID required for Google provider"))
            } else {
                Err(Error::config("Project ID required for Anthropic provider"))
            }
        },
    }
}

} // verus!
