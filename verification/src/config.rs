//! Server configuration: resolving the settings given on the command line
//! or in the environment, feature flags, and the public part that clients
//! receive.

use vstd::prelude::*;
use vstd::string::StringExecFns;

use crate::text::{is_truthy, lowered, has_prefix, strip_prefix, to_ascii_lowercase, truthy};

verus! {

/// An ICE server for establishing peer connections.
pub struct IceServerConfig {
    pub urls: Vec<String>,
    pub username: Option<String>,
    pub credential: Option<String>,
}

/// The `urls` of an ICE server as written in its JSON: one URL or a list.
pub enum IceUrls {
    Single(String),
    Multiple(Vec<String>),
}

impl IceUrls {
    /// The URLs as a list.
    pub fn into_list(self) -> (r: Vec<String>)
        ensures
            match self {
                IceUrls::Single(u) => r@.len() == 1 && r@[0]@ == u@,
                IceUrls::Multiple(v) => r@ == v@,
            },
    {
        match self {
            IceUrls::Single(u) => {
                let mut v = Vec::new();
                v.push(u);
                v
            },
            IceUrls::Multiple(v) => v,
        }
    }
}

/// Prefix of the environment variables that turn feature flags on or off.
pub open spec fn feature_prefix() -> Seq<char> {
    "ARENA_FEATURE_"@
}

/// The feature flags named by environment variables, in their order: for
/// each variable `ARENA_FEATURE_<NAME>`, the lower-cased name and whether its
/// value is `1`, `true`, `yes` or `on` (any ASCII case).
pub open spec fn flags_of(vars: Seq<(Seq<char>, Seq<char>)>) -> Seq<(Seq<char>, bool)>
    decreases vars.len(),
{
    if vars.len() == 0 {
        Seq::empty()
    } else {
        let rest = flags_of(vars.drop_last());
        let (k, v) = vars.last();
        if has_prefix(k, feature_prefix()) {
            rest.push((lowered(k.skip(feature_prefix().len() as int)), is_truthy(v)))
        } else {
            rest
        }
    }
}

pub open spec fn vars_view(vars: Seq<(String, String)>) -> Seq<(Seq<char>, Seq<char>)> {
    vars.map_values(|p: (String, String)| (p.0@, p.1@))
}

pub open spec fn flags_view(flags: Seq<(String, bool)>) -> Seq<(Seq<char>, bool)> {
    flags.map_values(|p: (String, bool)| (p.0@, p.1))
}

/// The flags as a map from name to setting, built in order, so that a later
/// entry for a name replaces an earlier one.
pub open spec fn flags_map(flags: Seq<(Seq<char>, bool)>) -> Map<Seq<char>, bool>
    decreases flags.len(),
{
    if flags.len() == 0 {
        Map::empty()
    } else {
        flags_map(flags.drop_last()).insert(flags.last().0, flags.last().1)
    }
}

/// Whether environment variable `var` sets the flag named `name`: its name is
/// `ARENA_FEATURE_` followed by `name` in any ASCII case.
pub open spec fn sets_flag(var: (Seq<char>, Seq<char>), name: Seq<char>) -> bool {
    has_prefix(var.0, feature_prefix()) && lowered(var.0.skip(feature_prefix().len() as int)) == name
}

/// Flag `name` is present exactly when some variable sets it, and then its
/// setting is whether the value of the last variable that sets it is `1`,
/// `true`, `yes` or `on` (any ASCII case).
pub proof fn law_flags_map(vars: Seq<(Seq<char>, Seq<char>)>, name: Seq<char>)
    ensures
        flags_map(flags_of(vars)).contains_key(name) <==> exists|j: int|
            0 <= j < vars.len() && #[trigger] sets_flag(vars[j], name),
        flags_map(flags_of(vars)).contains_key(name) ==> exists|j: int|
            0 <= j < vars.len() && #[trigger] sets_flag(vars[j], name) && (forall|l: int|
                j < l < vars.len() ==> !#[trigger] sets_flag(vars[l], name)) && flags_map(
                flags_of(vars),
            )[name] == is_truthy(vars[j].1),
    decreases vars.len(),
{
    if vars.len() > 0 {
        let init = vars.drop_last();
        let last = vars.last();
        law_flags_map(init, name);
        let m0 = flags_map(flags_of(init));
        let m = flags_map(flags_of(vars));
        if has_prefix(last.0, feature_prefix()) {
            let f = flags_of(init).push((lowered(last.0.skip(feature_prefix().len() as int)), is_truthy(last.1)));
            assert(flags_of(vars) == f);
            assert(f.drop_last() =~= flags_of(init));
        } else {
            assert(flags_of(vars) == flags_of(init));
        }
        if sets_flag(last, name) {
            assert(sets_flag(vars[vars.len() - 1], name));
        } else {
            assert(m.contains_key(name) == m0.contains_key(name));
            if m0.contains_key(name) {
                assert(m[name] == m0[name]);
                let j = choose|j: int|
                    0 <= j < init.len() && #[trigger] sets_flag(init[j], name) && (forall|l: int|
                        j < l < init.len() ==> !#[trigger] sets_flag(init[l], name)) && m0[name]
                        == is_truthy(init[j].1);
                assert(vars[j] == init[j]);
                assert forall|l: int| j < l < vars.len() implies !#[trigger] sets_flag(vars[l], name) by {
                    if l < init.len() {
                        assert(vars[l] == init[l]);
                    }
                }
            }
            if exists|j: int| 0 <= j < vars.len() && #[trigger] sets_flag(vars[j], name) {
                let j = choose|j: int| 0 <= j < vars.len() && #[trigger] sets_flag(vars[j], name);
                assert(j < init.len());
                assert(vars[j] == init[j]);
                assert(sets_flag(init[j], name));
            }
        }
    }
}

/// Variables whose names do not start with `ARENA_FEATURE_` add no flag.
pub proof fn law_other_vars_add_nothing(vars: Seq<(Seq<char>, Seq<char>)>, var: (Seq<char>, Seq<char>))
    requires
        !has_prefix(var.0, feature_prefix()),
    ensures
        flags_of(vars.push(var)) == flags_of(vars),
{
    assert(vars.push(var).drop_last() =~= vars);
}

/// Feature flags from the process environment.
pub fn feature_flags(vars: &Vec<(String, String)>) -> (r: Vec<(String, bool)>)
    ensures
        flags_view(r@) == flags_of(vars_view(vars@)),
{
    let mut out: Vec<(String, bool)> = Vec::new();
    let mut i: usize = 0;
    while i < vars.len()
        invariant
            i <= vars@.len(),
            flags_view(out@) == flags_of(vars_view(vars@).take(i as int)),
        decreases vars@.len() - i,
    {
        let (k, v) = &vars[i];
        assert(vars_view(vars@).take(i + 1).drop_last() =~= vars_view(vars@).take(i as int));
        assert(vars_view(vars@).take(i + 1).last() == (k@, v@));
        proof { reveal_strlit("ARENA_FEATURE_"); }
        match strip_prefix(k.as_str(), "ARENA_FEATURE_") {
            Some(name) => {
                let lname = to_ascii_lowercase(name.as_str());
                let on = truthy(v.as_str());
                out.push((lname, on));
            },
            None => {},
        }
        assert(flags_view(out@) =~= flags_of(vars_view(vars@).take(i + 1)));
        i = i + 1;
    }
    assert(vars_view(vars@).take(vars@.len() as int) =~= vars_view(vars@));
    out
}

/// Settings as given, each possibly missing.
pub struct Config {
    pub bind_addr: Option<String>,
    pub public_base_url: Option<String>,
    pub signaling_ws_url: Option<String>,
    pub db_url: Option<String>,
    pub db_max_conns: Option<u32>,
    pub migrate_on_start: bool,
    pub enable_coop_coep: bool,
    pub static_dir: Option<String>,
    pub assets_dir: Option<String>,
    pub enable_sw: bool,
    pub csp: Option<String>,
}

/// Settings after resolution.
pub struct ResolvedConfig {
    pub bind_addr: String,
    pub public_base_url: String,
    pub signaling_ws_url: String,
    pub db_url: String,
    pub db_max_conns: u32,
    pub migrate_on_start: bool,
    pub enable_coop_coep: bool,
    pub static_dir: String,
    pub assets_dir: String,
    pub enable_sw: bool,
    pub csp: Option<String>,
    pub ice_servers: Vec<IceServerConfig>,
    pub feature_flags: Vec<(String, bool)>,
    pub analytics_enabled: bool,
    pub analytics_opt_out: bool,
    pub analytics_local: bool,
    pub posthog_url: Option<String>,
}

/// A required setting that is missing.
#[derive(Debug, PartialEq, Eq, Structural, Clone, Copy)]
pub enum ConfigError {
    MissingBindAddr,
    MissingPublicBaseUrl,
    MissingSignalingWsUrl,
    MissingDbUrl,
    MissingDbMaxConns,
    MissingStaticDir,
    MissingAssetsDir,
}

/// The environment variable behind each missing setting.
pub open spec fn config_error_variable(e: ConfigError) -> Seq<char> {
    match e {
        ConfigError::MissingBindAddr => "ARENA_BIND_ADDR"@,
        ConfigError::MissingPublicBaseUrl => "ARENA_PUBLIC_BASE_URL"@,
        ConfigError::MissingSignalingWsUrl => "ARENA_SIGNALING_WS_URL"@,
        ConfigError::MissingDbUrl => "ARENA_DB_URL"@,
        ConfigError::MissingDbMaxConns => "ARENA_DB_MAX_CONNS"@,
        ConfigError::MissingStaticDir => "ARENA_STATIC_DIR"@,
        ConfigError::MissingAssetsDir => "ARENA_ASSETS_DIR"@,
    }
}

impl ConfigError {
    /// The message of the error: `<VARIABLE> not set`.
    pub fn message(&self) -> (r: String)
        ensures
            r@ == config_error_variable(*self) + " not set"@,
    {
        let var = match self {
            ConfigError::MissingBindAddr => "ARENA_BIND_ADDR",
            ConfigError::MissingPublicBaseUrl => "ARENA_PUBLIC_BASE_URL",
            ConfigError::MissingSignalingWsUrl => "ARENA_SIGNALING_WS_URL",
            ConfigError::MissingDbUrl => "ARENA_DB_URL",
            ConfigError::MissingDbMaxConns => "ARENA_DB_MAX_CONNS",
            ConfigError::MissingStaticDir => "ARENA_STATIC_DIR",
            ConfigError::MissingAssetsDir => "ARENA_ASSETS_DIR",
        };
        String::from_str(var).concat(" not set")
    }
}

/// The first required setting that is missing, in the order bind address,
/// public base URL, signaling URL, database URL, database connections,
/// static directory, assets directory.
pub open spec fn first_missing(c: Config) -> Option<ConfigError> {
    if c.bind_addr is None {
        Some(ConfigError::MissingBindAddr)
    } else if c.public_base_url is None {
        Some(ConfigError::MissingPublicBaseUrl)
    } else if c.signaling_ws_url is None {
        Some(ConfigError::MissingSignalingWsUrl)
    } else if c.db_url is None {
        Some(ConfigError::MissingDbUrl)
    } else if c.db_max_conns is None {
        Some(ConfigError::MissingDbMaxConns)
    } else if c.static_dir is None {
        Some(ConfigError::MissingStaticDir)
    } else if c.assets_dir is None {
        Some(ConfigError::MissingAssetsDir)
    } else {
        None
    }
}

impl Config {
    /// Resolves the settings, with the ICE servers already read from their
    /// JSON and the process environment for the feature flags. Analytics
    /// start disabled; the caller turns them on.
    pub fn resolve(self, ice_servers: Vec<IceServerConfig>, env_vars: &Vec<(String, String)>) -> (r: Result<ResolvedConfig, ConfigError>)
        ensures
            match first_missing(self) {
                Some(e) => r == Err::<ResolvedConfig, ConfigError>(e),
                None => r matches Ok(c) && {
                    &&& c.bind_addr@ == self.bind_addr->0@
                    &&& c.public_base_url@ == self.public_base_url->0@
                    &&& c.signaling_ws_url@ == self.signaling_ws_url->0@
                    &&& c.db_url@ == self.db_url->0@
                    &&& c.db_max_conns == self.db_max_conns->0
                    &&& c.migrate_on_start == self.migrate_on_start
                    &&& c.enable_coop_coep == self.enable_coop_coep
                    &&& c.static_dir@ == self.static_dir->0@
                    &&& c.assets_dir@ == self.assets_dir->0@
                    &&& c.enable_sw == self.enable_sw
                    &&& c.csp == self.csp
                    &&& c.ice_servers@ == ice_servers@
                    &&& flags_view(c.feature_flags@) == flags_of(vars_view(env_vars@))
                    &&& !c.analytics_enabled
                    &&& !c.analytics_opt_out
                    &&& !c.analytics_local
                    &&& c.posthog_url is None
                },
            },
    {
        let feature_flags = feature_flags(env_vars);
        let bind_addr = match self.bind_addr {
            Some(v) => v,
            None => return Err(ConfigError::MissingBindAddr),
        };
        let public_base_url = match self.public_base_url {
            Some(v) => v,
            None => return Err(ConfigError::MissingPublicBaseUrl),
        };
        let signaling_ws_url = match self.signaling_ws_url {
            Some(v) => v,
            None => return Err(ConfigError::MissingSignalingWsUrl),
        };
        let db_url = match self.db_url {
            Some(v) => v,
            None => return Err(ConfigError::MissingDbUrl),
        };
        let db_max_conns = match self.db_max_conns {
            Some(v) => v,
            None => return Err(ConfigError::MissingDbMaxConns),
        };
        let static_dir = match self.static_dir {
            Some(v) => v,
            None => return Err(ConfigError::MissingStaticDir),
        };
        let assets_dir = match self.assets_dir {
            Some(v) => v,
            None => return Err(ConfigError::MissingAssetsDir),
        };
        Ok(ResolvedConfig {
            bind_addr,
            public_base_url,
            signaling_ws_url,
            db_url,
            db_max_conns,
            migrate_on_start: self.migrate_on_start,
            enable_coop_coep: self.enable_coop_coep,
            static_dir,
            assets_dir,
            enable_sw: self.enable_sw,
            csp: self.csp,
            ice_servers,
            feature_flags,
            analytics_enabled: false,
            analytics_opt_out: false,
            analytics_local: false,
            posthog_url: None,
        })
    }
}

/// Public configuration returned to clients.
pub struct ConfigResponse {
    /// WebSocket signaling URL
    pub signal_url: String,
    /// Base URL for API requests
    pub api_base_url: String,
    /// Whether analytics collection is enabled
    pub analytics_enabled: bool,
    /// Whether analytics collection is opted out
    pub analytics_opt_out: bool,
    /// Whether analytics events are stored locally
    pub analytics_local: bool,
    /// PostHog endpoint (no key)
    pub posthog_url: Option<String>,
    /// Feature flags exposed to the client
    pub feature_flags: Vec<(String, bool)>,
    /// ICE servers used for establishing peer connections
    pub ice_servers: Vec<IceServerConfig>,
    /// Whether COOP/COEP headers are enabled
    pub enable_coop_coep: bool,
    /// Whether service workers are enabled
    pub enable_sw: bool,
}

impl ConfigResponse {
    /// The part of the resolved configuration that clients see.
    pub fn from_resolved(cfg: ResolvedConfig) -> (r: ConfigResponse)
        ensures
            r.signal_url@ == cfg.signaling_ws_url@,
            r.api_base_url@ == cfg.public_base_url@,
            r.analytics_enabled == cfg.analytics_enabled,
            r.analytics_opt_out == cfg.analytics_opt_out,
            r.analytics_local == cfg.analytics_local,
            r.posthog_url == cfg.posthog_url,
            r.feature_flags@ == cfg.feature_flags@,
            r.ice_servers@ == cfg.ice_servers@,
            r.enable_coop_coep == cfg.enable_coop_coep,
            r.enable_sw == cfg.enable_sw,
    {
        ConfigResponse {
            signal_url: cfg.signaling_ws_url,
            api_base_url: cfg.public_base_url,
            analytics_enabled: cfg.analytics_enabled,
            analytics_opt_out: cfg.analytics_opt_out,
            analytics_local: cfg.analytics_local,
            posthog_url: cfg.posthog_url,
            feature_flags: cfg.feature_flags,
            ice_servers: cfg.ice_servers,
            enable_coop_coep: cfg.enable_coop_coep,
            enable_sw: cfg.enable_sw,
        }
    }
}

/// Resolution fails exactly when a required setting is missing, and the
/// error it reports names a setting that is missing, the first in the fixed
/// order: a missing bind address is reported whatever else is missing, and
/// the assets directory only when everything else is set.
pub proof fn law_missing_setting_reported(c: Config)
    ensures
        first_missing(c) is None <==> (c.bind_addr is Some && c.public_base_url is Some && c.signaling_ws_url
            is Some && c.db_url is Some && c.db_max_conns is Some && c.static_dir is Some && c.assets_dir is Some),
        c.bind_addr is None ==> first_missing(c) == Some(ConfigError::MissingBindAddr),
        first_missing(c) == Some(ConfigError::MissingPublicBaseUrl) ==> c.public_base_url is None && c.bind_addr is Some,
        first_missing(c) == Some(ConfigError::MissingSignalingWsUrl) ==> c.signaling_ws_url is None,
        first_missing(c) == Some(ConfigError::MissingDbUrl) ==> c.db_url is None,
        first_missing(c) == Some(ConfigError::MissingDbMaxConns) ==> c.db_max_conns is None,
        first_missing(c) == Some(ConfigError::MissingStaticDir) ==> c.static_dir is None,
        first_missing(c) == Some(ConfigError::MissingAssetsDir) <==> (c.assets_dir is None && c.bind_addr is Some
            && c.public_base_url is Some && c.signaling_ws_url is Some && c.db_url is Some && c.db_max_conns
            is Some && c.static_dir is Some),
{
}

} // verus!
