//! Configuration, and the decision between the development server and built output.
use vstd::prelude::*;

use crate::text::str_eq;

verus! {

/// Where assets are served from.
#[derive(Debug, PartialEq, Eq, Clone, Copy, Structural)]
pub enum ViteMode {
    /// Live, from the development server.
    Development,
    /// From the built output that the manifest describes.
    Manifest,
}

/// What mode discovery settled on without the network, or that it needs the probe.
#[derive(Debug, PartialEq, Eq, Clone, Copy, Structural)]
pub enum ModeDiscovery {
    Decided(ViteMode),
    /// Probe the development server; the mode follows from the answer
    /// (see `ViteMode::from_heart_beat`).
    ProbeDevServer,
}

/// The environment variables that mark a production environment when set to
/// `production`.
pub open spec fn is_production_key(k: Seq<char>) -> bool {
    k == "RUST_ENV"@ || k == "NODE_ENV"@ || k == "APP_ENV"@ || k == "__TEST_APP_ENV"@ || k
        == "LOCO_ENV"@ || k == "RAILS_ENV"@
}

/// Some variable of the list is a production marker set to `production`.
pub open spec fn production_env(vars: Seq<(String, String)>) -> bool {
    exists|i: int|
        0 <= i < vars.len() && is_production_key((#[trigger] vars[i]).0@) && vars[i].1@
            == "production"@
}

/// The mode discovery rule, in order: no heartbeat check means development; no
/// development server means manifest; a production environment means manifest;
/// otherwise the probe decides.
pub open spec fn discovery(use_hb: bool, use_dev_server: bool, production: bool) -> ModeDiscovery {
    if !use_hb {
        ModeDiscovery::Decided(ViteMode::Development)
    } else if !use_dev_server {
        ModeDiscovery::Decided(ViteMode::Manifest)
    } else if production {
        ModeDiscovery::Decided(ViteMode::Manifest)
    } else {
        ModeDiscovery::ProbeDevServer
    }
}

impl ViteMode {
    /// Decides the mode as far as configuration and environment allow.
    pub fn discover(use_hb: bool, use_dev_server: bool, production: bool) -> (r: ModeDiscovery)
        ensures
            r == discovery(use_hb, use_dev_server, production),
            !use_hb ==> r == ModeDiscovery::Decided(ViteMode::Development),
    {
        if !use_hb {
            return ModeDiscovery::Decided(ViteMode::Development);
        }
        if !use_dev_server {
            return ModeDiscovery::Decided(ViteMode::Manifest);
        }
        if production {
            return ModeDiscovery::Decided(ViteMode::Manifest);
        }
        ModeDiscovery::ProbeDevServer
    }

    /// The mode after probing the development server: development if it answered.
    pub fn from_heart_beat(alive: bool) -> (r: ViteMode)
        ensures
            r == (if alive {
                ViteMode::Development
            } else {
                ViteMode::Manifest
            }),
    {
        if alive {
            ViteMode::Development
        } else {
            ViteMode::Manifest
        }
    }
}

/// Tells whether one of the production markers is set to `production` among the
/// given environment variables.
pub fn is_production(vars: &Vec<(String, String)>) -> (r: bool)
    ensures
        r == production_env(vars@),
{
    let mut i: usize = 0;
    while i < vars.len()
        invariant
            i <= vars@.len(),
            forall|k: int|
                0 <= k < i ==> !(is_production_key((#[trigger] vars@[k]).0@) && vars@[k].1@
                    == "production"@),
        decreases vars@.len() - i,
    {
        let k = vars[i].0.as_str();
        let key_matches = str_eq(k, "RUST_ENV") || str_eq(k, "NODE_ENV") || str_eq(k, "APP_ENV")
            || str_eq(k, "__TEST_APP_ENV") || str_eq(k, "LOCO_ENV") || str_eq(k, "RAILS_ENV");
        if key_matches && str_eq(vars[i].1.as_str(), "production") {
            return true;
        }
        i = i + 1;
    }
    false
}

/// The development server's default address.
pub const DEFAULT_SERVER_HOST: &'static str = "http://localhost:5173";

/// The default number of heartbeat retries.
pub const DEFAULT_HEART_BEAT_RETRIES: u8 = 5;

#[derive(Debug, PartialEq, Eq, Clone)]
pub struct ViteConfig<'a> {
    /// The path of the build manifest file.
    pub manifest_path: Option<&'a str>,
    /// The entrypoints to render tags for. If `None`, every chunk of the manifest
    /// marked as an entry is one.
    pub entrypoints: Option<Vec<&'a str>>,
    /// A mode that skips discovery.
    pub force_mode: Option<ViteMode>,
    /// Whether to probe the development server. If false, and no mode is forced,
    /// the mode is `Development`.
    pub use_heart_beat_check: bool,
    /// How many times the probe is retried after a failed request.
    pub heart_beat_retries_limit: Option<u8>,
    /// Whether the development server is considered at all.
    pub enable_dev_server: bool,
    /// The development server's address, protocol included.
    pub server_host: Option<&'a str>,
    /// Prefix asset paths with the given `str`.
    pub prefix: Option<&'a str>,
    /// A base URL to put before every asset path.
    pub app_url: Option<&'a str>,
}

impl<'a> ViteConfig<'a> {
    /// Whether the configuration needs the manifest loaded under `mode`: in
    /// manifest mode, or when the entrypoints come from the manifest.
    pub open spec fn manifest_needed(&self, mode: ViteMode) -> bool {
        mode == ViteMode::Manifest || self.entrypoints is None
    }

    /// Creates a configuration with `manifest_path` and `entrypoints` set and the
    /// defaults elsewhere.
    pub fn new(manifest_path: &'a str, entrypoints: Vec<&'a str>) -> (r: Self)
        ensures
            r == (ViteConfig {
                manifest_path: Some(manifest_path),
                entrypoints: Some(entrypoints),
                ..default_config()
            }),
    {
        ViteConfig::default().set_manifest_path(manifest_path).set_entrypoints(entrypoints)
    }

    pub fn set_manifest_path(self, manifest_path: &'a str) -> (r: Self)
        ensures
            r == (ViteConfig { manifest_path: Some(manifest_path), ..self }),
    {
        ViteConfig { manifest_path: Some(manifest_path), ..self }
    }

    pub fn set_entrypoints(self, entrypoints: Vec<&'a str>) -> (r: Self)
        ensures
            r == (ViteConfig { entrypoints: Some(entrypoints), ..self }),
    {
        ViteConfig { entrypoints: Some(entrypoints), ..self }
    }

    pub fn set_force_mode(self, mode: ViteMode) -> (r: Self)
        ensures
            r == (ViteConfig { force_mode: Some(mode), ..self }),
    {
        ViteConfig { force_mode: Some(mode), ..self }
    }

    pub fn set_server_host(self, server_host: &'a str) -> (r: Self)
        ensures
            r == (ViteConfig { server_host: Some(server_host), ..self }),
    {
        ViteConfig { server_host: Some(server_host), ..self }
    }

    pub fn set_heart_beat_retries_limit(self, limit: u8) -> (r: Self)
        ensures
            r == (ViteConfig { heart_beat_retries_limit: Some(limit), ..self }),
    {
        ViteConfig { heart_beat_retries_limit: Some(limit), ..self }
    }

    pub fn without_heart_beat_check(self) -> (r: Self)
        ensures
            r == (ViteConfig { use_heart_beat_check: false, ..self }),
    {
        ViteConfig { use_heart_beat_check: false, ..self }
    }

    pub fn without_dev_server(self) -> (r: Self)
        ensures
            r == (ViteConfig { enable_dev_server: false, ..self }),
    {
        ViteConfig { enable_dev_server: false, ..self }
    }

    pub fn set_prefix(self, prefix: &'a str) -> (r: Self)
        ensures
            r == (ViteConfig { prefix: Some(prefix), ..self }),
    {
        ViteConfig { prefix: Some(prefix), ..self }
    }

    pub fn set_app_url(self, app_url: &'a str) -> (r: Self)
        ensures
            r == (ViteConfig { app_url: Some(app_url), ..self }),
    {
        ViteConfig { app_url: Some(app_url), ..self }
    }

    /// The mode as far as configuration and environment decide it: the forced mode
    /// if any, else the discovery rule.
    pub fn resolve_mode(&self, production: bool) -> (r: ModeDiscovery)
        ensures
            r == (match self.force_mode {
                Some(m) => ModeDiscovery::Decided(m),
                None => discovery(self.use_heart_beat_check, self.enable_dev_server, production),
            }),
    {
        match self.force_mode {
            Some(m) => ModeDiscovery::Decided(m),
            None => ViteMode::discover(self.use_heart_beat_check, self.enable_dev_server, production),
        }
    }

    /// Tells whether the manifest must be loaded under `mode`.
    pub fn needs_manifest(&self, mode: ViteMode) -> (r: bool)
        ensures
            r == self.manifest_needed(mode),
    {
        mode == ViteMode::Manifest || self.entrypoints.is_none()
    }
}

/// The default configuration: heartbeat check and development server on, the
/// default host and retry count, nothing else set.
pub open spec fn default_config<'a>() -> ViteConfig<'a> {
    ViteConfig {
        manifest_path: None,
        entrypoints: None,
        force_mode: None,
        use_heart_beat_check: true,
        heart_beat_retries_limit: Some(DEFAULT_HEART_BEAT_RETRIES),
        enable_dev_server: true,
        server_host: Some(DEFAULT_SERVER_HOST),
        prefix: None,
        app_url: None,
    }
}

impl Default for ViteConfig<'_> {
    fn default() -> (r: Self)
        ensures
            r == default_config(),
    {
        ViteConfig {
            enable_dev_server: true,
            entrypoints: None,
            manifest_path: None,
            force_mode: None,
            server_host: Some(DEFAULT_SERVER_HOST),
            use_heart_beat_check: true,
            heart_beat_retries_limit: Some(DEFAULT_HEART_BEAT_RETRIES),
            prefix: None,
            app_url: None,
        }
    }
}

} // verus!
