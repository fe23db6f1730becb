use vstd::prelude::*;

verus! {

/// Settings of a run.
#[derive(Debug, Clone)]
pub struct GeneralConfig {
    pub target_url: String,
    pub concurrency: usize,
    pub debug_mode: bool,
}

/// The egress nodes of a run.
#[derive(Debug, Clone)]
pub struct NetworkConfig {
    pub proxies: Vec<String>,
}

/// The whole configuration: settings, the profile mapping (profile name to
/// impersonation identity, first entry of a name wins) and the nodes.
#[derive(Debug, Clone)]
pub struct Config {
    pub general: GeneralConfig,
    pub profiles: Vec<(String, String)>,
    pub network: NetworkConfig,
}

} // verus!
