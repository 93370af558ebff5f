//! Configuration model: the agent, cloud, extractor, watcher, spool and
//! per-instrument settings, their defaults, and structural validation.
//! Reading and parsing the configuration file happens outside the library;
//! the parsed values are handed in as plain data.

use vstd::prelude::*;

use crate::errors::ConfigError;
use crate::types::Vendor;

verus! {

/// Agent-level configuration.
#[derive(Debug, Clone)]
pub struct AgentConfig {
    /// Stable instance id, or `auto` to derive one from the machine.
    pub agent_id: String,
    /// Log level name.
    pub log_level: String,
    /// Enable desktop notifications for processing events.
    pub enable_toast_notifications: bool,
}

/// Cloud connection configuration.
#[derive(Debug, Clone)]
pub struct CloudConfig {
    /// Base URL of the ingestion service, with a trailing slash.
    pub endpoint: String,
    /// Client-certificate selector in the platform store.
    pub certificate_thumbprint: Option<String>,
    /// Bearer token, preferred over the certificate when present.
    pub api_token: Option<String>,
    /// Proxy URL.
    pub proxy: Option<String>,
}

/// Extractor configuration.
#[derive(Debug, Clone)]
pub struct SkylineConfig {
    /// Path of the extractor binary; absent or `auto` asks for discovery.
    pub path: Option<String>,
    /// Extraction wall-clock budget in seconds.
    pub timeout_seconds: u64,
    /// Subprocess priority class name.
    pub process_priority: String,
}

/// File-watcher configuration.
#[derive(Debug, Clone, Copy)]
pub struct WatcherConfig {
    /// Whether directory-change events are used on local paths.
    pub use_filesystem_events: bool,
    /// Poll period in seconds.
    pub scan_interval_seconds: u64,
    /// How long size and mtime must hold still before an artifact is ready.
    pub stability_window_seconds: u64,
    /// How long stabilization may take before the artifact is failed.
    pub stabilization_timeout_seconds: u64,
}

/// Spool configuration.
#[derive(Debug, Clone, Copy)]
pub struct SpoolConfig {
    /// Size cap of the pending directory, in MB.
    pub max_pending_mb: u64,
    /// Age cap of pending and failed payloads, in days.
    pub max_age_days: u64,
    /// How many completed payloads are retained.
    pub completed_retention_count: usize,
}

/// One watched instrument.
#[derive(Debug, Clone)]
pub struct InstrumentConfig {
    /// Unique identifier of the instrument.
    pub id: String,
    /// Vendor of the instrument.
    pub vendor: Vendor,
    /// Directory watched for raw artifacts.
    pub watch_path: String,
    /// Glob pattern of artifact names under the watch path.
    pub file_pattern: String,
    /// Extractor template file name.
    pub template: String,
}

/// The whole configuration.
#[derive(Debug, Clone)]
pub struct Config {
    /// Path the configuration was loaded from.
    pub path: String,
    pub agent: AgentConfig,
    pub cloud: CloudConfig,
    pub skyline: SkylineConfig,
    pub watcher: WatcherConfig,
    pub spool: SpoolConfig,
    pub instruments: Vec<InstrumentConfig>,
}

impl CloudConfig {
    /// Copy the cloud settings.
    pub fn clone_cfg(&self) -> (r: CloudConfig)
        ensures
            r == *self,
    {
        CloudConfig {
            endpoint: self.endpoint.clone(),
            certificate_thumbprint: match &self.certificate_thumbprint {
                Some(t) => Some(t.clone()),
                None => None,
            },
            api_token: match &self.api_token {
                Some(t) => Some(t.clone()),
                None => None,
            },
            proxy: match &self.proxy {
                Some(t) => Some(t.clone()),
                None => None,
            },
        }
    }
}

impl InstrumentConfig {
    /// Copy one instrument entry.
    pub fn clone_cfg(&self) -> (r: InstrumentConfig)
        ensures
            r == *self,
    {
        InstrumentConfig {
            id: self.id.clone(),
            vendor: self.vendor,
            watch_path: self.watch_path.clone(),
            file_pattern: self.file_pattern.clone(),
            template: self.template.clone(),
        }
    }
}

pub fn default_agent_id() -> (r: String)
    ensures
        r@ == "auto"@,
{
    String::from_str("auto")
}

pub fn default_log_level() -> (r: String)
    ensures
        r@ == "info"@,
{
    String::from_str("info")
}

pub fn default_endpoint() -> (r: String)
    ensures
        r@ == "https://qc-ingest.massdynamics.com/v1/"@,
{
    String::from_str("https://qc-ingest.massdynamics.com/v1/")
}

pub fn default_skyline_timeout() -> (r: u64)
    ensures
        r == 300,
{
    300
}

pub fn default_process_priority() -> (r: String)
    ensures
        r@ == "below_normal"@,
{
    String::from_str("below_normal")
}

pub fn default_true() -> (r: bool)
    ensures
        r,
{
    true
}

pub fn default_scan_interval() -> (r: u64)
    ensures
        r == 30,
{
    30
}

pub fn default_stability_window() -> (r: u64)
    ensures
        r == 60,
{
    60
}

pub fn default_stabilization_timeout() -> (r: u64)
    ensures
        r == 600,
{
    600
}

pub fn default_max_pending_mb() -> (r: u64)
    ensures
        r == 1000,
{
    1000
}

pub fn default_max_age_days() -> (r: u64)
    ensures
        r == 30,
{
    30
}

pub fn default_completed_retention() -> (r: usize)
    ensures
        r == 10,
{
    10
}

pub fn default_file_pattern() -> (r: String)
    ensures
        r@ == "*"@,
{
    String::from_str("*")
}

impl Default for AgentConfig {
    fn default() -> (r: AgentConfig)
        ensures
            r.agent_id@ == "auto"@,
            r.log_level@ == "info"@,
            !r.enable_toast_notifications,
    {
        AgentConfig {
            agent_id: default_agent_id(),
            log_level: default_log_level(),
            enable_toast_notifications: false,
        }
    }
}

impl Default for CloudConfig {
    fn default() -> (r: CloudConfig)
        ensures
            r.endpoint@ == "https://qc-ingest.massdynamics.com/v1/"@,
            r.certificate_thumbprint is None,
            r.api_token is None,
            r.proxy is None,
    {
        CloudConfig {
            endpoint: default_endpoint(),
            certificate_thumbprint: None,
            api_token: None,
            proxy: None,
        }
    }
}

impl Default for SkylineConfig {
    fn default() -> (r: SkylineConfig)
        ensures
            r.path is None,
            r.timeout_seconds == 300,
            r.process_priority@ == "below_normal"@,
    {
        SkylineConfig {
            path: None,
            timeout_seconds: default_skyline_timeout(),
            process_priority: default_process_priority(),
        }
    }
}

impl Default for WatcherConfig {
    fn default() -> (r: WatcherConfig)
        ensures
            r.use_filesystem_events,
            r.scan_interval_seconds == 30,
            r.stability_window_seconds == 60,
            r.stabilization_timeout_seconds == 600,
    {
        WatcherConfig {
            use_filesystem_events: true,
            scan_interval_seconds: default_scan_interval(),
            stability_window_seconds: default_stability_window(),
            stabilization_timeout_seconds: default_stabilization_timeout(),
        }
    }
}

impl Default for SpoolConfig {
    fn default() -> (r: SpoolConfig)
        ensures
            r.max_pending_mb == 1000,
            r.max_age_days == 30,
            r.completed_retention_count == 10,
    {
        SpoolConfig {
            max_pending_mb: default_max_pending_mb(),
            max_age_days: default_max_age_days(),
            completed_retention_count: default_completed_retention(),
        }
    }
}

impl Default for Config {
    fn default() -> (r: Config)
        ensures
            r.path@ == Seq::<char>::empty(),
            r.instruments@.len() == 0,
    {
        Config {
            path: String::new(),
            agent: AgentConfig::default(),
            cloud: CloudConfig::default(),
            skyline: SkylineConfig::default(),
            watcher: WatcherConfig::default(),
            spool: SpoolConfig::default(),
            instruments: Vec::new(),
        }
    }
}

/// A structurally valid instrument entry: no empty id, watch path or
/// template.
pub open spec fn spec_instrument_valid(inst: InstrumentConfig) -> bool {
    inst.id@.len() > 0 && inst.watch_path@.len() > 0 && inst.template@.len() > 0
}

impl Config {
    /// A structurally valid configuration: every instrument entry is valid.
    pub open spec fn spec_valid(self) -> bool {
        forall|k: int|
            0 <= k < self.instruments@.len() ==> spec_instrument_valid(#[trigger] self.instruments@[k])
    }

    /// Validate the configuration: succeeds exactly when every instrument
    /// entry has a non-empty id, watch path and template.
    pub fn validate(&self) -> (r: Result<(), ConfigError>)
        ensures
            r is Ok <==> self.spec_valid(),
    {
        let n = self.instruments.len();
        let mut i: usize = 0;
        while i < n
            invariant
                i <= n,
                n == self.instruments@.len(),
                forall|k: int| 0 <= k < i ==> spec_instrument_valid(#[trigger] self.instruments@[k]),
            decreases n - i,
        {
            let inst = &self.instruments[i];
            if inst.id.as_str().is_empty() {
                return Err(ConfigError::Invalid(
                    String::from_str("instrument has empty id"),
                ));
            }
            if inst.watch_path.as_str().is_empty() {
                return Err(ConfigError::Invalid(
                    String::from_str("instrument '").concat(inst.id.as_str()).concat(
                        "' has empty watch_path",
                    ),
                ));
            }
            if inst.template.as_str().is_empty() {
                return Err(ConfigError::Invalid(
                    String::from_str("instrument '").concat(inst.id.as_str()).concat(
                        "' has empty template",
                    ),
                ));
            }
            i = i + 1;
        }
        Ok(())
    }
}

/// The agent id to use: the configured one, unless it is `auto`, in which
/// case the machine-derived id is taken.
pub fn resolve_agent_id(configured: &String, generated: &String) -> (r: String)
    ensures
        configured@ == "auto"@ ==> r@ == generated@,
        configured@ != "auto"@ ==> r@ == configured@,
{
    proof {
        reveal_strlit("auto");
    }
    if crate::text::str_eq(configured.as_str(), "auto") {
        generated.clone()
    } else {
        configured.clone()
    }
}

} // verus!
