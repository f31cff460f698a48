//! The configuration of a monitored project.

use crate::text::{decimal, decimal_of, opt_view, trim, trimmed, views};
use vstd::prelude::*;

verus! {

/// All that `artemis.toml` says but the resource thresholds.
#[derive(Debug, Clone)]
pub struct Config {
    pub name: String,
    pub command: String,
    pub cwd: String,
    pub log_files: Vec<String>,
    pub error_patterns: Vec<String>,
    pub auto_restart: bool,
    pub restart_delay_ms: u64,
    pub max_restarts: u32,
    pub incidents_dir: String,
    pub context_lines: usize,
    pub analyzer_script: String,
    pub resources: ResourceConfig,
    pub escalation: EscalationConfig,
    pub agent_service: AgentServiceConfig,
    pub central: CentralConfig,
    pub orchestrator: OrchestratorConfig,
    pub agents: AgentsConfig,
    pub remote: RemoteConfig,
    pub diagnostics: DiagnosticsConfig,
    pub incidents: IncidentsConfig,
}

/// Whether and how often the system resources are read.
#[derive(Debug, Clone)]
pub struct ResourceConfig {
    pub enabled: bool,
    pub poll_interval_ms: u64,
}

impl Default for ResourceConfig {
    fn default() -> (r: Self)
        ensures
            r == (ResourceConfig { enabled: false, poll_interval_ms: 0 }),
    {
        ResourceConfig { enabled: false, poll_interval_ms: 0 }
    }
}

/// Diagnostic values recorded ahead of an incident: the read-only `commands` run every
/// `poll_interval_ms`, and their output is kept for `retention_mins`.
#[derive(Debug, Clone)]
pub struct DiagnosticsConfig {
    pub enabled: bool,
    pub commands: Vec<String>,
    pub poll_interval_ms: u64,
    pub retention_mins: u64,
}

impl DiagnosticsConfig {
    /// Whether these are the settings as they are before anyone configured them.
    pub open spec fn untouched(self) -> bool {
        &&& !self.enabled
        &&& self.commands@.len() == 0
        &&& self.poll_interval_ms == 30_000
        &&& self.retention_mins == 10
    }
}

impl Default for DiagnosticsConfig {
    fn default() -> (r: Self)
        ensures
            r.untouched(),
    {
        DiagnosticsConfig {
            enabled: false,
            commands: Vec::new(),
            poll_interval_ms: default_diagnostics_poll_interval_ms(),
            retention_mins: default_diagnostics_retention_mins(),
        }
    }
}

/// What each stage of an escalation may do.
#[derive(Debug, Clone)]
pub struct EscalationConfig {
    pub enabled: bool,
    pub verify_window_ms: u64,
    /// A command whose exit code 0 means that the service is healthy.
    pub health_check_command: Option<String>,
    /// The actions that the first stage may take.
    pub stage1_allowed_tools: Vec<String>,
    /// The configuration files that the second stage may edit.
    pub stage3_config_files: Vec<String>,
    /// The command that checks a code fix of the third stage.
    pub stage4_test_command: Option<String>,
    pub execution_model: Option<String>,
    pub execution_base_url: Option<String>,
    pub execution_api_key_env: Option<String>,
    /// The most turns that one stage may take.
    pub max_turns_per_stage: u32,
    /// The tokens that one escalation may use; 0 means without limit.
    pub max_tokens_per_escalation: u64,
}

impl EscalationConfig {
    /// Whether these are the settings as they are before anyone configured them.
    pub open spec fn untouched(self) -> bool {
        &&& self.enabled
        &&& self.verify_window_ms == 15000
        &&& self.health_check_command is None
        &&& self.stage1_allowed_tools@.len() == 0
        &&& self.stage3_config_files@.len() == 0
        &&& self.stage4_test_command is None
        &&& self.execution_model is None
        &&& self.execution_base_url is None
        &&& self.execution_api_key_env is None
        &&& self.max_turns_per_stage == 12
        &&& self.max_tokens_per_escalation == 1_500_000
    }
}

impl Default for EscalationConfig {
    fn default() -> (r: Self)
        ensures
            r.untouched(),
    {
        EscalationConfig {
            enabled: true,
            verify_window_ms: default_verify_window_ms(),
            health_check_command: None,
            stage1_allowed_tools: Vec::new(),
            stage3_config_files: Vec::new(),
            stage4_test_command: None,
            execution_model: None,
            execution_base_url: None,
            execution_api_key_env: None,
            max_turns_per_stage: default_max_turns_per_stage(),
            max_tokens_per_escalation: default_max_tokens_per_escalation(),
        }
    }
}

/// The service that judges and executes escalations.
#[derive(Debug, Clone)]
pub struct AgentServiceConfig {
    pub url: String,
    pub timeout_secs: u64,
    /// The environment variable that holds the bearer token.
    pub token_env: Option<String>,
}

impl AgentServiceConfig {
    /// Whether this is the service as it is before anyone configured it.
    pub open spec fn untouched(self) -> bool {
        &&& self.url@ == "http://127.0.0.1:8787"@
        &&& self.timeout_secs == 600
        &&& self.token_env is None
    }
}

impl Default for AgentServiceConfig {
    fn default() -> (r: Self)
        ensures
            r.untouched(),
    {
        AgentServiceConfig {
            url: default_agent_service_url(),
            timeout_secs: default_agent_service_timeout_secs(),
            token_env: None,
        }
    }
}

/// The collector to which the incidents of several hosts are pushed.
#[derive(Debug, Clone)]
pub struct CentralConfig {
    pub enabled: bool,
    pub collector_url: String,
    pub host_id: String,
    pub token_env: Option<String>,
}

impl CentralConfig {
    /// No collector; this host is known as `host_id`.
    pub fn with_host_id(host_id: String) -> (r: Self)
        ensures
            !r.enabled,
            r.collector_url@ == "http://127.0.0.1:8787"@,
            r.host_id == host_id,
            r.token_env is None,
    {
        CentralConfig {
            enabled: false,
            collector_url: default_central_collector_url(),
            host_id,
            token_env: None,
        }
    }
}

/// The name of this host: the variable `HOSTNAME` where it is set, else what the command
/// `hostname` printed, without the white space around it, else a stand-in.
pub open spec fn host_id(variable: Option<Seq<char>>, printed: Option<Seq<char>>) -> Seq<char> {
    match variable {
        Some(v) => v,
        None => match printed {
            Some(p) => trimmed(p),
            None => "unknown-host"@,
        },
    }
}

/// The name of this host, from the variable `HOSTNAME` and from what the command `hostname`
/// printed.
pub fn choose_host_id(variable: Option<String>, printed: Option<String>) -> (r: String)
    ensures
        r@ == host_id(opt_view(variable), opt_view(printed)),
{
    match variable {
        Some(v) => v,
        None => match printed {
            Some(p) => trim(p.as_str()),
            None => "unknown-host".to_string(),
        },
    }
}

/// The orchestrator that decides which analysis agents look at an incident.
#[derive(Debug, Clone)]
pub struct OrchestratorConfig {
    pub enabled: bool,
    pub base_url: String,
    /// The environment variable that holds the API key.
    pub api_key_env: Option<String>,
    pub model: String,
    pub timeout_secs: u64,
}

impl OrchestratorConfig {
    /// Whether this is the orchestrator as it is before anyone configured it.
    pub open spec fn untouched(self) -> bool {
        &&& !self.enabled
        &&& self.base_url@ == "http://localhost:4000/v1"@
        &&& self.api_key_env is None
        &&& self.model@ == "your-orchestrator-model"@
        &&& self.timeout_secs == 60
    }
}

impl Default for OrchestratorConfig {
    fn default() -> (r: Self)
        ensures
            r.untouched(),
    {
        OrchestratorConfig {
            enabled: false,
            base_url: default_orchestrator_base_url(),
            api_key_env: None,
            model: default_orchestrator_model(),
            timeout_secs: default_orchestrator_timeout_secs(),
        }
    }
}

/// The model of one analysis agent. Without an address and key of its own it uses those of the
/// orchestrator.
#[derive(Debug, Clone)]
pub struct AgentRoleConfig {
    pub model: String,
    pub base_url: Option<String>,
    pub api_key_env: Option<String>,
}

impl AgentRoleConfig {
    /// Whether this is the role as it is before anyone configured it.
    pub open spec fn untouched(self) -> bool {
        self.model@ == "your-orchestrator-model"@ && self.base_url is None && self.api_key_env
            is None
    }
}

impl Default for AgentRoleConfig {
    fn default() -> (r: Self)
        ensures
            r.untouched(),
    {
        AgentRoleConfig {
            model: default_orchestrator_model(),
            base_url: None,
            api_key_env: None,
        }
    }
}

/// The analysis agents that the orchestrator can call.
#[derive(Debug, Clone)]
pub struct AgentsConfig {
    pub risk_analysis: AgentRoleConfig,
    pub security_analysis: AgentRoleConfig,
    pub quick_fix_analysis: AgentRoleConfig,
    pub log_analysis: AgentRoleConfig,
    pub root_cause_analysis: AgentRoleConfig,
}

impl AgentsConfig {
    /// Whether these are the agents as they are before anyone configured them.
    pub open spec fn untouched(self) -> bool {
        &&& self.risk_analysis.untouched()
        &&& self.security_analysis.untouched()
        &&& self.quick_fix_analysis.untouched()
        &&& self.log_analysis.untouched()
        &&& self.root_cause_analysis.untouched()
    }
}

impl Default for AgentsConfig {
    fn default() -> (r: Self)
        ensures
            r.untouched(),
    {
        AgentsConfig {
            risk_analysis: AgentRoleConfig::default(),
            security_analysis: AgentRoleConfig::default(),
            quick_fix_analysis: AgentRoleConfig::default(),
            log_analysis: AgentRoleConfig::default(),
            root_cause_analysis: AgentRoleConfig::default(),
        }
    }
}

/// The device on which the stages may run commands remotely.
#[derive(Debug, Clone)]
pub struct RemoteConfig {
    pub enabled: bool,
    pub device_id: Option<String>,
    pub sanc_bin: String,
    pub state_dir: Option<String>,
    pub timeout_secs: u64,
    /// The remote commands that the first stage may run.
    pub allowed_commands: Vec<String>,
}

impl RemoteConfig {
    /// Whether this is the device as it is before anyone configured it.
    pub open spec fn untouched(self) -> bool {
        &&& !self.enabled
        &&& self.device_id is None
        &&& self.sanc_bin@ == "sanc"@
        &&& self.state_dir is None
        &&& self.timeout_secs == 120
        &&& self.allowed_commands@.len() == 0
    }
}

impl Default for RemoteConfig {
    fn default() -> (r: Self)
        ensures
            r.untouched(),
    {
        RemoteConfig {
            enabled: false,
            device_id: None,
            sanc_bin: default_sanc_bin(),
            state_dir: None,
            timeout_secs: default_remote_timeout_secs(),
            allowed_commands: Vec::new(),
        }
    }
}

/// Deduplication, cooldown and queue limits.
#[derive(Debug, Clone, Copy, PartialEq, Eq, Structural)]
pub struct IncidentsConfig {
    /// An incident that comes again within this many seconds is the same one; 0 turns
    /// deduplication off.
    pub dedup_window_secs: u64,
    /// A recurring incident is escalated again only this many seconds after its last escalation.
    pub cooldown_secs: u64,
    /// An incident that did not come again for more than this many seconds counts as resolved.
    pub resolve_after_secs: u64,
    /// The escalations that one hour may see, over all incidents; 0 means without limit.
    pub max_escalations_per_hour: u32,
    /// How many detected incidents may wait.
    pub max_queue: usize,
    /// How many escalations may be under way at once.
    pub max_pending_escalations: usize,
    /// The pause between two rewrites of one incident, in seconds.
    pub rewrite_interval_secs: u64,
    /// How long a shutdown waits for escalations under way, in seconds.
    pub shutdown_grace_secs: u64,
}

impl Default for IncidentsConfig {
    fn default() -> (r: Self)
        ensures
            r == (IncidentsConfig {
                dedup_window_secs: 300,
                cooldown_secs: 1800,
                resolve_after_secs: 3600,
                max_escalations_per_hour: 6,
                max_queue: 1024,
                max_pending_escalations: 8,
                rewrite_interval_secs: 10,
                shutdown_grace_secs: 30,
            }),
    {
        IncidentsConfig {
            dedup_window_secs: default_dedup_window_secs(),
            cooldown_secs: default_cooldown_secs(),
            resolve_after_secs: default_resolve_after_secs(),
            max_escalations_per_hour: default_max_escalations_per_hour(),
            max_queue: default_max_queue(),
            max_pending_escalations: default_max_pending_escalations(),
            rewrite_interval_secs: default_rewrite_interval_secs(),
            shutdown_grace_secs: default_shutdown_grace_secs(),
        }
    }
}

/// The pause between two readings of the system resources, in milliseconds.
pub fn default_poll_interval_ms() -> (r: u64)
    ensures
        r == 5000,
{
    5000
}

/// The pause between two rounds of diagnostic commands, in milliseconds.
pub fn default_diagnostics_poll_interval_ms() -> (r: u64)
    ensures
        r == 30_000,
{
    30_000
}

/// How long a diagnostic sample is kept, in minutes.
pub fn default_diagnostics_retention_mins() -> (r: u64)
    ensures
        r == 10,
{
    10
}

/// How long a stage waits before it checks whether the problem is gone, in milliseconds.
pub fn default_verify_window_ms() -> (r: u64)
    ensures
        r == 15000,
{
    15000
}

/// The most turns that one stage may take.
pub fn default_max_turns_per_stage() -> (r: u32)
    ensures
        r == 12,
{
    12
}

/// The tokens that one escalation may use.
pub fn default_max_tokens_per_escalation() -> (r: u64)
    ensures
        r == 1_500_000,
{
    1_500_000
}

/// How long a call of the agent service may take, in seconds.
pub fn default_agent_service_timeout_secs() -> (r: u64)
    ensures
        r == 600,
{
    600
}

/// How long a call of the orchestrator may take, in seconds.
pub fn default_orchestrator_timeout_secs() -> (r: u64)
    ensures
        r == 60,
{
    60
}

/// How long a remote command may take, in seconds.
pub fn default_remote_timeout_secs() -> (r: u64)
    ensures
        r == 120,
{
    120
}

/// The deduplication window, in seconds.
pub fn default_dedup_window_secs() -> (r: u64)
    ensures
        r == 300,
{
    300
}

/// The pause between two escalations of one recurring incident, in seconds.
pub fn default_cooldown_secs() -> (r: u64)
    ensures
        r == 1800,
{
    1800
}

/// After how many quiet seconds an incident counts as resolved.
pub fn default_resolve_after_secs() -> (r: u64)
    ensures
        r == 3600,
{
    3600
}

/// The escalations that one hour may see.
pub fn default_max_escalations_per_hour() -> (r: u32)
    ensures
        r == 6,
{
    6
}

/// How many detected incidents may wait.
pub fn default_max_queue() -> (r: usize)
    ensures
        r == 1024,
{
    1024
}

/// How many escalations may be under way at once.
pub fn default_max_pending_escalations() -> (r: usize)
    ensures
        r == 8,
{
    8
}

/// The pause between two rewrites of one incident, in seconds.
pub fn default_rewrite_interval_secs() -> (r: u64)
    ensures
        r == 10,
{
    10
}

/// How long a shutdown waits for escalations under way, in seconds.
pub fn default_shutdown_grace_secs() -> (r: u64)
    ensures
        r == 30,
{
    30
}

/// The pause before a restart, in milliseconds.
pub fn default_restart_delay_ms() -> (r: u64)
    ensures
        r == 2000,
{
    2000
}

/// How often a crashed process is restarted.
pub fn default_max_restarts() -> (r: u32)
    ensures
        r == 5,
{
    5
}

/// How many source lines around an error line a report shows.
pub fn default_context_lines() -> (r: usize)
    ensures
        r == 6,
{
    6
}

/// On.
pub fn default_true() -> (r: bool)
    ensures
        r == true,
{
    true
}

/// Where the agent service listens.
pub fn default_agent_service_url() -> (r: String)
    ensures
        r@ == "http://127.0.0.1:8787"@,
{
    "http://127.0.0.1:8787".to_string()
}

/// Where the collector listens.
pub fn default_central_collector_url() -> (r: String)
    ensures
        r@ == "http://127.0.0.1:8787"@,
{
    "http://127.0.0.1:8787".to_string()
}

/// Where the model gateway listens.
pub fn default_orchestrator_base_url() -> (r: String)
    ensures
        r@ == "http://localhost:4000/v1"@,
{
    "http://localhost:4000/v1".to_string()
}

/// The model that stands in until one is chosen.
pub fn default_orchestrator_model() -> (r: String)
    ensures
        r@ == "your-orchestrator-model"@,
{
    "your-orchestrator-model".to_string()
}

/// The command for remote sessions.
pub fn default_sanc_bin() -> (r: String)
    ensures
        r@ == "sanc"@,
{
    "sanc".to_string()
}

/// The name of a project without one.
pub fn default_name() -> (r: String)
    ensures
        r@ == "unnamed-project"@,
{
    "unnamed-project".to_string()
}

/// The directory in which the process runs.
pub fn default_cwd() -> (r: String)
    ensures
        r@ == "."@,
{
    ".".to_string()
}

/// Where incidents are written.
pub fn default_incidents_dir() -> (r: String)
    ensures
        r@ == "./incidents"@,
{
    "./incidents".to_string()
}

/// The script that writes the root-cause report.
pub fn default_analyzer_script() -> (r: String)
    ensures
        r@ == "./analyzer/analyze.py"@,
{
    "./analyzer/analyze.py".to_string()
}

/// The patterns that mark the first line of an error.
pub open spec fn standard_error_patterns() -> Seq<Seq<char>> {
    seq![
        "Error:"@,
        "ERROR"@,
        "Uncaught"@,
        "UnhandledPromiseRejection"@,
        "FATAL"@,
        "panic:"@,
        "Traceback \\(most recent call last\\)"@,
        "thread '.*' panicked at"@,
    ]
}

/// The patterns that mark the first line of an error.
pub fn default_error_patterns() -> (r: Vec<String>)
    ensures
        views(r@) == standard_error_patterns(),
{
    let mut out: Vec<String> = Vec::new();
    out.push("Error:".to_string());
    out.push("ERROR".to_string());
    out.push("Uncaught".to_string());
    out.push("UnhandledPromiseRejection".to_string());
    out.push("FATAL".to_string());
    out.push("panic:".to_string());
    out.push("Traceback \\(most recent call last\\)".to_string());
    out.push("thread '.*' panicked at".to_string());
    assert(views(out@) =~= standard_error_patterns());
    out
}

/// Why a configuration is refused.
#[derive(Debug, Clone, Copy, PartialEq, Eq, Structural)]
pub enum ConfigError {
    /// A stage needs at least one turn.
    NoTurns,
    /// The queue needs at least one place.
    NoQueue,
    /// At least one escalation must be able to run.
    NoPendingEscalations,
    /// An incident would count as resolved while it still counts as the same one.
    ResolvedInsideWindow { resolve_after_secs: u64, dedup_window_secs: u64 },
}

impl ConfigError {
    /// What a user is told.
    pub open spec fn text(self) -> Seq<char> {
        match self {
            ConfigError::NoTurns => "[escalation] max_turns_per_stage 必須 >= 1"@,
            ConfigError::NoQueue => "[incidents] max_queue 必須 >= 1"@,
            ConfigError::NoPendingEscalations => "[incidents] max_pending_escalations 必須 >= 1"@,
            ConfigError::ResolvedInsideWindow { resolve_after_secs, dedup_window_secs } => {
                "[incidents] resolve_after_secs ("@ + decimal(resolve_after_secs as nat)
                    + ") 必須 >= dedup_window_secs ("@ + decimal(dedup_window_secs as nat) + ")"@
            },
        }
    }

    /// What a user is told.
    pub fn message(&self) -> (r: String)
        ensures
            r@ == self.text(),
    {
        match self {
            ConfigError::NoTurns => "[escalation] max_turns_per_stage 必須 >= 1".to_string(),
            ConfigError::NoQueue => "[incidents] max_queue 必須 >= 1".to_string(),
            ConfigError::NoPendingEscalations => {
                "[incidents] max_pending_escalations 必須 >= 1".to_string()
            },
            ConfigError::ResolvedInsideWindow { resolve_after_secs, dedup_window_secs } => {
                let mut out = "[incidents] resolve_after_secs (".to_string();
                let resolve = decimal_of(*resolve_after_secs);
                out.append(resolve.as_str());
                out.append(") 必須 >= dedup_window_secs (");
                let window = decimal_of(*dedup_window_secs);
                out.append(window.as_str());
                out.append(")");
                out
            },
        }
    }
}

impl Config {
    /// The first rule that the configuration breaks, if any.
    pub open spec fn fault(self) -> Option<ConfigError> {
        if self.escalation.max_turns_per_stage < 1 {
            Some(ConfigError::NoTurns)
        } else if self.incidents.max_queue < 1 {
            Some(ConfigError::NoQueue)
        } else if self.incidents.max_pending_escalations < 1 {
            Some(ConfigError::NoPendingEscalations)
        } else if self.incidents.resolve_after_secs < self.incidents.dedup_window_secs {
            Some(
                ConfigError::ResolvedInsideWindow {
                    resolve_after_secs: self.incidents.resolve_after_secs,
                    dedup_window_secs: self.incidents.dedup_window_secs,
                },
            )
        } else {
            None
        }
    }

    /// The configuration of a file that names the command alone, on the host `host_id`. It
    /// breaks no rule.
    pub fn for_command(command: String, host_id: String) -> (r: Config)
        ensures
            r.fault() is None,
            r.name@ == "unnamed-project"@,
            r.command == command,
            r.cwd@ == "."@,
            r.log_files@.len() == 0,
            views(r.error_patterns@) == standard_error_patterns(),
            r.auto_restart,
            r.restart_delay_ms == 2000,
            r.max_restarts == 5,
            r.incidents_dir@ == "./incidents"@,
            r.context_lines == 6,
            r.analyzer_script@ == "./analyzer/analyze.py"@,
            r.resources == (ResourceConfig { enabled: false, poll_interval_ms: 0 }),
            r.escalation.untouched(),
            r.agent_service.untouched(),
            !r.central.enabled,
            r.central.collector_url@ == "http://127.0.0.1:8787"@,
            r.central.host_id == host_id,
            r.central.token_env is None,
            r.orchestrator.untouched(),
            r.agents.untouched(),
            r.remote.untouched(),
            r.diagnostics.untouched(),
            r.incidents.dedup_window_secs == 300,
            r.incidents.cooldown_secs == 1800,
            r.incidents.resolve_after_secs == 3600,
            r.incidents.max_escalations_per_hour == 6,
            r.incidents.max_queue == 1024,
            r.incidents.max_pending_escalations == 8,
            r.incidents.rewrite_interval_secs == 10,
            r.incidents.shutdown_grace_secs == 30,
    {
        Config {
            name: default_name(),
            command,
            cwd: default_cwd(),
            log_files: Vec::new(),
            error_patterns: default_error_patterns(),
            auto_restart: default_true(),
            restart_delay_ms: default_restart_delay_ms(),
            max_restarts: default_max_restarts(),
            incidents_dir: default_incidents_dir(),
            context_lines: default_context_lines(),
            analyzer_script: default_analyzer_script(),
            resources: ResourceConfig::default(),
            escalation: EscalationConfig::default(),
            agent_service: AgentServiceConfig::default(),
            central: CentralConfig::with_host_id(host_id),
            orchestrator: OrchestratorConfig::default(),
            agents: AgentsConfig::default(),
            remote: RemoteConfig::default(),
            diagnostics: DiagnosticsConfig::default(),
            incidents: IncidentsConfig::default(),
        }
    }

    /// Checks the limits that span fields. A value of 0 for `max_escalations_per_hour` or
    /// `dedup_window_secs` is in order.
    pub fn validate(&self) -> (r: Result<(), ConfigError>)
        ensures
            r == (match self.fault() {
                Some(e) => Err(e),
                None => Ok(()),
            }),
    {
        if self.escalation.max_turns_per_stage < 1 {
            return Err(ConfigError::NoTurns);
        }
        let inc = &self.incidents;
        if inc.max_queue < 1 {
            return Err(ConfigError::NoQueue);
        }
        if inc.max_pending_escalations < 1 {
            return Err(ConfigError::NoPendingEscalations);
        }
        if inc.resolve_after_secs < inc.dedup_window_secs {
            return Err(
                ConfigError::ResolvedInsideWindow {
                    resolve_after_secs: inc.resolve_after_secs,
                    dedup_window_secs: inc.dedup_window_secs,
                },
            );
        }
        Ok(())
    }

    /// A configuration file to start from.
    pub const EXAMPLE: &'static str = r#"# artemis.toml — Agent 版 autoheal 設定檔

name = "my-service"

# 要監控的啟動指令(會被 artemis 接管執行與監看)
command = "node server.js"

# 執行目錄(相對於此設定檔)
cwd = "."

# 額外要監看的 log 檔案(除了指令本身的 stdout/stderr)
log_files = []

# 觸發事件記錄的錯誤特徵(正規表示式)
error_patterns = [
    "Error:",
    "ERROR",
    "Uncaught",
    "UnhandledPromiseRejection",
    "FATAL",
    "panic:",
    "Traceback \\(most recent call last\\)",
    "thread '.*' panicked at",
]

# 偵測到程序崩潰時是否自動重啟
auto_restart = true
restart_delay_ms = 2000
max_restarts = 5

# 事件記錄輸出目錄
incidents_dir = "./incidents"

# 根因分析時,錯誤行前後各取幾行原始碼作為上下文
context_lines = 6

# 根因分析交由 Python 腳本處理(以 uv 管理環境與依賴)
analyzer_script = "./analyzer/analyze.py"

# 系統資源監控(CPU/記憶體/磁碟)
[resources]
enabled = false
poll_interval_ms = 5000
cpu_percent = 90.0
memory_percent = 90.0
disk_percent = 90.0

# AI 分級自主處置(執行層是 agent_service,OpenAI Agents SDK 服務,見下方):
#   第一層 即時處置(僅限白名單指令)+ 根因初判
#   → 驗證 →
#   第二層 伺服器/應用參數調整(僅限指定設定檔)
#   → 驗證 →
#   第三層 程式碼層級暫時修復(可讀寫程式碼,但不自動 commit)
[escalation]
enabled = true
verify_window_ms = 15000
# health_check_command = "curl -sf http://localhost:3000/healthz"

stage1_allowed_tools = [
    # "Bash(systemctl restart myapp)",
    # "Bash(pkill -f myapp)",
]

stage3_config_files = [
    # "./config/app.toml",
]

# stage4_test_command = "npm test"

# execution_model = "your-execution-model"      # 未設定則沿用 [orchestrator].model
# execution_base_url = "http://localhost:4000/v1"
# execution_api_key_env = "LITELLM_API_KEY"

# stage1~3 每一層 Runner.run() 的 max_turns 上限(每輪都會重送完整對話歷史給模型,
# 調低可壓低 token 成本)。
max_turns_per_stage = 12
# 單次事件升級(stage0 多模型分析 + stage1~3)累計可用的 token 預算,超過後跳過
# 尚未執行的後續階段。0 表示不限制。
max_tokens_per_escalation = 1500000

# 取代命令列助手的 Python 服務(agent_service/,OpenAI Agents SDK):
# 判斷層與執行層都在這裡執行,偵測到事件時 Rust 會呼叫這個本機 HTTP 服務。
# 啟動方式:cd agent_service && uv run uvicorn main:app --port 8787
[agent_service]
url = "http://127.0.0.1:8787"
timeout_secs = 600
# 若 agent_service 綁定在 127.0.0.1(預設)以外的位址,務必設定這個欄位並在
# agent_service 端匯出同名環境變數 ARTEMIS_AGENT_SERVICE_TOKEN,否則任何能
# 連到這個服務的人都可以叫它對這個 repo 執行任意 bash / 寫入任意檔案。
# token_env = "ARTEMIS_AGENT_SERVICE_TOKEN"

# 多主機事件彙整(選用):啟用後每筆事件都會推一份到共用的 collector
# (可以直接指到 agent_service,它同時提供 /escalate 與 /incidents),不論
# 這台 host 有沒有開 escalation。用於多伺服器/多專案時有一個共同查詢入口。
[central]
enabled = false
collector_url = "http://127.0.0.1:8787"
# host_id 預設用系統 hostname,多台機器建議明確指定以利辨識
# host_id = "prod-web-01"
# token_env = "ARTEMIS_AGENT_SERVICE_TOKEN"

# 多模型 agent harness:事件發生時,先由 orchestrator model 動態決定要派哪些
# 分析 agent(風險/安全性/快速修復/log/根因),再彙整成 stage1~3 執行時的參考依據。
# 透過 LiteLLM 的 OpenAI-compatible API 呼叫,不同角色可以指定不同模型,
# 也可以個別覆寫成不同的 provider。
[orchestrator]
enabled = false
base_url = "http://localhost:4000/v1"
# api_key_env = "LITELLM_API_KEY"
model = "your-orchestrator-model"
timeout_secs = 60

[agents.risk_analysis]
model = "your-risk-analysis-model"

[agents.security_analysis]
model = "your-security-analysis-model"
# base_url = "https://api.example-other-provider.com/v1"
# api_key_env = "OTHER_PROVIDER_API_KEY"

[agents.quick_fix_analysis]
model = "your-quick-fix-analysis-model"

[agents.log_analysis]
model = "your-log-analysis-model"

[agents.root_cause_analysis]
model = "your-root-cause-analysis-model"

# 遠端執行後端(選用):透過 SessAnchor(`sanc` CLI/MCP)讓 stage1/stage3 的
# remote_exec 工具可以在設定好的裝置上執行指令,並用 sanc 自己的 session/
# request_id 留下可查的執行紀錄(交接時不用重新確認 SSH 能不能連線)。
# 目前 sanc 還是 prototype 階段,不保證斷線後遠端任務會持續。
[remote]
enabled = false
# device_id = "prod-web-01"          # 需先用 `sanc device add` 設定好
# sanc_bin = "sanc"                  # 預設從 PATH 找,也可指定完整路徑
# state_dir = "/var/lib/sessanchor"  # 對應 sanc --state-dir,預設用 sanc 自己的預設值
timeout_secs = 120
allowed_commands = [
    # "Bash(systemctl restart myapp)",
]

# 事件去重/冷卻(Milestone 1)。目前這個表格的欄位還沒有程式碼在讀取
# (dedup.rs 尚未接進 Store/recorder),先讓設定檔可以帶著這些值並通過驗證,
# 之後接上後行為才會改變。
[incidents]
# 同一指紋在這個秒數內再次發生視為「同一事件」,只累加次數不重新升級處置。
# 設為 0 表示關閉去重,每次都當新事件。
dedup_window_secs = 300
# 事件被判定為「重新發生」(recurrence,例如之前已標記 Mitigated/Resolved)
# 時,距離上次升級處置至少要經過這個秒數才會再次升級,否則視為
# suppressed("cooldown")。
cooldown_secs = 1800
# 超過這個秒數沒有再出現的事件視為已自然解決。必須 >= dedup_window_secs。
resolve_after_secs = 3600
# 全域 storm guard:所有指紋共用,每小時最多允許幾次升級處置(呼叫
# agent_service),避免短時間大量不同錯誤把 LLM/agent_service 打爆。
# 0 表示不限制。
max_escalations_per_hour = 6
# 事件記錄佇列長度上限。
max_queue = 1024
# 同時等待中的升級處置(呼叫 agent_service)數量上限,注意 agent_service
# 的 HTTP timeout(見 [agent_service] timeout_secs)包含排在同一個
# 專案前面的升級處置的等待時間 —— 佇列愈滿,排在後面的請求愈可能連
# 排隊時間都算進自己的 timeout 裡而逾時。
max_pending_escalations = 8
# 指紋/狀態表定期落地到磁碟的間隔秒數。
rewrite_interval_secs = 10
# 收到結束訊號時,等待進行中升級處置完成的最長秒數。
shutdown_grace_secs = 30
"#;
}

}
