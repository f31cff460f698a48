//! What the configuration promises.

use crate::config::{
    host_id, standard_error_patterns, AgentRoleConfig, AgentServiceConfig, AgentsConfig, Config,
    ConfigError, DiagnosticsConfig, EscalationConfig, OrchestratorConfig, RemoteConfig,
};
use crate::text::{decimal, trimmed};
use vstd::prelude::*;

verus! {

/// A configuration is in order if and only if a stage may take a turn, an incident may wait, an
/// escalation may be under way, and an incident does not count as resolved while it still counts as
/// the same one. All else is free.
pub proof fn law_configuration_in_order(cfg: Config)
    ensures
        cfg.fault() is None <==> {
            &&& cfg.escalation.max_turns_per_stage != 0
            &&& cfg.incidents.max_queue != 0
            &&& cfg.incidents.max_pending_escalations != 0
            &&& cfg.incidents.dedup_window_secs <= cfg.incidents.resolve_after_secs
        },
{
}

/// What is told of a configuration that is not in order is true of it.
pub proof fn law_fault_is_there(cfg: Config, resolve: u64, window: u64)
    ensures
        cfg.fault() == Some(ConfigError::NoTurns) <==> cfg.escalation.max_turns_per_stage == 0,
        cfg.fault() == Some(ConfigError::NoQueue) ==> cfg.incidents.max_queue == 0,
        cfg.fault() == Some(ConfigError::NoPendingEscalations)
            ==> cfg.incidents.max_pending_escalations == 0,
        cfg.fault() == Some(
            ConfigError::ResolvedInsideWindow {
                resolve_after_secs: resolve,
                dedup_window_secs: window,
            },
        ) ==> resolve == cfg.incidents.resolve_after_secs && window
            == cfg.incidents.dedup_window_secs && resolve < window,
{
}

/// Of several faults the first is told: turns, then the queue, then the escalations under way, then
/// the time until an incident counts as resolved.
pub proof fn law_first_fault_is_told(cfg: Config)
    ensures
        cfg.escalation.max_turns_per_stage > 0 && cfg.incidents.max_queue == 0 ==> cfg.fault()
            == Some(ConfigError::NoQueue),
        cfg.escalation.max_turns_per_stage > 0 && cfg.incidents.max_queue > 0
            && cfg.incidents.max_pending_escalations == 0 ==> cfg.fault() == Some(
            ConfigError::NoPendingEscalations,
        ),
        cfg.escalation.max_turns_per_stage > 0 && cfg.incidents.max_queue > 0
            && cfg.incidents.max_pending_escalations > 0 && cfg.fault() is Some ==> cfg.fault()
            == Some(
            ConfigError::ResolvedInsideWindow {
                resolve_after_secs: cfg.incidents.resolve_after_secs,
                dedup_window_secs: cfg.incidents.dedup_window_secs,
            },
        ),
{
}

/// A user is told which table and which value is at fault, and the two numbers that do not fit.
pub proof fn law_faults_are_told(resolve: u64, window: u64)
    ensures
        ConfigError::NoTurns.text() == "[escalation] max_turns_per_stage 必須 >= 1"@,
        ConfigError::NoQueue.text() == "[incidents] max_queue 必須 >= 1"@,
        ConfigError::NoPendingEscalations.text()
            == "[incidents] max_pending_escalations 必須 >= 1"@,
        (ConfigError::ResolvedInsideWindow {
            resolve_after_secs: resolve,
            dedup_window_secs: window,
        }).text() == "[incidents] resolve_after_secs ("@ + decimal(resolve as nat)
            + ") 必須 >= dedup_window_secs ("@ + decimal(window as nat) + ")"@,
{
}

/// The variable names the host as it stands; only without it does the command, whose white space
/// around the name is left out; only without both is the host unknown.
pub proof fn law_host_is_named(variable: Seq<char>, printed: Seq<char>, other: Option<Seq<char>>)
    ensures
        host_id(Some(variable), other) == variable,
        host_id(None, Some(printed)) == trimmed(printed),
        host_id(None, None) == "unknown-host"@,
{
}

/// Escalations are on until someone turns them off, with limits on their turns and tokens, and
/// without anything that they may touch.
pub proof fn law_untouched_escalation(cfg: EscalationConfig)
    ensures
        cfg.untouched() <==> {
            &&& cfg.enabled && cfg.verify_window_ms == 15_000
            &&& cfg.max_turns_per_stage == 12 && cfg.max_tokens_per_escalation == 1_500_000
            &&& cfg.stage1_allowed_tools@ == Seq::<String>::empty()
            &&& cfg.stage3_config_files@ == Seq::<String>::empty()
            &&& cfg.health_check_command is None && cfg.stage4_test_command is None
            &&& cfg.execution_model is None && cfg.execution_base_url is None
            &&& cfg.execution_api_key_env is None
        },
{
    assert(cfg.untouched() ==> cfg.stage1_allowed_tools@ =~= Seq::<String>::empty());
    assert(cfg.untouched() ==> cfg.stage3_config_files@ =~= Seq::<String>::empty());
}

/// Diagnostics and the remote device are off until someone turns them on, and no command is there
/// for them.
pub proof fn law_untouched_diagnostics_and_device(d: DiagnosticsConfig, r: RemoteConfig)
    ensures
        d.untouched() <==> {
            &&& !d.enabled && d.commands@ == Seq::<String>::empty()
            &&& d.poll_interval_ms == 30_000 && d.retention_mins == 10
        },
        r.untouched() <==> {
            &&& !r.enabled && r.device_id is None && r.state_dir is None
            &&& r.allowed_commands@ == Seq::<String>::empty()
            &&& r.sanc_bin@ == "sanc"@ && r.timeout_secs == 120
        },
{
    assert(d.untouched() ==> d.commands@ =~= Seq::<String>::empty());
    assert(r.untouched() ==> r.allowed_commands@ =~= Seq::<String>::empty());
}

/// The agent service is on this host until someone names another; the orchestrator is off, and each
/// agent has its model and neither an address nor a key of its own.
pub proof fn law_untouched_services(
    s: AgentServiceConfig,
    o: OrchestratorConfig,
    role: AgentRoleConfig,
    agents: AgentsConfig,
)
    ensures
        s.untouched() <==> s.url@ == "http://127.0.0.1:8787"@ && s.timeout_secs == 600
            && s.token_env is None,
        o.untouched() <==> {
            &&& !o.enabled && o.base_url@ == "http://localhost:4000/v1"@ && o.api_key_env is None
            &&& o.model@ == "your-orchestrator-model"@ && o.timeout_secs == 60
        },
        role.untouched() <==> role.model@ == "your-orchestrator-model"@ && role.base_url is None
            && role.api_key_env is None,
        agents.untouched() <==> agents.risk_analysis.untouched()
            && agents.security_analysis.untouched() && agents.quick_fix_analysis.untouched()
            && agents.log_analysis.untouched() && agents.root_cause_analysis.untouched(),
{
}

/// The patterns for the first line of an error, until someone names others.
pub proof fn law_standard_patterns()
    ensures
        ({
            let p = standard_error_patterns();
            &&& p.len() == 8
            &&& p[0] == "Error:"@ && p[1] == "ERROR"@ && p[2] == "Uncaught"@
            &&& p[3] == "UnhandledPromiseRejection"@ && p[4] == "FATAL"@ && p[5] == "panic:"@
            &&& p[6] == "Traceback \\(most recent call last\\)"@
            &&& p[7] == "thread '.*' panicked at"@
        }),
{
}

}
