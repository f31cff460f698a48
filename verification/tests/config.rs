//! Configuration: defaults and the rules that span fields.

use artemis::config::{
    choose_host_id, default_error_patterns, AgentRoleConfig, CentralConfig, Config, ConfigError,
    EscalationConfig, IncidentsConfig, OrchestratorConfig, RemoteConfig, ResourceConfig,
};

fn minimal() -> Config {
    Config::for_command("node app.js".to_string(), "host".to_string())
}

#[test]
fn incidents_defaults_when_table_absent() {
    let cfg = minimal();
    assert_eq!(cfg.incidents.dedup_window_secs, 300);
    assert_eq!(cfg.incidents.cooldown_secs, 1800);
    assert_eq!(cfg.incidents.resolve_after_secs, 3600);
    assert_eq!(cfg.incidents.max_escalations_per_hour, 6);
    assert_eq!(cfg.incidents.max_queue, 1024);
    assert_eq!(cfg.incidents.max_pending_escalations, 8);
    assert_eq!(cfg.incidents.rewrite_interval_secs, 10);
    assert_eq!(cfg.incidents.shutdown_grace_secs, 30);
    cfg.validate().expect("the defaults are in order");
}

#[test]
fn invalid_max_queue_rejected() {
    let mut cfg = minimal();
    cfg.incidents.max_queue = 0;
    assert!(cfg.validate().is_err());
    assert_eq!(cfg.validate(), Err(ConfigError::NoQueue));
}

#[test]
fn invalid_max_pending_escalations_rejected() {
    let mut cfg = minimal();
    cfg.incidents.max_pending_escalations = 0;
    assert!(cfg.validate().is_err());
    assert_eq!(cfg.validate(), Err(ConfigError::NoPendingEscalations));
}

#[test]
fn resolve_after_secs_below_dedup_window_rejected() {
    let mut cfg = minimal();
    cfg.incidents.dedup_window_secs = 600;
    cfg.incidents.resolve_after_secs = 300;
    assert!(cfg.validate().is_err());
    let e = ConfigError::ResolvedInsideWindow { resolve_after_secs: 300, dedup_window_secs: 600 };
    assert_eq!(cfg.validate(), Err(e));
}

#[test]
fn dedup_window_zero_is_allowed() {
    let mut cfg = minimal();
    cfg.incidents.dedup_window_secs = 0;
    cfg.incidents.resolve_after_secs = 0;
    assert!(cfg.validate().is_ok());
}

#[test]
fn no_turns_are_rejected() {
    let mut cfg = minimal();
    cfg.escalation.max_turns_per_stage = 0;
    cfg.incidents.max_queue = 0;
    assert_eq!(cfg.validate(), Err(ConfigError::NoTurns));
    assert_eq!(ConfigError::NoTurns.message(), "[escalation] max_turns_per_stage 必須 >= 1");
}

/// The configuration of a file, as far as rules span its fields.
fn from_table(table: &toml::Table) -> Config {
    let number = |section: &str, key: &str| table[section][key].as_integer().unwrap();
    let mut cfg = minimal();
    cfg.escalation.max_turns_per_stage = number("escalation", "max_turns_per_stage") as u32;
    cfg.incidents = IncidentsConfig {
        dedup_window_secs: number("incidents", "dedup_window_secs") as u64,
        cooldown_secs: number("incidents", "cooldown_secs") as u64,
        resolve_after_secs: number("incidents", "resolve_after_secs") as u64,
        max_escalations_per_hour: number("incidents", "max_escalations_per_hour") as u32,
        max_queue: number("incidents", "max_queue") as usize,
        max_pending_escalations: number("incidents", "max_pending_escalations") as usize,
        rewrite_interval_secs: number("incidents", "rewrite_interval_secs") as u64,
        shutdown_grace_secs: number("incidents", "shutdown_grace_secs") as u64,
    };
    cfg
}

#[test]
fn example_config_parses_and_validates() {
    let table: toml::Table = toml::from_str(Config::EXAMPLE).expect("the example is TOML");
    let cfg = from_table(&table);
    cfg.validate().expect("the example is in order");
    assert_eq!(cfg.incidents, IncidentsConfig::default());
    let patterns: Vec<&str> =
        table["error_patterns"].as_array().unwrap().iter().map(|p| p.as_str().unwrap()).collect();
    assert_eq!(patterns, default_error_patterns());
}

#[test]
fn messages_name_the_field() {
    assert_eq!(ConfigError::NoQueue.message(), "[incidents] max_queue 必須 >= 1");
    assert_eq!(
        ConfigError::NoPendingEscalations.message(),
        "[incidents] max_pending_escalations 必須 >= 1"
    );
    let e = ConfigError::ResolvedInsideWindow { resolve_after_secs: 300, dedup_window_secs: 600 };
    assert!(e.message().contains("300"));
    assert!(e.message().contains("600"));
}

#[test]
fn host_is_named_by_the_variable_then_by_the_command() {
    let some = |s: &str| Some(s.to_string());
    assert_eq!(choose_host_id(some(" a "), some("b")), " a ");
    assert_eq!(choose_host_id(None, some(" b\n")), "b");
    assert_eq!(choose_host_id(None, None), "unknown-host");
}

#[test]
fn defaults_of_the_sections() {
    let e = EscalationConfig::default();
    assert!(e.enabled);
    assert_eq!((e.verify_window_ms, e.max_turns_per_stage), (15000, 12));
    assert_eq!(e.max_tokens_per_escalation, 1_500_000);
    let o = OrchestratorConfig::default();
    assert_eq!((o.base_url.as_str(), o.timeout_secs), ("http://localhost:4000/v1", 60));
    assert_eq!(AgentRoleConfig::default().model, "your-orchestrator-model");
    let r = RemoteConfig::default();
    assert_eq!((r.enabled, r.sanc_bin.as_str(), r.timeout_secs), (false, "sanc", 120));
    let c = CentralConfig::with_host_id("h".to_string());
    assert_eq!((c.enabled, c.host_id.as_str()), (false, "h"));
    assert_eq!(ResourceConfig::default().poll_interval_ms, 0);
}

#[test]
fn command_alone_leaves_every_table_at_its_default() {
    let c = Config::for_command("node app.js".to_string(), "host-1".to_string());
    assert_eq!((c.resources.enabled, c.resources.poll_interval_ms), (false, 0));
    assert_eq!(c.agent_service.url, "http://127.0.0.1:8787");
    assert_eq!((c.agent_service.timeout_secs, c.agent_service.token_env), (600, None));
    assert_eq!(c.central.collector_url, "http://127.0.0.1:8787");
    assert_eq!((c.central.host_id.as_str(), c.central.token_env), ("host-1", None));
    let e = &c.escalation;
    assert_eq!((e.enabled, e.verify_window_ms), (true, 15_000));
    assert_eq!((e.max_turns_per_stage, e.max_tokens_per_escalation), (12, 1_500_000));
    assert!(e.stage1_allowed_tools.is_empty() && e.stage3_config_files.is_empty());
    assert_eq!((&e.health_check_command, &e.stage4_test_command), (&None, &None));
    let o = &c.orchestrator;
    assert_eq!((o.enabled, o.base_url.as_str()), (false, "http://localhost:4000/v1"));
    assert_eq!((o.model.as_str(), o.timeout_secs), ("your-orchestrator-model", 60));
    for role in [
        &c.agents.risk_analysis,
        &c.agents.security_analysis,
        &c.agents.quick_fix_analysis,
        &c.agents.log_analysis,
        &c.agents.root_cause_analysis,
    ] {
        assert_eq!(role.model, "your-orchestrator-model");
        assert_eq!((&role.base_url, &role.api_key_env), (&None, &None));
    }
    let r = &c.remote;
    assert_eq!((r.enabled, r.sanc_bin.as_str(), r.timeout_secs), (false, "sanc", 120));
    assert!(r.device_id.is_none() && r.state_dir.is_none() && r.allowed_commands.is_empty());
    let d = &c.diagnostics;
    assert_eq!((d.enabled, d.poll_interval_ms, d.retention_mins), (false, 30_000, 10));
    assert!(d.commands.is_empty());
}
