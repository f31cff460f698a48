//! Requests to the agent service and to the collector.

use crate::config::{
    AgentRoleConfig, AgentsConfig, Config, EscalationConfig, OrchestratorConfig, RemoteConfig,
};
use crate::json::{
    from_bool, from_number, from_text, list_value, object_value, optional, optional_value, shows,
    texts, Json,
};
use crate::table::distinct;
use crate::text::{opt_view, strip_end, trim_end_of};
use serde_json::Value;
use vstd::prelude::*;

verus! {

/// How long the collector may take.
pub const PUSH_TIMEOUT_SECS: u64 = 30;

/// Where and how a request is sent.
#[derive(Debug, Clone)]
pub struct Request {
    pub url: String,
    pub timeout_secs: u64,
    /// What the header `Authorization` holds, if it is sent.
    pub authorization: Option<String>,
}

/// The address `base` without the slashes at its end, with `path` after it.
pub open spec fn endpoint(base: Seq<char>, path: Seq<char>) -> Seq<char> {
    strip_end(base, |c: char| c == '/') + path
}

/// The header that carries a token.
pub open spec fn bearer(token: Option<Seq<char>>) -> Option<Seq<char>> {
    match token {
        Some(t) => Some("Bearer "@ + t),
        None => None,
    }
}

impl Request {
    /// Whether this is a request to `url`, which may take `timeout_secs`, with `token`.
    pub open spec fn goes(self, url: Seq<char>, timeout_secs: u64, token: Option<String>) -> bool {
        &&& self.url@ == url
        &&& self.timeout_secs == timeout_secs
        &&& opt_view(self.authorization) == bearer(opt_view(token))
    }
}

fn request(base: &str, path: &str, timeout_secs: u64, token: Option<String>) -> (r: Request)
    ensures
        r.goes(endpoint(base@, path@), timeout_secs, token),
{
    let mut url = trim_end_of(base, '/', '/');
    assert((|c: char| c == '/' || c == '/') =~= (|c: char| c == '/'));
    url.append(path);
    let authorization = match token {
        Some(t) => {
            let mut h = "Bearer ".to_string();
            h.append(t.as_str());
            Some(h)
        },
        None => None,
    };
    Request { url, timeout_secs, authorization }
}

/// The request that lets the agent service handle an incident; `None` where escalations are not
/// enabled. `token` is what the configured environment variable holds.
pub fn escalation_request(cfg: &Config, token: Option<String>) -> (r: Option<Request>)
    ensures
        r is Some <==> cfg.escalation.enabled,
        r matches Some(q) ==> q.goes(
            endpoint(cfg.agent_service.url@, "/escalate"@),
            cfg.agent_service.timeout_secs,
            token,
        ),
{
    if !cfg.escalation.enabled {
        return None;
    }
    Some(
        request(
            cfg.agent_service.url.as_str(),
            "/escalate",
            cfg.agent_service.timeout_secs,
            token,
        ),
    )
}

/// The request that sends an incident to the collector; `None` where there is no collector.
/// `token` is what the configured environment variable holds.
pub fn push_request(cfg: &Config, token: Option<String>) -> (r: Option<Request>)
    ensures
        r is Some <==> cfg.central.enabled,
        r matches Some(q) ==> q.goes(
            endpoint(cfg.central.collector_url@, "/incidents"@),
            PUSH_TIMEOUT_SECS,
            token,
        ),
{
    if !cfg.central.enabled {
        return None;
    }
    Some(request(cfg.central.collector_url.as_str(), "/incidents", PUSH_TIMEOUT_SECS, token))
}

/// What the agent service is told of the stages, and how much each of them and all together may
/// use.
pub open spec fn escalation_json(cfg: EscalationConfig) -> Json {
    Json::Object(
        seq![
            ("verify_window_ms"@, Json::Number(cfg.verify_window_ms)),
            ("health_check_command"@, optional(cfg.health_check_command)),
            ("stage1_allowed_tools"@, texts(cfg.stage1_allowed_tools@)),
            ("stage3_config_files"@, texts(cfg.stage3_config_files@)),
            ("stage4_test_command"@, optional(cfg.stage4_test_command)),
            ("execution_model"@, optional(cfg.execution_model)),
            ("execution_base_url"@, optional(cfg.execution_base_url)),
            ("execution_api_key_env"@, optional(cfg.execution_api_key_env)),
            ("max_turns_per_stage"@, Json::Number(cfg.max_turns_per_stage as u64)),
            ("max_tokens_per_escalation"@, Json::Number(cfg.max_tokens_per_escalation)),
        ],
    )
}

/// What the agent service is told of the stages.
fn escalation_value(cfg: &EscalationConfig) -> (r: Value)
    ensures
        shows(r, escalation_json(*cfg)),
{
    let mut members: Vec<(String, Value)> = Vec::new();
    members.push(("verify_window_ms".to_string(), from_number(cfg.verify_window_ms)));
    members.push(("health_check_command".to_string(), optional_value(&cfg.health_check_command)));
    members.push(("stage1_allowed_tools".to_string(), list_value(&cfg.stage1_allowed_tools)));
    members.push(("stage3_config_files".to_string(), list_value(&cfg.stage3_config_files)));
    members.push(("stage4_test_command".to_string(), optional_value(&cfg.stage4_test_command)));
    members.push(("execution_model".to_string(), optional_value(&cfg.execution_model)));
    members.push(("execution_base_url".to_string(), optional_value(&cfg.execution_base_url)));
    members.push(("execution_api_key_env".to_string(), optional_value(&cfg.execution_api_key_env)));
    members.push(
        ("max_turns_per_stage".to_string(), from_number(cfg.max_turns_per_stage as u64)),
    );
    members.push(
        ("max_tokens_per_escalation".to_string(), from_number(cfg.max_tokens_per_escalation)),
    );
    assert(distinct(members@)) by {
        reveal_strlit("verify_window_ms");
        reveal_strlit("health_check_command");
        reveal_strlit("stage1_allowed_tools");
        reveal_strlit("stage3_config_files");
        reveal_strlit("stage4_test_command");
        reveal_strlit("execution_model");
        reveal_strlit("execution_base_url");
        reveal_strlit("execution_api_key_env");
        reveal_strlit("max_turns_per_stage");
        reveal_strlit("max_tokens_per_escalation");
        assert(members@[0].0@ == "verify_window_ms"@);
        assert(members@[1].0@ == "health_check_command"@);
        assert(members@[2].0@ == "stage1_allowed_tools"@);
        assert(members@[3].0@ == "stage3_config_files"@);
        assert(members@[4].0@ == "stage4_test_command"@);
        assert(members@[5].0@ == "execution_model"@);
        assert(members@[6].0@ == "execution_base_url"@);
        assert(members@[7].0@ == "execution_api_key_env"@);
        assert(members@[8].0@ == "max_turns_per_stage"@);
        assert(members@[9].0@ == "max_tokens_per_escalation"@);
        assert("health_check_command"@[0] != "stage1_allowed_tools"@[0]);
        assert("stage3_config_files"@[5] != "stage4_test_command"@[5]);
        assert("stage3_config_files"@[0] != "max_turns_per_stage"@[0]);
        assert("stage4_test_command"@[0] != "max_turns_per_stage"@[0]);
    }
    object_value(members, Ghost(escalation_json(*cfg)->Object_0))
}

/// What the agent service is told of the orchestrator.
pub open spec fn orchestrator_json(cfg: OrchestratorConfig) -> Json {
    Json::Object(
        seq![
            ("enabled"@, Json::Bool(cfg.enabled)),
            ("base_url"@, Json::Text(cfg.base_url@)),
            ("api_key_env"@, optional(cfg.api_key_env)),
            ("model"@, Json::Text(cfg.model@)),
            ("timeout_secs"@, Json::Number(cfg.timeout_secs)),
        ],
    )
}

/// What the agent service is told of the orchestrator.
fn orchestrator_value(cfg: &OrchestratorConfig) -> (r: Value)
    ensures
        shows(r, orchestrator_json(*cfg)),
{
    let mut members: Vec<(String, Value)> = Vec::new();
    members.push(("enabled".to_string(), from_bool(cfg.enabled)));
    members.push(("base_url".to_string(), from_text(cfg.base_url.as_str())));
    members.push(("api_key_env".to_string(), optional_value(&cfg.api_key_env)));
    members.push(("model".to_string(), from_text(cfg.model.as_str())));
    members.push(("timeout_secs".to_string(), from_number(cfg.timeout_secs)));
    assert(distinct(members@)) by {
        reveal_strlit("enabled");
        reveal_strlit("base_url");
        reveal_strlit("api_key_env");
        reveal_strlit("model");
        reveal_strlit("timeout_secs");
        assert(members@[0].0@ == "enabled"@);
        assert(members@[1].0@ == "base_url"@);
        assert(members@[2].0@ == "api_key_env"@);
        assert(members@[3].0@ == "model"@);
        assert(members@[4].0@ == "timeout_secs"@);
    }
    object_value(members, Ghost(orchestrator_json(*cfg)->Object_0))
}

/// What the agent service is told of an analysis agent.
pub open spec fn role_json(role: AgentRoleConfig) -> Json {
    Json::Object(
        seq![
            ("model"@, Json::Text(role.model@)),
            ("base_url"@, optional(role.base_url)),
            ("api_key_env"@, optional(role.api_key_env)),
        ],
    )
}

/// What the agent service is told of an analysis agent.
fn role_value(role: &AgentRoleConfig) -> (r: Value)
    ensures
        shows(r, role_json(*role)),
{
    let mut members: Vec<(String, Value)> = Vec::new();
    members.push(("model".to_string(), from_text(role.model.as_str())));
    members.push(("base_url".to_string(), optional_value(&role.base_url)));
    members.push(("api_key_env".to_string(), optional_value(&role.api_key_env)));
    assert(distinct(members@)) by {
        reveal_strlit("model");
        reveal_strlit("base_url");
        reveal_strlit("api_key_env");
        assert(members@[0].0@ == "model"@);
        assert(members@[1].0@ == "base_url"@);
        assert(members@[2].0@ == "api_key_env"@);
    }
    object_value(members, Ghost(role_json(*role)->Object_0))
}

/// What the agent service is told of the analysis agents.
pub open spec fn agents_json(cfg: AgentsConfig) -> Json {
    Json::Object(
        seq![
            ("risk_analysis"@, role_json(cfg.risk_analysis)),
            ("security_analysis"@, role_json(cfg.security_analysis)),
            ("quick_fix_analysis"@, role_json(cfg.quick_fix_analysis)),
            ("log_analysis"@, role_json(cfg.log_analysis)),
            ("root_cause_analysis"@, role_json(cfg.root_cause_analysis)),
        ],
    )
}

/// What the agent service is told of the analysis agents.
fn agents_value(cfg: &AgentsConfig) -> (r: Value)
    ensures
        shows(r, agents_json(*cfg)),
{
    let mut members: Vec<(String, Value)> = Vec::new();
    members.push(("risk_analysis".to_string(), role_value(&cfg.risk_analysis)));
    members.push(("security_analysis".to_string(), role_value(&cfg.security_analysis)));
    members.push(("quick_fix_analysis".to_string(), role_value(&cfg.quick_fix_analysis)));
    members.push(("log_analysis".to_string(), role_value(&cfg.log_analysis)));
    members.push(("root_cause_analysis".to_string(), role_value(&cfg.root_cause_analysis)));
    assert(distinct(members@)) by {
        reveal_strlit("risk_analysis");
        reveal_strlit("security_analysis");
        reveal_strlit("quick_fix_analysis");
        reveal_strlit("log_analysis");
        reveal_strlit("root_cause_analysis");
        assert(members@[0].0@ == "risk_analysis"@);
        assert(members@[1].0@ == "security_analysis"@);
        assert(members@[2].0@ == "quick_fix_analysis"@);
        assert(members@[3].0@ == "log_analysis"@);
        assert(members@[4].0@ == "root_cause_analysis"@);
    }
    object_value(members, Ghost(agents_json(*cfg)->Object_0))
}

/// What the agent service is told of the device on which it may run commands.
pub open spec fn remote_json(cfg: RemoteConfig) -> Json {
    Json::Object(
        seq![
            ("enabled"@, Json::Bool(cfg.enabled)),
            ("device_id"@, optional(cfg.device_id)),
            ("sanc_bin"@, Json::Text(cfg.sanc_bin@)),
            ("state_dir"@, optional(cfg.state_dir)),
            ("timeout_secs"@, Json::Number(cfg.timeout_secs)),
            ("allowed_commands"@, texts(cfg.allowed_commands@)),
        ],
    )
}

/// What the agent service is told of the device on which it may run commands.
fn remote_value(cfg: &RemoteConfig) -> (r: Value)
    ensures
        shows(r, remote_json(*cfg)),
{
    let mut members: Vec<(String, Value)> = Vec::new();
    members.push(("enabled".to_string(), from_bool(cfg.enabled)));
    members.push(("device_id".to_string(), optional_value(&cfg.device_id)));
    members.push(("sanc_bin".to_string(), from_text(cfg.sanc_bin.as_str())));
    members.push(("state_dir".to_string(), optional_value(&cfg.state_dir)));
    members.push(("timeout_secs".to_string(), from_number(cfg.timeout_secs)));
    members.push(("allowed_commands".to_string(), list_value(&cfg.allowed_commands)));
    assert(distinct(members@)) by {
        reveal_strlit("enabled");
        reveal_strlit("device_id");
        reveal_strlit("sanc_bin");
        reveal_strlit("state_dir");
        reveal_strlit("timeout_secs");
        reveal_strlit("allowed_commands");
        assert(members@[0].0@ == "enabled"@);
        assert(members@[1].0@ == "device_id"@);
        assert(members@[2].0@ == "sanc_bin"@);
        assert(members@[3].0@ == "state_dir"@);
        assert(members@[4].0@ == "timeout_secs"@);
        assert(members@[5].0@ == "allowed_commands"@);
        assert("device_id"@[0] != "state_dir"@[0]);
    }
    object_value(members, Ghost(remote_json(*cfg)->Object_0))
}

/// What is sent to the agent service: the incident, and what it may do about it.
pub open spec fn escalation_body_json(cfg: Config, incident: Value) -> Json {
    Json::Object(
        seq![
            ("incident"@, Json::Given(incident)),
            ("cwd"@, Json::Text(cfg.cwd@)),
            ("escalation"@, escalation_json(cfg.escalation)),
            ("orchestrator"@, orchestrator_json(cfg.orchestrator)),
            ("agents"@, agents_json(cfg.agents)),
            ("remote"@, remote_json(cfg.remote)),
        ],
    )
}

/// What is sent to the agent service: the incident, and what it may do about it.
pub fn escalation_body(cfg: &Config, incident: Value) -> (r: Value)
    ensures
        shows(r, escalation_body_json(*cfg, incident)),
{
    let mut members: Vec<(String, Value)> = Vec::new();
    members.push(("incident".to_string(), incident));
    members.push(("cwd".to_string(), from_text(cfg.cwd.as_str())));
    members.push(("escalation".to_string(), escalation_value(&cfg.escalation)));
    members.push(("orchestrator".to_string(), orchestrator_value(&cfg.orchestrator)));
    members.push(("agents".to_string(), agents_value(&cfg.agents)));
    members.push(("remote".to_string(), remote_value(&cfg.remote)));
    assert(distinct(members@)) by {
        reveal_strlit("incident");
        reveal_strlit("cwd");
        reveal_strlit("escalation");
        reveal_strlit("orchestrator");
        reveal_strlit("agents");
        reveal_strlit("remote");
        assert(members@[0].0@ == "incident"@);
        assert(members@[1].0@ == "cwd"@);
        assert(members@[2].0@ == "escalation"@);
        assert(members@[3].0@ == "orchestrator"@);
        assert(members@[4].0@ == "agents"@);
        assert(members@[5].0@ == "remote"@);
        assert("agents"@[0] != "remote"@[0]);
    }
    object_value(members, Ghost(escalation_body_json(*cfg, incident)->Object_0))
}

/// What is sent to the collector: the incident, where it comes from, and the report on it.
pub open spec fn push_body_json(cfg: Config, incident: Value, report: Option<String>) -> Json {
    Json::Object(
        seq![
            ("host_id"@, Json::Text(cfg.central.host_id@)),
            ("project"@, Json::Text(cfg.name@)),
            ("incident"@, Json::Given(incident)),
            ("report_markdown"@, optional(report)),
        ],
    )
}

/// What is sent to the collector: the incident, where it comes from, and the report on it.
pub fn push_body(cfg: &Config, incident: Value, report: Option<String>) -> (r: Value)
    ensures
        shows(r, push_body_json(*cfg, incident, report)),
{
    let mut members: Vec<(String, Value)> = Vec::new();
    members.push(("host_id".to_string(), from_text(cfg.central.host_id.as_str())));
    members.push(("project".to_string(), from_text(cfg.name.as_str())));
    members.push(("incident".to_string(), incident));
    members.push(("report_markdown".to_string(), optional_value(&report)));
    assert(distinct(members@)) by {
        reveal_strlit("host_id");
        reveal_strlit("project");
        reveal_strlit("incident");
        reveal_strlit("report_markdown");
        assert(members@[0].0@ == "host_id"@);
        assert(members@[1].0@ == "project"@);
        assert(members@[2].0@ == "incident"@);
        assert(members@[3].0@ == "report_markdown"@);
        assert("host_id"@[0] != "project"@[0]);
    }
    object_value(members, Ghost(push_body_json(*cfg, incident, report)->Object_0))
}

}
