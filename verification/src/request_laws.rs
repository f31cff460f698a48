//! What requests, and the answers of the assistant, promise.

use crate::ai::{
    arguments, json_blocks, lemma_found_behind, lemma_not_found, plain, reply, result_in,
};
use crate::config::{
    AgentRoleConfig, AgentsConfig, Config, EscalationConfig, OrchestratorConfig, RemoteConfig,
};
use crate::json::{
    json_bool, json_elements, json_member, json_null, json_number, json_text, json_value, optional,
    shows, texts, Json,
};
use crate::requests::{
    agents_json, bearer, endpoint, escalation_body_json, escalation_json, orchestrator_json,
    push_body_json, remote_json, role_json, Request, PUSH_TIMEOUT_SECS,
};
use crate::text::{joined, strip_end};
use serde_json::Value;
use vstd::prelude::*;

verus! {

/// A path is put behind an address; slashes at the end of the address make no difference.
pub proof fn law_addresses(base: Seq<char>, path: Seq<char>)
    ensures
        base.len() == 0 || base.last() != '/' ==> endpoint(base, path) == base + path,
        endpoint(base.push('/'), path) == endpoint(base, path),
{
    reveal_with_fuel(strip_end, 2);
    assert(base.push('/').drop_last() =~= base);
}

/// A request goes to one address, may take so long, and carries the token where there is one.
pub proof fn law_requests(q: Request, url: Seq<char>, timeout: u64, token: Option<String>)
    ensures
        bearer(None) is None,
        token matches Some(t) ==> bearer(Some(t@)) == Some("Bearer "@ + t@),
        q.goes(url, timeout, token) ==> {
            &&& q.url@ == url && q.timeout_secs == timeout
            &&& token is Some <==> q.authorization is Some
            &&& token is Some ==> (q.authorization->0)@ == "Bearer "@ + (token->0)@
        },
        PUSH_TIMEOUT_SECS == 30,
{
}

/// Whether `v` has the text `s` under `key`.
pub open spec fn has_text(v: Value, key: Seq<char>, s: Seq<char>) -> bool {
    json_member(v, key) matches Some(m) && json_text(m) == Some(s)
}

/// Whether `v` has the number `n` under `key`.
pub open spec fn has_number(v: Value, key: Seq<char>, n: int) -> bool {
    json_member(v, key) matches Some(m) && json_number(m) matches Some(k) && k == n
}

/// Whether `v` has the boolean `b` under `key`.
pub open spec fn has_bool(v: Value, key: Seq<char>, b: bool) -> bool {
    json_member(v, key) matches Some(m) && json_bool(m) == Some(b)
}

/// Whether `v` has the text `s`, or `null` for a missing one, under `key`.
pub open spec fn has_optional(v: Value, key: Seq<char>, s: Option<String>) -> bool {
    json_member(v, key) matches Some(m) && match s {
        Some(s) => json_text(m) == Some(s@),
        None => json_null(m),
    }
}

/// Whether `v` has the texts of `list`, in their order, under `key`.
pub open spec fn has_texts(v: Value, key: Seq<char>, list: Seq<String>) -> bool {
    json_member(v, key) matches Some(m) && json_elements(m) matches Some(es) && es.len()
        == list.len() && forall|i: int|
        0 <= i < list.len() ==> json_text(#[trigger] es[i]) == Some(list[i]@)
}

proof fn lemma_member(v: Value, members: Seq<(Seq<char>, Json)>, i: int)
    requires
        shows(v, Json::Object(members)),
        0 <= i < members.len(),
    ensures
        json_member(v, members[i].0) is Some,
        shows(json_member(v, members[i].0)->0, members[i].1),
{
    assert(members[i].0 == members[i].0);
}

proof fn lemma_has_texts(v: Value, key: Seq<char>, list: Seq<String>)
    requires
        json_member(v, key) is Some,
        shows(json_member(v, key)->0, texts(list)),
    ensures
        has_texts(v, key, list),
{
    let items = list.map_values(|s: String| Json::Text(s@));
    let es = json_elements(json_member(v, key)->0)->0;
    assert forall|i: int| 0 <= i < list.len() implies json_text(#[trigger] es[i]) == Some(
        list[i]@,
    ) by {
        assert(shows(es[i], items[i]));
        assert(items[i] == Json::Text(list[i]@));
    }
}

/// The agent service is told of every setting of the stages, under its name.
pub proof fn law_service_is_told_of_the_stages(v: Value, cfg: EscalationConfig)
    requires
        shows(v, escalation_json(cfg)),
    ensures
        has_number(v, "verify_window_ms"@, cfg.verify_window_ms as int),
        has_optional(v, "health_check_command"@, cfg.health_check_command),
        has_texts(v, "stage1_allowed_tools"@, cfg.stage1_allowed_tools@),
        has_texts(v, "stage3_config_files"@, cfg.stage3_config_files@),
        has_optional(v, "stage4_test_command"@, cfg.stage4_test_command),
        has_optional(v, "execution_model"@, cfg.execution_model),
        has_optional(v, "execution_base_url"@, cfg.execution_base_url),
        has_optional(v, "execution_api_key_env"@, cfg.execution_api_key_env),
        has_number(v, "max_turns_per_stage"@, cfg.max_turns_per_stage as int),
        has_number(v, "max_tokens_per_escalation"@, cfg.max_tokens_per_escalation as int),
{
    let m = escalation_json(cfg)->Object_0;
    lemma_member(v, m, 0);
    lemma_member(v, m, 1);
    lemma_member(v, m, 2);
    lemma_member(v, m, 3);
    lemma_member(v, m, 4);
    lemma_member(v, m, 5);
    lemma_member(v, m, 6);
    lemma_member(v, m, 7);
    lemma_member(v, m, 8);
    lemma_member(v, m, 9);
    lemma_has_texts(v, "stage1_allowed_tools"@, cfg.stage1_allowed_tools@);
    lemma_has_texts(v, "stage3_config_files"@, cfg.stage3_config_files@);
}

/// The agent service is told of every setting of the orchestrator, under its name.
pub proof fn law_service_is_told_of_the_orchestrator(v: Value, cfg: OrchestratorConfig)
    requires
        shows(v, orchestrator_json(cfg)),
    ensures
        has_bool(v, "enabled"@, cfg.enabled),
        has_text(v, "base_url"@, cfg.base_url@),
        has_optional(v, "api_key_env"@, cfg.api_key_env),
        has_text(v, "model"@, cfg.model@),
        has_number(v, "timeout_secs"@, cfg.timeout_secs as int),
{
    let m = orchestrator_json(cfg)->Object_0;
    lemma_member(v, m, 0);
    lemma_member(v, m, 1);
    lemma_member(v, m, 2);
    lemma_member(v, m, 3);
    lemma_member(v, m, 4);
}

/// Whether `v` has the settings of `role` under `key`.
pub open spec fn has_role(v: Value, key: Seq<char>, role: AgentRoleConfig) -> bool {
    json_member(v, key) matches Some(m) && has_text(m, "model"@, role.model@) && has_optional(
        m,
        "base_url"@,
        role.base_url,
    ) && has_optional(m, "api_key_env"@, role.api_key_env)
}

proof fn lemma_has_role(v: Value, key: Seq<char>, role: AgentRoleConfig)
    requires
        json_member(v, key) is Some,
        shows(json_member(v, key)->0, role_json(role)),
    ensures
        has_role(v, key, role),
{
    let w = json_member(v, key)->0;
    let m = role_json(role)->Object_0;
    lemma_member(w, m, 0);
    lemma_member(w, m, 1);
    lemma_member(w, m, 2);
}

/// The agent service is told of each analysis agent, under its name.
pub proof fn law_service_is_told_of_the_agents(v: Value, cfg: AgentsConfig)
    requires
        shows(v, agents_json(cfg)),
    ensures
        has_role(v, "risk_analysis"@, cfg.risk_analysis),
        has_role(v, "security_analysis"@, cfg.security_analysis),
        has_role(v, "quick_fix_analysis"@, cfg.quick_fix_analysis),
        has_role(v, "log_analysis"@, cfg.log_analysis),
        has_role(v, "root_cause_analysis"@, cfg.root_cause_analysis),
{
    let m = agents_json(cfg)->Object_0;
    lemma_member(v, m, 0);
    lemma_member(v, m, 1);
    lemma_member(v, m, 2);
    lemma_member(v, m, 3);
    lemma_member(v, m, 4);
    lemma_has_role(v, "risk_analysis"@, cfg.risk_analysis);
    lemma_has_role(v, "security_analysis"@, cfg.security_analysis);
    lemma_has_role(v, "quick_fix_analysis"@, cfg.quick_fix_analysis);
    lemma_has_role(v, "log_analysis"@, cfg.log_analysis);
    lemma_has_role(v, "root_cause_analysis"@, cfg.root_cause_analysis);
}

/// The agent service is told of every setting of the remote device, under its name.
pub proof fn law_service_is_told_of_the_device(v: Value, cfg: RemoteConfig)
    requires
        shows(v, remote_json(cfg)),
    ensures
        has_bool(v, "enabled"@, cfg.enabled),
        has_optional(v, "device_id"@, cfg.device_id),
        has_text(v, "sanc_bin"@, cfg.sanc_bin@),
        has_optional(v, "state_dir"@, cfg.state_dir),
        has_number(v, "timeout_secs"@, cfg.timeout_secs as int),
        has_texts(v, "allowed_commands"@, cfg.allowed_commands@),
{
    let m = remote_json(cfg)->Object_0;
    lemma_member(v, m, 0);
    lemma_member(v, m, 1);
    lemma_member(v, m, 2);
    lemma_member(v, m, 3);
    lemma_member(v, m, 4);
    lemma_member(v, m, 5);
    lemma_has_texts(v, "allowed_commands"@, cfg.allowed_commands@);
}

/// The agent service gets the incident as it is, the directory of the project and the four groups
/// of settings, and nothing else.
pub proof fn law_escalation_body(v: Value, cfg: Config, incident: Value, key: Seq<char>)
    requires
        shows(v, escalation_body_json(cfg, incident)),
    ensures
        json_member(v, "incident"@) == Some(incident),
        has_text(v, "cwd"@, cfg.cwd@),
        json_member(v, "escalation"@) matches Some(m) && shows(m, escalation_json(cfg.escalation)),
        json_member(v, "orchestrator"@) matches Some(m) && shows(
            m,
            orchestrator_json(cfg.orchestrator),
        ),
        json_member(v, "agents"@) matches Some(m) && shows(m, agents_json(cfg.agents)),
        json_member(v, "remote"@) matches Some(m) && shows(m, remote_json(cfg.remote)),
        json_member(v, key) is Some ==> key == "incident"@ || key == "cwd"@ || key == "escalation"@
            || key == "orchestrator"@ || key == "agents"@ || key == "remote"@,
{
    let m = escalation_body_json(cfg, incident)->Object_0;
    lemma_member(v, m, 0);
    lemma_member(v, m, 1);
    lemma_member(v, m, 2);
    lemma_member(v, m, 3);
    lemma_member(v, m, 4);
    lemma_member(v, m, 5);
    if json_member(v, key) is Some {
        let i = choose|i: int| 0 <= i < m.len() && (#[trigger] m[i]).0 == key;
        assert(m[i].0 == key);
    }
}

/// The collector gets the incident as it is, with the host and the project from which it comes and
/// the report where there is one, and nothing else.
pub proof fn law_push_body(
    v: Value,
    cfg: Config,
    incident: Value,
    report: Option<String>,
    key: Seq<char>,
)
    requires
        shows(v, push_body_json(cfg, incident, report)),
    ensures
        json_member(v, "incident"@) == Some(incident),
        has_text(v, "host_id"@, cfg.central.host_id@),
        has_text(v, "project"@, cfg.name@),
        has_optional(v, "report_markdown"@, report),
        json_member(v, key) is Some ==> key == "incident"@ || key == "host_id"@ || key == "project"@
            || key == "report_markdown"@,
{
    let m = push_body_json(cfg, incident, report)->Object_0;
    lemma_member(v, m, 0);
    lemma_member(v, m, 1);
    lemma_member(v, m, 2);
    lemma_member(v, m, 3);
    if json_member(v, key) is Some {
        let i = choose|i: int| 0 <= i < m.len() && (#[trigger] m[i]).0 == key;
        assert(m[i].0 == key);
    }
}

/// The assistant is called with the prompt, asked for JSON and told the permission mode. The tools
/// that it may use, those that it may not, and the model are named only where there are any, and in
/// this order.
pub proof fn law_assistant_is_called(
    prompt: Seq<char>,
    model: Option<Seq<char>>,
    allowed: Seq<Seq<char>>,
    disallowed: Seq<Seq<char>>,
    mode: Seq<char>,
)
    ensures
        ({
            let a = arguments(prompt, model, allowed, disallowed, mode);
            let p: int = if allowed.len() > 0 { 8 } else { 6 };
            let q: int = if disallowed.len() > 0 { p + 2 } else { p };
            &&& a[0] == "-p"@ && a[1] == prompt
            &&& a[2] == "--output-format"@ && a[3] == "json"@
            &&& a[4] == "--permission-mode"@ && a[5] == mode
            &&& allowed.len() > 0 ==> a[6] == "--allowedTools"@ && a[7] == joined(allowed, ","@)
            &&& disallowed.len() > 0 ==> a[p] == "--disallowedTools"@ && a[p + 1] == joined(
                disallowed,
                ","@,
            )
            &&& model matches Some(m) ==> a.len() == q + 2 && a[q] == "--model"@ && a[q + 1] == m
            &&& model is None ==> a.len() == q
        }),
{
}

/// The assistant's answer is the result of the last event, or of the answer itself where it is no
/// list of events or an empty one; without a result it is what was printed.
pub proof fn law_answer_is_the_last_result(printed: Seq<char>, v: Value, s: Seq<char>)
    ensures
        json_value(printed) is None ==> reply(printed) == printed,
        json_value(printed) == Some(v) && result_in(v) is None ==> reply(printed) == printed,
        json_value(printed) == Some(v) && result_in(v) == Some(s) ==> reply(printed) == s,
        (json_elements(v) is None || (json_elements(v)->0).len() == 0) ==> (result_in(v) == Some(s)
            <==> has_text(v, "result"@, s)),
        json_elements(v) is Some && (json_elements(v)->0).len() > 0 ==> (result_in(v) == Some(s)
            <==> has_text((json_elements(v)->0).last(), "result"@, s)),
{
}

/// The blocks of an answer are read one after the other, whatever stands between them.
pub proof fn law_blocks_are_read_in_order(before: Seq<char>, body: Seq<char>, rest: Seq<char>)
    requires
        plain(before),
        plain(body),
    ensures
        json_blocks(
            before + seq!['`', '`', '`', 'j', 's', 'o', 'n'] + (body + seq!['`', '`', '`'] + rest),
        ) == seq![body] + json_blocks(rest),
{
    let open = seq!['`', '`', '`', 'j', 's', 'o', 'n'];
    let close = seq!['`', '`', '`'];
    let inner = body + close + rest;
    let s = before + open + inner;
    lemma_found_behind(before, open, inner);
    assert(s.skip(before.len() as int + 7) =~= inner);
    lemma_found_behind(body, close, rest);
    assert(inner.take(body.len() as int) =~= body);
    assert(inner.skip(body.len() as int + 3) =~= rest);
}

/// A text without backticks holds no block, and neither does one whose block does not end.
pub proof fn law_blocks_end(before: Seq<char>, body: Seq<char>)
    requires
        plain(before),
        plain(body),
    ensures
        json_blocks(before).len() == 0,
        json_blocks(before + seq!['`', '`', '`', 'j', 's', 'o', 'n'] + body).len() == 0,
{
    let open = seq!['`', '`', '`', 'j', 's', 'o', 'n'];
    let close = seq!['`', '`', '`'];
    let s = before + open + body;
    lemma_not_found(before, open);
    lemma_found_behind(before, open, body);
    assert(s.skip(before.len() as int + 7) =~= body);
    lemma_not_found(body, close);
}

/// A text that may be missing is written as it is or as `null`, and a list text by text.
pub proof fn law_texts_are_written(v: Value, s: Option<String>, list: Seq<String>, i: int)
    ensures
        s matches Some(t) ==> (shows(v, optional(s)) <==> json_text(v) == Some(t@)),
        s is None ==> (shows(v, optional(s)) <==> json_null(v)),
        shows(v, texts(list)) && 0 <= i < list.len() ==> json_elements(v) is Some && json_text(
            (json_elements(v)->0)[i],
        ) == Some(list[i]@) && (json_elements(v)->0).len() == list.len(),
{
    if shows(v, texts(list)) && 0 <= i < list.len() {
        let items = list.map_values(|s: String| Json::Text(s@));
        assert(shows((json_elements(v)->0)[i], items[i]));
        assert(items[i] == Json::Text(list[i]@));
    }
}

}
