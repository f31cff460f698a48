//! Configuration of new projects, the assistant, and requests.

use artemis::ai::{cli_args, extract_json_block, last_json_block, reply_text, result_text};
use artemis::config::Config;
use artemis::onboard::{
    config_file, detect, node_detection, package_manager, project_name, render_summary,
    render_toml, scripts_in, survey_args, survey_prompt, toml_escape, AiDecision, Detection,
    FinalSettings, OnboardResult, RepoFacts, Scripts,
};
use artemis::requests::{
    escalation_body, escalation_request, push_body, push_request, PUSH_TIMEOUT_SECS,
};
use serde_json::Value;

fn empty_repo() -> RepoFacts {
    RepoFacts {
        has_package_json: false,
        package_json: None,
        has_pyproject: false,
        has_cargo_toml: false,
        has_pnpm_lock: false,
        has_yarn_lock: false,
        has_bun_lock: false,
        has_uv_lock: false,
        has_main_py: false,
        has_app_py: false,
        has_manage_py: false,
        has_src_main_py: false,
    }
}

fn node_repo(package_json: &str) -> RepoFacts {
    RepoFacts {
        has_package_json: true,
        package_json: Some(package_json.to_string()),
        ..empty_repo()
    }
}

fn decision() -> AiDecision {
    AiDecision {
        command: Some("npm run serve".to_string()),
        health_check_command: Some("curl -sf \"http://x\"".to_string()),
        stage1_allowed_tools: vec!["Bash(rm -rf .next)".to_string()],
        stage3_config_files: vec!["/a/.env".to_string(), "C:\\b".to_string()],
        stage4_test_command: None,
        resources_enabled: Some(true),
        summary: Some("because".to_string()),
    }
}

#[test]
fn node_project_is_detected() {
    let mut facts = node_repo(
        r#"{"scripts": {"dev": "vite", "start": "x", "lint": "y", "test": "z", "typecheck": 1}}"#,
    );
    facts.has_pyproject = true;
    let d = detect(&facts);
    assert_eq!(d.project_kind, "node");
    assert_eq!(d.command.as_deref(), Some("npm run dev"));
    assert_eq!(d.stage4_test_command.as_deref(), Some("npm run lint && npm run test"));
    assert_eq!(d.notes, vec!["偵測到 Node.js 專案,套件管理工具:npm"]);
    facts.has_yarn_lock = true;
    facts.has_bun_lock = true;
    assert_eq!(detect(&facts).command.as_deref(), Some("yarn run dev"));
    facts.has_pnpm_lock = true;
    assert_eq!(package_manager(&facts), "pnpm");
}

#[test]
fn node_project_without_scripts_needs_a_command() {
    for facts in [node_repo("{}"), node_repo("no json"), node_repo("[1]")] {
        let d = detect(&facts);
        assert_eq!((d.command, d.stage4_test_command), (None, None));
        assert_eq!(d.notes.len(), 2);
        assert_eq!(d.notes[1], "package.json 沒有 dev/start script,command 需要手動填寫。");
    }
    let mut unreadable = node_repo("");
    unreadable.package_json = None;
    assert_eq!(detect(&unreadable).command, None);
}

#[test]
fn node_project_is_judged_by_its_scripts() {
    let none = Scripts { dev: false, start: false, typecheck: false, lint: false, test: false };
    assert_eq!(scripts_in(None), none);
    let v: Value = serde_json::from_str(r#"{"start": "x", "typecheck": "tsc"}"#).unwrap();
    let some = scripts_in(Some(&v));
    assert_eq!(some, Scripts { start: true, typecheck: true, ..none });
    let d = node_detection("bun", some);
    assert_eq!(d.command.as_deref(), Some("bun run start"));
    assert_eq!(d.stage4_test_command.as_deref(), Some("bun run typecheck"));
}

#[test]
fn python_project_is_detected() {
    let mut facts = RepoFacts { has_pyproject: true, has_cargo_toml: true, ..empty_repo() };
    let d = detect(&facts);
    assert_eq!((d.project_kind, d.command), ("python", None));
    assert_eq!(d.stage4_test_command.as_deref(), Some("pytest"));
    assert_eq!(d.notes.len(), 2);
    assert_eq!(d.notes[0], "偵測到 Python 專案(pyproject.toml)");
    facts.has_src_main_py = true;
    assert_eq!(detect(&facts).command.as_deref(), Some("python3 src/main.py"));
    facts.has_manage_py = true;
    facts.has_uv_lock = true;
    let d = detect(&facts);
    assert_eq!(d.command.as_deref(), Some("uv run manage.py"));
    assert_eq!(d.stage4_test_command.as_deref(), Some("uv run pytest"));
    assert_eq!(d.notes, vec!["偵測到 Python 專案(pyproject.toml),使用 uv 管理"]);
}

#[test]
fn rust_project_and_unknown_project() {
    let d = detect(&RepoFacts { has_cargo_toml: true, ..empty_repo() });
    assert_eq!((d.project_kind, d.command.as_deref()), ("rust", Some("cargo run")));
    let d = detect(&empty_repo());
    assert_eq!((d.project_kind, d.command, d.notes.len()), ("unknown", None, 1));
}

#[test]
fn assistant_overrides_what_was_detected() {
    let d = detect(&RepoFacts { has_cargo_toml: true, ..empty_repo() });
    let s = FinalSettings::merge(&d, Some(&decision()));
    assert_eq!(s.command, "npm run serve");
    assert_eq!(s.stage4_test_command.as_deref(), Some("cargo test"));
    assert!(s.resources_enabled);
    let s = FinalSettings::merge(&d, None);
    assert_eq!(s.command, "cargo run");
    assert!(s.stage1_allowed_tools.is_empty() && !s.resources_enabled);
    assert_eq!(s.health_check_command, None);
    assert_eq!(FinalSettings::merge(&detect(&empty_repo()), None).command, "");
}

#[test]
fn escaped_strings_are_read_back_by_toml() {
    for s in ["", "plain", "a \"b\" \\c\\", "line\nfeed\tand\rreturn", "錯誤"] {
        let doc = format!("x = \"{}\"", toml_escape(s));
        let table: toml::Table = toml::from_str(&doc).unwrap();
        assert_eq!(table["x"].as_str(), Some(s));
    }
}

#[test]
fn rendered_configuration_is_toml_with_the_settings() {
    let d = detect(&empty_repo());
    let s = FinalSettings::merge(&d, Some(&decision()));
    let text = render_toml("my-app", "/src/my-app", &s);
    assert!(text.starts_with("# 由 `artemis onboard /src/my-app` 自動產生(專案類型:unknown)\n# 未偵測到"));
    let table: toml::Table = toml::from_str(&text).expect("it is TOML");
    assert_eq!(table["name"].as_str(), Some("my-app"));
    assert_eq!(table["command"].as_str(), Some("npm run serve"));
    assert_eq!(table["cwd"].as_str(), Some("/src/my-app"));
    assert_eq!(table["incidents_dir"].as_str(), Some("./incidents/my-app"));
    assert_eq!(table["resources"]["enabled"].as_bool(), Some(true));
    let e = &table["escalation"];
    assert_eq!(e["health_check_command"].as_str(), Some("curl -sf \"http://x\""));
    assert_eq!(e["stage1_allowed_tools"][0].as_str(), Some("Bash(rm -rf .next)"));
    assert_eq!(e["stage3_config_files"][1].as_str(), Some("C:\\b"));
    assert!(e.get("stage4_test_command").is_none());
    assert_eq!(table["agents"]["log_analysis"]["model"].as_str(), Some("your-log-analysis-model"));
}

#[test]
fn rendered_configuration_without_settings_asks_for_them() {
    let s = FinalSettings::merge(&detect(&empty_repo()), None);
    let text = render_toml("x", "/x", &s);
    assert!(text.contains("\ncommand = \"\" # TODO: 未能自動偵測,請手動填寫啟動指令\n"));
    assert!(text.contains("\n# health_check_command = \"\"\n"));
    assert!(text.contains("\nstage1_allowed_tools = [\n    # 尚未決定,請視情況手動補上\n]\n"));
    assert!(text.contains("\n# stage4_test_command = \"\"\n"));
    let table: toml::Table = toml::from_str(&text).expect("it is TOML");
    assert_eq!(table["command"].as_str(), Some(""));
}

#[test]
fn summary_tells_what_was_decided() {
    let s = FinalSettings::merge(&detect(&empty_repo()), Some(&decision()));
    assert_eq!(
        render_summary("my-app", "/src/my-app", &s, Some(&decision())),
        "專案:my-app (/src/my-app)\n啟動指令:npm run serve\n健康檢查:curl -sf \"http://x\"\n\
         系統資源監控:啟用\n第一層可執行的立即處置:Bash(rm -rf .next)\n\
         第二層可調整的設定檔:/a/.env; C:\\b\n第三層修復後驗證指令:(未設定)\n\n\
         AI 判斷理由:\nbecause"
    );
    let s = FinalSettings::merge(&detect(&empty_repo()), None);
    assert_eq!(
        render_summary("x", "/x", &s, None),
        "專案:x (/x)\n啟動指令:(未偵測到,需手動填寫)\n健康檢查:(未設定,將採樂觀驗證邏輯)\n\
         系統資源監控:未啟用\n第一層可執行的立即處置:(無,偵測到問題會直接跳過此層)\n\
         第二層可調整的設定檔:(無,偵測到問題會直接跳過此層)\n第三層修復後驗證指令:(未設定)\n\n\
         (AI 分析未成功執行,以上為純靜態偵測結果,建議手動檢查每一項設定。)"
    );
}

#[test]
fn names_and_notices() {
    assert_eq!(project_name(Some("a".to_string())), "a");
    assert_eq!(project_name(None), "target-project");
    assert_eq!(config_file("a"), "a.toml");
    let result = |ai_assisted| OnboardResult {
        config_path: String::new(),
        summary: String::new(),
        ai_assisted,
    };
    assert!(result(true).notice().contains("由 AI 實際讀過專案內容"));
    assert!(result(false).notice().contains("AI 分析未成功執行"));
}

#[test]
fn survey_shows_what_was_detected() {
    let d = Detection {
        command: Some("say \"hi\"".to_string()),
        stage4_test_command: None,
        project_kind: "node",
        notes: vec![],
    };
    let prompt = survey_prompt("/r", "n", &d);
    assert!(prompt.starts_with(
        "你要幫一個自動維運 agent(artemis)決定監控與自主處置設定。\n目標專案路徑:/r\n專案名稱:n\n\
         靜態偵測結果:專案類型=node, 猜測啟動指令=Some(\"say \\\"hi\\\"\"), 猜測測試指令=None\n\n"
    ));
    assert!(prompt.ends_with("\n```"));
    assert!(extract_json_block(&prompt).unwrap().is_object());
    assert_eq!(
        survey_args("p"),
        vec![
            "-p",
            "p",
            "--output-format",
            "json",
            "--permission-mode",
            "dontAsk",
            "--allowedTools",
            "Read,Glob,Grep",
            "--disallowedTools",
            "Bash,Edit,Write"
        ]
    );
}

#[test]
fn arguments_without_tools_and_with_a_model() {
    assert_eq!(
        cli_args("p", Some("m"), &vec![], &vec![], "plan"),
        vec!["-p", "p", "--output-format", "json", "--permission-mode", "plan", "--model", "m"]
    );
}

#[test]
fn answer_is_the_result_of_the_last_event() {
    assert_eq!(reply_text(r#"[{"type": "x"}, {"type": "result", "result": "hello"}]"#), "hello");
    assert_eq!(reply_text(r#"{"result": "hello"}"#), "hello");
    for printed in ["no json", "[]", "[{\"result\": 5}]", "{\"other\": \"x\"}"] {
        assert_eq!(reply_text(printed), printed);
    }
    let v: Value = serde_json::from_str(r#"[{"result": "a"}, {"result": "b"}]"#).unwrap();
    assert_eq!(result_text(&v).as_deref(), Some("b"));
    assert_eq!(result_text(&Value::Null), None);
}

#[test]
fn last_complete_block_counts() {
    let text = "one ```json\n{\"a\": 1}\n``` two ```json {\"b\": 2} ``` three ```json {\"c\"";
    assert_eq!(last_json_block(text).as_deref(), Some(" {\"b\": 2} "));
    assert_eq!(extract_json_block(text).unwrap()["b"], Value::from(2));
    assert_eq!(last_json_block("no block ``` x ```"), None);
    assert_eq!(extract_json_block("```json not json ```"), None);
    assert_eq!(extract_json_block("```json ```json``` 1 ```"), None);
    assert_eq!(extract_json_block("```json 1```"), Some(Value::from(1)));
}

#[test]
fn requests_go_where_the_configuration_says() {
    let mut cfg = Config::for_command("c".to_string(), "h".to_string());
    cfg.agent_service.url = "http://agent:1//".to_string();
    let q = escalation_request(&cfg, Some("t".to_string())).unwrap();
    assert_eq!((q.url.as_str(), q.timeout_secs), ("http://agent:1/escalate", 600));
    assert_eq!(q.authorization.as_deref(), Some("Bearer t"));
    assert_eq!(escalation_request(&cfg, None).unwrap().authorization, None);
    cfg.escalation.enabled = false;
    assert!(escalation_request(&cfg, None).is_none());
    assert!(push_request(&cfg, None).is_none());
    cfg.central.enabled = true;
    let q = push_request(&cfg, None).unwrap();
    assert_eq!(q.url, "http://127.0.0.1:8787/incidents");
    assert_eq!(q.timeout_secs, PUSH_TIMEOUT_SECS);
}

#[test]
fn agent_service_is_told_what_it_may_do() {
    let mut cfg = Config::for_command("c".to_string(), "h".to_string());
    cfg.escalation.stage1_allowed_tools.push("Bash(x)".to_string());
    cfg.escalation.health_check_command = Some("curl".to_string());
    cfg.escalation.max_turns_per_stage = 7;
    cfg.escalation.max_tokens_per_escalation = 900_000;
    cfg.remote.enabled = true;
    cfg.remote.device_id = Some("edge-7".to_string());
    cfg.remote.timeout_secs = 45;
    cfg.remote.allowed_commands.push("Bash(systemctl status *)".to_string());
    let body = escalation_body(&cfg, Value::from("the incident"));
    let expected: Value = serde_json::from_str(
        r#"{
            "incident": "the incident",
            "cwd": ".",
            "escalation": {
                "verify_window_ms": 15000,
                "health_check_command": "curl",
                "stage1_allowed_tools": ["Bash(x)"],
                "stage3_config_files": [],
                "stage4_test_command": null,
                "execution_model": null,
                "execution_base_url": null,
                "execution_api_key_env": null,
                "max_turns_per_stage": 7,
                "max_tokens_per_escalation": 900000
            },
            "orchestrator": {
                "enabled": false,
                "base_url": "http://localhost:4000/v1",
                "api_key_env": null,
                "model": "your-orchestrator-model",
                "timeout_secs": 60
            },
            "agents": {
                "risk_analysis": {"model": "your-orchestrator-model", "base_url": null, "api_key_env": null},
                "security_analysis": {"model": "your-orchestrator-model", "base_url": null, "api_key_env": null},
                "quick_fix_analysis": {"model": "your-orchestrator-model", "base_url": null, "api_key_env": null},
                "log_analysis": {"model": "your-orchestrator-model", "base_url": null, "api_key_env": null},
                "root_cause_analysis": {"model": "your-orchestrator-model", "base_url": null, "api_key_env": null}
            },
            "remote": {
                "enabled": true,
                "device_id": "edge-7",
                "sanc_bin": "sanc",
                "state_dir": null,
                "timeout_secs": 45,
                "allowed_commands": ["Bash(systemctl status *)"]
            }
        }"#,
    )
    .unwrap();
    assert_eq!(body, expected);
}

#[test]
fn collector_is_told_where_an_incident_comes_from() {
    let cfg = Config::for_command("c".to_string(), "host-1".to_string());
    let body = push_body(&cfg, Value::Null, Some("# report".to_string()));
    let expected: Value = serde_json::from_str(
        r##"{"host_id": "host-1", "project": "unnamed-project", "incident": null, "report_markdown": "# report"}"##,
    )
    .unwrap();
    assert_eq!(body, expected);
    assert_eq!(push_body(&cfg, Value::Null, None)["report_markdown"], Value::Null);
}

#[test]
fn settings_stand_on_lines_of_their_own() {
    let odd = "a \"b\"\n\\c\td\r";
    let settings = FinalSettings {
        project_kind: "node",
        command: odd.to_string(),
        health_check_command: Some(odd.to_string()),
        stage1_allowed_tools: vec![odd.to_string(), "x".to_string()],
        stage3_config_files: vec!["y".to_string(), odd.to_string()],
        stage4_test_command: None,
        resources_enabled: true,
        notes: vec!["a note".to_string()],
    };
    let text = render_toml("demo", odd, &settings);
    let lines: Vec<&str> = text.lines().collect();
    let quoted = r#""a \"b\"\n\\c\td\r""#;
    let expected = [
        r#"name = "demo""#.to_string(),
        format!("command = {quoted}"),
        format!("cwd = {quoted}"),
        r#"incidents_dir = "./incidents/demo""#.to_string(),
        "enabled = true".to_string(),
        format!("health_check_command = {quoted}"),
        format!("    {quoted},"),
        r#"    "x","#.to_string(),
        r#"    "y","#.to_string(),
        r#"# stage4_test_command = """#.to_string(),
    ];
    for line in &expected {
        assert!(lines.contains(&line.as_str()), "no line {line}");
    }
    assert_eq!(lines.iter().filter(|line| **line == expected[6]).count(), 2);
}
