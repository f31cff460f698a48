//! Configuration of a new project: what its files tell, what the assistant adds to it, and the
//! configuration file that comes of both.

use crate::ai::{arguments, cli_args};
use crate::json::{json_member, json_text, json_value, member, parse, text};
use crate::text::{chars_of, join, joined, opt_view, views};
use serde_json::Value;
use vstd::prelude::*;

verus! {

/// What the files of a project tell.
#[derive(Debug, Clone)]
pub struct RepoFacts {
    pub has_package_json: bool,
    /// What `package.json` holds, where it could be read.
    pub package_json: Option<String>,
    pub has_pyproject: bool,
    pub has_cargo_toml: bool,
    pub has_pnpm_lock: bool,
    pub has_yarn_lock: bool,
    pub has_bun_lock: bool,
    pub has_uv_lock: bool,
    pub has_main_py: bool,
    pub has_app_py: bool,
    pub has_manage_py: bool,
    pub has_src_main_py: bool,
}

/// What was found out about a project from its files.
#[derive(Debug, Clone)]
pub struct Detection {
    pub command: Option<String>,
    pub stage4_test_command: Option<String>,
    pub project_kind: &'static str,
    pub notes: Vec<String>,
}

/// What was found out about a project, by what it says.
pub struct DetectionView {
    pub command: Option<Seq<char>>,
    pub test: Option<Seq<char>>,
    pub kind: Seq<char>,
    pub notes: Seq<Seq<char>>,
}

impl View for Detection {
    type V = DetectionView;

    open spec fn view(&self) -> DetectionView {
        DetectionView {
            command: opt_view(self.command),
            test: opt_view(self.stage4_test_command),
            kind: self.project_kind@,
            notes: views(self.notes@),
        }
    }
}

/// What the assistant decided.
#[derive(Debug, Clone)]
pub struct AiDecision {
    pub command: Option<String>,
    pub health_check_command: Option<String>,
    pub stage1_allowed_tools: Vec<String>,
    pub stage3_config_files: Vec<String>,
    pub stage4_test_command: Option<String>,
    pub resources_enabled: Option<bool>,
    pub summary: Option<String>,
}

/// What goes into the configuration file.
#[derive(Debug, Clone)]
pub struct FinalSettings {
    pub command: String,
    pub health_check_command: Option<String>,
    pub stage1_allowed_tools: Vec<String>,
    pub stage3_config_files: Vec<String>,
    pub stage4_test_command: Option<String>,
    pub resources_enabled: bool,
    pub project_kind: &'static str,
    pub notes: Vec<String>,
}

/// What goes into the configuration file, by what it says.
pub struct SettingsView {
    pub command: Seq<char>,
    pub health: Option<Seq<char>>,
    pub stage1: Seq<Seq<char>>,
    pub stage3: Seq<Seq<char>>,
    pub test: Option<Seq<char>>,
    pub resources: bool,
    pub kind: Seq<char>,
    pub notes: Seq<Seq<char>>,
}

impl View for FinalSettings {
    type V = SettingsView;

    open spec fn view(&self) -> SettingsView {
        SettingsView {
            command: self.command@,
            health: opt_view(self.health_check_command),
            stage1: views(self.stage1_allowed_tools@),
            stage3: views(self.stage3_config_files@),
            test: opt_view(self.stage4_test_command),
            resources: self.resources_enabled,
            kind: self.project_kind@,
            notes: views(self.notes@),
        }
    }
}

/// The first that is there.
pub open spec fn first_of(a: Option<Seq<char>>, b: Option<Seq<char>>) -> Option<Seq<char>> {
    match a {
        Some(s) => Some(s),
        None => b,
    }
}

/// What the files and the assistant tell together: where both name a command, the assistant's
/// stands.
pub open spec fn merged(baseline: DetectionView, ai: Option<AiDecision>) -> SettingsView {
    match ai {
        Some(a) => SettingsView {
            command: match first_of(opt_view(a.command), baseline.command) {
                Some(s) => s,
                None => Seq::empty(),
            },
            health: opt_view(a.health_check_command),
            stage1: views(a.stage1_allowed_tools@),
            stage3: views(a.stage3_config_files@),
            test: first_of(opt_view(a.stage4_test_command), baseline.test),
            resources: a.resources_enabled == Some(true),
            kind: baseline.kind,
            notes: baseline.notes,
        },
        None => SettingsView {
            command: match baseline.command {
                Some(s) => s,
                None => Seq::empty(),
            },
            health: None,
            stage1: Seq::empty(),
            stage3: Seq::empty(),
            test: baseline.test,
            resources: false,
            kind: baseline.kind,
            notes: baseline.notes,
        },
    }
}

/// A copy of a list.
fn copied(list: &Vec<String>) -> (r: Vec<String>)
    ensures
        views(r@) == views(list@),
{
    let mut r: Vec<String> = Vec::new();
    for i in 0..list.len()
        invariant
            views(r@) == views(list@).take(i as int),
    {
        let ghost before = views(r@);
        r.push(list[i].clone());
        assert(views(r@) =~= before.push(list@[i as int]@));
        assert(views(list@).take(i + 1) =~= before.push(views(list@)[i as int]));
    }
    assert(views(list@).take(list@.len() as int) =~= views(list@));
    r
}

/// A copy of what is there.
fn copied_option(s: &Option<String>) -> (r: Option<String>)
    ensures
        opt_view(r) == opt_view(*s),
{
    match s {
        Some(s) => Some(s.clone()),
        None => None,
    }
}

/// The first that is there.
fn first_copied(a: &Option<String>, b: &Option<String>) -> (r: Option<String>)
    ensures
        opt_view(r) == first_of(opt_view(*a), opt_view(*b)),
{
    match a {
        Some(s) => Some(s.clone()),
        None => copied_option(b),
    }
}

impl FinalSettings {
    /// What the files and the assistant tell together.
    pub fn merge(baseline: &Detection, ai: Option<&AiDecision>) -> (r: Self)
        ensures
            r@ == merged(
                baseline@,
                match ai {
                    Some(a) => Some(*a),
                    None => None,
                },
            ),
    {
        match ai {
            Some(a) => {
                let command = match first_copied(&a.command, &baseline.command) {
                    Some(s) => s,
                    None => String::new(),
                };
                let resources_enabled = match a.resources_enabled {
                    Some(b) => b,
                    None => false,
                };
                let r = FinalSettings {
                    command,
                    health_check_command: copied_option(&a.health_check_command),
                    stage1_allowed_tools: copied(&a.stage1_allowed_tools),
                    stage3_config_files: copied(&a.stage3_config_files),
                    stage4_test_command: first_copied(
                        &a.stage4_test_command,
                        &baseline.stage4_test_command,
                    ),
                    resources_enabled,
                    project_kind: baseline.project_kind,
                    notes: copied(&baseline.notes),
                };
                assert(r@.command =~= merged(baseline@, Some(*a)).command);
                r
            },
            None => {
                let command = match copied_option(&baseline.command) {
                    Some(s) => s,
                    None => String::new(),
                };
                let r = FinalSettings {
                    command,
                    health_check_command: None,
                    stage1_allowed_tools: Vec::new(),
                    stage3_config_files: Vec::new(),
                    stage4_test_command: copied_option(&baseline.stage4_test_command),
                    resources_enabled: false,
                    project_kind: baseline.project_kind,
                    notes: copied(&baseline.notes),
                };
                assert(r@.command =~= merged(baseline@, None).command);
                assert(r@.stage1 =~= Seq::<Seq<char>>::empty());
                assert(r@.stage3 =~= Seq::<Seq<char>>::empty());
                r
            },
        }
    }
}

/// The package manager of a Node.js project, by its lock file.
pub open spec fn manager(facts: RepoFacts) -> Seq<char> {
    if facts.has_pnpm_lock {
        "pnpm"@
    } else if facts.has_yarn_lock {
        "yarn"@
    } else if facts.has_bun_lock {
        "bun"@
    } else {
        "npm"@
    }
}

/// The package manager of a Node.js project, by its lock file.
pub fn package_manager(facts: &RepoFacts) -> (r: &'static str)
    ensures
        r@ == manager(*facts),
{
    if facts.has_pnpm_lock {
        "pnpm"
    } else if facts.has_yarn_lock {
        "yarn"
    } else if facts.has_bun_lock {
        "bun"
    } else {
        "npm"
    }
}

/// Which scripts of interest a `package.json` has.
#[derive(Debug, Clone, Copy, PartialEq, Eq, Structural)]
pub struct Scripts {
    pub dev: bool,
    pub start: bool,
    pub typecheck: bool,
    pub lint: bool,
    pub test: bool,
}

/// Whether `scripts` has one of this name.
pub open spec fn has_script(scripts: Option<Value>, name: Seq<char>) -> bool {
    match scripts {
        Some(v) => match json_member(v, name) {
            Some(m) => json_text(m) is Some,
            None => false,
        },
        None => false,
    }
}

/// Which scripts of interest `scripts` has.
pub open spec fn scripts_among(scripts: Option<Value>) -> Scripts {
    Scripts {
        dev: has_script(scripts, "dev"@),
        start: has_script(scripts, "start"@),
        typecheck: has_script(scripts, "typecheck"@),
        lint: has_script(scripts, "lint"@),
        test: has_script(scripts, "test"@),
    }
}

/// The member `scripts` of a `package.json`, where it could be read and is JSON.
pub open spec fn scripts_of(package_json: Option<Seq<char>>) -> Option<Value> {
    match package_json {
        Some(raw) => match json_value(raw) {
            Some(v) => json_member(v, "scripts"@),
            None => None,
        },
        None => None,
    }
}

/// Whether `scripts` has one of this name.
fn names_script(scripts: Option<&Value>, name: &str) -> (r: bool)
    ensures
        r == has_script(
            match scripts {
                Some(v) => Some(*v),
                None => None,
            },
            name@,
        ),
{
    match scripts {
        Some(v) => match member(v, name) {
            Some(m) => text(m).is_some(),
            None => false,
        },
        None => false,
    }
}

/// Which scripts of interest a `package.json` has, by its member `scripts`.
pub fn scripts_in(scripts: Option<&Value>) -> (r: Scripts)
    ensures
        r == scripts_among(
            match scripts {
                Some(v) => Some(*v),
                None => None,
            },
        ),
{
    Scripts {
        dev: names_script(scripts, "dev"),
        start: names_script(scripts, "start"),
        typecheck: names_script(scripts, "typecheck"),
        lint: names_script(scripts, "lint"),
        test: names_script(scripts, "test"),
    }
}

/// The command that runs a script.
pub open spec fn run_text(manager: Seq<char>, script: Seq<char>) -> Seq<char> {
    manager + " run "@ + script
}

/// The command that runs a script.
fn run(manager: &str, script: &str) -> (r: String)
    ensures
        r@ == run_text(manager@, script@),
{
    let mut r = manager.to_string();
    r.append(" run ");
    r.append(script);
    r
}

/// The commands that check a Node.js project.
pub open spec fn node_checks(manager: Seq<char>, s: Scripts) -> Seq<Seq<char>> {
    (if s.typecheck {
        seq![run_text(manager, "typecheck"@)]
    } else {
        Seq::empty()
    }) + (if s.lint {
        seq![run_text(manager, "lint"@)]
    } else {
        Seq::empty()
    }) + (if s.test {
        seq![run_text(manager, "test"@)]
    } else {
        Seq::empty()
    })
}

/// What is found out about a Node.js project.
pub open spec fn node_found(manager: Seq<char>, s: Scripts) -> DetectionView {
    DetectionView {
        command: if s.dev {
            Some(run_text(manager, "dev"@))
        } else if s.start {
            Some(run_text(manager, "start"@))
        } else {
            None
        },
        test: if node_checks(manager, s).len() > 0 {
            Some(joined(node_checks(manager, s), " && "@))
        } else {
            None
        },
        kind: "node"@,
        notes: seq!["偵測到 Node.js 專案,套件管理工具:"@ + manager] + (if s.dev || s.start {
            Seq::empty()
        } else {
            seq!["package.json 沒有 dev/start script,command 需要手動填寫。"@]
        }),
    }
}

/// What is found out about a Node.js project with this package manager and these scripts.
pub fn node_detection(manager: &str, s: Scripts) -> (r: Detection)
    ensures
        r@ == node_found(manager@, s),
{
    let mut notes: Vec<String> = Vec::new();
    let mut note = "偵測到 Node.js 專案,套件管理工具:".to_string();
    note.append(manager);
    notes.push(note);
    let command = if s.dev {
        Some(run(manager, "dev"))
    } else if s.start {
        Some(run(manager, "start"))
    } else {
        notes.push("package.json 沒有 dev/start script,command 需要手動填寫。".to_string());
        None
    };
    let mut checks: Vec<String> = Vec::new();
    if s.typecheck {
        checks.push(run(manager, "typecheck"));
    }
    if s.lint {
        checks.push(run(manager, "lint"));
    }
    if s.test {
        checks.push(run(manager, "test"));
    }
    assert(views(checks@) =~= node_checks(manager@, s));
    let stage4_test_command = if checks.len() == 0 {
        None
    } else {
        Some(join(&checks, " && "))
    };
    assert(views(notes@) =~= node_found(manager@, s).notes);
    Detection { command, stage4_test_command, project_kind: "node", notes }
}

/// What is found out about a Node.js project from its files.
pub fn detect_node(facts: &RepoFacts) -> (r: Detection)
    ensures
        r@ == node_found(
            manager(*facts),
            scripts_among(scripts_of(opt_view(facts.package_json))),
        ),
{
    let manager = package_manager(facts);
    let package: Option<Value> = match &facts.package_json {
        Some(raw) => parse(raw.as_str()),
        None => None,
    };
    let scripts = match &package {
        Some(v) => scripts_in(member(v, "scripts")),
        None => scripts_in(None),
    };
    node_detection(manager, scripts)
}

/// The file at which a Python project starts: the first of those that are usual.
pub open spec fn entry_file(facts: RepoFacts) -> Option<Seq<char>> {
    if facts.has_main_py {
        Some("main.py"@)
    } else if facts.has_app_py {
        Some("app.py"@)
    } else if facts.has_manage_py {
        Some("manage.py"@)
    } else if facts.has_src_main_py {
        Some("src/main.py"@)
    } else {
        None
    }
}

/// What is found out about a Python project.
pub open spec fn python_found(facts: RepoFacts) -> DetectionView {
    DetectionView {
        command: match entry_file(facts) {
            Some(file) => Some(
                if facts.has_uv_lock {
                    "uv run "@ + file
                } else {
                    "python3 "@ + file
                },
            ),
            None => None,
        },
        test: Some(
            if facts.has_uv_lock {
                "uv run pytest"@
            } else {
                "pytest"@
            },
        ),
        kind: "python"@,
        notes: seq![
            "偵測到 Python 專案(pyproject.toml)"@ + (if facts.has_uv_lock {
                ",使用 uv 管理"@
            } else {
                Seq::empty()
            }),
        ] + (if entry_file(facts) is Some {
            Seq::empty()
        } else {
            seq!["未找到常見的進入點檔案(main.py/app.py/manage.py),command 需要手動填寫。"@]
        }),
    }
}

/// What is found out about a Python project from its files.
pub fn detect_python(facts: &RepoFacts) -> (r: Detection)
    ensures
        r@ == python_found(*facts),
{
    let mut notes: Vec<String> = Vec::new();
    let mut note = "偵測到 Python 專案(pyproject.toml)".to_string();
    if facts.has_uv_lock {
        note.append(",使用 uv 管理");
    } else {
        assert(note@ + Seq::<char>::empty() =~= note@);
    }
    notes.push(note);
    let file: Option<&'static str> = if facts.has_main_py {
        Some("main.py")
    } else if facts.has_app_py {
        Some("app.py")
    } else if facts.has_manage_py {
        Some("manage.py")
    } else if facts.has_src_main_py {
        Some("src/main.py")
    } else {
        None
    };
    let command = match file {
        Some(file) => {
            let mut c = if facts.has_uv_lock {
                "uv run ".to_string()
            } else {
                "python3 ".to_string()
            };
            c.append(file);
            Some(c)
        },
        None => {
            notes.push(
                "未找到常見的進入點檔案(main.py/app.py/manage.py),command 需要手動填寫。".to_string(),
            );
            None
        },
    };
    let stage4_test_command = Some(
        if facts.has_uv_lock {
            "uv run pytest".to_string()
        } else {
            "pytest".to_string()
        },
    );
    assert(views(notes@) =~= python_found(*facts).notes);
    Detection { command, stage4_test_command, project_kind: "python", notes }
}

/// What is found out about a Rust project.
pub open spec fn rust_found() -> DetectionView {
    DetectionView {
        command: Some("cargo run"@),
        test: Some("cargo test"@),
        kind: "rust"@,
        notes: seq!["偵測到 Rust 專案(Cargo.toml)"@],
    }
}

/// What is found out about a Rust project.
pub fn detect_rust() -> (r: Detection)
    ensures
        r@ == rust_found(),
{
    let mut notes: Vec<String> = Vec::new();
    notes.push("偵測到 Rust 專案(Cargo.toml)".to_string());
    assert(views(notes@) =~= rust_found().notes);
    Detection {
        command: Some("cargo run".to_string()),
        stage4_test_command: Some("cargo test".to_string()),
        project_kind: "rust",
        notes,
    }
}

/// What is found out about a project of no known kind.
pub open spec fn unknown_found() -> DetectionView {
    DetectionView {
        command: None,
        test: None,
        kind: "unknown"@,
        notes: seq!["未偵測到 package.json / pyproject.toml / Cargo.toml,請手動填寫 command。"@],
    }
}

/// What is found out about a project from its files: by the first of `package.json`,
/// `pyproject.toml` and `Cargo.toml` that it has.
pub fn detect(facts: &RepoFacts) -> (r: Detection)
    ensures
        r@ == (if facts.has_package_json {
            node_found(manager(*facts), scripts_among(scripts_of(opt_view(facts.package_json))))
        } else if facts.has_pyproject {
            python_found(*facts)
        } else if facts.has_cargo_toml {
            rust_found()
        } else {
            unknown_found()
        }),
        facts.has_package_json ==> r@.kind == "node"@,
        !facts.has_package_json && facts.has_pyproject ==> r@.kind == "python"@,
        !facts.has_package_json && !facts.has_pyproject && facts.has_cargo_toml ==> r@.kind
            == "rust"@,
        !facts.has_package_json && !facts.has_pyproject && !facts.has_cargo_toml ==> r@.kind
            == "unknown"@,
{
    if facts.has_package_json {
        return detect_node(facts);
    }
    if facts.has_pyproject {
        return detect_python(facts);
    }
    if facts.has_cargo_toml {
        return detect_rust();
    }
    let mut notes: Vec<String> = Vec::new();
    notes.push(
        "未偵測到 package.json / pyproject.toml / Cargo.toml,請手動填寫 command。".to_string(),
    );
    assert(views(notes@) =~= unknown_found().notes);
    Detection { command: None, stage4_test_command: None, project_kind: "unknown", notes }
}

/// How a character is written in a basic string of TOML.
pub open spec fn escaped_char(c: char) -> Seq<char> {
    if c == '\\' {
        seq!['\\', '\\']
    } else if c == '"' {
        seq!['\\', '"']
    } else if c == '\n' {
        seq!['\\', 'n']
    } else if c == '\t' {
        seq!['\\', 't']
    } else if c == '\r' {
        seq!['\\', 'r']
    } else {
        seq![c]
    }
}

/// How `s` is written in a basic string of TOML.
pub open spec fn escaped(s: Seq<char>) -> Seq<char>
    decreases s.len(),
{
    if s.len() == 0 {
        Seq::empty()
    } else {
        escaped(s.drop_last()) + escaped_char(s.last())
    }
}

/// How `s` is written in a basic string of TOML: quotes, backslashes and line ends are escaped.
pub fn toml_escape(s: &str) -> (r: String)
    ensures
        r@ == escaped(s@),
{
    let cs = chars_of(s);
    let mut out = String::new();
    assert(out@ =~= escaped(cs@.take(0)));
    for i in 0..cs.len()
        invariant
            cs@ == s@,
            out@ == escaped(cs@.take(i as int)),
    {
        let c = cs[i];
        let ghost before = out@;
        assert(cs@.take(i + 1).drop_last() =~= cs@.take(i as int));
        if c == '\\' {
            out.push('\\');
            out.push('\\');
        } else if c == '"' {
            out.push('\\');
            out.push('"');
        } else if c == '\n' {
            out.push('\\');
            out.push('n');
        } else if c == '\t' {
            out.push('\\');
            out.push('t');
        } else if c == '\r' {
            out.push('\\');
            out.push('r');
        } else {
            out.push(c);
        }
        assert(out@ =~= before + escaped_char(c));
    }
    assert(cs@.take(cs@.len() as int) =~= s@);
    out
}

/// The character that an escape in a basic string of TOML stands for, by what follows the
/// backslash.
pub open spec fn unescaped_char(c: char) -> char {
    if c == 'n' {
        '\n'
    } else if c == 't' {
        '\t'
    } else if c == 'r' {
        '\r'
    } else {
        c
    }
}

/// What a basic string of TOML stands for.
pub open spec fn unescaped(t: Seq<char>) -> Seq<char>
    decreases t.len(),
{
    if t.len() == 0 {
        Seq::empty()
    } else if t[0] == '\\' && t.len() > 1 {
        seq![unescaped_char(t[1])] + unescaped(t.skip(2))
    } else {
        seq![t[0]] + unescaped(t.skip(1))
    }
}

/// Where a basic string of TOML ends: at its first quote that is not escaped.
pub open spec fn string_end(t: Seq<char>) -> Option<int>
    decreases t.len(),
{
    if t.len() == 0 {
        None
    } else if t[0] == '"' {
        Some(0)
    } else if t[0] == '\\' && t.len() > 1 {
        match string_end(t.skip(2)) {
            Some(i) => Some(i + 2),
            None => None,
        }
    } else {
        match string_end(t.skip(1)) {
            Some(i) => Some(i + 1),
            None => None,
        }
    }
}

proof fn lemma_escaped_front(s: Seq<char>)
    requires
        s.len() > 0,
    ensures
        escaped(s) == escaped_char(s[0]) + escaped(s.drop_first()),
    decreases s.len(),
{
    if s.len() == 1 {
        assert(s.drop_last() =~= Seq::<char>::empty());
        assert(s.drop_first() =~= Seq::<char>::empty());
        assert(escaped(s) =~= escaped_char(s[0]) + escaped(s.drop_first()));
    } else {
        lemma_escaped_front(s.drop_last());
        assert(s.drop_last().drop_first() =~= s.drop_first().drop_last());
        assert(escaped(s) =~= escaped_char(s[0]) + (escaped(s.drop_first().drop_last())
            + escaped_char(s.last())));
    }
}

/// What is written into the configuration file is read back as it was: a string stands for what
/// was escaped, and ends where it was written to end.
pub proof fn law_escape_round_trip(s: Seq<char>, rest: Seq<char>)
    ensures
        unescaped(escaped(s)) == s,
        string_end(escaped(s) + seq!['"'] + rest) == Some(escaped(s).len() as int),
    decreases s.len(),
{
    if s.len() == 0 {
        assert(unescaped(escaped(s)) =~= s);
        assert((escaped(s) + seq!['"'] + rest)[0] == '"');
    } else {
        let tail = s.drop_first();
        let head = escaped_char(s[0]);
        law_escape_round_trip(tail, rest);
        lemma_escaped_front(s);
        let t = escaped(s);
        let whole = t + seq!['"'] + rest;
        assert(t == head + escaped(tail));
        assert(t.skip(head.len() as int) =~= escaped(tail));
        assert(whole.skip(head.len() as int) =~= escaped(tail) + seq!['"'] + rest);
        assert(t[0] == head[0]);
        assert(whole[0] == head[0]);
        if head.len() == 2 {
            assert(t[1] == head[1]);
            assert(whole[1] == head[1]);
        }
        assert(unescaped(t) =~= s);
    }
}

/// An escaped string stays on its line.
pub proof fn law_escaped_is_one_line(s: Seq<char>)
    ensures
        forall|i: int|
            0 <= i < escaped(s).len() ==> #[trigger] escaped(s)[i] != '\n' && escaped(s)[i] != '\r'
                && escaped(s)[i] != '\t',
    decreases s.len(),
{
    if s.len() > 0 {
        law_escaped_is_one_line(s.drop_last());
        let front = escaped(s.drop_last());
        let end = escaped_char(s.last());
        assert forall|i: int| 0 <= i < escaped(s).len() implies #[trigger] escaped(s)[i] != '\n'
            && escaped(s)[i] != '\r' && escaped(s)[i] != '\t' by {
            if i < front.len() {
                assert(escaped(s)[i] == front[i]);
            } else {
                assert(escaped(s)[i] == end[i - front.len()]);
            }
        }
    }
}

/// Each part with something before and after it.
pub open spec fn wrapped(parts: Seq<Seq<char>>, before: Seq<char>, after: Seq<char>) -> Seq<
    Seq<char>,
> {
    parts.map_values(|p: Seq<char>| before + p + after)
}

/// Each part escaped.
pub open spec fn all_escaped(parts: Seq<Seq<char>>) -> Seq<Seq<char>> {
    parts.map_values(|p: Seq<char>| escaped(p))
}

/// Each part with something before and after it.
fn wrap(parts: &Vec<String>, before: &str, after: &str) -> (r: Vec<String>)
    ensures
        views(r@) == wrapped(views(parts@), before@, after@),
{
    let mut r: Vec<String> = Vec::new();
    for i in 0..parts.len()
        invariant
            r@.len() == i,
            forall|j: int| 0 <= j < i ==> (#[trigger] r@[j])@ == before@ + parts@[j]@ + after@,
    {
        let mut p = before.to_string();
        p.append(parts[i].as_str());
        p.append(after);
        r.push(p);
    }
    assert(views(r@) =~= wrapped(views(parts@), before@, after@));
    r
}

/// Each part escaped.
fn escape_all(parts: &Vec<String>) -> (r: Vec<String>)
    ensures
        views(r@) == all_escaped(views(parts@)),
{
    let mut r: Vec<String> = Vec::new();
    for i in 0..parts.len()
        invariant
            r@.len() == i,
            forall|j: int| 0 <= j < i ==> (#[trigger] r@[j])@ == escaped(parts@[j]@),
    {
        r.push(toml_escape(parts[i].as_str()));
    }
    assert(views(r@) =~= all_escaped(views(parts@)));
    r
}

/// How errors are detected.
pub const TOML_DETECTION: &'static str = r#"
log_files = []
error_patterns = [
    "Error:",
    "ERROR",
    "Uncaught",
    "UnhandledPromiseRejection",
    "FATAL",
    "panic:",
    "Traceback \\(most recent call last\\)",
    "thread '.*' panicked at",
]

auto_restart = true
restart_delay_ms = 2000
max_restarts = 5
"#;

/// How incidents are recorded, up to whether resources are watched.
pub const TOML_RECORDING: &'static str = r#"context_lines = 6
analyzer_script = "./analyzer/analyze.py"

[resources]"#;

/// The limits of the resources, up to the health check.
pub const TOML_ESCALATION: &'static str = r#"poll_interval_ms = 5000
cpu_percent = 90.0
memory_percent = 90.0
disk_percent = 90.0

[escalation]
enabled = true
verify_window_ms = 15000"#;

/// The services that handle incidents.
pub const TOML_SERVICES: &'static str = r#"
# 取代命令列助手的 Python 服務(agent_service/,OpenAI Agents SDK):
# 判斷層與執行層都在這裡執行,偵測到事件時 Rust 會呼叫這個本機 HTTP 服務。
# 啟動方式:cd agent_service && uv run uvicorn main:app --port 8787
[agent_service]
url = "http://127.0.0.1:8787"
timeout_secs = 600

# 多模型 agent harness(選用):啟用後,偵測到事件時會先呼叫 orchestrator model
# (透過 LiteLLM 的 OpenAI-compatible API)動態決定要派哪些分析 agent,
# 彙整結果後才交給上面的 stage1~3 執行。預設關閉,設定好 LiteLLM endpoint 與
# 模型名稱後再手動開啟。
[orchestrator]
enabled = false
base_url = "http://localhost:4000/v1"
# api_key_env = "LITELLM_API_KEY"
model = "your-orchestrator-model"
timeout_secs = 60

[agents.risk_analysis]
model = "your-risk-analysis-model"

[agents.security_analysis]
model = "your-security-analysis-model"

[agents.quick_fix_analysis]
model = "your-quick-fix-analysis-model"

[agents.log_analysis]
model = "your-log-analysis-model"

[agents.root_cause_analysis]
model = "your-root-cause-analysis-model"
"#;

/// The line that names the command.
pub open spec fn command_line(command: Seq<char>) -> Seq<char> {
    if command.len() == 0 {
        "command = \"\" # TODO: 未能自動偵測,請手動填寫啟動指令"@
    } else {
        "command = \""@ + escaped(command) + "\""@
    }
}

/// The line of a setting that may be missing, which then stands in a comment.
pub open spec fn optional_line(key: Seq<char>, value: Option<Seq<char>>) -> Seq<char> {
    match value {
        Some(v) => key + " = \""@ + escaped(v) + "\""@,
        None => "# "@ + key + " = \"\""@,
    }
}

/// The lines of a list; a comment where it is empty.
pub open spec fn list_lines(items: Seq<Seq<char>>) -> Seq<char> {
    if items.len() == 0 {
        "    # 尚未決定,請視情況手動補上"@
    } else {
        joined(wrapped(all_escaped(items), "    \""@, "\","@), "\n"@)
    }
}

/// How a choice is written.
pub open spec fn flag(on: bool) -> Seq<char> {
    if on {
        "true"@
    } else {
        "false"@
    }
}

/// The configuration file of a project.
pub open spec fn toml_text(name: Seq<char>, repo: Seq<char>, s: SettingsView) -> Seq<char> {
    "# 由 `artemis onboard "@ + repo
        + "` 自動產生(專案類型:"@ + s.kind
        + ")\n"@ + joined(wrapped(s.notes, "# "@, Seq::empty()), "\n"@)
        + "\n\nname = \""@ + escaped(name)
        + "\"\n"@ + command_line(s.command)
        + "\ncwd = \""@ + escaped(repo)
        + "\"\n"@ + TOML_DETECTION@
        + "\nincidents_dir = \"./incidents/"@ + name
        + "\"\n"@ + TOML_RECORDING@
        + "\nenabled = "@ + flag(s.resources)
        + "\n"@ + TOML_ESCALATION@
        + "\n"@ + optional_line("health_check_command"@, s.health)
        + "\n\nstage1_allowed_tools = [\n"@ + list_lines(s.stage1)
        + "\n]\n\nstage3_config_files = [\n"@ + list_lines(s.stage3)
        + "\n]\n\n"@ + optional_line("stage4_test_command"@, s.test)
        + "\n"@ + TOML_SERVICES@
}

/// The line that names the command.
fn render_command(command: &str) -> (r: String)
    ensures
        r@ == command_line(command@),
{
    if command.unicode_len() == 0 {
        "command = \"\" # TODO: 未能自動偵測,請手動填寫啟動指令".to_string()
    } else {
        let mut r = "command = \"".to_string();
        let value = toml_escape(command);
        r.append(value.as_str());
        r.append("\"");
        r
    }
}

/// The line of a setting that may be missing.
fn render_optional(key: &str, value: &Option<String>) -> (r: String)
    ensures
        r@ == optional_line(key@, opt_view(*value)),
{
    match value {
        Some(v) => {
            let mut r = key.to_string();
            r.append(" = \"");
            let value = toml_escape(v.as_str());
            r.append(value.as_str());
            r.append("\"");
            r
        },
        None => {
            let mut r = "# ".to_string();
            r.append(key);
            r.append(" = \"\"");
            r
        },
    }
}

/// The lines of a list.
fn render_list(items: &Vec<String>) -> (r: String)
    ensures
        r@ == list_lines(views(items@)),
{
    if items.len() == 0 {
        "    # 尚未決定,請視情況手動補上".to_string()
    } else {
        let values = escape_all(items);
        let quoted = wrap(&values, "    \"", "\",");
        join(&quoted, "\n")
    }
}

/// The configuration file of the project `name` in the directory `repo`.
pub fn render_toml(name: &str, repo: &str, s: &FinalSettings) -> (r: String)
    ensures
        r@ == toml_text(name@, repo@, s@),
{
    let command = render_command(s.command.as_str());
    let health = render_optional("health_check_command", &s.health_check_command);
    let test = render_optional("stage4_test_command", &s.stage4_test_command);
    let remarks = wrap(&s.notes, "# ", "");
    assert(""@ =~= Seq::<char>::empty()) by {
        reveal_strlit("");
    }
    let notes = join(&remarks, "\n");
    let stage1 = render_list(&s.stage1_allowed_tools);
    let stage3 = render_list(&s.stage3_config_files);
    let repo_escaped = toml_escape(repo);
    let name_escaped = toml_escape(name);
    let resources: &'static str = if s.resources_enabled {
        "true"
    } else {
        "false"
    };
    let mut r = "# 由 `artemis onboard ".to_string();
    r.append(repo);
    r.append("` 自動產生(專案類型:");
    r.append(s.project_kind);
    r.append(")\n");
    r.append(notes.as_str());
    r.append("\n\nname = \"");
    r.append(name_escaped.as_str());
    r.append("\"\n");
    r.append(command.as_str());
    r.append("\ncwd = \"");
    r.append(repo_escaped.as_str());
    r.append("\"\n");
    r.append(TOML_DETECTION);
    r.append("\nincidents_dir = \"./incidents/");
    r.append(name);
    r.append("\"\n");
    r.append(TOML_RECORDING);
    r.append("\nenabled = ");
    r.append(resources);
    r.append("\n");
    r.append(TOML_ESCALATION);
    r.append("\n");
    r.append(health.as_str());
    r.append("\n\nstage1_allowed_tools = [\n");
    r.append(stage1.as_str());
    r.append("\n]\n\nstage3_config_files = [\n");
    r.append(stage3.as_str());
    r.append("\n]\n\n");
    r.append(test.as_str());
    r.append("\n");
    r.append(TOML_SERVICES);
    r
}

/// What a user is told of the configuration, line by line.
pub open spec fn summary_lines(
    name: Seq<char>,
    repo: Seq<char>,
    s: SettingsView,
    reasons: Option<Seq<char>>,
) -> Seq<Seq<char>> {
    seq![
        "專案:"@ + name + " ("@ + repo + ")"@,
        "啟動指令:"@ + (if s.command.len() == 0 {
            "(未偵測到,需手動填寫)"@
        } else {
            s.command
        }),
        "健康檢查:"@ + (match s.health {
            Some(h) => h,
            None => "(未設定,將採樂觀驗證邏輯)"@,
        }),
        "系統資源監控:"@ + (if s.resources {
            "啟用"@
        } else {
            "未啟用"@
        }),
        "第一層可執行的立即處置:"@ + listed(s.stage1),
        "第二層可調整的設定檔:"@ + listed(s.stage3),
        "第三層修復後驗證指令:"@ + (match s.test {
            Some(t) => t,
            None => "(未設定)"@,
        }),
        Seq::empty(),
    ] + (match reasons {
        Some(why) => seq!["AI 判斷理由:"@, why],
        None => seq!["(AI 分析未成功執行,以上為純靜態偵測結果,建議手動檢查每一項設定。)"@],
    })
}

/// The items of a list in one line.
pub open spec fn listed(items: Seq<Seq<char>>) -> Seq<char> {
    if items.len() == 0 {
        "(無,偵測到問題會直接跳過此層)"@
    } else {
        joined(items, "; "@)
    }
}

/// A line that starts with `label`.
fn labelled(label: &str, value: &str) -> (r: String)
    ensures
        r@ == label@ + value@,
{
    let mut r = label.to_string();
    r.append(value);
    r
}

/// The items of a list in one line.
fn render_listed(items: &Vec<String>) -> (r: String)
    ensures
        r@ == listed(views(items@)),
{
    if items.len() == 0 {
        "(無,偵測到問題會直接跳過此層)".to_string()
    } else {
        join(items, "; ")
    }
}

/// What is there, or `default`.
fn text_or(s: &Option<String>, default: &str) -> (r: String)
    ensures
        r@ == (match opt_view(*s) {
            Some(t) => t,
            None => default@,
        }),
{
    match s {
        Some(t) => t.clone(),
        None => default.to_string(),
    }
}

/// What the assistant says of its reasons.
pub open spec fn reasons(ai: Option<AiDecision>) -> Option<Seq<char>> {
    match ai {
        Some(a) => opt_view(a.summary),
        None => None,
    }
}

/// What a user is told of the configuration, before it is used.
pub fn render_summary(
    name: &str,
    repo: &str,
    s: &FinalSettings,
    ai: Option<&AiDecision>,
) -> (r: String)
    ensures
        r@ == joined(
            summary_lines(
                name@,
                repo@,
                s@,
                reasons(
                    match ai {
                        Some(a) => Some(*a),
                        None => None,
                    },
                ),
            ),
            "\n"@,
        ),
{
    let mut out: Vec<String> = Vec::new();
    let mut project = labelled("專案:", name);
    project.append(" (");
    project.append(repo);
    project.append(")");
    out.push(project);
    let command: &str = if s.command.as_str().unicode_len() == 0 {
        "(未偵測到,需手動填寫)"
    } else {
        s.command.as_str()
    };
    out.push(labelled("啟動指令:", command));
    let health = text_or(&s.health_check_command, "(未設定,將採樂觀驗證邏輯)");
    out.push(labelled("健康檢查:", health.as_str()));
    let resources: &'static str = if s.resources_enabled {
        "啟用"
    } else {
        "未啟用"
    };
    out.push(labelled("系統資源監控:", resources));
    let stage1 = render_listed(&s.stage1_allowed_tools);
    out.push(labelled("第一層可執行的立即處置:", stage1.as_str()));
    let stage3 = render_listed(&s.stage3_config_files);
    out.push(labelled("第二層可調整的設定檔:", stage3.as_str()));
    let test = text_or(&s.stage4_test_command, "(未設定)");
    out.push(labelled("第三層修復後驗證指令:", test.as_str()));
    let blank = String::new();
    assert(blank@ =~= Seq::<char>::empty());
    out.push(blank);
    let why: Option<String> = match ai {
        Some(a) => copied_option(&a.summary),
        None => None,
    };
    match why {
        Some(why) => {
            out.push("AI 判斷理由:".to_string());
            out.push(why);
        },
        None => {
            out.push(
                "(AI 分析未成功執行,以上為純靜態偵測結果,建議手動檢查每一項設定。)".to_string(),
            );
        },
    }
    proof {
        let given = match ai {
            Some(a) => Some(*a),
            None => None,
        };
        assert(views(out@) =~= summary_lines(name@, repo@, s@, reasons(given)));
    }
    join(&out, "\n")
}

/// The name of a project without one.
pub fn project_name(directory: Option<String>) -> (r: String)
    ensures
        r@ == (match opt_view(directory) {
            Some(d) => d,
            None => "target-project"@,
        }),
{
    match directory {
        Some(d) => d,
        None => "target-project".to_string(),
    }
}

/// The name of the configuration file of a project.
pub fn config_file(name: &str) -> (r: String)
    ensures
        r@ == name@ + ".toml"@,
{
    let mut r = name.to_string();
    r.append(".toml");
    r
}

/// What the assistant is asked to do.
pub const SURVEY_TASK: &'static str = r#"

請你實際讀一下這個專案(package.json / README / 命令列助手的說明檔 / .env.example / API 路由等),判斷以下欄位並在最後輸出一個 JSON 區塊(你只能用 Read/Glob/Grep,不能執行任何指令或修改檔案):
- command: 本機啟動這個專案、適合被監控 stdout/stderr 的指令
- health_check_command: 一個可以判斷服務是否健康的 shell 指令(例如 curl 某個 health/首頁路由),如果專案不是常駐服務就填 null
- stage1_allowed_tools: 陣列,列出偵測到問題時「立即處置」可以安全執行的指令,每一項必須是命令列助手 --allowedTools 認得的格式,也就是 "Bash(實際指令)"(例如 "Bash(rm -rf .next)"、"Bash(pkill -f myapp)"),不要只給裸指令;沒有適合的就給空陣列
- stage3_config_files: 陣列,列出可以在「參數調整」層被 AI 編輯的設定檔絕對路徑(只能是設定/環境檔案,不要包含原始碼;沒有適合的就給空陣列)
- stage4_test_command: 修復程式碼後應該跑的測試/驗證指令
- resources_enabled: 這個專案是否適合開啟 CPU/記憶體/磁碟監控(布林值)
- summary: 用繁體中文,3-5 句話跟開發者說明你為什麼這樣設定、這個監控設定會涵蓋到什麼範圍、什麼情況下 AI 才會真的去改設定檔或程式碼

最後請務必以下列格式的 JSON 區塊結尾(不要有其他文字在區塊內):
```json
{"command": "...", "health_check_command": null, "stage1_allowed_tools": [], "stage3_config_files": [], "stage4_test_command": "...", "resources_enabled": false, "summary": "..."}
```"#;

/// How a value that may be missing is shown to a developer.
pub uninterp spec fn debug_text(s: Option<Seq<char>>) -> Seq<char>;

/// The `Debug` form of an `Option<String>`, as `format!` writes it: it depends on the value alone.
#[verifier::external_body]
fn shown(s: &Option<String>) -> (r: String)
    ensures
        r@ == debug_text(opt_view(*s)),
{
    format!("{s:?}")
}

/// What the assistant is asked about a project. `command` and `test` show the commands that were
/// found.
pub open spec fn survey_text(
    repo: Seq<char>,
    name: Seq<char>,
    kind: Seq<char>,
    command: Seq<char>,
    test: Seq<char>,
) -> Seq<char> {
    "你要幫一個自動維運 agent(artemis)決定監控與自主處置設定。\n目標專案路徑:"@ + repo
        + "\n專案名稱:"@ + name + "\n靜態偵測結果:專案類型="@ + kind + ", 猜測啟動指令="@ + command
        + ", 猜測測試指令="@ + test + SURVEY_TASK@
}

/// What the assistant is asked about a project.
pub fn survey_of(repo: &str, name: &str, kind: &str, command: &str, test: &str) -> (r: String)
    ensures
        r@ == survey_text(repo@, name@, kind@, command@, test@),
{
    let mut r =
        "你要幫一個自動維運 agent(artemis)決定監控與自主處置設定。\n目標專案路徑:".to_string();
    r.append(repo);
    r.append("\n專案名稱:");
    r.append(name);
    r.append("\n靜態偵測結果:專案類型=");
    r.append(kind);
    r.append(", 猜測啟動指令=");
    r.append(command);
    r.append(", 猜測測試指令=");
    r.append(test);
    r.append(SURVEY_TASK);
    r
}

/// What the assistant is asked about a project of which `baseline` was found out.
pub fn survey_prompt(repo: &str, name: &str, baseline: &Detection) -> (r: String)
    ensures
        r@ == survey_text(
            repo@,
            name@,
            baseline@.kind,
            debug_text(baseline@.command),
            debug_text(baseline@.test),
        ),
{
    let command = shown(&baseline.command);
    let test = shown(&baseline.stage4_test_command);
    survey_of(repo, name, baseline.project_kind, command.as_str(), test.as_str())
}

/// The arguments with which the assistant is called about a project. It may read, and nothing
/// else.
pub fn survey_args(prompt: &str) -> (r: Vec<String>)
    ensures
        views(r@) == arguments(
            prompt@,
            None,
            seq!["Read"@, "Glob"@, "Grep"@],
            seq!["Bash"@, "Edit"@, "Write"@],
            "dontAsk"@,
        ),
{
    let mut allowed: Vec<String> = Vec::new();
    allowed.push("Read".to_string());
    allowed.push("Glob".to_string());
    allowed.push("Grep".to_string());
    let mut disallowed: Vec<String> = Vec::new();
    disallowed.push("Bash".to_string());
    disallowed.push("Edit".to_string());
    disallowed.push("Write".to_string());
    assert(views(allowed@) =~= seq!["Read"@, "Glob"@, "Grep"@]);
    assert(views(disallowed@) =~= seq!["Bash"@, "Edit"@, "Write"@]);
    cli_args(prompt, None, &allowed, &disallowed, "dontAsk")
}

/// What came of a new project.
#[derive(Debug, Clone)]
pub struct OnboardResult {
    pub config_path: String,
    pub summary: String,
    /// Whether the assistant has answered.
    pub ai_assisted: bool,
}

impl OnboardResult {
    /// How much the configuration can be relied on.
    pub open spec fn remark(self) -> Seq<char> {
        if self.ai_assisted {
            "(以下監控/處置設定由 AI 實際讀過專案內容後判斷產生,請確認後再啟動監控)"@
        } else {
            "(AI 分析未成功執行,以下僅為靜態偵測結果,請務必手動檢查每一項設定)"@
        }
    }

    /// How much the configuration can be relied on.
    pub fn notice(&self) -> (r: String)
        ensures
            r@ == self.remark(),
    {
        if self.ai_assisted {
            "(以下監控/處置設定由 AI 實際讀過專案內容後判斷產生,請確認後再啟動監控)".to_string()
        } else {
            "(AI 分析未成功執行,以下僅為靜態偵測結果,請務必手動檢查每一項設定)".to_string()
        }
    }
}

}
