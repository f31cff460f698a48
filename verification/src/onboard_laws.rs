//! What the configuration file that is written for a project promises to those who read it.

use crate::json::{json_member, json_text, json_value};
use crate::onboard::{
    all_escaped, command_line, escaped, flag, law_escape_round_trip, law_escaped_is_one_line,
    list_lines, manager, merged, node_checks, node_found, optional_line, python_found, reasons,
    run_text, rust_found, scripts_among, scripts_of, string_end, summary_lines, survey_text,
    toml_text, unescaped, unknown_found, wrapped, AiDecision, Detection, DetectionView,
    FinalSettings, OnboardResult, RepoFacts, Scripts, SettingsView, SURVEY_TASK, TOML_DETECTION,
    TOML_ESCALATION, TOML_RECORDING, TOML_SERVICES,
};
use crate::text::{joined, line_len, lines_of, opt_view, views, without_cr};
use serde_json::Value;
use vstd::prelude::*;

verus! {

/// The line that sets `key` to the string `value`.
pub open spec fn setting(key: Seq<char>, value: Seq<char>) -> Seq<char> {
    key + " = \""@ + escaped(value) + "\""@
}

/// The line of a list that holds the string `value`.
pub open spec fn item(value: Seq<char>) -> Seq<char> {
    "    \""@ + escaped(value) + "\","@
}

/// The string that follows `head` in `line`, as TOML reads it.
pub open spec fn string_after(line: Seq<char>, head: Seq<char>) -> Option<Seq<char>> {
    let t = line.skip(head.len() as int);
    if !head.is_prefix_of(line) {
        None
    } else {
        match string_end(t) {
            Some(n) => Some(unescaped(t.take(n))),
            None => None,
        }
    }
}

/// Whether the text holds `line` as a line of its own, which is not its last.
spec fn stands_in(text: Seq<char>, line: Seq<char>) -> bool {
    exists|before: Seq<char>, after: Seq<char>| #[trigger] surrounds(text, before, line, after)
}

/// Whether `line` is the line of `text` between `before` and `after`.
spec fn surrounds(
    text: Seq<char>,
    before: Seq<char>,
    line: Seq<char>,
    after: Seq<char>,
) -> bool {
    &&& text == before + line + after
    &&& before.len() == 0 || before.last() == '\n'
    &&& after.len() > 0 && after[0] == '\n'
}

/// Whether there is no line end in `line`, nor half of one.
spec fn is_line(line: Seq<char>) -> bool {
    forall|i: int| 0 <= i < line.len() ==> #[trigger] line[i] != '\n' && line[i] != '\r'
}

proof fn lemma_first_line(s: Seq<char>, n: int)
    requires
        0 <= n < s.len(),
        s[n] == '\n',
        forall|i: int| 0 <= i < n ==> #[trigger] s[i] != '\n',
    ensures
        line_len(s) == n,
    decreases n,
{
    if n > 0 {
        let t = s.drop_first();
        assert forall|i: int| 0 <= i < n - 1 implies #[trigger] t[i] != '\n' by {
            assert(t[i] == s[i + 1]);
        }
        lemma_first_line(t, n - 1);
    }
}

proof fn lemma_line_is_short(s: Seq<char>)
    ensures
        line_len(s) <= s.len(),
        line_len(s) < s.len() ==> s[line_len(s) as int] == '\n',
        forall|i: int| 0 <= i < line_len(s) ==> #[trigger] s[i] != '\n',
    decreases s.len(),
{
    if s.len() > 0 && s.first() != '\n' {
        let t = s.drop_first();
        lemma_line_is_short(t);
        assert forall|i: int| 0 <= i < line_len(s) implies #[trigger] s[i] != '\n' by {
            if i > 0 {
                assert(s[i] == t[i - 1]);
            }
        }
    }
}

/// What stands in a text as a line is among its lines.
proof fn lemma_stands(text: Seq<char>, before: Seq<char>, line: Seq<char>, after: Seq<char>)
    requires
        surrounds(text, before, line, after),
        is_line(line),
    ensures
        lines_of(text).contains(line),
    decreases before.len(),
{
    if before.len() == 0 {
        let n = line.len() as int;
        assert(text[n] == after[0]);
        assert forall|i: int| 0 <= i < n implies #[trigger] text[i] != '\n' by {
            assert(text[i] == line[i]);
        }
        lemma_first_line(text, n);
        assert(text.take(n) =~= line);
        assert(without_cr(line) == line);
        assert(lines_of(text)[0] == line);
    } else {
        lemma_line_is_short(before);
        let last = before.len() - 1;
        assert(before[last] == '\n');
        let n = line_len(before) as int;
        assert(n <= last);
        assert forall|i: int| 0 <= i < n implies #[trigger] text[i] != '\n' by {
            assert(text[i] == before[i]);
        }
        assert(text[n] == before[n]);
        lemma_first_line(text, n);
        let shorter = before.skip(n + 1);
        let rest = text.skip(n + 1);
        assert(rest =~= shorter + line + after);
        assert(shorter.len() > 0 ==> shorter.last() == before.last());
        assert(surrounds(rest, shorter, line, after));
        lemma_stands(rest, shorter, line, after);
        let j = choose|j: int| 0 <= j < lines_of(rest).len() && lines_of(rest)[j] == line;
        assert(lines_of(text)[j + 1] == line);
    }
}

/// What follows takes no line from a text.
proof fn lemma_more(text: Seq<char>, more: Seq<char>)
    ensures
        forall|line: Seq<char>|
            stands_in(text, line) ==> #[trigger] stands_in(text + more, line),
{
    assert forall|line: Seq<char>| stands_in(text, line) implies #[trigger] stands_in(
        text + more,
        line,
    ) by {
        let (before, after) = choose|before: Seq<char>, after: Seq<char>| #[trigger]
            surrounds(text, before, line, after);
        assert(text + more =~= before + line + (after + more));
        assert(surrounds(text + more, before, line, after + more));
    }
}

/// A line between line ends stands in the text.
proof fn lemma_here(before: Seq<char>, line: Seq<char>, after: Seq<char>)
    requires
        before.len() > 0,
        before.last() == '\n',
        after.len() > 0,
        after[0] == '\n',
    ensures
        stands_in(before + line + after, line),
{
    assert(surrounds(before + line + after, before, line, after));
}

/// A line that is set in quotes stands in the text.
proof fn lemma_quoted_here(
    text: Seq<char>,
    head: Seq<char>,
    key: Seq<char>,
    value: Seq<char>,
    tail: Seq<char>,
    line: Seq<char>,
)
    requires
        head.len() > key.len(),
        head[head.len() - key.len() - 1] == '\n',
        head.skip(head.len() - key.len()) == key,
        tail.len() > 1,
        tail[0] == '"',
        tail[1] == '\n',
        line == key + value + seq!['"'],
    ensures
        stands_in(text + head + value + tail, line),
{
    let before = text + head.take(head.len() - key.len());
    let after = tail.skip(1);
    assert(text + head + value + tail =~= before + line + after);
    assert(surrounds(text + head + value + tail, before, line, after));
}

/// The lines of a list stand in the text.
proof fn lemma_list_here(before: Seq<char>, parts: Seq<Seq<char>>, after: Seq<char>)
    requires
        before.len() > 0,
        before.last() == '\n',
        after.len() > 0,
        after[0] == '\n',
    ensures
        forall|i: int|
            0 <= i < parts.len() ==> stands_in(
                before + joined(parts, "\n"@) + after,
                #[trigger] parts[i],
            ),
    decreases parts.len(),
{
    reveal_strlit("\n");
    let all = joined(parts, "\n"@);
    if parts.len() == 1 {
        lemma_here(before, parts[0], after);
    } else if parts.len() > 1 {
        let rest = parts.drop_last();
        let most = joined(rest, "\n"@);
        lemma_list_here(before, rest, "\n"@);
        let front = before + most + "\n"@;
        assert(before + all + after =~= front + parts.last() + after);
        lemma_here(front, parts.last(), after);
        lemma_more(front, parts.last() + after);
        assert(front + parts.last() + after =~= front + (parts.last() + after));
        assert forall|i: int| 0 <= i < parts.len() implies stands_in(
            before + all + after,
            #[trigger] parts[i],
        ) by {
            if i < rest.len() {
                assert(rest[i] == parts[i]);
                assert(stands_in(front + (parts.last() + after), rest[i]));
            }
        }
    }
}

proof fn lemma_quotes()
    ensures
        " = \""@ == seq![' ', '=', ' ', '"'],
        "\""@ == seq!['"'],
        "\n"@ == seq!['\n'],
        "    \""@ == seq![' ', ' ', ' ', ' ', '"'],
        "\","@ == seq!['"', ','],
{
    reveal_strlit(" = \"");
    reveal_strlit("\"");
    reveal_strlit("\n");
    reveal_strlit("    \"");
    reveal_strlit("\",");
    assert(" = \""@ =~= seq![' ', '=', ' ', '"']);
    assert("\""@ =~= seq!['"']);
    assert("\n"@ =~= seq!['\n']);
    assert("    \""@ =~= seq![' ', ' ', ' ', ' ', '"']);
    assert("\","@ =~= seq!['"', ',']);
}

/// The settings stand in the configuration file as lines.
proof fn lemma_settings_stand(name: Seq<char>, repo: Seq<char>, s: SettingsView)
    ensures
        ({
            let text = toml_text(name, repo, s);
            &&& stands_in(text, setting("name"@, name))
            &&& stands_in(text, command_line(s.command))
            &&& stands_in(text, setting("cwd"@, repo))
            &&& stands_in(text, "incidents_dir = \"./incidents/"@ + name + "\""@)
            &&& stands_in(text, "enabled = "@ + flag(s.resources))
            &&& stands_in(text, optional_line("health_check_command"@, s.health))
            &&& stands_in(text, optional_line("stage4_test_command"@, s.test))
            &&& forall|i: int|
                0 <= i < s.stage1.len() ==> stands_in(text, item(#[trigger] s.stage1[i]))
            &&& forall|i: int|
                0 <= i < s.stage3.len() ==> stands_in(text, item(#[trigger] s.stage3[i]))
        }),
{
    let intro = "# 由 `artemis onboard "@ + repo + "` 自動產生(專案類型:"@ + s.kind + ")\n"@
        + joined(wrapped(s.notes, "# "@, Seq::empty()), "\n"@);
    let named = intro + "\n\nname = \""@ + escaped(name) + "\"\n"@;
    let commanded = named + command_line(s.command) + "\ncwd = \""@;
    let placed = commanded + escaped(repo) + "\"\n"@;
    let detecting = placed + TOML_DETECTION@;
    let kept = detecting + "\nincidents_dir = \"./incidents/"@ + name + "\"\n"@;
    let recording = kept + TOML_RECORDING@;
    let watching = recording + "\nenabled = "@ + flag(s.resources) + "\n"@;
    let escalating = watching + TOML_ESCALATION@ + "\n"@;
    let health = optional_line("health_check_command"@, s.health);
    let healthy = escalating + health + "\n\nstage1_allowed_tools = [\n"@;
    let first = healthy + list_lines(s.stage1) + "\n]\n\nstage3_config_files = [\n"@;
    let second = first + list_lines(s.stage3) + "\n]\n\n"@;
    let test = optional_line("stage4_test_command"@, s.test);
    let tested = second + test + "\n"@;
    let text = tested + TOML_SERVICES@;
    assert(text == toml_text(name, repo, s));
    lemma_edges();
    lemma_name_here(intro, name);
    lemma_here(named, command_line(s.command), "\ncwd = \""@);
    lemma_cwd_here(named + command_line(s.command), repo);
    lemma_dir_here(detecting, name);
    lemma_enabled_here(recording, s.resources);
    lemma_here(escalating, health, "\n\nstage1_allowed_tools = [\n"@);
    lemma_items_here(healthy, s.stage1, "\n]\n\nstage3_config_files = [\n"@);
    lemma_items_here(first, s.stage3, "\n]\n\n"@);
    lemma_here(second, test, "\n"@);
    lemma_more(named, command_line(s.command));
    lemma_more(named + command_line(s.command), "\ncwd = \""@);
    lemma_more(commanded, escaped(repo));
    lemma_more(commanded + escaped(repo), "\"\n"@);
    lemma_more(placed, TOML_DETECTION@);
    lemma_more(detecting, "\nincidents_dir = \"./incidents/"@);
    lemma_more(detecting + "\nincidents_dir = \"./incidents/"@, name);
    lemma_more(detecting + "\nincidents_dir = \"./incidents/"@ + name, "\"\n"@);
    lemma_more(kept, TOML_RECORDING@);
    lemma_more(recording, "\nenabled = "@);
    lemma_more(recording + "\nenabled = "@, flag(s.resources));
    lemma_more(recording + "\nenabled = "@ + flag(s.resources), "\n"@);
    lemma_more(watching, TOML_ESCALATION@);
    lemma_more(watching + TOML_ESCALATION@, "\n"@);
    lemma_more(escalating, health);
    lemma_more(escalating + health, "\n\nstage1_allowed_tools = [\n"@);
    lemma_more(healthy, list_lines(s.stage1));
    lemma_more(healthy + list_lines(s.stage1), "\n]\n\nstage3_config_files = [\n"@);
    lemma_more(first, list_lines(s.stage3));
    lemma_more(first + list_lines(s.stage3), "\n]\n\n"@);
    lemma_more(second, test);
    lemma_more(second + test, "\n"@);
    lemma_more(tested, TOML_SERVICES@);
    assert(stands_in(placed, setting("name"@, name)));
    assert(stands_in(watching, setting("name"@, name)));
    assert(stands_in(placed, command_line(s.command)));
    assert(stands_in(watching, command_line(s.command)));
    assert(stands_in(watching, setting("cwd"@, repo)));
    let dir = "incidents_dir = \"./incidents/"@ + name + "\""@;
    assert(stands_in(watching, dir));
    assert forall|line: Seq<char>| stands_in(watching, line) implies #[trigger] stands_in(
        text,
        line,
    ) by {
        assert(stands_in(escalating, line));
        assert(stands_in(healthy, line));
        assert(stands_in(first, line));
        assert(stands_in(second, line));
        assert(stands_in(tested, line));
    }
    assert(stands_in(first, health));
    assert(stands_in(tested, health));
    assert forall|i: int| 0 <= i < s.stage1.len() implies stands_in(
        text,
        item(#[trigger] s.stage1[i]),
    ) by {
        assert(stands_in(first, item(s.stage1[i])));
        assert(stands_in(second, item(s.stage1[i])));
        assert(stands_in(tested, item(s.stage1[i])));
    }
    assert forall|i: int| 0 <= i < s.stage3.len() implies stands_in(
        text,
        item(#[trigger] s.stage3[i]),
    ) by {
        assert(stands_in(second, item(s.stage3[i])));
        assert(stands_in(tested, item(s.stage3[i])));
    }
}

/// The pieces between the settings begin and end at line ends.
proof fn lemma_edges()
    ensures
        "\"\n"@.len() == 2 && "\"\n"@[0] == '"' && "\"\n"@[1] == '\n',
        "\ncwd = \""@.len() > 0 && "\ncwd = \""@[0] == '\n',
        "\n\nstage1_allowed_tools = [\n"@.len() > 0,
        "\n\nstage1_allowed_tools = [\n"@[0] == '\n',
        "\n\nstage1_allowed_tools = [\n"@.last() == '\n',
        "\n]\n\nstage3_config_files = [\n"@.len() > 0,
        "\n]\n\nstage3_config_files = [\n"@[0] == '\n',
        "\n]\n\nstage3_config_files = [\n"@.last() == '\n',
        "\n]\n\n"@.len() > 0 && "\n]\n\n"@[0] == '\n' && "\n]\n\n"@.last() == '\n',
        "\n"@.len() == 1 && "\n"@[0] == '\n',
{
    reveal_strlit("\"\n");
    reveal_strlit("\ncwd = \"");
    reveal_strlit("\n\nstage1_allowed_tools = [\n");
    reveal_strlit("\n]\n\nstage3_config_files = [\n");
    reveal_strlit("\n]\n\n");
    reveal_strlit("\n");
}

proof fn lemma_name_here(t: Seq<char>, name: Seq<char>)
    ensures
        stands_in(t + "\n\nname = \""@ + escaped(name) + "\"\n"@, setting("name"@, name)),
{
    lemma_edges();
    lemma_quotes();
    reveal_strlit("\n\nname = \"");
    reveal_strlit("name");
    let head = "\n\nname = \""@;
    let key = "name"@ + " = \""@;
    assert(head.skip(2) =~= key);
    lemma_quoted_here(t, head, key, escaped(name), "\"\n"@, setting("name"@, name));
}

proof fn lemma_cwd_here(t: Seq<char>, repo: Seq<char>)
    ensures
        stands_in(t + "\ncwd = \""@ + escaped(repo) + "\"\n"@, setting("cwd"@, repo)),
{
    lemma_edges();
    lemma_quotes();
    reveal_strlit("\ncwd = \"");
    reveal_strlit("cwd");
    let head = "\ncwd = \""@;
    let key = "cwd"@ + " = \""@;
    assert(head.skip(1) =~= key);
    lemma_quoted_here(t, head, key, escaped(repo), "\"\n"@, setting("cwd"@, repo));
}

proof fn lemma_dir_here(t: Seq<char>, name: Seq<char>)
    ensures
        stands_in(
            t + "\nincidents_dir = \"./incidents/"@ + name + "\"\n"@,
            "incidents_dir = \"./incidents/"@ + name + "\""@,
        ),
{
    lemma_edges();
    lemma_quotes();
    reveal_strlit("\nincidents_dir = \"./incidents/");
    reveal_strlit("incidents_dir = \"./incidents/");
    let head = "\nincidents_dir = \"./incidents/"@;
    let key = "incidents_dir = \"./incidents/"@;
    assert(head.skip(1) =~= key);
    lemma_quoted_here(t, head, key, name, "\"\n"@, key + name + "\""@);
}

proof fn lemma_enabled_here(t: Seq<char>, on: bool)
    ensures
        stands_in(t + "\nenabled = "@ + flag(on) + "\n"@, "enabled = "@ + flag(on)),
{
    lemma_edges();
    reveal_strlit("\nenabled = ");
    reveal_strlit("enabled = ");
    let before = t + seq!['\n'];
    let line = "enabled = "@ + flag(on);
    assert("\nenabled = "@ =~= seq!['\n'] + "enabled = "@);
    lemma_here(before, line, "\n"@);
    assert(t + "\nenabled = "@ + flag(on) + "\n"@ =~= before + line + "\n"@);
}

/// The entries of a list stand in the text.
proof fn lemma_items_here(before: Seq<char>, items: Seq<Seq<char>>, after: Seq<char>)
    requires
        before.len() > 0,
        before.last() == '\n',
        after.len() > 0,
        after[0] == '\n',
    ensures
        forall|i: int|
            0 <= i < items.len() ==> stands_in(
                before + list_lines(items) + after,
                item(#[trigger] items[i]),
            ),
{
    let parts = wrapped(all_escaped(items), "    \""@, "\","@);
    lemma_list_here(before, parts, after);
    assert forall|i: int| 0 <= i < items.len() implies stands_in(
        before + list_lines(items) + after,
        item(#[trigger] items[i]),
    ) by {
        assert(parts[i] == item(items[i]));
    }
}

/// No setting goes beyond its line.
proof fn lemma_settings_are_lines(name: Seq<char>, repo: Seq<char>, s: SettingsView)
    ensures
        is_line(setting("name"@, name)),
        is_line(command_line(s.command)),
        s.command.len() > 0 ==> command_line(s.command) == setting("command"@, s.command),
        is_line(setting("cwd"@, repo)),
        escaped(name) == name ==> is_line("incidents_dir = \"./incidents/"@ + name + "\""@),
        is_line("enabled = "@ + flag(s.resources)),
        is_line(optional_line("health_check_command"@, s.health)),
        is_line(optional_line("stage4_test_command"@, s.test)),
        forall|i: int| 0 <= i < s.stage1.len() ==> is_line(item(#[trigger] s.stage1[i])),
        forall|i: int| 0 <= i < s.stage3.len() ==> is_line(item(#[trigger] s.stage3[i])),
{
    lemma_quotes();
    reveal_strlit("name");
    reveal_strlit("cwd");
    reveal_strlit("command");
    reveal_strlit("command = \"");
    reveal_strlit("command = \"\" # TODO: 未能自動偵測,請手動填寫啟動指令");
    reveal_strlit("incidents_dir = \"./incidents/");
    reveal_strlit("enabled = ");
    reveal_strlit("true");
    reveal_strlit("false");
    reveal_strlit("health_check_command");
    reveal_strlit("stage4_test_command");
    reveal_strlit("# ");
    reveal_strlit(" = \"\"");
    lemma_setting_is_line("name"@, name);
    lemma_setting_is_line("cwd"@, repo);
    lemma_setting_is_line("command"@, s.command);
    assert("command = \""@ =~= "command"@ + " = \""@);
    law_escaped_is_one_line(name);
    lemma_optional_is_line("health_check_command"@, s.health);
    lemma_optional_is_line("stage4_test_command"@, s.test);
    assert forall|i: int| 0 <= i < s.stage1.len() implies is_line(item(#[trigger] s.stage1[i])) by {
        law_escaped_is_one_line(s.stage1[i]);
    }
    assert forall|i: int| 0 <= i < s.stage3.len() implies is_line(item(#[trigger] s.stage3[i])) by {
        law_escaped_is_one_line(s.stage3[i]);
    }
}

proof fn lemma_setting_is_line(key: Seq<char>, value: Seq<char>)
    requires
        is_line(key),
    ensures
        is_line(setting(key, value)),
{
    lemma_quotes();
    law_escaped_is_one_line(value);
}

proof fn lemma_optional_is_line(key: Seq<char>, value: Option<Seq<char>>)
    requires
        is_line(key),
    ensures
        is_line(optional_line(key, value)),
{
    reveal_strlit("# ");
    reveal_strlit(" = \"\"");
    match value {
        Some(v) => {
            lemma_setting_is_line(key, v);
        },
        None => {},
    }
}

/// What is written into a line of the configuration file is read back from it as it was, whatever
/// characters it holds.
pub proof fn law_setting_reads_back(key: Seq<char>, value: Seq<char>)
    ensures
        string_after(setting(key, value), key + " = \""@) == Some(value),
        string_after(item(value), "    \""@) == Some(value),
{
    lemma_quotes();
    law_escape_round_trip(value, Seq::empty());
    law_escape_round_trip(value, seq![',']);
    let head = key + " = \""@;
    let line = setting(key, value);
    assert(line =~= head + (escaped(value) + seq!['"'] + Seq::<char>::empty()));
    let t = line.skip(head.len() as int);
    assert(t =~= escaped(value) + seq!['"'] + Seq::<char>::empty());
    assert(t.take(escaped(value).len() as int) =~= escaped(value));
    assert(head.is_prefix_of(line));
    let mark = "    \""@;
    let entry = item(value);
    assert(entry =~= mark + (escaped(value) + seq!['"'] + seq![',']));
    let u = entry.skip(mark.len() as int);
    assert(u =~= escaped(value) + seq!['"'] + seq![',']);
    assert(u.take(escaped(value).len() as int) =~= escaped(value));
    assert(mark.is_prefix_of(entry));
}

/// Each setting stands on a line of its own in the configuration file, whatever characters it
/// holds: the name, the command, the directory, the checks, and each entry of the lists. A setting
/// that is missing stands in a comment. The directory of the incidents stands on its line where
/// the name needs no escape.
pub proof fn law_settings_stand_on_their_lines(name: Seq<char>, repo: Seq<char>, s: SettingsView)
    ensures
        ({
            let lines = lines_of(toml_text(name, repo, s));
            &&& lines.contains(setting("name"@, name))
            &&& lines.contains(command_line(s.command))
            &&& s.command.len() > 0 ==> command_line(s.command) == setting("command"@, s.command)
            &&& lines.contains(setting("cwd"@, repo))
            &&& escaped(name) == name ==> lines.contains(
                "incidents_dir = \"./incidents/"@ + name + "\""@,
            )
            &&& lines.contains("enabled = "@ + flag(s.resources))
            &&& lines.contains(optional_line("health_check_command"@, s.health))
            &&& s.health matches Some(v) ==> optional_line("health_check_command"@, s.health)
                == setting("health_check_command"@, v)
            &&& lines.contains(optional_line("stage4_test_command"@, s.test))
            &&& s.test matches Some(v) ==> optional_line("stage4_test_command"@, s.test)
                == setting("stage4_test_command"@, v)
            &&& forall|i: int|
                0 <= i < s.stage1.len() ==> lines.contains(item(#[trigger] s.stage1[i]))
            &&& forall|i: int|
                0 <= i < s.stage3.len() ==> lines.contains(item(#[trigger] s.stage3[i]))
        }),
{
    lemma_settings_stand(name, repo, s);
    lemma_settings_are_lines(name, repo, s);
    let text = toml_text(name, repo, s);
    assert forall|line: Seq<char>| stands_in(text, line) && is_line(line) implies #[trigger] lines_of(
        text,
    ).contains(line) by {
        let (before, after) = choose|before: Seq<char>, after: Seq<char>| #[trigger]
            surrounds(text, before, line, after);
        lemma_stands(text, before, line, after);
    }
}

/// The command that starts a Python project names a file that the project has, and the first of the
/// usual ones in this order: `main.py`, `app.py`, `manage.py`, `src/main.py`. A project that has
/// none of them gets no command, and is told so. The command is run by `uv` where the project is
/// locked by it.
pub proof fn law_python_command_names_a_file_of_the_project(facts: RepoFacts)
    ensures
        ({
            let d = python_found(facts);
            let runner = if facts.has_uv_lock {
                "uv run "@
            } else {
                "python3 "@
            };
            &&& d.command == Some(runner + "main.py"@) ==> facts.has_main_py
            &&& d.command == Some(runner + "app.py"@) ==> facts.has_app_py && !facts.has_main_py
            &&& d.command == Some(runner + "manage.py"@) ==> facts.has_manage_py
                && !facts.has_main_py && !facts.has_app_py
            &&& d.command == Some(runner + "src/main.py"@) ==> facts.has_src_main_py
                && !facts.has_main_py && !facts.has_app_py && !facts.has_manage_py
            &&& facts.has_main_py ==> d.command == Some(runner + "main.py"@)
            &&& facts.has_app_py && !facts.has_main_py ==> d.command == Some(runner + "app.py"@)
            &&& facts.has_manage_py && !facts.has_main_py && !facts.has_app_py ==> d.command
                == Some(runner + "manage.py"@)
            &&& facts.has_src_main_py && !facts.has_main_py && !facts.has_app_py
                && !facts.has_manage_py ==> d.command == Some(runner + "src/main.py"@)
            &&& d.command is None <==> !facts.has_main_py && !facts.has_app_py
                && !facts.has_manage_py && !facts.has_src_main_py
            &&& d.notes.len() == (if d.command is None {
                2nat
            } else {
                1nat
            })
            &&& facts.has_uv_lock ==> d.notes[0] == "偵測到 Python 專案(pyproject.toml)"@
                + ",使用 uv 管理"@
            &&& !facts.has_uv_lock ==> d.notes[0] == "偵測到 Python 專案(pyproject.toml)"@
            &&& d.command is None ==> d.notes[1]
                == "未找到常見的進入點檔案(main.py/app.py/manage.py),command 需要手動填寫。"@
            &&& facts.has_uv_lock ==> d.test == Some("uv run pytest"@)
            &&& !facts.has_uv_lock ==> d.test == Some("pytest"@)
            &&& d.kind == "python"@
        }),
{
    reveal_strlit("main.py");
    reveal_strlit("app.py");
    reveal_strlit("manage.py");
    reveal_strlit("src/main.py");
    reveal_strlit("uv run ");
    reveal_strlit("python3 ");
    let runner = if facts.has_uv_lock {
        "uv run "@
    } else {
        "python3 "@
    };
    assert((runner + "main.py"@).len() == runner.len() + 7);
    assert((runner + "app.py"@).len() == runner.len() + 6);
    assert((runner + "manage.py"@).len() == runner.len() + 9);
    assert((runner + "src/main.py"@).len() == runner.len() + 11);
}

/// The package manager of a Node.js project is one whose lock file it has, the first of pnpm, yarn
/// and bun, and npm only where it has none of these.
pub proof fn law_package_manager_has_its_lock_file(facts: RepoFacts)
    ensures
        manager(facts) == "pnpm"@ <==> facts.has_pnpm_lock,
        manager(facts) == "yarn"@ <==> facts.has_yarn_lock && !facts.has_pnpm_lock,
        manager(facts) == "bun"@ <==> facts.has_bun_lock && !facts.has_pnpm_lock
            && !facts.has_yarn_lock,
        manager(facts) == "npm"@ <==> !facts.has_pnpm_lock && !facts.has_yarn_lock
            && !facts.has_bun_lock,
{
    reveal_strlit("pnpm");
    reveal_strlit("yarn");
    reveal_strlit("bun");
    reveal_strlit("npm");
    assert("pnpm"@[0] != "yarn"@[0]);
    assert("bun"@[0] != "npm"@[0]);
}

/// A script counts where `scripts` of the package file has it under its name, as a string.
pub proof fn law_scripts_are_read_by_name(raw: Seq<char>, v: Value, scripts: Value, m: Value)
    requires
        json_value(raw) == Some(v),
        json_member(v, "scripts"@) == Some(scripts),
    ensures
        scripts_of(Some(raw)) == Some(scripts),
        ({
            let s = scripts_among(scripts_of(Some(raw)));
            &&& json_member(scripts, "dev"@) == Some(m) ==> (s.dev <==> json_text(m) is Some)
            &&& json_member(scripts, "start"@) == Some(m) ==> (s.start <==> json_text(m) is Some)
            &&& json_member(scripts, "typecheck"@) == Some(m) ==> (s.typecheck <==> json_text(m)
                is Some)
            &&& json_member(scripts, "lint"@) == Some(m) ==> (s.lint <==> json_text(m) is Some)
            &&& json_member(scripts, "test"@) == Some(m) ==> (s.test <==> json_text(m) is Some)
            &&& json_member(scripts, "dev"@) is None ==> !s.dev
            &&& json_member(scripts, "start"@) is None ==> !s.start
            &&& json_member(scripts, "typecheck"@) is None ==> !s.typecheck
            &&& json_member(scripts, "lint"@) is None ==> !s.lint
            &&& json_member(scripts, "test"@) is None ==> !s.test
        }),
{
}

/// A package file that is missing, that is no JSON, or that has no scripts has no script of
/// interest.
pub proof fn law_no_scripts(package_json: Option<Seq<char>>)
    requires
        package_json matches Some(raw) ==> (json_value(raw) matches Some(v) ==> json_member(
            v,
            "scripts"@,
        ) is None),
    ensures
        scripts_among(scripts_of(package_json)) == (Scripts {
            dev: false,
            start: false,
            typecheck: false,
            lint: false,
            test: false,
        }),
{
}

/// A Node.js project is started by its script `dev`, by `start` where it has no `dev`, and not
/// without either, of which it is told. It is checked by those of `typecheck`, `lint` and `test`
/// that it has, in this order, each only if the one before it has passed.
pub proof fn law_node_commands_run_scripts_of_the_project(manager: Seq<char>, s: Scripts)
    ensures
        ({
            let d = node_found(manager, s);
            let typecheck = manager + " run typecheck"@;
            let lint = manager + " run lint"@;
            let test = manager + " run test"@;
            let and = " && "@;
            &&& s.dev ==> d.command == Some(manager + " run dev"@)
            &&& !s.dev && s.start ==> d.command == Some(manager + " run start"@)
            &&& !s.dev && !s.start ==> d.command is None
            &&& d.notes.len() == (if s.dev || s.start {
                1nat
            } else {
                2nat
            })
            &&& d.notes[0] == "偵測到 Node.js 專案,套件管理工具:"@ + manager
            &&& !s.dev && !s.start ==> d.notes[1]
                == "package.json 沒有 dev/start script,command 需要手動填寫。"@
            &&& d.kind == "node"@
            &&& !s.typecheck && !s.lint && !s.test ==> d.test is None
            &&& s.typecheck && !s.lint && !s.test ==> d.test == Some(typecheck)
            &&& !s.typecheck && s.lint && !s.test ==> d.test == Some(lint)
            &&& !s.typecheck && !s.lint && s.test ==> d.test == Some(test)
            &&& s.typecheck && s.lint && !s.test ==> d.test == Some(typecheck + and + lint)
            &&& s.typecheck && !s.lint && s.test ==> d.test == Some(typecheck + and + test)
            &&& !s.typecheck && s.lint && s.test ==> d.test == Some(lint + and + test)
            &&& s.typecheck && s.lint && s.test ==> d.test == Some(
                typecheck + and + lint + and + test,
            )
        }),
{
    reveal_strlit(" run ");
    reveal_strlit("dev");
    reveal_strlit("start");
    reveal_strlit("typecheck");
    reveal_strlit("lint");
    reveal_strlit("test");
    reveal_strlit(" run dev");
    reveal_strlit(" run start");
    reveal_strlit(" run typecheck");
    reveal_strlit(" run lint");
    reveal_strlit(" run test");
    assert(run_text(manager, "dev"@) =~= manager + " run dev"@);
    assert(run_text(manager, "start"@) =~= manager + " run start"@);
    assert(run_text(manager, "typecheck"@) =~= manager + " run typecheck"@);
    assert(run_text(manager, "lint"@) =~= manager + " run lint"@);
    assert(run_text(manager, "test"@) =~= manager + " run test"@);
    let checks = node_checks(manager, s);
    let and = " && "@;
    if checks.len() > 1 {
        assert(checks.drop_last().len() == checks.len() - 1);
        assert(joined(checks, and) == joined(checks.drop_last(), and) + and + checks.last());
        if checks.len() == 3 {
            let two = checks.drop_last();
            assert(joined(two, and) == joined(two.drop_last(), and) + and + two.last());
            assert(joined(two.drop_last(), and) == two[0]);
        } else {
            assert(joined(checks.drop_last(), and) == checks[0]);
        }
    }
}

/// A Rust project is run and tested by cargo. Of a project of no known kind nothing is guessed.
pub proof fn law_other_projects()
    ensures
        rust_found().command == Some("cargo run"@),
        rust_found().test == Some("cargo test"@),
        rust_found().kind == "rust"@,
        unknown_found().command is None,
        unknown_found().test is None,
        unknown_found().kind == "unknown"@,
        rust_found().notes == seq!["偵測到 Rust 專案(Cargo.toml)"@],
        unknown_found().notes
            == seq!["未偵測到 package.json / pyproject.toml / Cargo.toml,請手動填寫 command。"@],
{
}

/// What the assistant says stands before what was detected. Where it says nothing of the commands,
/// what was detected stands; what only the assistant can say is missing without it, and resources
/// are watched only where it says so.
pub proof fn law_assistant_comes_first(baseline: DetectionView, a: AiDecision)
    ensures
        ({
            let s = merged(baseline, Some(a));
            &&& a.command matches Some(c) ==> s.command == c@
            &&& a.command is None ==> (baseline.command matches Some(c) ==> s.command == c)
            &&& a.command is None && baseline.command is None ==> s.command.len() == 0
            &&& a.stage4_test_command matches Some(t) ==> s.test == Some(t@)
            &&& a.stage4_test_command is None ==> s.test == baseline.test
            &&& s.health == opt_view(a.health_check_command)
            &&& s.stage1 == views(a.stage1_allowed_tools@)
            &&& s.stage3 == views(a.stage3_config_files@)
            &&& s.resources <==> a.resources_enabled == Some(true)
            &&& s.kind == baseline.kind && s.notes == baseline.notes
        }),
        ({
            let s = merged(baseline, None);
            &&& baseline.command matches Some(c) ==> s.command == c
            &&& baseline.command is None ==> s.command.len() == 0
            &&& s.test == baseline.test
            &&& s.health is None && s.stage1.len() == 0 && s.stage3.len() == 0 && !s.resources
            &&& s.kind == baseline.kind && s.notes == baseline.notes
        }),
{
}

/// The summary tells each setting on a line of its own, says where one is missing, and ends with
/// the reasons of the assistant or with the warning that there are none.
pub proof fn law_summary_tells_each_setting(
    name: Seq<char>,
    repo: Seq<char>,
    s: SettingsView,
    reasons: Option<Seq<char>>,
)
    ensures
        ({
            let lines = summary_lines(name, repo, s, reasons);
            &&& lines[0] == "專案:"@ + name + " ("@ + repo + ")"@
            &&& s.command.len() > 0 ==> lines[1] == "啟動指令:"@ + s.command
            &&& s.command.len() == 0 ==> lines[1] == "啟動指令:"@ + "(未偵測到,需手動填寫)"@
            &&& s.health matches Some(h) ==> lines[2] == "健康檢查:"@ + h
            &&& s.health is None ==> lines[2] == "健康檢查:"@ + "(未設定,將採樂觀驗證邏輯)"@
            &&& s.resources ==> lines[3] == "系統資源監控:"@ + "啟用"@
            &&& !s.resources ==> lines[3] == "系統資源監控:"@ + "未啟用"@
            &&& s.stage1.len() > 0 ==> lines[4] == "第一層可執行的立即處置:"@ + joined(
                s.stage1,
                "; "@,
            )
            &&& s.stage1.len() == 0 ==> lines[4] == "第一層可執行的立即處置:"@
                + "(無,偵測到問題會直接跳過此層)"@
            &&& s.stage3.len() > 0 ==> lines[5] == "第二層可調整的設定檔:"@ + joined(s.stage3, "; "@)
            &&& s.stage3.len() == 0 ==> lines[5] == "第二層可調整的設定檔:"@
                + "(無,偵測到問題會直接跳過此層)"@
            &&& s.test matches Some(t) ==> lines[6] == "第三層修復後驗證指令:"@ + t
            &&& s.test is None ==> lines[6] == "第三層修復後驗證指令:"@ + "(未設定)"@
            &&& lines[7].len() == 0
            &&& reasons matches Some(why) ==> lines.len() == 10 && lines[8] == "AI 判斷理由:"@
                && lines[9] == why
            &&& reasons is None ==> lines.len() == 9 && lines[8]
                == "(AI 分析未成功執行,以上為純靜態偵測結果,建議手動檢查每一項設定。)"@
        }),
{
}

/// The reasons are those that the assistant gives, if it has answered and gives any.
pub proof fn law_reasons(a: AiDecision)
    ensures
        reasons(Some(a)) == opt_view(a.summary),
        reasons(None) is None,
{
}

/// What the assistant is asked names the directory, the name and the kind of the project and the
/// commands that were found, in this order, each behind its label, and ends with the task.
pub proof fn law_survey_tells_what_was_found(
    repo: Seq<char>,
    name: Seq<char>,
    kind: Seq<char>,
    command: Seq<char>,
    test: Seq<char>,
)
    ensures
        ({
            let text = survey_text(repo, name, kind, command, test);
            let end = SURVEY_TASK@;
            let head = "你要幫一個自動維運 agent(artemis)決定監控與自主處置設定。\n目標專案路徑:"@
                + repo + "\n專案名稱:"@ + name + "\n靜態偵測結果:專案類型="@ + kind;
            text == head + ", 猜測啟動指令="@ + command + ", 猜測測試指令="@ + test + end
        }),
{
}

/// Whether the assistant has answered is what the user is told.
pub proof fn law_remark_tells_whether_the_assistant_answered(a: OnboardResult, b: OnboardResult)
    ensures
        a.ai_assisted == b.ai_assisted ==> a.remark() == b.remark(),
        a.ai_assisted ==> a.remark()
            == "(以下監控/處置設定由 AI 實際讀過專案內容後判斷產生,請確認後再啟動監控)"@,
        !a.ai_assisted ==> a.remark()
            == "(AI 分析未成功執行,以下僅為靜態偵測結果,請務必手動檢查每一項設定)"@,
{
}

/// What a detection and a configuration say is what their fields hold.
pub proof fn law_views_of_settings(d: Detection, s: FinalSettings)
    ensures
        d@.command == opt_view(d.command),
        d@.test == opt_view(d.stage4_test_command),
        d@.kind == d.project_kind@,
        d@.notes == views(d.notes@),
        s@.command == s.command@,
        s@.health == opt_view(s.health_check_command),
        s@.stage1 == views(s.stage1_allowed_tools@),
        s@.stage3 == views(s.stage3_config_files@),
        s@.test == opt_view(s.stage4_test_command),
        s@.resources == s.resources_enabled,
        s@.kind == s.project_kind@,
        s@.notes == views(s.notes@),
{
}

/// A command of the first stage is read back as it was given from any line of the configuration
/// file on which it stands, and two that differ stand on lines that differ.
pub proof fn law_different_values_stand_on_different_lines(
    key: Seq<char>,
    a: Seq<char>,
    b: Seq<char>,
)
    requires
        setting(key, a) == setting(key, b) || item(a) == item(b),
    ensures
        a == b,
{
    law_setting_reads_back(key, a);
    law_setting_reads_back(key, b);
}

/// A value is written character by character: backslashes, quotes, line ends, tabs and carriage
/// returns behind a backslash, all others as they are.
pub proof fn law_values_are_escaped_by_character(s: Seq<char>, c: char)
    ensures
        escaped(Seq::empty()).len() == 0,
        c == '\\' ==> escaped(s.push(c)) == escaped(s) + seq!['\\', '\\'],
        c == '"' ==> escaped(s.push(c)) == escaped(s) + seq!['\\', '"'],
        c == '\n' ==> escaped(s.push(c)) == escaped(s) + seq!['\\', 'n'],
        c == '\t' ==> escaped(s.push(c)) == escaped(s) + seq!['\\', 't'],
        c == '\r' ==> escaped(s.push(c)) == escaped(s) + seq!['\\', 'r'],
        c != '\\' && c != '"' && c != '\n' && c != '\t' && c != '\r' ==> escaped(s.push(c))
            == escaped(s).push(c),
{
    assert(s.push(c).drop_last() =~= s);
    assert(escaped(s) + seq![c] =~= escaped(s).push(c));
}

/// A choice is written as TOML writes it, and an empty list holds a remark alone.
pub proof fn law_choices_and_empty_lists_are_written()
    ensures
        flag(true) == "true"@,
        flag(false) == "false"@,
        list_lines(Seq::empty()) == "    # 尚未決定,請視情況手動補上"@,
{
}

}
