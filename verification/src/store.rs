//! Incidents on disk: the names of their files, what is done to record one, and how they are
//! listed.

use crate::clock::{format_utc, utc_text, LIST_FORMAT};
use crate::config::Config;
use crate::incident::Incident;
use crate::sort::{is_stable_sort, stable_sort};
use crate::text::{chars_of, decimal, decimal_of, views};
use vstd::prelude::*;

verus! {

/// The name of the file that holds incident `id`.
pub fn json_file(id: &str) -> (r: String)
    ensures
        r@ == id@ + ".json"@,
{
    let mut r = id.to_string();
    r.append(".json");
    r
}

/// The name of the file that holds the report on incident `id`.
pub fn report_file(id: &str) -> (r: String)
    ensures
        r@ == id@ + ".md"@,
{
    let mut r = id.to_string();
    r.append(".md");
    r
}

/// Whether a file of this name holds an incident: something stands before the ending `.json`.
pub open spec fn names_incident(name: Seq<char>) -> bool {
    name.len() > 5 && name.skip(name.len() - 5) == seq!['.', 'j', 's', 'o', 'n']
}

/// Whether a file of this name holds an incident.
pub fn is_incident_file(name: &str) -> (r: bool)
    ensures
        r == names_incident(name@),
{
    let cs = chars_of(name);
    let n: usize = cs.len();
    if n <= 5 {
        return false;
    }
    let r = cs[n - 5] == '.' && cs[n - 4] == 'j' && cs[n - 3] == 's' && cs[n - 2] == 'o' && cs[n
        - 1] == 'n';
    proof {
        let end = name@.skip(n - 5);
        if r {
            assert(end =~= seq!['.', 'j', 's', 'o', 'n']);
        } else if end == seq!['.', 'j', 's', 'o', 'n'] {
            assert(end[0] == cs@[n - 5] && end[1] == cs@[n - 4] && end[2] == cs@[n - 3] && end[3]
                == cs@[n - 2] && end[4] == cs@[n - 1]);
        }
    }
    r
}

/// The file of an incident is recognised as one.
pub proof fn law_incident_file_is_recognised(id: Seq<char>)
    requires
        id.len() > 0,
    ensures
        names_incident(id + ".json"@),
        !names_incident(id + ".md"@),
{
    reveal_strlit(".json");
    reveal_strlit(".md");
    let name = id + ".json"@;
    assert(name.skip(name.len() - 5) =~= seq!['.', 'j', 's', 'o', 'n']);
    let other = id + ".md"@;
    if other.len() > 5 {
        assert(other.skip(other.len() - 5)[4] == 'd');
    }
}

/// A step in recording an incident.
#[derive(Debug, Clone, Copy, PartialEq, Eq, Structural)]
pub enum Step {
    /// Add the diagnostic values to it.
    Diagnose,
    /// Let the agent service handle it, and add the report to it.
    Escalate,
    /// Write it to disk.
    Write,
    /// Write the report on it.
    Analyze,
    /// Send it to the collector.
    Push,
}

/// The steps in recording an incident at once.
pub open spec fn steps(cfg: Config) -> Seq<Step> {
    (if cfg.diagnostics.enabled && cfg.diagnostics.commands@.len() > 0 {
        seq![Step::Diagnose]
    } else {
        Seq::empty()
    }) + (if cfg.escalation.enabled {
        seq![Step::Escalate]
    } else {
        Seq::empty()
    }) + seq![Step::Write, Step::Analyze] + (if cfg.central.enabled {
        seq![Step::Push]
    } else {
        Seq::empty()
    })
}

/// The steps in recording an incident at once, in order. It is written after it was handled, and
/// whatever comes of the other steps.
pub fn record_steps(cfg: &Config) -> (r: Vec<Step>)
    ensures
        r@ == steps(*cfg),
{
    let mut r: Vec<Step> = Vec::new();
    if crate::diagnostics::active(&cfg.diagnostics) {
        r.push(Step::Diagnose);
    }
    if cfg.escalation.enabled {
        r.push(Step::Escalate);
    }
    r.push(Step::Write);
    r.push(Step::Analyze);
    if cfg.central.enabled {
        r.push(Step::Push);
    }
    assert(r@ =~= steps(*cfg));
    r
}

/// The arguments of `uv` that let it write the report on the incident in `json_path`, with the
/// analyzer that is a project in the directory `analyzer_dir`.
pub fn analyzer_args(cfg: &Config, analyzer_dir: &str, json_path: &str) -> (r: Vec<String>)
    ensures
        views(r@) == seq![
            "run"@,
            "--project"@,
            analyzer_dir@,
            cfg.analyzer_script@,
            json_path@,
            "--project-root"@,
            cfg.cwd@,
            "--context-lines"@,
            decimal(cfg.context_lines as nat),
        ],
{
    let mut r: Vec<String> = Vec::new();
    r.push("run".to_string());
    r.push("--project".to_string());
    r.push(analyzer_dir.to_string());
    r.push(cfg.analyzer_script.clone());
    r.push(json_path.to_string());
    r.push("--project-root".to_string());
    r.push(cfg.cwd.clone());
    r.push("--context-lines".to_string());
    r.push(decimal_of(cfg.context_lines as u64));
    assert(views(r@) =~= seq![
        "run"@,
        "--project"@,
        analyzer_dir@,
        cfg.analyzer_script@,
        json_path@,
        "--project-root"@,
        cfg.cwd@,
        "--context-lines"@,
        decimal(cfg.context_lines as nat),
    ]);
    r
}

/// Where an incident stands in a list: the newest first.
pub open spec fn age() -> spec_fn(Incident) -> int {
    |inc: Incident| -inc.timestamp.rank()
}

/// The incidents by time, the newest first; those of one time stay in their order.
pub fn newest_first(incidents: Vec<Incident>) -> (r: Vec<Incident>)
    ensures
        is_stable_sort(r@, incidents@, age()),
{
    let ghost all = incidents@;
    let mut timed: Vec<(i128, Incident)> = Vec::new();
    for inc in it: incidents.into_iter()
        invariant
            it.seq() == all,
            timed@.len() == it.index(),
            forall|j: int|
                0 <= j < it.index() ==> (#[trigger] timed@[j]).1 == all[j] && timed@[j].0 == age()(
                    all[j],
                ),
    {
        timed.push((-inc.timestamp.ranked(), inc));
    }
    let ghost plain = timed@.map_values(|p: (i128, Incident)| p.1);
    assert(plain =~= all);
    stable_sort(timed, Ghost(age()))
}

/// In a list no incident stands before a newer one.
pub proof fn law_list_is_newest_first(listed: Seq<Incident>, all: Seq<Incident>, i: int, j: int)
    requires
        is_stable_sort(listed, all, age()),
        0 <= i < j < listed.len(),
    ensures
        listed[i].timestamp.rank() >= listed[j].timestamp.rank(),
{
    assert(age()(listed[i]) <= age()(listed[j]));
}

/// `s` with spaces after it up to `width` characters.
pub open spec fn padded(s: Seq<char>, width: nat) -> Seq<char> {
    if s.len() >= width {
        s
    } else {
        s + Seq::new((width - s.len()) as nat, |i: int| ' ')
    }
}

/// `s` with spaces after it up to `width` characters.
fn pad(s: &str, width: usize) -> (r: String)
    ensures
        r@ == padded(s@, width as nat),
{
    let mut r = s.to_string();
    let mut n: usize = s.unicode_len();
    while n < width
        invariant
            n == r@.len(),
            s@.len() <= n,
            n <= width || n == s@.len(),
            r@ == s@ + Seq::new((n - s@.len()) as nat, |i: int| ' '),
        decreases width - n,
    {
        r.push(' ');
        n = n + 1;
        assert(r@ =~= s@ + Seq::new((n - s@.len()) as nat, |i: int| ' '));
    }
    assert(s@.len() >= width ==> r@ =~= s@);
    r
}

/// A row of the list: the identifier, the time and the message, in columns.
pub open spec fn row_text(id: Seq<char>, time: Seq<char>, message: Seq<char>) -> Seq<char> {
    padded(id, 24) + "  "@ + padded(time, 20) + "  "@ + message
}

/// A row of the list.
fn row(id: &str, time: &str, message: &str) -> (r: String)
    ensures
        r@ == row_text(id@, time@, message@),
{
    let mut r = pad(id, 24);
    r.append("  ");
    let time = pad(time, 20);
    r.append(time.as_str());
    r.append("  ");
    r.append(message);
    r
}

/// The heading of the list.
pub fn list_heading() -> (r: String)
    ensures
        r@ == row_text("ID"@, "時間"@, "訊息"@),
{
    row("ID", "時間", "訊息")
}

/// The row of an incident.
pub fn list_row(inc: &Incident) -> (r: String)
    requires
        inc.timestamp.on_calendar(),
    ensures
        r@ == row_text(
            inc.id@,
            utc_text(inc.timestamp.secs as int, inc.timestamp.nanos as int, LIST_FORMAT@),
            inc.message@,
        ),
{
    let time = format_utc(inc.timestamp, LIST_FORMAT);
    row(inc.id.as_str(), time.as_str(), inc.message.as_str())
}

}
