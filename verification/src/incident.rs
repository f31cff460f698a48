//! Incidents and what is recorded with them.

use crate::clock::{format_utc, utc_now, utc_text, Timestamp, ID_FORMAT};
use crate::fingerprint::{compute, fingerprint_text, template};
use crate::text::{chars_of, is_hex_digit, opt_view, string_of};
use vstd::prelude::*;

verus! {

/// One call of a stack trace.
#[derive(Debug, Clone)]
pub struct Frame {
    pub function: String,
    pub file: String,
    pub line: u32,
    pub column: Option<u32>,
    pub raw: String,
}

/// One call of a stack trace, by what it says.
pub struct FrameView {
    pub function: Seq<char>,
    pub file: Seq<char>,
    pub line: u32,
    pub column: Option<u32>,
    pub raw: Seq<char>,
}

impl View for Frame {
    type V = FrameView;

    open spec fn view(&self) -> FrameView {
        FrameView {
            function: self.function@,
            file: self.file@,
            line: self.line,
            column: self.column,
            raw: self.raw@,
        }
    }
}

/// What the calls of a stack trace say.
pub open spec fn frame_views(frames: Seq<Frame>) -> Seq<FrameView> {
    frames.map_values(|f: Frame| f@)
}

/// Where an incident was seen.
#[derive(Debug, Clone, PartialEq, Eq)]
pub enum Source {
    Process,
    LogFile(String),
}

/// How far the handling of an incident has come.
#[derive(Debug, Clone, Copy, PartialEq, Eq, Structural)]
pub enum IncidentStatus {
    Open,
    Escalating,
    Mitigated,
    Resolved,
    Suppressed,
}

impl Default for IncidentStatus {
    fn default() -> (r: Self)
        ensures
            r == IncidentStatus::Open,
    {
        IncidentStatus::Open
    }
}

/// How bad an incident is.
#[derive(Debug, Clone, Copy, PartialEq, Eq, Structural)]
pub enum Severity {
    Critical,
    High,
    Medium,
    Low,
}

impl Default for Severity {
    fn default() -> (r: Self)
        ensures
            r == Severity::High,
    {
        Severity::High
    }
}

/// What a diagnostic command printed at one moment.
#[derive(Debug, Clone)]
pub struct DiagnosticSample {
    pub ts_ms: i64,
    pub command: String,
    pub output: String,
    pub exit_code: i32,
}

/// What one stage of an escalation did.
#[derive(Debug, Clone)]
pub struct StageResult {
    pub stage: String,
    pub ran: bool,
    pub action_taken: Option<String>,
    pub reasoning: Option<String>,
    pub root_cause_hypothesis: Option<String>,
    pub files_changed: Vec<String>,
    pub test_result: Option<String>,
    pub raw_response: String,
    pub verified_resolved: Option<bool>,
}

impl Default for StageResult {
    fn default() -> (r: Self)
        ensures
            r.stage@.len() == 0,
            !r.ran,
            r.action_taken is None,
            r.reasoning is None,
            r.root_cause_hypothesis is None,
            r.files_changed@.len() == 0,
            r.test_result is None,
            r.raw_response@.len() == 0,
            r.verified_resolved is None,
    {
        StageResult {
            stage: String::new(),
            ran: false,
            action_taken: None,
            reasoning: None,
            root_cause_hypothesis: None,
            files_changed: Vec::new(),
            test_result: None,
            raw_response: String::new(),
            verified_resolved: None,
        }
    }
}

/// What a whole escalation did.
#[derive(Debug, Clone)]
pub struct EscalationReport {
    /// What the analysis agents found, in the form in which the agent service sends it.
    pub multi_agent_analysis: Option<serde_json::Value>,
    pub stage1_immediate: Option<StageResult>,
    pub stage2_parameter: Option<StageResult>,
    pub stage3_code_fix: Option<StageResult>,
    pub final_resolved: bool,
    pub code_diff: Option<String>,
}

impl Default for EscalationReport {
    fn default() -> (r: Self)
        ensures
            r == (EscalationReport {
                multi_agent_analysis: None,
                stage1_immediate: None,
                stage2_parameter: None,
                stage3_code_fix: None,
                final_resolved: false,
                code_diff: None,
            }),
    {
        EscalationReport {
            multi_agent_analysis: None,
            stage1_immediate: None,
            stage2_parameter: None,
            stage3_code_fix: None,
            final_resolved: false,
            code_diff: None,
        }
    }
}

/// An error that was seen, with all that is known of it.
#[derive(Debug, Clone)]
pub struct Incident {
    pub id: String,
    pub timestamp: Timestamp,
    pub project: String,
    pub source: Source,
    pub message: String,
    pub frames: Vec<Frame>,
    pub raw: String,
    pub command: String,
    pub exit_code: Option<i32>,
    pub restarted: bool,
    pub restart_count: u32,
    pub escalation: Option<EscalationReport>,
    /// Diagnostic values from before the incident and of the moment it was seen.
    pub diagnostics_history: Vec<DiagnosticSample>,
    /// Tells whether two incidents are the same error.
    pub fingerprint: Option<String>,
    /// The normalised message from which the fingerprint was made.
    pub fingerprint_template: Option<String>,
    /// How often the incident was seen.
    pub occurrence_count: u64,
    pub first_seen: Option<Timestamp>,
    pub last_seen: Option<Timestamp>,
    pub status: IncidentStatus,
    /// Why the incident has its status.
    pub status_reason: Option<String>,
    /// The incident that this one repeats.
    pub recurrence_of: Option<String>,
    pub severity: Severity,
}

/// How often an incident was seen that does not say so.
pub fn default_occurrence_count() -> (r: u64)
    ensures
        r == 1,
{
    1
}

/// Whether `s` is a UUID in lower case, with its four hyphens.
pub open spec fn uuid_text(s: Seq<char>) -> bool {
    &&& s.len() == 36
    &&& forall|i: int|
        0 <= i < 36 ==> if i == 8 || i == 13 || i == 18 || i == 23 {
            #[trigger] s[i] == '-'
        } else {
            is_hex_digit(s[i])
        }
}

/// `Uuid::new_v4`, written out by `to_string`: 36 characters, hexadecimal digits in lower case
/// and four hyphens. Nothing is said of which digits they are.
#[verifier::external_body]
fn random_uuid() -> (r: String)
    ensures
        uuid_text(r@),
{
    uuid::Uuid::new_v4().to_string()
}

/// The identifier of an incident seen at `now`: the time, a hyphen and the first eight characters
/// of `uuid`.
pub open spec fn id_text(now: Timestamp, uuid: Seq<char>) -> Seq<char> {
    utc_text(now.secs as int, now.nanos as int, ID_FORMAT@) + "-"@ + uuid.take(8)
}

/// Whether `id` was made from some time and some UUID.
pub open spec fn is_id(id: Seq<char>) -> bool {
    exists|now: Timestamp, uuid: Seq<char>|
        now.on_calendar() && uuid_text(uuid) && id == #[trigger] id_text(now, uuid)
}

impl Incident {
    /// The identifier of an incident seen at `now`.
    pub fn id_at(now: Timestamp, uuid: &str) -> (r: String)
        requires
            now.on_calendar(),
            uuid@.len() >= 8,
        ensures
            r@ == id_text(now, uuid@),
    {
        let mut r = format_utc(now, ID_FORMAT);
        r.append("-");
        let cs = chars_of(uuid);
        let short = string_of(&cs, 0, 8);
        assert(short@ =~= uuid@.take(8));
        r.append(short.as_str());
        r
    }

    /// A new identifier, made from the present time and a random UUID.
    pub fn new_id() -> (r: String)
        ensures
            is_id(r@),
    {
        let now = utc_now();
        let uuid = random_uuid();
        Incident::id_at(now, uuid.as_str())
    }

    /// Whether nothing has happened to the incident since it was seen at `timestamp`: it was seen
    /// once, has its fingerprint, and is neither handled nor escalated.
    pub open spec fn fresh(self, timestamp: Timestamp) -> bool {
        &&& self.timestamp == timestamp
        &&& self.first_seen == Some(timestamp)
        &&& self.last_seen == Some(timestamp)
        &&& self.occurrence_count == 1
        &&& self.status == IncidentStatus::Open
        &&& self.status_reason is None
        &&& self.recurrence_of is None
        &&& self.escalation is None
        &&& self.diagnostics_history@.len() == 0
        &&& opt_view(self.fingerprint_template) == Some(template(self.message@))
        &&& opt_view(self.fingerprint) == Some(
            fingerprint_text(self.source, template(self.message@), self.frames@),
        )
    }

    /// An incident that is seen at `timestamp` and gets the identifier `id`.
    pub fn detected_at(
        timestamp: Timestamp,
        id: String,
        project: String,
        source: Source,
        message: String,
        frames: Vec<Frame>,
        raw: String,
        command: String,
        exit_code: Option<i32>,
        restarted: bool,
        restart_count: u32,
        severity: Severity,
    ) -> (r: Incident)
        ensures
            r.fresh(timestamp),
            r.id == id,
            r.project == project,
            r.source == source,
            r.message == message,
            r.frames == frames,
            r.raw == raw,
            r.command == command,
            r.exit_code == exit_code,
            r.restarted == restarted,
            r.restart_count == restart_count,
            r.severity == severity,
    {
        let (fingerprint, fingerprint_template) = compute(
            &source,
            message.as_str(),
            frames.as_slice(),
        );
        Incident {
            id,
            timestamp,
            project,
            source,
            message,
            frames,
            raw,
            command,
            exit_code,
            restarted,
            restart_count,
            escalation: None,
            diagnostics_history: Vec::new(),
            fingerprint: Some(fingerprint),
            fingerprint_template: Some(fingerprint_template),
            occurrence_count: 1,
            first_seen: Some(timestamp),
            last_seen: Some(timestamp),
            status: IncidentStatus::Open,
            status_reason: None,
            recurrence_of: None,
            severity,
        }
    }

    /// An incident that is seen now.
    pub fn detected(
        project: String,
        source: Source,
        message: String,
        frames: Vec<Frame>,
        raw: String,
        command: String,
        exit_code: Option<i32>,
        restarted: bool,
        restart_count: u32,
        severity: Severity,
    ) -> (r: Incident)
        ensures
            r.fresh(r.timestamp),
            r.timestamp.on_calendar(),
            is_id(r.id@),
            r.project == project,
            r.source == source,
            r.message == message,
            r.frames == frames,
            r.raw == raw,
            r.command == command,
            r.exit_code == exit_code,
            r.restarted == restarted,
            r.restart_count == restart_count,
            r.severity == severity,
    {
        let timestamp = utc_now();
        let id = Incident::new_id();
        Incident::detected_at(
            timestamp,
            id,
            project,
            source,
            message,
            frames,
            raw,
            command,
            exit_code,
            restarted,
            restart_count,
            severity,
        )
    }
}

}
