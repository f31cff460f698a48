//! What incidents, and what they are told by, promise.

use crate::clock::Timestamp;
use crate::dedup::{Decision, DecisionView};
use crate::fingerprint::{fingerprint_text, template};
use crate::incident::{frame_views, DiagnosticSample, Frame, Incident, IncidentStatus};
use crate::matcher::{event_view, fault_at, first_fault, node_call, py_call, ErrorEvent};
use crate::patterns::{group_views, regex_compiles};
use crate::text::{parsed_u32, trimmed};
use vstd::prelude::*;

verus! {

/// An incident that was just seen was seen once, at that moment; it is open, was neither handled nor
/// escalated, repeats no other, and is known by its message and its calls.
pub proof fn law_fresh_incident(incident: Incident, now: Timestamp)
    requires
        incident.fresh(now),
    ensures
        incident.timestamp == now && incident.first_seen == Some(now) && incident.last_seen == Some(
            now,
        ),
        incident.occurrence_count == 1,
        incident.status == IncidentStatus::Open,
        incident.status_reason is None && incident.recurrence_of is None && incident.escalation
            is None,
        incident.diagnostics_history@ == Seq::<DiagnosticSample>::empty(),
        incident.fingerprint_template is Some && (incident.fingerprint_template->0)@ == template(
            incident.message@,
        ),
        incident.fingerprint is Some && (incident.fingerprint->0)@ == fingerprint_text(
            incident.source,
            template(incident.message@),
            incident.frames@,
        ),
{
    assert(incident.diagnostics_history@ =~= Seq::<DiagnosticSample>::empty());
}

/// A call says its function, its file, its line and column and how it was written, and calls say
/// so one by one.
pub proof fn law_calls_say_what_they_hold(frames: Seq<Frame>, f: Frame, i: int)
    ensures
        f@.function == f.function@ && f@.file == f.file@ && f@.line == f.line && f@.column
            == f.column && f@.raw == f.raw@,
        frame_views(frames).len() == frames.len(),
        0 <= i < frames.len() ==> frame_views(frames)[i] == frames[i]@,
{
}

/// An error says its message, its calls and its lines.
pub proof fn law_errors_say_what_they_hold(e: ErrorEvent)
    ensures
        e@.message == e.message@ && e@.frames == frame_views(e.frames@) && e@.raw == e.raw@,
        event_view(Some(e)) == Some(e@),
        event_view(None) is None,
{
}

/// A decision says what it is and all that it names.
pub proof fn law_decisions_say_what_they_hold(d: Decision)
    ensures
        d is NewEscalate <==> d@ is NewEscalate,
        d matches Decision::NewSuppressed(reason) ==> d@ == DecisionView::NewSuppressed(reason@),
        d matches Decision::Append { id } ==> d@ == (DecisionView::Append { id: id@ }),
        d matches Decision::Recurrence { prev, escalate, reason } ==> {
            &&& d@ is Recurrence && d@->prev == prev@ && d@->escalate == escalate
            &&& reason is None <==> d@->reason is None
            &&& reason matches Some(r) ==> d@->reason == Some(r@)
        },
{
}

/// A line of a Node.js stack trace has its function, file, line and column in the four groups of its
/// match, one of a Python stack trace its file, line and function in the three groups of its own. A
/// function without a name is called so, a line number that does not fit is 0, and a column that
/// does not fit is missing.
pub proof fn law_groups_hold_the_call(groups: Seq<Option<Seq<char>>>, line: Seq<char>)
    ensures
        groups[1] is None ==> node_call(groups, line).function == "<anonymous>"@,
        groups[1] matches Some(name) ==> node_call(groups, line).function == name,
        groups[2] matches Some(file) ==> node_call(groups, line).file == file,
        groups[3] matches Some(n) ==> {
            &&& parsed_u32(n) matches Some(k) ==> node_call(groups, line).line == k
            &&& parsed_u32(n) is None ==> node_call(groups, line).line == 0
        },
        groups[4] matches Some(n) ==> node_call(groups, line).column == parsed_u32(n),
        node_call(groups, line).raw == trimmed(line),
        groups[1] matches Some(file) ==> py_call(groups, line).file == file,
        groups[2] matches Some(n) ==> {
            &&& parsed_u32(n) matches Some(k) ==> py_call(groups, line).line == k
            &&& parsed_u32(n) is None ==> py_call(groups, line).line == 0
        },
        groups[3] matches Some(name) ==> py_call(groups, line).function == name,
        py_call(groups, line).column is None,
        py_call(groups, line).raw == trimmed(line),
{
}

/// What groups hold is read group by group.
pub proof fn law_groups_are_read_one_by_one(groups: Seq<Option<String>>, i: int)
    requires
        0 <= i < groups.len(),
    ensures
        group_views(groups).len() == groups.len(),
        groups[i] is None <==> group_views(groups)[i] is None,
        groups[i] matches Some(s) ==> group_views(groups)[i] == Some(s@),
{
}

/// The pattern that is refused does not compile, and each pattern before it does.
pub proof fn law_first_pattern_that_does_not_compile(patterns: Seq<String>, pattern: Seq<char>)
    ensures
        first_fault(patterns, pattern) ==> !regex_compiles(pattern) && exists|i: int|
            0 <= i < patterns.len() && (#[trigger] patterns[i])@ == pattern && forall|j: int|
                0 <= j < i ==> regex_compiles((#[trigger] patterns[j])@),
{
    if first_fault(patterns, pattern) {
        let i = choose|i: int| fault_at(patterns, pattern, i);
        assert(patterns[i]@ == pattern);
    }
}

}
