//! What the intake does to the incidents it keeps, field by field.

use crate::clock::Timestamp;
use crate::decision_laws::{elapsed, ordinary};
use crate::dedup::DecisionView;
use crate::incident::{DiagnosticSample, EscalationReport, Incident, IncidentStatus};
use crate::recorder::{
    added, ended, ending_effects, fp_of, overflowed, recording_effects, restated, sum, Effect,
    IntakeInput, IntakePhase, IntakeView, Plan, LOG_INTERVAL_MS, POLL_MS, REPORT_WAIT_MS, TICK_MS,
};
use crate::text::opt_view;
use vstd::prelude::*;

verus! {

/// Whether two incidents tell of the same error, seen as often and at the same times: all is equal
/// but the status, its reason, the report of an escalation, the diagnostic values and the incident
/// that is repeated.
pub open spec fn same_error(a: Incident, b: Incident) -> bool {
    &&& a.id == b.id
    &&& a.timestamp == b.timestamp
    &&& a.project == b.project
    &&& a.source == b.source
    &&& a.message == b.message
    &&& a.frames == b.frames
    &&& a.raw == b.raw
    &&& a.command == b.command
    &&& a.exit_code == b.exit_code
    &&& a.restarted == b.restarted
    &&& a.restart_count == b.restart_count
    &&& a.fingerprint == b.fingerprint
    &&& a.fingerprint_template == b.fingerprint_template
    &&& a.occurrence_count == b.occurrence_count
    &&& a.first_seen == b.first_seen
    &&& a.last_seen == b.last_seen
    &&& a.severity == b.severity
}

/// An escalation that ends with a report leaves the incident mitigated if and only if the report
/// says that the problem is gone, and open otherwise. The report is kept, and nothing else of the
/// incident changes.
pub proof fn law_report_decides_the_status(
    after: Incident,
    before: Incident,
    report: EscalationReport,
)
    requires
        ended(after, before, Some(report)),
    ensures
        report.final_resolved ==> after.status == IncidentStatus::Mitigated,
        !report.final_resolved ==> after.status == IncidentStatus::Open,
        after.status_reason is None,
        after.escalation == Some(report),
        same_error(after, before),
        after.diagnostics_history == before.diagnostics_history,
        after.recurrence_of == before.recurrence_of,
{
}

/// The status that a report leaves is the one that deduplication goes by from then on, and an
/// incident that was not mended is a new incident again when it is seen after the window, whereas
/// one that was mended recurs.
pub proof fn law_report_decides_what_comes_next(
    s: IntakeView,
    fp: Seq<char>,
    after: Incident,
    before: Incident,
    report: EscalationReport,
    now: Timestamp,
)
    requires
        ended(after, before, Some(report)),
        s.deduper.entries.contains_key(fp),
        0 < s.deduper.cfg.dedup_window_secs <= 9_223_372_036_854_775,
        ordinary(now),
        ordinary(s.deduper.entries[fp].last_seen),
        elapsed(now, s.deduper.entries[fp].last_seen) > s.deduper.cfg.dedup_window_secs
            * 1_000_000_000,
    ensures
        ({
            let d = s.deduper.with_status(fp, after.status);
            &&& report.final_resolved ==> d.entries[fp].status == IncidentStatus::Mitigated
                && d.decision(fp, now) is Recurrence
            &&& !report.final_resolved ==> d.entries[fp].status == IncidentStatus::Open
                && d.decision(fp, now) == if d.room(now) {
                DecisionView::NewEscalate
            } else {
                DecisionView::NewSuppressed("storm"@)
            }
        }),
{
}

/// An escalation that ends without a report leaves the incident open, and says that it has failed.
pub proof fn law_failed_escalation_leaves_the_incident_open(after: Incident, before: Incident)
    requires
        ended(after, before, None),
    ensures
        after.status == IncidentStatus::Open,
        opt_view(after.status_reason) == Some("escalation_failed"@),
        after.escalation == before.escalation,
        same_error(after, before),
        after.diagnostics_history == before.diagnostics_history,
        after.recurrence_of == before.recurrence_of,
{
}

/// An incident with another status has that status and the reason for it, and is otherwise as it
/// was.
pub proof fn law_restated_incident(
    after: Incident,
    before: Incident,
    status: IncidentStatus,
    reason: Option<Seq<char>>,
)
    requires
        restated(after, before, status, reason),
    ensures
        after.status == status,
        opt_view(after.status_reason) == reason,
        after.escalation == before.escalation,
        same_error(after, before),
        after.diagnostics_history == before.diagnostics_history,
        after.recurrence_of == before.recurrence_of,
{
}

/// What is recorded is what was seen. It is suppressed where the decision was not to escalate, for
/// the reason that the decision names, and refers to an earlier incident where it recurs.
pub proof fn law_plan_follows_the_decision(plan: Plan, inc: Incident, d: DecisionView)
    requires
        plan.follows(inc, d),
    ensures
        inc.fingerprint matches Some(fp) ==> plan.fp@ == fp@,
        inc.fingerprint is None ==> plan.fp@.len() == 0,
        same_error(plan.incident, inc),
        plan.incident.status == inc.status,
        plan.incident.status_reason == inc.status_reason,
        plan.incident.escalation == inc.escalation,
        plan.incident.diagnostics_history == inc.diagnostics_history,
        match d {
            DecisionView::NewEscalate => plan.suppressed is None && !plan.recurrence
                && opt_view(plan.incident.recurrence_of) == opt_view(inc.recurrence_of),
            DecisionView::NewSuppressed(why) => (plan.suppressed matches Some(r) && r@ == why)
                && !plan.recurrence && opt_view(plan.incident.recurrence_of) == opt_view(
                inc.recurrence_of,
            ),
            DecisionView::Recurrence { prev, escalate, reason } => {
                &&& plan.recurrence
                &&& opt_view(plan.incident.recurrence_of) == Some(prev)
                &&& escalate ==> plan.suppressed is None
                &&& !escalate ==> (plan.suppressed matches Some(r) && (match reason {
                    Some(why) => r@ == why,
                    None => r@ == "recurrence"@,
                }))
            },
            DecisionView::Append { .. } => true,
        },
{
}

/// An incident is known under its fingerprint, and under the empty one where it has none.
pub proof fn law_known_by_its_fingerprint(inc: Incident)
    ensures
        inc.fingerprint matches Some(fp) ==> fp_of(inc) == fp@,
        inc.fingerprint is None ==> fp_of(inc).len() == 0,
{
}

/// What is done with an incident that is recorded, and with one whose escalation has ended: it is
/// written before the report on it, and that before it is sent; its diagnostic values are taken
/// once, when it is recorded, and first.
pub proof fn law_effects_come_in_order()
    ensures
        recording_effects().len() == 4,
        recording_effects()[0] == Effect::SnapshotDiagnostics,
        recording_effects()[1] == Effect::WriteJson,
        recording_effects()[2] == Effect::RenderMarkdown,
        recording_effects()[3] == Effect::PushCentral,
        ending_effects().len() == 3,
        ending_effects()[0] == Effect::WriteJson,
        ending_effects()[1] == Effect::RenderMarkdown,
        ending_effects()[2] == Effect::PushCentral,
{
}

/// A sighting that is counted makes the count of its incident greater by one and is the time at
/// which it was last seen, for the incident and for deduplication; the incident is to be written
/// again. Nothing else of any incident changes, and nothing is escalated.
pub proof fn law_counting_changes_one_incident(
    s: IntakeView,
    id: Seq<char>,
    fp: Seq<char>,
    now: Timestamp,
)
    requires
        s.active.contains_key(id),
        s.active[id].occurrence_count < u64::MAX,
    ensures
        ({
            let t = s.counted(id, fp, now);
            let (a, b) = (t.active[id], s.active[id]);
            &&& a.occurrence_count == b.occurrence_count + 1
            &&& a.last_seen == Some(now)
            &&& same_error(
                Incident {
                    occurrence_count: b.occurrence_count,
                    last_seen: b.last_seen,
                    ..a
                },
                b,
            )
            &&& a.status == b.status && a.status_reason == b.status_reason
            &&& a.escalation == b.escalation && a.recurrence_of == b.recurrence_of
            &&& a.diagnostics_history == b.diagnostics_history
            &&& t.active.dom() == s.active.dom()
            &&& forall|k: Seq<char>|
                k != id && s.active.contains_key(k) ==> #[trigger] t.active[k] == s.active[k]
            &&& t.fp_active == s.fp_active && t.pending == s.pending
            &&& t.last_flush == s.last_flush
            &&& t.dirty.contains(id)
            &&& forall|k: Seq<char>|
                k != id ==> #[trigger] t.dirty.contains(k) == s.dirty.contains(k)
            &&& s.deduper.entries.contains_key(fp) ==> t.deduper.entries[fp].last_seen == now
                && t.deduper.entries[fp].id == s.deduper.entries[fp].id
                && t.deduper.entries[fp].status == s.deduper.entries[fp].status
        }),
{
    assert(s.counted(id, fp, now).active.dom() =~= s.active.dom());
}

/// Where a count can grow, a sighting can be counted.
pub proof fn law_sighting_can_be_counted(s: IntakeView, fp: Seq<char>, now: Timestamp)
    requires
        forall|id: Seq<char>| #[trigger]
            s.active.contains_key(id) ==> s.active[id].occurrence_count < u64::MAX,
    ensures
        s.countable(fp, now),
{
}

/// An incident that is recorded stands for its fingerprint: what overflows is counted towards it,
/// and deduplication names it, with its status, as seen now.
pub proof fn law_recorded_incident_stands_for_its_fingerprint(
    s: IntakeView,
    fp: Seq<char>,
    inc: Incident,
    recurrence: bool,
    status: IncidentStatus,
    now: Timestamp,
    escalated: bool,
)
    ensures
        s.with_active(fp, inc).active.contains_key(inc.id@),
        s.with_active(fp, inc).active[inc.id@] == inc,
        s.with_active(fp, inc).fp_active.contains_key(fp),
        s.with_active(fp, inc).fp_active[fp] == inc.id,
        s.with_active(fp, inc).pending == s.pending,
        s.with_active(fp, inc).dirty == s.dirty,
        s.with_active(fp, inc).last_flush == s.last_flush,
        s.with_active(fp, inc).deduper == s.deduper,
        ({
            let d = s.registered(fp, inc.id, recurrence, status, now, escalated);
            &&& d.entries.contains_key(fp)
            &&& d.entries[fp].id == inc.id && d.entries[fp].status == status
            &&& d.entries[fp].last_seen == now && d.entries[fp].first_seen == now
            &&& escalated ==> d.entries[fp].last_escalated == Some(now) && d.stamps.len() > 0
                && d.stamps.last() == now
            &&& !escalated ==> d.stamps == s.deduper.stamps
            &&& !escalated && !recurrence ==> d.entries[fp].last_escalated is None
            &&& !escalated && recurrence && s.deduper.entries.contains_key(fp)
                ==> d.entries[fp].last_escalated == s.deduper.entries[fp].last_escalated
            &&& d.cfg == s.deduper.cfg
        }),
{
}

/// Diagnostic values that are attached are those of the incident from then on, and nothing else
/// changes.
pub proof fn law_diagnostics_are_attached(
    s: IntakeView,
    id: Seq<char>,
    samples: Vec<DiagnosticSample>,
)
    ensures
        !s.active.contains_key(id) ==> s.with_diagnostics(id, samples) == s,
        s.active.contains_key(id) ==> {
            let t = s.with_diagnostics(id, samples);
            &&& t.active[id].diagnostics_history == samples
            &&& same_error(t.active[id], s.active[id])
            &&& t.active[id].status == s.active[id].status
            &&& t.active[id].status_reason == s.active[id].status_reason
            &&& t.active[id].escalation == s.active[id].escalation
            &&& t.active[id].recurrence_of == s.active[id].recurrence_of
            &&& t.active.dom() == s.active.dom()
            &&& forall|k: Seq<char>|
                k != id && s.active.contains_key(k) ==> #[trigger] t.active[k] == s.active[k]
            &&& t.deduper == s.deduper && t.fp_active == s.fp_active && t.dirty == s.dirty
            &&& t.last_flush == s.last_flush && t.pending == s.pending
        },
{
    if s.active.contains_key(id) {
        assert(s.with_diagnostics(id, samples).active.dom() =~= s.active.dom());
    }
}

/// Of the occurrences that found the queue full, exactly those belong to an incident for whose
/// fingerprint it stands.
pub proof fn law_occurrences_belong_to_what_stands_for_them(
    fp_active: Map<Seq<char>, String>,
    list: Seq<(String, u64)>,
    more: (String, u64),
    id: Seq<char>,
)
    ensures
        added(fp_active, Seq::empty(), id) == 0,
        fp_active.contains_key(more.0@) && fp_active[more.0@]@ == id ==> added(
            fp_active,
            list.push(more),
            id,
        ) == added(fp_active, list, id) + more.1,
        !(fp_active.contains_key(more.0@) && fp_active[more.0@]@ == id) ==> added(
            fp_active,
            list.push(more),
            id,
        ) == added(fp_active, list, id),
        sum(Seq::empty()) == 0,
        sum(list.push(more)) == sum(list) + more.1,
{
    assert(list.push(more).drop_last() =~= list);
}

/// A tick counts the overflow towards each incident: its count grows by what belongs to it, and it
/// was last seen now where anything does. Nothing else of it changes, no incident comes or goes,
/// and nothing changes for deduplication and escalations.
pub proof fn law_tick_counts_the_overflow(
    s: IntakeView,
    drained: Seq<(String, u64)>,
    interval: int,
    now: Timestamp,
    id: Seq<char>,
)
    requires
        s.active.contains_key(id),
        s.absorbs(drained),
    ensures
        ({
            let t = s.ticked(drained, interval, now);
            let more = added(s.fp_active, drained, id);
            let (a, b) = (t.active[id], s.active[id]);
            &&& a.occurrence_count == b.occurrence_count + more
            &&& more > 0 ==> a.last_seen == Some(now)
            &&& more == 0 ==> a == b
            &&& same_error(
                Incident {
                    occurrence_count: b.occurrence_count,
                    last_seen: b.last_seen,
                    ..a
                },
                b,
            )
            &&& a.status == b.status && a.escalation == b.escalation
            &&& t.active.dom() == s.active.dom()
            &&& t.fp_active == s.fp_active && t.pending == s.pending && t.deduper == s.deduper
        }),
{
    assert(s.ticked(drained, interval, now).active.dom() =~= s.active.dom());
}

/// At a tick an incident is written where it has changed, and was never written for that reason or
/// as long ago as the interval has it; without an interval always. It is then no longer changed,
/// and was written now. One that is not written stays as it was.
pub proof fn law_tick_writes_what_is_due(
    s: IntakeView,
    drained: Seq<(String, u64)>,
    interval: int,
    now: Timestamp,
    id: Seq<char>,
)
    requires
        s.active.contains_key(id),
        ordinary(now),
        s.last_flush.contains_key(id) ==> ordinary(s.last_flush[id]),
    ensures
        ({
            let t = s.ticked(drained, interval, now);
            let changed = s.dirty.contains(id) || added(s.fp_active, drained, id) > 0;
            let due = interval == 0 || !s.last_flush.contains_key(id) || elapsed(
                now,
                s.last_flush[id],
            ) >= interval;
            &&& s.changed(drained, id) == changed
            &&& s.flushable(id, interval, now) == due
            &&& t.dirty.contains(id) == (changed && !due)
            &&& changed && due ==> t.last_flush.contains_key(id) && t.last_flush[id] == now
            &&& !(changed && due) ==> t.last_flush.contains_key(id) == s.last_flush.contains_key(id)
            &&& !(changed && due) && s.last_flush.contains_key(id) ==> t.last_flush[id]
                == s.last_flush[id]
        }),
{
}

/// How often a fingerprint found the queue full is what was counted for it, and 0 where nothing
/// was.
pub proof fn law_overflow_of_a_fingerprint(counts: Map<Seq<char>, u64>, fp: Seq<char>, n: u64)
    ensures
        !counts.contains_key(fp) ==> overflowed(counts, fp) == 0,
        overflowed(counts.insert(fp, n), fp) == n,
{
}

/// The intake looks for incidents ten times a second, writes once a second, looks for the end of
/// escalations five times a second while it shuts down, and logs a full queue once a second.
pub proof fn law_intake_keeps_time()
    ensures
        POLL_MS == 100,
        TICK_MS == 1000,
        REPORT_WAIT_MS == 200,
        LOG_INTERVAL_MS == 1000,
{
}

/// While the intake is at work it takes an incident, reads all reports, writes where a second has
/// passed since it last did, and takes the next incident. It leaves this round only when it is
/// asked to stop or no more incidents can come.
pub proof fn law_intake_goes_round(
    stop: bool,
    input: IntakeInput,
    since_tick_ms: u64,
    pending: usize,
    now_ms: u64,
    grace_secs: u64,
)
    ensures
        IntakePhase::Polling.after(input, since_tick_ms, pending, now_ms, grace_secs) == (
        IntakePhase::Reading { stop: input == IntakeInput::QueueClosed }),
        ({
            let here = IntakePhase::Reading { stop };
            let next = here.after(input, since_tick_ms, pending, now_ms, grace_secs);
            &&& input == IntakeInput::Report ==> next == here
            &&& input == IntakeInput::StopRequest ==> next == IntakePhase::Emptying
            &&& input != IntakeInput::Report && stop ==> next == IntakePhase::Emptying
            &&& input != IntakeInput::Report && input != IntakeInput::StopRequest && !stop
                && since_tick_ms >= 1000 ==> next == IntakePhase::Ticking
            &&& input != IntakeInput::Report && input != IntakeInput::StopRequest && !stop
                && since_tick_ms < 1000 ==> next == IntakePhase::Polling
        }),
        IntakePhase::Ticking.after(input, since_tick_ms, pending, now_ms, grace_secs)
            == IntakePhase::Polling,
        IntakePhase::Emptying.after(
            IntakeInput::Incident,
            since_tick_ms,
            pending,
            now_ms,
            grace_secs,
        ) == IntakePhase::Emptying,
        input != IntakeInput::Incident ==> IntakePhase::Emptying.after(
            input,
            since_tick_ms,
            pending,
            now_ms,
            grace_secs,
        ) == IntakePhase::Flushing,
{
}

/// The time that is left ends at the deadline, and there is none after it.
pub proof fn law_time_left(deadline_ms: u128, now_ms: u64)
    ensures
        now_ms <= deadline_ms ==> now_ms + IntakePhase::left(deadline_ms, now_ms) == deadline_ms,
        now_ms > deadline_ms ==> IntakePhase::left(deadline_ms, now_ms) == 0,
{
}

}
