//! What recording promises over several calls.

use crate::clock::Timestamp;
use crate::config::Config;
use crate::dedup::DecisionView;
use crate::dedup_laws::{close_together, law_one_incident_for_all_repetitions, seen_at};
use crate::incident::{DiagnosticSample, EscalationReport, Incident, IncidentStatus};
use crate::recorder::{added, ended, restated, IntakeInput, IntakePhase, IntakeView, Overflow};
use crate::table::{distinct, key_at, lemma_at, lemma_push, map_of};
use vstd::prelude::*;

verus! {

/// The state after a fingerprint was counted towards `id` at each of `times`.
pub open spec fn counted_at(
    s: IntakeView,
    id: Seq<char>,
    fp: Seq<char>,
    times: Seq<Timestamp>,
) -> IntakeView
    decreases times.len(),
{
    if times.len() == 0 {
        s
    } else {
        counted_at(s, id, fp, times.drop_last()).counted(id, fp, times.last())
    }
}

proof fn lemma_counted_at(s: IntakeView, id: Seq<char>, fp: Seq<char>, times: Seq<Timestamp>)
    requires
        s.active.contains_key(id),
        s.active[id].occurrence_count + times.len() <= u64::MAX,
    ensures
        counted_at(s, id, fp, times).deduper == seen_at(s.deduper, fp, times),
        counted_at(s, id, fp, times).active.dom() == s.active.dom(),
        counted_at(s, id, fp, times).active[id].occurrence_count == s.active[id].occurrence_count
            + times.len(),
        times.len() > 0 ==> counted_at(s, id, fp, times).active[id].last_seen == Some(times.last())
            && counted_at(s, id, fp, times).dirty.contains(id),
        counted_at(s, id, fp, times).pending == s.pending,
    decreases times.len(),
{
    if times.len() > 0 {
        lemma_counted_at(s, id, fp, times.drop_last());
        let before = counted_at(s, id, fp, times.drop_last());
        assert(before.active.contains_key(id));
        assert(counted_at(s, id, fp, times).active.dom() =~= s.active.dom());
    }
}

/// However often an error is seen again, each time within the window of the time before, each
/// sighting is decided to be counted, and in the end the one incident that stands for it has
/// counted them all. Nothing is recorded besides it and nothing more is escalated.
pub proof fn law_repetitions_are_counted(
    s: IntakeView,
    fp: Seq<char>,
    times: Seq<Timestamp>,
)
    requires
        s.coherent(),
        s.deduper.entries.contains_key(fp),
        s.deduper.entries[fp].status != IncidentStatus::Resolved,
        s.deduper.entries[fp].status != IncidentStatus::Suppressed,
        close_together(s.deduper, fp, times),
        s.active[s.deduper.entries[fp].id@].occurrence_count + times.len() <= u64::MAX,
    ensures
        ({
            let id = s.deduper.entries[fp].id@;
            let t = counted_at(s, id, fp, times);
            &&& forall|k: int|
                #![trigger times[k]]
                0 <= k < times.len() ==> counted_at(s, id, fp, times.take(k)).deduper.decision(
                    fp,
                    times[k],
                ) == (DecisionView::Append { id })
            &&& t.active.dom() == s.active.dom()
            &&& t.active[id].occurrence_count == s.active[id].occurrence_count + times.len()
            &&& t.pending == s.pending
        }),
{
    let id = s.deduper.entries[fp].id@;
    assert(s.active.contains_key(id));
    lemma_counted_at(s, id, fp, times);
    assert forall|k: int| #![trigger times[k]] 0 <= k < times.len() implies counted_at(
        s,
        id,
        fp,
        times.take(k),
    ).deduper.decision(fp, times[k]) == (DecisionView::Append { id }) by {
        lemma_counted_at(s, id, fp, times.take(k));
        law_one_incident_for_all_repetitions(s.deduper, fp, times, k);
    }
}

/// The state after a new incident was recorded and its escalation was accepted.
pub open spec fn escalated(
    s: IntakeView,
    fp: Seq<char>,
    inc: Incident,
    now: Timestamp,
) -> IntakeView {
    let recorded = IntakeView { deduper: s.deduper.decided(fp, now), ..s }.with_active(
        fp,
        Incident { status: IncidentStatus::Escalating, ..inc },
    );
    IntakeView {
        deduper: recorded.registered(fp, inc.id, false, IncidentStatus::Escalating, now, true),
        pending: recorded.pending.insert(inc.id@),
        ..recorded
    }
}

/// An error that is seen for the first time, where there is room and a place, and again and again
/// after it within the window, is one incident, which is escalated once and counts every sighting.
pub proof fn law_identical_errors_are_one_incident(
    s: IntakeView,
    fp: Seq<char>,
    inc: Incident,
    now: Timestamp,
    times: Seq<Timestamp>,
)
    requires
        s.coherent(),
        !s.deduper.entries.contains_key(fp),
        s.deduper.room(now),
        s.pending.len() < s.deduper.cfg.max_pending_escalations,
        inc.occurrence_count + times.len() <= u64::MAX,
        close_together(escalated(s, fp, inc, now).deduper, fp, times),
    ensures
        s.deduper.decision(fp, now) == DecisionView::NewEscalate,
        ({
            let t = escalated(s, fp, inc, now);
            let id = inc.id@;
            &&& t.coherent()
            &&& forall|k: int|
                #![trigger times[k]]
                0 <= k < times.len() ==> counted_at(t, id, fp, times.take(k)).deduper.decision(
                    fp,
                    times[k],
                ) == (DecisionView::Append { id })
            &&& counted_at(t, id, fp, times).active.dom() == s.active.dom().insert(id)
            &&& counted_at(t, id, fp, times).active[id].occurrence_count == inc.occurrence_count
                + times.len()
            &&& counted_at(t, id, fp, times).pending == s.pending.insert(id)
        }),
{
    let t = escalated(s, fp, inc, now);
    let id = inc.id@;
    assert(t.active[id].occurrence_count == inc.occurrence_count);
    assert(t.deduper.entries[fp].id@ == id);
    assert(t.active.dom() =~= s.active.dom().insert(id));
    assert(t.pending.len() <= s.pending.len() + 1);
    assert forall|k: Seq<char>| #[trigger]
        t.active.contains_key(k) implies t.active[k].id@ == k by {
        if k != id {
            assert(s.active.contains_key(k));
        }
    }
    assert forall|f: Seq<char>| #[trigger]
        t.deduper.entries.contains_key(f) implies t.active.contains_key(
        t.deduper.entries[f].id@,
    ) by {
        if f != fp {
            assert(s.deduper.entries.contains_key(f));
        }
    }
    assert forall|f: Seq<char>| #[trigger]
        t.fp_active.contains_key(f) implies t.active.contains_key(t.fp_active[f]@) by {
        if f != fp {
            assert(s.fp_active.contains_key(f));
        }
    }
    assert forall|k: Seq<char>| #[trigger] t.dirty.contains(k) implies t.active.contains_key(k) by {
        assert(s.dirty.contains(k));
    }
    assert forall|k: Seq<char>| #[trigger]
        t.pending.contains(k) implies t.active.contains_key(k) by {
        if k != id {
            assert(s.pending.contains(k));
        }
    }
    law_repetitions_are_counted(t, fp, times);
}

/// A valid configuration lets at least one incident be escalated: where no escalation is under
/// way, there is a place.
pub proof fn law_valid_configuration_leaves_a_place(cfg: Config, s: IntakeView)
    requires
        cfg.fault() is None,
        s.deduper.cfg == cfg.incidents,
        s.pending == Set::<Seq<char>>::empty(),
    ensures
        s.pending.len() < s.deduper.cfg.max_pending_escalations,
{
}

/// A flush without an interval leaves nothing unwritten, whatever was written before and when.
pub proof fn law_forced_flush_writes_everything(
    s: IntakeView,
    drained: Seq<(String, u64)>,
    now: Timestamp,
)
    ensures
        s.ticked(drained, 0, now).dirty == Set::<Seq<char>>::empty(),
        forall|id: Seq<char>| #[trigger] s.changed(drained, id) ==> s.flushable(id, 0, now),
{
    assert(s.ticked(drained, 0, now).dirty =~= Set::<Seq<char>>::empty());
}

/// What was written at a tick is not written again at a later tick that comes before the interval
/// is over, however often it is seen in between.
pub proof fn law_rewrites_are_throttled(
    s: IntakeView,
    drained: Seq<(String, u64)>,
    interval: int,
    now: Timestamp,
    later: Timestamp,
    id: Seq<char>,
)
    requires
        s.changed(drained, id),
        s.flushable(id, interval, now),
        interval != 0,
        later.since(now) < interval,
    ensures
        !s.ticked(drained, interval, now).flushable(id, interval, later),
{
    let t = s.ticked(drained, interval, now);
    assert(t.last_flush.contains_key(id));
    assert(t.last_flush[id] == now);
}

/// The sum of all counts.
pub open spec fn total(counts: Map<Seq<char>, u64>) -> nat
    decreases counts.dom().len(),
    when counts.dom().finite()
{
    if counts.dom().len() == 0 {
        0
    } else {
        let k = counts.dom().choose();
        total(counts.remove(k)) + counts[k] as nat
    }
}

/// How often each incident was seen.
pub open spec fn tally(active: Map<Seq<char>, Incident>) -> Map<Seq<char>, u64> {
    active.map_values(|inc: Incident| inc.occurrence_count)
}

/// The sum of all counts is the count of `k` and the sum of the others.
proof fn lemma_total_without(counts: Map<Seq<char>, u64>, k: Seq<char>)
    requires
        counts.dom().finite(),
        counts.contains_key(k),
    ensures
        total(counts) == total(counts.remove(k)) + counts[k],
    decreases counts.dom().len(),
{
    let c = counts.dom().choose();
    assert(counts.dom().contains(k));
    assert(counts.dom().contains(c));
    if c != k {
        lemma_total_without(counts.remove(c), k);
        lemma_total_without(counts.remove(k), c);
        assert(counts.remove(c).remove(k) =~= counts.remove(k).remove(c));
    }
}

/// A new count at `k` takes the place of the one before.
proof fn lemma_total_insert(counts: Map<Seq<char>, u64>, k: Seq<char>, n: u64)
    requires
        counts.dom().finite(),
    ensures
        total(counts.insert(k, n)) + if counts.contains_key(k) {
            counts[k] as nat
        } else {
            0
        } == total(counts) + n,
{
    let after = counts.insert(k, n);
    lemma_total_without(after, k);
    if counts.contains_key(k) {
        lemma_total_without(counts, k);
        assert(after.remove(k) =~= counts.remove(k));
    } else {
        assert(after.remove(k) =~= counts);
    }
}

proof fn lemma_tally_insert(active: Map<Seq<char>, Incident>, id: Seq<char>, inc: Incident)
    requires
        active.dom().finite(),
    ensures
        tally(active.insert(id, inc)) == tally(active).insert(id, inc.occurrence_count),
        tally(active).dom().finite(),
        total(tally(active.insert(id, inc))) + if active.contains_key(id) {
            active[id].occurrence_count as nat
        } else {
            0
        } == total(tally(active)) + inc.occurrence_count,
{
    assert(tally(active).dom() =~= active.dom());
    assert(tally(active.insert(id, inc)) =~= tally(active).insert(id, inc.occurrence_count));
    lemma_total_insert(tally(active), id, inc.occurrence_count);
}

/// Every sighting is counted exactly once: one that repeats a known incident adds one to the count
/// of that incident and changes no other, nor what is remembered of another fingerprint.
pub proof fn law_repetition_counts_once(s: IntakeView, fp: Seq<char>, now: Timestamp)
    requires
        s.coherent(),
        s.active.dom().finite(),
        s.countable(fp, now),
        s.deduper.decision(fp, now) is Append,
    ensures
        ({
            let id = s.deduper.decision(fp, now)->Append_id;
            let t = s.counted(id, fp, now);
            &&& total(tally(t.active)) == total(tally(s.active)) + 1
            &&& t.active.dom() == s.active.dom()
            &&& forall|k: Seq<char>|
                k != id && s.active.contains_key(k) ==> #[trigger] t.active[k] == s.active[k]
            &&& forall|f: Seq<char>|
                f != fp ==> #[trigger] t.deduper.remembers_alike(s.deduper, f)
            &&& t.fp_active == s.fp_active
            &&& t.coherent()
        }),
{
    let id = s.deduper.decision(fp, now)->Append_id;
    let t = s.counted(id, fp, now);
    assert(s.deduper.entries.contains_key(fp));
    assert(s.active.contains_key(id));
    lemma_tally_insert(s.active, id, t.active[id]);
    assert(t.active.dom() =~= s.active.dom());
    assert forall|f: Seq<char>| #[trigger]
        t.deduper.entries.contains_key(f) implies t.active.contains_key(
        t.deduper.entries[f].id@,
    ) by {
        assert(s.deduper.entries.contains_key(f));
    }
    assert forall|f: Seq<char>| #[trigger]
        t.fp_active.contains_key(f) implies t.active.contains_key(t.fp_active[f]@) by {
        assert(s.fp_active.contains_key(f));
    }
    assert forall|k: Seq<char>| #[trigger] t.dirty.contains(k) implies t.active.contains_key(k) by {
        if k != id {
            assert(s.dirty.contains(k));
        }
    }
}

/// The state after it was decided to record an incident, and `after` was recorded.
pub open spec fn recorded(
    s: IntakeView,
    fp: Seq<char>,
    after: Incident,
    recurrence: bool,
    now: Timestamp,
    escalated: bool,
) -> IntakeView {
    let decided = IntakeView { deduper: s.deduper.decided(fp, now), ..s };
    IntakeView {
        deduper: decided.registered(fp, after.id, recurrence, after.status, now, escalated),
        ..decided.with_active(fp, after)
    }
}

/// Every sighting is counted exactly once: one that is recorded under an identifier of its own
/// adds what it counts, and takes nothing from another. What is counted towards, and what stands
/// for a fingerprint, is still kept, and nothing changes for other fingerprints.
pub proof fn law_recording_counts_once(
    s: IntakeView,
    fp: Seq<char>,
    after: Incident,
    recurrence: bool,
    now: Timestamp,
    escalated: bool,
)
    requires
        s.coherent(),
        s.active.dom().finite(),
        !s.active.contains_key(after.id@),
    ensures
        ({
            let t = recorded(s, fp, after, recurrence, now, escalated);
            &&& total(tally(t.active)) == total(tally(s.active)) + after.occurrence_count
            &&& t.active.dom() == s.active.dom().insert(after.id@)
            &&& forall|k: Seq<char>|
                s.active.contains_key(k) ==> #[trigger] t.active[k] == s.active[k]
            &&& forall|f: Seq<char>| #[trigger]
                t.deduper.entries.contains_key(f) ==> t.active.contains_key(
                    t.deduper.entries[f].id@,
                )
            &&& forall|f: Seq<char>| #[trigger]
                t.fp_active.contains_key(f) ==> t.active.contains_key(t.fp_active[f]@)
            &&& forall|f: Seq<char>|
                f != fp ==> #[trigger] t.deduper.remembers_alike(s.deduper, f)
            &&& t.deduper.entries.contains_key(fp) && t.deduper.entries[fp].id == after.id
            &&& t.fp_active == s.fp_active.insert(fp, after.id)
        }),
{
    let t = recorded(s, fp, after, recurrence, now, escalated);
    lemma_tally_insert(s.active, after.id@, after);
    assert(t.active.dom() =~= s.active.dom().insert(after.id@));
    assert forall|f: Seq<char>| #[trigger]
        t.deduper.entries.contains_key(f) implies t.active.contains_key(
        t.deduper.entries[f].id@,
    ) by {
        if f != fp {
            assert(s.deduper.entries.contains_key(f));
        }
    }
    assert forall|f: Seq<char>| #[trigger]
        t.fp_active.contains_key(f) implies t.active.contains_key(t.fp_active[f]@) by {
        if f != fp {
            assert(s.fp_active.contains_key(f));
        }
    }
}

/// Whether an escalation is refused or ends, and what is attached to an incident, changes no count.
pub proof fn law_handling_changes_no_count(
    s: IntakeView,
    id: Seq<char>,
    after: Incident,
    status: IncidentStatus,
    reason: Option<Seq<char>>,
    report: Option<EscalationReport>,
    samples: Vec<DiagnosticSample>,
)
    requires
        s.active.dom().finite(),
        s.active.contains_key(id),
    ensures
        restated(after, s.active[id], status, reason) || ended(after, s.active[id], report)
            ==> total(tally(s.active.insert(id, after))) == total(tally(s.active)),
        total(tally(s.with_diagnostics(id, samples).active)) == total(tally(s.active)),
{
    lemma_tally_insert(s.active, id, after);
    lemma_tally_insert(
        s.active,
        id,
        Incident { diagnostics_history: samples, ..s.active[id] },
    );
}

/// The counts after the occurrences of a list were added, and those of the list that stay.
proof fn lemma_list_is_counted(s: IntakeView, list: Seq<(String, u64)>, now: Timestamp)
    requires
        s.coherent(),
        s.active.dom().finite(),
        s.absorbs(list),
        distinct(list),
    ensures
        map_of(list).dom().finite(),
        total(tally(s.topped_up(list, now).active)) + total(
            map_of(list).remove_keys(s.fp_active.dom()),
        ) == total(tally(s.active)) + total(map_of(list)),
    decreases list.len(),
{
    let known = s.fp_active.dom();
    let t = s.topped_up(list, now);
    if list.len() == 0 {
        assert(map_of(list) =~= Map::<Seq<char>, u64>::empty());
        assert(map_of(list).remove_keys(known) =~= Map::<Seq<char>, u64>::empty());
        assert(t.active =~= s.active);
    } else {
        let rest = list.drop_last();
        let (fp, n) = (list.last().0@, list.last().1);
        let u = s.topped_up(rest, now);
        assert forall|id: Seq<char>| #[trigger]
            s.active.contains_key(id) implies s.active[id].occurrence_count + added(
            s.fp_active,
            rest,
            id,
        ) <= u64::MAX by {
            assert(added(s.fp_active, rest, id) <= added(s.fp_active, list, id));
        }
        assert(distinct(rest));
        lemma_list_is_counted(s, rest, now);
        assert forall|j: int| !key_at(rest, fp, j) by {
            if 0 <= j < rest.len() {
                assert(list[j].0@ != list[list.len() - 1].0@);
            }
        }
        lemma_push(rest, list.last());
        assert(rest.push(list.last()) =~= list);
        assert(!map_of(rest).contains_key(fp));
        lemma_total_insert(map_of(rest), fp, n);
        assert(u.active.dom() =~= s.active.dom());
        assert(t.active.dom() =~= s.active.dom());
        if known.contains(fp) {
            let id = s.fp_active[fp]@;
            assert(s.fp_active.contains_key(fp));
            assert(s.active.contains_key(id));
            assert(map_of(list).remove_keys(known) =~= map_of(rest).remove_keys(known));
            assert(s.active[id].occurrence_count + added(s.fp_active, list, id) <= u64::MAX);
            assert(t.active =~= u.active.insert(id, t.active[id])) by {
                assert forall|k: Seq<char>| k != id && s.active.contains_key(k) implies
                    #[trigger] t.active[k] == u.active[k] by {
                    assert(added(s.fp_active, list, k) == added(s.fp_active, rest, k));
                }
            }
            lemma_tally_insert(u.active, id, t.active[id]);
        } else {
            assert(map_of(list).remove_keys(known) =~= map_of(rest).remove_keys(known).insert(
                fp,
                n,
            ));
            assert(map_of(rest).remove_keys(known).dom().subset_of(map_of(rest).dom()));
            vstd::set_lib::lemma_set_subset_finite(
                map_of(rest).dom(),
                map_of(rest).remove_keys(known).dom(),
            );
            lemma_total_insert(map_of(rest).remove_keys(known), fp, n);
            assert(t.active =~= u.active) by {
                assert forall|k: Seq<char>| s.active.contains_key(k) implies
                    #[trigger] t.active[k] == u.active[k] by {
                    assert(added(s.fp_active, list, k) == added(s.fp_active, rest, k));
                }
            }
        }
    }
}

/// No occurrence that found the queue full is lost at a tick: it is counted towards the incident
/// that stands for its fingerprint, or it stays in the overflow. Over all incidents and the
/// overflow together the number of occurrences does not change.
pub proof fn law_overflow_is_counted(
    s: IntakeView,
    overflow: Overflow,
    interval: int,
    now: Timestamp,
    fp: Seq<char>,
)
    requires
        s.coherent(),
        s.active.dom().finite(),
        overflow.wf(),
        s.absorbs(overflow.listed()),
        overflow@.contains_key(fp),
    ensures
        ({
            let t = s.ticked(overflow.listed(), interval, now);
            let left = overflow@.remove_keys(s.fp_active.dom());
            &&& s.fp_active.contains_key(fp) ==> t.active[s.fp_active[fp]@].occurrence_count
                >= s.active[s.fp_active[fp]@].occurrence_count + overflow@[fp]
            &&& s.fp_active.contains_key(fp) ==> !left.contains_key(fp)
            &&& !s.fp_active.contains_key(fp) ==> left.contains_key(fp) && left[fp]
                == overflow@[fp]
            &&& total(tally(t.active)) + total(left) == total(tally(s.active)) + total(overflow@)
        }),
{
    let list = overflow.listed();
    overflow.lemma_listed();
    lemma_list_is_counted(s, list, now);
    if s.fp_active.contains_key(fp) {
        let id = s.fp_active[fp]@;
        assert(s.active.contains_key(id));
        let i = choose|i: int| key_at(list, fp, i);
        assert(key_at(list, fp, i));
        lemma_at(list, i);
        lemma_added_at_least(s.fp_active, list, i, id);
    }
}

proof fn lemma_added_at_least(
    fp_active: Map<Seq<char>, String>,
    drained: Seq<(String, u64)>,
    i: int,
    id: Seq<char>,
)
    requires
        0 <= i < drained.len(),
        fp_active.contains_key(drained[i].0@),
        fp_active[drained[i].0@]@ == id,
    ensures
        added(fp_active, drained, id) >= drained[i].1,
    decreases drained.len(),
{
    if i < drained.len() - 1 {
        lemma_added_at_least(fp_active, drained.drop_last(), i, id);
    }
}

/// An escalation that is refused, or that is not wanted, uses up nothing that the storm guard
/// allows.
pub proof fn law_refusal_costs_nothing(
    s: IntakeView,
    fp: Seq<char>,
    id: String,
    recurrence: bool,
    status: IncidentStatus,
    now: Timestamp,
)
    ensures
        s.registered(fp, id, recurrence, status, now, false).stamps == s.deduper.stamps,
{
}

/// Once the intake is to shut down, it does not go back to work: it empties the queue, writes
/// everything, waits, writes everything again, and ends, in this order and without leaving out a
/// write.
pub proof fn law_shutdown_is_orderly(
    phase: IntakePhase,
    input: IntakeInput,
    since_tick_ms: u64,
    pending: usize,
    now_ms: u64,
    grace_secs: u64,
)
    ensures
        ({
            let next = phase.after(input, since_tick_ms, pending, now_ms, grace_secs);
            &&& phase is Reading && input == IntakeInput::StopRequest ==> next is Emptying
            &&& phase is Polling && input == IntakeInput::QueueClosed ==> next == (
            IntakePhase::Reading { stop: true })
            &&& phase == (IntakePhase::Reading { stop: true }) ==> next is Emptying || next == phase
            &&& phase is Emptying ==> next is Emptying || next is Flushing
            &&& phase is Flushing ==> next is Waiting || next is Ending
            &&& phase is Waiting ==> next is Waiting || next is Ending
            &&& phase is Ending || phase is Closed ==> next is Closed
            &&& next is Closed ==> phase is Ending || phase is Closed
            &&& next is Ending ==> phase is Flushing || phase is Waiting
            &&& next is Waiting ==> phase is Flushing || phase is Waiting
            &&& next is Flushing ==> phase is Emptying
        }),
{
}

/// The intake waits for escalations as long as some have not ended and the grace period is not
/// over, and no longer; the deadline does not move.
pub proof fn law_grace_period_is_kept(
    deadline_ms: u128,
    input: IntakeInput,
    since_tick_ms: u64,
    pending: usize,
    now_ms: u64,
    grace_secs: u64,
)
    ensures
        (IntakePhase::Waiting { deadline_ms }).after(
            input,
            since_tick_ms,
            pending,
            now_ms,
            grace_secs,
        ) == (if pending > 0 && now_ms < deadline_ms {
            (IntakePhase::Waiting { deadline_ms })
        } else {
            IntakePhase::Ending
        }),
        IntakePhase::Flushing.after(input, since_tick_ms, pending, now_ms, grace_secs) == (
        if pending > 0 && grace_secs > 0 {
            (IntakePhase::Waiting { deadline_ms: (now_ms + grace_secs * 1000) as u128 })
        } else {
            IntakePhase::Ending
        }),
{
}

}
