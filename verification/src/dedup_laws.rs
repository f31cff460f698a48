//! What deduplication promises over several calls.

use crate::clock::{span_fits, Timestamp, HOUR, SPAN_MAX_SECS};
use crate::dedup::{new_decision, recent, room, DecisionView, DeduperView, Entry};
use crate::incident::IncidentStatus;
use vstd::prelude::*;

verus! {

impl DecisionView {
    /// Whether the decision is to escalate.
    pub open spec fn escalates(self) -> bool {
        match self {
            DecisionView::NewEscalate => true,
            DecisionView::Recurrence { escalate, .. } => escalate,
            _ => false,
        }
    }
}

/// Where the configured spans can be held, every decision can be made.
pub proof fn law_decidable(s: DeduperView, fp: Seq<char>, now: Timestamp)
    requires
        span_fits(s.cfg.dedup_window_secs),
        span_fits(s.cfg.cooldown_secs),
    ensures
        s.decidable(fp, now),
{
}

proof fn lemma_recent_twice(stamps: Seq<Timestamp>, now: Timestamp, later: Timestamp)
    requires
        now.at() <= later.at(),
    ensures
        recent(recent(stamps, now), later) == recent(stamps, later),
    decreases stamps.len(),
{
    reveal(Seq::filter);
    if stamps.len() > 0 {
        let f = |t: Timestamp| t.settled() > now.at() - HOUR;
        let g = |t: Timestamp| t.settled() > later.at() - HOUR;
        let rest = stamps.drop_last();
        lemma_recent_twice(rest, now, later);
        rest.filter(f).lemma_filter_push(stamps.last(), g);
    }
}

/// A decision changes no later decision, on any fingerprint: what the storm guard forgets when it
/// is asked was no longer of account.
pub proof fn law_deciding_changes_no_decision(
    s: DeduperView,
    fp: Seq<char>,
    now: Timestamp,
    other: Seq<char>,
    later: Timestamp,
)
    requires
        now.at() <= later.at(),
    ensures
        s.decided(fp, now).decision(other, later) == s.decision(other, later),
{
    lemma_recent_twice(s.stamps, now, later);
}

/// A repetition within the window is counted towards the incident that stands for the
/// fingerprint, unless that one was resolved or is suppressed.
pub proof fn law_repetition_is_appended(s: DeduperView, fp: Seq<char>, now: Timestamp)
    requires
        s.entries.contains_key(fp),
        s.entries[fp].in_window(s.cfg, now),
        s.entries[fp].status != IncidentStatus::Resolved,
        s.entries[fp].status != IncidentStatus::Suppressed,
    ensures
        s.decision(fp, now) == (DecisionView::Append { id: s.entries[fp].id@ }),
{
}

/// The state after the fingerprint was seen at each of `times` and counted each time.
pub open spec fn seen_at(s: DeduperView, fp: Seq<char>, times: Seq<Timestamp>) -> DeduperView
    decreases times.len(),
{
    if times.len() == 0 {
        s
    } else {
        seen_at(s, fp, times.drop_last()).decided(fp, times.last()).with_append(fp, times.last())
    }
}

/// Whether no two sightings in a row lie further apart than the window.
pub open spec fn close_together(s: DeduperView, fp: Seq<char>, times: Seq<Timestamp>) -> bool {
    forall|i: int|
        0 <= i < times.len() ==> s.entries[fp].with_last_seen(
            if i == 0 {
                s.entries[fp].last_seen
            } else {
                times[i - 1]
            },
        ).in_window(s.cfg, #[trigger] times[i])
}

impl Entry {
    /// This entry, last seen at `t`.
    pub open spec fn with_last_seen(self, t: Timestamp) -> Entry {
        Entry { last_seen: t, ..self }
    }
}

/// However often a fingerprint is seen again, each time within the window of the time before, all
/// of it is counted towards one incident: it is recorded once and escalated once.
pub proof fn law_one_incident_for_all_repetitions(
    s: DeduperView,
    fp: Seq<char>,
    times: Seq<Timestamp>,
    k: int,
)
    requires
        s.entries.contains_key(fp),
        s.entries[fp].status != IncidentStatus::Resolved,
        s.entries[fp].status != IncidentStatus::Suppressed,
        close_together(s, fp, times),
        0 <= k < times.len(),
    ensures
        seen_at(s, fp, times.take(k)).decision(fp, times[k]) == (DecisionView::Append {
            id: s.entries[fp].id@,
        }),
{
    lemma_seen_at(s, fp, times.take(k));
    let t = seen_at(s, fp, times.take(k));
    let last = if k == 0 {
        s.entries[fp].last_seen
    } else {
        times[k - 1]
    };
    assert(k > 0 ==> times.take(k).last() == times[k - 1]);
    assert(t.entries[fp] == s.entries[fp].with_last_seen(last));
    assert(s.entries[fp].with_last_seen(last).in_window(s.cfg, times[k]));
}

proof fn lemma_seen_at(s: DeduperView, fp: Seq<char>, times: Seq<Timestamp>)
    requires
        s.entries.contains_key(fp),
    ensures
        seen_at(s, fp, times).cfg == s.cfg,
        seen_at(s, fp, times).entries.contains_key(fp),
        seen_at(s, fp, times).entries[fp] == s.entries[fp].with_last_seen(
            if times.len() == 0 {
                s.entries[fp].last_seen
            } else {
                times.last()
            },
        ),
    decreases times.len(),
{
    if times.len() > 0 {
        lemma_seen_at(s, fp, times.drop_last());
    }
}

/// With deduplication turned off every sighting is a new incident, whatever is remembered of its
/// fingerprint. Nothing is counted towards an earlier incident.
pub proof fn law_no_window_always_new(s: DeduperView, fp: Seq<char>, now: Timestamp)
    requires
        s.cfg.dedup_window_secs == 0,
    ensures
        s.decision(fp, now) == new_decision(s.room(now)),
        !(s.decision(fp, now) is Append),
{
}

/// A suppressed incident is looked at anew each time it is seen: it is escalated as soon as the
/// cooldown is over and the storm guard has room, and until then every sighting is counted
/// towards it.
pub proof fn law_suppression_ends(s: DeduperView, fp: Seq<char>, now: Timestamp)
    requires
        s.cfg.dedup_window_secs != 0,
        s.entries.contains_key(fp),
        s.entries[fp].status == IncidentStatus::Suppressed,
    ensures
        s.decision(fp, now) == if s.entries[fp].cooled(s.cfg, now) && s.room(now) {
            DecisionView::Recurrence { prev: s.entries[fp].id@, escalate: true, reason: None }
        } else {
            DecisionView::Append { id: s.entries[fp].id@ }
        },
{
}

/// What was resolved and is seen again is a recurrence, within the window and after it.
pub proof fn law_resolved_recurs(s: DeduperView, fp: Seq<char>, now: Timestamp)
    requires
        s.cfg.dedup_window_secs != 0,
        s.entries.contains_key(fp),
        s.entries[fp].status == IncidentStatus::Resolved,
    ensures
        s.decision(fp, now) matches DecisionView::Recurrence { prev, .. } && prev
            == s.entries[fp].id@,
{
}

/// Once a due incident is marked resolved it is no longer due.
pub proof fn law_resolved_is_not_due(s: DeduperView, fp: Seq<char>, now: Timestamp)
    ensures
        !s.with_status(fp, IncidentStatus::Resolved).due(fp, now),
{
}

/// No recurrence is escalated before the cooldown is over.
pub proof fn law_cooldown_holds(s: DeduperView, fp: Seq<char>, now: Timestamp)
    requires
        s.cfg.dedup_window_secs != 0,
        s.entries.contains_key(fp),
        !s.entries[fp].unhandled(),
        !s.entries[fp].cooled(s.cfg, now),
    ensures
        !s.decision(fp, now).escalates(),
{
}

/// What is recorded of one fingerprint leaves what is remembered of the others as it was.
pub proof fn law_fingerprints_are_independent(
    s: DeduperView,
    fp: Seq<char>,
    other: Seq<char>,
    id: String,
    status: IncidentStatus,
    now: Timestamp,
    escalated: bool,
)
    requires
        fp != other,
    ensures
        s.with_new(fp, id, status, now, escalated).remembers_alike(s, other),
        s.with_recurrence(fp, id, status, now, escalated).remembers_alike(s, other),
        s.with_append(fp, now).remembers_alike(s, other),
        s.with_status(fp, status).remembers_alike(s, other),
        s.decided(fp, now).remembers_alike(s, other),
{
}

impl DeduperView {
    /// Whether both states remember the same of `fp`.
    pub open spec fn remembers_alike(self, s: DeduperView, fp: Seq<char>) -> bool {
        &&& self.entries.contains_key(fp) == s.entries.contains_key(fp)
        &&& s.entries.contains_key(fp) ==> self.entries[fp] == s.entries[fp]
    }
}

/// What may be forgotten at `now` makes no difference to whether a later sighting is escalated:
/// only the link to the earlier incident is lost.
pub proof fn law_pruning_is_harmless(
    s: DeduperView,
    fp: Seq<char>,
    now: Timestamp,
    later: Timestamp,
)
    requires
        s.expired(fp, now),
        now.since(s.entries[fp].last_seen) <= later.since(s.entries[fp].last_seen),
        s.cfg.dedup_window_secs <= s.cfg.resolve_after_secs <= SPAN_MAX_SECS,
        s.cfg.cooldown_secs <= SPAN_MAX_SECS,
        s.entries[fp].last_escalated matches Some(t) ==> later.since(s.entries[fp].last_seen)
            <= later.since(t),
    ensures
        s.pruned(now).decision(fp, later) == new_decision(s.room(later)),
        s.cfg.dedup_window_secs != 0 ==> s.decision(fp, later) == (DecisionView::Recurrence {
            prev: s.entries[fp].id@,
            escalate: s.room(later),
            reason: if s.room(later) {
                None
            } else {
                Some("storm"@)
            },
        }),
        s.pruned(now).decision(fp, later).escalates() == s.decision(fp, later).escalates(),
{
}

/// Only what the storm guard has room for is escalated.
pub proof fn law_escalation_needs_room(s: DeduperView, fp: Seq<char>, now: Timestamp)
    requires
        s.decision(fp, now).escalates(),
    ensures
        s.room(now),
{
}

/// Whether the storm guard counts at `now` and ever after as if it remembered all of `history`.
pub open spec fn remembers(stamps: Seq<Timestamp>, history: Seq<Timestamp>, now: Timestamp) -> bool {
    forall|t: Timestamp| t.at() >= now.at() ==> #[trigger] recent(stamps, t) == recent(history, t)
}

/// The storm guard forgets nothing of account when a decision asks it.
pub proof fn law_guard_remembers_through_decisions(
    s: DeduperView,
    history: Seq<Timestamp>,
    before: Timestamp,
    fp: Seq<char>,
    now: Timestamp,
)
    requires
        remembers(s.stamps, history, before),
        before.at() <= now.at(),
    ensures
        remembers(s.decided(fp, now).stamps, history, now),
        s.room(now) == room(s.cfg.max_escalations_per_hour, history, now),
{
    assert(recent(s.stamps, now) == recent(history, now));
    assert forall|t: Timestamp| t.at() >= now.at() implies #[trigger] recent(
        s.decided(fp, now).stamps,
        t,
    ) == recent(history, t) by {
        lemma_recent_twice(s.stamps, now, t);
        assert(recent(s.stamps, t) == recent(history, t));
    }
}

/// The storm guard counts every escalation that is recorded.
pub proof fn law_guard_remembers_escalations(
    s: DeduperView,
    history: Seq<Timestamp>,
    before: Timestamp,
    now: Timestamp,
    escalated: bool,
)
    requires
        remembers(s.stamps, history, before),
        before.at() <= now.at(),
    ensures
        remembers(
            s.stamped(now, escalated),
            if escalated {
                history.push(now)
            } else {
                history
            },
            now,
        ),
{
    let after = s.stamped(now, escalated);
    let all = if escalated {
        history.push(now)
    } else {
        history
    };
    assert forall|t: Timestamp| t.at() >= now.at() implies #[trigger] recent(after, t) == recent(
        all,
        t,
    ) by {
        let f = |x: Timestamp| x.settled() > t.at() - HOUR;
        assert(recent(s.stamps, t) == recent(history, t));
        if escalated {
            recent(s.stamps, now).lemma_filter_push(now, f);
            history.lemma_filter_push(now, f);
            lemma_recent_twice(s.stamps, now, t);
        }
    }
}

/// The instants of the hour that ends at `t`.
pub open spec fn in_hour(t: Timestamp) -> spec_fn(Timestamp) -> bool {
    |x: Timestamp| t.at() - HOUR < x.settled() && x.at() <= t.at()
}

/// Where each escalation had room when it happened, no hour sees more escalations than the limit.
pub proof fn law_storm_guard_limits_every_hour(
    max_per_hour: u32,
    history: Seq<Timestamp>,
    t: Timestamp,
)
    requires
        max_per_hour > 0,
        forall|i: int, j: int|
            0 <= i < j < history.len() ==> (#[trigger] history[i]).at() <= (
            #[trigger] history[j]).at(),
        forall|i: int|
            0 <= i < history.len() ==> room(max_per_hour, history.take(i), #[trigger] history[i]),
    ensures
        history.filter(in_hour(t)).len() <= max_per_hour,
    decreases history.len(),
{
    reveal(Seq::filter);
    if history.len() > 0 {
        let rest = history.drop_last();
        let last = history.last();
        let n = history.len() - 1;
        assert forall|i: int| 0 <= i < rest.len() implies room(
            max_per_hour,
            rest.take(i),
            #[trigger] rest[i],
        ) by {
            assert(rest.take(i) =~= history.take(i));
            assert(rest[i] == history[i]);
        }
        assert forall|i: int, j: int| 0 <= i < j < rest.len() implies (#[trigger] rest[i]).at() <= (
        #[trigger] rest[j]).at() by {
            assert(rest[i] == history[i] && rest[j] == history[j]);
        }
        law_storm_guard_limits_every_hour(max_per_hour, rest, t);
        if in_hour(t)(last) {
            assert(history.take(n) =~= rest);
            assert(room(max_per_hour, history.take(n), history[n]));
            lemma_fewer(
                rest,
                in_hour(t),
                |x: Timestamp| x.settled() > last.at() - HOUR,
            );
        }
    }
}

proof fn lemma_fewer(s: Seq<Timestamp>, f: spec_fn(Timestamp) -> bool, g: spec_fn(Timestamp) -> bool)
    requires
        forall|x: Timestamp| #[trigger] f(x) ==> g(x),
    ensures
        s.filter(f).len() <= s.filter(g).len(),
    decreases s.len(),
{
    reveal(Seq::filter);
    if s.len() > 0 {
        lemma_fewer(s.drop_last(), f, g);
        assert(f(s.last()) ==> g(s.last()));
    }
}

/// Where an incident counts as resolved no sooner than the window is over, as a valid
/// configuration has it, no incident counts as resolved while a repetition would still be counted
/// towards it.
pub proof fn law_resolution_waits_for_the_window(s: DeduperView, fp: Seq<char>, now: Timestamp)
    requires
        s.cfg.resolve_after_secs >= s.cfg.dedup_window_secs,
        s.cfg.resolve_after_secs <= SPAN_MAX_SECS,
        s.due(fp, now),
    ensures
        !s.entries[fp].in_window(s.cfg, now),
{
}

}
