//! What deduplication decides, told by the state of the incident, the seconds that have passed and
//! the configured numbers.
//!
//! The laws speak of instants outside leap seconds, and of spans that can be held.

use crate::clock::{Timestamp, HOUR};
use crate::dedup::{recent, room, DecisionView, DeduperView};
use crate::incident::IncidentStatus;
use vstd::prelude::*;

verus! {

/// The nanoseconds from `u` to `t`, where neither lies in a leap second.
pub open spec fn elapsed(t: Timestamp, u: Timestamp) -> int {
    (t.secs - u.secs) * 1_000_000_000 + (t.nanos - u.nanos)
}

/// Whether `t` lies outside leap seconds.
pub open spec fn ordinary(t: Timestamp) -> bool {
    t.nanos < 1_000_000_000
}

/// Whether the window and the cooldown can be held, deduplication is on, `fp` is remembered, and
/// the instants that count lie outside leap seconds.
pub open spec fn ordinary_case(s: DeduperView, fp: Seq<char>, now: Timestamp) -> bool {
    &&& s.entries.contains_key(fp)
    &&& 0 < s.cfg.dedup_window_secs <= 9_223_372_036_854_775
    &&& s.cfg.cooldown_secs <= 9_223_372_036_854_775
    &&& ordinary(now)
    &&& ordinary(s.entries[fp].last_seen)
    &&& s.entries[fp].last_escalated matches Some(t) ==> ordinary(t)
}

/// A fingerprint that is not remembered is a new incident: it is escalated where the storm guard
/// has room, and suppressed for the storm where it has none.
pub proof fn law_unknown_is_new(s: DeduperView, fp: Seq<char>, now: Timestamp)
    requires
        !s.entries.contains_key(fp),
    ensures
        s.room(now) ==> s.decision(fp, now) == DecisionView::NewEscalate,
        !s.room(now) ==> s.decision(fp, now) == DecisionView::NewSuppressed("storm"@),
{
}

/// An incident that is open or being escalated, and was last seen longer ago than the window, was
/// never dealt with: seen again, it is a new incident, which is escalated where the storm guard
/// has room.
pub proof fn law_unhandled_is_new_after_the_window(s: DeduperView, fp: Seq<char>, now: Timestamp)
    requires
        ordinary_case(s, fp, now),
        s.entries[fp].status == IncidentStatus::Open || s.entries[fp].status
            == IncidentStatus::Escalating,
        elapsed(now, s.entries[fp].last_seen) > s.cfg.dedup_window_secs * 1_000_000_000,
    ensures
        s.room(now) ==> s.decision(fp, now) == DecisionView::NewEscalate,
        !s.room(now) ==> s.decision(fp, now) == DecisionView::NewSuppressed("storm"@),
{
}

/// An incident that is open, being escalated or mitigated counts what is seen of it up to and at
/// the end of the window.
pub proof fn law_repetition_in_the_window_is_counted(s: DeduperView, fp: Seq<char>, now: Timestamp)
    requires
        ordinary_case(s, fp, now),
        s.entries[fp].status == IncidentStatus::Open || s.entries[fp].status
            == IncidentStatus::Escalating || s.entries[fp].status == IncidentStatus::Mitigated,
        elapsed(now, s.entries[fp].last_seen) <= s.cfg.dedup_window_secs * 1_000_000_000,
    ensures
        s.decision(fp, now) == (DecisionView::Append { id: s.entries[fp].id@ }),
{
}

/// A recurrence comes only from an incident that was mitigated, resolved or suppressed, and names
/// it.
pub proof fn law_recurrence_needs_an_incident_that_was_handled(
    s: DeduperView,
    fp: Seq<char>,
    now: Timestamp,
)
    requires
        s.decision(fp, now) is Recurrence,
    ensures
        s.entries.contains_key(fp),
        s.entries[fp].status == IncidentStatus::Mitigated || s.entries[fp].status
            == IncidentStatus::Resolved || s.entries[fp].status == IncidentStatus::Suppressed,
        s.decision(fp, now)->prev == s.entries[fp].id@,
        s.cfg.dedup_window_secs != 0,
{
}

/// Something is counted only towards the incident that is remembered for the fingerprint.
pub proof fn law_counted_towards_what_is_remembered(s: DeduperView, fp: Seq<char>, now: Timestamp)
    requires
        s.decision(fp, now) is Append,
    ensures
        s.entries.contains_key(fp),
        s.decision(fp, now)->Append_id == s.entries[fp].id@,
        s.entries[fp].status != IncidentStatus::Resolved,
        s.cfg.dedup_window_secs != 0,
{
}

/// What was mitigated and is seen after the window, or was resolved and is seen at any time, is a
/// recurrence. It is escalated where it was never escalated, or as many seconds ago as the cooldown
/// has, and the storm guard has room; else the cooldown is named as the reason before the storm.
pub proof fn law_handled_recurs(s: DeduperView, fp: Seq<char>, now: Timestamp)
    requires
        ordinary_case(s, fp, now),
        s.entries[fp].status == IncidentStatus::Resolved || (s.entries[fp].status
            == IncidentStatus::Mitigated && elapsed(now, s.entries[fp].last_seen)
            > s.cfg.dedup_window_secs * 1_000_000_000),
    ensures
        ({
            let over = match s.entries[fp].last_escalated {
                Some(t) => elapsed(now, t) >= s.cfg.cooldown_secs * 1_000_000_000,
                None => true,
            };
            let prev = s.entries[fp].id@;
            &&& !over ==> s.decision(fp, now) == (DecisionView::Recurrence {
                prev,
                escalate: false,
                reason: Some("cooldown"@),
            })
            &&& over && !s.room(now) ==> s.decision(fp, now) == (DecisionView::Recurrence {
                prev,
                escalate: false,
                reason: Some("storm"@),
            })
            &&& over && s.room(now) ==> s.decision(fp, now) == (DecisionView::Recurrence {
                prev,
                escalate: true,
                reason: None,
            })
        }),
{
}

/// A suppressed incident is escalated as a recurrence once the cooldown is over and the storm
/// guard has room, within the window or after it, and counts what is seen of it until then.
pub proof fn law_suppressed_waits(s: DeduperView, fp: Seq<char>, now: Timestamp)
    requires
        ordinary_case(s, fp, now),
        s.entries[fp].status == IncidentStatus::Suppressed,
    ensures
        ({
            let over = match s.entries[fp].last_escalated {
                Some(t) => elapsed(now, t) >= s.cfg.cooldown_secs * 1_000_000_000,
                None => true,
            };
            let id = s.entries[fp].id@;
            &&& over && s.room(now) ==> s.decision(fp, now) == (DecisionView::Recurrence {
                prev: id,
                escalate: true,
                reason: None,
            })
            &&& !over || !s.room(now) ==> s.decision(fp, now) == (DecisionView::Append { id })
        }),
{
}

/// A window of 0 makes every sighting new, whatever the status and the times are.
pub proof fn law_window_zero(s: DeduperView, fp: Seq<char>, now: Timestamp)
    requires
        s.cfg.dedup_window_secs == 0,
    ensures
        s.room(now) ==> s.decision(fp, now) == DecisionView::NewEscalate,
        !s.room(now) ==> s.decision(fp, now) == DecisionView::NewSuppressed("storm"@),
        s.decidable(fp, now),
{
}

/// Every decision can be made where the window and the cooldown are no more than milliseconds can
/// hold.
pub proof fn law_every_decision_can_be_made(s: DeduperView, fp: Seq<char>, now: Timestamp)
    requires
        s.cfg.dedup_window_secs <= 9_223_372_036_854_775,
        s.cfg.cooldown_secs <= 9_223_372_036_854_775,
    ensures
        s.decidable(fp, now),
{
}

/// A limit of 0 is none. As long as fewer escalations are remembered than the limit, there is
/// room.
pub proof fn law_room_below_the_limit(max_per_hour: u32, stamps: Seq<Timestamp>, now: Timestamp)
    requires
        max_per_hour == 0 || stamps.len() < max_per_hour,
    ensures
        room(max_per_hour, stamps, now),
{
    let f = |t: Timestamp| t.settled() > now.at() - 3_600_000_000_000;
    stamps.lemma_filter_len(f);
}

/// An escalation uses up its place for an hour: where as many as the limit are less than an hour
/// old, there is no room.
pub proof fn law_no_room_within_the_hour(max_per_hour: u32, stamps: Seq<Timestamp>, now: Timestamp)
    requires
        max_per_hour > 0,
        stamps.len() >= max_per_hour,
        ordinary(now),
        forall|i: int|
            0 <= i < stamps.len() ==> ordinary(#[trigger] stamps[i]) && elapsed(now, stamps[i])
                < 3600 * 1_000_000_000,
    ensures
        !room(max_per_hour, stamps, now),
{
    lemma_all_recent(stamps, now);
}

proof fn lemma_all_recent(stamps: Seq<Timestamp>, now: Timestamp)
    requires
        ordinary(now),
        forall|i: int|
            0 <= i < stamps.len() ==> ordinary(#[trigger] stamps[i]) && elapsed(now, stamps[i])
                < 3600 * 1_000_000_000,
    ensures
        recent(stamps, now) == stamps,
    decreases stamps.len(),
{
    reveal(Seq::filter);
    if stamps.len() > 0 {
        let rest = stamps.drop_last();
        assert forall|i: int| 0 <= i < rest.len() implies ordinary(#[trigger] rest[i]) && elapsed(
            now,
            rest[i],
        ) < 3600 * 1_000_000_000 by {
            assert(rest[i] == stamps[i]);
        }
        lemma_all_recent(rest, now);
        let last = stamps[stamps.len() - 1];
        assert(ordinary(last));
        assert(rest.push(last) =~= stamps);
    }
}

/// An escalation that is an hour old no longer counts.
pub proof fn law_place_is_free_after_an_hour(
    max_per_hour: u32,
    stamps: Seq<Timestamp>,
    old: Timestamp,
    now: Timestamp,
)
    requires
        ordinary(now),
        ordinary(old),
        elapsed(now, old) >= 3600 * 1_000_000_000,
    ensures
        room(max_per_hour, stamps.push(old), now) == room(max_per_hour, stamps, now),
{
    let f = |t: Timestamp| t.settled() > now.at() - 3_600_000_000_000;
    stamps.lemma_filter_push(old, f);
}

/// A decision changes nothing that is remembered of fingerprints, nor the configuration, and the
/// storm guard keeps every escalation of the hour.
pub proof fn law_deciding_keeps_what_is_remembered(
    s: DeduperView,
    fp: Seq<char>,
    now: Timestamp,
    i: int,
)
    requires
        ordinary(now),
        0 <= i < s.stamps.len(),
        ordinary(s.stamps[i]),
        elapsed(now, s.stamps[i]) < 3600 * 1_000_000_000,
    ensures
        s.decided(fp, now).entries == s.entries,
        s.decided(fp, now).cfg == s.cfg,
        s.decided(fp, now).stamps.contains(s.stamps[i]),
{
    let f = |t: Timestamp| t.settled() > now.at() - 3_600_000_000_000;
    assert(f(s.stamps[i]));
    s.stamps.lemma_filter_contains(f, i);
}

/// What is remembered of a new incident: its identifier and status, that it was first and last seen
/// now, and that it was escalated now or never. Nothing else that is remembered changes, and the
/// storm guard is told of an escalation and of nothing else.
pub proof fn law_new_incident_is_remembered(
    s: DeduperView,
    fp: Seq<char>,
    other: Seq<char>,
    id: String,
    status: IncidentStatus,
    now: Timestamp,
)
    requires
        fp != other,
    ensures
        ({
            let t = s.with_new(fp, id, status, now, true);
            let e = t.entries[fp];
            &&& t.entries.contains_key(fp)
            &&& e.id == id && e.status == status && e.first_seen == now && e.last_seen == now
            &&& e.last_escalated == Some(now)
            &&& t.stamps.len() > 0 && t.stamps.last() == now
            &&& t.cfg == s.cfg
            &&& t.entries.contains_key(other) == s.entries.contains_key(other)
            &&& s.entries.contains_key(other) ==> t.entries[other] == s.entries[other]
        }),
        ({
            let t = s.with_new(fp, id, status, now, false);
            let e = t.entries[fp];
            &&& t.entries.contains_key(fp)
            &&& e.id == id && e.status == status && e.first_seen == now && e.last_seen == now
            &&& e.last_escalated is None
            &&& t.stamps == s.stamps
            &&& t.cfg == s.cfg
            &&& t.entries.contains_key(other) == s.entries.contains_key(other)
            &&& s.entries.contains_key(other) ==> t.entries[other] == s.entries[other]
        }),
{
}

/// What is remembered of a recurrence is what is remembered of a new incident, but that one which
/// is not escalated keeps the time of the escalation before it, so that the cooldown goes on.
pub proof fn law_recurrence_is_remembered(
    s: DeduperView,
    fp: Seq<char>,
    other: Seq<char>,
    id: String,
    status: IncidentStatus,
    now: Timestamp,
)
    requires
        fp != other,
        s.entries.contains_key(fp),
    ensures
        s.with_recurrence(fp, id, status, now, true) == s.with_new(fp, id, status, now, true),
        ({
            let t = s.with_recurrence(fp, id, status, now, false);
            let e = t.entries[fp];
            &&& t.entries.contains_key(fp)
            &&& e.id == id && e.status == status && e.first_seen == now && e.last_seen == now
            &&& e.last_escalated == s.entries[fp].last_escalated
            &&& t.stamps == s.stamps
            &&& t.cfg == s.cfg
            &&& t.entries.contains_key(other) == s.entries.contains_key(other)
            &&& s.entries.contains_key(other) ==> t.entries[other] == s.entries[other]
        }),
{
}

/// A repetition moves the time at which the fingerprint was last seen, and nothing else. A change
/// of status changes the status, and nothing else. Of a fingerprint that is not remembered, neither
/// changes anything.
pub proof fn law_repetition_and_status_change_one_thing(
    s: DeduperView,
    fp: Seq<char>,
    status: IncidentStatus,
    now: Timestamp,
)
    ensures
        !s.entries.contains_key(fp) ==> s.with_append(fp, now) == s && s.with_status(fp, status)
            == s,
        s.entries.contains_key(fp) ==> {
            let e = s.entries[fp];
            let a = s.with_append(fp, now);
            let c = s.with_status(fp, status);
            &&& a.entries.dom() == s.entries.dom() && c.entries.dom() == s.entries.dom()
            &&& a.stamps == s.stamps && c.stamps == s.stamps && a.cfg == s.cfg && c.cfg == s.cfg
            &&& a.entries[fp].last_seen == now
            &&& a.entries[fp].id == e.id && a.entries[fp].status == e.status
            &&& a.entries[fp].first_seen == e.first_seen
            &&& a.entries[fp].last_escalated == e.last_escalated
            &&& c.entries[fp].status == status
            &&& c.entries[fp].id == e.id && c.entries[fp].last_seen == e.last_seen
            &&& c.entries[fp].first_seen == e.first_seen
            &&& c.entries[fp].last_escalated == e.last_escalated
            &&& forall|f: Seq<char>| #[trigger]
                s.entries.contains_key(f) && f != fp ==> a.entries[f] == s.entries[f]
                    && c.entries[f] == s.entries[f]
        },
{
    if s.entries.contains_key(fp) {
        assert(s.with_append(fp, now).entries.dom() =~= s.entries.dom());
        assert(s.with_status(fp, status).entries.dom() =~= s.entries.dom());
    }
}

/// An incident counts as resolved where it is open, mitigated or suppressed and was not seen for
/// more than the configured seconds. One that is being escalated, or resolved already, does not.
pub proof fn law_quiet_incidents_are_due(s: DeduperView, fp: Seq<char>, now: Timestamp)
    requires
        s.entries.contains_key(fp),
        s.cfg.resolve_after_secs <= 9_223_372_036_854_775,
        ordinary(now),
        ordinary(s.entries[fp].last_seen),
    ensures
        s.entries[fp].status == IncidentStatus::Escalating ==> !s.due(fp, now),
        s.entries[fp].status == IncidentStatus::Resolved ==> !s.due(fp, now),
        s.entries[fp].status == IncidentStatus::Open || s.entries[fp].status
            == IncidentStatus::Mitigated || s.entries[fp].status == IncidentStatus::Suppressed ==> (
        s.due(fp, now) <==> elapsed(now, s.entries[fp].last_seen) > s.cfg.resolve_after_secs
            * 1_000_000_000),
{
}

/// The list of what is due names each fingerprint that is due once and no other, and none that was
/// seen after the ones that follow it.
pub proof fn law_longest_unseen_is_first(
    s: DeduperView,
    now: Timestamp,
    order: Seq<Seq<char>>,
    i: int,
    j: int,
    fp: Seq<char>,
)
    requires
        s.due_order(now, order),
        0 <= i < j < order.len(),
    ensures
        order[i] != order[j],
        s.due(order[i], now),
        s.due(fp, now) ==> order.contains(fp),
        ({
            let a = s.entries[order[i]].last_seen;
            let b = s.entries[order[j]].last_seen;
            a.secs < b.secs || (a.secs == b.secs && a.nanos <= b.nanos)
        }),
{
    assert(order.contains(order[i]));
}

/// Only a resolved incident is forgotten, and only when it was not seen for longer than both the
/// cooldown and the time after which an incident counts as resolved; everything else is remembered
/// as it was.
pub proof fn law_only_old_resolved_incidents_are_forgotten(
    s: DeduperView,
    fp: Seq<char>,
    now: Timestamp,
)
    requires
        s.entries.contains_key(fp),
        s.cfg.resolve_after_secs <= 9_223_372_036_854_775,
        s.cfg.cooldown_secs <= 9_223_372_036_854_775,
        ordinary(now),
        ordinary(s.entries[fp].last_seen),
    ensures
        !s.pruned(now).entries.contains_key(fp) <==> s.entries[fp].status
            == IncidentStatus::Resolved && elapsed(now, s.entries[fp].last_seen)
            > s.cfg.cooldown_secs * 1_000_000_000 && elapsed(now, s.entries[fp].last_seen)
            > s.cfg.resolve_after_secs * 1_000_000_000,
        s.pruned(now).entries.contains_key(fp) ==> s.pruned(now).entries[fp] == s.entries[fp],
        s.pruned(now).stamps == s.stamps,
        s.pruned(now).cfg == s.cfg,
{
}

/// Forgetting invents nothing.
pub proof fn law_forgetting_invents_nothing(s: DeduperView, fp: Seq<char>, now: Timestamp)
    requires
        s.pruned(now).entries.contains_key(fp),
    ensures
        s.entries.contains_key(fp),
{
}

proof fn lemma_recent_twice(stamps: Seq<Timestamp>, now: Timestamp, later: Timestamp)
    requires
        now.at() <= later.at(),
    ensures
        recent(recent(stamps, now), later) == recent(stamps, later),
    decreases stamps.len(),
{
    let f = |t: Timestamp| t.settled() > now.at() - HOUR;
    let g = |t: Timestamp| t.settled() > later.at() - HOUR;
    reveal(Seq::filter);
    if stamps.len() > 0 {
        let rest = stamps.drop_last();
        let t = stamps.last();
        lemma_recent_twice(rest, now, later);
        if f(t) {
            assert(recent(stamps, now) == recent(rest, now).push(t));
            recent(rest, now).lemma_filter_push(t, g);
        }
    }
}

/// What the storm guard forgets at a decision makes no difference to it, then or later.
pub proof fn law_deciding_frees_no_place(
    s: DeduperView,
    fp: Seq<char>,
    now: Timestamp,
    later: Timestamp,
)
    requires
        now.at() <= later.at(),
    ensures
        s.decided(fp, now).room(later) == s.room(later),
{
    lemma_recent_twice(s.stamps, now, later);
}

/// A decision cannot be made where it needs a span that cannot be held: the window, unless the
/// incident is suppressed, and the cooldown of a suppressed incident that was escalated. Without
/// deduplication, and of a fingerprint that is not remembered, every decision can be made.
pub proof fn law_decisions_that_cannot_be_made(s: DeduperView, fp: Seq<char>, now: Timestamp)
    ensures
        !s.entries.contains_key(fp) || s.cfg.dedup_window_secs == 0 ==> s.decidable(fp, now),
        s.entries.contains_key(fp) && s.entries[fp].status != IncidentStatus::Suppressed
            && 9_223_372_036_854_775 < s.cfg.dedup_window_secs < 0x8000_0000_0000_0000
            ==> !s.decidable(fp, now),
        s.entries.contains_key(fp) && s.entries[fp].status == IncidentStatus::Suppressed
            && s.cfg.dedup_window_secs != 0 ==> {
            &&& s.entries[fp].last_escalated is None ==> s.decidable(fp, now)
            &&& s.cfg.cooldown_secs <= 9_223_372_036_854_775 ==> s.decidable(fp, now)
            &&& s.entries[fp].last_escalated is Some && 9_223_372_036_854_775
                < s.cfg.cooldown_secs < 0x8000_0000_0000_0000 ==> !s.decidable(fp, now)
        },
{
}

/// A decision on a fingerprint that is not remembered asks the storm guard, which with a limit then
/// forgets what is an hour old; without a limit it forgets nothing.
pub proof fn law_storm_guard_is_asked_about_the_unknown(
    s: DeduperView,
    fp: Seq<char>,
    now: Timestamp,
)
    requires
        !s.entries.contains_key(fp),
    ensures
        s.cfg.max_escalations_per_hour == 0 ==> s.decided(fp, now).stamps == s.stamps,
        s.cfg.max_escalations_per_hour > 0 ==> s.decided(fp, now).stamps == recent(s.stamps, now),
{
}

}
