//! Deduplication, cooldown and the storm guard: what to do when an incident is seen.
//!
//! Time is always handed in. The rules, by fingerprint:
//! - A new fingerprint, or one that was never handled and is seen again after the deduplication
//!   window, is a new incident. It is escalated where the storm guard has room.
//! - A fingerprint seen again within the window is appended to the incident it belongs to.
//! - One that was mitigated and is seen again after the window, or that was resolved and is seen
//!   again at any time, is a recurrence. It is escalated once the cooldown is over and the storm
//!   guard has room.
//! - One whose incident is suppressed is escalated as soon as cooldown and storm guard allow it,
//!   and appended until they do.
//!
//! A window of 0 turns deduplication off: whatever is remembered of it, a fingerprint that is seen
//! is a new incident.

use crate::clock::{is_span, span, span_fits, span_nanos, Timestamp, HOUR};
use crate::config::IncidentsConfig;
use crate::incident::IncidentStatus;
use crate::sort::stable_sort;
use crate::table::Table;
use vstd::prelude::*;

verus! {

/// What is remembered of one fingerprint.
#[derive(Debug, Clone)]
pub struct Entry {
    pub id: String,
    pub status: IncidentStatus,
    pub first_seen: Timestamp,
    pub last_seen: Timestamp,
    /// When the fingerprint was last escalated, if ever.
    pub last_escalated: Option<Timestamp>,
}

/// What to do with a detected incident.
#[derive(Debug, Clone, PartialEq, Eq)]
pub enum Decision {
    /// Record it as new and escalate it.
    NewEscalate,
    /// Record it as new without escalating it, for the reason given.
    NewSuppressed(&'static str),
    /// Count it towards the incident `id`.
    Append { id: String },
    /// Record it as new, as a recurrence of `prev`; escalate it, or say why not.
    Recurrence { prev: String, escalate: bool, reason: Option<&'static str> },
}

/// A decision, by what it says.
pub enum DecisionView {
    NewEscalate,
    NewSuppressed(Seq<char>),
    Append { id: Seq<char> },
    Recurrence { prev: Seq<char>, escalate: bool, reason: Option<Seq<char>> },
}

impl View for Decision {
    type V = DecisionView;

    open spec fn view(&self) -> DecisionView {
        match *self {
            Decision::NewEscalate => DecisionView::NewEscalate,
            Decision::NewSuppressed(reason) => DecisionView::NewSuppressed(reason@),
            Decision::Append { id } => DecisionView::Append { id: id@ },
            Decision::Recurrence { prev, escalate, reason } => DecisionView::Recurrence {
                prev: prev@,
                escalate,
                reason: match reason {
                    Some(r) => Some(r@),
                    None => None,
                },
            },
        }
    }
}

/// The escalations of the hour up to `now`.
pub open spec fn recent(stamps: Seq<Timestamp>, now: Timestamp) -> Seq<Timestamp> {
    stamps.filter(|t: Timestamp| t.settled() > now.at() - HOUR)
}

/// Whether another escalation may happen at `now`.
pub open spec fn room(max_per_hour: u32, stamps: Seq<Timestamp>, now: Timestamp) -> bool {
    max_per_hour == 0 || recent(stamps, now).len() < max_per_hour
}

/// Counts the escalations of the last hour, over all fingerprints. A limit of 0 means none.
#[derive(Debug, Clone)]
pub struct StormGuard {
    max_per_hour: u32,
    timestamps: Vec<Timestamp>,
}

impl StormGuard {
    /// The escalations that one hour may see.
    pub closed spec fn limit(&self) -> u32 {
        self.max_per_hour
    }

    /// The escalations that are remembered, the oldest first.
    pub closed spec fn stamps(&self) -> Seq<Timestamp> {
        self.timestamps@
    }

    /// A guard that has seen no escalation.
    pub fn new(max_per_hour: u32) -> (r: Self)
        ensures
            r.limit() == max_per_hour,
            r.stamps().len() == 0,
    {
        StormGuard { max_per_hour, timestamps: Vec::new() }
    }

    /// Forgets the escalations that are an hour old.
    fn evict_old(&mut self, now: Timestamp)
        ensures
            final(self).limit() == old(self).limit(),
            final(self).stamps() == recent(old(self).stamps(), now),
    {
        let cutoff: i128 = now.total_nanos() - HOUR;
        let ghost f = |t: Timestamp| t.settled() > now.at() - HOUR;
        let mut kept: Vec<Timestamp> = Vec::new();
        for i in 0..self.timestamps.len()
            invariant
                cutoff == now.at() - HOUR,
                f == (|t: Timestamp| t.settled() > now.at() - HOUR),
                *self == *old(self),
                kept@ == self.timestamps@.take(i as int).filter(f),
        {
            let t = self.timestamps[i];
            proof {
                self.timestamps@.take(i as int).lemma_filter_push(t, f);
                assert(self.timestamps@.take(i + 1) =~= self.timestamps@.take(i as int).push(t));
            }
            if t.settled_nanos() > cutoff {
                kept.push(t);
            }
        }
        assert(self.timestamps@.take(self.timestamps@.len() as int) =~= self.timestamps@);
        self.timestamps = kept;
    }

    /// Remembers the escalations `timestamps`, but for those that are an hour old.
    fn restore(&mut self, timestamps: Vec<Timestamp>, now: Timestamp)
        ensures
            final(self).limit() == old(self).limit(),
            final(self).stamps() == recent(timestamps@, now),
    {
        self.timestamps = timestamps;
        self.evict_old(now);
    }

    /// Whether another escalation may happen at `now`. None is used up.
    pub fn has_capacity(&mut self, now: Timestamp) -> (r: bool)
        ensures
            r == room(old(self).limit(), old(self).stamps(), now),
            final(self).limit() == old(self).limit(),
            final(self).stamps() == if old(self).limit() == 0 {
                old(self).stamps()
            } else {
                recent(old(self).stamps(), now)
            },
    {
        if self.max_per_hour == 0 {
            return true;
        }
        self.evict_old(now);
        self.timestamps.len() < self.max_per_hour as usize
    }

    /// Remembers an escalation at `now`.
    pub fn consume(&mut self, now: Timestamp)
        ensures
            final(self).limit() == old(self).limit(),
            final(self).stamps() == recent(old(self).stamps(), now).push(now),
    {
        self.evict_old(now);
        self.timestamps.push(now);
    }
}

/// The state that decisions depend on.
pub struct DeduperView {
    /// What is remembered, by fingerprint.
    pub entries: Map<Seq<char>, Entry>,
    /// The escalations that the storm guard remembers.
    pub stamps: Seq<Timestamp>,
    pub cfg: IncidentsConfig,
}

impl Entry {
    /// Whether `now` lies in the deduplication window.
    pub open spec fn in_window(self, cfg: IncidentsConfig, now: Timestamp) -> bool {
        cfg.dedup_window_secs != 0 && now.since(self.last_seen) <= span(cfg.dedup_window_secs)
    }

    /// Whether the cooldown is over at `now`.
    pub open spec fn cooled(self, cfg: IncidentsConfig, now: Timestamp) -> bool {
        match self.last_escalated {
            Some(last) => now.since(last) >= span(cfg.cooldown_secs),
            None => true,
        }
    }

    /// Whether the incident was never handled.
    pub open spec fn unhandled(self) -> bool {
        self.status == IncidentStatus::Open || self.status == IncidentStatus::Escalating
    }

    /// Whether it is a recurrence when the incident is seen again at `now`.
    pub open spec fn recurs(self, cfg: IncidentsConfig, now: Timestamp) -> bool {
        if cfg.dedup_window_secs == 0 {
            false
        } else if self.in_window(cfg, now) {
            self.status == IncidentStatus::Resolved
        } else {
            self.status == IncidentStatus::Resolved || self.status == IncidentStatus::Mitigated
        }
    }

    /// The decision on a recurrence.
    pub open spec fn recurrence(self, cfg: IncidentsConfig, now: Timestamp, room: bool) -> DecisionView {
        if !self.cooled(cfg, now) {
            DecisionView::Recurrence {
                prev: self.id@,
                escalate: false,
                reason: Some("cooldown"@),
            }
        } else if !room {
            DecisionView::Recurrence { prev: self.id@, escalate: false, reason: Some("storm"@) }
        } else {
            DecisionView::Recurrence { prev: self.id@, escalate: true, reason: None }
        }
    }

    /// The decision on a fingerprint that is remembered.
    pub open spec fn decision(self, cfg: IncidentsConfig, now: Timestamp, room: bool) -> DecisionView {
        if cfg.dedup_window_secs == 0 {
            new_decision(room)
        } else if self.status == IncidentStatus::Suppressed {
            if self.cooled(cfg, now) && room {
                DecisionView::Recurrence { prev: self.id@, escalate: true, reason: None }
            } else {
                DecisionView::Append { id: self.id@ }
            }
        } else if self.recurs(cfg, now) {
            self.recurrence(cfg, now, room)
        } else if self.in_window(cfg, now) {
            DecisionView::Append { id: self.id@ }
        } else {
            new_decision(room)
        }
    }

    /// Whether the decision looks at the cooldown.
    pub open spec fn reads_cooldown(self, cfg: IncidentsConfig, now: Timestamp) -> bool {
        cfg.dedup_window_secs != 0 && (self.status == IncidentStatus::Suppressed || self.recurs(
            cfg,
            now,
        ))
    }

    /// Whether the decision asks the storm guard.
    pub open spec fn asks_guard(self, cfg: IncidentsConfig, now: Timestamp) -> bool {
        if self.reads_cooldown(cfg, now) {
            self.cooled(cfg, now)
        } else {
            !self.in_window(cfg, now)
        }
    }

    /// Whether the spans that the decision needs can be held.
    pub open spec fn spans_fit(self, cfg: IncidentsConfig, now: Timestamp) -> bool {
        &&& self.status != IncidentStatus::Suppressed && cfg.dedup_window_secs != 0 ==> span_fits(
            cfg.dedup_window_secs,
        )
        &&& self.reads_cooldown(cfg, now) && self.last_escalated is Some ==> span_fits(
            cfg.cooldown_secs,
        )
    }
}

/// The decision on a new incident.
pub open spec fn new_decision(room: bool) -> DecisionView {
    if room {
        DecisionView::NewEscalate
    } else {
        DecisionView::NewSuppressed("storm"@)
    }
}

impl DeduperView {
    /// Whether the storm guard has room at `now`.
    pub open spec fn room(self, now: Timestamp) -> bool {
        room(self.cfg.max_escalations_per_hour, self.stamps, now)
    }

    /// The decision on fingerprint `fp`, seen at `now`.
    pub open spec fn decision(self, fp: Seq<char>, now: Timestamp) -> DecisionView {
        if self.entries.contains_key(fp) {
            self.entries[fp].decision(self.cfg, now, self.room(now))
        } else {
            new_decision(self.room(now))
        }
    }

    /// Whether the spans that the decision needs can be held.
    pub open spec fn decidable(self, fp: Seq<char>, now: Timestamp) -> bool {
        self.entries.contains_key(fp) ==> self.entries[fp].spans_fit(self.cfg, now)
    }

    /// Whether the decision asks the storm guard.
    pub open spec fn asks_guard(self, fp: Seq<char>, now: Timestamp) -> bool {
        self.entries.contains_key(fp) ==> self.entries[fp].asks_guard(self.cfg, now)
    }

    /// The state after the storm guard was asked: with a limit, it forgets what is an hour old.
    pub open spec fn asked(self, now: Timestamp) -> DeduperView {
        if self.cfg.max_escalations_per_hour != 0 {
            DeduperView { stamps: recent(self.stamps, now), ..self }
        } else {
            self
        }
    }

    /// The state after a decision.
    pub open spec fn decided(self, fp: Seq<char>, now: Timestamp) -> DeduperView {
        if self.asks_guard(fp, now) {
            self.asked(now)
        } else {
            self
        }
    }

    /// The storm guard's memory after an escalation at `now`, or as it was.
    pub open spec fn stamped(self, now: Timestamp, escalated: bool) -> Seq<Timestamp> {
        if escalated {
            recent(self.stamps, now).push(now)
        } else {
            self.stamps
        }
    }

    /// The state after a new incident was recorded.
    pub open spec fn with_new(
        self,
        fp: Seq<char>,
        id: String,
        status: IncidentStatus,
        now: Timestamp,
        escalated: bool,
    ) -> DeduperView {
        DeduperView {
            entries: self.entries.insert(
                fp,
                Entry {
                    id,
                    status,
                    first_seen: now,
                    last_seen: now,
                    last_escalated: if escalated {
                        Some(now)
                    } else {
                        None
                    },
                },
            ),
            stamps: self.stamped(now, escalated),
            cfg: self.cfg,
        }
    }

    /// The state after a repetition was counted.
    pub open spec fn with_append(self, fp: Seq<char>, now: Timestamp) -> DeduperView {
        if self.entries.contains_key(fp) {
            DeduperView {
                entries: self.entries.insert(fp, Entry { last_seen: now, ..self.entries[fp] }),
                ..self
            }
        } else {
            self
        }
    }

    /// The state after a recurrence was recorded.
    pub open spec fn with_recurrence(
        self,
        fp: Seq<char>,
        id: String,
        status: IncidentStatus,
        now: Timestamp,
        escalated: bool,
    ) -> DeduperView {
        DeduperView {
            entries: self.entries.insert(
                fp,
                Entry {
                    id,
                    status,
                    first_seen: now,
                    last_seen: now,
                    last_escalated: if escalated {
                        Some(now)
                    } else if self.entries.contains_key(fp) {
                        self.entries[fp].last_escalated
                    } else {
                        None
                    },
                },
            ),
            stamps: self.stamped(now, escalated),
            cfg: self.cfg,
        }
    }

    /// The state after the status of a fingerprint has changed.
    pub open spec fn with_status(self, fp: Seq<char>, status: IncidentStatus) -> DeduperView {
        if self.entries.contains_key(fp) {
            DeduperView {
                entries: self.entries.insert(fp, Entry { status, ..self.entries[fp] }),
                ..self
            }
        } else {
            self
        }
    }

    /// Whether the incident of `fp` counts as resolved at `now`, for it was not seen for so long.
    pub open spec fn due(self, fp: Seq<char>, now: Timestamp) -> bool {
        &&& self.entries.contains_key(fp)
        &&& self.entries[fp].status == IncidentStatus::Open || self.entries[fp].status
            == IncidentStatus::Mitigated || self.entries[fp].status == IncidentStatus::Suppressed
        &&& now.since(self.entries[fp].last_seen) > span(self.cfg.resolve_after_secs)
    }

    /// Whether `order` lists the fingerprints that are due, the longest unseen first.
    pub open spec fn due_order(self, now: Timestamp, order: Seq<Seq<char>>) -> bool {
        &&& order.no_duplicates()
        &&& forall|fp: Seq<char>| order.contains(fp) <==> #[trigger] self.due(fp, now)
        &&& forall|i: int, j: int|
            0 <= i < j < order.len() ==> self.entries[#[trigger] order[i]].last_seen.rank()
                <= self.entries[#[trigger] order[j]].last_seen.rank()
    }

    /// After how long a resolved incident is forgotten.
    pub open spec fn horizon(self) -> u64 {
        if self.cfg.cooldown_secs > self.cfg.resolve_after_secs {
            self.cfg.cooldown_secs
        } else {
            self.cfg.resolve_after_secs
        }
    }

    /// Whether what is remembered of `fp` may be forgotten at `now`.
    pub open spec fn expired(self, fp: Seq<char>, now: Timestamp) -> bool {
        &&& self.entries.contains_key(fp)
        &&& self.entries[fp].status == IncidentStatus::Resolved
        &&& now.since(self.entries[fp].last_seen) > span(self.horizon())
    }

    /// The state without what may be forgotten.
    pub open spec fn pruned(self, now: Timestamp) -> DeduperView {
        DeduperView {
            entries: self.entries.remove_keys(
                self.entries.dom().filter(|fp: Seq<char>| self.expired(fp, now)),
            ),
            ..self
        }
    }
}

/// The deduplication state, by fingerprint.
pub struct Deduper {
    entries: Table<Entry>,
    storm: StormGuard,
    cfg: IncidentsConfig,
}

impl View for Deduper {
    type V = DeduperView;

    closed spec fn view(&self) -> DeduperView {
        DeduperView { entries: self.entries@, stamps: self.storm.stamps(), cfg: self.cfg }
    }
}

impl Deduper {
    /// Whether the storm guard goes by the configuration and no fingerprint occurs twice.
    pub closed spec fn wf(&self) -> bool {
        self.entries.wf() && self.storm.limit() == self.cfg.max_escalations_per_hour
    }

    /// Nothing is remembered yet.
    pub fn new(cfg: IncidentsConfig) -> (r: Self)
        ensures
            r.wf(),
            r@ == (DeduperView { entries: Map::empty(), stamps: Seq::empty(), cfg }),
    {
        let storm = StormGuard::new(cfg.max_escalations_per_hour);
        let r = Deduper { entries: Table::new(), storm, cfg };
        assert(r.storm.stamps() =~= Seq::<Timestamp>::empty());
        r
    }

    /// The deduplication window in nanoseconds.
    fn dedup_window(&self) -> (r: i128)
        requires
            span_fits(self.cfg.dedup_window_secs),
        ensures
            r == span(self.cfg.dedup_window_secs),
    {
        span_nanos(self.cfg.dedup_window_secs)
    }

    /// The cooldown in nanoseconds.
    fn cooldown(&self) -> (r: i128)
        requires
            span_fits(self.cfg.cooldown_secs),
        ensures
            r == span(self.cfg.cooldown_secs),
    {
        span_nanos(self.cfg.cooldown_secs)
    }

    /// Decides what to do with an incident whose fingerprint `fp` is seen at `now`.
    ///
    /// What is remembered of the fingerprints stays as it is: the caller reports with exactly one
    /// of `on_new`, `on_append` and `on_recurrence` what came of the decision.
    pub fn decide(&mut self, fp: &str, now: Timestamp) -> (r: Decision)
        requires
            old(self).wf(),
            old(self)@.decidable(fp@, now),
        ensures
            final(self).wf(),
            r@ == old(self)@.decision(fp@, now),
            old(self)@.cfg.dedup_window_secs == 0 ==> r@ == new_decision(old(self)@.room(now)),
            final(self)@ == old(self)@.decided(fp@, now),
    {
        if self.cfg.dedup_window_secs == 0 {
            return self.decide_new(now);
        }
        let entry: Entry = match self.entries.get(fp) {
            Some(e) => copy_entry(e),
            None => {
                return self.decide_new(now);
            },
        };
        if entry.status == IncidentStatus::Suppressed {
            return self.decide_suppressed(&entry, now);
        }
        let within_window = now.nanos_since(&entry.last_seen) <= self.dedup_window();
        let never_mitigated = entry.status == IncidentStatus::Open || entry.status
            == IncidentStatus::Escalating;
        if within_window {
            if entry.status == IncidentStatus::Resolved {
                return self.decide_recurrence(&entry, now);
            }
            return Decision::Append { id: entry.id };
        }
        if never_mitigated {
            return self.decide_new(now);
        }
        self.decide_recurrence(&entry, now)
    }

    /// Whether the spans that the decision on `fp` needs can be held.
    pub fn can_decide(&self, fp: &str, now: Timestamp) -> (r: bool)
        requires
            self.wf(),
        ensures
            r == self@.decidable(fp@, now),
    {
        if self.cfg.dedup_window_secs == 0 {
            return true;
        }
        match self.entries.get(fp) {
            None => true,
            Some(e) => {
                if e.status != IncidentStatus::Suppressed {
                    if !is_span(self.cfg.dedup_window_secs) {
                        return false;
                    }
                    let within_window = now.nanos_since(&e.last_seen) <= self.dedup_window();
                    let recurs = e.status == IncidentStatus::Resolved || (!within_window && e.status
                        == IncidentStatus::Mitigated);
                    if !recurs {
                        return true;
                    }
                }
                e.last_escalated.is_none() || is_span(self.cfg.cooldown_secs)
            },
        }
    }

    /// Whether the cooldown of `entry` is over at `now`.
    fn cooldown_over(&self, entry: &Entry, now: Timestamp) -> (r: bool)
        requires
            entry.last_escalated is Some ==> span_fits(self.cfg.cooldown_secs),
        ensures
            r == entry.cooled(self.cfg, now),
    {
        match entry.last_escalated {
            None => true,
            Some(last) => now.nanos_since(&last) >= self.cooldown(),
        }
    }

    fn decide_suppressed(&mut self, entry: &Entry, now: Timestamp) -> (r: Decision)
        requires
            old(self).wf(),
            old(self)@.cfg.dedup_window_secs != 0,
            entry.status == IncidentStatus::Suppressed,
            entry.spans_fit(old(self)@.cfg, now),
        ensures
            final(self).wf(),
            r@ == entry.decision(old(self)@.cfg, now, old(self)@.room(now)),
            final(self)@ == (if entry.cooled(old(self)@.cfg, now) {
                old(self)@.asked(now)
            } else {
                old(self)@
            }),
    {
        if self.cooldown_over(entry, now) && self.storm.has_capacity(now) {
            Decision::Recurrence { prev: entry.id.clone(), escalate: true, reason: None }
        } else {
            Decision::Append { id: entry.id.clone() }
        }
    }

    fn decide_new(&mut self, now: Timestamp) -> (r: Decision)
        requires
            old(self).wf(),
        ensures
            final(self).wf(),
            r@ == new_decision(old(self)@.room(now)),
            final(self)@ == old(self)@.asked(now),
    {
        if self.storm.has_capacity(now) {
            Decision::NewEscalate
        } else {
            Decision::NewSuppressed("storm")
        }
    }

    fn decide_recurrence(&mut self, entry: &Entry, now: Timestamp) -> (r: Decision)
        requires
            old(self).wf(),
            entry.last_escalated is Some ==> span_fits(old(self)@.cfg.cooldown_secs),
        ensures
            final(self).wf(),
            r@ == entry.recurrence(old(self)@.cfg, now, old(self)@.room(now)),
            final(self)@ == (if entry.cooled(old(self)@.cfg, now) {
                old(self)@.asked(now)
            } else {
                old(self)@
            }),
    {
        if !self.cooldown_over(entry, now) {
            return Decision::Recurrence {
                prev: entry.id.clone(),
                escalate: false,
                reason: Some("cooldown"),
            };
        }
        if !self.storm.has_capacity(now) {
            return Decision::Recurrence {
                prev: entry.id.clone(),
                escalate: false,
                reason: Some("storm"),
            };
        }
        Decision::Recurrence { prev: entry.id.clone(), escalate: true, reason: None }
    }

    /// Reports that a new incident `id` was recorded.
    pub fn on_new(
        &mut self,
        fp: String,
        id: String,
        status: IncidentStatus,
        now: Timestamp,
        escalated: bool,
    )
        requires
            old(self).wf(),
        ensures
            final(self).wf(),
            final(self)@ == old(self)@.with_new(fp@, id, status, now, escalated),
    {
        if escalated {
            self.storm.consume(now);
        }
        let last_escalated: Option<Timestamp> = if escalated {
            Some(now)
        } else {
            None
        };
        self.entries.insert(
            fp,
            Entry { id, status, first_seen: now, last_seen: now, last_escalated },
        );
    }

    /// Reports that an incident was counted towards the one that is remembered.
    pub fn on_append(&mut self, fp: &str, now: Timestamp)
        requires
            old(self).wf(),
        ensures
            final(self).wf(),
            final(self)@ == old(self)@.with_append(fp@, now),
    {
        let found = match self.entries.get(fp) {
            Some(e) => Some(copy_entry(e)),
            None => None,
        };
        if let Some(e) = found {
            let mut entry = e;
            entry.last_seen = now;
            self.entries.insert(fp.to_string(), entry);
        }
    }

    /// Reports that a recurrence was recorded as incident `new_id`, which now stands for the
    /// fingerprint.
    pub fn on_recurrence(
        &mut self,
        fp: String,
        new_id: String,
        status: IncidentStatus,
        now: Timestamp,
        escalated: bool,
    )
        requires
            old(self).wf(),
        ensures
            final(self).wf(),
            final(self)@ == old(self)@.with_recurrence(fp@, new_id, status, now, escalated),
    {
        let last_escalated: Option<Timestamp> = if escalated {
            self.storm.consume(now);
            Some(now)
        } else {
            match self.entries.get(fp.as_str()) {
                Some(e) => e.last_escalated,
                None => None,
            }
        };
        self.entries.insert(
            fp,
            Entry { id: new_id, status, first_seen: now, last_seen: now, last_escalated },
        );
    }

    /// Changes the status of the incident that stands for `fp`, if there is one.
    pub fn set_status(&mut self, fp: &str, status: IncidentStatus)
        requires
            old(self).wf(),
        ensures
            final(self).wf(),
            final(self)@ == old(self)@.with_status(fp@, status),
    {
        let found = match self.entries.get(fp) {
            Some(e) => Some(copy_entry(e)),
            None => None,
        };
        if let Some(e) = found {
            let mut entry = e;
            entry.status = status;
            self.entries.insert(fp.to_string(), entry);
        }
    }

    /// Remembers `entry` for `fp`, without any effect on the storm guard.
    pub fn restore(&mut self, fp: String, entry: Entry)
        requires
            old(self).wf(),
        ensures
            final(self).wf(),
            final(self)@ == (DeduperView {
                entries: old(self)@.entries.insert(fp@, entry),
                ..old(self)@
            }),
    {
        self.entries.insert(fp, entry);
    }

    /// Tells the storm guard which escalations happened before, but for those an hour old.
    pub fn seed_storm(&mut self, timestamps: Vec<Timestamp>, now: Timestamp)
        requires
            old(self).wf(),
        ensures
            final(self).wf(),
            final(self)@ == (DeduperView { stamps: recent(timestamps@, now), ..old(self)@ }),
    {
        self.storm.restore(timestamps, now);
    }

    /// The incidents that count as resolved at `now`, for they were not seen for so long. The one
    /// longest unseen comes first. The caller marks them and reports it with `set_status`.
    pub fn resolve_due(&self, now: Timestamp) -> (r: Vec<String>)
        requires
            self.wf(),
            span_fits(self@.cfg.resolve_after_secs),
        ensures
            exists|order: Seq<Seq<char>>| #[trigger]
                self@.due_order(now, order) && r@.len() == order.len() && forall|i: int|
                    0 <= i < order.len() ==> (#[trigger] r@[i])@ == self@.entries[order[i]].id@,
    {
        let threshold: i128 = span_nanos(self.cfg.resolve_after_secs);
        let n: usize = self.entries.len();
        let ghost keys = self.entries.keys();
        let ghost key = |i: usize| self@.entries[keys[i as int]].last_seen.rank();
        let mut picked: Vec<(i128, usize)> = Vec::new();
        proof {
            self.entries.lemma_keys();
        }
        for i in 0..n
            invariant
                n == keys.len(),
                keys == self.entries.keys(),
                self.wf(),
                self.entries.wf(),
                threshold == span(self@.cfg.resolve_after_secs),
                key == (|i: usize| self@.entries[keys[i as int]].last_seen.rank()),
                forall|j: int| #![trigger picked@[j]]
                    0 <= j < picked@.len() ==> picked@[j].1 < i && picked@[j].0 == key(picked@[j].1)
                        && self@.due(keys[picked@[j].1 as int], now),
                forall|j: int, k: int|
                    0 <= j < k < picked@.len() ==> (#[trigger] picked@[j]).1 < (
                    #[trigger] picked@[k]).1,
                forall|m: int|
                    0 <= m < i && self@.due(#[trigger] keys[m], now) ==> exists|j: int|
                        0 <= j < picked@.len() && (#[trigger] picked@[j]).1 == m,
        {
            let (_, e) = self.entries.entry(i);
            let ghost before = picked@;
            let open = e.status == IncidentStatus::Open || e.status == IncidentStatus::Mitigated
                || e.status == IncidentStatus::Suppressed;
            if open && now.nanos_since(&e.last_seen) > threshold {
                picked.push((e.last_seen.ranked(), i));
                assert(picked@.last().1 == i);
            }
            assert forall|m: int|
                0 <= m < i + 1 && self@.due(#[trigger] keys[m], now) implies exists|j: int|
                    0 <= j < picked@.len() && (#[trigger] picked@[j]).1 == m by {
                if m < i {
                    let j = choose|j: int| 0 <= j < before.len() && (#[trigger] before[j]).1 == m;
                    assert(picked@[j] == before[j]);
                } else {
                    assert(picked@[picked@.len() - 1].1 == m);
                }
            }
        }
        let ghost plain = picked@.map_values(|p: (i128, usize)| p.1);
        let order = stable_sort(picked, Ghost(key));
        let ghost fps = order@.map_values(|i: usize| keys[i as int]);
        proof {
            broadcast use vstd::seq_lib::group_to_multiset_ensures;

            assert(plain.no_duplicates());
            plain.lemma_multiset_has_no_duplicates();
            order@.lemma_multiset_has_no_duplicates_conv();
            assert forall|i: usize| order@.contains(i) <==> #[trigger] plain.contains(i) by {
                assert(order@.to_multiset().count(i) == plain.to_multiset().count(i));
            }
            assert forall|j: int| 0 <= j < order@.len() implies (#[trigger] order@[j]) < n
                && self@.due(keys[order@[j] as int], now) by {
                assert(plain.contains(order@[j]));
                let k = choose|k: int| 0 <= k < plain.len() && plain[k] == order@[j];
                assert(picked@[k].1 == order@[j]);
            }
            assert(fps.no_duplicates()) by {
                assert forall|a: int, b: int|
                    0 <= a < fps.len() && 0 <= b < fps.len() && a != b implies fps[a] != fps[b] by {
                    assert(order@[a] != order@[b]);
                }
            }
            assert forall|fp: Seq<char>| fps.contains(fp) <==> #[trigger] self@.due(fp, now) by {
                if fps.contains(fp) {
                    let j = choose|j: int| 0 <= j < fps.len() && fps[j] == fp;
                    assert(self@.due(keys[order@[j] as int], now));
                }
                if self@.due(fp, now) {
                    assert(self.entries@.contains_key(fp));
                    assert(keys.contains(fp));
                    let m = choose|m: int| 0 <= m < keys.len() && keys[m] == fp;
                    let k = choose|k: int| 0 <= k < picked@.len() && (#[trigger] picked@[k]).1 == m;
                    assert(plain[k] == m);
                    assert(plain.contains(m as usize));
                    assert(order@.contains(m as usize));
                    let j = choose|j: int| 0 <= j < order@.len() && order@[j] == m as usize;
                    assert(fps[j] == fp);
                }
            }
            assert forall|i: int, j: int| 0 <= i < j < fps.len() implies self@.entries[
            #[trigger] fps[i]].last_seen.rank() <= self@.entries[#[trigger] fps[j]].last_seen.rank() by {
                assert(key(order@[i]) <= key(order@[j]));
            }
            assert(self@.due_order(now, fps));
        }
        let mut out: Vec<String> = Vec::new();
        for i in 0..order.len()
            invariant
                n == keys.len(),
                keys == self.entries.keys(),
                self.wf(),
                self.entries.wf(),
                fps == order@.map_values(|i: usize| keys[i as int]),
                forall|j: int| 0 <= j < order@.len() ==> (#[trigger] order@[j]) < n,
                out@.len() == i,
                forall|j: int|
                    0 <= j < i ==> (#[trigger] out@[j])@ == self@.entries[fps[j]].id@,
        {
            let (_, e) = self.entries.entry(order[i]);
            out.push(e.id.clone());
        }
        out
    }

    /// Forgets the resolved incidents that were not seen for longer than both the cooldown and
    /// the time after which an incident counts as resolved.
    pub fn prune_expired(&mut self, now: Timestamp)
        requires
            old(self).wf(),
            span_fits(old(self)@.horizon()),
        ensures
            final(self).wf(),
            final(self)@ == old(self)@.pruned(now),
    {
        let horizon_secs: u64 = if self.cfg.cooldown_secs > self.cfg.resolve_after_secs {
            self.cfg.cooldown_secs
        } else {
            self.cfg.resolve_after_secs
        };
        let horizon: i128 = span_nanos(horizon_secs);
        let n: usize = self.entries.len();
        let ghost keys = self.entries.keys();
        let ghost before = self@;
        let ghost gone = before.entries.dom().filter(|fp: Seq<char>| before.expired(fp, now));
        let mut expired: Vec<String> = Vec::new();
        proof {
            self.entries.lemma_keys();
        }
        for i in 0..n
            invariant
                n == keys.len(),
                keys == self.entries.keys(),
                *self == *old(self),
                self.wf(),
                self.entries.wf(),
                before == self@,
                horizon == span(before.horizon()),
                forall|j: int|
                    0 <= j < expired@.len() ==> before.expired((#[trigger] expired@[j])@, now),
                forall|m: int|
                    0 <= m < i && before.expired(#[trigger] keys[m], now) ==> exists|j: int|
                        0 <= j < expired@.len() && (#[trigger] expired@[j])@ == keys[m],
        {
            let (fp, e) = self.entries.entry(i);
            let ghost was = expired@;
            if e.status == IncidentStatus::Resolved && now.nanos_since(&e.last_seen)
                > horizon {
                expired.push(fp.clone());
                assert(expired@.last()@ == keys[i as int]);
            }
            assert forall|m: int|
                0 <= m < i + 1 && before.expired(#[trigger] keys[m], now) implies exists|j: int|
                    0 <= j < expired@.len() && (#[trigger] expired@[j])@ == keys[m] by {
                if m < i {
                    let j = choose|j: int| 0 <= j < was.len() && (#[trigger] was[j])@ == keys[m];
                    assert(expired@[j] == was[j]);
                } else {
                    assert(expired@[expired@.len() - 1]@ == keys[m]);
                }
            }
        }
        assert(self.entries@.remove_keys(named(expired@, 0)) =~= self.entries@);
        for i in 0..expired.len()
            invariant
                self.entries.wf(),
                self.storm == old(self).storm,
                self.cfg == old(self).cfg,
                self.entries@ == old(self).entries@.remove_keys(named(expired@, i as int)),
        {
            let _ = self.entries.remove(expired[i].as_str());
            proof {
                let fp = expired@[i as int]@;
                assert forall|k: Seq<char>| #[trigger]
                    named(expired@, i + 1).contains(k) == (named(expired@, i as int).contains(k)
                        || k == fp) by {
                    if named(expired@, i as int).contains(k) {
                        let j = choose|j: int| 0 <= j < i && (#[trigger] expired@[j])@ == k;
                        assert(0 <= j < i + 1 && expired@[j]@ == k);
                    }
                    assert(expired@[i as int]@ == fp);
                }
                assert(self.entries@ =~= old(self).entries@.remove_keys(named(expired@, i + 1)));
            }
        }
        proof {
            assert forall|fp: Seq<char>| #[trigger]
                old(self).entries@.contains_key(fp) implies (gone.contains(fp) <==> named(
                expired@,
                expired@.len() as int,
            ).contains(fp)) by {
                assert(keys.contains(fp));
                let m = choose|m: int| 0 <= m < keys.len() && keys[m] == fp;
                assert(before.expired(keys[m], now) == before.expired(fp, now));
            }
            assert(self.entries@ =~= before.entries.remove_keys(gone));
        }
    }
}

/// The first `n` strings of a list.
spec fn named(list: Seq<String>, n: int) -> Set<Seq<char>> {
    Set::new(|k: Seq<char>| exists|j: int| 0 <= j < n && (#[trigger] list[j])@ == k)
}

/// A copy of `e`.
fn copy_entry(e: &Entry) -> (r: Entry)
    ensures
        r == *e,
{
    Entry {
        id: e.id.clone(),
        status: e.status,
        first_seen: e.first_seen,
        last_seen: e.last_seen,
        last_escalated: e.last_escalated,
    }
}

}
