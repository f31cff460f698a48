//! Recording: what is kept of the incidents that are seen, what is written of them and when, and
//! which of them are escalated.
//!
//! Detection never waits: an incident that finds the queue full is counted in `Overflow`, until an
//! incident with its fingerprint is known and takes over the count. One thread owns the
//! `IntakeState`, performs the effects that its methods ask for, and hands the escalations to a
//! worker. Where that thread stands is an `IntakePhase`.

use crate::clock::Timestamp;
use crate::config::IncidentsConfig;
use crate::dedup::{Decision, DecisionView, Deduper, DeduperView};
use crate::incident::{DiagnosticSample, EscalationReport, Incident, IncidentStatus};
use crate::table::{distinct, key_at, lemma_push, map_of, Table};
use crate::text::{opt_view, views};
use vstd::prelude::*;

verus! {

/// What is to be done with an incident that has changed.
#[derive(Debug, Clone, Copy, PartialEq, Eq, Structural)]
pub enum Effect {
    /// Take the diagnostic values of the moment, and attach them to it.
    SnapshotDiagnostics,
    /// Write it to disk.
    WriteJson,
    /// Write its report.
    RenderMarkdown,
    /// Send it to the collector.
    PushCentral,
}

/// What is done with an incident that is recorded, in this order.
pub open spec fn recording_effects() -> Seq<Effect> {
    seq![
        Effect::SnapshotDiagnostics,
        Effect::WriteJson,
        Effect::RenderMarkdown,
        Effect::PushCentral,
    ]
}

/// What is done with an incident whose escalation has ended, in this order.
pub open spec fn ending_effects() -> Seq<Effect> {
    seq![Effect::WriteJson, Effect::RenderMarkdown, Effect::PushCentral]
}

fn effects_of_ending() -> (r: Vec<Effect>)
    ensures
        r@ == ending_effects(),
{
    let mut r: Vec<Effect> = Vec::new();
    r.push(Effect::WriteJson);
    r.push(Effect::RenderMarkdown);
    r.push(Effect::PushCentral);
    assert(r@ =~= ending_effects());
    r
}

fn effects_of_recording() -> (r: Vec<Effect>)
    ensures
        r@ == recording_effects(),
{
    let mut r: Vec<Effect> = Vec::new();
    r.push(Effect::SnapshotDiagnostics);
    r.push(Effect::WriteJson);
    r.push(Effect::RenderMarkdown);
    r.push(Effect::PushCentral);
    assert(r@ =~= recording_effects());
    r
}

/// How an incident is to be recorded.
pub struct Plan {
    pub fp: String,
    pub incident: Incident,
    /// Why it is not to be escalated; `None` where it is.
    pub suppressed: Option<&'static str>,
    /// Whether it repeats an incident that was dealt with.
    pub recurrence: bool,
}

/// What became of an incident that was seen.
pub enum Detected {
    /// It was counted towards one that is known.
    Counted,
    /// It is to be recorded.
    Record(Plan),
}

/// An escalation that is offered to the worker.
pub struct Offer {
    pub id: String,
    pub fp: String,
    pub recurrence: bool,
    /// Whether there is a place for it.
    pub has_capacity: bool,
}

/// What is to be done after an incident was recorded.
pub struct Recorded {
    pub effects: Vec<Effect>,
    pub offer: Option<Offer>,
}

/// The fingerprint under which an incident is known.
pub open spec fn fp_of(inc: Incident) -> Seq<char> {
    match inc.fingerprint {
        Some(fp) => fp@,
        None => Seq::empty(),
    }
}

/// What an optional reason says.
pub open spec fn reason_view(reason: Option<&'static str>) -> Option<Seq<char>> {
    match reason {
        Some(r) => Some(r@),
        None => None,
    }
}

/// Why an incident is not to be escalated by a decision that records it.
pub open spec fn suppression(d: DecisionView) -> Option<Seq<char>> {
    match d {
        DecisionView::NewSuppressed(reason) => Some(reason),
        DecisionView::Recurrence { escalate, reason, .. } => if escalate {
            None
        } else {
            match reason {
                Some(r) => Some(r),
                None => Some("recurrence"@),
            }
        },
        _ => None,
    }
}

impl Plan {
    /// Whether this is how `inc` is to be recorded by decision `d`.
    pub open spec fn follows(self, inc: Incident, d: DecisionView) -> bool {
        &&& self.fp@ == fp_of(inc)
        &&& self.incident == (Incident { recurrence_of: self.incident.recurrence_of, ..inc })
        &&& opt_view(self.incident.recurrence_of) == (match d {
            DecisionView::Recurrence { prev, .. } => Some(prev),
            _ => opt_view(inc.recurrence_of),
        })
        &&& reason_view(self.suppressed) == suppression(d)
        &&& self.recurrence == d is Recurrence
    }
}

/// Whether `after` is `before` with another status, for the reason given.
pub open spec fn restated(
    after: Incident,
    before: Incident,
    status: IncidentStatus,
    reason: Option<Seq<char>>,
) -> bool {
    &&& after == (Incident { status, status_reason: after.status_reason, ..before })
    &&& opt_view(after.status_reason) == reason
}

/// What the intake knows.
pub struct IntakeView {
    pub deduper: DeduperView,
    /// The incidents, by identifier.
    pub active: Map<Seq<char>, Incident>,
    /// The identifier of the incident that stands for a fingerprint.
    pub fp_active: Map<Seq<char>, String>,
    /// The incidents that have changed since they were written.
    pub dirty: Set<Seq<char>>,
    /// When an incident was last written for having changed.
    pub last_flush: Map<Seq<char>, Timestamp>,
    /// The incidents whose escalation has not ended.
    pub pending: Set<Seq<char>>,
}

/// How many of the occurrences in `drained` belong to incident `id`.
pub open spec fn added(
    fp_active: Map<Seq<char>, String>,
    drained: Seq<(String, u64)>,
    id: Seq<char>,
) -> nat
    decreases drained.len(),
{
    if drained.len() == 0 {
        0
    } else {
        let rest = added(fp_active, drained.drop_last(), id);
        let fp = drained.last().0@;
        if fp_active.contains_key(fp) && fp_active[fp]@ == id {
            rest + drained.last().1 as nat
        } else {
            rest
        }
    }
}

impl IntakeView {
    /// The state after a fingerprint was counted towards incident `id`.
    pub open spec fn counted(self, id: Seq<char>, fp: Seq<char>, now: Timestamp) -> IntakeView {
        IntakeView {
            deduper: self.deduper.decided(fp, now).with_append(fp, now),
            active: if self.active.contains_key(id) {
                self.active.insert(
                    id,
                    Incident {
                        occurrence_count: (self.active[id].occurrence_count + 1) as u64,
                        last_seen: Some(now),
                        ..self.active[id]
                    },
                )
            } else {
                self.active
            },
            dirty: self.dirty.insert(id),
            ..self
        }
    }

    /// Whether the count of the incident that `fp` may be counted towards can grow.
    pub open spec fn countable(self, fp: Seq<char>, now: Timestamp) -> bool {
        match self.deduper.decision(fp, now) {
            DecisionView::Append { id } => self.active.contains_key(id)
                ==> self.active[id].occurrence_count < u64::MAX,
            _ => true,
        }
    }

    /// The deduplication state after incident `id` was recorded.
    pub open spec fn registered(
        self,
        fp: Seq<char>,
        id: String,
        recurrence: bool,
        status: IncidentStatus,
        now: Timestamp,
        escalated: bool,
    ) -> DeduperView {
        if recurrence {
            self.deduper.with_recurrence(fp, id, status, now, escalated)
        } else {
            self.deduper.with_new(fp, id, status, now, escalated)
        }
    }

    /// The state in which `inc` stands for its fingerprint.
    pub open spec fn with_active(self, fp: Seq<char>, inc: Incident) -> IntakeView {
        IntakeView {
            active: self.active.insert(inc.id@, inc),
            fp_active: self.fp_active.insert(fp, inc.id),
            ..self
        }
    }

    /// The state in which incident `id` holds the diagnostic values `samples`.
    pub open spec fn with_diagnostics(
        self,
        id: Seq<char>,
        samples: Vec<DiagnosticSample>,
    ) -> IntakeView {
        if self.active.contains_key(id) {
            IntakeView {
                active: self.active.insert(
                    id,
                    Incident { diagnostics_history: samples, ..self.active[id] },
                ),
                ..self
            }
        } else {
            self
        }
    }

    /// The occurrences of `drained` can be counted.
    pub open spec fn absorbs(self, drained: Seq<(String, u64)>) -> bool {
        forall|id: Seq<char>| #[trigger]
            self.active.contains_key(id) ==> self.active[id].occurrence_count + added(
                self.fp_active,
                drained,
                id,
            ) <= u64::MAX
    }

    /// Incident `id` after the occurrences of `drained` were counted.
    pub open spec fn absorbed(
        self,
        drained: Seq<(String, u64)>,
        now: Timestamp,
        id: Seq<char>,
    ) -> Incident {
        let more = added(self.fp_active, drained, id);
        if more > 0 {
            Incident {
                occurrence_count: (self.active[id].occurrence_count + more) as u64,
                last_seen: Some(now),
                ..self.active[id]
            }
        } else {
            self.active[id]
        }
    }

    /// Whether incident `id` has changed since it was written, once `drained` is counted.
    pub open spec fn changed(self, drained: Seq<(String, u64)>, id: Seq<char>) -> bool {
        self.dirty.contains(id) || (self.active.contains_key(id) && added(
            self.fp_active,
            drained,
            id,
        ) > 0)
    }

    /// Whether an incident that has changed is to be written again at `now`. Without an interval
    /// it always is.
    pub open spec fn flushable(self, id: Seq<char>, interval: int, now: Timestamp) -> bool {
        interval != 0 && self.last_flush.contains_key(id) ==> now.since(self.last_flush[id])
            >= interval
    }

    /// The state after `drained` was counted.
    pub open spec fn topped_up(self, drained: Seq<(String, u64)>, now: Timestamp) -> IntakeView {
        IntakeView {
            active: Map::new(
                |id: Seq<char>| self.active.contains_key(id),
                |id: Seq<char>| self.absorbed(drained, now, id),
            ),
            dirty: Set::new(|id: Seq<char>| self.changed(drained, id)),
            ..self
        }
    }

    /// The state after the incidents `ids` were written at `now`.
    pub open spec fn flushed(self, ids: Seq<Seq<char>>, now: Timestamp) -> IntakeView {
        IntakeView {
            dirty: self.dirty.difference(ids.to_set()),
            last_flush: self.last_flush.union_prefer_right(
                Map::new(|id: Seq<char>| ids.contains(id), |id: Seq<char>| now),
            ),
            ..self
        }
    }

    /// The state after `drained` was counted and what is due was written at `now`.
    pub open spec fn ticked(
        self,
        drained: Seq<(String, u64)>,
        interval: int,
        now: Timestamp,
    ) -> IntakeView {
        let due = Set::new(
            |id: Seq<char>| self.changed(drained, id) && self.flushable(id, interval, now),
        );
        IntakeView {
            dirty: Set::new(
                |id: Seq<char>| self.changed(drained, id) && !self.flushable(id, interval, now),
            ),
            last_flush: self.last_flush.union_prefer_right(
                Map::new(|id: Seq<char>| due.contains(id), |id: Seq<char>| now),
            ),
            ..self.topped_up(drained, now)
        }
    }

    /// Whether the parts fit together: each incident is kept under its identifier; what the
    /// deduplication counts towards, what stands for a fingerprint, what has changed and what is
    /// being escalated is kept; no more is being escalated than may be.
    pub open spec fn coherent(self) -> bool {
        &&& forall|id: Seq<char>| #[trigger]
            self.active.contains_key(id) ==> self.active[id].id@ == id
        &&& forall|fp: Seq<char>| #[trigger]
            self.deduper.entries.contains_key(fp) ==> self.active.contains_key(
                self.deduper.entries[fp].id@,
            )
        &&& forall|fp: Seq<char>| #[trigger]
            self.fp_active.contains_key(fp) ==> self.active.contains_key(self.fp_active[fp]@)
        &&& forall|id: Seq<char>| #[trigger]
            self.dirty.contains(id) ==> self.active.contains_key(id)
        &&& forall|id: Seq<char>| #[trigger]
            self.pending.contains(id) ==> self.active.contains_key(id)
        &&& self.pending.finite()
        &&& self.pending.len() <= self.deduper.cfg.max_pending_escalations
    }
}

/// What the intake knows: the incidents, which of them stand for which fingerprints, which have
/// changed since they were written, and which are being escalated.
pub struct IntakeState {
    deduper: Deduper,
    active: Table<Incident>,
    fp_active: Table<String>,
    dirty: Table<()>,
    last_flush: Table<Timestamp>,
    pending: Table<()>,
    max_pending: usize,
}

impl View for IntakeState {
    type V = IntakeView;

    closed spec fn view(&self) -> IntakeView {
        IntakeView {
            deduper: self.deduper@,
            active: self.active@,
            fp_active: self.fp_active@,
            dirty: self.dirty@.dom(),
            last_flush: self.last_flush@,
            pending: self.pending@.dom(),
        }
    }
}

impl IntakeState {
    /// Whether the tables are sound and fit together.
    pub closed spec fn wf(&self) -> bool {
        &&& self.deduper.wf()
        &&& self.active.wf()
        &&& self.fp_active.wf()
        &&& self.dirty.wf()
        &&& self.last_flush.wf()
        &&& self.pending.wf()
        &&& self.max_pending == self.deduper@.cfg.max_pending_escalations
        &&& self@.coherent()
    }

    /// In every state the parts fit together. No more is being escalated than may be. There are
    /// finitely many incidents.
    pub proof fn law_state_is_coherent(&self)
        requires
            self.wf(),
        ensures
            self@.coherent(),
            self@.active.dom().finite(),
            forall|fp: Seq<char>| #[trigger]
                self@.deduper.entries.contains_key(fp) ==> self@.active.contains_key(
                    self@.deduper.entries[fp].id@,
                ),
            forall|fp: Seq<char>| #[trigger]
                self@.fp_active.contains_key(fp) ==> self@.active.contains_key(
                    self@.fp_active[fp]@,
                ),
            forall|id: Seq<char>| #[trigger]
                self@.active.contains_key(id) ==> self@.active[id].id@ == id,
            forall|id: Seq<char>| #[trigger]
                self@.pending.contains(id) ==> self@.active.contains_key(id),
            forall|id: Seq<char>| #[trigger]
                self@.dirty.contains(id) ==> self@.active.contains_key(id),
            self@.pending.finite() && self@.pending.len()
                <= self@.deduper.cfg.max_pending_escalations,
    {
        self.active.lemma_len();
    }

    /// Nothing was seen yet.
    pub fn new(cfg: IncidentsConfig) -> (r: Self)
        ensures
            r.wf(),
            r@.deduper == (DeduperView { entries: Map::empty(), stamps: Seq::empty(), cfg }),
            r@.active == Map::<Seq<char>, Incident>::empty(),
            r@.fp_active == Map::<Seq<char>, String>::empty(),
            r@.dirty == Set::<Seq<char>>::empty(),
            r@.last_flush == Map::<Seq<char>, Timestamp>::empty(),
            r@.pending == Set::<Seq<char>>::empty(),
    {
        let r = IntakeState {
            deduper: Deduper::new(cfg),
            active: Table::new(),
            fp_active: Table::new(),
            dirty: Table::new(),
            last_flush: Table::new(),
            pending: Table::new(),
            max_pending: cfg.max_pending_escalations,
        };
        proof {
            r.pending.lemma_len();
            assert(r@.dirty =~= Set::<Seq<char>>::empty());
            assert(r@.pending =~= Set::<Seq<char>>::empty());
        }
        r
    }

    /// The incident `id`.
    pub fn incident(&self, id: &str) -> (r: Option<&Incident>)
        requires
            self.wf(),
        ensures
            match r {
                Some(inc) => self@.active.contains_key(id@) && *inc == self@.active[id@],
                None => !self@.active.contains_key(id@),
            },
    {
        self.active.get(id)
    }

    /// How many escalations have not ended.
    pub fn pending_len(&self) -> (r: usize)
        requires
            self.wf(),
        ensures
            r == self@.pending.len(),
    {
        proof {
            self.pending.lemma_len();
        }
        self.pending.len()
    }

    /// Counts a repetition towards incident `id`.
    fn handle_append(&mut self, id: String, fp: &str, now: Timestamp)
        requires
            old(self).wf(),
            old(self)@.active.contains_key(id@),
            old(self)@.active[id@].occurrence_count < u64::MAX,
        ensures
            final(self).wf(),
            final(self)@ == (IntakeView {
                deduper: old(self)@.deduper.with_append(fp@, now),
                active: old(self)@.active.insert(
                    id@,
                    Incident {
                        occurrence_count: (old(self)@.active[id@].occurrence_count + 1) as u64,
                        last_seen: Some(now),
                        ..old(self)@.active[id@]
                    },
                ),
                dirty: old(self)@.dirty.insert(id@),
                ..old(self)@
            }),
    {
        if let Some(found) = self.active.remove(id.as_str()) {
            let mut inc = found;
            inc.occurrence_count = inc.occurrence_count + 1;
            inc.last_seen = Some(now);
            self.active.insert(id.clone(), inc);
        }
        self.deduper.on_append(fp, now);
        self.dirty.insert(id, ());
        proof {
            assert(self.active@ =~= old(self)@.active.insert(
                id@,
                Incident {
                    occurrence_count: (old(self)@.active[id@].occurrence_count + 1) as u64,
                    last_seen: Some(now),
                    ..old(self)@.active[id@]
                },
            ));
            assert(self.dirty@.dom() =~= old(self)@.dirty.insert(id@));
        }
    }

    /// Whether it can be decided what to do with `inc`, seen at `now`: the spans that the decision
    /// needs can be held.
    pub fn can_decide(&self, inc: &Incident, now: Timestamp) -> (r: bool)
        requires
            self.wf(),
        ensures
            r == self@.deduper.decidable(fp_of(*inc), now),
    {
        match &inc.fingerprint {
            Some(fp) => self.deduper.can_decide(fp.as_str(), now),
            None => {
                proof {
                    reveal_strlit("");
                    assert(""@ =~= Seq::<char>::empty());
                }
                self.deduper.can_decide("", now)
            },
        }
    }

    /// An incident is seen at `now`: counts it towards one that is known, or says how it is to be
    /// recorded.
    pub fn handle_detected(&mut self, inc: Incident, now: Timestamp) -> (r: Detected)
        requires
            old(self).wf(),
            old(self)@.deduper.decidable(fp_of(inc), now),
            old(self)@.countable(fp_of(inc), now),
        ensures
            final(self).wf(),
            match old(self)@.deduper.decision(fp_of(inc), now) {
                DecisionView::Append { id } => r is Counted && final(self)@ == old(self)@.counted(
                    id,
                    fp_of(inc),
                    now,
                ),
                d => final(self)@ == (IntakeView {
                    deduper: old(self)@.deduper.decided(fp_of(inc), now),
                    ..old(self)@
                }) && (r matches Detected::Record(plan) && plan.follows(inc, d)),
            },
    {
        let fp: String = match &inc.fingerprint {
            Some(fp) => fp.clone(),
            None => String::new(),
        };
        assert(fp@ =~= fp_of(inc));
        let mut inc = inc;
        match self.deduper.decide(fp.as_str(), now) {
            Decision::NewEscalate => Detected::Record(
                Plan { fp, incident: inc, suppressed: None, recurrence: false },
            ),
            Decision::NewSuppressed(reason) => Detected::Record(
                Plan { fp, incident: inc, suppressed: Some(reason), recurrence: false },
            ),
            Decision::Append { id } => {
                self.handle_append(id, fp.as_str(), now);
                Detected::Counted
            },
            Decision::Recurrence { prev, escalate, reason } => {
                inc.recurrence_of = Some(prev);
                let suppressed: Option<&'static str> = if escalate {
                    None
                } else {
                    match reason {
                        Some(r) => Some(r),
                        None => Some("recurrence"),
                    }
                };
                Detected::Record(Plan { fp, incident: inc, suppressed, recurrence: true })
            },
        }
    }

    /// Reports to the deduplication that incident `id` was recorded.
    fn register(
        &mut self,
        fp: String,
        id: String,
        recurrence: bool,
        status: IncidentStatus,
        now: Timestamp,
        escalated: bool,
    )
        requires
            old(self).wf(),
            old(self)@.active.contains_key(id@),
        ensures
            final(self).wf(),
            final(self)@ == (IntakeView {
                deduper: old(self)@.registered(fp@, id, recurrence, status, now, escalated),
                ..old(self)@
            }),
            final(self).max_pending == old(self).max_pending,
    {
        if recurrence {
            self.deduper.on_recurrence(fp, id, status, now, escalated);
        } else {
            self.deduper.on_new(fp, id, status, now, escalated);
        }
    }

    /// Lets `inc` stand for its fingerprint.
    fn activate(&mut self, fp: String, inc: Incident)
        requires
            old(self).wf(),
        ensures
            final(self).wf(),
            final(self)@ == old(self)@.with_active(fp@, inc),
    {
        let id = inc.id.clone();
        self.fp_active.insert(fp, id.clone());
        self.active.insert(id, inc);
        proof {
            let was = old(self)@;
            assert forall|k: Seq<char>| #[trigger]
                self@.fp_active.contains_key(k) implies self@.active.contains_key(
                self@.fp_active[k]@,
            ) by {
                if k != fp@ {
                    assert(was.fp_active.contains_key(k));
                }
            }
            assert forall|k: Seq<char>| #[trigger]
                self@.active.contains_key(k) implies self@.active[k].id@ == k by {
                if k != inc.id@ {
                    assert(was.active.contains_key(k));
                }
            }
            assert forall|k: Seq<char>| #[trigger]
                self@.dirty.contains(k) implies self@.active.contains_key(k) by {
                assert(was.dirty.contains(k));
            }
        }
    }

    /// Attaches diagnostic values to incident `id`.
    pub fn attach_diagnostics(&mut self, id: &str, samples: Vec<DiagnosticSample>)
        requires
            old(self).wf(),
        ensures
            final(self).wf(),
            final(self)@ == old(self)@.with_diagnostics(id@, samples),
    {
        if let Some(found) = self.active.remove(id) {
            let mut inc = found;
            inc.diagnostics_history = samples;
            self.active.insert(id.to_string(), inc);
            assert(self.active@ =~= old(self).active@.insert(id@, inc));
        } else {
            assert(self.active@ =~= old(self).active@);
        }
        proof {
            let was = old(self)@;
            assert forall|k: Seq<char>| #[trigger]
                self@.fp_active.contains_key(k) implies self@.active.contains_key(
                self@.fp_active[k]@,
            ) by {
                assert(was.fp_active.contains_key(k));
            }
            assert forall|k: Seq<char>| #[trigger]
                self@.dirty.contains(k) implies self@.active.contains_key(k) by {
                assert(was.dirty.contains(k));
            }
        }
    }

    /// Records an incident that is not to be escalated.
    pub fn record_suppressed_path(&mut self, plan: Plan, now: Timestamp) -> (r: Vec<Effect>)
        requires
            old(self).wf(),
            plan.suppressed is Some,
        ensures
            final(self).wf(),
            r@ == recording_effects(),
            restated(
                final(self)@.active[plan.incident.id@],
                plan.incident,
                IncidentStatus::Suppressed,
                reason_view(plan.suppressed),
            ),
            final(self)@ == (IntakeView {
                deduper: old(self)@.registered(
                    plan.fp@,
                    plan.incident.id,
                    plan.recurrence,
                    IncidentStatus::Suppressed,
                    now,
                    false,
                ),
                ..old(self)@.with_active(
                    plan.fp@,
                    final(self)@.active[plan.incident.id@],
                )
            }),
    {
        let mut inc = plan.incident;
        inc.status = IncidentStatus::Suppressed;
        inc.status_reason = match plan.suppressed {
            Some(reason) => Some(reason.to_string()),
            None => None,
        };
        let id = inc.id.clone();
        let fp = plan.fp.clone();
        self.activate(plan.fp, inc);
        self.register(fp, id, plan.recurrence, IncidentStatus::Suppressed, now, false);
        effects_of_recording()
    }

    /// Records an incident that is to be escalated, and offers the escalation to the worker
    /// where escalations are enabled. The offer is settled with `settle`.
    pub fn record_escalate_path(
        &mut self,
        plan: Plan,
        escalation_enabled: bool,
        now: Timestamp,
    ) -> (r: Recorded)
        requires
            old(self).wf(),
            plan.suppressed is None,
        ensures
            final(self).wf(),
            r.effects@ == recording_effects(),
            !escalation_enabled ==> {
                let inc = Incident { status: IncidentStatus::Open, ..plan.incident };
                &&& r.offer is None
                &&& final(self)@ == (IntakeView {
                    deduper: old(self)@.registered(
                        plan.fp@,
                        inc.id,
                        plan.recurrence,
                        IncidentStatus::Open,
                        now,
                        false,
                    ),
                    ..old(self)@.with_active(plan.fp@, inc)
                })
            },
            escalation_enabled ==> {
                let inc = Incident { status: IncidentStatus::Escalating, ..plan.incident };
                &&& r.offer matches Some(offer)
                &&& offer == (Offer {
                    id: inc.id,
                    fp: plan.fp,
                    recurrence: plan.recurrence,
                    has_capacity: old(self)@.pending.len()
                        < old(self)@.deduper.cfg.max_pending_escalations,
                })
                &&& final(self)@ == old(self)@.with_active(plan.fp@, inc)
            },
    {
        let mut inc = plan.incident;
        let id = inc.id.clone();
        let fp = plan.fp.clone();
        if !escalation_enabled {
            inc.status = IncidentStatus::Open;
            self.activate(plan.fp, inc);
            self.register(fp, id, plan.recurrence, IncidentStatus::Open, now, false);
            return Recorded { effects: effects_of_recording(), offer: None };
        }
        inc.status = IncidentStatus::Escalating;
        self.activate(plan.fp, inc);
        let has_capacity = self.pending_len() < self.max_pending;
        Recorded {
            effects: effects_of_recording(),
            offer: Some(Offer { id, fp, recurrence: plan.recurrence, has_capacity }),
        }
    }

    /// Settles an offer: the worker has the escalation, or it had no place for it. Gives what is
    /// then to be done with the incident.
    pub fn settle(&mut self, offer: Offer, accepted: bool, now: Timestamp) -> (r: Vec<Effect>)
        requires
            old(self).wf(),
            old(self)@.active.contains_key(offer.id@),
            accepted ==> old(self)@.pending.len()
                < old(self)@.deduper.cfg.max_pending_escalations,
        ensures
            final(self).wf(),
            accepted ==> r@.len() == 0 && final(self)@ == (IntakeView {
                deduper: old(self)@.registered(
                    offer.fp@,
                    offer.id,
                    offer.recurrence,
                    IncidentStatus::Escalating,
                    now,
                    true,
                ),
                pending: old(self)@.pending.insert(offer.id@),
                ..old(self)@
            }),
            !accepted ==> {
                &&& r@ == seq![Effect::WriteJson, Effect::RenderMarkdown]
                &&& restated(
                    final(self)@.active[offer.id@],
                    old(self)@.active[offer.id@],
                    IncidentStatus::Suppressed,
                    Some("queue_full"@),
                )
                &&& final(self)@ == (IntakeView {
                    deduper: old(self)@.registered(
                        offer.fp@,
                        offer.id,
                        offer.recurrence,
                        IncidentStatus::Suppressed,
                        now,
                        false,
                    ),
                    active: old(self)@.active.insert(
                        offer.id@,
                        final(self)@.active[offer.id@],
                    ),
                    ..old(self)@
                })
            },
    {
        let mut effects: Vec<Effect> = Vec::new();
        if accepted {
            proof {
                self.pending.lemma_len();
            }
            self.pending.insert(offer.id.clone(), ());
            proof {
                assert(self.pending@.dom() =~= old(self)@.pending.insert(offer.id@));
                assert(self@.pending.finite());
                assert(self@.pending.len() <= old(self)@.pending.len() + 1);
            }
            self.register(
                offer.fp,
                offer.id,
                offer.recurrence,
                IncidentStatus::Escalating,
                now,
                true,
            );
        } else {
            if let Some(found) = self.active.remove(offer.id.as_str()) {
                let mut inc = found;
                inc.status = IncidentStatus::Suppressed;
                inc.status_reason = Some("queue_full".to_string());
                self.active.insert(offer.id.clone(), inc);
                assert(self.active@ =~= old(self).active@.insert(offer.id@, inc));
            }
            effects.push(Effect::WriteJson);
            effects.push(Effect::RenderMarkdown);
            assert(effects@ =~= seq![Effect::WriteJson, Effect::RenderMarkdown]);
            self.register(
                offer.fp,
                offer.id,
                offer.recurrence,
                IncidentStatus::Suppressed,
                now,
                false,
            );
        }
        effects
    }

    /// The escalation of incident `id` has ended, with a report or without one. Gives what is
    /// then to be done with the incident.
    pub fn handle_escalation_done(
        &mut self,
        id: &str,
        fp: &str,
        report: Option<EscalationReport>,
    ) -> (r: Vec<Effect>)
        requires
            old(self).wf(),
        ensures
            final(self).wf(),
            !old(self)@.active.contains_key(id@) ==> r@.len() == 0 && final(self)@ == (
            IntakeView { pending: old(self)@.pending.remove(id@), ..old(self)@ }),
            old(self)@.active.contains_key(id@) ==> {
                let inc = final(self)@.active[id@];
                &&& r@ == ending_effects()
                &&& ended(inc, old(self)@.active[id@], report)
                &&& inc.status == IncidentStatus::Mitigated <==> (report matches Some(done)
                    && done.final_resolved)
                &&& inc.status == IncidentStatus::Mitigated || inc.status == IncidentStatus::Open
                &&& old(self)@.deduper.entries.contains_key(fp@)
                    ==> final(self)@.deduper.entries[fp@].status == inc.status
                &&& final(self)@ == (IntakeView {
                    deduper: old(self)@.deduper.with_status(fp@, inc.status),
                    active: old(self)@.active.insert(id@, inc),
                    pending: old(self)@.pending.remove(id@),
                    ..old(self)@
                })
            },
    {
        proof {
            self.pending.lemma_len();
        }
        let _ = self.pending.remove(id);
        proof {
            assert(self.pending@.dom() =~= old(self)@.pending.remove(id@));
        }
        match self.active.remove(id) {
            Some(found) => {
                let mut inc = found;
                match report {
                    Some(report) => {
                        inc.status = if report.final_resolved {
                            IncidentStatus::Mitigated
                        } else {
                            IncidentStatus::Open
                        };
                        inc.status_reason = None;
                        inc.escalation = Some(report);
                    },
                    None => {
                        inc.status = IncidentStatus::Open;
                        inc.status_reason = Some("escalation_failed".to_string());
                    },
                }
                let status = inc.status;
                self.active.insert(id.to_string(), inc);
                assert(self.active@ =~= old(self).active@.insert(id@, inc));
                self.deduper.set_status(fp, status);
                effects_of_ending()
            },
            None => {
                assert(self.active@ =~= old(self).active@);
                Vec::new()
            },
        }
    }

    /// Counts the occurrences that found the queue full, and gives the incidents that have changed
    /// and are to be written: those that were never written for that reason, and those that were
    /// `interval` nanoseconds ago. An interval of 0 writes all that has changed.
    ///
    /// Occurrences of a fingerprint for which no incident stands yet stay in `overflow`.
    pub fn handle_tick(
        &mut self,
        overflow: &mut Overflow,
        interval: i128,
        now: Timestamp,
    ) -> (r: Vec<String>)
        requires
            old(self).wf(),
            old(overflow).wf(),
            old(self)@.absorbs(old(overflow).listed()),
        ensures
            final(self).wf(),
            final(overflow).wf(),
            final(self)@ == old(self)@.ticked(old(overflow).listed(), interval as int, now),
            final(overflow)@ == old(overflow)@.remove_keys(old(self)@.fp_active.dom()),
            views(r@).no_duplicates(),
            forall|id: Seq<char>|
                views(r@).contains(id) <==> #[trigger] old(self)@.changed(
                    old(overflow).listed(),
                    id,
                ) && old(self)@.flushable(id, interval as int, now),
    {
        let drained = overflow.drain();
        self.absorb(&drained, now);
        overflow.keep_unknown(&drained, &self.fp_active);
        let ghost mid = self@;
        let due = self.due_for_writing(interval, now);
        let ghost ids = views(due@);
        let written = self.mark_written(due, now);
        proof {
            let start = old(self)@;
            let goal = start.ticked(drained@, interval as int, now);
            assert forall|id: Seq<char>|
                (#[trigger] ids.contains(id)) == (start.changed(drained@, id) && start.flushable(
                    id,
                    interval as int,
                    now,
                )) && mid.dirty.contains(id) == start.changed(drained@, id) by {
                assert(mid.dirty.contains(id) == start.changed(drained@, id));
                assert(mid.flushable(id, interval as int, now) == start.flushable(
                    id,
                    interval as int,
                    now,
                ));
            }
            assert forall|id: Seq<char>|
                ids.contains(id) <==> #[trigger] start.changed(drained@, id) && start.flushable(
                    id,
                    interval as int,
                    now,
                ) by {
                assert(ids.contains(id) || !ids.contains(id));
            }
            assert forall|id: Seq<char>|
                self@.dirty.contains(id) == #[trigger] goal.dirty.contains(id) by {
                assert(ids.contains(id) || !ids.contains(id));
                assert(ids.to_set().contains(id) == ids.contains(id));
            }
            assert(self@.dirty =~= goal.dirty);
            assert forall|id: Seq<char>|
                self@.last_flush.contains_key(id) == #[trigger] goal.last_flush.contains_key(id) by {
                assert(ids.contains(id) || !ids.contains(id));
            }
            assert forall|id: Seq<char>| #[trigger]
                goal.last_flush.contains_key(id) implies self@.last_flush[id]
                == goal.last_flush[id] by {
                assert(ids.contains(id) || !ids.contains(id));
            }
            assert(self@.last_flush =~= goal.last_flush);
        }
        written
    }

    /// The incidents that have changed and are to be written at `now`.
    fn due_for_writing(&self, interval: i128, now: Timestamp) -> (r: Vec<String>)
        requires
            self.wf(),
        ensures
            views(r@).no_duplicates(),
            forall|id: Seq<char>|
                views(r@).contains(id) <==> #[trigger] self@.dirty.contains(id) && self@.flushable(
                    id,
                    interval as int,
                    now,
                ),
    {
        let n: usize = self.dirty.len();
        let ghost keys = self.dirty.keys();
        let ghost f = |id: Seq<char>| self@.flushable(id, interval as int, now);
        let mut due: Vec<String> = Vec::new();
        assert(keys.take(0).filter(f) =~= Seq::empty()) by {
            reveal(Seq::filter);
        }
        assert(views(due@) =~= Seq::<Seq<char>>::empty());
        for i in 0..n
            invariant
                n == keys.len(),
                keys == self.dirty.keys(),
                self.wf(),
                f == (|id: Seq<char>| self@.flushable(id, interval as int, now)),
                views(due@) == keys.take(i as int).filter(f),
        {
            let (id, _) = self.dirty.entry(i);
            let fresh = match self.last_flush.get(id.as_str()) {
                Some(t) => interval == 0 || now.nanos_since(t) >= interval,
                None => true,
            };
            let ghost was = views(due@);
            proof {
                keys.take(i as int).lemma_filter_push(keys[i as int], f);
                assert(keys.take(i + 1) =~= keys.take(i as int).push(keys[i as int]));
            }
            if fresh {
                due.push(id.clone());
                assert(views(due@) =~= was.push(keys[i as int]));
            }
        }
        proof {
            assert(keys.take(n as int) =~= keys);
            self.dirty.lemma_keys();
            lemma_filtered(keys, f);
            assert forall|id: Seq<char>|
                views(due@).contains(id) <==> #[trigger] self@.dirty.contains(id)
                    && self@.flushable(id, interval as int, now) by {
                assert(self.dirty@.contains_key(id) == self@.dirty.contains(id));
                assert(keys.contains(id) == self.dirty@.contains_key(id));
                assert(f(id) == self@.flushable(id, interval as int, now));
            }
        }
        due
    }

    /// Notes that the incidents `due` are written at `now`.
    fn mark_written(&mut self, due: Vec<String>, now: Timestamp) -> (r: Vec<String>)
        requires
            old(self).wf(),
            forall|id: Seq<char>| #[trigger]
                views(due@).contains(id) ==> old(self)@.dirty.contains(id),
        ensures
            final(self).wf(),
            views(r@) == views(due@),
            final(self)@ == old(self)@.flushed(views(due@), now),
    {
        let mut written: Vec<String> = Vec::new();
        let ghost start = self@;
        proof {
            assert(self@.dirty =~= start.flushed(views(due@).take(0), now).dirty);
            assert(self@.last_flush =~= start.flushed(views(due@).take(0), now).last_flush);
            assert(views(written@) =~= views(due@).take(0));
        }
        for i in 0..due.len()
            invariant
                self.wf(),
                start == old(self)@,
                start.coherent(),
                forall|id: Seq<char>| #[trigger]
                    views(due@).contains(id) ==> start.dirty.contains(id),
                views(written@) == views(due@).take(i as int),
                self@ == start.flushed(views(due@).take(i as int), now),
        {
            let ghost was = self@;
            let id = due[i].clone();
            let ghost prefix = views(due@).take(i as int);
            assert(views(due@)[i as int] == id@);
            assert(views(due@).contains(id@));
            assert(start.dirty.contains(id@));
            if self.active.contains_key(id.as_str()) {
                written.push(id.clone());
            }
            let _ = self.dirty.remove(id.as_str());
            self.last_flush.insert(id.clone(), now);
            proof {
                let longer = views(due@).take(i + 1);
                assert(longer =~= prefix.push(id@));
                assert(views(written@) =~= longer);
                assert forall|k: Seq<char>| #[trigger]
                    longer.contains(k) == (prefix.contains(k) || k == id@) by {
                    if prefix.contains(k) {
                        let j = choose|j: int| 0 <= j < prefix.len() && prefix[j] == k;
                        assert(longer[j] == k);
                    }
                    assert(longer[i as int] == id@);
                }
                assert(self@.dirty =~= start.flushed(longer, now).dirty);
                assert(self@.last_flush =~= start.flushed(longer, now).last_flush);
            }
        }
        assert(views(due@).take(due@.len() as int) =~= views(due@));
        written
    }

    /// Counts the occurrences of `drained`.
    fn absorb(&mut self, drained: &Vec<(String, u64)>, now: Timestamp)
        requires
            old(self).wf(),
            old(self)@.absorbs(drained@),
        ensures
            final(self).wf(),
            final(self)@ == old(self)@.topped_up(drained@, now),
    {
        proof {
            let none = drained@.take(0);
            assert(self@.active =~= self@.topped_up(none, now).active);
            assert(self@.dirty =~= self@.topped_up(none, now).dirty);
        }
        for i in 0..drained.len()
            invariant
                self.wf(),
                old(self).wf(),
                old(self)@.absorbs(drained@),
                self@ == old(self)@.topped_up(drained@.take(i as int), now),
        {
            let ghost start = old(self)@;
            let ghost was = self@;
            let ghost shorter = drained@.take(i as int);
            let ghost longer = drained@.take(i + 1);
            let fp = drained[i].0.as_str();
            let count: u64 = drained[i].1;
            assert(longer.drop_last() =~= shorter);
            assert(longer.last() == drained@[i as int]);
            if count > 0 {
                let target: Option<String> = match self.fp_active.get(fp) {
                    Some(id) => Some(id.clone()),
                    None => None,
                };
                if let Some(id) = target {
                    assert(was.fp_active.contains_key(fp@));
                    assert(was.active.contains_key(id@));
                    proof {
                        assert(start.active.contains_key(id@));
                        lemma_added_grows(start.fp_active, drained@, i + 1, id@);
                    }
                    if let Some(found) = self.active.remove(id.as_str()) {
                        let mut inc = found;
                        inc.occurrence_count = inc.occurrence_count + count;
                        inc.last_seen = Some(now);
                        self.active.insert(id.clone(), inc);
                        self.dirty.insert(id.clone(), ());
                        proof {
                            assert(self@.active =~= was.active.insert(id@, inc));
                            assert(self@.dirty =~= was.dirty.insert(id@));
                        }
                    }
                }
            }
            proof {
                let goal = start.topped_up(longer, now);
                assert(self@.active =~= goal.active);
                assert(self@.dirty =~= goal.dirty);
            }
        }
        assert(drained@.take(drained@.len() as int) =~= drained@);
    }

    /// Whether no count can grow too large when the occurrences of `overflow` are counted.
    pub fn can_absorb(&self, overflow: &Overflow) -> (r: bool)
        requires
            self.wf(),
            overflow.wf(),
        ensures
            r ==> self@.absorbs(overflow.listed()),
            !r ==> sum(overflow.listed()) > u64::MAX || exists|id: Seq<char>| #[trigger]
                self@.active.contains_key(id) && self@.active[id].occurrence_count + sum(
                    overflow.listed(),
                ) > u64::MAX,
    {
        let largest: u64 = self.largest_count();
        proof {
            assert forall|id: Seq<char>| #[trigger] self@.active.contains_key(id) implies added(
                self@.fp_active,
                overflow.listed(),
                id,
            ) <= sum(overflow.listed()) by {
                lemma_added_of_sum(self@.fp_active, overflow.listed(), id);
            }
        }
        overflow.total() <= (u64::MAX - largest) as u128
    }

    /// The largest number of times that an incident was seen.
    pub fn largest_count(&self) -> (r: u64)
        requires
            self.wf(),
        ensures
            forall|id: Seq<char>| #[trigger]
                self@.active.contains_key(id) ==> self@.active[id].occurrence_count <= r,
            r == 0 || exists|id: Seq<char>| #[trigger]
                self@.active.contains_key(id) && self@.active[id].occurrence_count == r,
    {
        let mut largest: u64 = 0;
        let n: usize = self.active.len();
        let ghost keys = self.active.keys();
        for i in 0..n
            invariant
                n == keys.len(),
                keys == self.active.keys(),
                self.wf(),
                forall|m: int|
                    0 <= m < i ==> self@.active[#[trigger] keys[m]].occurrence_count <= largest,
                largest == 0 || exists|id: Seq<char>| #[trigger]
                    self@.active.contains_key(id) && self@.active[id].occurrence_count == largest,
        {
            let (_, inc) = self.active.entry(i);
            if inc.occurrence_count > largest {
                largest = inc.occurrence_count;
                assert(self@.active.contains_key(keys[i as int]));
            }
        }
        proof {
            self.active.lemma_keys();
            assert forall|id: Seq<char>| #[trigger]
                self@.active.contains_key(id) implies self@.active[id].occurrence_count
                <= largest by {
                assert(keys.contains(id));
                let m = choose|m: int| 0 <= m < keys.len() && keys[m] == id;
                assert(self@.active[keys[m]].occurrence_count <= largest);
            }
        }
        largest
    }
}

/// What a filter keeps of a list without repetitions.
proof fn lemma_filtered(s: Seq<Seq<char>>, f: spec_fn(Seq<char>) -> bool)
    requires
        s.no_duplicates(),
    ensures
        s.filter(f).no_duplicates(),
        forall|x: Seq<char>| #[trigger] s.filter(f).contains(x) <==> s.contains(x) && f(x),
    decreases s.len(),
{
    reveal(Seq::filter);
    if s.len() > 0 {
        let rest = s.drop_last();
        lemma_filtered(rest, f);
        let part = rest.filter(f);
        assert forall|x: Seq<char>| s.contains(x) <==> (rest.contains(x) || x == s.last()) by {
            if s.contains(x) && x != s.last() {
                let i = choose|i: int| 0 <= i < s.len() && s[i] == x;
                assert(rest[i] == x);
            }
            if rest.contains(x) {
                let i = choose|i: int| 0 <= i < rest.len() && rest[i] == x;
                assert(s[i] == x);
            }
            assert(s[s.len() - 1] == s.last());
        }
        assert(!rest.contains(s.last()));
        assert(!part.contains(s.last()));
        if f(s.last()) {
            let whole = part.push(s.last());
            assert(s.filter(f) =~= whole);
            assert forall|x: Seq<char>| #[trigger] whole.contains(x) <==> (part.contains(x) || x
                == s.last()) by {
                if part.contains(x) {
                    let i = choose|i: int| 0 <= i < part.len() && part[i] == x;
                    assert(whole[i] == x);
                }
                assert(whole[part.len() as int] == s.last());
            }
        }
    }
}

/// The occurrences that belong to one incident are no more than all occurrences.
proof fn lemma_added_of_sum(
    fp_active: Map<Seq<char>, String>,
    drained: Seq<(String, u64)>,
    id: Seq<char>,
)
    ensures
        added(fp_active, drained, id) <= sum(drained),
    decreases drained.len(),
{
    if drained.len() > 0 {
        lemma_added_of_sum(fp_active, drained.drop_last(), id);
    }
}

/// The occurrences of the first entries are no more than all occurrences.
proof fn lemma_added_grows(
    fp_active: Map<Seq<char>, String>,
    drained: Seq<(String, u64)>,
    k: int,
    id: Seq<char>,
)
    requires
        0 <= k <= drained.len(),
    ensures
        added(fp_active, drained.take(k), id) <= added(fp_active, drained, id),
    decreases drained.len(),
{
    if k < drained.len() {
        assert(drained.drop_last().take(k) =~= drained.take(k));
        lemma_added_grows(fp_active, drained.drop_last(), k, id);
    } else {
        assert(drained.take(k) =~= drained);
    }
}

/// Whether `after` is `before` at the end of its escalation. With a report, it is mitigated or
/// open as the report says, and keeps the report; without one, it is open again.
pub open spec fn ended(after: Incident, before: Incident, report: Option<EscalationReport>) -> bool {
    match report {
        Some(report) => after == (Incident {
            status: if report.final_resolved {
                IncidentStatus::Mitigated
            } else {
                IncidentStatus::Open
            },
            status_reason: None,
            escalation: Some(report),
            ..before
        }),
        None => restated(after, before, IncidentStatus::Open, Some("escalation_failed"@)),
    }
}

/// All occurrences of a list.
pub open spec fn sum(list: Seq<(String, u64)>) -> nat
    decreases list.len(),
{
    if list.len() == 0 {
        0
    } else {
        sum(list.drop_last()) + list.last().1 as nat
    }
}

/// How often incidents found the queue full, by fingerprint.
pub struct Overflow {
    counts: Table<u64>,
}

impl View for Overflow {
    type V = Map<Seq<char>, u64>;

    closed spec fn view(&self) -> Map<Seq<char>, u64> {
        self.counts@
    }
}

/// How often `fp` found the queue full.
pub open spec fn overflowed(counts: Map<Seq<char>, u64>, fp: Seq<char>) -> u64 {
    if counts.contains_key(fp) {
        counts[fp]
    } else {
        0
    }
}

impl Overflow {
    /// Whether no fingerprint occurs twice.
    pub closed spec fn wf(&self) -> bool {
        self.counts.wf()
    }

    /// The queue was never full.
    pub fn new() -> (r: Self)
        ensures
            r.wf(),
            r@ == Map::<Seq<char>, u64>::empty(),
    {
        Overflow { counts: Table::new() }
    }

    /// What was counted, fingerprint by fingerprint.
    pub closed spec fn listed(&self) -> Seq<(String, u64)> {
        self.counts.listed()
    }

    /// The list of what was counted names no fingerprint twice and stands for the counts.
    pub proof fn lemma_listed(&self)
        requires
            self.wf(),
        ensures
            distinct(self.listed()),
            map_of(self.listed()) == self@,
    {
        self.counts.lemma_listed();
    }

    /// How often `fp` found the queue full.
    pub fn count(&self, fp: &str) -> (r: u64)
        requires
            self.wf(),
        ensures
            r == overflowed(self@, fp@),
    {
        match self.counts.get(fp) {
            Some(n) => *n,
            None => 0,
        }
    }

    /// An incident found the queue full: counts it under its fingerprint, which is handed back.
    pub fn record_overflow(&mut self, inc: &Incident) -> (r: String)
        requires
            old(self).wf(),
            overflowed(old(self)@, fp_of(*inc)) < u64::MAX,
        ensures
            final(self).wf(),
            r@ == fp_of(*inc),
            final(self)@ == old(self)@.insert(
                fp_of(*inc),
                (overflowed(old(self)@, fp_of(*inc)) + 1) as u64,
            ),
    {
        let fp: String = match &inc.fingerprint {
            Some(fp) => fp.clone(),
            None => String::new(),
        };
        assert(fp@ =~= fp_of(*inc));
        let n: u64 = self.count(fp.as_str());
        self.counts.insert(fp.clone(), n + 1);
        fp
    }

    /// Takes out what was counted.
    pub fn drain(&mut self) -> (r: Vec<(String, u64)>)
        requires
            old(self).wf(),
        ensures
            final(self).wf(),
            final(self)@ == Map::<Seq<char>, u64>::empty(),
            r@ == old(self).listed(),
            distinct(r@),
            map_of(r@) == old(self)@,
    {
        self.counts.take_entries()
    }

    /// How many occurrences were counted in all.
    pub fn total(&self) -> (r: u128)
        requires
            self.wf(),
        ensures
            r == sum(self.listed()),
    {
        let n: usize = self.counts.len();
        let ghost list = self.listed();
        let mut total: u128 = 0;
        proof {
            self.counts.lemma_walk();
            assert(sum(list.take(0)) == 0);
        }
        for i in 0..n
            invariant
                self.wf(),
                n == self.counts.keys().len(),
                list == self.listed(),
                n == list.len(),
                total == sum(list.take(i as int)),
                total <= i * u64::MAX,
        {
            proof {
                self.counts.lemma_walk();
                assert(list.take(i + 1).drop_last() =~= list.take(i as int));
                assert(i * u64::MAX + u64::MAX <= usize::MAX * u64::MAX) by (nonlinear_arith)
                    requires
                        i + 1 <= usize::MAX,
                ;
                assert((i + 1) * u64::MAX == i * u64::MAX + u64::MAX) by (nonlinear_arith);
                assert(usize::MAX * u64::MAX <= u128::MAX) by (nonlinear_arith)
                    requires
                        usize::MAX <= 0xffff_ffff_ffff_ffff,
                ;
            }
            let (_, count) = self.counts.entry(i);
            total = total + *count as u128;
        }
        assert(list.take(n as int) =~= list);
        total
    }

    /// Keeps what was counted of fingerprints that are not known.
    fn keep_unknown(&mut self, drained: &Vec<(String, u64)>, known: &Table<String>)
        requires
            old(self).wf(),
            old(self)@ == Map::<Seq<char>, u64>::empty(),
            known.wf(),
            distinct(drained@),
        ensures
            final(self).wf(),
            final(self)@ == map_of(drained@).remove_keys(known@.dom()),
    {
        assert(self@ =~= map_of(drained@.take(0)).remove_keys(known@.dom()));
        for i in 0..drained.len()
            invariant
                self.wf(),
                known.wf(),
                distinct(drained@),
                self@ == map_of(drained@.take(i as int)).remove_keys(known@.dom()),
        {
            let fp = &drained[i].0;
            proof {
                let shorter = drained@.take(i as int);
                assert(distinct(shorter));
                assert forall|j: int| !key_at(shorter, fp@, j) by {
                    if 0 <= j < i {
                        assert(drained@[j].0@ != drained@[i as int].0@);
                    }
                }
                lemma_push(shorter, drained@[i as int]);
                assert(drained@.take(i + 1) =~= shorter.push(drained@[i as int]));
            }
            if !known.contains_key(fp.as_str()) {
                self.counts.insert(fp.clone(), drained[i].1);
            }
            assert(self@ =~= map_of(drained@.take(i + 1)).remove_keys(known@.dom()));
        }
        assert(drained@.take(drained@.len() as int) =~= drained@);
    }
}

/// The milliseconds that pass at least between two messages about a full queue.
pub const LOG_INTERVAL_MS: i64 = 1000;

/// Whether a full queue is to be logged at `now_ms`, where it was last at `last_ms`.
pub fn should_log(now_ms: i64, last_ms: i64) -> (r: bool)
    ensures
        r == (now_ms - last_ms >= LOG_INTERVAL_MS),
{
    now_ms as i128 - last_ms as i128 >= LOG_INTERVAL_MS as i128
}

/// The time between two looks at the queue.
pub const POLL_MS: u64 = 100;

/// The time between two writes of what has changed.
pub const TICK_MS: u64 = 1000;

/// The longest wait for the end of an escalation during shutdown.
pub const REPORT_WAIT_MS: u64 = 200;

/// Where the intake stands.
#[derive(Debug, Clone, Copy, PartialEq, Eq, Structural)]
pub enum IntakePhase {
    /// It waits for an incident.
    Polling,
    /// It reads how escalations have ended; `stop` where the queue is closed.
    Reading { stop: bool },
    /// It writes what has changed.
    Ticking,
    /// It shuts down: it empties the queue.
    Emptying,
    /// It writes all that has changed and offers no more escalations.
    Flushing,
    /// It waits, up to the deadline, for the escalations that have not ended.
    Waiting { deadline_ms: u128 },
    /// It writes all that has changed once more.
    Ending,
    /// It has ended.
    Closed,
}

/// What the intake does next.
#[derive(Debug, Clone, Copy, PartialEq, Eq, Structural)]
pub enum IntakeAction {
    /// Wait for an incident, and handle it.
    WaitForIncident { ms: u64 },
    /// Handle the end of an escalation, if one has ended.
    ReadReport,
    /// Count the overflow and write what is due.
    Tick,
    /// Handle an incident, if there is one.
    TakeIncident,
    /// Count the overflow, write all that has changed, and close the way to the worker.
    FlushAndCloseJobs,
    /// Wait for the end of an escalation, and handle it.
    WaitForReport { ms: u64 },
    /// Count the overflow and write all that has changed.
    Flush,
    /// Nothing.
    Stop,
}

/// What came of an action.
#[derive(Debug, Clone, Copy, PartialEq, Eq, Structural)]
pub enum IntakeInput {
    /// An incident came and was handled.
    Incident,
    /// There was no incident.
    NoIncident,
    /// There will be no more incidents.
    QueueClosed,
    /// An escalation had ended, which was handled.
    Report,
    /// The intake is to shut down.
    StopRequest,
    /// There was nothing to read.
    NoReport,
    /// The action was done.
    Done,
}

impl IntakePhase {
    /// The phase of waiting for escalations, unless none is left or the time is over.
    pub open spec fn waiting(deadline_ms: u128, pending: usize, now_ms: u64) -> IntakePhase {
        if pending == 0 || now_ms >= deadline_ms {
            IntakePhase::Ending
        } else {
            IntakePhase::Waiting { deadline_ms }
        }
    }

    /// The next phase.
    pub open spec fn after(
        self,
        input: IntakeInput,
        since_tick_ms: u64,
        pending: usize,
        now_ms: u64,
        grace_secs: u64,
    ) -> IntakePhase {
        match self {
            IntakePhase::Polling => IntakePhase::Reading {
                stop: input == IntakeInput::QueueClosed,
            },
            IntakePhase::Reading { stop } => match input {
                IntakeInput::Report => self,
                IntakeInput::StopRequest => IntakePhase::Emptying,
                _ => if stop {
                    IntakePhase::Emptying
                } else if since_tick_ms >= TICK_MS {
                    IntakePhase::Ticking
                } else {
                    IntakePhase::Polling
                },
            },
            IntakePhase::Ticking => IntakePhase::Polling,
            IntakePhase::Emptying => if input == IntakeInput::Incident {
                self
            } else {
                IntakePhase::Flushing
            },
            IntakePhase::Flushing => IntakePhase::waiting(
                (now_ms + grace_secs * 1000) as u128,
                pending,
                now_ms,
            ),
            IntakePhase::Waiting { deadline_ms } => IntakePhase::waiting(
                deadline_ms,
                pending,
                now_ms,
            ),
            IntakePhase::Ending => IntakePhase::Closed,
            IntakePhase::Closed => IntakePhase::Closed,
        }
    }

    /// The next phase: `since_tick_ms` milliseconds after the last tick and `now_ms` milliseconds
    /// after some fixed moment, with `pending` escalations that have not ended.
    pub fn next(
        self,
        input: IntakeInput,
        since_tick_ms: u64,
        pending: usize,
        now_ms: u64,
        grace_secs: u64,
    ) -> (r: IntakePhase)
        ensures
            r == self.after(input, since_tick_ms, pending, now_ms, grace_secs),
    {
        match self {
            IntakePhase::Polling => IntakePhase::Reading {
                stop: input == IntakeInput::QueueClosed,
            },
            IntakePhase::Reading { stop } => match input {
                IntakeInput::Report => self,
                IntakeInput::StopRequest => IntakePhase::Emptying,
                _ => if stop {
                    IntakePhase::Emptying
                } else if since_tick_ms >= TICK_MS {
                    IntakePhase::Ticking
                } else {
                    IntakePhase::Polling
                },
            },
            IntakePhase::Ticking => IntakePhase::Polling,
            IntakePhase::Emptying => if input == IntakeInput::Incident {
                self
            } else {
                IntakePhase::Flushing
            },
            IntakePhase::Flushing => {
                let deadline_ms: u128 = now_ms as u128 + grace_secs as u128 * 1000;
                if pending == 0 || now_ms as u128 >= deadline_ms {
                    IntakePhase::Ending
                } else {
                    IntakePhase::Waiting { deadline_ms }
                }
            },
            IntakePhase::Waiting { deadline_ms } => if pending == 0 || now_ms as u128
                >= deadline_ms {
                IntakePhase::Ending
            } else {
                self
            },
            IntakePhase::Ending => IntakePhase::Closed,
            IntakePhase::Closed => IntakePhase::Closed,
        }
    }

    /// What is left of the time until `deadline_ms`.
    pub open spec fn left(deadline_ms: u128, now_ms: u64) -> int {
        if now_ms >= deadline_ms {
            0
        } else {
            deadline_ms - now_ms
        }
    }

    /// What the intake does in this phase.
    pub fn action(self, now_ms: u64) -> (r: IntakeAction)
        ensures
            r == (match self {
                IntakePhase::Polling => IntakeAction::WaitForIncident { ms: POLL_MS },
                IntakePhase::Reading { .. } => IntakeAction::ReadReport,
                IntakePhase::Ticking => IntakeAction::Tick,
                IntakePhase::Emptying => IntakeAction::TakeIncident,
                IntakePhase::Flushing => IntakeAction::FlushAndCloseJobs,
                IntakePhase::Waiting { deadline_ms } => IntakeAction::WaitForReport {
                    ms: vstd::math::min(
                        IntakePhase::left(deadline_ms, now_ms),
                        REPORT_WAIT_MS as int,
                    ) as u64,
                },
                IntakePhase::Ending => IntakeAction::Flush,
                IntakePhase::Closed => IntakeAction::Stop,
            }),
    {
        match self {
            IntakePhase::Polling => IntakeAction::WaitForIncident { ms: POLL_MS },
            IntakePhase::Reading { .. } => IntakeAction::ReadReport,
            IntakePhase::Ticking => IntakeAction::Tick,
            IntakePhase::Emptying => IntakeAction::TakeIncident,
            IntakePhase::Flushing => IntakeAction::FlushAndCloseJobs,
            IntakePhase::Waiting { deadline_ms } => {
                let now: u128 = now_ms as u128;
                let left: u128 = if now >= deadline_ms {
                    0
                } else {
                    deadline_ms - now
                };
                let ms: u64 = if left <= REPORT_WAIT_MS as u128 {
                    left as u64
                } else {
                    REPORT_WAIT_MS
                };
                IntakeAction::WaitForReport { ms }
            },
            IntakePhase::Ending => IntakeAction::Flush,
            IntakePhase::Closed => IntakeAction::Stop,
        }
    }
}

}
