//! Continuous anomaly monitoring: numbered anomaly events, their counters
//! by type and severity, the health verdict over a lookback window, and a
//! bounded history of recent readings.
//!
//! Measured values and thresholds are `f64` readings; they are carried as
//! the bits of the `f64` (`f64::to_bits`). Deciding whether a reading is
//! anomalous is the caller's part; what the monitor keeps of it is this
//! module's.

use vstd::prelude::*;
use crate::text::{decimal_text, push_decimal, push_str};
use super::anomaly::{anomaly_severity, AnomalyStats, AnomalyType};

verus! {

broadcast use vstd::seq_lib::group_seq_properties;

/// The counter slot of an anomaly type: its place in the declaration order.
pub open spec fn type_index(t: AnomalyType) -> int {
    match t {
        AnomalyType::NaN => 0,
        AnomalyType::Inf => 1,
        AnomalyType::NegInf => 2,
        AnomalyType::ExplodingGradient => 3,
        AnomalyType::VanishingGradient => 4,
        AnomalyType::AttentionOutOfBounds => 5,
        AnomalyType::AttentionCollapse => 6,
        AnomalyType::AttentionDiffuse => 7,
        AnomalyType::EnergyViolation => 8,
        AnomalyType::MomentumViolation => 9,
        AnomalyType::NumericalInstability => 10,
        AnomalyType::DeadNeuron => 11,
        AnomalyType::SaturatedNeuron => 12,
        AnomalyType::EthicsHarmToOther => 13,
        AnomalyType::EthicsParasitism => 14,
        AnomalyType::EthicsLoopBreaking => 15,
        AnomalyType::EthicsNoMutualBenefit => 16,
        AnomalyType::EthicsRelationshipDegrading => 17,
    }
}

/// The counter slot of an anomaly type.
pub fn type_slot(t: AnomalyType) -> (i: usize)
    ensures
        i == type_index(t),
        i < 18,
{
    match t {
        AnomalyType::NaN => 0,
        AnomalyType::Inf => 1,
        AnomalyType::NegInf => 2,
        AnomalyType::ExplodingGradient => 3,
        AnomalyType::VanishingGradient => 4,
        AnomalyType::AttentionOutOfBounds => 5,
        AnomalyType::AttentionCollapse => 6,
        AnomalyType::AttentionDiffuse => 7,
        AnomalyType::EnergyViolation => 8,
        AnomalyType::MomentumViolation => 9,
        AnomalyType::NumericalInstability => 10,
        AnomalyType::DeadNeuron => 11,
        AnomalyType::SaturatedNeuron => 12,
        AnomalyType::EthicsHarmToOther => 13,
        AnomalyType::EthicsParasitism => 14,
        AnomalyType::EthicsLoopBreaking => 15,
        AnomalyType::EthicsNoMutualBenefit => 16,
        AnomalyType::EthicsRelationshipDegrading => 17,
    }
}

/// A detected anomaly event.
#[derive(Debug)]
pub struct AnomalyEvent {
    /// Unique event ID
    pub id: u64,
    /// Type of anomaly
    pub anomaly_type: AnomalyType,
    /// When it occurred (step/iteration)
    pub step: u64,
    /// Layer where it occurred
    pub layer: usize,
    /// Head (for multi-head attention)
    pub head: Option<usize>,
    /// Stream ID
    pub stream_id: Option<usize>,
    /// The problematic value (bits of an `f64`)
    pub value_bits: u64,
    /// Threshold that was violated (bits of an `f64`; 0 is 0.0, none set)
    pub threshold_bits: u64,
    /// Additional context
    pub context: String,
    /// Particle ID if associated with a particle
    pub particle_id: Option<u64>,
}

/// Whether two events hold the same values.
pub open spec fn same_event(a: AnomalyEvent, b: AnomalyEvent) -> bool {
    &&& a.id == b.id
    &&& a.anomaly_type == b.anomaly_type
    &&& a.step == b.step
    &&& a.layer == b.layer
    &&& a.head == b.head
    &&& a.stream_id == b.stream_id
    &&& a.value_bits == b.value_bits
    &&& a.threshold_bits == b.threshold_bits
    &&& a.context@ == b.context@
    &&& a.particle_id == b.particle_id
}

impl AnomalyEvent {
    /// A new event with no head, stream, threshold, context or particle.
    pub fn new(anomaly_type: AnomalyType, step: u64, layer: usize, value_bits: u64) -> (e: Self)
        ensures
            e.id == 0,
            e.anomaly_type == anomaly_type,
            e.step == step,
            e.layer == layer,
            e.head.is_none(),
            e.stream_id.is_none(),
            e.value_bits == value_bits,
            e.threshold_bits == 0,
            e.context@ == Seq::<char>::empty(),
            e.particle_id.is_none(),
    {
        AnomalyEvent {
            id: 0,
            anomaly_type,
            step,
            layer,
            head: None,
            stream_id: None,
            value_bits,
            threshold_bits: 0,
            context: String::new(),
            particle_id: None,
        }
    }

    /// Builder: set head.
    pub fn with_head(self, head: usize) -> (e: Self)
        ensures
            e == (AnomalyEvent { head: Some(head), ..self }),
    {
        AnomalyEvent { head: Some(head), ..self }
    }

    /// Builder: set stream.
    pub fn with_stream(self, stream_id: usize) -> (e: Self)
        ensures
            e == (AnomalyEvent { stream_id: Some(stream_id), ..self }),
    {
        AnomalyEvent { stream_id: Some(stream_id), ..self }
    }

    /// Builder: set threshold (bits of an `f64`).
    pub fn with_threshold(self, threshold_bits: u64) -> (e: Self)
        ensures
            e == (AnomalyEvent { threshold_bits, ..self }),
    {
        AnomalyEvent { threshold_bits, ..self }
    }

    /// Builder: set context.
    pub fn with_context(self, context: &str) -> (e: Self)
        ensures
            e.context@ == context@,
            same_event(e, AnomalyEvent { context: e.context, ..self }),
    {
        AnomalyEvent { context: context.to_owned(), ..self }
    }

    /// Builder: set particle.
    pub fn with_particle(self, particle_id: u64) -> (e: Self)
        ensures
            e == (AnomalyEvent { particle_id: Some(particle_id), ..self }),
    {
        AnomalyEvent { particle_id: Some(particle_id), ..self }
    }

    /// Severity of the event's anomaly type.
    pub fn severity(&self) -> (s: u8)
        ensures
            s == anomaly_severity(self.anomaly_type),
    {
        self.anomaly_type.severity()
    }

    /// A copy of this event.
    pub fn duplicate(&self) -> (r: Self)
        ensures
            same_event(r, *self),
    {
        AnomalyEvent {
            id: self.id,
            anomaly_type: self.anomaly_type,
            step: self.step,
            layer: self.layer,
            head: self.head,
            stream_id: self.stream_id,
            value_bits: self.value_bits,
            threshold_bits: self.threshold_bits,
            context: self.context.clone(),
            particle_id: self.particle_id,
        }
    }
}

/// The first step of a lookback of `n` steps ending at `step` (0 when
/// the lookback reaches past the start).
pub open spec fn cutoff_step(step: u64, n: u64) -> u64 {
    if step >= n {
        (step - n) as u64
    } else {
        0
    }
}

/// Events at or after a step.
pub open spec fn since(cutoff: u64) -> spec_fn(AnomalyEvent) -> bool {
    |e: AnomalyEvent| e.step >= cutoff
}

/// Events whose anomaly is critical.
pub open spec fn critical() -> spec_fn(AnomalyEvent) -> bool {
    |e: AnomalyEvent| anomaly_severity(e.anomaly_type) >= 3
}

/// Whether a critical event occurred at or after `cutoff`.
pub open spec fn critical_since(events: Seq<AnomalyEvent>, cutoff: u64) -> bool {
    exists|i: int|
        0 <= i < events.len() && (#[trigger] events[i]).step >= cutoff && anomaly_severity(
            events[i].anomaly_type,
        ) >= 3
}

/// The events that references point to.
pub open spec fn pointed(v: Seq<&AnomalyEvent>) -> Seq<AnomalyEvent> {
    v.map_values(|e: &AnomalyEvent| *e)
}

/// The event as the monitor stores it: numbered and stamped with the step.
pub open spec fn stamped(e: AnomalyEvent, id: u64, step: u64) -> AnomalyEvent {
    AnomalyEvent { id, step, ..e }
}

/// The sum of a sequence of counters.
pub open spec fn counter_sum(s: Seq<u64>) -> int
    decreases s.len(),
{
    if s.len() == 0 {
        0
    } else {
        counter_sum(s.drop_last()) + s.last()
    }
}

/// The history after a reading: appended, then the oldest dropped when
/// the window is exceeded.
pub open spec fn windowed(h: Seq<(u64, u64)>, reading: (u64, u64), window: usize) -> Seq<(u64, u64)> {
    if h.len() + 1 > window {
        h.push(reading).drop_first()
    } else {
        h.push(reading)
    }
}

/// Continuous anomaly monitoring.
#[derive(Debug)]
pub struct AnomalyMonitor {
    /// Detected events
    pub events: Vec<AnomalyEvent>,
    /// Current step
    pub step: u64,
    /// Recent finite readings (value bits, step), oldest first
    pub history: Vec<(u64, u64)>,
    /// The number the next recorded event gets
    pub next_event_id: u64,
    /// Statistics
    pub stats: AnomalyStats,
}

/// The summary's status line.
pub open spec fn status_text(healthy: bool) -> Seq<char> {
    if healthy {
        "HEALTHY"@
    } else {
        "ANOMALIES DETECTED"@
    }
}

/// The monitor's summary text.
pub open spec fn summary_text(step: u64, s: AnomalyStats, healthy: bool) -> Seq<char> {
    let c = |i: int| decimal_text(s.by_type@[i] as nat);
    "Anomaly Monitor @ step "@ + decimal_text(step as nat) + "\n├─ Total checks: "@ + decimal_text(
        s.total_checks as nat,
    ) + "\n├─ Total anomalies: "@ + decimal_text(s.total_anomalies as nat) + " ("@
        + decimal_text(s.critical_anomalies as nat) + " critical)\n├─ NaN/Inf: "@ + c(0) + "/"@
        + c(1) + "/"@ + c(2) + "\n├─ Gradient: explode="@ + c(3) + ", vanish="@ + c(4)
        + "\n├─ Attention: bounds="@ + c(5) + ", collapse="@ + c(6) + ", diffuse="@ + c(7)
        + "\n├─ Conservation: energy="@ + c(8) + ", momentum="@ + c(9)
        + "\n├─ Other: instability="@ + c(10) + ", dead="@ + c(11) + ", saturated="@ + c(12)
        + "\n└─ Status: "@ + status_text(healthy)
}

/// A snapshot of the monitor.
#[derive(Debug)]
pub struct AnomalyReport {
    /// Current step
    pub step: u64,
    /// Statistics
    pub stats: AnomalyStats,
    /// Recent events
    pub recent_events: Vec<AnomalyEvent>,
    /// Overall health
    pub is_healthy: bool,
}

/// Events of the anomaly type at a counter position.
pub open spec fn of_slot(i: int) -> spec_fn(AnomalyEvent) -> bool {
    |e: AnomalyEvent| type_index(e.anomaly_type) == i
}

impl AnomalyMonitor {
    /// The statistics agree with the recorded events: the events are
    /// numbered 0, 1, 2, ... in order and the next number follows them; the
    /// total, the critical count and each counter by type count the
    /// matching events; the last anomaly step is the step of the last event.
    /// A new monitor starts so and `record` keeps it so; `prune` drops old
    /// events but keeps the counts, so afterwards the counts cover more.
    pub open spec fn stats_match_events(&self) -> bool {
        let ev = self.events@;
        &&& self.next_event_id == ev.len()
        &&& forall|k: int| 0 <= k < ev.len() ==> #[trigger] ev[k].id == k
        &&& self.stats.total_anomalies == ev.len()
        &&& self.stats.critical_anomalies == ev.filter(critical()).len()
        &&& forall|i: int| 0 <= i < 18 ==> #[trigger] self.stats.by_type@[i] == ev.filter(of_slot(i)).len()
        &&& self.stats.last_anomaly_step == if ev.len() == 0 {
            None
        } else {
            Some(ev.last().step)
        }
    }

    /// Whether recording an event of type `t` keeps every counter in range.
    pub open spec fn has_room_for(&self, t: AnomalyType) -> bool {
        &&& self.next_event_id < u64::MAX
        &&& self.stats.total_anomalies < u64::MAX
        &&& self.stats.critical_anomalies < u64::MAX
        &&& self.stats.by_type@[type_index(t)] < u64::MAX
    }

    /// A monitor at step 0 with no events, history or counts.
    pub fn new() -> (m: Self)
        ensures
            m.events@.len() == 0,
            m.step == 0,
            m.history@.len() == 0,
            m.next_event_id == 0,
            m.stats.total_checks == 0,
            m.stats.total_anomalies == 0,
            m.stats.critical_anomalies == 0,
            forall|i: int| 0 <= i < 18 ==> m.stats.by_type@[i] == 0,
            m.stats.last_anomaly_step.is_none(),
            m.stats_match_events(),
    {
        AnomalyMonitor {
            events: Vec::new(),
            step: 0,
            history: Vec::new(),
            next_event_id: 0,
            stats: AnomalyStats::default(),
        }
    }

    /// Advance to the next step.
    pub fn next_step(&mut self)
        requires
            old(self).step < u64::MAX,
        ensures
            final(self).step == old(self).step + 1,
            final(self).events == old(self).events,
            final(self).history == old(self).history,
            final(self).next_event_id == old(self).next_event_id,
            final(self).stats == old(self).stats,
    {
        self.step = self.step + 1;
    }

    /// Count one check performed.
    pub fn count_check(&mut self)
        requires
            old(self).stats.total_checks < u64::MAX,
        ensures
            final(self).stats == (AnomalyStats {
                total_checks: (old(self).stats.total_checks + 1) as u64,
                ..old(self).stats
            }),
            final(self).events == old(self).events,
            final(self).step == old(self).step,
            final(self).history == old(self).history,
            final(self).next_event_id == old(self).next_event_id,
    {
        self.stats.total_checks = self.stats.total_checks + 1;
    }

    /// Record an anomaly: it gets the next event number and the current
    /// step, and is counted in total, by type, and as critical when it is.
    pub fn record(&mut self, event: AnomalyEvent)
        requires
            old(self).has_room_for(event.anomaly_type),
        ensures
            final(self).events@ == old(self).events@.push(
                stamped(event, old(self).next_event_id, old(self).step),
            ),
            final(self).next_event_id == old(self).next_event_id + 1,
            final(self).step == old(self).step,
            final(self).history == old(self).history,
            final(self).stats.total_checks == old(self).stats.total_checks,
            final(self).stats.total_anomalies == old(self).stats.total_anomalies + 1,
            final(self).stats.critical_anomalies == old(self).stats.critical_anomalies + if anomaly_severity(
                event.anomaly_type,
            ) >= 3 {
                1int
            } else {
                0int
            },
            final(self).stats.by_type@ == old(self).stats.by_type@.update(
                type_index(event.anomaly_type),
                (old(self).stats.by_type@[type_index(event.anomaly_type)] + 1) as u64,
            ),
            final(self).stats.last_anomaly_step == Some(old(self).step),
            old(self).stats_match_events() ==> final(self).stats_match_events(),
    {
        let ghost old_events = self.events@;
        let ghost old_stats = self.stats;
        let mut event = event;
        event.id = self.next_event_id;
        self.next_event_id = self.next_event_id + 1;
        event.step = self.step;

        self.stats.total_anomalies = self.stats.total_anomalies + 1;
        if event.anomaly_type.is_critical() {
            self.stats.critical_anomalies = self.stats.critical_anomalies + 1;
        }
        let idx = type_slot(event.anomaly_type);
        let count = self.stats.by_type[idx];
        self.stats.by_type[idx] = count + 1;
        self.stats.last_anomaly_step = Some(self.step);

        self.events.push(event);
        proof {
            let ev = self.events@;
            let x = ev.last();
            assert(ev == old_events.push(x));
            old_events.lemma_filter_len_push(critical(), x);
            assert forall|i: int| 0 <= i < 18 implies #[trigger] self.stats.by_type@[i]
                == old_stats.by_type@[i] + if type_index(x.anomaly_type) == i {
                1int
            } else {
                0int
            } by {
                old_events.lemma_filter_len_push(of_slot(i), x);
            }
            assert forall|i: int| 0 <= i < 18 implies #[trigger] ev.filter(of_slot(i)).len()
                == old_events.filter(of_slot(i)).len() + if type_index(x.anomaly_type) == i {
                1int
            } else {
                0int
            } by {
                old_events.lemma_filter_len_push(of_slot(i), x);
            }
            assert forall|k: int| 0 <= k < ev.len() implies #[trigger] ev[k].id == if k
                < old_events.len() {
                old_events[k].id as int
            } else {
                self.next_event_id - 1
            } by {}
        }
    }

    /// Keep a finite reading in the history, dropping the oldest one when
    /// more than `window` are held.
    pub fn push_history(&mut self, value_bits: u64, window: usize)
        ensures
            final(self).history@ == windowed(old(self).history@, (value_bits, old(self).step), window),
            final(self).events == old(self).events,
            final(self).step == old(self).step,
            final(self).next_event_id == old(self).next_event_id,
            final(self).stats == old(self).stats,
    {
        self.history.push((value_bits, self.step));
        if self.history.len() > window {
            self.history.remove(0);
        }
    }

    /// The values of the readings in the history, oldest first.
    pub fn history_values(&self) -> (v: Vec<u64>)
        ensures
            v@ == self.history@.map_values(|r: (u64, u64)| r.0),
    {
        let mut v: Vec<u64> = Vec::new();
        let mut i: usize = 0;
        while i < self.history.len()
            invariant
                i <= self.history@.len(),
                v@ == self.history@.subrange(0, i as int).map_values(|r: (u64, u64)| r.0),
            decreases self.history@.len() - i,
        {
            v.push(self.history[i].0);
            i = i + 1;
            assert(v@ =~= self.history@.subrange(0, i as int).map_values(|r: (u64, u64)| r.0));
        }
        assert(self.history@.subrange(0, self.history@.len() as int) =~= self.history@);
        v
    }

    /// The events of the last `n_steps` steps, in the order recorded.
    pub fn recent_anomalies(&self, n_steps: u64) -> (r: Vec<&AnomalyEvent>)
        ensures
            pointed(r@) == self.events@.filter(since(cutoff_step(self.step, n_steps))),
    {
        let cutoff = self.step.saturating_sub(n_steps);
        let ghost pred = since(cutoff_step(self.step, n_steps));
        let mut r: Vec<&AnomalyEvent> = Vec::new();
        let mut i: usize = 0;
        while i < self.events.len()
            invariant
                i <= self.events@.len(),
                cutoff == cutoff_step(self.step, n_steps),
                pred == since(cutoff),
                pointed(r@) == self.events@.subrange(0, i as int).filter(pred),
            decreases self.events@.len() - i,
        {
            proof {
                assert(self.events@.subrange(0, i + 1).drop_last() =~= self.events@.subrange(0, i as int));
                reveal(Seq::filter);
            }
            let e = &self.events[i];
            if e.step >= cutoff {
                r.push(e);
            }
            i = i + 1;
            assert(pointed(r@) =~= self.events@.subrange(0, i as int).filter(pred));
        }
        assert(self.events@.subrange(0, self.events@.len() as int) =~= self.events@);
        r
    }

    /// The critical events, in the order recorded.
    pub fn critical_anomalies(&self) -> (r: Vec<&AnomalyEvent>)
        ensures
            pointed(r@) == self.events@.filter(critical()),
    {
        let ghost pred = critical();
        let mut r: Vec<&AnomalyEvent> = Vec::new();
        let mut i: usize = 0;
        while i < self.events.len()
            invariant
                i <= self.events@.len(),
                pred == critical(),
                pointed(r@) == self.events@.subrange(0, i as int).filter(pred),
            decreases self.events@.len() - i,
        {
            proof {
                assert(self.events@.subrange(0, i + 1).drop_last() =~= self.events@.subrange(0, i as int));
                reveal(Seq::filter);
            }
            let e = &self.events[i];
            if e.severity() >= 3 {
                r.push(e);
            }
            i = i + 1;
            assert(pointed(r@) =~= self.events@.subrange(0, i as int).filter(pred));
        }
        assert(self.events@.subrange(0, self.events@.len() as int) =~= self.events@);
        r
    }

    /// Healthy when no critical event occurred in the last `lookback_steps` steps.
    pub fn is_healthy(&self, lookback_steps: u64) -> (b: bool)
        ensures
            b == !critical_since(self.events@, cutoff_step(self.step, lookback_steps)),
    {
        let cutoff = self.step.saturating_sub(lookback_steps);
        let mut i: usize = 0;
        while i < self.events.len()
            invariant
                i <= self.events@.len(),
                cutoff == cutoff_step(self.step, lookback_steps),
                forall|k: int|
                    0 <= k < i ==> !((#[trigger] self.events@[k]).step >= cutoff && anomaly_severity(
                        self.events@[k].anomaly_type,
                    ) >= 3),
            decreases self.events@.len() - i,
        {
            let e = &self.events[i];
            if e.step >= cutoff && e.severity() >= 3 {
                return false;
            }
            i = i + 1;
        }
        true
    }

    /// Keep only the last `keep_last` events.
    pub fn prune(&mut self, keep_last: usize)
        ensures
            final(self).events@ == if old(self).events@.len() > keep_last {
                old(self).events@.subrange(
                    old(self).events@.len() - keep_last,
                    old(self).events@.len() as int,
                )
            } else {
                old(self).events@
            },
            final(self).step == old(self).step,
            final(self).history == old(self).history,
            final(self).next_event_id == old(self).next_event_id,
            final(self).stats == old(self).stats,
    {
        if self.events.len() > keep_last {
            let drain_count = self.events.len() - keep_last;
            let kept = self.events.split_off(drain_count);
            self.events = kept;
        }
    }

    /// A snapshot: the step, the counts, the events of the last 100 steps
    /// and the health over the last 10.
    pub fn report(&self) -> (r: AnomalyReport)
        ensures
            r.step == self.step,
            r.stats == self.stats,
            r.recent_events@.len() == self.events@.filter(since(cutoff_step(self.step, 100))).len(),
            forall|i: int|
                0 <= i < r.recent_events@.len() ==> same_event(
                    #[trigger] r.recent_events@[i],
                    self.events@.filter(since(cutoff_step(self.step, 100)))[i],
                ),
            r.is_healthy == !critical_since(self.events@, cutoff_step(self.step, 10)),
    {
        let recent = self.recent_anomalies(100);
        let mut events: Vec<AnomalyEvent> = Vec::new();
        let mut i: usize = 0;
        while i < recent.len()
            invariant
                i <= recent@.len(),
                events@.len() == i,
                forall|k: int|
                    0 <= k < i ==> same_event(#[trigger] events@[k], *recent@[k]),
            decreases recent@.len() - i,
        {
            events.push(recent[i].duplicate());
            i = i + 1;
        }
        proof {
            assert forall|k: int| 0 <= k < recent@.len() implies pointed(recent@)[k] == *recent@[k] by {}
        }
        AnomalyReport {
            step: self.step,
            stats: self.stats,
            recent_events: events,
            is_healthy: self.is_healthy(10),
        }
    }

    /// Summary: the step, the counts, and the health over the last 10 steps.
    pub fn summary(&self) -> (s: String)
        ensures
            s@ == summary_text(
                self.step,
                self.stats,
                !critical_since(self.events@, cutoff_step(self.step, 10)),
            ),
    {
        let b = &self.stats.by_type;
        let mut s = String::new();
        push_str(&mut s, "Anomaly Monitor @ step ");
        push_decimal(&mut s, self.step);
        push_str(&mut s, "\n├─ Total checks: ");
        push_decimal(&mut s, self.stats.total_checks);
        push_str(&mut s, "\n├─ Total anomalies: ");
        push_decimal(&mut s, self.stats.total_anomalies);
        push_str(&mut s, " (");
        push_decimal(&mut s, self.stats.critical_anomalies);
        push_str(&mut s, " critical)\n├─ NaN/Inf: ");
        push_decimal(&mut s, b[0]);
        push_str(&mut s, "/");
        push_decimal(&mut s, b[1]);
        push_str(&mut s, "/");
        push_decimal(&mut s, b[2]);
        push_str(&mut s, "\n├─ Gradient: explode=");
        push_decimal(&mut s, b[3]);
        push_str(&mut s, ", vanish=");
        push_decimal(&mut s, b[4]);
        push_str(&mut s, "\n├─ Attention: bounds=");
        push_decimal(&mut s, b[5]);
        push_str(&mut s, ", collapse=");
        push_decimal(&mut s, b[6]);
        push_str(&mut s, ", diffuse=");
        push_decimal(&mut s, b[7]);
        push_str(&mut s, "\n├─ Conservation: energy=");
        push_decimal(&mut s, b[8]);
        push_str(&mut s, ", momentum=");
        push_decimal(&mut s, b[9]);
        push_str(&mut s, "\n├─ Other: instability=");
        push_decimal(&mut s, b[10]);
        push_str(&mut s, ", dead=");
        push_decimal(&mut s, b[11]);
        push_str(&mut s, ", saturated=");
        push_decimal(&mut s, b[12]);
        push_str(&mut s, "\n└─ Status: ");
        if self.is_healthy(10) {
            push_str(&mut s, "HEALTHY");
        } else {
            push_str(&mut s, "ANOMALIES DETECTED");
        }
        s
    }
}

/// Raising one counter by one raises the sum of the counters by one.
proof fn lemma_counter_sum_bump(s: Seq<u64>, i: int)
    requires
        0 <= i < s.len(),
        s[i] < u64::MAX,
    ensures
        counter_sum(s.update(i, (s[i] + 1) as u64)) == counter_sum(s) + 1,
    decreases s.len(),
{
    let u = s.update(i, (s[i] + 1) as u64);
    if i == s.len() - 1 {
        assert(u.drop_last() =~= s.drop_last());
    } else {
        assert(u.drop_last() =~= s.drop_last().update(i, (s[i] + 1) as u64));
        lemma_counter_sum_bump(s.drop_last(), i);
    }
}

/// Recording keeps the counts consistent: when the counters by type add
/// up to the total before a record, they add up to the new total after it
/// (the record raises the total and the counter of the event's type by one).
pub proof fn law_record_counts_each_anomaly_once(by_type: Seq<u64>, total: u64, t: AnomalyType)
    requires
        by_type.len() == 18,
        counter_sum(by_type) == total,
        by_type[type_index(t)] < u64::MAX,
    ensures
        counter_sum(by_type.update(type_index(t), (by_type[type_index(t)] + 1) as u64)) == total
            + 1,
{
    lemma_counter_sum_bump(by_type, type_index(t));
}

/// A recorded critical anomaly makes the monitor unhealthy for every
/// lookback: it is stamped with the current step, which every lookback covers.
pub proof fn law_critical_record_is_unhealthy(
    events: Seq<AnomalyEvent>,
    event: AnomalyEvent,
    id: u64,
    step: u64,
    lookback: u64,
)
    requires
        anomaly_severity(event.anomaly_type) >= 3,
    ensures
        critical_since(events.push(stamped(event, id, step)), cutoff_step(step, lookback)),
{
    let all = events.push(stamped(event, id, step));
    assert(all[events.len() as int] == stamped(event, id, step));
}

/// Events of other severities never make the monitor unhealthy: recording
/// a non-critical anomaly leaves the health verdict as it was.
pub proof fn law_noncritical_record_keeps_health(
    events: Seq<AnomalyEvent>,
    event: AnomalyEvent,
    id: u64,
    step: u64,
    cutoff: u64,
)
    requires
        anomaly_severity(event.anomaly_type) < 3,
    ensures
        critical_since(events.push(stamped(event, id, step)), cutoff) == critical_since(
            events,
            cutoff,
        ),
{
    let all = events.push(stamped(event, id, step));
    if critical_since(events, cutoff) {
        let i = choose|i: int|
            0 <= i < events.len() && (#[trigger] events[i]).step >= cutoff && anomaly_severity(
                events[i].anomaly_type,
            ) >= 3;
        assert(all[i] == events[i]);
    }
    if critical_since(all, cutoff) {
        let i = choose|i: int|
            0 <= i < all.len() && (#[trigger] all[i]).step >= cutoff && anomaly_severity(
                all[i].anomaly_type,
            ) >= 3;
        assert(i < events.len());
        assert(events[i] == all[i]);
    }
}

/// The history never holds more than its window: a history within the
/// window stays within it after a reading, and a non-empty window always
/// ends with the newest reading.
pub proof fn law_history_within_window(h: Seq<(u64, u64)>, reading: (u64, u64), window: usize)
    requires
        h.len() <= window,
    ensures
        windowed(h, reading, window).len() <= window,
        window > 0 ==> windowed(h, reading, window).last() == reading,
{
}

} // verus!
