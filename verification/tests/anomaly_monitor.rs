use torus_agent::collider::anomaly::AnomalyType;
use torus_agent::collider::monitor::{type_slot, AnomalyEvent, AnomalyMonitor};

#[test]
fn monitor_records_numbered_and_stamped_events() {
    let mut monitor = AnomalyMonitor::new();
    for _ in 0..10 {
        monitor.next_step();
        monitor.count_check();
    }
    assert!(monitor.is_healthy(10));

    monitor.count_check();
    monitor.record(
        AnomalyEvent::new(AnomalyType::NaN, 0, 0, f64::NAN.to_bits()).with_context("nan test"),
    );
    assert!(!monitor.is_healthy(1));
    assert_eq!(monitor.events.len(), 1);
    assert_eq!(monitor.events[0].id, 0);
    assert_eq!(monitor.events[0].step, 10);
    assert_eq!(monitor.events[0].context, "nan test");
    assert_eq!(monitor.stats.total_checks, 11);
    assert_eq!(monitor.stats.total_anomalies, 1);
    assert_eq!(monitor.stats.critical_anomalies, 1);
    assert_eq!(monitor.stats.by_type[0], 1);
    assert_eq!(monitor.stats.last_anomaly_step, Some(10));

    monitor.record(AnomalyEvent::new(AnomalyType::DeadNeuron, 99, 2, 0));
    assert_eq!(monitor.events[1].id, 1);
    assert_eq!(monitor.events[1].step, 10);
    assert_eq!(monitor.stats.critical_anomalies, 1);
    assert_eq!(monitor.stats.by_type[11], 1);
    let sum: u64 = monitor.stats.by_type.iter().sum();
    assert_eq!(sum, monitor.stats.total_anomalies);
}

#[test]
fn monitor_health_looks_back_only_so_far() {
    let mut monitor = AnomalyMonitor::new();
    monitor.record(AnomalyEvent::new(AnomalyType::ExplodingGradient, 0, 0, 0));
    for _ in 0..20 {
        monitor.next_step();
    }
    assert!(monitor.is_healthy(10));
    assert!(!monitor.is_healthy(20));
    monitor.record(AnomalyEvent::new(AnomalyType::AttentionCollapse, 0, 0, 0));
    assert!(monitor.is_healthy(10));
    assert_eq!(monitor.critical_anomalies().len(), 1);
    assert_eq!(monitor.recent_anomalies(5).len(), 1);
    assert_eq!(monitor.recent_anomalies(20).len(), 2);
}

#[test]
fn monitor_prune_keeps_latest_events() {
    let mut monitor = AnomalyMonitor::new();
    for i in 0..5u64 {
        monitor.record(AnomalyEvent::new(AnomalyType::DeadNeuron, 0, i as usize, 0));
    }
    monitor.prune(10);
    assert_eq!(monitor.events.len(), 5);
    monitor.prune(2);
    assert_eq!(monitor.events.len(), 2);
    assert_eq!(monitor.events[0].id, 3);
    assert_eq!(monitor.events[1].id, 4);
    monitor.record(AnomalyEvent::new(AnomalyType::DeadNeuron, 0, 0, 0));
    assert_eq!(monitor.events[2].id, 5);
}

#[test]
fn monitor_history_is_bounded_by_window() {
    let mut monitor = AnomalyMonitor::new();
    for v in [1.0f64, 2.0, 3.0, 4.0] {
        monitor.push_history(v.to_bits(), 3);
        monitor.next_step();
    }
    let values: Vec<f64> = monitor.history_values().into_iter().map(f64::from_bits).collect();
    assert_eq!(values, vec![2.0, 3.0, 4.0]);
    assert_eq!(monitor.history[0].1, 1);
}

#[test]
fn monitor_summary_text_is_exact() {
    let mut monitor = AnomalyMonitor::new();
    monitor.next_step();
    monitor.count_check();
    monitor.count_check();
    monitor.record(AnomalyEvent::new(AnomalyType::Inf, 0, 0, f64::INFINITY.to_bits()));
    monitor.record(AnomalyEvent::new(AnomalyType::VanishingGradient, 0, 0, 0));
    let expected = "Anomaly Monitor @ step 1\n\
                    ├─ Total checks: 2\n\
                    ├─ Total anomalies: 2 (1 critical)\n\
                    ├─ NaN/Inf: 0/1/0\n\
                    ├─ Gradient: explode=0, vanish=1\n\
                    ├─ Attention: bounds=0, collapse=0, diffuse=0\n\
                    ├─ Conservation: energy=0, momentum=0\n\
                    ├─ Other: instability=0, dead=0, saturated=0\n\
                    └─ Status: ANOMALIES DETECTED";
    assert_eq!(monitor.summary(), expected);

    let healthy = AnomalyMonitor::new();
    assert!(healthy.summary().ends_with("└─ Status: HEALTHY"));
}

#[test]
fn monitor_report_snapshots_recent_events() {
    let mut monitor = AnomalyMonitor::new();
    monitor.record(AnomalyEvent::new(AnomalyType::EnergyViolation, 0, 1, 7).with_head(2));
    let report = monitor.report();
    assert_eq!(report.step, 0);
    assert!(report.is_healthy);
    assert_eq!(report.recent_events.len(), 1);
    assert_eq!(report.recent_events[0].head, Some(2));
    assert_eq!(report.recent_events[0].value_bits, 7);
    assert_eq!(report.stats.total_anomalies, 1);
}

#[test]
fn anomaly_event_builders_and_slots() {
    let event = AnomalyEvent::new(AnomalyType::ExplodingGradient, 100, 3, 9999.9f64.to_bits())
        .with_head(2)
        .with_stream(4)
        .with_threshold(1000.0f64.to_bits())
        .with_context("test gradient")
        .with_particle(9);
    assert_eq!(event.severity(), 3);
    assert_eq!(event.head, Some(2));
    assert_eq!(event.stream_id, Some(4));
    assert_eq!(f64::from_bits(event.threshold_bits), 1000.0);
    assert_eq!(event.particle_id, Some(9));
    let copy = event.duplicate();
    assert_eq!(copy.context, "test gradient");
    assert_eq!(type_slot(AnomalyType::NaN), 0);
    assert_eq!(type_slot(AnomalyType::EthicsRelationshipDegrading), 17);
}
