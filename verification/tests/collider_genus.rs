use torus_agent::collider::anomaly::{AnomalyStats, AnomalyType};
use torus_agent::genus13::{compare_topologies, Genus13Config, KeyringConfig, SatelliteDomain};

#[test]
fn test_anomaly_type_severity() {
    assert_eq!(AnomalyType::NaN.severity(), 3);
    assert_eq!(AnomalyType::VanishingGradient.severity(), 2);
    assert_eq!(AnomalyType::AttentionCollapse.severity(), 1);
}

#[test]
fn test_satellite_domains() {
    let domains = SatelliteDomain::all();
    assert_eq!(domains.len(), 12);
    assert_eq!(domains[0], SatelliteDomain::Memory);
    assert_eq!(domains[11], SatelliteDomain::Action);
    for (i, d) in domains.iter().enumerate() {
        assert_eq!(d.index(), i);
        assert!(!d.name().is_empty());
    }
}

#[test]
fn anomaly_classification() {
    assert!(AnomalyType::ExplodingGradient.is_critical());
    assert!(!AnomalyType::DeadNeuron.is_critical());
    assert!(AnomalyType::EthicsParasitism.is_ethics_violation());
    assert!(AnomalyType::EthicsParasitism.is_critical());
    assert!(!AnomalyType::EthicsRelationshipDegrading.is_critical());
    assert!(!AnomalyType::NaN.is_ethics_violation());
    assert_eq!(AnomalyType::NegInf.name(), "Negative Infinity");
    assert_eq!(AnomalyType::EthicsNoMutualBenefit.name(), "Ethics: No Mutual Benefit");
    let stats = AnomalyStats::default();
    assert_eq!(stats.by_type, [0u64; 18]);
    assert!(stats.last_anomaly_step.is_none());
}

#[test]
fn satellite_names() {
    assert_eq!(SatelliteDomain::MetaCognition.name(), "MetaCognition");
    assert_eq!(SatelliteDomain::Causal.index(), 7);
}

#[test]
fn test_nano_config() {
    let cfg = Genus13Config::nano();
    assert_eq!(cfg.genus, 1);
    assert_eq!(cfg.total_streams(), 8);
    assert_eq!(cfg.d_model, 256);
    let params = cfg.param_count();
    assert!(params > 10_000_000 && params < 100_000_000, "nano should be ~15M, got {}", params);
}

#[test]
fn test_tiny_config() {
    let cfg = Genus13Config::tiny();
    assert_eq!(cfg.genus, 1);
    assert_eq!(cfg.d_model, 768);
    let params = cfg.param_count();
    assert!(params > 100_000_000 && params < 1_000_000_000, "tiny should be ~424M, got {}", params);
}

#[test]
fn test_small_config() {
    let cfg = Genus13Config::small();
    assert_eq!(cfg.genus, 3);
    assert_eq!(cfg.total_streams(), 24);
    let params = cfg.param_count();
    assert!(params > 1_000_000_000, "small should be >1B, got {}", params);
}

#[test]
fn test_large_config() {
    let cfg = Genus13Config::large();
    assert_eq!(cfg.genus, 13);
    assert_eq!(cfg.total_streams(), 104);
    assert_eq!(cfg.d_model, 8192);
    assert_eq!(cfg.n_layers, 48);
    let params = cfg.param_count();
    assert!(params > 500_000_000_000, "large should be >500B, got {}", params);
}

#[test]
fn test_giant_config() {
    let cfg = Genus13Config::giant();
    assert_eq!(cfg.genus, 13);
    assert_eq!(cfg.total_streams(), 104);
    assert_eq!(cfg.d_model, 8192);
    assert_eq!(cfg.n_layers, 64);
    let params = cfg.param_count();
    assert!(params > 1_000_000_000_000, "giant should be >1T, got {}", params);
    assert!(params < 3_000_000_000_000, "giant should be <3T, got {}", params);
}

#[test]
fn test_default_is_giant() {
    let cfg = Genus13Config::default();
    assert_eq!(cfg.genus, 13);
    assert_eq!(cfg.n_layers, 64);
}

#[test]
fn test_all_presets_valid() {
    let presets = vec![
        ("nano", Genus13Config::nano()),
        ("tiny", Genus13Config::tiny()),
        ("small", Genus13Config::small()),
        ("medium", Genus13Config::medium()),
        ("large", Genus13Config::large()),
        ("giant", Genus13Config::giant()),
    ];
    for (name, cfg) in presets {
        assert!(cfg.genus >= 1, "{} genus >= 1", name);
        assert!(cfg.d_model >= 128, "{} d_model >= 128", name);
        assert!(cfg.n_layers >= 1, "{} n_layers >= 1", name);
        assert_eq!(cfg.total_streams(), cfg.genus * 8);
    }
}

#[test]
fn test_keyring_nano_config() {
    let cfg = KeyringConfig::nano();
    assert_eq!(cfg.n_satellites, 12);
    assert_eq!(cfg.genus(), 13);
    assert_eq!(cfg.total_streams(), 104);
    assert_eq!(cfg.ring_d_model, 256);
    assert_eq!(cfg.sat_d_model, 128);
}

#[test]
fn test_keyring_1_7t_config() {
    let cfg = KeyringConfig::keyring_1_7t();
    assert_eq!(cfg.genus(), 13);
    assert_eq!(cfg.total_streams(), 104);
    assert_eq!(cfg.ring_d_model, 8192);
    assert_eq!(cfg.sat_d_model, 8192);
    let params = cfg.param_count();
    assert!(params > 1_000_000_000_000, "should be >1T, got {}", params);
}

#[test]
fn parameter_estimates_are_exact() {
    assert_eq!(Genus13Config::nano().param_count(), 15_731_712);
    assert_eq!(Genus13Config::tiny().param_count(), 283_133_952);
    assert_eq!(Genus13Config::small().param_count(), 12_094_046_208);
    assert_eq!(Genus13Config::medium().param_count(), 150_736_732_160);
    assert_eq!(Genus13Config::large().param_count(), 1_683_553_517_568);
    assert_eq!(Genus13Config::giant().param_count(), 2_244_738_023_424);
    assert_eq!(KeyringConfig::nano().param_count(), 99_264_000);
    assert_eq!(KeyringConfig::keyring_1_7t().param_count(), 1_720_512_757_760);
    assert_eq!(KeyringConfig::default(), KeyringConfig::keyring_1_7t());
    assert_eq!(f64::from_bits(Genus13Config::nano().dropout_bits), 0.1);
    assert_eq!(f64::from_bits(Genus13Config::giant().base_spiral_winding_bits), 1.618033988749895);
    assert_eq!(f64::from_bits(KeyringConfig::nano().junction_alpha_bits), 0.3);
    assert_eq!(f64::from_bits(KeyringConfig::keyring_1_7t().dropout_bits), 0.05);
}

#[test]
fn checked_estimates_refuse_overflow() {
    assert_eq!(Genus13Config::giant().checked_param_count(), Some(2_244_738_023_424));
    let mut huge = Genus13Config::giant();
    huge.d_model = usize::MAX / 2;
    assert_eq!(huge.checked_param_count(), None);
    let mut no_bridge_spacing = Genus13Config::small();
    no_bridge_spacing.bridge_every_n_layers = 0;
    assert_eq!(no_bridge_spacing.checked_param_count(), None);
    no_bridge_spacing.use_cross_surface_coherence = false;
    assert!(no_bridge_spacing.checked_param_count().is_some());
    assert_eq!(KeyringConfig::nano().checked_param_count(), Some(99_264_000));
    let mut wide = KeyringConfig::nano();
    wide.sat_d_model = usize::MAX / 4;
    assert_eq!(wide.checked_param_count(), None);
}

#[test]
fn topology_comparison_table() {
    let t = compare_topologies("2.24T", "1.72T");
    let lines: Vec<&str> = t.lines().collect();
    assert_eq!(lines.len(), 15);
    assert_eq!(lines[1], "║          GENUS-13 TOPOLOGY COMPARISON                          ║");
    assert_eq!(lines[5], "║ Genus            │ 13                   │ 13                   ║");
    assert_eq!(lines[6], "║ Total streams    │ 104                  │ 104                  ║");
    assert_eq!(lines[8], "║ Satellite d_model│ 8192                 │ 8192                 ║");
    assert_eq!(lines[10], "║ Satellite layers │ 64                   │ 48                   ║");
    assert_eq!(lines[11], "║ Total params     │ 2.24T                │ 1.72T                ║");
    assert_eq!(lines[13], "║ Specialization   │ none (uniform)       │ 12 domains           ║");
    assert!(t.ends_with("╝"));
    let long = compare_topologies("a value longer than twenty", "x");
    assert!(long.contains("│ a value longer than twenty │ x                    ║"));
}
