use device_shell::named_map::NamedMap;
use device_shell::types::{
    default_port, effective_port, subsystem_health, ApiError, CommandKind, Config, PrintCommand,
    ScaleConfig, ScaleProtocol, ScaleTransport, SubsystemStatus,
};

fn mock_scale_config() -> ScaleConfig {
    ScaleConfig {
        protocol: ScaleProtocol::Mock,
        transport: ScaleTransport::Mock,
        path: None,
        baud: None,
        vendor_id: None,
        product_id: None,
        unit: None,
    }
}

#[test]
fn named_map_keeps_insertion_order_and_replaces() {
    let mut m: NamedMap<u32> = NamedMap::new();
    assert_eq!(m.len(), 0);
    m.insert("b".to_string(), 1);
    m.insert("a".to_string(), 2);
    m.insert("b".to_string(), 3);
    assert_eq!(m.len(), 2);
    assert_eq!(m.name_at(0), "b");
    assert_eq!(*m.value_at(0), 3);
    assert_eq!(m.name_at(1), "a");
    assert_eq!(m.get(&"a".to_string()), Some(&2));
    assert_eq!(m.get(&"c".to_string()), None);
    assert!(m.contains_key(&"b".to_string()));
    assert!(!m.contains_key(&"c".to_string()));
    assert_eq!(m.find(&"a".to_string()), Some(1));
    assert_eq!(m.find(&"z".to_string()), None);
}

#[test]
fn ports() {
    assert_eq!(default_port(), 3333);
    let mut config = Config::default();
    assert_eq!(config.port, 0);
    assert_eq!(effective_port(&config, 3333), 3333);
    config.port = 8080;
    assert_eq!(effective_port(&config, 3333), 8080);
}

#[test]
fn health_counts_configured_devices() {
    let mut config = Config::default();
    config.scales.insert("a".to_string(), mock_scale_config());
    config.scales.insert("b".to_string(), mock_scale_config());
    let h = subsystem_health(&config);
    assert_eq!(h.printers, SubsystemStatus { ok: true, count: 0 });
    assert_eq!(h.scales, SubsystemStatus { ok: true, count: 2 });
    assert_eq!(h.rfid, SubsystemStatus { ok: true, count: 0 });
}

#[test]
fn api_errors_and_commands() {
    let e = ApiError::new("CODE".to_string(), "message".to_string());
    assert_eq!(e.error, "CODE");
    assert_eq!(e.message, "message");
    let c = PrintCommand::new(CommandKind::Cut);
    assert_eq!(c.kind, CommandKind::Cut);
    assert!(c.value.is_none() && c.lines.is_none() && c.mode.is_none() && c.data.is_none());
}
