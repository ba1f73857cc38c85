use device_shell::llrp::DecodedTag;
use device_shell::named_map::NamedMap;
use device_shell::rfid::{
    llrp_tag_event, mock_tag_epc, mock_tag_event, plan_configured_reader, plan_rfid_adapter,
    reader_not_found, stream_open_message, tag_write_unavailable, MockTagCounter, RfidAdapterPlan,
};
use device_shell::types::{RfidConfig, RfidProtocol, RfidTransport};

fn reader(protocol: RfidProtocol) -> RfidConfig {
    RfidConfig {
        protocol,
        transport: RfidTransport::Tcp,
        host: None,
        port: None,
        path: None,
        baud: None,
        vendor_id: None,
        product_id: None,
    }
}

#[test]
fn reader_drivers() {
    let name = "dock".to_string();
    assert!(matches!(plan_rfid_adapter(&name, &reader(RfidProtocol::Mock)).unwrap(), RfidAdapterPlan::Mock));
    let mut llrp = reader(RfidProtocol::Llrp);
    assert_eq!(
        plan_rfid_adapter(&name, &llrp).unwrap_err(),
        "RFID dock: 'host' required for LLRP protocol"
    );
    llrp.host = Some("192.168.1.50".to_string());
    match plan_rfid_adapter(&name, &llrp).unwrap() {
        RfidAdapterPlan::Llrp { host, port } => {
            assert_eq!(host, "192.168.1.50");
            assert_eq!(port, 5084);
        }
        other => panic!("unexpected {:?}", other),
    }
    llrp.port = Some(14150);
    assert!(matches!(plan_rfid_adapter(&name, &llrp).unwrap(), RfidAdapterPlan::Llrp { port: 14150, .. }));
    assert_eq!(
        plan_rfid_adapter(&name, &reader(RfidProtocol::HidKeyboard)).unwrap_err(),
        "hid-keyboard readers run in browser, no service stream"
    );
    assert_eq!(
        plan_rfid_adapter(&name, &reader(RfidProtocol::SerialProprietary)).unwrap_err(),
        "serial-proprietary RFID adapter not yet implemented"
    );
}

#[test]
fn configured_readers_only() {
    let mut readers: NamedMap<RfidConfig> = NamedMap::new();
    readers.insert("sim".to_string(), reader(RfidProtocol::Mock));
    assert!(matches!(plan_configured_reader(&"sim".to_string(), &readers).unwrap(), RfidAdapterPlan::Mock));
    assert_eq!(
        plan_configured_reader(&"gate".to_string(), &readers).unwrap_err(),
        "RFID reader not found: gate"
    );
}

#[test]
fn simulated_epcs() {
    assert_eq!(mock_tag_epc(1), "E2003412000000000000000000000001");
    assert_eq!(mock_tag_epc(255), "E20034120000000000000000000000FF");
    assert_eq!(mock_tag_epc(u64::MAX), "E200341200000000FFFFFFFFFFFFFFFF");
    assert_ne!(mock_tag_epc(16), mock_tag_epc(1));
    for n in [0u64, 1, 2, 1000, u64::MAX] {
        assert_eq!(mock_tag_epc(n).len(), 32);
    }
}

#[test]
fn simulated_counter_wraps() {
    let mut c = MockTagCounter::new();
    assert_eq!(c.advance(), 1);
    assert_eq!(c.advance(), 2);
    c.counter = u64::MAX;
    assert_eq!(c.advance(), 0);
    assert_eq!(c.counter, 0);
}

#[test]
fn simulated_events() {
    let e = mock_tag_event(&"sim".to_string(), 3, "2024-01-01T00:00:00+00:00".to_string());
    assert_eq!(e.reader, "sim");
    assert_eq!(e.epc, "E2003412000000000000000000000003");
    assert_eq!(e.tid, None);
    assert_eq!(e.rssi, Some(-55));
    assert_eq!(e.antenna, Some(1));
    assert_eq!(e.ts, "2024-01-01T00:00:00+00:00");
}

#[test]
fn llrp_events() {
    let tag = DecodedTag { epc: "E200".to_string(), rssi: Some(-60), antenna: Some(3) };
    let e = llrp_tag_event(&"dock".to_string(), tag, "t".to_string());
    assert_eq!(e.reader, "dock");
    assert_eq!(e.epc, "E200");
    assert_eq!(e.rssi, Some(-60));
    assert_eq!(e.antenna, Some(3u32));
    assert_eq!(e.tid, None);
    let bare = DecodedTag { epc: String::new(), rssi: None, antenna: None };
    let e = llrp_tag_event(&"dock".to_string(), bare, "t".to_string());
    assert_eq!(e.antenna, None);
    assert_eq!(e.rssi, None);
}

#[test]
fn route_answers() {
    let e = reader_not_found("gate");
    assert_eq!(e.error, "READER_NOT_FOUND");
    assert_eq!(e.message, "RFID reader gate not configured");
    let e = tag_write_unavailable();
    assert_eq!(e.error, "NOT_IMPLEMENTED");
    assert_eq!(e.message, "Tag write not wired yet.");
    assert_eq!(stream_open_message("dock"), r#"{"type":"open","message":"Streaming dock"}"#);
}
