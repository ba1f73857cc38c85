use device_shell::discovery::to_hex;
use device_shell::named_map::NamedMap;
use device_shell::nci::{clean_received, poll_frame, text_after, NciDecoder, no_response_message};
use device_shell::scales::{
    hid_no_report_message, normalize_unit, parse_hex_u16, parse_hid_pos_report, plan_catalog_scale,
    plan_scale_adapter, scale_not_found, unit_from_code, HexIdError, IntErrorKind, MockScaleState,
    ScaleAdapterPlan,
};
use device_shell::types::{ScaleConfig, ScaleProtocol, ScaleTransport, WeightUnit};

fn scale(protocol: ScaleProtocol) -> ScaleConfig {
    ScaleConfig {
        protocol,
        transport: ScaleTransport::Serial,
        path: None,
        baud: None,
        vendor_id: None,
        product_id: None,
        unit: None,
    }
}

#[test]
fn hid_unit_codes() {
    assert_eq!(unit_from_code(2, WeightUnit::Lb), WeightUnit::G);
    assert_eq!(unit_from_code(3, WeightUnit::Lb), WeightUnit::G);
    assert_eq!(unit_from_code(4, WeightUnit::Lb), WeightUnit::Kg);
    assert_eq!(unit_from_code(11, WeightUnit::Lb), WeightUnit::Oz);
    assert_eq!(unit_from_code(12, WeightUnit::Kg), WeightUnit::Lb);
    assert_eq!(unit_from_code(7, WeightUnit::Oz), WeightUnit::Oz);
}

#[test]
fn hid_reports() {
    let r = parse_hid_pos_report(&[3, 4, 12, 0xFE, 0xE8, 0x03, 0, 0], WeightUnit::Kg).unwrap();
    assert_eq!(r.status, 4);
    assert_eq!(r.unit, WeightUnit::Lb);
    assert_eq!(r.exponent, -2);
    assert_eq!(r.raw, 1000);
    assert!(!r.is_stable());
    let r = parse_hid_pos_report(&[3, 1, 99, 0x01, 0x05, 0x00], WeightUnit::Oz).unwrap();
    assert!(r.is_stable());
    assert_eq!(r.unit, WeightUnit::Oz);
    assert_eq!(r.exponent, 1);
    assert_eq!(r.raw, 5);
    assert!(parse_hid_pos_report(&[3, 1, 2, 0, 0], WeightUnit::Kg).is_none());
}

#[test]
fn usb_id_parsing() {
    assert_eq!(parse_hex_u16(&Some("0x0b67".to_string())).unwrap(), 0x0b67);
    assert_eq!(parse_hex_u16(&Some("0X555E".to_string())).unwrap(), 0x555e);
    assert_eq!(parse_hex_u16(&Some("0x0x12".to_string())).unwrap(), 0x12);
    assert_eq!(parse_hex_u16(&Some("+ff".to_string())).unwrap(), 0xff);
    let missing = parse_hex_u16(&None).unwrap_err();
    assert!(matches!(missing, HexIdError::Missing));
    assert_eq!(missing.message(), "missing hex value");
    let empty = parse_hex_u16(&Some("0x".to_string())).unwrap_err();
    assert!(matches!(empty, HexIdError::Invalid { kind: IntErrorKind::Empty, .. }));
    assert_eq!(empty.message(), "invalid hex 0x: cannot parse integer from empty string");
    let bad = parse_hex_u16(&Some("zz".to_string())).unwrap_err();
    assert_eq!(bad.message(), "invalid hex zz: invalid digit found in string");
    let big = parse_hex_u16(&Some("10000".to_string())).unwrap_err();
    assert_eq!(big.message(), "invalid hex 10000: number too large to fit in target type");
}

#[test]
fn usb_id_round_trip_on_examples() {
    for n in [0u16, 1, 0x0b67, 0x8d, 0xffff] {
        assert_eq!(parse_hex_u16(&Some(to_hex(n))).unwrap(), n);
    }
}

#[test]
fn unit_names() {
    assert_eq!(normalize_unit("KG", WeightUnit::Lb), WeightUnit::Kg);
    assert_eq!(normalize_unit("g", WeightUnit::Lb), WeightUnit::G);
    assert_eq!(normalize_unit("Lb", WeightUnit::Kg), WeightUnit::Lb);
    assert_eq!(normalize_unit("oZ", WeightUnit::Kg), WeightUnit::Oz);
    // KELVIN SIGN lower-cases to k
    assert_eq!(normalize_unit("\u{212A}g", WeightUnit::Lb), WeightUnit::Kg);
    assert_eq!(normalize_unit("lbs", WeightUnit::Oz), WeightUnit::Oz);
    assert_eq!(normalize_unit("", WeightUnit::G), WeightUnit::G);
}

#[test]
fn mock_scale_climbs_and_falls() {
    let mut s = MockScaleState::new();
    assert_eq!(s.tick(), 5);
    assert_eq!(s.tick(), 10);
    for _ in 0..97 {
        s.tick();
    }
    assert_eq!(s.tick(), 500);
    assert_eq!(s.direction, -1);
    assert_eq!(s.tick(), 495);
    for _ in 0..98 {
        s.tick();
    }
    assert_eq!(s.tick(), 0);
    assert_eq!(s.direction, 1);
    assert_eq!(s.tick(), 5);
}

#[test]
fn scale_drivers() {
    let name = "s1".to_string();
    let mut mock = scale(ScaleProtocol::Mock);
    assert!(matches!(plan_scale_adapter(&name, &mock).unwrap(), ScaleAdapterPlan::Mock { unit: WeightUnit::Kg }));
    mock.unit = Some(WeightUnit::Oz);
    assert!(matches!(plan_scale_adapter(&name, &mock).unwrap(), ScaleAdapterPlan::Mock { unit: WeightUnit::Oz }));

    let mut nci = scale(ScaleProtocol::Toledo);
    assert_eq!(
        plan_scale_adapter(&name, &nci).unwrap_err(),
        "Scale s1: serial 'path' is required for NCI protocol"
    );
    nci.path = Some("/dev/ttyUSB0".to_string());
    match plan_scale_adapter(&name, &nci).unwrap() {
        ScaleAdapterPlan::Nci { path, baud, unit } => {
            assert_eq!(path, "/dev/ttyUSB0");
            assert_eq!(baud, 9600);
            assert_eq!(unit, WeightUnit::Kg);
        }
        other => panic!("unexpected {:?}", other),
    }

    let mut hid = scale(ScaleProtocol::HidPos);
    hid.vendor_id = Some("0x0b67".to_string());
    assert_eq!(
        plan_scale_adapter(&name, &hid).unwrap_err(),
        "Scale s1: 'vendorId' and 'productId' required for HID-POS"
    );
    hid.product_id = Some("nope".to_string());
    assert_eq!(
        plan_scale_adapter(&name, &hid).unwrap_err(),
        "invalid hex nope: invalid digit found in string"
    );
    hid.product_id = Some("0x555e".to_string());
    hid.unit = Some(WeightUnit::G);
    match plan_scale_adapter(&name, &hid).unwrap() {
        ScaleAdapterPlan::HidPos { vendor_id, product_id, fallback_unit } => {
            assert_eq!((vendor_id, product_id, fallback_unit), (0x0b67, 0x555e, WeightUnit::G));
        }
        other => panic!("unexpected {:?}", other),
    }
}

#[test]
fn catalog_lookup_and_errors() {
    let mut catalog: NamedMap<ScaleConfig> = NamedMap::new();
    catalog.insert("m".to_string(), scale(ScaleProtocol::Mock));
    assert!(plan_catalog_scale(&"m".to_string(), &catalog).is_ok());
    assert_eq!(plan_catalog_scale(&"x".to_string(), &catalog).unwrap_err(), "Scale not found: x");
    let e = scale_not_found("x");
    assert_eq!(e.error, "SCALE_NOT_FOUND");
    assert_eq!(e.message, "Scale x not detected or configured");
    assert_eq!(hid_no_report_message("h"), "Scale h did not emit a HID report within 1500ms");
    assert_eq!(no_response_message("n"), "Scale n did not respond within 1500ms");
}

#[test]
fn nci_poll_request() {
    assert_eq!(poll_frame(), [0x02, 0x57, 0x0d]);
}

#[test]
fn nci_cleaning_and_rest() {
    assert_eq!(clean_received("a\0b", "\u{3}c\0"), "ab\nc");
    assert_eq!(clean_received("", ""), "");
    assert_eq!(text_after("héllo", 3), "llo");
    assert_eq!(text_after("abc", 3), "");
}

#[test]
fn nci_frames() {
    let mut d = NciDecoder::new(WeightUnit::Lb).unwrap();
    assert_eq!(d.default_unit(), WeightUnit::Lb);
    let r = d.feed("ST,GS,+  12.34kg\r\n").unwrap();
    assert!(!r.negative);
    assert_eq!(r.value_text, "12.34");
    assert_eq!(r.unit, WeightUnit::Kg);
    assert!(r.stable);
    assert_eq!(d.held_text(), "\r\n");

    let r = d.feed("M -1.5 LB").unwrap();
    assert!(r.negative);
    assert_eq!(r.value_text, "1.5");
    assert_eq!(r.unit, WeightUnit::Lb);
    assert!(!r.stable);
    assert_eq!(d.held_text(), "");
}

#[test]
fn nci_partial_frames_are_kept() {
    let mut d = NciDecoder::new(WeightUnit::Kg).unwrap();
    assert!(d.feed("\u{2}S 1.").is_none());
    assert_eq!(d.held_text(), "\u{2}S 1.");
    let r = d.feed("25\0g\u{3}").unwrap();
    assert!(!d.held_text().contains('\0') && !d.held_text().contains('\u{3}'));
    assert_eq!(r.value_text, "1.25");
    assert_eq!(r.unit, WeightUnit::G);
    assert!(r.stable);
    assert_eq!(d.held_text(), "\n");
}

#[test]
fn nci_text_without_frames() {
    let mut d = NciDecoder::new(WeightUnit::Kg).unwrap();
    assert!(d.feed("no weight here").is_none());
    assert_eq!(d.held_text(), "no weight here");
}
