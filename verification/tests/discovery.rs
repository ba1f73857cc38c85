use device_shell::discovery::{
    build_catalog, catalog_has, discover_printers, discover_rfid_readers, discover_scales,
    find_hid_pos_scales, parse_cups_status, parse_lpstat_output, parse_wmic_output,
    printer_listing_command, system_printers, to_hex, DiscoveredPrinter,
};
use device_shell::print::Platform;
use device_shell::types::{
    Config, DeviceStatus, HidDeviceSummary, PrintConnection, PrintProtocol, PrinterConfig,
    RfidConfig, RfidProtocol, RfidTransport, ScaleConfig, ScaleProtocol, ScaleTransport,
    WeightUnit,
};

fn printer(protocol: PrintProtocol, connection: PrintConnection) -> PrinterConfig {
    PrinterConfig { protocol, connection, vendor_id: None, product_id: None, paper_width: None }
}

fn serial_scale(path: &str) -> ScaleConfig {
    ScaleConfig {
        protocol: ScaleProtocol::Nci,
        transport: ScaleTransport::Serial,
        path: Some(path.to_string()),
        baud: Some(9600),
        vendor_id: None,
        product_id: None,
        unit: Some(WeightUnit::Lb),
    }
}

fn hid(vendor_id: u16, product_id: u16, usage_page: u16) -> HidDeviceSummary {
    HidDeviceSummary { vendor_id, product_id, usage_page, manufacturer: None, product: None }
}

fn names_and_status(ps: &[DiscoveredPrinter]) -> Vec<(String, DeviceStatus)> {
    ps.iter().map(|p| (p.name.clone(), p.status)).collect()
}

#[test]
fn cups_status_words() {
    assert_eq!(parse_cups_status("printer HP is idle.  enabled since Mon"), DeviceStatus::Ready);
    assert_eq!(parse_cups_status("printer HP now printing HP-12."), DeviceStatus::Ready);
    assert_eq!(parse_cups_status("printer HP disabled since Mon -"), DeviceStatus::Offline);
    assert_eq!(parse_cups_status("printer HP paused"), DeviceStatus::Offline);
    assert_eq!(parse_cups_status("printer HP stopped"), DeviceStatus::Error);
    assert_eq!(parse_cups_status("printer HP unknown"), DeviceStatus::Ready);
    // the ready words win over the others
    assert_eq!(parse_cups_status("printer HP is idle, was disabled"), DeviceStatus::Ready);
}

#[test]
fn lpstat_listing() {
    let out = "printer HP_LaserJet is idle.  enabled since Mon 01 Jan\n\
               \tForm mounted:\n\
               printer Zebra disabled since Mon 01 Jan -\r\n\
               printer   Sato stopped\n\
               printer \n\
               scheduler is running\n";
    assert_eq!(
        names_and_status(&parse_lpstat_output(out)),
        vec![
            ("HP_LaserJet".to_string(), DeviceStatus::Ready),
            ("Zebra".to_string(), DeviceStatus::Offline),
            ("Sato".to_string(), DeviceStatus::Error),
        ]
    );
    assert!(parse_lpstat_output("").is_empty());
}

#[test]
fn wmic_listing() {
    let out = "Name  \r\nHP LaserJet 400  \r\n\r\nname\r\n  Zebra ZD420\r\n";
    assert_eq!(
        names_and_status(&parse_wmic_output(out)),
        vec![
            ("HP LaserJet 400".to_string(), DeviceStatus::Ready),
            ("Zebra ZD420".to_string(), DeviceStatus::Ready),
        ]
    );
    // the first line is the column title, whatever it says
    assert!(parse_wmic_output("Printer\r\n").is_empty());
}

#[test]
fn platform_listing() {
    assert_eq!(
        printer_listing_command(Platform::Linux),
        ("lpstat".to_string(), vec!["-p".to_string()])
    );
    assert_eq!(
        printer_listing_command(Platform::Other),
        ("wmic".to_string(), vec!["printer".to_string(), "get".to_string(), "name".to_string()])
    );
    assert_eq!(names_and_status(&system_printers(Platform::MacOs, "printer A is idle\n")).len(), 1);
    assert_eq!(names_and_status(&system_printers(Platform::Other, "Name\nA\n")), vec![("A".to_string(), DeviceStatus::Ready)]);
}

#[test]
fn printers_merge_system_and_configured() {
    let mut config = Config::default();
    config.printers.insert("HP".to_string(), printer(PrintProtocol::Escpos, PrintConnection::Usb));
    config.printers.insert("Zebra".to_string(), printer(PrintProtocol::Zpl, PrintConnection::Network));
    config.printers.insert("Office".to_string(), printer(PrintProtocol::System, PrintConnection::System));
    let system = vec![
        DiscoveredPrinter { name: "HP".to_string(), status: DeviceStatus::Offline },
        DiscoveredPrinter { name: "Canon".to_string(), status: DeviceStatus::Ready },
    ];
    let out = discover_printers(&config, &system);
    let got: Vec<(String, PrintProtocol, PrintConnection, DeviceStatus)> =
        out.iter().map(|p| (p.name.clone(), p.protocol, p.connection, p.status)).collect();
    assert_eq!(
        got,
        vec![
            ("HP".to_string(), PrintProtocol::Escpos, PrintConnection::Usb, DeviceStatus::Offline),
            ("Canon".to_string(), PrintProtocol::System, PrintConnection::System, DeviceStatus::Ready),
            ("Zebra".to_string(), PrintProtocol::Zpl, PrintConnection::Network, DeviceStatus::Ready),
        ]
    );
}

#[test]
fn rfid_readers_are_listed_ready() {
    let mut config = Config::default();
    config.rfid.insert(
        "dock".to_string(),
        RfidConfig {
            protocol: RfidProtocol::Llrp,
            transport: RfidTransport::Tcp,
            host: Some("10.0.0.5".to_string()),
            port: None,
            path: None,
            baud: None,
            vendor_id: None,
            product_id: None,
        },
    );
    let out = discover_rfid_readers(&config);
    assert_eq!(out.len(), 1);
    assert_eq!(out[0].name, "dock");
    assert_eq!(out[0].protocol, RfidProtocol::Llrp);
    assert_eq!(out[0].transport, RfidTransport::Tcp);
    assert_eq!(out[0].status, DeviceStatus::Ready);
}

#[test]
fn usb_ids_render_as_four_hex_digits() {
    assert_eq!(to_hex(0x0b67), "0x0b67");
    assert_eq!(to_hex(0), "0x0000");
    assert_eq!(to_hex(0xFFFF), "0xffff");
}

#[test]
fn hid_scales_are_filtered_by_usage_page() {
    let devices = vec![hid(1, 2, 0x8d), hid(3, 4, 0x01), hid(0x0b67, 0x555e, 0x8d)];
    let found = find_hid_pos_scales(&devices);
    let ids: Vec<(u16, u16)> = found.iter().map(|d| (d.vendor_id, d.product_id)).collect();
    assert_eq!(ids, vec![(1, 2), (0x0b67, 0x555e)]);
}

#[test]
fn scales_merge_detected_and_configured() {
    let mut config = Config::default();
    config.scales.insert("checkout".to_string(), serial_scale("/dev/ttyUSB0"));
    config.scales.insert("hid:0x0001-0x0002".to_string(), serial_scale("/dev/ttyS1"));
    let devices = vec![hid(1, 2, 0x8d), hid(9, 9, 0x02)];
    let out = discover_scales(&config, &devices);
    let got: Vec<(String, ScaleProtocol, ScaleTransport, DeviceStatus)> =
        out.iter().map(|s| (s.name.clone(), s.protocol, s.transport, s.status)).collect();
    assert_eq!(
        got,
        vec![
            ("checkout".to_string(), ScaleProtocol::Nci, ScaleTransport::Serial, DeviceStatus::Ready),
            ("hid:0x0001-0x0002".to_string(), ScaleProtocol::Nci, ScaleTransport::Serial, DeviceStatus::Ready),
        ]
    );
    // without a configured override the detected scale is listed as HID-POS
    let plain = Config::default();
    let out = discover_scales(&plain, &devices);
    let got: Vec<(String, ScaleProtocol, ScaleTransport)> =
        out.iter().map(|s| (s.name.clone(), s.protocol, s.transport)).collect();
    assert_eq!(
        got,
        vec![("hid:0x0001-0x0002".to_string(), ScaleProtocol::HidPos, ScaleTransport::UsbHid)]
    );
}

#[test]
fn catalog_prefers_configured_scales() {
    let mut config = Config::default();
    config.scales.insert("hid:0x0001-0x0002".to_string(), serial_scale("/dev/ttyS1"));
    let devices = vec![hid(1, 2, 0x8d), hid(0x0b67, 0x555e, 0x8d)];
    let cat = build_catalog(&config, &devices);
    assert_eq!(cat.len(), 2);
    let overridden = cat.get(&"hid:0x0001-0x0002".to_string()).unwrap();
    assert_eq!(overridden.protocol, ScaleProtocol::Nci);
    assert_eq!(overridden.path.as_deref(), Some("/dev/ttyS1"));
    let detected = cat.get(&"hid:0x0b67-0x555e".to_string()).unwrap();
    assert_eq!(detected.protocol, ScaleProtocol::HidPos);
    assert_eq!(detected.transport, ScaleTransport::UsbHid);
    assert_eq!(detected.vendor_id.as_deref(), Some("0x0b67"));
    assert_eq!(detected.product_id.as_deref(), Some("0x555e"));
    assert_eq!(detected.unit, Some(WeightUnit::Kg));
    assert_eq!(detected.path, None);
    assert!(catalog_has(&config, &devices, &"hid:0x0b67-0x555e".to_string()));
    assert!(catalog_has(&config, &[], &"hid:0x0001-0x0002".to_string()));
    assert!(!catalog_has(&config, &devices, &"hid:0x0b67-0x0000".to_string()));
}

#[test]
fn listed_scales_are_exactly_the_catalog() {
    let mut config = Config::default();
    config.scales.insert("checkout".to_string(), serial_scale("/dev/ttyUSB0"));
    config.scales.insert("hid:0x0001-0x0002".to_string(), serial_scale("/dev/ttyS1"));
    let devices = vec![hid(1, 2, 0x8d), hid(5, 6, 0x8d), hid(9, 9, 0x02)];
    let listed: Vec<String> = discover_scales(&config, &devices).into_iter().map(|s| s.name).collect();
    let catalog = build_catalog(&config, &devices);
    assert_eq!(listed.len(), catalog.len());
    for name in &listed {
        assert!(catalog_has(&config, &devices, name));
    }
    for i in 0..catalog.len() {
        assert!(listed.contains(catalog.name_at(i)));
    }
    assert!(!catalog_has(&config, &devices, &"hid:0x0009-0x0009".to_string()));
}
