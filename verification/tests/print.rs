use device_shell::print::{
    job_id_from_uuid, missing_printer_answer, missing_printer_result, new_job_id, pdf_print_command, plan_print, print_outcome,
    print_request_fits, printer_name_missing, raw_print_command, strip_data_uri, Platform,
    PrintJob,
};
use device_shell::types::{
    CommandKind, PrintCommand, PrintConnection, PrintProtocol, PrintRequest, PrintRequestData,
    PrinterConfig,
};

fn request(protocol: PrintProtocol, commands: Option<Vec<PrintCommand>>, pdf: Option<&str>, raw: Option<&str>) -> PrintRequest {
    PrintRequest {
        printer: "P1".to_string(),
        protocol,
        data: PrintRequestData {
            commands,
            pdf: pdf.map(|s| s.to_string()),
            raw: raw.map(|s| s.to_string()),
        },
    }
}

fn text_command(v: &str) -> PrintCommand {
    let mut c = PrintCommand::new(CommandKind::Text);
    c.value = Some(v.to_string());
    c
}

fn plan(req: &PrintRequest, printer: Option<&PrinterConfig>) -> Result<PrintJob, String> {
    assert!(print_request_fits(req));
    plan_print(req, printer)
}

fn network_printer(width: Option<u32>) -> PrinterConfig {
    PrinterConfig {
        protocol: PrintProtocol::Escpos,
        connection: PrintConnection::Network,
        vendor_id: None,
        product_id: None,
        paper_width: width,
    }
}

#[test]
fn data_uri_prefix_is_dropped() {
    assert_eq!(strip_data_uri("data:application/pdf;base64,JVBERi0="), "JVBERi0=");
    assert_eq!(strip_data_uri("JVBERi0="), "JVBERi0=");
    // a data URI without a comma is left alone
    assert_eq!(strip_data_uri("data:abc"), "data:abc");
    assert_eq!(strip_data_uri("data:,"), "");
}

#[test]
fn escpos_raw_wins_over_commands_and_is_decoded() {
    let req = request(PrintProtocol::Escpos, Some(vec![text_command("x")]), None, Some("AQID"));
    match plan(&req, None) {
        Ok(PrintJob::Escpos { bytes, spool }) => {
            assert_eq!(bytes, vec![1, 2, 3]);
            assert!(spool);
        }
        other => panic!("unexpected {:?}", other),
    }
}

#[test]
fn escpos_commands_use_the_printer_settings() {
    let mut cols = PrintCommand::new(CommandKind::Columns);
    cols.values = Some(vec!["abcdef".to_string()]);
    cols.widths = Some(vec![6]);
    let req = request(PrintProtocol::Escpos, Some(vec![cols]), None, None);
    let printer = network_printer(Some(4));
    match plan(&req, Some(&printer)) {
        Ok(PrintJob::Escpos { bytes, spool }) => {
            assert_eq!(bytes, vec![0x1B, 0x40, b'a', b'b', b'c', b'd', 0x0A]);
            assert!(!spool);
        }
        other => panic!("unexpected {:?}", other),
    }
}

#[test]
fn escpos_without_data_is_refused() {
    let req = request(PrintProtocol::Escpos, None, None, None);
    assert_eq!(
        plan(&req, None).unwrap_err(),
        "Commands or raw data required for ESC/POS protocol"
    );
}

#[test]
fn base64_errors_are_reported_with_their_message() {
    let cases = [
        ("!!!!", "Invalid symbol 33, offset 0."),
        ("A", "Invalid input length: 1"),
        ("AQI", "Invalid padding"),
        ("AR==", "Invalid last symbol 82, offset 1."),
    ];
    for (raw, message) in cases {
        let req = request(PrintProtocol::Escpos, None, None, Some(raw));
        assert_eq!(plan(&req, None).unwrap_err(), message);
        let req = request(PrintProtocol::Sbpl, None, None, Some(raw));
        assert_eq!(plan(&req, None).unwrap_err(), message);
    }
}

#[test]
fn zpl_needs_commands() {
    let req = request(PrintProtocol::Zpl, Some(vec![text_command("Hi")]), None, None);
    match plan(&req, None) {
        Ok(PrintJob::Zpl { label }) => assert_eq!(label, "^XA\n^FO50,50^A0N,30,30^FDHi^FS\n^XZ"),
        other => panic!("unexpected {:?}", other),
    }
    let req = request(PrintProtocol::Zpl, None, None, Some("AQID"));
    assert_eq!(plan(&req, None).unwrap_err(), "Commands required for ZPL protocol");
}

#[test]
fn sbpl_jobs() {
    let req = request(PrintProtocol::Sbpl, None, None, Some("AQID"));
    match plan(&req, None) {
        Ok(PrintJob::Sbpl { bytes }) => assert_eq!(bytes, vec![1, 2, 3]),
        other => panic!("unexpected {:?}", other),
    }
    let req = request(PrintProtocol::Sbpl, Some(vec![]), None, None);
    match plan(&req, None) {
        Ok(PrintJob::Sbpl { bytes }) => assert_eq!(bytes, b"\x1bA\x1bQ1\x1bZ".to_vec()),
        other => panic!("unexpected {:?}", other),
    }
    let req = request(PrintProtocol::Sbpl, None, None, None);
    assert_eq!(plan(&req, None).unwrap_err(), "Commands or raw data required for SBPL protocol");
}

#[test]
fn system_jobs_take_a_pdf() {
    let req = request(PrintProtocol::System, None, Some("data:application/pdf;base64,JVBERg=="), None);
    match plan(&req, None) {
        Ok(PrintJob::Pdf { document }) => assert_eq!(document, b"%PDF".to_vec()),
        other => panic!("unexpected {:?}", other),
    }
    let req = request(PrintProtocol::System, None, Some("data:x,@@@@"), None);
    assert_eq!(plan(&req, None).unwrap_err(), "Invalid symbol 64, offset 0.");
    let req = request(PrintProtocol::System, None, None, Some("AQID"));
    assert_eq!(plan(&req, None).unwrap_err(), "PDF data required for system protocol");
}

#[test]
fn oversized_label_layouts_are_detected() {
    let mut feed = PrintCommand::new(CommandKind::Feed);
    feed.lines = Some(u32::MAX);
    let req = request(PrintProtocol::Zpl, Some(vec![feed.clone()]), None, None);
    assert!(!print_request_fits(&req));
    // raw data takes the place of SBPL commands, so they are not laid out
    let req = request(PrintProtocol::Sbpl, Some(vec![feed]), None, Some("AQID"));
    assert!(print_request_fits(&req));
}

#[test]
fn blank_printer_names() {
    assert!(printer_name_missing(""));
    assert!(printer_name_missing(" \t\n"));
    assert!(!printer_name_missing(" P1 "));
    let r = missing_printer_result();
    assert!(!r.success);
    assert_eq!(r.job_id, None);
    assert_eq!(r.message.as_deref(), Some("Printer name is required"));
    assert_eq!(r.error.as_deref(), Some("MISSING_PRINTER"));
}

#[test]
fn outcomes() {
    let (status, ok) = print_outcome("P1", "job_12345678", Ok(()));
    assert_eq!(status, 200);
    assert!(ok.success);
    assert_eq!(ok.job_id.as_deref(), Some("job_12345678"));
    assert_eq!(ok.message.as_deref(), Some("Print job sent to P1"));
    assert_eq!(ok.error, None);
    let (status, failed) = print_outcome("P1", "job_1", Err("lp failed: boom".to_string()));
    assert_eq!(status, 500);
    assert!(!failed.success);
    assert_eq!(failed.message.as_deref(), Some("lp failed: boom"));
    assert_eq!(failed.error.as_deref(), Some("PRINT_FAILED"));
}

#[test]
fn job_ids() {
    let a = new_job_id();
    let b = new_job_id();
    for id in [&a, &b] {
        assert_eq!(id.len(), 12);
        assert!(id.starts_with("job_"));
        assert!(id[4..].chars().all(|c| c.is_ascii_digit() || ('a'..='f').contains(&c)));
    }
    assert_ne!(a, b);
}

#[test]
fn job_id_from_uuid_text() {
    assert_eq!(job_id_from_uuid("67e55044-10b1-426f-9247-bb680e5fe0c8"), "job_67e55044");
    assert_eq!(job_id_from_uuid("abcdefgh"), "job_abcdefgh");
}

#[test]
fn missing_printer_answer_is_bad_request() {
    let (status, body) = missing_printer_answer();
    assert_eq!(status, 400);
    assert!(!body.success);
    assert_eq!(body.message.as_deref(), Some("Printer name is required"));
    assert_eq!(body.error.as_deref(), Some("MISSING_PRINTER"));
}

#[test]
fn spooler_commands() {
    let (p, args) = raw_print_command(Platform::Linux, "P1", "/tmp/x.bin").unwrap();
    assert_eq!(p, "lp");
    assert_eq!(args, vec!["-d", "P1", "-o", "raw", "/tmp/x.bin"]);
    let (p, args) = raw_print_command(Platform::MacOs, "P1", "/tmp/x.bin").unwrap();
    assert_eq!(p, "lpr");
    assert_eq!(args, vec!["-P", "P1", "-o", "raw", "/tmp/x.bin"]);
    assert_eq!(
        raw_print_command(Platform::Other, "P1", "x").unwrap_err(),
        "Raw printing not supported on this platform"
    );
    let (p, args) = pdf_print_command(Platform::Linux, "P1", "/tmp/x.pdf").unwrap();
    assert_eq!(p, "lp");
    assert_eq!(args, vec!["-d", "P1", "/tmp/x.pdf"]);
    let (p, args) = pdf_print_command(Platform::MacOs, "P1", "/tmp/x.pdf").unwrap();
    assert_eq!(p, "lpr");
    assert_eq!(args, vec!["-P", "P1", "/tmp/x.pdf"]);
    assert_eq!(
        pdf_print_command(Platform::Other, "P1", "x").unwrap_err(),
        "PDF printing on Windows requires platform-specific implementation"
    );
}
