use device_shell::print::Platform;
use device_shell::sbpl::{build_sbpl_commands, sbpl_commands_fit, sbpl_lpr_arguments};
use device_shell::types::{BarcodeFormat, CommandKind, PrintCommand, TextSize};
use device_shell::zpl::{build_zpl_commands, join_strings, zpl_commands_fit};

fn with_value(kind: CommandKind, v: &str) -> PrintCommand {
    let mut c = PrintCommand::new(kind);
    c.value = Some(v.to_string());
    c
}

#[test]
fn zpl_empty_label() {
    assert!(zpl_commands_fit(&[]));
    assert_eq!(build_zpl_commands(&[]), "^XA\n^XZ");
}

#[test]
fn zpl_text_and_barcodes_advance_the_origin() {
    let mut qr = with_value(CommandKind::Barcode, "https://x");
    qr.format = Some(BarcodeFormat::Qr);
    let mut ean = with_value(CommandKind::Barcode, "4006381333931");
    ean.format = Some(BarcodeFormat::Ean13);
    let cmds = vec![
        with_value(CommandKind::Text, "Hello"),
        with_value(CommandKind::Barcode, "123"),
        qr,
        ean,
        with_value(CommandKind::Text, "End"),
    ];
    assert!(zpl_commands_fit(&cmds));
    let expected = [
        "^XA",
        "^FO50,50^A0N,30,30^FDHello^FS",
        "^FO50,90^BY3",
        "^BCN,100,Y,N,N^FD123^FS",
        "^FO50,210",
        "^BQN,2,5^FDQA,https://x^FS",
        "^FO50,330^BY3",
        "^BEN,100,Y,N^FD4006381333931^FS",
        "^FO50,450^A0N,30,30^FDEnd^FS",
        "^XZ",
    ]
    .join("\n");
    assert_eq!(build_zpl_commands(&cmds), expected);
}

#[test]
fn zpl_feed_columns_raw() {
    let mut feed = PrintCommand::new(CommandKind::Feed);
    feed.lines = Some(2);
    let mut cols = PrintCommand::new(CommandKind::Columns);
    cols.values = Some(vec!["a".to_string(), "b".to_string(), "c".to_string()]);
    let mut raw = PrintCommand::new(CommandKind::Raw);
    raw.data = Some("XkZYIGhp".to_string()); // "^FX hi"
    let mut bad_raw = PrintCommand::new(CommandKind::Raw);
    bad_raw.data = Some("/w==".to_string()); // the byte 0xFF, not UTF-8
    let cmds = vec![feed, PrintCommand::new(CommandKind::Feed), cols, raw, bad_raw, PrintCommand::new(CommandKind::Cut)];
    assert_eq!(build_zpl_commands(&cmds), "^XA\n^FO50,140^A0N,30,30^FDa b c^FS\n^FX hi\n^XZ");
}

#[test]
fn zpl_fit_check_refuses_overflowing_feeds() {
    let mut feed = PrintCommand::new(CommandKind::Feed);
    feed.lines = Some(u32::MAX);
    assert!(!zpl_commands_fit(&[feed]));
}

#[test]
fn join_with_separator() {
    let parts = vec!["a".to_string(), "bc".to_string(), "".to_string()];
    assert_eq!(join_strings(&parts, ", "), "a, bc, ");
    assert_eq!(join_strings(&[], "-"), "");
}

#[test]
fn sbpl_text_sizes_and_positions() {
    let mut large = with_value(CommandKind::Text, "BIG");
    large.size = Some(TextSize::Large);
    let mut small = with_value(CommandKind::Text, "s");
    small.size = Some(TextSize::Small);
    let cmds = vec![with_value(CommandKind::Text, "AB"), large, small];
    assert!(sbpl_commands_fit(&cmds));
    let expected = "\x1bA\
\x1bV0008\x1bH0006\x1bL0101\x1bMAB\
\x1bV0038\x1bH0006\x1bL0102\x1bMBIG\
\x1bV0078\x1bH0006\x1bL0100\x1bMs\
\x1bQ1\x1bZ";
    assert_eq!(build_sbpl_commands(&cmds), expected.as_bytes().to_vec());
}

#[test]
fn sbpl_barcode_feed_raw() {
    let mut feed = PrintCommand::new(CommandKind::Feed);
    feed.lines = Some(2);
    let mut raw = PrintCommand::new(CommandKind::Raw);
    raw.data = Some("AQID".to_string());
    let cmds = vec![with_value(CommandKind::Barcode, "12345"), feed, raw, with_value(CommandKind::Text, "x")];
    let mut expected = b"\x1bA\x1bV0008\x1bH0006\x1b2D30,L,03,1,0\x1bDN05,12345".to_vec();
    expected.extend_from_slice(&[1, 2, 3]);
    expected.extend_from_slice(b"\x1bV0128\x1bH0006\x1bL0101\x1bMx\x1bQ1\x1bZ");
    assert_eq!(build_sbpl_commands(&cmds), expected);
}

#[test]
fn sbpl_fit_check_refuses_overflowing_feeds() {
    let mut feed = PrintCommand::new(CommandKind::Feed);
    feed.lines = Some(200_000_000);
    assert!(!sbpl_commands_fit(&[feed]));
}

#[test]
fn sbpl_spooler_arguments() {
    assert_eq!(sbpl_lpr_arguments("Sato", Platform::Linux), vec!["-P", "Sato", "-oraw"]);
    assert_eq!(sbpl_lpr_arguments("Sato", Platform::MacOs), vec!["-P", "Sato", "-oraw"]);
    assert_eq!(
        sbpl_lpr_arguments("Sato", Platform::Other),
        vec!["-S", "localhost", "-P", "Sato", "-o", "l"]
    );
}

#[test]
fn zpl_inert_commands_change_nothing() {
    let base = vec![with_value(CommandKind::Text, "A"), with_value(CommandKind::Barcode, "1")];
    let mut bad_raw = PrintCommand::new(CommandKind::Raw);
    bad_raw.data = Some("!!!!".to_string());
    let mut noisy = vec![PrintCommand::new(CommandKind::Style), base[0].clone(), PrintCommand::new(CommandKind::Cut)];
    noisy.push(PrintCommand::new(CommandKind::Text));
    noisy.push(bad_raw);
    noisy.push(base[1].clone());
    noisy.push(PrintCommand::new(CommandKind::Image));
    let label = build_zpl_commands(&base);
    assert_eq!(build_zpl_commands(&noisy), label);
    assert!(label.starts_with("^XA\n") && label.ends_with("\n^XZ"));
}

#[test]
fn sbpl_inert_commands_change_nothing() {
    let base = vec![with_value(CommandKind::Text, "A"), with_value(CommandKind::Barcode, "1")];
    let mut noisy = vec![PrintCommand::new(CommandKind::Columns), base[0].clone(), PrintCommand::new(CommandKind::Drawer)];
    noisy.push(PrintCommand::new(CommandKind::Barcode));
    noisy.push(PrintCommand::new(CommandKind::Raw));
    noisy.push(base[1].clone());
    noisy.push(PrintCommand::new(CommandKind::Align));
    let job = build_sbpl_commands(&base);
    assert_eq!(build_sbpl_commands(&noisy), job);
    assert!(job.starts_with(b"\x1bA") && job.ends_with(b"\x1bQ1\x1bZ"));
    assert_eq!(build_sbpl_commands(&[]), b"\x1bA\x1bQ1\x1bZ".to_vec());
}
