use device_shell::escpos::{build_escpos_commands, format_columns, pad_end, pad_start, truncate};
use device_shell::types::{CommandKind, CutMode, PrintCommand, TextSize};

fn text(v: &str) -> PrintCommand {
    let mut c = PrintCommand::new(CommandKind::Text);
    c.value = Some(v.to_string());
    c
}

fn body(commands: &[PrintCommand], width: u32) -> Vec<u8> {
    let bytes = build_escpos_commands(commands, width);
    assert_eq!(&bytes[..2], &[0x1B, 0x40]);
    bytes[2..].to_vec()
}

#[test]
fn escpos_starts_with_reset() {
    assert_eq!(build_escpos_commands(&[], 42), vec![0x1B, 0x40]);
}

#[test]
fn escpos_text_line() {
    assert_eq!(body(&[text("Hi")], 42), vec![b'H', b'i', 0x0A]);
    // UTF-8 text is sent as its bytes
    assert_eq!(body(&[text("é")], 42), vec![0xC3, 0xA9, 0x0A]);
    // text without a value adds nothing
    assert_eq!(body(&[PrintCommand::new(CommandKind::Text)], 42), Vec::<u8>::new());
}

#[test]
fn escpos_alignment() {
    let mut c = PrintCommand::new(CommandKind::Align);
    c.value = Some("center".to_string());
    assert_eq!(body(&[c.clone()], 42), vec![0x1B, 0x61, 0x01]);
    c.value = Some("right".to_string());
    assert_eq!(body(&[c.clone()], 42), vec![0x1B, 0x61, 0x02]);
    c.value = Some("left".to_string());
    assert_eq!(body(&[c.clone()], 42), vec![0x1B, 0x61, 0x00]);
    c.value = None;
    assert_eq!(body(&[c], 42), vec![0x1B, 0x61, 0x00]);
}

#[test]
fn escpos_style() {
    let mut c = PrintCommand::new(CommandKind::Style);
    c.bold = Some(true);
    c.underline = Some(false);
    c.size = Some(TextSize::Large);
    assert_eq!(body(&[c], 42), vec![0x1B, 0x45, 0x01, 0x1B, 0x2D, 0x00, 0x1D, 0x21, 0x11]);
    let mut c = PrintCommand::new(CommandKind::Style);
    c.size = Some(TextSize::Small);
    assert_eq!(body(&[c], 42), vec![0x1D, 0x21, 0x00]);
    assert_eq!(body(&[PrintCommand::new(CommandKind::Style)], 42), Vec::<u8>::new());
}

#[test]
fn escpos_feed_cut_drawer() {
    assert_eq!(body(&[PrintCommand::new(CommandKind::Feed)], 42), vec![0x0A]);
    let mut f = PrintCommand::new(CommandKind::Feed);
    f.lines = Some(3);
    assert_eq!(body(&[f], 42), vec![0x0A, 0x0A, 0x0A]);
    assert_eq!(body(&[PrintCommand::new(CommandKind::Cut)], 42), vec![0x1D, 0x56, 0x00]);
    let mut p = PrintCommand::new(CommandKind::Cut);
    p.mode = Some(CutMode::Partial);
    assert_eq!(body(&[p], 42), vec![0x1D, 0x56, 0x01]);
    assert_eq!(
        body(&[PrintCommand::new(CommandKind::Drawer)], 42),
        vec![0x1B, 0x70, 0x00, 0x19, 0xFA]
    );
    assert_eq!(body(&[PrintCommand::new(CommandKind::Image)], 42), Vec::<u8>::new());
}

#[test]
fn escpos_raw_is_base64_decoded() {
    let mut r = PrintCommand::new(CommandKind::Raw);
    r.data = Some("AQID".to_string());
    assert_eq!(body(&[r], 42), vec![1, 2, 3]);
    // undecodable data is skipped
    let mut bad = PrintCommand::new(CommandKind::Raw);
    bad.data = Some("!!!!".to_string());
    assert_eq!(body(&[bad], 42), Vec::<u8>::new());
}

#[test]
fn escpos_barcode_is_centered_text() {
    let mut b = PrintCommand::new(CommandKind::Barcode);
    b.value = Some("123".to_string());
    let mut expected = vec![0x1B, 0x61, 0x01];
    expected.extend_from_slice(b"[123]\n");
    expected.extend_from_slice(&[0x1B, 0x61, 0x00]);
    assert_eq!(body(&[b], 42), expected);
}

#[test]
fn escpos_columns_row() {
    let mut c = PrintCommand::new(CommandKind::Columns);
    c.values = Some(vec!["Item".to_string(), "9.99".to_string()]);
    c.widths = Some(vec![10, 6]);
    let mut expected = b"Item        9.99".to_vec();
    expected.push(0x0A);
    assert_eq!(body(&[c.clone()], 42), expected);
    // a row wider than the paper is cut
    let mut expected = b"Item    ".to_vec();
    expected.push(0x0A);
    assert_eq!(body(&[c.clone()], 8), expected);
    // columns need both values and widths
    c.widths = None;
    assert_eq!(body(&[c], 42), Vec::<u8>::new());
}

#[test]
fn escpos_concatenation_law_on_example() {
    let mut a = vec![text("A")];
    let mut cut = PrintCommand::new(CommandKind::Cut);
    cut.mode = Some(CutMode::Full);
    a.push(cut);
    let b = vec![text("B"), PrintCommand::new(CommandKind::Feed)];
    let mut both = a.clone();
    both.extend(b.clone());
    let mut expected = body(&a, 42);
    expected.extend(body(&b, 42));
    assert_eq!(body(&both, 42), expected);
}

#[test]
fn columns_layout() {
    let values = vec!["Coffee".to_string(), "x2".to_string(), "3.50".to_string()];
    assert_eq!(format_columns(&values, &[4, 3, 6], 42), "Coffx2   3.50");
    // missing widths count as 10
    let values = vec!["ab".to_string(), "c".to_string()];
    assert_eq!(format_columns(&values, &[], 42), "ab                 c");
    // the last value is never cut, only padded
    let values = vec!["long-value".to_string()];
    assert_eq!(format_columns(&values, &[4], 42), "long-value");
    assert_eq!(format_columns(&[], &[], 42), "");
}

#[test]
fn text_helpers() {
    assert_eq!(truncate("hello", 3), "hel");
    assert_eq!(truncate("hé", 5), "hé");
    assert_eq!(pad_start("ab", 4), "  ab");
    assert_eq!(pad_start("abcde", 4), "abcde");
    assert_eq!(pad_end("ab", 4), "ab  ");
    assert_eq!(pad_end("ñu", 3), "ñu ");
}
