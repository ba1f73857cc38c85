//! SBPL (SATO) label encoding and the spooler invocation that sends it.
use vstd::prelude::*;
use vstd::string::*;
use vstd::utf8::encode_utf8;

use crate::codec::{base64_standard_decode, decode_base64};
use crate::print::Platform;
use crate::text::{append_bytes, append_utf8, push_zero_padded, zero_padded};
use crate::types::{CommandKind, PrintCommand, TextSize};

verus! {

/// The horizontal position of every element.
pub const H_POS: u32 = 6;

/// The font code of a text size.
pub open spec fn sbpl_font(size: Option<TextSize>) -> Seq<char> {
    match size {
        Some(TextSize::Large) => "0102"@,
        Some(TextSize::Small) => "0100"@,
        _ => "0101"@,
    }
}

/// Vertical and horizontal position of an element at height `v`.
pub open spec fn sbpl_position(v: nat) -> Seq<char> {
    "\x1bV"@ + zero_padded(v, 4) + "\x1bH"@ + zero_padded(H_POS as nat, 4)
}

/// The bytes one command adds, and the height after it.
pub open spec fn sbpl_step(cmd: PrintCommand, v: nat) -> (Seq<u8>, nat) {
    match cmd.kind {
        CommandKind::Text => match cmd.value {
            Some(s) => (
                encode_utf8(sbpl_position(v) + "\x1bL"@ + sbpl_font(cmd.size) + "\x1bM"@ + s@),
                v + if cmd.size == Some(TextSize::Large) {
                    40nat
                } else {
                    30nat
                },
            ),
            None => (Seq::empty(), v),
        },
        CommandKind::Barcode => match cmd.value {
            Some(s) => (
                encode_utf8(
                    sbpl_position(v) + "\x1b2D30,L,03,1,0\x1bDN"@ + zero_padded(
                        encode_utf8(s@).len(),
                        2,
                    ) + ","@ + s@,
                ),
                v + 60,
            ),
            None => (Seq::empty(), v),
        },
        CommandKind::Feed => (
            Seq::empty(),
            v + 30 * match cmd.lines {
                Some(n) => n as nat,
                None => 1nat,
            },
        ),
        CommandKind::Raw => match cmd.data {
            Some(d) => match base64_standard_decode(d@) {
                Ok(b) => (b, v),
                Err(_) => (Seq::empty(), v),
            },
            None => (Seq::empty(), v),
        },
        _ => (Seq::empty(), v),
    }
}

/// The bytes of a command list and the height after it; the first element
/// sits at height 8.
pub open spec fn sbpl_layout(cmds: Seq<PrintCommand>) -> (Seq<u8>, nat)
    decreases cmds.len(),
{
    if cmds.len() == 0 {
        (Seq::empty(), 8)
    } else {
        let (bytes, v) = sbpl_layout(cmds.drop_last());
        let (more, v2) = sbpl_step(cmds.last(), v);
        (bytes + more, v2)
    }
}

/// The whole job: start code (ESC A), the commands, one copy (ESC Q1) and
/// the end code (ESC Z).
pub open spec fn sbpl_bytes(cmds: Seq<PrintCommand>) -> Seq<u8> {
    seq![0x1Bu8, 0x41] + sbpl_layout(cmds).0 + seq![0x1Bu8, 0x51, 0x31, 0x1B, 0x5A]
}

/// Whether every height reached fits in 32 bits.
pub open spec fn sbpl_fits(cmds: Seq<PrintCommand>) -> bool {
    sbpl_layout(cmds).1 <= u32::MAX
}

proof fn lemma_sbpl_height_grows(cmds: Seq<PrintCommand>, n: int)
    requires
        0 <= n <= cmds.len(),
    ensures
        sbpl_layout(cmds.take(n)).1 <= sbpl_layout(cmds).1,
    decreases cmds.len() - n,
{
    if n < cmds.len() {
        lemma_sbpl_height_grows(cmds, n + 1);
        assert(cmds.take(n + 1).drop_last() =~= cmds.take(n));
    } else {
        assert(cmds.take(n) =~= cmds);
    }
}

/// Tells whether `build_sbpl_commands` can lay the commands out without its
/// height counter leaving 32 bits.
pub fn sbpl_commands_fit(commands: &[PrintCommand]) -> (r: bool)
    ensures
        r == sbpl_fits(commands@),
{
    let mut v: u64 = 8;
    let mut i: usize = 0;
    while i < commands.len()
        invariant
            i <= commands@.len(),
            v == sbpl_layout(commands@.take(i as int)).1,
            v <= u32::MAX,
        decreases commands@.len() - i,
    {
        let cmd = &commands[i];
        assert(commands@.take(i + 1).drop_last() =~= commands@.take(i as int));
        let step: u64 = match cmd.kind {
            CommandKind::Text => if cmd.value.is_some() {
                match cmd.size {
                    Some(TextSize::Large) => 40,
                    _ => 30,
                }
            } else {
                0
            },
            CommandKind::Barcode => if cmd.value.is_some() {
                60
            } else {
                0
            },
            CommandKind::Feed => match cmd.lines {
                Some(n) => 30 * n as u64,
                None => 30,
            },
            _ => 0,
        };
        v = v + step;
        i += 1;
        if v > 0xFFFF_FFFF {
            proof {
                lemma_sbpl_height_grows(commands@, i as int);
            }
            return false;
        }
    }
    assert(commands@.take(commands@.len() as int) =~= commands@);
    true
}

fn position_text(v: u32) -> (s: String)
    ensures
        s@ == sbpl_position(v as nat),
{
    let mut s = String::from_str("\x1bV");
    push_zero_padded(&mut s, v as u64, 4);
    s.append("\x1bH");
    push_zero_padded(&mut s, H_POS as u64, 4);
    s
}

/// Encodes a print job as SBPL: elements stacked downwards from height 8
/// (text 30 dots apart, 40 after large text, barcodes 60, feeds 30 per
/// line), raw commands carrying base64 bytes passed through.
pub fn build_sbpl_commands(commands: &[PrintCommand]) -> (buf: Vec<u8>)
    requires
        sbpl_fits(commands@),
    ensures
        buf@ == sbpl_bytes(commands@),
{
    let mut buf: Vec<u8> = Vec::new();
    buf.push(0x1B);
    buf.push(0x41);
    let mut v_pos: u32 = 8;
    let mut i: usize = 0;
    while i < commands.len()
        invariant
            i <= commands@.len(),
            sbpl_fits(commands@),
            v_pos == sbpl_layout(commands@.take(i as int)).1,
            buf@ == seq![0x1Bu8, 0x41] + sbpl_layout(commands@.take(i as int)).0,
        decreases commands@.len() - i,
    {
        let cmd = &commands[i];
        let ghost prefix = commands@.take(i as int);
        let ghost before = buf@;
        proof {
            assert(commands@.take(i + 1).drop_last() =~= prefix);
            assert(commands@.take(i + 1).last() == *cmd);
            lemma_sbpl_height_grows(commands@, i + 1);
        }
        let ghost step = sbpl_step(*cmd, v_pos as nat);
        match cmd.kind {
            CommandKind::Text => {
                if let Some(value) = &cmd.value {
                    let mut text = position_text(v_pos);
                    text.append("\x1bL");
                    match cmd.size {
                        Some(TextSize::Large) => text.append("0102"),
                        Some(TextSize::Small) => text.append("0100"),
                        _ => text.append("0101"),
                    }
                    text.append("\x1bM");
                    text.append(value.as_str());
                    append_utf8(&mut buf, text.as_str());
                    assert(buf@ =~= seq![0x1Bu8, 0x41] + (sbpl_layout(prefix).0 + step.0));
                    let large = match cmd.size {
                        Some(TextSize::Large) => true,
                        _ => false,
                    };
                    v_pos = v_pos + if large {
                        40
                    } else {
                        30
                    };
                }
            },
            CommandKind::Barcode => {
                if let Some(value) = &cmd.value {
                    let mut text = position_text(v_pos);
                    text.append("\x1b2D30,L,03,1,0\x1bDN");
                    let byte_len = value.as_str().as_bytes().len();
                    push_zero_padded(&mut text, byte_len as u64, 2);
                    text.append(",");
                    text.append(value.as_str());
                    append_utf8(&mut buf, text.as_str());
                    assert(buf@ =~= seq![0x1Bu8, 0x41] + (sbpl_layout(prefix).0 + step.0));
                    v_pos = v_pos + 60;
                }
            },
            CommandKind::Feed => {
                let n: u32 = match cmd.lines {
                    Some(n) => n,
                    None => 1,
                };
                v_pos = v_pos + n * 30;
            },
            CommandKind::Raw => {
                if let Some(data) = &cmd.data {
                    if let Ok(decoded) = decode_base64(data.as_str()) {
                        append_bytes(&mut buf, decoded.as_slice());
                    }
                }
            },
            _ => {},
        }
        proof {
            assert(buf@ =~= seq![0x1Bu8, 0x41] + (sbpl_layout(prefix).0 + step.0));
        }
        i += 1;
    }
    assert(commands@.take(commands@.len() as int) =~= commands@);
    let ghost body = buf@;
    buf.push(0x1B);
    buf.push(0x51);
    buf.push(0x31);
    buf.push(0x1B);
    buf.push(0x5A);
    assert(buf@ =~= body + seq![0x1Bu8, 0x51, 0x31, 0x1B, 0x5A]);
    buf
}

// ===== laws =====
/// Whether a command adds nothing to an SBPL job and leaves the height
/// alone: alignment, style, columns, cut, drawer and image commands, text
/// and barcodes without a value, and raw commands whose data is missing or
/// is not base64.
pub open spec fn sbpl_inert(c: PrintCommand) -> bool {
    match c.kind {
        CommandKind::Align | CommandKind::Style | CommandKind::Columns | CommandKind::Cut
        | CommandKind::Drawer | CommandKind::Image => true,
        CommandKind::Text | CommandKind::Barcode => c.value is None,
        CommandKind::Raw => match c.data {
            None => true,
            Some(d) => base64_standard_decode(d@) is Err,
        },
        CommandKind::Feed => false,
    }
}

/// An SBPL job always opens with ESC A and closes with ESC Q1 ESC Z; the
/// job of no commands is just those.
pub proof fn lemma_sbpl_frame(cmds: Seq<PrintCommand>)
    ensures
        sbpl_bytes(cmds).len() >= 7,
        sbpl_bytes(cmds).take(2) == seq![0x1Bu8, 0x41],
        sbpl_bytes(cmds).skip(sbpl_bytes(cmds).len() - 5) == seq![0x1Bu8, 0x51, 0x31, 0x1B, 0x5A],
        sbpl_bytes(Seq::empty()) == seq![0x1Bu8, 0x41, 0x1B, 0x51, 0x31, 0x1B, 0x5A],
{
    let b = sbpl_bytes(cmds);
    assert(b.take(2) =~= seq![0x1Bu8, 0x41]);
    assert(b.skip(b.len() - 5) =~= seq![0x1Bu8, 0x51, 0x31, 0x1B, 0x5A]);
    assert(sbpl_layout(Seq::<PrintCommand>::empty()).0 =~= Seq::<u8>::empty());
    assert(sbpl_bytes(Seq::empty()) =~= seq![0x1Bu8, 0x41, 0x1B, 0x51, 0x31, 0x1B, 0x5A]);
}

/// Removing an inert command from a job changes neither its bytes nor the
/// final height, so neither the job nor whether it fits.
pub proof fn lemma_sbpl_inert_deletion(a: Seq<PrintCommand>, c: PrintCommand, b: Seq<PrintCommand>)
    requires
        sbpl_inert(c),
    ensures
        sbpl_layout(a + seq![c] + b) == sbpl_layout(a + b),
        sbpl_bytes(a + seq![c] + b) == sbpl_bytes(a + b),
        sbpl_fits(a + seq![c] + b) == sbpl_fits(a + b),
    decreases b.len(),
{
    if b.len() == 0 {
        assert(a + seq![c] + b =~= a.push(c));
        assert(a + b =~= a);
        assert(a.push(c).drop_last() =~= a);
        let (bytes, v) = sbpl_layout(a);
        assert(sbpl_step(c, v) == (Seq::<u8>::empty(), v));
        assert(bytes + Seq::<u8>::empty() =~= bytes);
    } else {
        let b2 = b.drop_last();
        lemma_sbpl_inert_deletion(a, c, b2);
        assert((a + seq![c] + b).drop_last() =~= a + seq![c] + b2);
        assert((a + seq![c] + b).last() == b.last());
        assert((a + b).drop_last() =~= a + b2);
        assert((a + b).last() == b.last());
    }
}

/// Where and how SBPL elements are placed. The first element sits at height
/// 8 and every element at horizontal position 6 (`ESC V` and `ESC H`, four
/// digits each). Each command moves the height down by what it takes: 40
/// dots for large text, 30 for other text, 60 for a barcode, 30 per feed
/// line (one by default), nothing for any other command or a command
/// without its value. Text is `ESC L` with font 0102 (large), 0100 (small)
/// or 0101, then `ESC M` and the text; a barcode is CODE128 (`ESC 2D30,L,03,1,0`)
/// with `ESC DN`, the two-digit byte length, a comma and the value.
pub proof fn lemma_sbpl_step_meaning(cmd: PrintCommand, v: nat)
    ensures
        sbpl_layout(Seq::empty()) == (Seq::<u8>::empty(), 8nat),
        sbpl_position(v) == "\x1bV"@ + zero_padded(v, 4) + "\x1bH"@ + zero_padded(6, 4),
        sbpl_step(cmd, v).1 == v + match cmd.kind {
            CommandKind::Text => if cmd.value is Some {
                if cmd.size == Some(TextSize::Large) {
                    40nat
                } else {
                    30nat
                }
            } else {
                0nat
            },
            CommandKind::Barcode => if cmd.value is Some {
                60nat
            } else {
                0nat
            },
            CommandKind::Feed => 30 * match cmd.lines {
                Some(n) => n as nat,
                None => 1nat,
            },
            _ => 0nat,
        },
        cmd.kind == CommandKind::Text && cmd.value is Some ==> sbpl_step(cmd, v).0 == encode_utf8(
            sbpl_position(v) + "\x1bL"@ + (match cmd.size {
                Some(TextSize::Large) => "0102"@,
                Some(TextSize::Small) => "0100"@,
                _ => "0101"@,
            }) + "\x1bM"@ + cmd.value.unwrap()@,
        ),
        cmd.kind == CommandKind::Barcode && cmd.value is Some ==> sbpl_step(cmd, v).0 == encode_utf8(
            sbpl_position(v) + "\x1b2D30,L,03,1,0\x1bDN"@ + zero_padded(encode_utf8(cmd.value.unwrap()@).len(), 2)
                + ","@ + cmd.value.unwrap()@,
        ),
        cmd.kind == CommandKind::Feed ==> sbpl_step(cmd, v).0 == Seq::<u8>::empty(),
{
}

/// Appending a command to a job adds its bytes at the height the job had
/// reached.
pub proof fn lemma_sbpl_append(cmds: Seq<PrintCommand>, cmd: PrintCommand)
    ensures
        sbpl_layout(cmds.push(cmd)) == (
            sbpl_layout(cmds).0 + sbpl_step(cmd, sbpl_layout(cmds).1).0,
            sbpl_step(cmd, sbpl_layout(cmds).1).1,
        ),
{
    assert(cmds.push(cmd).drop_last() =~= cmds);
}

/// The spooler call that sends raw data to a printer: on Linux and macOS
/// `lpr -P <printer> -oraw`, elsewhere `lpr -S localhost -P <printer> -o l`.
pub open spec fn lpr_arguments(printer: Seq<char>, platform: Platform) -> Seq<Seq<char>> {
    match platform {
        Platform::Other => seq!["-S"@, "localhost"@, "-P"@, printer, "-o"@, "l"@],
        _ => seq!["-P"@, printer, "-oraw"@],
    }
}

/// The arguments of the `lpr` call that prints SBPL data.
pub fn sbpl_lpr_arguments(printer_name: &str, platform: Platform) -> (args: Vec<String>)
    ensures
        args@.map_values(|a: String| a@) == lpr_arguments(printer_name@, platform),
{
    let mut args: Vec<String> = Vec::new();
    match platform {
        Platform::Other => {
            args.push(String::from_str("-S"));
            args.push(String::from_str("localhost"));
            args.push(String::from_str("-P"));
            args.push(printer_name.to_owned());
            args.push(String::from_str("-o"));
            args.push(String::from_str("l"));
        },
        _ => {
            args.push(String::from_str("-P"));
            args.push(printer_name.to_owned());
            args.push(String::from_str("-oraw"));
        },
    }
    assert(args@.map_values(|a: String| a@) =~= lpr_arguments(printer_name@, platform));
    args
}

} // verus!
