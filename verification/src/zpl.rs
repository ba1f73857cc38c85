//! ZPL label encoding.
use vstd::prelude::*;
use vstd::string::*;
use vstd::utf8::decode_utf8;

use crate::codec::{base64_standard_decode, decode_base64, utf8_string};
use crate::escpos::string_views;
use crate::text::{decimal, push_decimal};
use crate::types::{BarcodeFormat, CommandKind, PrintCommand};
use vstd::utf8::valid_utf8;

verus! {

/// `parts` joined with `sep` between neighbours.
pub open spec fn join(parts: Seq<Seq<char>>, sep: Seq<char>) -> Seq<char>
    decreases parts.len(),
{
    if parts.len() == 0 {
        Seq::empty()
    } else if parts.len() == 1 {
        parts[0]
    } else {
        join(parts.drop_last(), sep) + sep + parts.last()
    }
}

/// Joins strings with a separator.
pub fn join_strings(parts: &[String], sep: &str) -> (r: String)
    ensures
        r@ == join(string_views(parts@), sep@),
{
    let ghost ps = string_views(parts@);
    let mut r = String::new();
    let mut i: usize = 0;
    while i < parts.len()
        invariant
            i <= parts@.len(),
            ps == string_views(parts@),
            r@ == join(ps.take(i as int), sep@),
        decreases parts@.len() - i,
    {
        assert(ps.take(i + 1).drop_last() =~= ps.take(i as int));
        assert(ps.take(i + 1).last() == parts@[i as int]@);
        if i > 0 {
            r.append(sep);
        } else {
            assert(ps.take(1).len() == 1);
        }
        r.append(parts[i].as_str());
        i += 1;
    }
    assert(ps.take(parts@.len() as int) =~= ps);
    r
}

/// The field origin of an element at height `y`.
pub open spec fn field_origin(y: nat) -> Seq<char> {
    "^FO50,"@ + decimal(y)
}

/// The lines one command adds, and the height after it.
pub open spec fn zpl_step(cmd: PrintCommand, y: nat) -> (Seq<Seq<char>>, nat) {
    match cmd.kind {
        CommandKind::Text => match cmd.value {
            Some(v) => (seq![field_origin(y) + "^A0N,30,30^FD"@ + v@ + "^FS"@], y + 40),
            None => (Seq::empty(), y),
        },
        CommandKind::Barcode => match cmd.value {
            Some(v) => {
                let lines = match cmd.format {
                    Some(BarcodeFormat::Qr) => seq![
                        field_origin(y),
                        "^BQN,2,5^FDQA,"@ + v@ + "^FS"@,
                    ],
                    Some(BarcodeFormat::Ean13) => seq![
                        field_origin(y) + "^BY3"@,
                        "^BEN,100,Y,N^FD"@ + v@ + "^FS"@,
                    ],
                    _ => seq![field_origin(y) + "^BY3"@, "^BCN,100,Y,N,N^FD"@ + v@ + "^FS"@],
                };
                (lines, y + 120)
            },
            None => (Seq::empty(), y),
        },
        CommandKind::Feed => (
            Seq::empty(),
            y + 30 * match cmd.lines {
                Some(n) => n as nat,
                None => 1nat,
            },
        ),
        CommandKind::Columns => match cmd.values {
            Some(vs) => (
                seq![field_origin(y) + "^A0N,30,30^FD"@ + join(string_views(vs@), " "@) + "^FS"@],
                y + 40,
            ),
            None => (Seq::empty(), y),
        },
        CommandKind::Raw => match cmd.data {
            Some(d) => match base64_standard_decode(d@) {
                Ok(b) => if valid_utf8(b) {
                    (seq![decode_utf8(b)], y)
                } else {
                    (Seq::empty(), y)
                },
                Err(_) => (Seq::empty(), y),
            },
            None => (Seq::empty(), y),
        },
        _ => (Seq::empty(), y),
    }
}

/// The lines of a command list and the height after it; the first element
/// sits at height 50.
pub open spec fn zpl_layout(cmds: Seq<PrintCommand>) -> (Seq<Seq<char>>, nat)
    decreases cmds.len(),
{
    if cmds.len() == 0 {
        (Seq::empty(), 50)
    } else {
        let (lines, y) = zpl_layout(cmds.drop_last());
        let (more, y2) = zpl_step(cmds.last(), y);
        (lines + more, y2)
    }
}

/// The ZPL label: `^XA`, the lines of the commands, `^XZ`, one per line.
pub open spec fn zpl_text(cmds: Seq<PrintCommand>) -> Seq<char> {
    join(seq!["^XA"@] + zpl_layout(cmds).0 + seq!["^XZ"@], "\n"@)
}

/// Whether every height reached while laying out the commands fits in 32
/// bits.
pub open spec fn zpl_fits(cmds: Seq<PrintCommand>) -> bool {
    zpl_layout(cmds).1 <= u32::MAX
}

proof fn lemma_zpl_height_grows(cmds: Seq<PrintCommand>, n: int)
    requires
        0 <= n <= cmds.len(),
    ensures
        zpl_layout(cmds.take(n)).1 <= zpl_layout(cmds).1,
    decreases cmds.len() - n,
{
    if n < cmds.len() {
        lemma_zpl_height_grows(cmds, n + 1);
        assert(cmds.take(n + 1).drop_last() =~= cmds.take(n));
    } else {
        assert(cmds.take(n) =~= cmds);
    }
}

proof fn lemma_join_push(parts: Seq<Seq<char>>, x: Seq<char>, sep: Seq<char>)
    requires
        parts.len() > 0,
    ensures
        join(parts.push(x), sep) == join(parts, sep) + sep + x,
{
    assert(parts.push(x).drop_last() =~= parts);
}

/// Tells whether `build_zpl_commands` can lay the commands out without its
/// height counter leaving 32 bits.
pub fn zpl_commands_fit(commands: &[PrintCommand]) -> (r: bool)
    ensures
        r == zpl_fits(commands@),
{
    let mut y: u64 = 50;
    let mut i: usize = 0;
    while i < commands.len()
        invariant
            i <= commands@.len(),
            y == zpl_layout(commands@.take(i as int)).1,
            y <= u32::MAX,
        decreases commands@.len() - i,
    {
        let cmd = &commands[i];
        assert(commands@.take(i + 1).drop_last() =~= commands@.take(i as int));
        let step: u64 = match cmd.kind {
            CommandKind::Text => if cmd.value.is_some() {
                40
            } else {
                0
            },
            CommandKind::Barcode => if cmd.value.is_some() {
                120
            } else {
                0
            },
            CommandKind::Feed => match cmd.lines {
                Some(n) => 30 * n as u64,
                None => 30,
            },
            CommandKind::Columns => if cmd.values.is_some() {
                40
            } else {
                0
            },
            _ => 0,
        };
        y = y + step;
        i += 1;
        if y > 0xFFFF_FFFF {
            proof {
                lemma_zpl_height_grows(commands@, i as int);
            }
            return false;
        }
    }
    assert(commands@.take(commands@.len() as int) =~= commands@);
    true
}

fn push_field_origin(out: &mut String, y: u32)
    ensures
        final(out)@ == old(out)@ + field_origin(y as nat),
{
    out.append("^FO50,");
    push_decimal(out, y as u64);
}

fn append_line(out: &mut String, line: &str)
    ensures
        final(out)@ == old(out)@ + "\n"@ + line@,
{
    out.append("\n");
    out.append(line);
}

/// Encodes a print job as a ZPL label: elements stacked downwards from
/// height 50 (text and columns 40 dots apart, barcodes 120, feeds 30 per
/// line), raw commands carrying base64 ZPL passed through.
pub fn build_zpl_commands(commands: &[PrintCommand]) -> (zpl: String)
    requires
        zpl_fits(commands@),
    ensures
        zpl@ == zpl_text(commands@),
{
    let mut out = String::from_str("^XA");
    let mut y_pos: u32 = 50;
    let mut i: usize = 0;
    while i < commands.len()
        invariant
            i <= commands@.len(),
            zpl_fits(commands@),
            y_pos == zpl_layout(commands@.take(i as int)).1,
            out@ == join(seq!["^XA"@] + zpl_layout(commands@.take(i as int)).0, "\n"@),
        decreases commands@.len() - i,
    {
        let cmd = &commands[i];
        let ghost prefix = commands@.take(i as int);
        let ghost lines = zpl_layout(prefix).0;
        let ghost head = seq!["^XA"@] + lines;
        proof {
            assert(commands@.take(i + 1).drop_last() =~= prefix);
            assert(commands@.take(i + 1).last() == *cmd);
            lemma_zpl_height_grows(commands@, i + 1);
        }
        let ghost step = zpl_step(*cmd, y_pos as nat);
        match cmd.kind {
            CommandKind::Text => {
                if let Some(value) = &cmd.value {
                    let mut line = String::new();
                    push_field_origin(&mut line, y_pos);
                    line.append("^A0N,30,30^FD");
                    line.append(value.as_str());
                    line.append("^FS");
                    append_line(&mut out, line.as_str());
                    proof {
                        lemma_join_push(head, line@, "\n"@);
                        assert(head.push(line@) =~= seq!["^XA"@] + (lines + step.0));
                    }
                    y_pos = y_pos + 40;
                }
            },
            CommandKind::Barcode => {
                if let Some(value) = &cmd.value {
                    let mut first = String::new();
                    let mut second = String::new();
                    push_field_origin(&mut first, y_pos);
                    match cmd.format {
                        Some(BarcodeFormat::Qr) => {
                            second.append("^BQN,2,5^FDQA,");
                        },
                        Some(BarcodeFormat::Ean13) => {
                            first.append("^BY3");
                            second.append("^BEN,100,Y,N^FD");
                        },
                        _ => {
                            first.append("^BY3");
                            second.append("^BCN,100,Y,N,N^FD");
                        },
                    }
                    second.append(value.as_str());
                    second.append("^FS");
                    append_line(&mut out, first.as_str());
                    append_line(&mut out, second.as_str());
                    proof {
                        lemma_join_push(head, first@, "\n"@);
                        lemma_join_push(head.push(first@), second@, "\n"@);
                        assert(step.0 =~= seq![first@, second@]);
                        assert(head.push(first@).push(second@) =~= seq!["^XA"@] + (lines + step.0));
                    }
                    y_pos = y_pos + 120;
                }
            },
            CommandKind::Feed => {
                let n: u32 = match cmd.lines {
                    Some(n) => n,
                    None => 1,
                };
                y_pos = y_pos + n * 30;
                proof {
                    assert(lines + step.0 =~= lines);
                }
            },
            CommandKind::Columns => {
                if let Some(values) = &cmd.values {
                    let text = join_strings(values.as_slice(), " ");
                    let mut line = String::new();
                    push_field_origin(&mut line, y_pos);
                    line.append("^A0N,30,30^FD");
                    line.append(text.as_str());
                    line.append("^FS");
                    append_line(&mut out, line.as_str());
                    proof {
                        lemma_join_push(head, line@, "\n"@);
                        assert(head.push(line@) =~= seq!["^XA"@] + (lines + step.0));
                    }
                    y_pos = y_pos + 40;
                }
            },
            CommandKind::Raw => {
                let mut added = false;
                if let Some(data) = &cmd.data {
                    if let Ok(decoded) = decode_base64(data.as_str()) {
                        if let Some(s) = utf8_string(decoded) {
                            append_line(&mut out, s.as_str());
                            proof {
                                lemma_join_push(head, s@, "\n"@);
                                assert(head.push(s@) =~= seq!["^XA"@] + (lines + step.0));
                            }
                            added = true;
                        }
                    }
                }
                proof {
                    if !added {
                        assert(lines + step.0 =~= lines);
                    }
                }
            },
            _ => {
                proof {
                    assert(lines + step.0 =~= lines);
                }
            },
        }
        proof {
            if step.0.len() == 0 {
                assert(lines + step.0 =~= lines);
            }
        }
        i += 1;
    }
    assert(commands@.take(commands@.len() as int) =~= commands@);
    let ghost head = seq!["^XA"@] + zpl_layout(commands@).0;
    out.append("\n^XZ");
    proof {
        lemma_join_push(head, "^XZ"@, "\n"@);
        reveal_strlit("\n^XZ");
        reveal_strlit("\n");
        reveal_strlit("^XZ");
        assert("\n^XZ"@ =~= "\n"@ + "^XZ"@);
        assert(head.push("^XZ"@) =~= seq!["^XA"@] + zpl_layout(commands@).0 + seq!["^XZ"@]);
    }
    out
}

// ===== laws =====
/// Whether a command adds nothing to a label and leaves the height alone:
/// style, alignment, cut, drawer and image commands, text and barcodes
/// without a value, columns without values, and raw commands whose data is
/// missing or is not base64 of UTF-8 text.
pub open spec fn zpl_inert(c: PrintCommand) -> bool {
    match c.kind {
        CommandKind::Style | CommandKind::Align | CommandKind::Cut | CommandKind::Drawer
        | CommandKind::Image => true,
        CommandKind::Text | CommandKind::Barcode => c.value is None,
        CommandKind::Columns => c.values is None,
        CommandKind::Raw => match c.data {
            None => true,
            Some(d) => match base64_standard_decode(d@) {
                Ok(b) => !valid_utf8(b),
                Err(_) => true,
            },
        },
        CommandKind::Feed => false,
    }
}

proof fn lemma_zpl_inert_step(c: PrintCommand, y: nat)
    requires
        zpl_inert(c),
    ensures
        zpl_step(c, y) == (Seq::<Seq<char>>::empty(), y),
{
}

proof fn lemma_join_prefix(parts: Seq<Seq<char>>, sep: Seq<char>)
    requires
        parts.len() >= 2,
    ensures
        join(parts, sep).take((parts[0].len() + sep.len()) as int) == parts[0] + sep,
    decreases parts.len(),
{
    let pre = parts.drop_last();
    if parts.len() == 2 {
        assert(join(pre, sep) == parts[0]);
        assert((parts[0] + sep + parts.last()).take((parts[0].len() + sep.len()) as int) =~= parts[0] + sep);
    } else {
        lemma_join_prefix(pre, sep);
        let j = join(pre, sep);
        lemma_join_len(pre.drop_last(), sep);
        assert(pre.drop_last()[0] == parts[0]);
        assert(j.len() >= parts[0].len() + sep.len());
        assert((j + sep + parts.last()).take((parts[0].len() + sep.len()) as int) =~= j.take(
            (parts[0].len() + sep.len()) as int,
        ));
    }
}

/// A ZPL label always opens with `^XA` and a newline and closes with a
/// newline and `^XZ`; the label of no commands is `^XA`, newline, `^XZ`.
pub proof fn lemma_zpl_frame(cmds: Seq<PrintCommand>)
    ensures
        zpl_text(cmds).len() >= 7,
        zpl_text(cmds).take(4) == "^XA\n"@,
        zpl_text(cmds).skip(zpl_text(cmds).len() - 4) == "\n^XZ"@,
        zpl_text(Seq::empty()) == "^XA\n^XZ"@,
{
    reveal_strlit("^XA");
    reveal_strlit("^XZ");
    reveal_strlit("\n");
    reveal_strlit("^XA\n");
    reveal_strlit("\n^XZ");
    reveal_strlit("^XA\n^XZ");
    let parts = seq!["^XA"@] + zpl_layout(cmds).0 + seq!["^XZ"@];
    assert(parts[0] == "^XA"@);
    assert(parts.last() == "^XZ"@);
    lemma_join_prefix(parts, "\n"@);
    let body = join(parts.drop_last(), "\n"@);
    assert(zpl_text(cmds) == body + "\n"@ + "^XZ"@);
    assert(parts.drop_last().len() >= 1);
    lemma_join_len(parts.drop_last(), "\n"@);
    assert(zpl_text(cmds).take(4) =~= "^XA\n"@);
    assert(zpl_text(cmds).skip(zpl_text(cmds).len() - 4) =~= "\n^XZ"@);
    assert(zpl_layout(Seq::<PrintCommand>::empty()).0 =~= Seq::<Seq<char>>::empty());
    let e = seq!["^XA"@] + zpl_layout(Seq::<PrintCommand>::empty()).0 + seq!["^XZ"@];
    assert(e =~= seq!["^XA"@, "^XZ"@]);
    assert(e.drop_last() =~= seq!["^XA"@]);
    assert(join(e.drop_last(), "\n"@) == "^XA"@);
    assert(e.last() == "^XZ"@);
    assert(zpl_text(Seq::empty()) == "^XA"@ + "\n"@ + "^XZ"@);
    assert("^XA"@ + "\n"@ + "^XZ"@ =~= "^XA\n^XZ"@);
}

proof fn lemma_join_len(parts: Seq<Seq<char>>, sep: Seq<char>)
    requires
        parts.len() >= 1,
    ensures
        join(parts, sep).len() >= parts[0].len(),
    decreases parts.len(),
{
    if parts.len() > 1 {
        lemma_join_len(parts.drop_last(), sep);
    }
}

/// Removing an inert command from a job changes neither the label's lines
/// nor the final height, so neither the label nor whether it fits.
pub proof fn lemma_zpl_inert_deletion(a: Seq<PrintCommand>, c: PrintCommand, b: Seq<PrintCommand>)
    requires
        zpl_inert(c),
    ensures
        zpl_layout(a + seq![c] + b) == zpl_layout(a + b),
        zpl_text(a + seq![c] + b) == zpl_text(a + b),
        zpl_fits(a + seq![c] + b) == zpl_fits(a + b),
    decreases b.len(),
{
    if b.len() == 0 {
        assert(a + seq![c] + b =~= a.push(c));
        assert(a + b =~= a);
        assert(a.push(c).drop_last() =~= a);
        let (lines, y) = zpl_layout(a);
        lemma_zpl_inert_step(c, y);
        assert(lines + Seq::<Seq<char>>::empty() =~= lines);
    } else {
        let b2 = b.drop_last();
        lemma_zpl_inert_deletion(a, c, b2);
        assert((a + seq![c] + b).drop_last() =~= a + seq![c] + b2);
        assert((a + seq![c] + b).last() == b.last());
        assert((a + b).drop_last() =~= a + b2);
        assert((a + b).last() == b.last());
    }
}

/// Where and how ZPL elements are placed. The first element sits at height
/// 50, and each command moves the height down by what it takes: 40 dots for
/// a text or columns row, 120 for a barcode, 30 per feed line (one line by
/// default), nothing for any other command or a command without its value.
/// A text row is `^FO50,<y>^A0N,30,30^FD<text>^FS`, a columns row the same
/// with the values joined by spaces. A barcode is an origin line and a
/// field line: `^FO50,<y>^BY3` and `^BCN,100,Y,N,N^FD<v>^FS` for Code 128
/// (the default), `^FO50,<y>` and `^BQN,2,5^FDQA,<v>^FS` for QR,
/// `^FO50,<y>^BY3` and `^BEN,100,Y,N^FD<v>^FS` for EAN-13.
pub proof fn lemma_zpl_step_meaning(cmd: PrintCommand, y: nat)
    ensures
        zpl_layout(Seq::empty()) == (Seq::<Seq<char>>::empty(), 50nat),
        zpl_step(cmd, y).1 == y + match cmd.kind {
            CommandKind::Text => if cmd.value is Some {
                40nat
            } else {
                0nat
            },
            CommandKind::Columns => if cmd.values is Some {
                40nat
            } else {
                0nat
            },
            CommandKind::Barcode => if cmd.value is Some {
                120nat
            } else {
                0nat
            },
            CommandKind::Feed => 30 * match cmd.lines {
                Some(n) => n as nat,
                None => 1nat,
            },
            _ => 0nat,
        },
        cmd.kind == CommandKind::Text && cmd.value is Some ==> zpl_step(cmd, y).0 == seq![
            "^FO50,"@ + decimal(y) + "^A0N,30,30^FD"@ + cmd.value.unwrap()@ + "^FS"@,
        ],
        cmd.kind == CommandKind::Columns && cmd.values is Some ==> zpl_step(cmd, y).0 == seq![
            "^FO50,"@ + decimal(y) + "^A0N,30,30^FD"@ + join(string_views(cmd.values.unwrap()@), " "@) + "^FS"@,
        ],
        cmd.kind == CommandKind::Barcode && cmd.value is Some ==> zpl_step(cmd, y).0 == match cmd.format {
            Some(BarcodeFormat::Qr) => seq!["^FO50,"@ + decimal(y), "^BQN,2,5^FDQA,"@ + cmd.value.unwrap()@ + "^FS"@],
            Some(BarcodeFormat::Ean13) => seq![
                "^FO50,"@ + decimal(y) + "^BY3"@,
                "^BEN,100,Y,N^FD"@ + cmd.value.unwrap()@ + "^FS"@,
            ],
            _ => seq![
                "^FO50,"@ + decimal(y) + "^BY3"@,
                "^BCN,100,Y,N,N^FD"@ + cmd.value.unwrap()@ + "^FS"@,
            ],
        },
        cmd.kind == CommandKind::Feed ==> zpl_step(cmd, y).0 == Seq::<Seq<char>>::empty(),
{
}

/// Appending a command to a job adds its lines at the height the job had
/// reached, so each element's origin is the previous origin plus what the
/// previous element takes.
pub proof fn lemma_zpl_append(cmds: Seq<PrintCommand>, cmd: PrintCommand)
    ensures
        zpl_layout(cmds.push(cmd)) == (
            zpl_layout(cmds).0 + zpl_step(cmd, zpl_layout(cmds).1).0,
            zpl_step(cmd, zpl_layout(cmds).1).1,
        ),
{
    assert(cmds.push(cmd).drop_last() =~= cmds);
}

} // verus!
