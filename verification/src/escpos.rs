//! ESC/POS receipt encoding.
use vstd::prelude::*;
use vstd::string::*;
use vstd::utf8::encode_utf8;

use crate::codec::{base64_standard_decode, decode_base64};
use crate::text::{append_bytes, append_utf8, chars_of, left_pad, push_char, push_repeat, right_pad, text_eq};
use crate::types::{CommandKind, CutMode, PrintCommand, TextSize};

verus! {

pub const ESC: u8 = 0x1B;
pub const GS: u8 = 0x1D;
pub const LF: u8 = 0x0A;

pub open spec fn align_left() -> Seq<u8> {
    seq![ESC, 0x61, 0x00]
}

pub open spec fn align_center() -> Seq<u8> {
    seq![ESC, 0x61, 0x01]
}

pub open spec fn align_right() -> Seq<u8> {
    seq![ESC, 0x61, 0x02]
}

pub open spec fn init_bytes() -> Seq<u8> {
    seq![ESC, 0x40]
}

fn push3(buf: &mut Vec<u8>, a: u8, b: u8, c: u8)
    ensures
        final(buf)@ == old(buf)@ + seq![a, b, c],
{
    buf.push(a);
    buf.push(b);
    buf.push(c);
    assert(final(buf)@ =~= old(buf)@ + seq![a, b, c]);
}

// ===== columns =====
/// The width of column `i`: the given one, 10 when none is given.
pub open spec fn column_width(widths: Seq<u32>, i: int) -> nat {
    if 0 <= i < widths.len() {
        widths[i] as nat
    } else {
        10
    }
}

/// The first `n` characters of `s` (all of them when it is shorter).
pub open spec fn first_chars(s: Seq<char>, n: nat) -> Seq<char> {
    if n < s.len() {
        s.take(n as int)
    } else {
        s
    }
}

/// Cell `i` of a row: the last value right-aligned (never cut), the others
/// cut to their width and left-aligned.
pub open spec fn column_cell(values: Seq<Seq<char>>, widths: Seq<u32>, i: int) -> Seq<char> {
    let w = column_width(widths, i);
    if i == values.len() - 1 {
        left_pad(values[i], w, ' ')
    } else {
        right_pad(first_chars(values[i], w), w, ' ')
    }
}

/// The first `n` cells of a row, concatenated.
pub open spec fn columns_joined(values: Seq<Seq<char>>, widths: Seq<u32>, n: int) -> Seq<char>
    decreases n,
{
    if n <= 0 {
        Seq::empty()
    } else {
        columns_joined(values, widths, n - 1) + column_cell(values, widths, n - 1)
    }
}

/// A row of columns, cut to the paper width.
pub open spec fn columns_line(values: Seq<Seq<char>>, widths: Seq<u32>, total_width: nat) -> Seq<char> {
    first_chars(columns_joined(values, widths, values.len() as int), total_width)
}

/// The first `n` characters of `s`.
pub fn truncate(s: &str, n: usize) -> (r: String)
    ensures
        r@ == first_chars(s@, n as nat),
{
    let cs = chars_of(s);
    let mut r = String::new();
    let mut i: usize = 0;
    while i < cs.len() && i < n
        invariant
            i <= cs@.len(),
            i <= n,
            r@ == cs@.take(i as int),
        decreases cs@.len() - i,
    {
        push_char(&mut r, cs[i]);
        i += 1;
        assert(r@ =~= cs@.take(i as int));
    }
    assert(cs@.take(cs@.len() as int) =~= cs@);
    r
}

/// `s` preceded by spaces up to `width` characters.
pub fn pad_start(s: &str, width: usize) -> (r: String)
    ensures
        r@ == left_pad(s@, width as nat, ' '),
{
    let count = s.unicode_len();
    let mut r = String::new();
    if count < width {
        push_repeat(&mut r, ' ', width - count);
    }
    r.append(s);
    r
}

/// `s` followed by spaces up to `width` characters.
pub fn pad_end(s: &str, width: usize) -> (r: String)
    ensures
        r@ == right_pad(s@, width as nat, ' '),
{
    let count = s.unicode_len();
    let mut r = s.to_owned();
    if count < width {
        push_repeat(&mut r, ' ', width - count);
    }
    r
}

/// The views of a list of strings.
pub open spec fn string_views(v: Seq<String>) -> Seq<Seq<char>> {
    v.map_values(|s: String| s@)
}

/// Lays values out in fixed-width columns within `total_width` characters.
pub fn format_columns(values: &[String], widths: &[u32], total_width: u32) -> (r: String)
    ensures
        r@ == columns_line(string_views(values@), widths@, total_width as nat),
        r@.len() <= total_width,
{
    let ghost vs = string_views(values@);
    let mut result = String::new();
    let last = values.len().saturating_sub(1);
    let mut i: usize = 0;
    while i < values.len()
        invariant
            i <= values@.len(),
            vs == string_views(values@),
            last == (if values@.len() == 0 {
                0
            } else {
                values@.len() - 1
            }),
            result@ == columns_joined(vs, widths@, i as int),
        decreases values@.len() - i,
    {
        let width: usize = if i < widths.len() {
            widths[i] as usize
        } else {
            10
        };
        let value = &values[i];
        assert(vs[i as int] == value@);
        if i == last {
            let cell = pad_start(value.as_str(), width);
            result.append(cell.as_str());
        } else {
            let cut = truncate(value.as_str(), width);
            let cell = pad_end(cut.as_str(), width);
            result.append(cell.as_str());
        }
        i += 1;
    }
    let total = total_width as usize;
    let count = result.as_str().unicode_len();
    if count > total {
        truncate(result.as_str(), total)
    } else {
        result
    }
}

// ===== commands =====
/// The bytes one command contributes to an ESC/POS job.
pub open spec fn escpos_command_bytes(cmd: PrintCommand, paper_width: u32) -> Seq<u8> {
    match cmd.kind {
        CommandKind::Text => match cmd.value {
            Some(v) => encode_utf8(v@).push(LF),
            None => Seq::empty(),
        },
        CommandKind::Align => match cmd.value {
            Some(v) => if v@ == "center"@ {
                align_center()
            } else if v@ == "right"@ {
                align_right()
            } else {
                align_left()
            },
            None => align_left(),
        },
        CommandKind::Style => {
            let bold = match cmd.bold {
                Some(true) => seq![ESC, 0x45, 0x01],
                Some(false) => seq![ESC, 0x45, 0x00],
                None => Seq::empty(),
            };
            let underline = match cmd.underline {
                Some(true) => seq![ESC, 0x2D, 0x01],
                Some(false) => seq![ESC, 0x2D, 0x00],
                None => Seq::empty(),
            };
            let size = match cmd.size {
                Some(TextSize::Large) => seq![GS, 0x21, 0x11],
                Some(_) => seq![GS, 0x21, 0x00],
                None => Seq::empty(),
            };
            bold + underline + size
        },
        CommandKind::Columns => match (cmd.values, cmd.widths) {
            (Some(vs), Some(ws)) => encode_utf8(
                columns_line(string_views(vs@), ws@, paper_width as nat),
            ).push(LF),
            _ => Seq::empty(),
        },
        CommandKind::Feed => Seq::new(
            match cmd.lines {
                Some(n) => n as nat,
                None => 1,
            },
            |_i: int| LF,
        ),
        CommandKind::Cut => match cmd.mode {
            Some(CutMode::Partial) => seq![GS, 0x56, 0x01],
            _ => seq![GS, 0x56, 0x00],
        },
        CommandKind::Drawer => seq![ESC, 0x70, 0x00, 0x19, 0xFA],
        CommandKind::Raw => match cmd.data {
            Some(d) => match base64_standard_decode(d@) {
                Ok(b) => b,
                Err(_) => Seq::empty(),
            },
            None => Seq::empty(),
        },
        CommandKind::Barcode => match cmd.value {
            Some(v) => align_center() + encode_utf8("["@ + v@ + "]\n"@) + align_left(),
            None => Seq::empty(),
        },
        CommandKind::Image => Seq::empty(),
    }
}

/// The bytes of a sequence of commands, in order.
pub open spec fn escpos_body(cmds: Seq<PrintCommand>, paper_width: u32) -> Seq<u8>
    decreases cmds.len(),
{
    if cmds.len() == 0 {
        Seq::empty()
    } else {
        escpos_body(cmds.drop_last(), paper_width) + escpos_command_bytes(cmds.last(), paper_width)
    }
}

fn append_command(bytes: &mut Vec<u8>, cmd: &PrintCommand, paper_width: u32)
    ensures
        final(bytes)@ == old(bytes)@ + escpos_command_bytes(*cmd, paper_width),
{
    let ghost start = bytes@;
    match cmd.kind {
        CommandKind::Text => {
            if let Some(value) = &cmd.value {
                append_utf8(bytes, value.as_str());
                bytes.push(LF);
            }
        },
        CommandKind::Align => match &cmd.value {
            Some(v) => {
                if text_eq(v.as_str(), "center") {
                    push3(bytes, ESC, 0x61, 0x01);
                } else if text_eq(v.as_str(), "right") {
                    push3(bytes, ESC, 0x61, 0x02);
                } else {
                    push3(bytes, ESC, 0x61, 0x00);
                }
            },
            None => push3(bytes, ESC, 0x61, 0x00),
        },
        CommandKind::Style => {
            match cmd.bold {
                Some(true) => push3(bytes, ESC, 0x45, 0x01),
                Some(false) => push3(bytes, ESC, 0x45, 0x00),
                None => {},
            }
            let ghost after_bold = bytes@;
            match cmd.underline {
                Some(true) => push3(bytes, ESC, 0x2D, 0x01),
                Some(false) => push3(bytes, ESC, 0x2D, 0x00),
                None => {},
            }
            match cmd.size {
                Some(TextSize::Large) => push3(bytes, GS, 0x21, 0x11),
                Some(TextSize::Small) => push3(bytes, GS, 0x21, 0x00),
                Some(TextSize::Normal) => push3(bytes, GS, 0x21, 0x00),
                None => {},
            }
            assert(bytes@ =~= start + escpos_command_bytes(*cmd, paper_width));
        },
        CommandKind::Columns => {
            if let (Some(values), Some(widths)) = (&cmd.values, &cmd.widths) {
                let line = format_columns(values.as_slice(), widths.as_slice(), paper_width);
                append_utf8(bytes, line.as_str());
                bytes.push(LF);
            }
        },
        CommandKind::Feed => {
            let lines: u32 = match cmd.lines {
                Some(n) => n,
                None => 1,
            };
            let mut k: u32 = 0;
            while k < lines
                invariant
                    k <= lines,
                    bytes@ == start + Seq::new(k as nat, |_i: int| LF),
                decreases lines - k,
            {
                bytes.push(LF);
                k += 1;
                assert(bytes@ =~= start + Seq::new(k as nat, |_i: int| LF));
            }
            assert(bytes@ =~= start + escpos_command_bytes(*cmd, paper_width));
        },
        CommandKind::Cut => match cmd.mode {
            Some(CutMode::Partial) => push3(bytes, GS, 0x56, 0x01),
            _ => push3(bytes, GS, 0x56, 0x00),
        },
        CommandKind::Drawer => {
            push3(bytes, ESC, 0x70, 0x00);
            bytes.push(0x19);
            bytes.push(0xFA);
            assert(bytes@ =~= start + escpos_command_bytes(*cmd, paper_width));
        },
        CommandKind::Raw => {
            if let Some(data) = &cmd.data {
                if let Ok(decoded) = decode_base64(data.as_str()) {
                    append_bytes(bytes, decoded.as_slice());
                }
            }
        },
        CommandKind::Barcode => {
            if let Some(value) = &cmd.value {
                push3(bytes, ESC, 0x61, 0x01);
                let mut text = String::from_str("[");
                text.append(value.as_str());
                text.append("]\n");
                append_utf8(bytes, text.as_str());
                push3(bytes, ESC, 0x61, 0x00);
                assert(bytes@ =~= start + escpos_command_bytes(*cmd, paper_width));
            }
        },
        CommandKind::Image => {},
    }
    assert(bytes@ =~= start + escpos_command_bytes(*cmd, paper_width));
}

/// Encodes a print job as ESC/POS: the printer reset, then each command in
/// order. `paper_width` is the number of characters a columns row may take.
pub fn build_escpos_commands(commands: &[PrintCommand], paper_width: u32) -> (bytes: Vec<u8>)
    ensures
        bytes@ == init_bytes() + escpos_body(commands@, paper_width),
{
    let mut bytes: Vec<u8> = Vec::new();
    bytes.push(ESC);
    bytes.push(0x40);
    let mut i: usize = 0;
    while i < commands.len()
        invariant
            i <= commands@.len(),
            bytes@ == init_bytes() + escpos_body(commands@.take(i as int), paper_width),
        decreases commands@.len() - i,
    {
        append_command(&mut bytes, &commands[i], paper_width);
        assert(commands@.take(i + 1).drop_last() =~= commands@.take(i as int));
        i += 1;
    }
    assert(commands@.take(commands@.len() as int) =~= commands@);
    bytes
}

/// The bytes of two command lists run one after the other are the bytes of
/// the first followed by those of the second.
pub proof fn lemma_escpos_body_concat(a: Seq<PrintCommand>, b: Seq<PrintCommand>, paper_width: u32)
    ensures
        escpos_body(a + b, paper_width) == escpos_body(a, paper_width) + escpos_body(b, paper_width),
    decreases b.len(),
{
    if b.len() == 0 {
        assert(a + b =~= a);
    } else {
        lemma_escpos_body_concat(a, b.drop_last(), paper_width);
        assert((a + b).drop_last() =~= a + b.drop_last());
        assert((a + b).last() == b.last());
    }
}

/// The bytes each ESC/POS command stands for. Every job starts with the
/// reset ESC @ and then holds its commands' bytes in order. Text is its
/// UTF-8 bytes and a line feed. Alignment is ESC a 1 for `center`, ESC a 2
/// for `right`, ESC a 0 otherwise. Style sets bold (ESC E 1/0), then
/// underline (ESC - 1/0), then size: GS ! 0x11 for large, GS ! 0x00 for
/// normal and small alike. A feed is its number of line feeds (one by
/// default). A cut is GS V 1 when partial, GS V 0 otherwise; the drawer
/// pulse is ESC p 0 25 250. A barcode is its value in brackets on a
/// centred line, alignment back to left after it. Images add nothing.
pub proof fn lemma_escpos_command_meaning(cmd: PrintCommand, paper_width: u32)
    ensures
        init_bytes() == seq![0x1Bu8, 0x40],
        escpos_body(seq![cmd], paper_width) == escpos_command_bytes(cmd, paper_width),
        cmd.kind == CommandKind::Text ==> escpos_command_bytes(cmd, paper_width) == match cmd.value {
            Some(v) => encode_utf8(v@) + seq![0x0Au8],
            None => Seq::<u8>::empty(),
        },
        cmd.kind == CommandKind::Align ==> escpos_command_bytes(cmd, paper_width) == (if cmd.value is Some && cmd.value.unwrap()@ == "center"@ {
            seq![0x1Bu8, 0x61, 0x01]
        } else if cmd.value is Some && cmd.value.unwrap()@ == "right"@ {
            seq![0x1Bu8, 0x61, 0x02]
        } else {
            seq![0x1Bu8, 0x61, 0x00]
        }),
        cmd.kind == CommandKind::Style ==> escpos_command_bytes(cmd, paper_width) == (match cmd.bold {
            Some(true) => seq![0x1Bu8, 0x45, 0x01],
            Some(false) => seq![0x1Bu8, 0x45, 0x00],
            None => Seq::<u8>::empty(),
        }) + (match cmd.underline {
            Some(true) => seq![0x1Bu8, 0x2D, 0x01],
            Some(false) => seq![0x1Bu8, 0x2D, 0x00],
            None => Seq::<u8>::empty(),
        }) + (match cmd.size {
            Some(TextSize::Large) => seq![0x1Du8, 0x21, 0x11],
            Some(TextSize::Normal) => seq![0x1Du8, 0x21, 0x00],
            Some(TextSize::Small) => seq![0x1Du8, 0x21, 0x00],
            None => Seq::<u8>::empty(),
        }),
        cmd.kind == CommandKind::Feed ==> escpos_command_bytes(cmd, paper_width).len() == match cmd.lines {
            Some(n) => n as nat,
            None => 1nat,
        } && forall|i: int|
            0 <= i < escpos_command_bytes(cmd, paper_width).len() ==> #[trigger] escpos_command_bytes(
                cmd,
                paper_width,
            )[i] == 0x0Au8,
        cmd.kind == CommandKind::Cut ==> escpos_command_bytes(cmd, paper_width) == (if cmd.mode == Some(
            CutMode::Partial,
        ) {
            seq![0x1Du8, 0x56, 0x01]
        } else {
            seq![0x1Du8, 0x56, 0x00]
        }),
        cmd.kind == CommandKind::Drawer ==> escpos_command_bytes(cmd, paper_width) == seq![0x1Bu8, 0x70, 0x00, 0x19, 0xFA],
        cmd.kind == CommandKind::Barcode ==> escpos_command_bytes(cmd, paper_width) == match cmd.value {
            Some(v) => seq![0x1Bu8, 0x61, 0x01] + encode_utf8("["@ + v@ + "]\n"@) + seq![0x1Bu8, 0x61, 0x00],
            None => Seq::<u8>::empty(),
        },
        cmd.kind == CommandKind::Image ==> escpos_command_bytes(cmd, paper_width) == Seq::<u8>::empty(),
        cmd.kind == CommandKind::Columns ==> escpos_command_bytes(cmd, paper_width) == match (cmd.values, cmd.widths) {
            (Some(vs), Some(ws)) => encode_utf8(columns_line(string_views(vs@), ws@, paper_width as nat)) + seq![0x0Au8],
            _ => Seq::<u8>::empty(),
        },
{
    assert(seq![cmd].drop_last() =~= Seq::<PrintCommand>::empty());
    assert(seq![cmd].last() == cmd);
    assert(escpos_body(Seq::<PrintCommand>::empty(), paper_width) == Seq::<u8>::empty());
    assert(escpos_body(seq![cmd], paper_width) == escpos_body(seq![cmd].drop_last(), paper_width)
        + escpos_command_bytes(seq![cmd].last(), paper_width));
    assert(Seq::<u8>::empty() + escpos_command_bytes(cmd, paper_width) =~= escpos_command_bytes(cmd, paper_width));
    if cmd.kind == CommandKind::Text {
        if let Some(v) = cmd.value {
            assert(encode_utf8(v@).push(0x0Au8) =~= encode_utf8(v@) + seq![0x0Au8]);
        }
    }
    if cmd.kind == CommandKind::Columns {
        if let (Some(vs), Some(ws)) = (cmd.values, cmd.widths) {
            let l = encode_utf8(columns_line(string_views(vs@), ws@, paper_width as nat));
            assert(l.push(0x0Au8) =~= l + seq![0x0Au8]);
        }
    }
}

} // verus!
