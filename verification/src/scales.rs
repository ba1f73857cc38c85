//! Scale logic: HID-POS report decoding, USB id parsing, unit names, the
//! simulated scale, and the choice of driver for a configured scale.
use vstd::prelude::*;

use crate::discovery::{hex_id, is_scale_catalog};
use crate::named_map::NamedMap;
use crate::text::{chars_of, hex, hex_char, hex_padded, left_pad, repeat_char};
use crate::types::{ApiError, ScaleConfig, ScaleProtocol, WeightUnit};

verus! {

// ========================================================================
// HID-POS reports
// ========================================================================
/// The report status of a stable weight.
pub const STATUS_STABLE_WEIGHT: u8 = 1;

/// The unit a HID-POS report code names; unknown codes give `fallback`.
pub open spec fn spec_unit_from_code(code: u8, fallback: WeightUnit) -> WeightUnit {
    if code == 2 || code == 3 {
        WeightUnit::G
    } else if code == 4 {
        WeightUnit::Kg
    } else if code == 11 {
        WeightUnit::Oz
    } else if code == 12 {
        WeightUnit::Lb
    } else {
        fallback
    }
}

pub fn unit_from_code(code: u8, fallback: WeightUnit) -> (u: WeightUnit)
    ensures
        u == spec_unit_from_code(code, fallback),
{
    match code {
        2 | 3 => WeightUnit::G,
        4 => WeightUnit::Kg,
        11 => WeightUnit::Oz,
        12 => WeightUnit::Lb,
        _ => fallback,
    }
}

/// A decoded HID-POS scale report. The weight is `raw * 10^exponent` in
/// `unit`.
#[derive(Debug, Clone, Copy, PartialEq, Eq, Structural)]
pub struct HidPosReport {
    pub status: u8,
    pub unit: WeightUnit,
    pub exponent: i8,
    pub raw: u16,
}

impl HidPosReport {
    /// Whether the scale reported a settled weight.
    pub fn is_stable(&self) -> (r: bool)
        ensures
            r == (self.status == STATUS_STABLE_WEIGHT),
    {
        self.status == STATUS_STABLE_WEIGHT
    }
}

/// The value of a byte read as a signed 8-bit number.
pub open spec fn signed8(b: u8) -> i8 {
    if b < 128 {
        b as i8
    } else {
        (b - 256) as i8
    }
}

/// The report a HID-POS input report carries: byte 1 status, byte 2 unit
/// code, byte 3 signed decimal exponent, bytes 4-5 little-endian raw
/// weight; reports shorter than 6 bytes carry none.
pub open spec fn spec_hid_pos_report(data: Seq<u8>, fallback: WeightUnit) -> Option<HidPosReport> {
    if data.len() < 6 {
        None
    } else {
        Some(
            HidPosReport {
                status: data[1],
                unit: spec_unit_from_code(data[2], fallback),
                exponent: signed8(data[3]),
                raw: (data[4] + 256 * data[5]) as u16,
            },
        )
    }
}

/// A HID-POS report of at least six bytes reads byte 1 as the status, byte 2
/// as the unit code (2 and 3 grams, 4 kilograms, 11 ounces, 12 pounds, any
/// other code the fallback), byte 3 as a signed decimal exponent and bytes
/// 4 and 5 as the raw weight, low byte first; shorter reports carry
/// nothing. The weight is stable exactly when the status is 1.
pub proof fn lemma_hid_report_meaning(data: Seq<u8>, fallback: WeightUnit)
    ensures
        data.len() < 6 ==> spec_hid_pos_report(data, fallback) is None,
        data.len() >= 6 ==> (spec_hid_pos_report(data, fallback) matches Some(r) && {
            &&& r.status == data[1]
            &&& r.unit == (if data[2] == 2 || data[2] == 3 {
                WeightUnit::G
            } else if data[2] == 4 {
                WeightUnit::Kg
            } else if data[2] == 11 {
                WeightUnit::Oz
            } else if data[2] == 12 {
                WeightUnit::Lb
            } else {
                fallback
            })
            &&& r.exponent as int == (if data[3] < 128 {
                data[3] as int
            } else {
                data[3] as int - 256
            })
            &&& r.raw as int == data[4] as int + 256 * data[5] as int
        }),
        STATUS_STABLE_WEIGHT == 1,
{
    if data.len() >= 6 {
        let e = data[3];
        if e >= 128 {
            assert((e - 256) as i8 as int == e as int - 256) by (bit_vector)
                requires
                    128 <= e;
        }
    }
}

pub fn parse_hid_pos_report(data: &[u8], fallback: WeightUnit) -> (r: Option<HidPosReport>)
    ensures
        r == spec_hid_pos_report(data@, fallback),
{
    if data.len() < 6 {
        return None;
    }
    let e = data[3];
    let exponent: i8 = if e < 128 {
        e as i8
    } else {
        (e as i16 - 256) as i8
    };
    Some(
        HidPosReport {
            status: data[1],
            unit: unit_from_code(data[2], fallback),
            exponent,
            raw: data[4] as u16 + 256 * data[5] as u16,
        },
    )
}

// ========================================================================
// USB ids
// ========================================================================
/// Why `u16::from_str_radix` refused a string.
#[derive(Debug, Clone, Copy, PartialEq, Eq, Structural)]
pub enum IntErrorKind {
    Empty,
    InvalidDigit,
    PosOverflow,
}

/// The value of a hexadecimal digit.
pub open spec fn hex_digit_value(c: char) -> Option<nat> {
    if '0' <= c <= '9' {
        Some((c as nat - 48) as nat)
    } else if 'a' <= c <= 'f' {
        Some((c as nat - 87) as nat)
    } else if 'A' <= c <= 'F' {
        Some((c as nat - 55) as nat)
    } else {
        None
    }
}

/// Reads hexadecimal digits left to right into a u16: the first bad digit
/// or the first step past 65535 decides the error.
pub open spec fn hex_digits_value(d: Seq<char>) -> Result<u16, IntErrorKind>
    decreases d.len(),
{
    if d.len() == 0 {
        Ok(0)
    } else {
        match hex_digits_value(d.drop_last()) {
            Err(e) => Err(e),
            Ok(acc) => match hex_digit_value(d.last()) {
                None => Err(IntErrorKind::InvalidDigit),
                Some(v) => if acc * 16 + v > 65535 {
                    Err(IntErrorKind::PosOverflow)
                } else {
                    Ok((acc * 16 + v) as u16)
                },
            },
        }
    }
}

/// `u16::from_str_radix(s, 16)`: an optional leading `+`, then hex digits.
pub open spec fn parse_u16_hex(s: Seq<char>) -> Result<u16, IntErrorKind> {
    if s.len() == 0 {
        Err(IntErrorKind::Empty)
    } else if s.len() == 1 && (s[0] == '+' || s[0] == '-') {
        Err(IntErrorKind::InvalidDigit)
    } else if s[0] == '+' {
        hex_digits_value(s.drop_first())
    } else {
        hex_digits_value(s)
    }
}

/// `s` with every leading copy of `pre` removed, as `str::trim_start_matches`.
pub open spec fn strip_leading(s: Seq<char>, pre: Seq<char>) -> Seq<char>
    decreases s.len(),
{
    if pre.len() > 0 && pre.len() <= s.len() && s.subrange(0, pre.len() as int) == pre {
        strip_leading(s.subrange(pre.len() as int, s.len() as int), pre)
    } else {
        s
    }
}

/// The digits of a USB id once every leading `0x`, then every leading
/// `0X`, is removed.
pub open spec fn id_digits(s: Seq<char>) -> Seq<char> {
    strip_leading(strip_leading(s, seq!['0', 'x']), seq!['0', 'X'])
}

/// Why a USB id could not be read.
#[derive(Debug, Clone)]
pub enum HexIdError {
    /// No id was given.
    Missing,
    /// The id is not a hexadecimal u16.
    Invalid { text: String, kind: IntErrorKind },
}

/// What parsing an optional USB id gives.
pub open spec fn spec_parse_hex_u16(input: Option<Seq<char>>) -> Result<u16, Option<(Seq<char>, IntErrorKind)>> {
    match input {
        None => Err(None),
        Some(s) => match parse_u16_hex(id_digits(s)) {
            Ok(v) => Ok(v),
            Err(k) => Err(Some((s, k))),
        },
    }
}

pub open spec fn hex_id_error_view(e: HexIdError) -> Option<(Seq<char>, IntErrorKind)> {
    match e {
        HexIdError::Missing => None,
        HexIdError::Invalid { text, kind } => Some((text@, kind)),
    }
}

pub open spec fn opt_view(o: Option<String>) -> Option<Seq<char>> {
    match o {
        Some(s) => Some(s@),
        None => None,
    }
}

fn strip_leading_exec(s: &Vec<char>, a: char, b: char) -> (r: Vec<char>)
    ensures
        r@ == strip_leading(s@, seq![a, b]),
{
    let mut i: usize = 0;
    assert(s@.subrange(0, s@.len() as int) =~= s@);
    while i < s.len() && s.len() - i >= 2 && s[i] == a && s[i + 1] == b
        invariant
            i <= s@.len(),
            strip_leading(s@, seq![a, b]) == strip_leading(s@.subrange(i as int, s@.len() as int), seq![a, b]),
        decreases s@.len() - i,
    {
        let ghost rest = s@.subrange(i as int, s@.len() as int);
        assert(rest.subrange(0, 2) =~= seq![a, b]);
        assert(rest.subrange(2, rest.len() as int) =~= s@.subrange(i + 2, s@.len() as int));
        i += 2;
    }
    let ghost rest = s@.subrange(i as int, s@.len() as int);
    assert(!(2 <= rest.len() && rest.subrange(0, 2) == seq![a, b])) by {
        if 2 <= rest.len() && rest.subrange(0, 2) == seq![a, b] {
            assert(rest.subrange(0, 2)[0] == s@[i as int]);
            assert(rest.subrange(0, 2)[1] == s@[i + 1]);
        }
    }
    let mut r: Vec<char> = Vec::new();
    let mut k = i;
    while k < s.len()
        invariant
            i <= k <= s@.len(),
            r@ == s@.subrange(i as int, k as int),
        decreases s@.len() - k,
    {
        r.push(s[k]);
        k += 1;
        assert(r@ =~= s@.subrange(i as int, k as int));
    }
    r
}

fn hex_digit_value_exec(c: char) -> (r: Option<u16>)
    ensures
        match hex_digit_value(c) {
            Some(v) => r == Some(v as u16),
            None => r is None,
        },
{
    if '0' <= c && c <= '9' {
        Some((c as u32 - 48) as u16)
    } else if 'a' <= c && c <= 'f' {
        Some((c as u32 - 87) as u16)
    } else if 'A' <= c && c <= 'F' {
        Some((c as u32 - 55) as u16)
    } else {
        None
    }
}

fn parse_u16_hex_exec(s: &Vec<char>) -> (r: Result<u16, IntErrorKind>)
    ensures
        r == parse_u16_hex(s@),
{
    if s.len() == 0 {
        return Err(IntErrorKind::Empty);
    }
    if s.len() == 1 && (s[0] == '+' || s[0] == '-') {
        return Err(IntErrorKind::InvalidDigit);
    }
    let start: usize = if s[0] == '+' {
        1
    } else {
        0
    };
    let ghost digits = s@.subrange(start as int, s@.len() as int);
    assert(start == 1 ==> digits =~= s@.drop_first());
    assert(start == 0 ==> digits =~= s@);
    assert(digits.take(0) =~= Seq::<char>::empty());
    let mut acc: u16 = 0;
    let mut i = start;
    while i < s.len()
        invariant
            start <= i <= s@.len(),
            digits == s@.subrange(start as int, s@.len() as int),
            parse_u16_hex(s@) == hex_digits_value(digits),
            hex_digits_value(digits.take(i - start)) == Ok::<u16, IntErrorKind>(acc),
        decreases s@.len() - i,
    {
        assert(digits.take(i - start + 1).drop_last() =~= digits.take(i - start));
        assert(digits.take(i - start + 1).last() == s@[i as int]);
        match hex_digit_value_exec(s[i]) {
            None => {
                proof {
                    lemma_hex_digits_error_sticks(digits, (i - start + 1) as nat);
                }
                return Err(IntErrorKind::InvalidDigit);
            },
            Some(v) => {
                if acc > 4095 || acc * 16 + v > 65535 {
                    proof {
                        lemma_hex_digits_error_sticks(digits, (i - start + 1) as nat);
                    }
                    return Err(IntErrorKind::PosOverflow);
                }
                acc = acc * 16 + v;
            },
        }
        i += 1;
    }
    assert(digits.take(s@.len() - start) =~= digits);
    Ok(acc)
}

/// Once a prefix of the digits fails, the whole string fails the same way.
proof fn lemma_hex_digits_error_sticks(d: Seq<char>, n: nat)
    requires
        n <= d.len(),
        hex_digits_value(d.take(n as int)) is Err,
    ensures
        hex_digits_value(d) == hex_digits_value(d.take(n as int)),
    decreases d.len() - n,
{
    if n < d.len() {
        assert(d.take(n + 1 as int).drop_last() =~= d.take(n as int));
        lemma_hex_digits_error_sticks(d, n + 1);
    } else {
        assert(d.take(n as int) =~= d);
    }
}

/// Reads an optional USB id such as `0x0b67`: every leading `0x`, then
/// every leading `0X`, is dropped and the rest read as hexadecimal.
pub fn parse_hex_u16(input: &Option<String>) -> (r: Result<u16, HexIdError>)
    ensures
        match r {
            Ok(v) => spec_parse_hex_u16(opt_view(*input)) == Ok::<u16, Option<(Seq<char>, IntErrorKind)>>(v),
            Err(e) => spec_parse_hex_u16(opt_view(*input)) == Err::<u16, Option<(Seq<char>, IntErrorKind)>>(hex_id_error_view(e)),
        },
{
    match input {
        None => Err(HexIdError::Missing),
        Some(s) => {
            let cs = chars_of(s.as_str());
            let a = strip_leading_exec(&cs, '0', 'x');
            let b = strip_leading_exec(&a, '0', 'X');
            match parse_u16_hex_exec(&b) {
                Ok(v) => Ok(v),
                Err(kind) => Err(HexIdError::Invalid { text: s.clone(), kind }),
            }
        },
    }
}

/// The text `std` gives for each kind of integer parse error.
pub open spec fn int_error_text(kind: IntErrorKind) -> Seq<char> {
    match kind {
        IntErrorKind::Empty => "cannot parse integer from empty string"@,
        IntErrorKind::InvalidDigit => "invalid digit found in string"@,
        IntErrorKind::PosOverflow => "number too large to fit in target type"@,
    }
}

/// The message of a USB id error.
pub open spec fn hex_id_error_text(e: Option<(Seq<char>, IntErrorKind)>) -> Seq<char> {
    match e {
        None => "missing hex value"@,
        Some((text, kind)) => "invalid hex "@ + text + ": "@ + int_error_text(kind),
    }
}

impl HexIdError {
    /// The error message.
    pub fn message(&self) -> (m: String)
        ensures
            m@ == hex_id_error_text(hex_id_error_view(*self)),
    {
        match self {
            HexIdError::Missing => String::from_str("missing hex value"),
            HexIdError::Invalid { text, kind } => {
                let mut m = String::from_str("invalid hex ");
                m.append(text.as_str());
                m.append(": ");
                match kind {
                    IntErrorKind::Empty => m.append("cannot parse integer from empty string"),
                    IntErrorKind::InvalidDigit => m.append("invalid digit found in string"),
                    IntErrorKind::PosOverflow => m.append("number too large to fit in target type"),
                }
                m
            },
        }
    }
}

proof fn lemma_zeros_value(k: nat)
    ensures
        hex_digits_value(repeat_char('0', k)) == Ok::<u16, IntErrorKind>(0),
    decreases k,
{
    if k > 0 {
        assert(repeat_char('0', k).drop_last() =~= repeat_char('0', (k - 1) as nat));
        lemma_zeros_value((k - 1) as nat);
    }
}

proof fn lemma_padded_hex_value(k: nat, n: nat)
    requires
        n <= 65535,
    ensures
        hex_digits_value(repeat_char('0', k) + hex(n, false)) == Ok::<u16, IntErrorKind>(n as u16),
    decreases n,
{
    let z = repeat_char('0', k);
    if n < 16 {
        assert((z + hex(n, false)).drop_last() =~= z);
        lemma_zeros_value(k);
    } else {
        lemma_padded_hex_value(k, n / 16);
        assert((z + hex(n, false)).drop_last() =~= z + hex(n / 16, false));
        assert((z + hex(n, false)).last() == hex_char(n % 16, false));
    }
}

/// Reading back a rendered USB id gives the id.
pub proof fn lemma_hex_id_roundtrip(n: u16)
    ensures
        spec_parse_hex_u16(Some(hex_id(n))) == Ok::<u16, Option<(Seq<char>, IntErrorKind)>>(n),
{
    let digits = hex_padded(n as nat, 4, false);
    crate::text::lemma_hex_len_bound(n as nat, false);
    crate::text::lemma_hex_nonempty(n as nat, false);
    reveal_strlit("0x");
    let k = if hex(n as nat, false).len() >= 4 { 0nat } else { (4 - hex(n as nat, false).len()) as nat };
    assert(digits =~= repeat_char('0', k) + hex(n as nat, false));
    lemma_padded_hex_value(k, n as nat);
    assert(digits.len() >= 1);
    // no hex digit is `x` or `X`, and the digits are not a sign
    assert forall|i: int| 0 <= i < digits.len() implies #[trigger] digits[i] != 'x' && digits[i] != 'X'
        && digits[i] != '+' && digits[i] != '-' by {
        if i < k {
        } else {
            lemma_hex_chars(n as nat, i - k);
        }
    }
    let s = hex_id(n);
    assert(s.subrange(0, 2) =~= seq!['0', 'x']);
    assert(s.subrange(2, s.len() as int) =~= digits);
    let once = strip_leading(s, seq!['0', 'x']);
    assert(strip_leading(digits, seq!['0', 'x']) == digits) by {
        if 2 <= digits.len() && digits.subrange(0, 2) == seq!['0', 'x'] {
            assert(digits.subrange(0, 2)[1] == digits[1]);
        }
    }
    assert(once == digits);
    assert(strip_leading(digits, seq!['0', 'X']) == digits) by {
        if 2 <= digits.len() && digits.subrange(0, 2) == seq!['0', 'X'] {
            assert(digits.subrange(0, 2)[1] == digits[1]);
        }
    }
}

proof fn lemma_hex_chars(n: nat, i: int)
    requires
        0 <= i < hex(n, false).len(),
    ensures
        hex(n, false)[i] != 'x' && hex(n, false)[i] != 'X' && hex(n, false)[i] != '+' && hex(n, false)[i] != '-',
    decreases n,
{
    if n >= 16 {
        if i < hex(n / 16, false).len() {
            lemma_hex_chars(n / 16, i);
        }
    }
}

// ========================================================================
// Units
// ========================================================================
/// Whether `c` lower-cases (`char::to_lowercase`) to the ASCII letter `t`:
/// the letter itself, its upper-case form, and for `k` also KELVIN SIGN.
pub open spec fn lowers_to(c: char, t: char) -> bool {
    c == t || c == ((t as u32) - 32) as char || (t == 'k' && c == '\u{212A}')
}

/// Whether `raw` lower-cases to the ASCII word `w`.
pub open spec fn lowers_to_word(raw: Seq<char>, w: Seq<char>) -> bool {
    raw.len() == w.len() && forall|i: int| 0 <= i < raw.len() ==> lowers_to(#[trigger] raw[i], w[i])
}

/// The unit a unit name denotes, case-insensitively; other names give
/// `fallback`.
pub open spec fn spec_normalize_unit(raw: Seq<char>, fallback: WeightUnit) -> WeightUnit {
    if lowers_to_word(raw, seq!['k', 'g']) {
        WeightUnit::Kg
    } else if lowers_to_word(raw, seq!['g']) {
        WeightUnit::G
    } else if lowers_to_word(raw, seq!['l', 'b']) {
        WeightUnit::Lb
    } else if lowers_to_word(raw, seq!['o', 'z']) {
        WeightUnit::Oz
    } else {
        fallback
    }
}

fn char_lowers_to(c: char, t: char) -> (r: bool)
    requires
        'a' <= t <= 'z',
    ensures
        r == lowers_to(c, t),
{
    c == t || c == ((t as u8) - 32) as char || (t == 'k' && c == '\u{212A}')
}

fn lowers_to_2(raw: &Vec<char>, a: char, b: char) -> (r: bool)
    requires
        'a' <= a <= 'z',
        'a' <= b <= 'z',
    ensures
        r == lowers_to_word(raw@, seq![a, b]),
{
    raw.len() == 2 && char_lowers_to(raw[0], a) && char_lowers_to(raw[1], b)
}

pub fn normalize_unit(raw: &str, fallback: WeightUnit) -> (u: WeightUnit)
    ensures
        u == spec_normalize_unit(raw@, fallback),
{
    let cs = chars_of(raw);
    if lowers_to_2(&cs, 'k', 'g') {
        WeightUnit::Kg
    } else if cs.len() == 1 && char_lowers_to(cs[0], 'g') {
        WeightUnit::G
    } else if lowers_to_2(&cs, 'l', 'b') {
        WeightUnit::Lb
    } else if lowers_to_2(&cs, 'o', 'z') {
        WeightUnit::Oz
    } else {
        fallback
    }
}

// ========================================================================
// Simulated scale
// ========================================================================
/// The simulated scale: a weight in hundredths of the unit that climbs by
/// 0.05 per tick up to 5.00, then falls back to 0.00, and so on.
pub struct MockScaleState {
    pub hundredths: i64,
    pub direction: i64,
}

impl MockScaleState {
    /// The weight stays on the 0.05 grid within 0.00..=5.00 and moves by
    /// one step at a time.
    pub open spec fn wf(&self) -> bool {
        &&& 0 <= self.hundredths <= 500
        &&& self.hundredths % 5 == 0
        &&& (self.direction == 1 || self.direction == -1)
        &&& (self.hundredths == 500 ==> self.direction == -1)
        &&& (self.hundredths == 0 ==> self.direction == 1)
    }

    pub fn new() -> (s: MockScaleState)
        ensures
            s.hundredths == 0,
            s.direction == 1,
            s.wf(),
    {
        MockScaleState { hundredths: 0, direction: 1 }
    }

    /// One tick: move by 0.05 in the current direction, turn down at 5.00
    /// and up at 0.00. Returns the new weight.
    pub fn tick(&mut self) -> (w: i64)
        requires
            old(self).wf(),
        ensures
            final(self).wf(),
            w == final(self).hundredths,
            final(self).hundredths == old(self).hundredths + 5 * old(self).direction,
            final(self).direction == (if final(self).hundredths >= 500 {
                -1i64
            } else if final(self).hundredths <= 0 {
                1i64
            } else {
                old(self).direction
            }),
    {
        self.hundredths = self.hundredths + 5 * self.direction;
        if self.hundredths >= 500 {
            self.direction = -1;
        }
        if self.hundredths <= 0 {
            self.direction = 1;
        }
        self.hundredths
    }
}

// ========================================================================
// Driver choice
// ========================================================================
/// The driver to start for a scale.
#[derive(Debug, Clone)]
pub enum ScaleAdapterPlan {
    /// The simulated scale.
    Mock { unit: WeightUnit },
    /// A serial scale speaking the NCI family of protocols.
    Nci { path: String, baud: u32, unit: WeightUnit },
    /// A USB HID point-of-sale scale.
    HidPos { vendor_id: u16, product_id: u16, fallback_unit: WeightUnit },
}

/// The view of a driver choice.
pub enum ScalePlanView {
    Mock { unit: WeightUnit },
    Nci { path: Seq<char>, baud: u32, unit: WeightUnit },
    HidPos { vendor_id: u16, product_id: u16, fallback_unit: WeightUnit },
}

impl View for ScaleAdapterPlan {
    type V = ScalePlanView;

    open spec fn view(&self) -> ScalePlanView {
        match self {
            ScaleAdapterPlan::Mock { unit } => ScalePlanView::Mock { unit: *unit },
            ScaleAdapterPlan::Nci { path, baud, unit } => ScalePlanView::Nci {
                path: path@,
                baud: *baud,
                unit: *unit,
            },
            ScaleAdapterPlan::HidPos { vendor_id, product_id, fallback_unit } => ScalePlanView::HidPos {
                vendor_id: *vendor_id,
                product_id: *product_id,
                fallback_unit: *fallback_unit,
            },
        }
    }
}

pub open spec fn unit_or_kg(u: Option<WeightUnit>) -> WeightUnit {
    match u {
        Some(x) => x,
        None => WeightUnit::Kg,
    }
}

/// The driver a scale configuration calls for, or the message of the
/// reason it cannot be started.
pub open spec fn spec_plan_scale(name: Seq<char>, c: ScaleConfig) -> Result<ScalePlanView, Seq<char>> {
    match c.protocol {
        ScaleProtocol::Mock => Ok(ScalePlanView::Mock { unit: unit_or_kg(c.unit) }),
        ScaleProtocol::HidPos => if c.vendor_id is None || c.product_id is None {
            Err("Scale "@ + name + ": 'vendorId' and 'productId' required for HID-POS"@)
        } else {
            match spec_parse_hex_u16(opt_view(c.vendor_id)) {
                Err(e) => Err(hex_id_error_text(e)),
                Ok(vid) => match spec_parse_hex_u16(opt_view(c.product_id)) {
                    Err(e) => Err(hex_id_error_text(e)),
                    Ok(pid) => Ok(
                        ScalePlanView::HidPos {
                            vendor_id: vid,
                            product_id: pid,
                            fallback_unit: unit_or_kg(c.unit),
                        },
                    ),
                },
            }
        },
        _ => match c.path {
            None => Err("Scale "@ + name + ": serial 'path' is required for NCI protocol"@),
            Some(p) => Ok(
                ScalePlanView::Nci {
                    path: p@,
                    baud: match c.baud {
                        Some(b) => b,
                        None => 9600,
                    },
                    unit: unit_or_kg(c.unit),
                },
            ),
        },
    }
}

/// The driver a scale gets. A simulated scale weighs in its configured unit
/// (kilograms by default). A serial scale of the NCI family (NCI, CAS,
/// Toledo, Avery) needs a path and is read at the configured baud rate,
/// 9600 when none is configured, in its configured unit (kilograms by
/// default). A HID-POS scale needs both USB ids and, once they read as
/// hexadecimal, is opened by them with its configured unit as fallback
/// (kilograms by default).
pub proof fn lemma_scale_plan_meaning(name: Seq<char>, c: ScaleConfig)
    ensures
        c.protocol == ScaleProtocol::Mock ==> spec_plan_scale(name, c) == Ok::<ScalePlanView, Seq<char>>(
            ScalePlanView::Mock {
                unit: match c.unit {
                    Some(u) => u,
                    None => WeightUnit::Kg,
                },
            },
        ),
        (c.protocol == ScaleProtocol::Nci || c.protocol == ScaleProtocol::Cas || c.protocol == ScaleProtocol::Toledo
            || c.protocol == ScaleProtocol::Avery) ==> spec_plan_scale(name, c) == match c.path {
            None => Err::<ScalePlanView, Seq<char>>(
                "Scale "@ + name + ": serial 'path' is required for NCI protocol"@,
            ),
            Some(p) => Ok(
                ScalePlanView::Nci {
                    path: p@,
                    baud: match c.baud {
                        Some(b) => b,
                        None => 9600u32,
                    },
                    unit: match c.unit {
                        Some(u) => u,
                        None => WeightUnit::Kg,
                    },
                },
            ),
        },
        c.protocol == ScaleProtocol::HidPos && (c.vendor_id is None || c.product_id is None) ==> spec_plan_scale(
            name,
            c,
        ) == Err::<ScalePlanView, Seq<char>>(
            "Scale "@ + name + ": 'vendorId' and 'productId' required for HID-POS"@,
        ),
        c.protocol == ScaleProtocol::HidPos ==> (spec_plan_scale(name, c) matches Ok(ScalePlanView::HidPos { vendor_id, product_id, fallback_unit })
            ==> spec_parse_hex_u16(opt_view(c.vendor_id)) == Ok::<u16, Option<(Seq<char>, IntErrorKind)>>(vendor_id)
            && spec_parse_hex_u16(opt_view(c.product_id)) == Ok::<u16, Option<(Seq<char>, IntErrorKind)>>(product_id)
            && fallback_unit == match c.unit {
                Some(u) => u,
                None => WeightUnit::Kg,
            }),
        c.protocol == ScaleProtocol::HidPos ==> (spec_plan_scale(name, c) is Ok <==> (c.vendor_id is Some
            && c.product_id is Some && spec_parse_hex_u16(opt_view(c.vendor_id)) is Ok && spec_parse_hex_u16(
            opt_view(c.product_id),
        ) is Ok)),
{
}

pub open spec fn plan_result_view(r: Result<ScaleAdapterPlan, String>) -> Result<ScalePlanView, Seq<char>> {
    match r {
        Ok(p) => Ok(p@),
        Err(m) => Err(m@),
    }
}

fn unit_or_default(u: Option<WeightUnit>) -> (r: WeightUnit)
    ensures
        r == unit_or_kg(u),
{
    match u {
        Some(x) => x,
        None => WeightUnit::Kg,
    }
}

/// Chooses the driver for a configured scale.
pub fn plan_scale_adapter(name: &String, config: &ScaleConfig) -> (r: Result<ScaleAdapterPlan, String>)
    ensures
        plan_result_view(r) == spec_plan_scale(name@, *config),
{
    match config.protocol {
        ScaleProtocol::Mock => Ok(ScaleAdapterPlan::Mock { unit: unit_or_default(config.unit) }),
        ScaleProtocol::HidPos => {
            if config.vendor_id.is_none() || config.product_id.is_none() {
                let mut m = String::from_str("Scale ");
                m.append(name.as_str());
                m.append(": 'vendorId' and 'productId' required for HID-POS");
                return Err(m);
            }
            let vid = match parse_hex_u16(&config.vendor_id) {
                Ok(v) => v,
                Err(e) => return Err(e.message()),
            };
            let pid = match parse_hex_u16(&config.product_id) {
                Ok(v) => v,
                Err(e) => return Err(e.message()),
            };
            Ok(
                ScaleAdapterPlan::HidPos {
                    vendor_id: vid,
                    product_id: pid,
                    fallback_unit: unit_or_default(config.unit),
                },
            )
        },
        _ => match &config.path {
            None => {
                let mut m = String::from_str("Scale ");
                m.append(name.as_str());
                m.append(": serial 'path' is required for NCI protocol");
                Err(m)
            },
            Some(p) => Ok(
                ScaleAdapterPlan::Nci {
                    path: p.clone(),
                    baud: match config.baud {
                        Some(b) => b,
                        None => 9600,
                    },
                    unit: unit_or_default(config.unit),
                },
            ),
        },
    }
}

/// Chooses the driver for the scale the catalog names `name`; a name the
/// catalog lacks is an error.
pub fn plan_catalog_scale(name: &String, catalog: &NamedMap<ScaleConfig>) -> (r: Result<ScaleAdapterPlan, String>)
    requires
        catalog.wf(),
    ensures
        plan_result_view(r) == match catalog.lookup(name@) {
            None => Err("Scale not found: "@ + name@),
            Some(c) => spec_plan_scale(name@, c),
        },
{
    match catalog.get(name) {
        None => {
            let mut m = String::from_str("Scale not found: ");
            m.append(name.as_str());
            Err(m)
        },
        Some(c) => plan_scale_adapter(name, c),
    }
}

/// The error for a scale neither detected nor configured.
pub fn scale_not_found(name: &str) -> (e: ApiError)
    ensures
        e.error@ == "SCALE_NOT_FOUND"@,
        e.message@ == "Scale "@ + name@ + " not detected or configured"@,
{
    let mut m = String::from_str("Scale ");
    m.append(name);
    m.append(" not detected or configured");
    ApiError::new(String::from_str("SCALE_NOT_FOUND"), m)
}

/// The error when a HID scale sent no report in time.
pub fn hid_no_report_message(name: &str) -> (m: String)
    ensures
        m@ == "Scale "@ + name@ + " did not emit a HID report within 1500ms"@,
{
    let mut m = String::from_str("Scale ");
    m.append(name);
    m.append(" did not emit a HID report within 1500ms");
    m
}

} // verus!
