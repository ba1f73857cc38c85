//! Decoding of the text stream of NCI-family serial scales: the received
//! text is cleaned of framing bytes, the first weight frame is found with
//! a regular expression, and the reading and the unconsumed rest of the
//! text are worked out from what the expression captured.
use vstd::prelude::*;
use vstd::string::*;
use vstd::utf8::{
    decode_utf8, decode_utf8_split, encode_utf8, encode_utf8_decode_utf8, encode_utf8_valid_utf8,
    is_char_boundary,
};

use crate::scales::{normalize_unit, spec_normalize_unit};
use crate::text::{chars_of, chars_eq_ignore_ascii_case, eq_ignore_ascii_case, push_char, text_eq};
use crate::types::WeightUnit;

verus! {

/// The frame of an NCI weight report: an optional status letter, an
/// optional sign, the value and the unit, case-insensitively. The groups
/// are, in order, status, sign, value and unit.
pub const NCI_FRAME_PATTERN: &'static str = "(?i)(?P<status>[SMOUZ])?[\\s,]*(?P<sign>[-+])?\\s*(?P<value>\\d+(?:\\.\\d+)?)\\s*(?P<unit>kg|lb|oz|g)";

/// How long a reading may take before the last known one is used, in
/// milliseconds.
pub const READ_TIMEOUT_MS: u64 = 1500;

/// The request that makes an NCI scale report its weight: STX, `W`, CR.
pub fn poll_frame() -> (f: [u8; 3])
    ensures
        f@ == seq![0x02u8, 0x57u8, 0x0du8],
{
    [0x02, 0x57, 0x0d]
}

// ========================================================================
// Regular expressions
// ========================================================================
#[verifier::external_type_specification]
#[verifier::external_body]
pub struct ExRegex(regex::Regex);

/// A compiled regular expression together with the pattern it was
/// compiled from.
pub struct CompiledRegex {
    regex: regex::Regex,
    pattern: String,
}

impl CompiledRegex {
    /// The pattern the expression was compiled from.
    pub closed spec fn pattern(&self) -> Seq<char> {
        self.pattern@
    }
}

/// Whether `regex::Regex::new` accepts `pattern` (with its default size
/// limits, which depend on nothing but the pattern).
pub uninterp spec fn regex_compiles(pattern: Seq<char>) -> bool;

/// Compiles `pattern` with `regex::Regex::new`. Claimed: compilation
/// succeeds exactly when `regex_compiles` holds of the pattern, and a
/// compiled expression carries `pattern` as its pattern. Which patterns
/// compile is not spelled out.
#[verifier::external_body]
fn compile_regex(pattern: &str) -> (r: Option<CompiledRegex>)
    ensures
        r is Some <==> regex_compiles(pattern@),
        r matches Some(c) ==> c.pattern() == pattern@,
{
    match regex::Regex::new(pattern) {
        Ok(regex) => Some(CompiledRegex { regex, pattern: pattern.to_string() }),
        Err(_) => None,
    }
}

/// The first match of an expression: the byte offset where the whole
/// match ends, and the text of each capture group by index (group 0 is
/// the whole match), `None` for a group that took no part in the match.
pub struct RegexCaptures {
    pub end: usize,
    pub groups: Vec<Option<String>>,
}

/// The view of a match.
pub struct CapturesView {
    pub end: nat,
    pub groups: Seq<Option<Seq<char>>>,
}

pub open spec fn opt_string_view(o: Option<String>) -> Option<Seq<char>> {
    match o {
        Some(s) => Some(s@),
        None => None,
    }
}

impl View for RegexCaptures {
    type V = CapturesView;

    open spec fn view(&self) -> CapturesView {
        CapturesView {
            end: self.end as nat,
            groups: self.groups@.map_values(|g: Option<String>| opt_string_view(g)),
        }
    }
}

pub open spec fn captures_view(r: Option<RegexCaptures>) -> Option<CapturesView> {
    match r {
        Some(c) => Some(c@),
        None => None,
    }
}

/// What `regex::Regex::captures` finds, for the expression compiled from
/// `pattern`, in `text`: the leftmost-first match with its groups, or
/// `None` when nothing matches.
pub uninterp spec fn regex_first_captures(pattern: Seq<char>, text: Seq<char>) -> Option<CapturesView>;

/// Searches `text` with `regex::Regex::captures`. Claimed: the result is
/// the one named by `regex_first_captures` for the expression's pattern
/// and the text, and, as the crate documents for every `Match`, the end
/// of the match is a byte offset on a character boundary of the text.
#[verifier::external_body]
fn regex_captures(re: &CompiledRegex, text: &str) -> (r: Option<RegexCaptures>)
    ensures
        captures_view(r) == regex_first_captures(re.pattern(), text@),
        r matches Some(c) ==> is_char_boundary(text.spec_bytes(), c.end as int),
{
    re.regex.captures(text).map(
        |caps| RegexCaptures {
            end: caps.get_match().end(),
            groups: caps.iter().map(|g| g.map(|m| m.as_str().to_string())).collect(),
        },
    )
}

// ========================================================================
// Readings
// ========================================================================
/// A weight reported by the scale: its sign, the decimal digits of its
/// magnitude as sent, its unit and whether the scale was at rest.
#[derive(Debug, Clone)]
pub struct NciReading {
    pub negative: bool,
    pub value_text: String,
    pub unit: WeightUnit,
    pub stable: bool,
}

/// The view of a reading.
pub struct NciReadingView {
    pub negative: bool,
    pub value_text: Seq<char>,
    pub unit: WeightUnit,
    pub stable: bool,
}

impl View for NciReading {
    type V = NciReadingView;

    open spec fn view(&self) -> NciReadingView {
        NciReadingView {
            negative: self.negative,
            value_text: self.value_text@,
            unit: self.unit,
            stable: self.stable,
        }
    }
}

/// The text of capture group `i`, if the group took part.
pub open spec fn group_text(c: CapturesView, i: int) -> Option<Seq<char>> {
    if 0 <= i < c.groups.len() {
        c.groups[i]
    } else {
        None
    }
}

/// The reading a frame match stands for: negative when the sign is `-`,
/// the value `0` when none was captured, the unit normalised (the
/// default when none was captured), and at rest unless the status is
/// `M` (in motion).
pub open spec fn spec_nci_reading(c: CapturesView, default_unit: WeightUnit) -> NciReadingView {
    NciReadingView {
        negative: group_text(c, 2) == Some("-"@),
        value_text: match group_text(c, 3) {
            Some(v) => v,
            None => "0"@,
        },
        unit: match group_text(c, 4) {
            Some(u) => spec_normalize_unit(u, default_unit),
            None => default_unit,
        },
        stable: !(match group_text(c, 1) {
            Some(s) => eq_ignore_ascii_case(s, "M"@),
            None => false,
        }),
    }
}

fn group_at(caps: &RegexCaptures, i: usize) -> (g: Option<&String>)
    ensures
        match g {
            Some(s) => group_text(caps@, i as int) == Some(s@),
            None => group_text(caps@, i as int) is None,
        },
{
    if i < caps.groups.len() {
        match &caps.groups[i] {
            Some(s) => Some(s),
            None => None,
        }
    } else {
        None
    }
}

/// The reading a frame match stands for.
pub fn nci_reading_from_captures(caps: &RegexCaptures, default_unit: WeightUnit) -> (r: NciReading)
    ensures
        r@ == spec_nci_reading(caps@, default_unit),
{
    proof {
        reveal_strlit("-");
        reveal_strlit("0");
        reveal_strlit("M");
    }
    let negative = match group_at(caps, 2) {
        Some(s) => text_eq(s.as_str(), "-"),
        None => false,
    };
    let value_text = match group_at(caps, 3) {
        Some(v) => v.clone(),
        None => String::from_str("0"),
    };
    let unit = match group_at(caps, 4) {
        Some(u) => normalize_unit(u.as_str(), default_unit),
        None => default_unit,
    };
    let moving = match group_at(caps, 1) {
        Some(s) => {
            let a = chars_of(s.as_str());
            let b = chars_of("M");
            chars_eq_ignore_ascii_case(a.as_slice(), b.as_slice())
        },
        None => false,
    };
    NciReading { negative, value_text, unit, stable: !moving }
}

// ========================================================================
// Received text
// ========================================================================
/// What a received character becomes: NUL is dropped and ETX ends a line.
pub open spec fn clean_char(c: char) -> Seq<char> {
    if c == '\0' {
        Seq::empty()
    } else if c == '\x03' {
        seq!['\n']
    } else {
        seq![c]
    }
}

/// Received text with NULs dropped and ETX turned into newlines.
pub open spec fn cleaned(s: Seq<char>) -> Seq<char>
    decreases s.len(),
{
    if s.len() == 0 {
        Seq::empty()
    } else {
        cleaned(s.drop_last()) + clean_char(s.last())
    }
}

/// Whether a text holds no NUL and no ETX.
pub open spec fn is_clean(s: Seq<char>) -> bool {
    forall|i: int| 0 <= i < s.len() ==> #[trigger] s[i] != '\0' && s[i] != '\x03'
}

proof fn lemma_cleaned_is_clean(s: Seq<char>)
    ensures
        is_clean(cleaned(s)),
    decreases s.len(),
{
    if s.len() > 0 {
        lemma_cleaned_is_clean(s.drop_last());
        let prev = cleaned(s.drop_last());
        let tail = clean_char(s.last());
        assert forall|i: int| 0 <= i < (prev + tail).len() implies #[trigger] (prev + tail)[i] != '\0'
            && (prev + tail)[i] != '\x03' by {
            if i >= prev.len() {
                assert((prev + tail)[i] == tail[i - prev.len()]);
            }
        }
    }
}

/// What follows a character boundary of a clean text is clean.
proof fn lemma_after_bytes_clean(s: Seq<char>, end: nat)
    requires
        is_clean(s),
        is_char_boundary(encode_utf8(s), end as int),
    ensures
        is_clean(after_bytes(s, end)),
{
    let bytes = encode_utf8(s);
    encode_utf8_valid_utf8(s);
    encode_utf8_decode_utf8(s);
    decode_utf8_split(bytes, end as int);
    let head = decode_utf8(bytes.subrange(0, end as int));
    let rest = after_bytes(s, end);
    assert(s == head + rest);
    assert forall|i: int| 0 <= i < rest.len() implies #[trigger] rest[i] != '\0' && rest[i] != '\x03' by {
        assert(rest[i] == s[head.len() + i]);
    }
}

/// The text held so far followed by a newly received chunk, cleaned.
pub fn clean_received(held: &str, chunk: &str) -> (r: String)
    ensures
        r@ == cleaned(held@ + chunk@),
{
    let mut joined = String::from_str(held);
    joined.append(chunk);
    let cs = chars_of(joined.as_str());
    let mut out = String::new();
    let mut i: usize = 0;
    while i < cs.len()
        invariant
            i <= cs@.len(),
            cs@ == held@ + chunk@,
            out@ == cleaned(cs@.take(i as int)),
        decreases cs@.len() - i,
    {
        let c = cs[i];
        assert(cs@.take(i as int + 1).drop_last() =~= cs@.take(i as int));
        if c == '\0' {
        } else if c == '\x03' {
            push_char(&mut out, '\n');
        } else {
            push_char(&mut out, c);
        }
        assert(out@ =~= cleaned(cs@.take(i as int + 1)));
        i += 1;
    }
    assert(cs@.take(cs@.len() as int) =~= cs@);
    out
}

/// The text after byte offset `end`.
pub fn text_after(text: &str, end: usize) -> (r: String)
    requires
        is_char_boundary(text.spec_bytes(), end as int),
    ensures
        r@ == decode_utf8(text.spec_bytes().subrange(end as int, text.spec_bytes().len() as int)),
{
    let (_, rest) = text.split_at(end);
    proof {
        encode_utf8_decode_utf8(rest@);
    }
    rest.to_owned()
}

/// The text after the first `end` bytes of `s` (as UTF-8).
pub open spec fn after_bytes(s: Seq<char>, end: nat) -> Seq<char> {
    decode_utf8(encode_utf8(s).subrange(end as int, encode_utf8(s).len() as int))
}

// ========================================================================
// Decoder
// ========================================================================
/// The state of an NCI stream decoder: the frame expression, the text
/// received and not yet consumed, and the unit used when a frame names
/// none it knows.
pub struct NciDecoder {
    frame: CompiledRegex,
    buffer: String,
    default_unit: WeightUnit,
}

impl NciDecoder {
    /// The frame pattern the decoder searches with.
    pub closed spec fn frame_pattern(&self) -> Seq<char> {
        self.frame.pattern()
    }

    /// The text received and not yet consumed.
    pub closed spec fn held(&self) -> Seq<char> {
        self.buffer@
    }

    /// The unit used when a frame names none it knows.
    pub closed spec fn fallback_unit(&self) -> WeightUnit {
        self.default_unit
    }

    /// The text received and not yet consumed.
    pub fn held_text(&self) -> (t: &str)
        ensures
            t@ == self.held(),
    {
        self.buffer.as_str()
    }

    /// The unit used when a frame names none it knows.
    pub fn default_unit(&self) -> (u: WeightUnit)
        ensures
            u == self.fallback_unit(),
    {
        self.default_unit
    }

    /// A decoder with nothing received; `None` exactly when the frame
    /// expression does not compile.
    pub fn new(default_unit: WeightUnit) -> (r: Option<NciDecoder>)
        ensures
            r is Some <==> regex_compiles(NCI_FRAME_PATTERN@),
            r matches Some(d) ==> {
                &&& d.frame_pattern() == NCI_FRAME_PATTERN@
                &&& d.held() == Seq::<char>::empty()
                &&& d.fallback_unit() == default_unit
            },
    {
        match compile_regex(NCI_FRAME_PATTERN) {
            Some(frame) => Some(NciDecoder { frame, buffer: String::new(), default_unit }),
            None => None,
        }
    }

    /// Takes in a received chunk: the cleaned text is searched for a
    /// frame; when one is found its reading is returned and the text up to
    /// the end of the frame is consumed, otherwise the text is kept.
    pub fn feed(&mut self, chunk: &str) -> (r: Option<NciReading>)
        ensures
            final(self).frame_pattern() == old(self).frame_pattern(),
            final(self).fallback_unit() == old(self).fallback_unit(),
            is_clean(final(self).held()),
            ({
                let text = cleaned(old(self).held() + chunk@);
                match regex_first_captures(old(self).frame_pattern(), text) {
                    None => r is None && final(self).held() == text,
                    Some(c) => {
                        &&& r matches Some(reading)
                        &&& reading@ == spec_nci_reading(c, old(self).fallback_unit())
                        &&& final(self).held() == after_bytes(text, c.end)
                    },
                }
            }),
    {
        let text = clean_received(self.buffer.as_str(), chunk);
        proof {
            lemma_cleaned_is_clean(self.buffer@ + chunk@);
        }
        match regex_captures(&self.frame, text.as_str()) {
            None => {
                self.buffer = text;
                None
            },
            Some(caps) => {
                let reading = nci_reading_from_captures(&caps, self.default_unit);
                proof {
                    lemma_after_bytes_clean(text@, caps.end as nat);
                }
                self.buffer = text_after(text.as_str(), caps.end);
                Some(reading)
            },
        }
    }
}

/// The error when a scale gave no reading in time and none is known.
pub fn no_response_message(name: &str) -> (m: String)
    ensures
        m@ == "Scale "@ + name@ + " did not respond within 1500ms"@,
{
    let mut m = String::from_str("Scale ");
    m.append(name);
    m.append(" did not respond within 1500ms");
    m
}

} // verus!
