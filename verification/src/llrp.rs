//! Minimal LLRP v1.1 client logic: message framing, the inventory ROSpec,
//! the RO_ACCESS_REPORT decoder and the session that drives a reader from
//! connection to streaming.
//!
//! Wire format of a message: a 10-byte header (`[Rsvd:3 | Version:3 |
//! MsgType:10]` as u16, total length as u32, message id as u32) followed by
//! parameters. A TLV parameter is `[Rsvd:6 | Type:10]` as u16, its length
//! (header included) as u16, and its payload. A TV parameter (inside
//! TagReportData) starts with one byte `1xxxxxxx` whose low bits are the type;
//! its size follows from the type.
use vstd::prelude::*;

use crate::text::{append_bytes, hex_char, hex_digit, push_char};

verus! {

pub const MSG_ADD_ROSPEC: u16 = 20;
pub const MSG_DELETE_ROSPEC: u16 = 21;
pub const MSG_START_ROSPEC: u16 = 22;
pub const MSG_ENABLE_ROSPEC: u16 = 24;
pub const MSG_RO_ACCESS_REPORT: u16 = 61;
pub const MSG_KEEPALIVE: u16 = 62;
pub const MSG_KEEPALIVE_ACK: u16 = 72;

pub const PARAM_RO_SPEC: u16 = 177;
pub const PARAM_RO_BOUNDARY_SPEC: u16 = 178;
pub const PARAM_RO_SPEC_START_TRIGGER: u16 = 179;
pub const PARAM_RO_SPEC_STOP_TRIGGER: u16 = 182;
pub const PARAM_AI_SPEC: u16 = 183;
pub const PARAM_AI_SPEC_STOP_TRIGGER: u16 = 184;
pub const PARAM_INVENTORY_PARAMETER_SPEC: u16 = 186;
pub const PARAM_TAG_REPORT_DATA: u16 = 240;
pub const PARAM_EPC_DATA: u16 = 241;

pub const TV_EPC_96: u8 = 13;
pub const TV_ANTENNA_ID: u8 = 1;
pub const TV_PEAK_RSSI: u8 = 6;

pub const VERSION: u8 = 1;
pub const ROSPEC_ID: u32 = 1;

/// The default TCP port of an LLRP reader.
pub const LLRP_PORT: u16 = 5084;

// ===== framing =====
/// Big-endian bytes of a u16.
pub open spec fn be16(v: u16) -> Seq<u8> {
    seq![(v / 256) as u8, (v % 256) as u8]
}

/// Big-endian bytes of a u32.
pub open spec fn be32(v: u32) -> Seq<u8> {
    seq![(v / 0x1000000) as u8, ((v / 0x10000) % 256) as u8, ((v / 256) % 256) as u8, (v % 256) as u8]
}

/// The u16 whose big-endian bytes are `hi`, `lo`.
pub open spec fn be16_value(hi: u8, lo: u8) -> nat {
    (hi * 256 + lo) as nat
}

/// The u32 whose big-endian bytes are `b0`..`b3`.
pub open spec fn be32_value(b0: u8, b1: u8, b2: u8, b3: u8) -> nat {
    (b0 * 0x1000000 + b1 * 0x10000 + b2 * 0x100 + b3) as nat
}

/// `[Rsvd:3=0 | Version:3 | Type:10]`.
pub open spec fn spec_header_word(version: u8, msg_type: u16) -> u16 {
    ((version % 8) * 1024 + msg_type % 1024) as u16
}

/// Packs version and message type into the first header word.
pub fn header_word(version: u8, msg_type: u16) -> (w: u16)
    ensures
        w == spec_header_word(version, msg_type),
{
    let v = (version % 8) as u16;
    v * 1024 + msg_type % 1024
}

pub fn u16_be(v: u16) -> (b: [u8; 2])
    ensures
        b@ == be16(v),
{
    let b = [(v / 256) as u8, (v % 256) as u8];
    assert(b@ =~= be16(v));
    b
}

pub fn u32_be(v: u32) -> (b: [u8; 4])
    ensures
        b@ == be32(v),
{
    let b = [(v / 0x1000000) as u8, ((v / 0x10000) % 256) as u8, ((v / 256) % 256) as u8, (v % 256) as u8];
    assert(b@ =~= be32(v));
    b
}

/// A TLV parameter: type (low 10 bits), length (payload plus the 4 header
/// bytes, kept to 16 bits) and payload.
pub open spec fn tlv_bytes(param_type: u16, payload: Seq<u8>) -> Seq<u8> {
    be16((param_type % 1024) as u16) + be16(((4 + payload.len()) % 65536) as u16) + payload
}

pub fn tlv(param_type: u16, payload: &[u8]) -> (r: Vec<u8>)
    ensures
        r@ == tlv_bytes(param_type, payload@),
{
    let mut buf: Vec<u8> = Vec::new();
    append_bytes(&mut buf, &u16_be(param_type % 1024));
    let length: u16 = ((payload.len() % 65536) as u16).wrapping_add(4);
    assert(length == ((4 + payload@.len()) % 65536) as u16) by {
        let l = payload@.len();
        assert(((l % 65536) + 4) % 65536 == (4 + l) % 65536) by (nonlinear_arith);
    }
    append_bytes(&mut buf, &u16_be(length));
    append_bytes(&mut buf, payload);
    buf
}

/// A whole message: header (version 1, type, total length kept to 32 bits,
/// id) followed by the payload.
pub open spec fn message_bytes(msg_type: u16, msg_id: u32, payload: Seq<u8>) -> Seq<u8> {
    be16(spec_header_word(VERSION, msg_type)) + be32(((10 + payload.len()) % 0x100000000) as u32)
        + be32(msg_id) + payload
}

/// Frames a message for sending.
pub fn frame_message(msg_type: u16, msg_id: u32, payload: &[u8]) -> (r: Vec<u8>)
    ensures
        r@ == message_bytes(msg_type, msg_id, payload@),
{
    let mut buf: Vec<u8> = Vec::new();
    append_bytes(&mut buf, &u16_be(header_word(VERSION, msg_type)));
    let length: u32 = ((payload.len() as u64 % 0x100000000) as u32).wrapping_add(10);
    assert(length == ((10 + payload@.len()) % 0x100000000) as u32) by {
        let l = payload@.len();
        assert(((l % 0x100000000) + 10) % 0x100000000 == (10 + l) % 0x100000000) by (nonlinear_arith);
    }
    append_bytes(&mut buf, &u32_be(length));
    append_bytes(&mut buf, &u32_be(msg_id));
    append_bytes(&mut buf, payload);
    buf
}

/// Why a received header was refused.
#[derive(Debug, Clone, Copy, PartialEq, Eq, Structural)]
pub enum LlrpFrameError {
    /// The length field is below the 10 bytes of the header itself.
    LengthBelowHeader,
}

/// What a 10-byte header announces: the message type and the number of
/// payload bytes that follow, or an error when the length is below 10.
pub open spec fn spec_parse_header(h: Seq<u8>) -> Result<(u16, nat), LlrpFrameError> {
    let length = be32_value(h[2], h[3], h[4], h[5]);
    if length < 10 {
        Err(LlrpFrameError::LengthBelowHeader)
    } else {
        Ok(((be16_value(h[0], h[1]) % 1024) as u16, (length - 10) as nat))
    }
}

/// Reads the type and payload length out of a received header.
pub fn parse_message_header(header: &[u8; 10]) -> (r: Result<(u16, usize), LlrpFrameError>)
    ensures
        match r {
            Ok((t, n)) => spec_parse_header(header@) == Ok::<(u16, nat), LlrpFrameError>((t, n as nat)),
            Err(e) => spec_parse_header(header@) == Err::<(u16, nat), LlrpFrameError>(e),
        },
{
    let word: u16 = header[0] as u16 * 256 + header[1] as u16;
    let msg_type = word % 1024;
    let length: u32 = header[2] as u32 * 0x1000000 + header[3] as u32 * 0x10000 + header[4] as u32
        * 0x100 + header[5] as u32;
    if length < 10 {
        return Err(LlrpFrameError::LengthBelowHeader);
    }
    Ok((msg_type, (length - 10) as usize))
}

// ===== ROSpec =====
/// The continuous inventory ROSpec: all antennas, immediate start, no stop
/// trigger, EPC Class-1 Gen-2.
pub open spec fn inventory_rospec_bytes() -> Seq<u8> {
    let start_trigger = tlv_bytes(PARAM_RO_SPEC_START_TRIGGER, seq![1u8]);
    let stop_trigger = tlv_bytes(PARAM_RO_SPEC_STOP_TRIGGER, seq![0u8, 0, 0, 0, 0]);
    let boundary = tlv_bytes(PARAM_RO_BOUNDARY_SPEC, start_trigger + stop_trigger);
    let ai_stop = tlv_bytes(PARAM_AI_SPEC_STOP_TRIGGER, seq![0u8, 0, 0, 0, 0]);
    let inventory_param = tlv_bytes(PARAM_INVENTORY_PARAMETER_SPEC, seq![0u8, 1, 1]);
    let ai = tlv_bytes(PARAM_AI_SPEC, be16(1) + be16(0) + ai_stop + inventory_param);
    tlv_bytes(PARAM_RO_SPEC, be32(ROSPEC_ID) + seq![0u8, 0u8] + boundary + ai)
}

pub fn build_inventory_rospec() -> (r: Vec<u8>)
    ensures
        r@ == inventory_rospec_bytes(),
{
    let start_trigger = tlv(PARAM_RO_SPEC_START_TRIGGER, &[1u8]);
    let stop_trigger = tlv(PARAM_RO_SPEC_STOP_TRIGGER, &[0u8, 0, 0, 0, 0]);
    let mut boundary: Vec<u8> = Vec::new();
    append_bytes(&mut boundary, &start_trigger);
    append_bytes(&mut boundary, &stop_trigger);
    let boundary = tlv(PARAM_RO_BOUNDARY_SPEC, &boundary);

    let ai_stop = tlv(PARAM_AI_SPEC_STOP_TRIGGER, &[0u8, 0, 0, 0, 0]);
    let inventory_param = tlv(PARAM_INVENTORY_PARAMETER_SPEC, &[0u8, 1, 1]);
    let mut ai: Vec<u8> = Vec::new();
    append_bytes(&mut ai, &u16_be(1));
    append_bytes(&mut ai, &u16_be(0));
    append_bytes(&mut ai, &ai_stop);
    append_bytes(&mut ai, &inventory_param);
    let ai = tlv(PARAM_AI_SPEC, &ai);

    let mut rospec: Vec<u8> = Vec::new();
    append_bytes(&mut rospec, &u32_be(ROSPEC_ID));
    rospec.push(0);
    rospec.push(0);
    append_bytes(&mut rospec, &boundary);
    append_bytes(&mut rospec, &ai);
    let r = tlv(PARAM_RO_SPEC, &rospec);
    proof {
        assert(seq![1u8] =~= [1u8]@);
        assert(seq![0u8, 0, 0, 0, 0] =~= [0u8, 0, 0, 0, 0]@);
        assert(seq![0u8, 1, 1] =~= [0u8, 1, 1]@);
        assert(rospec@ =~= be32(ROSPEC_ID) + seq![0u8, 0u8] + boundary@ + ai@);
    }
    r
}

// ===== RO_ACCESS_REPORT decoder =====
/// Upper-case hexadecimal of one byte.
pub open spec fn byte_hex(b: u8) -> Seq<char> {
    seq![hex_char((b / 16) as nat, true), hex_char((b % 16) as nat, true)]
}

/// Upper-case hexadecimal of a byte string, two digits per byte.
pub open spec fn hex_bytes(b: Seq<u8>) -> Seq<char>
    decreases b.len(),
{
    if b.len() == 0 {
        Seq::empty()
    } else {
        hex_bytes(b.drop_last()) + byte_hex(b.last())
    }
}

/// Upper-case hexadecimal of a byte string.
pub fn hex_upper(bytes: &[u8]) -> (s: String)
    ensures
        s@ == hex_bytes(bytes@),
{
    let mut out = String::new();
    let mut i: usize = 0;
    while i < bytes.len()
        invariant
            i <= bytes@.len(),
            out@ == hex_bytes(bytes@.take(i as int)),
        decreases bytes@.len() - i,
    {
        let b = bytes[i];
        push_char(&mut out, hex_digit(b / 16, true));
        push_char(&mut out, hex_digit(b % 16, true));
        i += 1;
        assert(bytes@.take(i as int).drop_last() =~= bytes@.take(i - 1));
        assert(out@ =~= hex_bytes(bytes@.take(i as int)));
    }
    assert(bytes@.take(bytes@.len() as int) =~= bytes@);
    out
}

/// The value of a byte read as a signed 8-bit number.
pub open spec fn signed_byte(b: u8) -> i16 {
    if b < 128 {
        b as i16
    } else {
        (b - 256) as i16
    }
}

/// The fields of a tag read out of a TagReportData parameter.
pub struct TagReportView {
    pub epc: Seq<char>,
    pub rssi: Option<i16>,
    pub antenna: Option<u16>,
}

/// A decoded tag: EPC in upper-case hex (empty when none was found),
/// peak RSSI and antenna when reported.
#[derive(Debug, Clone)]
pub struct DecodedTag {
    pub epc: String,
    pub rssi: Option<i16>,
    pub antenna: Option<u16>,
}

impl View for DecodedTag {
    type V = TagReportView;

    open spec fn view(&self) -> TagReportView {
        TagReportView { epc: self.epc@, rssi: self.rssi, antenna: self.antenna }
    }
}

pub open spec fn empty_tag() -> TagReportView {
    TagReportView { epc: Seq::empty(), rssi: None, antenna: None }
}

/// Decoding of the parameters of a TagReportData body from position `i`
/// on, starting from the fields found so far.
///
/// TV parameters: EPC-96 (12 bytes, replaces the EPC), AntennaID (u16),
/// PeakRSSI (i8); an unknown TV type or a truncated one ends the decoding.
/// TLV parameters: an EPCData parameter gives the EPC (its bit length
/// rounded up to bytes) unless one was already found; other TLVs are
/// skipped; a TLV whose length is below 4 or runs past the end ends the
/// decoding.
pub open spec fn tag_fields_from(p: Seq<u8>, i: int, t: TagReportView) -> TagReportView
    decreases p.len() - i,
{
    if i < 0 || i >= p.len() {
        t
    } else {
        let first = p[i];
        if first >= 128 {
            let tv_type = first - 128;
            if tv_type == TV_EPC_96 {
                if i + 13 <= p.len() {
                    tag_fields_from(
                        p,
                        i + 13,
                        TagReportView { epc: hex_bytes(p.subrange(i + 1, i + 13)), ..t },
                    )
                } else {
                    t
                }
            } else if tv_type == TV_ANTENNA_ID {
                if i + 3 <= p.len() {
                    tag_fields_from(
                        p,
                        i + 3,
                        TagReportView { antenna: Some(be16_value(p[i + 1], p[i + 2]) as u16), ..t },
                    )
                } else {
                    t
                }
            } else if tv_type == TV_PEAK_RSSI {
                if i + 2 <= p.len() {
                    tag_fields_from(p, i + 2, TagReportView { rssi: Some(signed_byte(p[i + 1])), ..t })
                } else {
                    t
                }
            } else {
                t
            }
        } else if i + 4 > p.len() {
            t
        } else {
            let raw_type = be16_value(p[i], p[i + 1]) % 1024;
            let length = be16_value(p[i + 2], p[i + 3]);
            if length < 4 || i + length > p.len() {
                t
            } else {
                let body = p.subrange(i + 4, i + length);
                let t2 = if raw_type == PARAM_EPC_DATA && t.epc.len() == 0 && body.len() >= 2 {
                    let nbytes = (be16_value(body[0], body[1]) + 7) / 8;
                    if 2 + nbytes <= body.len() {
                        TagReportView { epc: hex_bytes(body.subrange(2, 2 + nbytes as int)), ..t }
                    } else {
                        t
                    }
                } else {
                    t
                };
                tag_fields_from(p, i + length, t2)
            }
        }
    }
}

/// The big-endian u16 at `p[i]`, `p[i + 1]`.
fn read_u16(p: &[u8], i: usize) -> (v: u16)
    requires
        i + 1 < p@.len(),
    ensures
        v as nat == be16_value(p@[i as int], p@[i + 1]),
{
    p[i] as u16 * 256 + p[i + 1] as u16
}

/// Decodes the body of a TagReportData parameter.
pub fn decode_tag_report_data(payload: &[u8]) -> (tag: DecodedTag)
    ensures
        tag@ == tag_fields_from(payload@, 0, empty_tag()),
{
    let mut tag = DecodedTag { epc: String::new(), rssi: None, antenna: None };
    let len = payload.len();
    let mut i: usize = 0;
    while i < len
        invariant
            len == payload@.len(),
            i <= len,
            tag_fields_from(payload@, i as int, tag@) == tag_fields_from(payload@, 0, empty_tag()),
        ensures
            tag@ == tag_fields_from(payload@, 0, empty_tag()),
        decreases len - i,
    {
        let first = payload[i];
        if first >= 0x80 {
            let tv_type = first - 0x80;
            if tv_type == TV_EPC_96 {
                if len - i < 13 {
                    break;
                }
                let epc = hex_upper(&payload[i + 1..i + 13]);
                tag.epc = epc;
                i += 13;
            } else if tv_type == TV_ANTENNA_ID {
                if len - i < 3 {
                    break;
                }
                tag.antenna = Some(read_u16(payload, i + 1));
                i += 3;
            } else if tv_type == TV_PEAK_RSSI {
                if len - i < 2 {
                    break;
                }
                let b = payload[i + 1];
                let rssi: i16 = if b < 128 {
                    b as i16
                } else {
                    b as i16 - 256
                };
                tag.rssi = Some(rssi);
                i += 2;
            } else {
                break;
            }
        } else {
            if len - i < 4 {
                break;
            }
            let raw_type = read_u16(payload, i) % 1024;
            let length = read_u16(payload, i + 2) as usize;
            if length < 4 || length > len - i {
                break;
            }
            let body = &payload[i + 4..i + length];
            if raw_type == PARAM_EPC_DATA && tag.epc.as_str().is_empty() {
                if body.len() >= 2 {
                    let length_bits = read_u16(body, 0) as usize;
                    let nbytes = (length_bits + 7) / 8;
                    if nbytes <= body.len() - 2 {
                        tag.epc = hex_upper(&body[2..2 + nbytes]);
                    }
                }
            }
            i += length;
        }
    }
    tag
}

/// Decoding of the TLV parameters of an RO_ACCESS_REPORT payload from
/// position `i` on: one tag per TagReportData parameter, other parameters
/// skipped; a truncated or malformed TLV ends the decoding.
pub open spec fn report_tags_from(p: Seq<u8>, i: int) -> Seq<TagReportView>
    decreases p.len() - i,
{
    if i < 0 || i + 4 > p.len() {
        Seq::empty()
    } else {
        let raw_type = be16_value(p[i], p[i + 1]) % 1024;
        let length = be16_value(p[i + 2], p[i + 3]);
        if length < 4 || i + length > p.len() {
            Seq::empty()
        } else {
            let here = if raw_type == PARAM_TAG_REPORT_DATA {
                seq![tag_fields_from(p.subrange(i + 4, i + length), 0, empty_tag())]
            } else {
                Seq::empty()
            };
            here + report_tags_from(p, i + length)
        }
    }
}

/// The views of a list of decoded tags.
pub open spec fn tag_views(tags: Seq<DecodedTag>) -> Seq<TagReportView> {
    tags.map_values(|t: DecodedTag| t@)
}

/// Decodes an RO_ACCESS_REPORT payload into the tags it reports.
pub fn decode_ro_access_report(payload: &[u8]) -> (tags: Vec<DecodedTag>)
    ensures
        tag_views(tags@) == report_tags_from(payload@, 0),
{
    let mut tags: Vec<DecodedTag> = Vec::new();
    let len = payload.len();
    let mut i: usize = 0;
    assert(tag_views(tags@) + report_tags_from(payload@, 0) =~= report_tags_from(payload@, 0));
    while len - i >= 4
        invariant
            len == payload@.len(),
            i <= len,
            tag_views(tags@) + report_tags_from(payload@, i as int) == report_tags_from(payload@, 0),
        ensures
            tag_views(tags@) == report_tags_from(payload@, 0),
        decreases len - i,
    {
        let raw_type = read_u16(payload, i) % 1024;
        let length = read_u16(payload, i + 2) as usize;
        if length < 4 || length > len - i {
            assert(tag_views(tags@) + Seq::<TagReportView>::empty() =~= tag_views(tags@));
            break;
        }
        let ghost before = tags@;
        if raw_type == PARAM_TAG_REPORT_DATA {
            let tag = decode_tag_report_data(&payload[i + 4..i + length]);
            tags.push(tag);
            assert(tag_views(tags@) =~= tag_views(before) + seq![tag@]);
        }
        i += length;
    }
    tags
}

// ===== session =====
/// Where a reader session stands. The setup sends DELETE_ROSPEC (all
/// ROSpecs), ADD_ROSPEC, ENABLE_ROSPEC and START_ROSPEC with message ids 1
/// to 4, reading (and ignoring) one reply after each; then reports are
/// streamed until a read fails.
#[derive(Debug, Clone, Copy, PartialEq, Eq, Structural)]
pub enum LlrpPhase {
    /// Waiting for the notification a reader sends on connect.
    AwaitGreeting,
    SendingDelete,
    AwaitDeleteReply,
    SendingAdd,
    AwaitAddReply,
    SendingEnable,
    AwaitEnableReply,
    SendingStart,
    AwaitStartReply,
    /// Reading reports.
    Streaming,
    /// Answering a keepalive.
    SendingKeepaliveAck,
    Closed,
}

/// What the transport reports back to the session.
#[derive(Debug, Clone)]
pub enum LlrpEvent {
    /// A whole message arrived.
    Received { msg_type: u16, payload: Vec<u8> },
    /// Reading a message failed (timeout, disconnect, bad header).
    ReadFailed,
    /// The requested frame was written.
    Sent,
    /// Writing the requested frame failed.
    SendFailed,
}

/// What the session asks the transport to do next.
#[derive(Debug, Clone)]
pub enum LlrpAction {
    /// Read the next message.
    Read,
    /// Write this frame.
    Send(Vec<u8>),
    /// Deliver these tags, then read the next message.
    PublishThenRead(Vec<DecodedTag>),
    /// Close the connection.
    Stop,
}

pub enum LlrpEventView {
    Received { msg_type: u16, payload: Seq<u8> },
    ReadFailed,
    Sent,
    SendFailed,
}

pub enum LlrpActionView {
    Read,
    Send(Seq<u8>),
    PublishThenRead(Seq<TagReportView>),
    Stop,
}

impl View for LlrpEvent {
    type V = LlrpEventView;

    open spec fn view(&self) -> LlrpEventView {
        match self {
            LlrpEvent::Received { msg_type, payload } => LlrpEventView::Received {
                msg_type: *msg_type,
                payload: payload@,
            },
            LlrpEvent::ReadFailed => LlrpEventView::ReadFailed,
            LlrpEvent::Sent => LlrpEventView::Sent,
            LlrpEvent::SendFailed => LlrpEventView::SendFailed,
        }
    }
}

impl View for LlrpAction {
    type V = LlrpActionView;

    open spec fn view(&self) -> LlrpActionView {
        match self {
            LlrpAction::Read => LlrpActionView::Read,
            LlrpAction::Send(b) => LlrpActionView::Send(b@),
            LlrpAction::PublishThenRead(t) => LlrpActionView::PublishThenRead(tag_views(t@)),
            LlrpAction::Stop => LlrpActionView::Stop,
        }
    }
}

/// Whether an event is the outcome of a read.
pub open spec fn is_read_outcome(e: LlrpEventView) -> bool {
    e is Received || e is ReadFailed
}

/// Whether an event is the outcome of a write.
pub open spec fn is_send_outcome(e: LlrpEventView) -> bool {
    e is Sent || e is SendFailed
}

/// One step of the session: the next phase and the next action. An event
/// that does not answer the pending action closes the session.
pub open spec fn session_step(phase: LlrpPhase, e: LlrpEventView) -> (LlrpPhase, LlrpActionView) {
    let stop = (LlrpPhase::Closed, LlrpActionView::Stop);
    match phase {
        LlrpPhase::AwaitGreeting => if is_read_outcome(e) {
            (LlrpPhase::SendingDelete, LlrpActionView::Send(message_bytes(MSG_DELETE_ROSPEC, 1, be32(0))))
        } else {
            stop
        },
        LlrpPhase::SendingDelete => if is_send_outcome(e) {
            (LlrpPhase::AwaitDeleteReply, LlrpActionView::Read)
        } else {
            stop
        },
        LlrpPhase::AwaitDeleteReply => if is_read_outcome(e) {
            (LlrpPhase::SendingAdd, LlrpActionView::Send(message_bytes(MSG_ADD_ROSPEC, 2, inventory_rospec_bytes())))
        } else {
            stop
        },
        LlrpPhase::SendingAdd => if e is Sent {
            (LlrpPhase::AwaitAddReply, LlrpActionView::Read)
        } else {
            stop
        },
        LlrpPhase::AwaitAddReply => if is_read_outcome(e) {
            (LlrpPhase::SendingEnable, LlrpActionView::Send(message_bytes(MSG_ENABLE_ROSPEC, 3, be32(ROSPEC_ID))))
        } else {
            stop
        },
        LlrpPhase::SendingEnable => if is_send_outcome(e) {
            (LlrpPhase::AwaitEnableReply, LlrpActionView::Read)
        } else {
            stop
        },
        LlrpPhase::AwaitEnableReply => if is_read_outcome(e) {
            (LlrpPhase::SendingStart, LlrpActionView::Send(message_bytes(MSG_START_ROSPEC, 4, be32(ROSPEC_ID))))
        } else {
            stop
        },
        LlrpPhase::SendingStart => if is_send_outcome(e) {
            (LlrpPhase::AwaitStartReply, LlrpActionView::Read)
        } else {
            stop
        },
        LlrpPhase::AwaitStartReply => if is_read_outcome(e) {
            (LlrpPhase::Streaming, LlrpActionView::Read)
        } else {
            stop
        },
        LlrpPhase::Streaming => match e {
            LlrpEventView::Received { msg_type, payload } => if msg_type == MSG_RO_ACCESS_REPORT {
                (LlrpPhase::Streaming, LlrpActionView::PublishThenRead(report_tags_from(payload, 0)))
            } else if msg_type == MSG_KEEPALIVE {
                (LlrpPhase::SendingKeepaliveAck, LlrpActionView::Send(message_bytes(MSG_KEEPALIVE_ACK, 0, Seq::empty())))
            } else {
                (LlrpPhase::Streaming, LlrpActionView::Read)
            },
            _ => stop,
        },
        LlrpPhase::SendingKeepaliveAck => if is_send_outcome(e) {
            (LlrpPhase::Streaming, LlrpActionView::Read)
        } else {
            stop
        },
        LlrpPhase::Closed => stop,
    }
}

/// The decisions of one reader connection; the caller performs the I/O.
pub struct LlrpSession {
    pub phase: LlrpPhase,
}

impl LlrpSession {
    /// A session on a freshly opened connection; its first action is to
    /// read the reader's greeting.
    pub fn start() -> (r: (LlrpSession, LlrpAction))
        ensures
            r.0.phase == LlrpPhase::AwaitGreeting,
            r.1@ == LlrpActionView::Read,
    {
        (LlrpSession { phase: LlrpPhase::AwaitGreeting }, LlrpAction::Read)
    }

    /// Advances the session by one event.
    pub fn on_event(&mut self, event: LlrpEvent) -> (a: LlrpAction)
        ensures
            (final(self).phase, a@) == session_step(old(self).phase, event@),
    {
        let read_outcome = match &event {
            LlrpEvent::Received { .. } => true,
            LlrpEvent::ReadFailed => true,
            _ => false,
        };
        let send_outcome = match &event {
            LlrpEvent::Sent => true,
            LlrpEvent::SendFailed => true,
            _ => false,
        };
        let (next, action) = match self.phase {
            LlrpPhase::AwaitGreeting if read_outcome => (
                LlrpPhase::SendingDelete,
                LlrpAction::Send(frame_message(MSG_DELETE_ROSPEC, 1, &u32_be(0))),
            ),
            LlrpPhase::SendingDelete if send_outcome => (LlrpPhase::AwaitDeleteReply, LlrpAction::Read),
            LlrpPhase::AwaitDeleteReply if read_outcome => {
                let rospec = build_inventory_rospec();
                (LlrpPhase::SendingAdd, LlrpAction::Send(frame_message(MSG_ADD_ROSPEC, 2, &rospec)))
            },
            LlrpPhase::SendingAdd if matches!(event, LlrpEvent::Sent) => (LlrpPhase::AwaitAddReply, LlrpAction::Read),
            LlrpPhase::AwaitAddReply if read_outcome => (
                LlrpPhase::SendingEnable,
                LlrpAction::Send(frame_message(MSG_ENABLE_ROSPEC, 3, &u32_be(ROSPEC_ID))),
            ),
            LlrpPhase::SendingEnable if send_outcome => (LlrpPhase::AwaitEnableReply, LlrpAction::Read),
            LlrpPhase::AwaitEnableReply if read_outcome => (
                LlrpPhase::SendingStart,
                LlrpAction::Send(frame_message(MSG_START_ROSPEC, 4, &u32_be(ROSPEC_ID))),
            ),
            LlrpPhase::SendingStart if send_outcome => (LlrpPhase::AwaitStartReply, LlrpAction::Read),
            LlrpPhase::AwaitStartReply if read_outcome => (LlrpPhase::Streaming, LlrpAction::Read),
            LlrpPhase::Streaming => match &event {
                LlrpEvent::Received { msg_type, payload } => {
                    if *msg_type == MSG_RO_ACCESS_REPORT {
                        (LlrpPhase::Streaming, LlrpAction::PublishThenRead(decode_ro_access_report(payload)))
                    } else if *msg_type == MSG_KEEPALIVE {
                        let empty: [u8; 0] = [];
                        let frame = frame_message(MSG_KEEPALIVE_ACK, 0, &empty);
                        proof {
                            assert(empty@ =~= Seq::<u8>::empty());
                        }
                        (LlrpPhase::SendingKeepaliveAck, LlrpAction::Send(frame))
                    } else {
                        (LlrpPhase::Streaming, LlrpAction::Read)
                    }
                },
                _ => (LlrpPhase::Closed, LlrpAction::Stop),
            },
            LlrpPhase::SendingKeepaliveAck if send_outcome => (LlrpPhase::Streaming, LlrpAction::Read),
            _ => (LlrpPhase::Closed, LlrpAction::Stop),
        };
        self.phase = next;
        action
    }
}

// ===== laws =====
proof fn lemma_be16_value(v: u16)
    ensures
        be16(v).len() == 2,
        be16_value(be16(v)[0], be16(v)[1]) == v,
{
    assert((v / 256) * 256 + v % 256 == v) by (nonlinear_arith);
}

proof fn lemma_be32_value(v: u32)
    ensures
        be32(v).len() == 4,
        be32_value(be32(v)[0], be32(v)[1], be32(v)[2], be32(v)[3]) == v,
{
    let b0 = v / 0x1000000;
    let b1 = (v / 0x10000) % 256;
    let b2 = (v / 256) % 256;
    let b3 = v % 256;
    assert(b0 * 0x1000000 + b1 * 0x10000 + b2 * 0x100 + b3 == v) by (nonlinear_arith)
        requires
            b0 == v / 0x1000000,
            b1 == (v / 0x10000) % 256,
            b2 == (v / 256) % 256,
            b3 == v % 256,
    ;
}

/// The header of a framed message announces the message's type and the
/// length of its payload, and the payload follows the 10 header bytes.
pub proof fn lemma_frame_header_roundtrip(msg_type: u16, msg_id: u32, payload: Seq<u8>)
    requires
        10 + payload.len() < 0x100000000,
    ensures
        message_bytes(msg_type, msg_id, payload).len() == 10 + payload.len(),
        spec_parse_header(message_bytes(msg_type, msg_id, payload).take(10))
            == Ok::<(u16, nat), LlrpFrameError>(((msg_type % 1024) as u16, payload.len())),
        message_bytes(msg_type, msg_id, payload).skip(10) == payload,
{
    let w = spec_header_word(VERSION, msg_type);
    let len = ((10 + payload.len()) % 0x100000000) as u32;
    lemma_be16_value(w);
    lemma_be32_value(len);
    lemma_be32_value(msg_id);
    let m = message_bytes(msg_type, msg_id, payload);
    let h = m.take(10);
    assert(m.skip(10) =~= payload);
    assert(h[0] == be16(w)[0] && h[1] == be16(w)[1]);
    assert(h[2] == be32(len)[0] && h[3] == be32(len)[1] && h[4] == be32(len)[2] && h[5] == be32(len)[3]);
    assert(len == 10 + payload.len());
    assert(w % 1024 == msg_type % 1024);
}

/// A TagReportData body made of an EPC-96 (0x8D), an AntennaID (0x81) and a
/// PeakRSSI (0x86) TV parameter decodes to that EPC in upper-case hex, that
/// antenna and that RSSI read as a signed byte.
pub proof fn lemma_tv_params_decode(epc: Seq<u8>, antenna: u16, rssi: u8)
    requires
        epc.len() == 12,
    ensures
        tag_fields_from(
            seq![0x8Du8] + epc + seq![0x81u8] + be16(antenna) + seq![0x86u8, rssi],
            0,
            empty_tag(),
        ) == (TagReportView { epc: hex_bytes(epc), rssi: Some(signed_byte(rssi)), antenna: Some(antenna) }),
{
    let p = seq![0x8Du8] + epc + seq![0x81u8] + be16(antenna) + seq![0x86u8, rssi];
    lemma_be16_value(antenna);
    assert(p.len() == 18);
    assert(p[0] == 0x8Du8);
    assert(p.subrange(1, 13) =~= epc);
    assert(p[13] == 0x81u8);
    assert(p[14] == be16(antenna)[0] && p[15] == be16(antenna)[1]);
    assert(p[16] == 0x86u8);
    assert(p[17] == rssi);
    let t1 = TagReportView { epc: hex_bytes(epc), ..empty_tag() };
    let t2 = TagReportView { antenna: Some(antenna), ..t1 };
    let t3 = TagReportView { rssi: Some(signed_byte(rssi)), ..t2 };
    assert(tag_fields_from(p, 18, t3) == t3);
    assert(tag_fields_from(p, 16, t2) == t3);
    assert(tag_fields_from(p, 13, t1) == t3);
    assert(tag_fields_from(p, 0, empty_tag()) == t3);
}

/// Decoding report parameters that follow a prefix gives what decoding
/// them alone gives.
proof fn lemma_report_shift(pre: Seq<u8>, rest: Seq<u8>, i: int)
    requires
        0 <= i,
    ensures
        report_tags_from(pre + rest, pre.len() + i) == report_tags_from(rest, i),
    decreases rest.len() - i,
{
    let p = pre + rest;
    let j = pre.len() + i;
    if i + 4 > rest.len() {
    } else {
        assert(p[j] == rest[i] && p[j + 1] == rest[i + 1] && p[j + 2] == rest[i + 2] && p[j + 3] == rest[i + 3]);
        let length = be16_value(rest[i + 2], rest[i + 3]);
        if length < 4 || i + length > rest.len() {
        } else {
            assert(p.subrange(j + 4, j + length) =~= rest.subrange(i + 4, i + length));
            lemma_report_shift(pre, rest, i + length);
        }
    }
}

/// A report parameter followed by further report parameters decodes to the
/// parameter's tag (when it is a TagReportData parameter; no tag
/// otherwise) followed by the tags of the rest.
pub proof fn lemma_report_param_then_rest(param_type: u16, body: Seq<u8>, rest: Seq<u8>)
    requires
        body.len() + 4 < 65536,
    ensures
        report_tags_from(tlv_bytes(param_type, body) + rest, 0) == (if param_type % 1024 == PARAM_TAG_REPORT_DATA {
            seq![tag_fields_from(body, 0, empty_tag())]
        } else {
            Seq::<TagReportView>::empty()
        }) + report_tags_from(rest, 0),
{
    let t = (param_type % 1024) as u16;
    let l = ((4 + body.len()) % 65536) as u16;
    lemma_be16_value(t);
    lemma_be16_value(l);
    let param = tlv_bytes(param_type, body);
    let p = param + rest;
    assert(p[0] == be16(t)[0] && p[1] == be16(t)[1] && p[2] == be16(l)[0] && p[3] == be16(l)[1]);
    assert(l == 4 + body.len());
    assert(p.subrange(4, 4 + body.len() as int) =~= body);
    lemma_report_shift(param, rest, 0);
    assert(report_tags_from(p, 0) == (if t == PARAM_TAG_REPORT_DATA {
        seq![tag_fields_from(body, 0, empty_tag())]
    } else {
        Seq::<TagReportView>::empty()
    }) + report_tags_from(p, 4 + body.len() as int));
}

/// Once closed, a session stays closed and only asks to stop.
pub proof fn lemma_session_closed_absorbs(e: LlrpEventView)
    ensures
        session_step(LlrpPhase::Closed, e) == (LlrpPhase::Closed, LlrpActionView::Stop),
{
}

/// Whatever the reader answers, a session whose writes succeed sends
/// DELETE_ROSPEC, ADD_ROSPEC (the inventory ROSpec), ENABLE_ROSPEC and
/// START_ROSPEC with message ids 1 to 4, reading one reply after each, and
/// then streams.
pub proof fn lemma_session_setup(
    greeting: LlrpEventView,
    r1: LlrpEventView,
    r2: LlrpEventView,
    r3: LlrpEventView,
    r4: LlrpEventView,
)
    requires
        is_read_outcome(greeting),
        is_read_outcome(r1),
        is_read_outcome(r2),
        is_read_outcome(r3),
        is_read_outcome(r4),
    ensures
        ({
            let s1 = session_step(LlrpPhase::AwaitGreeting, greeting);
            let s2 = session_step(s1.0, LlrpEventView::Sent);
            let s3 = session_step(s2.0, r1);
            let s4 = session_step(s3.0, LlrpEventView::Sent);
            let s5 = session_step(s4.0, r2);
            let s6 = session_step(s5.0, LlrpEventView::Sent);
            let s7 = session_step(s6.0, r3);
            let s8 = session_step(s7.0, LlrpEventView::Sent);
            let s9 = session_step(s8.0, r4);
            &&& s1.1 == LlrpActionView::Send(message_bytes(MSG_DELETE_ROSPEC, 1, be32(0)))
            &&& s2.1 == LlrpActionView::Read
            &&& s3.1 == LlrpActionView::Send(message_bytes(MSG_ADD_ROSPEC, 2, inventory_rospec_bytes()))
            &&& s4.1 == LlrpActionView::Read
            &&& s5.1 == LlrpActionView::Send(message_bytes(MSG_ENABLE_ROSPEC, 3, be32(ROSPEC_ID)))
            &&& s6.1 == LlrpActionView::Read
            &&& s7.1 == LlrpActionView::Send(message_bytes(MSG_START_ROSPEC, 4, be32(ROSPEC_ID)))
            &&& s8.1 == LlrpActionView::Read
            &&& s9 == (LlrpPhase::Streaming, LlrpActionView::Read)
        }),
{
}

/// While streaming, a keepalive is answered with KEEPALIVE_ACK and the
/// session goes back to reading once the answer is written (or fails).
pub proof fn lemma_keepalive_answered(payload: Seq<u8>, written: LlrpEventView)
    requires
        is_send_outcome(written),
    ensures
        session_step(LlrpPhase::Streaming, LlrpEventView::Received { msg_type: MSG_KEEPALIVE, payload })
            == (LlrpPhase::SendingKeepaliveAck, LlrpActionView::Send(message_bytes(MSG_KEEPALIVE_ACK, 0, Seq::empty()))),
        session_step(LlrpPhase::SendingKeepaliveAck, written) == (LlrpPhase::Streaming, LlrpActionView::Read),
{
}

} // verus!
