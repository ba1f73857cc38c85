//! RFID readers: which driver a configured reader gets, the simulated
//! reader's tag stream, the events built from decoded LLRP tags, and the
//! answers of the RFID routes.
use vstd::prelude::*;
use vstd::string::*;

use crate::llrp::{DecodedTag, LLRP_PORT};
use crate::named_map::NamedMap;
use crate::scales::hex_digit_value;
use crate::text::{hex, hex_char, hex_padded, lemma_hex_len_bound, push_hex_padded, repeat_char};
use crate::types::{ApiError, RfidConfig, RfidProtocol, TagEvent};

verus! {

// ========================================================================
// Driver choice
// ========================================================================
/// The driver to start for an RFID reader.
#[derive(Debug, Clone)]
pub enum RfidAdapterPlan {
    /// The simulated reader.
    Mock,
    /// An LLRP reader at `host:port`.
    Llrp { host: String, port: u16 },
}

/// The view of a driver choice.
pub enum RfidPlanView {
    Mock,
    Llrp { host: Seq<char>, port: u16 },
}

impl View for RfidAdapterPlan {
    type V = RfidPlanView;

    open spec fn view(&self) -> RfidPlanView {
        match self {
            RfidAdapterPlan::Mock => RfidPlanView::Mock,
            RfidAdapterPlan::Llrp { host, port } => RfidPlanView::Llrp { host: host@, port: *port },
        }
    }
}

/// The driver a reader configuration calls for, or the message of the
/// reason it cannot be started.
pub open spec fn spec_plan_rfid(name: Seq<char>, c: RfidConfig) -> Result<RfidPlanView, Seq<char>> {
    match c.protocol {
        RfidProtocol::Mock => Ok(RfidPlanView::Mock),
        RfidProtocol::Llrp => match c.host {
            None => Err("RFID "@ + name + ": 'host' required for LLRP protocol"@),
            Some(h) => Ok(
                RfidPlanView::Llrp {
                    host: h@,
                    port: match c.port {
                        Some(p) => p,
                        None => LLRP_PORT,
                    },
                },
            ),
        },
        RfidProtocol::HidKeyboard => Err("hid-keyboard readers run in browser, no service stream"@),
        RfidProtocol::SerialProprietary => Err(
            "serial-proprietary RFID adapter not yet implemented"@,
        ),
    }
}

/// The driver a reader gets: the simulated reader for `mock`; for LLRP an
/// LLRP connection to the configured host at the configured port, 5084
/// (the LLRP port) when none is configured, and a refusal naming the reader
/// when no host is configured; keyboard-wedge and serial readers are
/// refused.
pub proof fn lemma_rfid_plan_meaning(name: Seq<char>, c: RfidConfig)
    ensures
        c.protocol == RfidProtocol::Mock ==> spec_plan_rfid(name, c) == Ok::<RfidPlanView, Seq<char>>(RfidPlanView::Mock),
        c.protocol == RfidProtocol::Llrp ==> spec_plan_rfid(name, c) == match c.host {
            None => Err::<RfidPlanView, Seq<char>>("RFID "@ + name + ": 'host' required for LLRP protocol"@),
            Some(h) => Ok(
                RfidPlanView::Llrp {
                    host: h@,
                    port: match c.port {
                        Some(p) => p,
                        None => 5084u16,
                    },
                },
            ),
        },
        c.protocol == RfidProtocol::HidKeyboard ==> spec_plan_rfid(name, c) is Err,
        c.protocol == RfidProtocol::SerialProprietary ==> spec_plan_rfid(name, c) is Err,
{
}

pub open spec fn rfid_plan_result_view(r: Result<RfidAdapterPlan, String>) -> Result<RfidPlanView, Seq<char>> {
    match r {
        Ok(p) => Ok(p@),
        Err(m) => Err(m@),
    }
}

/// Chooses the driver for a configured reader.
pub fn plan_rfid_adapter(name: &String, config: &RfidConfig) -> (r: Result<RfidAdapterPlan, String>)
    ensures
        rfid_plan_result_view(r) == spec_plan_rfid(name@, *config),
{
    match config.protocol {
        RfidProtocol::Mock => Ok(RfidAdapterPlan::Mock),
        RfidProtocol::Llrp => match &config.host {
            None => {
                let mut m = String::from_str("RFID ");
                m.append(name.as_str());
                m.append(": 'host' required for LLRP protocol");
                Err(m)
            },
            Some(h) => Ok(
                RfidAdapterPlan::Llrp {
                    host: h.clone(),
                    port: match config.port {
                        Some(p) => p,
                        None => LLRP_PORT,
                    },
                },
            ),
        },
        RfidProtocol::HidKeyboard => Err(
            String::from_str("hid-keyboard readers run in browser, no service stream"),
        ),
        RfidProtocol::SerialProprietary => Err(
            String::from_str("serial-proprietary RFID adapter not yet implemented"),
        ),
    }
}

/// Chooses the driver for the reader the configuration names `name`; a
/// name it lacks is an error.
pub fn plan_configured_reader(name: &String, readers: &NamedMap<RfidConfig>) -> (r: Result<RfidAdapterPlan, String>)
    requires
        readers.wf(),
    ensures
        rfid_plan_result_view(r) == match readers.lookup(name@) {
            None => Err("RFID reader not found: "@ + name@),
            Some(c) => spec_plan_rfid(name@, c),
        },
{
    match readers.get(name) {
        None => {
            let mut m = String::from_str("RFID reader not found: ");
            m.append(name.as_str());
            Err(m)
        },
        Some(c) => plan_rfid_adapter(name, c),
    }
}

// ========================================================================
// Simulated reader
// ========================================================================
/// The EPC prefix of simulated tags.
pub open spec fn mock_epc_prefix() -> Seq<char> {
    "E2003412"@
}

/// The EPC of the `counter`-th simulated tag: the prefix and the counter
/// in upper-case hex, zero-padded to 24 digits.
pub open spec fn mock_epc(counter: u64) -> Seq<char> {
    mock_epc_prefix() + hex_padded(counter as nat, 24, true)
}

/// The number a sequence of hexadecimal digits denotes (characters that
/// are no digits count as 0).
pub open spec fn hex_text_value(s: Seq<char>) -> nat
    decreases s.len(),
{
    if s.len() == 0 {
        0
    } else {
        hex_text_value(s.drop_last()) * 16 + match hex_digit_value(s.last()) {
            Some(v) => v,
            None => 0,
        }
    }
}

proof fn lemma_zeros_text_value(k: nat)
    ensures
        hex_text_value(repeat_char('0', k)) == 0,
    decreases k,
{
    if k > 0 {
        assert(repeat_char('0', k).drop_last() =~= repeat_char('0', (k - 1) as nat));
        lemma_zeros_text_value((k - 1) as nat);
    }
}

proof fn lemma_padded_text_value(k: nat, n: nat)
    ensures
        hex_text_value(repeat_char('0', k) + hex(n, true)) == n,
    decreases n,
{
    let z = repeat_char('0', k);
    if n < 16 {
        assert((z + hex(n, true)).drop_last() =~= z);
        lemma_zeros_text_value(k);
    } else {
        lemma_padded_text_value(k, n / 16);
        assert((z + hex(n, true)).drop_last() =~= z + hex(n / 16, true));
        assert((z + hex(n, true)).last() == hex_char(n % 16, true));
    }
}

/// The counter can be read back from a simulated EPC, so distinct counters
/// give distinct EPCs.
pub proof fn lemma_mock_epc_injective(a: u64, b: u64)
    ensures
        (mock_epc(a) == mock_epc(b)) == (a == b),
{
    reveal_strlit("E2003412");
    assert forall|n: u64| #[trigger] hex_text_value(mock_epc(n).skip(8)) == n by {
        lemma_hex_len_bound(n as nat, true);
        let h = hex(n as nat, true);
        let k = (24 - h.len()) as nat;
        assert(mock_epc(n).skip(8) =~= repeat_char('0', k) + h);
        lemma_padded_text_value(k, n as nat);
    }
    if mock_epc(a) == mock_epc(b) {
        assert(hex_text_value(mock_epc(a).skip(8)) == a);
        assert(hex_text_value(mock_epc(b).skip(8)) == b);
    }
}

/// The tag counter of the simulated reader.
pub struct MockTagCounter {
    pub counter: u64,
}

impl MockTagCounter {
    /// A counter that has produced no tag yet.
    pub fn new() -> (c: MockTagCounter)
        ensures
            c.counter == 0,
    {
        MockTagCounter { counter: 0 }
    }

    /// Advances the counter (wrapping at the end of `u64`) and returns its
    /// new value.
    pub fn advance(&mut self) -> (n: u64)
        ensures
            n == (if old(self).counter == u64::MAX { 0 } else { (old(self).counter + 1) as u64 }),
            final(self).counter == n,
    {
        self.counter = self.counter.wrapping_add(1);
        self.counter
    }
}

/// The EPC of the `counter`-th simulated tag.
pub fn mock_tag_epc(counter: u64) -> (epc: String)
    ensures
        epc@ == mock_epc(counter),
{
    let mut s = String::from_str("E2003412");
    proof {
        reveal_strlit("E2003412");
    }
    push_hex_padded(&mut s, counter, 24, true);
    s
}

/// The event of the `counter`-th simulated tag, seen by `reader` at `ts`:
/// antenna 1, RSSI -55, no TID.
pub fn mock_tag_event(reader: &String, counter: u64, ts: String) -> (e: TagEvent)
    ensures
        e.reader@ == reader@,
        e.epc@ == mock_epc(counter),
        e.tid is None,
        e.rssi == Some(-55i16),
        e.antenna == Some(1u32),
        e.ts == ts,
{
    TagEvent {
        reader: reader.clone(),
        epc: mock_tag_epc(counter),
        tid: None,
        rssi: Some(-55),
        antenna: Some(1),
        ts,
    }
}

// ========================================================================
// LLRP reader
// ========================================================================
/// The event for a tag decoded from an LLRP report by `reader` at `ts`.
pub fn llrp_tag_event(reader: &String, tag: DecodedTag, ts: String) -> (e: TagEvent)
    ensures
        e.reader@ == reader@,
        e.epc@ == tag.epc@,
        e.tid is None,
        e.rssi == tag.rssi,
        e.antenna == (match tag.antenna {
            Some(a) => Some(a as u32),
            None => None,
        }),
        e.ts == ts,
{
    let antenna = match tag.antenna {
        Some(a) => Some(a as u32),
        None => None,
    };
    TagEvent { reader: reader.clone(), epc: tag.epc, tid: None, rssi: tag.rssi, antenna, ts }
}

// ========================================================================
// Route answers
// ========================================================================
/// The error for a reader the configuration does not name.
pub fn reader_not_found(name: &str) -> (e: ApiError)
    ensures
        e.error@ == "READER_NOT_FOUND"@,
        e.message@ == "RFID reader "@ + name@ + " not configured"@,
{
    let mut m = String::from_str("RFID reader ");
    m.append(name);
    m.append(" not configured");
    ApiError::new(String::from_str("READER_NOT_FOUND"), m)
}

/// The answer to a tag-write request for a configured reader.
pub fn tag_write_unavailable() -> (e: ApiError)
    ensures
        e.error@ == "NOT_IMPLEMENTED"@,
        e.message@ == "Tag write not wired yet."@,
{
    ApiError::new(String::from_str("NOT_IMPLEMENTED"), String::from_str("Tag write not wired yet."))
}

/// The first message of a device stream.
pub fn stream_open_message(name: &str) -> (m: String)
    ensures
        m@ == "{\"type\":\"open\",\"message\":\"Streaming "@ + name@ + "\"}"@,
{
    let mut m = String::from_str("{\"type\":\"open\",\"message\":\"Streaming ");
    m.append(name);
    m.append("\"}");
    m
}

} // verus!
