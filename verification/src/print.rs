//! Print requests: what to produce for each protocol, which spooler call
//! sends it, and the answer returned to the client.
use vstd::prelude::*;
use vstd::string::*;

use crate::codec::{base64_error_text, base64_standard_decode, decode_base64};
use crate::escpos::{build_escpos_commands, escpos_body, init_bytes};
use crate::sbpl::{build_sbpl_commands, sbpl_bytes, sbpl_fits};
use crate::text::{all_space, char_is_space, chars_of, is_space, next_occurrence};
use crate::types::{PrintConnection, PrintProtocol, PrintRequest, PrintResult, PrinterConfig};
use crate::zpl::{build_zpl_commands, zpl_fits, zpl_text};

use uuid::Uuid;

verus! {

/// The operating system family, which decides the spooler commands.
#[derive(Debug, Clone, Copy, PartialEq, Eq, Structural)]
pub enum Platform {
    Linux,
    MacOs,
    Other,
}

// ===== data URIs =====
/// The base64 part of a `data:` URI (what follows the first comma), or the
/// text itself when it is not such a URI.
pub open spec fn spec_strip_data_uri(data: Seq<char>) -> Seq<char> {
    let k = next_occurrence(data, 5, ',');
    if data.len() >= 5 && data.take(5) == "data:"@ && k < data.len() {
        data.skip(k + 1)
    } else {
        data
    }
}

/// Drops a `data:...,` prefix.
pub fn strip_data_uri(data: &str) -> (r: &str)
    ensures
        r@ == spec_strip_data_uri(data@),
{
    let cs = chars_of(data);
    let prefix = chars_of("data:");
    proof {
        reveal_strlit("data:");
    }
    if cs.len() < 5 {
        return data;
    }
    assert(cs@.take(0) =~= prefix@.take(0));
    let mut matches = true;
    let mut i: usize = 0;
    while i < 5
        invariant
            i <= 5,
            cs@.len() >= 5,
            prefix@ == "data:"@,
            prefix@.len() == 5,
            matches == (cs@.take(i as int) == prefix@.take(i as int)),
        decreases 5 - i,
    {
        if cs[i] != prefix[i] {
            matches = false;
        }
        proof {
            assert(cs@.take(i + 1) =~= cs@.take(i as int).push(cs@[i as int]));
            assert(prefix@.take(i + 1) =~= prefix@.take(i as int).push(prefix@[i as int]));
            if !matches {
                if cs@.take(i + 1) == prefix@.take(i + 1) {
                    assert(cs@.take(i + 1)[i as int] == prefix@.take(i + 1)[i as int]);
                    assert(cs@.take(i as int) =~= cs@.take(i + 1).drop_last());
                    assert(prefix@.take(i as int) =~= prefix@.take(i + 1).drop_last());
                }
            }
        }
        i += 1;
    }
    assert(prefix@.take(5) =~= prefix@);
    if !matches {
        return data;
    }
    assert(cs@.take(5) == "data:"@);
    let mut k: usize = 5;
    while k < cs.len()
        invariant
            5 <= k <= cs@.len(),
            cs@ == data@,
            cs@.take(5) == "data:"@,
            next_occurrence(cs@, k as int, ',') == next_occurrence(cs@, 5, ','),
        decreases cs@.len() - k,
    {
        if cs[k] == ',' {
            let r = data.substring_char(k + 1, cs.len());
            assert(r@ =~= data@.skip(k + 1));
            return r;
        }
        k += 1;
    }
    data
}

// ===== jobs =====
/// What a print request produces.
#[derive(Debug, Clone)]
pub enum PrintJob {
    /// ESC/POS bytes, handed to the system spooler when `spool` holds (the
    /// printer's connection is `system`).
    Escpos { bytes: Vec<u8>, spool: bool },
    /// A ZPL label; it is composed and logged, not sent.
    Zpl { label: String },
    /// SBPL bytes for `lpr`.
    Sbpl { bytes: Vec<u8> },
    /// A PDF document for the system spooler.
    Pdf { document: Vec<u8> },
}

pub enum PrintJobView {
    Escpos { bytes: Seq<u8>, spool: bool },
    Zpl { label: Seq<char> },
    Sbpl { bytes: Seq<u8> },
    Pdf { document: Seq<u8> },
}

impl View for PrintJob {
    type V = PrintJobView;

    open spec fn view(&self) -> PrintJobView {
        match self {
            PrintJob::Escpos { bytes, spool } => PrintJobView::Escpos { bytes: bytes@, spool: *spool },
            PrintJob::Zpl { label } => PrintJobView::Zpl { label: label@ },
            PrintJob::Sbpl { bytes } => PrintJobView::Sbpl { bytes: bytes@ },
            PrintJob::Pdf { document } => PrintJobView::Pdf { document: document@ },
        }
    }
}

/// The decoded bytes of base64 text, or the decoder's message.
pub open spec fn decoded_or_message(text: Seq<char>) -> Result<Seq<u8>, Seq<char>> {
    match base64_standard_decode(text) {
        Ok(b) => Ok(b),
        Err(e) => Err(base64_error_text(e)),
    }
}

/// The paper width of a printer in characters: the configured one, 42
/// otherwise.
pub open spec fn paper_width_of(printer: Option<PrinterConfig>) -> u32 {
    match printer {
        Some(c) => match c.paper_width {
            Some(w) => w,
            None => 42,
        },
        None => 42,
    }
}

/// Whether the printer is reached through the system spooler (also when it
/// is not configured).
pub open spec fn spooled(printer: Option<PrinterConfig>) -> bool {
    match printer {
        Some(c) => c.connection == PrintConnection::System,
        None => true,
    }
}

/// What a request produces, or the message of why it cannot be served.
/// Raw data takes precedence over commands.
pub open spec fn spec_plan_print(req: PrintRequest, printer: Option<PrinterConfig>) -> Result<PrintJobView, Seq<char>> {
    match req.protocol {
        PrintProtocol::Escpos => match req.data.raw {
            Some(raw) => match decoded_or_message(raw@) {
                Ok(b) => Ok(PrintJobView::Escpos { bytes: b, spool: spooled(printer) }),
                Err(m) => Err(m),
            },
            None => match req.data.commands {
                Some(c) => Ok(
                    PrintJobView::Escpos {
                        bytes: init_bytes() + escpos_body(c@, paper_width_of(printer)),
                        spool: spooled(printer),
                    },
                ),
                None => Err("Commands or raw data required for ESC/POS protocol"@),
            },
        },
        PrintProtocol::Zpl => match req.data.commands {
            Some(c) => Ok(PrintJobView::Zpl { label: zpl_text(c@) }),
            None => Err("Commands required for ZPL protocol"@),
        },
        PrintProtocol::Sbpl => match req.data.raw {
            Some(raw) => match decoded_or_message(raw@) {
                Ok(b) => Ok(PrintJobView::Sbpl { bytes: b }),
                Err(m) => Err(m),
            },
            None => match req.data.commands {
                Some(c) => Ok(PrintJobView::Sbpl { bytes: sbpl_bytes(c@) }),
                None => Err("Commands or raw data required for SBPL protocol"@),
            },
        },
        PrintProtocol::System => match req.data.pdf {
            Some(pdf) => match decoded_or_message(spec_strip_data_uri(pdf@)) {
                Ok(b) => Ok(PrintJobView::Pdf { document: b }),
                Err(m) => Err(m),
            },
            None => Err("PDF data required for system protocol"@),
        },
    }
}

/// What an ESC/POS request plans: decodable raw data is sent as decoded and
/// wins over commands; otherwise the commands are encoded after the reset
/// ESC @ at the printer's paper width, 42 characters when the printer is
/// not configured or names none; without either the request is refused.
/// The job goes to the system spooler exactly when the printer is not
/// configured or is configured with the `system` connection.
pub proof fn lemma_escpos_plan(req: PrintRequest, printer: Option<PrinterConfig>)
    requires
        req.protocol == PrintProtocol::Escpos,
    ensures
        spec_plan_print(req, printer) matches Ok(PrintJobView::Escpos { bytes, spool }) ==> spool == match printer {
            Some(c) => c.connection == PrintConnection::System,
            None => true,
        },
        spec_plan_print(req, printer) is Ok ==> spec_plan_print(req, printer)->Ok_0 is Escpos,
        req.data.raw is None && req.data.commands is Some ==> spec_plan_print(req, printer) == Ok::<PrintJobView, Seq<char>>(
            PrintJobView::Escpos {
                bytes: seq![0x1Bu8, 0x40] + escpos_body(
                    req.data.commands.unwrap()@,
                    match printer {
                        Some(c) => match c.paper_width {
                            Some(w) => w,
                            None => 42u32,
                        },
                        None => 42u32,
                    },
                ),
                spool: match printer {
                    Some(c) => c.connection == PrintConnection::System,
                    None => true,
                },
            },
        ),
        req.data.raw is None && req.data.commands is None ==> spec_plan_print(req, printer) == Err::<PrintJobView, Seq<char>>(
            "Commands or raw data required for ESC/POS protocol"@,
        ),
        req.data.raw matches Some(r) ==> match base64_standard_decode(r@) {
            Ok(b) => spec_plan_print(req, printer) == Ok::<PrintJobView, Seq<char>>(
                PrintJobView::Escpos {
                    bytes: b,
                    spool: match printer {
                        Some(c) => c.connection == PrintConnection::System,
                        None => true,
                    },
                },
            ),
            Err(e) => spec_plan_print(req, printer) == Err::<PrintJobView, Seq<char>>(base64_error_text(e)),
        },
{
}

/// What the other protocols plan: a ZPL label needs commands, an SBPL job
/// takes decodable raw data before commands, a system job needs a PDF;
/// each refusal names what is missing.
pub proof fn lemma_plan_refusals(req: PrintRequest, printer: Option<PrinterConfig>)
    ensures
        req.protocol == PrintProtocol::Zpl ==> match req.data.commands {
            Some(c) => spec_plan_print(req, printer) == Ok::<PrintJobView, Seq<char>>(PrintJobView::Zpl { label: zpl_text(c@) }),
            None => spec_plan_print(req, printer) == Err::<PrintJobView, Seq<char>>("Commands required for ZPL protocol"@),
        },
        req.protocol == PrintProtocol::Sbpl && req.data.raw is None ==> match req.data.commands {
            Some(c) => spec_plan_print(req, printer) == Ok::<PrintJobView, Seq<char>>(PrintJobView::Sbpl { bytes: sbpl_bytes(c@) }),
            None => spec_plan_print(req, printer) == Err::<PrintJobView, Seq<char>>("Commands or raw data required for SBPL protocol"@),
        },
        req.protocol == PrintProtocol::System && req.data.pdf is None ==> spec_plan_print(req, printer)
            == Err::<PrintJobView, Seq<char>>("PDF data required for system protocol"@),
{
}

/// Whether the label commands of a request can be laid out within 32-bit
/// positions.
pub open spec fn request_fits(req: PrintRequest) -> bool {
    match req.protocol {
        PrintProtocol::Zpl => match req.data.commands {
            Some(c) => zpl_fits(c@),
            None => true,
        },
        PrintProtocol::Sbpl => match (req.data.raw, req.data.commands) {
            (None, Some(c)) => sbpl_fits(c@),
            _ => true,
        },
        _ => true,
    }
}

/// Tests `request_fits`.
pub fn print_request_fits(req: &PrintRequest) -> (r: bool)
    ensures
        r == request_fits(*req),
{
    match req.protocol {
        PrintProtocol::Zpl => match &req.data.commands {
            Some(c) => crate::zpl::zpl_commands_fit(c.as_slice()),
            None => true,
        },
        PrintProtocol::Sbpl => match (&req.data.raw, &req.data.commands) {
            (None, Some(c)) => crate::sbpl::sbpl_commands_fit(c.as_slice()),
            _ => true,
        },
        _ => true,
    }
}

pub open spec fn job_result_view(r: Result<PrintJob, String>) -> Result<PrintJobView, Seq<char>> {
    match r {
        Ok(j) => Ok(j@),
        Err(m) => Err(m@),
    }
}

fn decode_or_message(text: &str) -> (r: Result<Vec<u8>, String>)
    ensures
        match r {
            Ok(b) => decoded_or_message(text@) == Ok::<Seq<u8>, Seq<char>>(b@),
            Err(m) => decoded_or_message(text@) == Err::<Seq<u8>, Seq<char>>(m@),
        },
{
    match decode_base64(text) {
        Ok(b) => Ok(b),
        Err(e) => Err(e.message()),
    }
}

/// Decides what a print request produces for the named printer's settings.
pub fn plan_print(req: &PrintRequest, printer: Option<&PrinterConfig>) -> (r: Result<PrintJob, String>)
    requires
        request_fits(*req),
    ensures
        job_result_view(r) == spec_plan_print(
            *req,
            match printer {
                Some(c) => Some(*c),
                None => None,
            },
        ),
{
    let spool = match printer {
        Some(c) => c.connection == PrintConnection::System,
        None => true,
    };
    match req.protocol {
        PrintProtocol::Escpos => {
            let bytes = if let Some(raw) = &req.data.raw {
                match decode_or_message(raw.as_str()) {
                    Ok(b) => b,
                    Err(m) => return Err(m),
                }
            } else if let Some(commands) = &req.data.commands {
                let paper_width: u32 = match printer {
                    Some(c) => match c.paper_width {
                        Some(w) => w,
                        None => 42,
                    },
                    None => 42,
                };
                build_escpos_commands(commands.as_slice(), paper_width)
            } else {
                return Err(String::from_str("Commands or raw data required for ESC/POS protocol"));
            };
            Ok(PrintJob::Escpos { bytes, spool })
        },
        PrintProtocol::Zpl => match &req.data.commands {
            Some(commands) => Ok(PrintJob::Zpl { label: build_zpl_commands(commands.as_slice()) }),
            None => Err(String::from_str("Commands required for ZPL protocol")),
        },
        PrintProtocol::Sbpl => {
            let bytes = if let Some(raw) = &req.data.raw {
                match decode_or_message(raw.as_str()) {
                    Ok(b) => b,
                    Err(m) => return Err(m),
                }
            } else if let Some(commands) = &req.data.commands {
                build_sbpl_commands(commands.as_slice())
            } else {
                return Err(String::from_str("Commands or raw data required for SBPL protocol"));
            };
            Ok(PrintJob::Sbpl { bytes })
        },
        PrintProtocol::System => match &req.data.pdf {
            Some(pdf) => match decode_or_message(strip_data_uri(pdf.as_str())) {
                Ok(document) => Ok(PrintJob::Pdf { document }),
                Err(m) => Err(m),
            },
            None => Err(String::from_str("PDF data required for system protocol")),
        },
    }
}

// ===== answers =====
/// Whether a printer name is blank (empty or white space only).
pub fn printer_name_missing(name: &str) -> (r: bool)
    ensures
        r == all_space(name@),
{
    let cs = chars_of(name);
    let mut i: usize = 0;
    while i < cs.len()
        invariant
            i <= cs@.len(),
            cs@ == name@,
            forall|k: int| 0 <= k < i ==> is_space(#[trigger] cs@[k]),
        decreases cs@.len() - i,
    {
        if !char_is_space(cs[i]) {
            return false;
        }
        i += 1;
    }
    true
}

pub open spec fn opt_text(o: Option<String>) -> Option<Seq<char>> {
    match o {
        Some(s) => Some(s@),
        None => None,
    }
}

/// The answer to a request without a printer name (HTTP 400).
pub fn missing_printer_result() -> (r: PrintResult)
    ensures
        !r.success,
        r.job_id is None,
        opt_text(r.message) == Some("Printer name is required"@),
        opt_text(r.error) == Some("MISSING_PRINTER"@),
{
    PrintResult {
        success: false,
        job_id: None,
        message: Some(String::from_str("Printer name is required")),
        error: Some(String::from_str("MISSING_PRINTER")),
    }
}

/// The HTTP status and body of the answer to a request without a printer
/// name: 400 with `missing_printer_result`.
pub fn missing_printer_answer() -> (r: (u16, PrintResult))
    ensures
        r.0 == 400,
        !r.1.success,
        r.1.job_id is None,
        opt_text(r.1.message) == Some("Printer name is required"@),
        opt_text(r.1.error) == Some("MISSING_PRINTER"@),
{
    (400, missing_printer_result())
}

/// The HTTP status and body that report how a job ended: 200 with a
/// confirmation, or 500 with the failure message and `PRINT_FAILED`.
pub fn print_outcome(printer: &str, job_id: &str, outcome: Result<(), String>) -> (r: (u16, PrintResult))
    ensures
        opt_text(r.1.job_id) == Some(job_id@),
        match outcome {
            Ok(()) => r.0 == 200 && r.1.success && opt_text(r.1.message) == Some(
                "Print job sent to "@ + printer@,
            ) && r.1.error is None,
            Err(m) => r.0 == 500 && !r.1.success && opt_text(r.1.message) == Some(m@) && opt_text(
                r.1.error,
            ) == Some("PRINT_FAILED"@),
        },
{
    match outcome {
        Ok(()) => {
            let mut message = String::from_str("Print job sent to ");
            message.append(printer);
            (
                200,
                PrintResult {
                    success: true,
                    job_id: Some(job_id.to_owned()),
                    message: Some(message),
                    error: None,
                },
            )
        },
        Err(m) => (
            500,
            PrintResult {
                success: false,
                job_id: Some(job_id.to_owned()),
                message: Some(m),
                error: Some(String::from_str("PRINT_FAILED")),
            },
        ),
    }
}

/// A lower-case hexadecimal digit.
pub open spec fn is_lower_hex_digit(c: char) -> bool {
    ('0' <= c <= '9') || ('a' <= c <= 'f')
}

/// The hyphenated text form of a UUID: 36 characters, hyphens at 8, 13, 18
/// and 23, lower-case hexadecimal digits everywhere else.
pub open spec fn is_uuid_text(s: Seq<char>) -> bool {
    &&& s.len() == 36
    &&& forall|i: int|
        0 <= i < 36 ==> if i == 8 || i == 13 || i == 18 || i == 23 {
            #[trigger] s[i] == '-'
        } else {
            is_lower_hex_digit(s[i])
        }
}

/// A fresh version-4 UUID in its hyphenated text form
/// (`uuid::Uuid::new_v4` and its `Display`, which writes the lower-case
/// hyphenated form). Claimed: the text is such a form. Which UUID comes out
/// is random.
#[verifier::external_body]
fn new_uuid_text() -> (s: String)
    ensures
        is_uuid_text(s@),
{
    Uuid::new_v4().to_string()
}

/// The job id made from a UUID's text: `job_` and its first eight
/// characters.
pub fn job_id_from_uuid(uuid: &str) -> (id: String)
    requires
        uuid@.len() >= 8,
    ensures
        id@ == "job_"@ + uuid@.take(8),
{
    let mut id = String::from_str("job_");
    let part = uuid.substring_char(0, 8);
    id.append(part);
    proof {
        assert(part@ =~= uuid@.take(8));
    }
    id
}

/// A fresh job id: `job_` and the first eight hex digits of a random UUID.
pub fn new_job_id() -> (id: String)
    ensures
        exists|u: Seq<char>| is_uuid_text(u) && id@ == "job_"@ + u.take(8),
        id@.len() == 12,
        id@.take(4) == "job_"@,
        forall|i: int| 4 <= i < 12 ==> is_lower_hex_digit(#[trigger] id@[i]),
{
    let u = new_uuid_text();
    let id = job_id_from_uuid(u.as_str());
    proof {
        reveal_strlit("job_");
        assert(id@.take(4) =~= "job_"@);
        assert forall|i: int| 4 <= i < 12 implies is_lower_hex_digit(#[trigger] id@[i]) by {
            assert(id@[i] == u@[i - 4]);
            assert(u@[i - 4] == u@[i - 4]);
        }
    }
    id
}

// ===== spooler calls =====
/// A program and its arguments.
pub open spec fn command_view(c: (String, Vec<String>)) -> (Seq<char>, Seq<Seq<char>>) {
    (c.0@, c.1@.map_values(|a: String| a@))
}

/// The spooler call that prints a raw file.
pub open spec fn spec_raw_print_command(platform: Platform, printer: Seq<char>, path: Seq<char>) -> Result<(Seq<char>, Seq<Seq<char>>), Seq<char>> {
    match platform {
        Platform::Linux => Ok(("lp"@, seq!["-d"@, printer, "-o"@, "raw"@, path])),
        Platform::MacOs => Ok(("lpr"@, seq!["-P"@, printer, "-o"@, "raw"@, path])),
        Platform::Other => Err("Raw printing not supported on this platform"@),
    }
}

/// The spooler call that prints a PDF file.
pub open spec fn spec_pdf_print_command(platform: Platform, printer: Seq<char>, path: Seq<char>) -> Result<(Seq<char>, Seq<Seq<char>>), Seq<char>> {
    match platform {
        Platform::Linux => Ok(("lp"@, seq!["-d"@, printer, path])),
        Platform::MacOs => Ok(("lpr"@, seq!["-P"@, printer, path])),
        Platform::Other => Err("PDF printing on Windows requires platform-specific implementation"@),
    }
}

pub open spec fn command_result_view(r: Result<(String, Vec<String>), String>) -> Result<(Seq<char>, Seq<Seq<char>>), Seq<char>> {
    match r {
        Ok(c) => Ok(command_view(c)),
        Err(m) => Err(m@),
    }
}

/// The program and arguments that print a raw file.
pub fn raw_print_command(platform: Platform, printer: &str, path: &str) -> (r: Result<(String, Vec<String>), String>)
    ensures
        command_result_view(r) == spec_raw_print_command(platform, printer@, path@),
{
    match platform {
        Platform::Linux => {
            let mut args: Vec<String> = Vec::new();
            args.push(String::from_str("-d"));
            args.push(printer.to_owned());
            args.push(String::from_str("-o"));
            args.push(String::from_str("raw"));
            args.push(path.to_owned());
            let r = (String::from_str("lp"), args);
            assert(command_view(r).1 =~= seq!["-d"@, printer@, "-o"@, "raw"@, path@]);
            Ok(r)
        },
        Platform::MacOs => {
            let mut args: Vec<String> = Vec::new();
            args.push(String::from_str("-P"));
            args.push(printer.to_owned());
            args.push(String::from_str("-o"));
            args.push(String::from_str("raw"));
            args.push(path.to_owned());
            let r = (String::from_str("lpr"), args);
            assert(command_view(r).1 =~= seq!["-P"@, printer@, "-o"@, "raw"@, path@]);
            Ok(r)
        },
        Platform::Other => Err(String::from_str("Raw printing not supported on this platform")),
    }
}

/// The program and arguments that print a PDF file.
pub fn pdf_print_command(platform: Platform, printer: &str, path: &str) -> (r: Result<(String, Vec<String>), String>)
    ensures
        command_result_view(r) == spec_pdf_print_command(platform, printer@, path@),
{
    match platform {
        Platform::Linux => {
            let mut args: Vec<String> = Vec::new();
            args.push(String::from_str("-d"));
            args.push(printer.to_owned());
            args.push(path.to_owned());
            let r = (String::from_str("lp"), args);
            assert(command_view(r).1 =~= seq!["-d"@, printer@, path@]);
            Ok(r)
        },
        Platform::MacOs => {
            let mut args: Vec<String> = Vec::new();
            args.push(String::from_str("-P"));
            args.push(printer.to_owned());
            args.push(path.to_owned());
            let r = (String::from_str("lpr"), args);
            assert(command_view(r).1 =~= seq!["-P"@, printer@, path@]);
            Ok(r)
        },
        Platform::Other => Err(
            String::from_str("PDF printing on Windows requires platform-specific implementation"),
        ),
    }
}

} // verus!
