//! Device discovery: printers reported by the operating system merged with
//! configured ones, configured RFID readers, and HID-POS scales merged with
//! configured scales.
use vstd::prelude::*;

use crate::named_map::{distinct, NamedMap};
use crate::print::{command_view, Platform};
use crate::text::{
    chars_of, chars_eq_ignore_ascii_case, contains_chars, contains_seq, eq_ignore_ascii_case,
    hex_padded, lemma_skip_space, lemma_word_end, matches_at, occurs_at, push_hex_padded,
    skip_space, skip_space_from, split_lines, string_from_chars, subslice_vec, text_lines,
    trim_chars, trimmed, word_end, word_end_from,
};
use crate::types::{
    copy_opt_string, Config, DeviceStatus, HidDeviceSummary, PrintConnection, PrintProtocol,
    PrinterConfig, PrinterInfo, RfidInfo, ScaleConfig, ScaleInfo, ScaleProtocol, ScaleTransport,
    WeightUnit,
};

verus! {

// ========================================================================
// Printers
// ========================================================================
/// A printer as the operating system lists it.
#[derive(Debug, Clone)]
pub struct DiscoveredPrinter {
    pub name: String,
    pub status: DeviceStatus,
}

/// The status a CUPS `lpstat -p` line describes.
pub open spec fn cups_status(line: Seq<char>) -> DeviceStatus {
    if contains_seq(line, "is idle"@) || contains_seq(line, "now printing"@) || contains_seq(
        line,
        "enabled since"@,
    ) {
        DeviceStatus::Ready
    } else if contains_seq(line, "disabled"@) || contains_seq(line, "paused"@) {
        DeviceStatus::Offline
    } else if contains_seq(line, "stopped"@) {
        DeviceStatus::Error
    } else {
        DeviceStatus::Ready
    }
}

fn line_contains(line: &[char], needle: &str) -> (r: bool)
    ensures
        r == contains_seq(line@, needle@),
{
    let n = chars_of(needle);
    contains_chars(line, &n)
}

fn cups_status_of(line: &[char]) -> (s: DeviceStatus)
    ensures
        s == cups_status(line@),
{
    if line_contains(line, "is idle") || line_contains(line, "now printing") || line_contains(
        line,
        "enabled since",
    ) {
        DeviceStatus::Ready
    } else if line_contains(line, "disabled") || line_contains(line, "paused") {
        DeviceStatus::Offline
    } else if line_contains(line, "stopped") {
        DeviceStatus::Error
    } else {
        DeviceStatus::Ready
    }
}

/// Reads the printer status out of one `lpstat -p` line.
pub fn parse_cups_status(line: &str) -> (s: DeviceStatus)
    ensures
        s == cups_status(line@),
{
    let cs = chars_of(line);
    cups_status_of(&cs)
}

/// The printer a `lpstat -p` line names: lines starting with `"printer "`
/// give their second white-space separated word and their status.
pub open spec fn lpstat_entry(line: Seq<char>) -> Option<(Seq<char>, DeviceStatus)> {
    if occurs_at(line, "printer "@, 0) {
        let k = skip_space(line, "printer "@.len() as int);
        if k >= line.len() {
            None
        } else {
            Some((line.subrange(k, word_end(line, k)), cups_status(line)))
        }
    } else {
        None
    }
}

/// The printers named by a sequence of `lpstat -p` lines, in order.
pub open spec fn lpstat_printers(lines: Seq<Seq<char>>) -> Seq<(Seq<char>, DeviceStatus)>
    decreases lines.len(),
{
    if lines.len() == 0 {
        Seq::empty()
    } else {
        let prev = lpstat_printers(lines.drop_last());
        match lpstat_entry(lines.last()) {
            Some(e) => prev.push(e),
            None => prev,
        }
    }
}

/// Name and status of each discovered printer.
pub open spec fn discovered_views(ps: Seq<DiscoveredPrinter>) -> Seq<(Seq<char>, DeviceStatus)> {
    ps.map_values(|p: DiscoveredPrinter| (p.name@, p.status))
}

/// The printers listed in the output of `lpstat -p`.
pub fn parse_lpstat_output(stdout: &str) -> (ps: Vec<DiscoveredPrinter>)
    ensures
        discovered_views(ps@) == lpstat_printers(text_lines(stdout@)),
{
    let text = chars_of(stdout);
    let lines = split_lines(&text);
    let ghost ls = lines@.map_values(|l: Vec<char>| l@);
    let prefix = chars_of("printer ");
    let mut out: Vec<DiscoveredPrinter> = Vec::new();
    let mut i: usize = 0;
    while i < lines.len()
        invariant
            i <= lines@.len(),
            ls == lines@.map_values(|l: Vec<char>| l@),
            ls == text_lines(stdout@),
            prefix@ == "printer "@,
            discovered_views(out@) == lpstat_printers(ls.take(i as int)),
        decreases lines@.len() - i,
    {
        let line = &lines[i];
        let ghost l = line@;
        assert(ls[i as int] == l);
        assert(ls.take(i + 1).drop_last() =~= ls.take(i as int));
        let ghost before = out@;
        if matches_at(line, &prefix, 0) {
            let k = skip_space_from(line, prefix.len());
            proof {
                lemma_skip_space(l, prefix@.len() as int);
            }
            if k < line.len() {
                let e = word_end_from(line, k);
                proof {
                    lemma_word_end(l, k as int);
                }
                let name = string_from_chars(&subslice_vec(line, k, e));
                let status = cups_status_of(line);
                out.push(DiscoveredPrinter { name, status });
                assert(discovered_views(out@) =~= discovered_views(before).push(
                    (l.subrange(k as int, e as int), cups_status(l)),
                ));
            }
        }
        i += 1;
    }
    assert(ls.take(lines@.len() as int) =~= ls);
    out
}

/// The printer a `wmic printer get name` line names: the trimmed line,
/// unless it is empty or the column title.
pub open spec fn wmic_entry(line: Seq<char>) -> Option<Seq<char>> {
    let t = trimmed(line);
    if t.len() == 0 || eq_ignore_ascii_case(t, "name"@) {
        None
    } else {
        Some(t)
    }
}

/// The printers named by a sequence of `wmic` lines, in order.
pub open spec fn wmic_printers(lines: Seq<Seq<char>>) -> Seq<(Seq<char>, DeviceStatus)>
    decreases lines.len(),
{
    if lines.len() == 0 {
        Seq::empty()
    } else {
        let prev = wmic_printers(lines.drop_last());
        match wmic_entry(lines.last()) {
            Some(n) => prev.push((n, DeviceStatus::Ready)),
            None => prev,
        }
    }
}

/// The printers listed in the output of `wmic printer get name`: every line
/// after the first one, all reported ready.
pub fn parse_wmic_output(stdout: &str) -> (ps: Vec<DiscoveredPrinter>)
    ensures
        discovered_views(ps@) == wmic_printers(
            if text_lines(stdout@).len() == 0 {
                Seq::empty()
            } else {
                text_lines(stdout@).drop_first()
            },
        ),
{
    let text = chars_of(stdout);
    let lines = split_lines(&text);
    let ghost ls = lines@.map_values(|l: Vec<char>| l@);
    let ghost body = if ls.len() == 0 {
        Seq::<Seq<char>>::empty()
    } else {
        ls.drop_first()
    };
    let title = chars_of("name");
    let mut out: Vec<DiscoveredPrinter> = Vec::new();
    if lines.len() == 0 {
        return out;
    }
    let mut i: usize = 1;
    while i < lines.len()
        invariant
            1 <= i <= lines@.len(),
            ls == lines@.map_values(|l: Vec<char>| l@),
            ls == text_lines(stdout@),
            ls.len() > 0,
            body == ls.drop_first(),
            title@ == "name"@,
            discovered_views(out@) == wmic_printers(body.take(i - 1)),
        decreases lines@.len() - i,
    {
        let line = &lines[i];
        assert(body[i - 1] == line@);
        assert(body.take(i as int).drop_last() =~= body.take(i - 1));
        let ghost before = out@;
        let t = trim_chars(line);
        if t.len() != 0 && !chars_eq_ignore_ascii_case(&t, &title) {
            let name = string_from_chars(&t);
            out.push(DiscoveredPrinter { name, status: DeviceStatus::Ready });
            assert(discovered_views(out@) =~= discovered_views(before).push((t@, DeviceStatus::Ready)));
        }
        i += 1;
    }
    assert(body.take(lines@.len() - 1) =~= body);
    out
}

/// The printers listed on a platform, from the output of its listing
/// command (`lpstat -p` where CUPS runs, `wmic printer get name`
/// elsewhere).
pub open spec fn spec_system_printers(platform: Platform, stdout: Seq<char>) -> Seq<(Seq<char>, DeviceStatus)> {
    match platform {
        Platform::Other => wmic_printers(
            if text_lines(stdout).len() == 0 {
                Seq::empty()
            } else {
                text_lines(stdout).drop_first()
            },
        ),
        _ => lpstat_printers(text_lines(stdout)),
    }
}

/// The program and arguments that list the system's printers.
pub fn printer_listing_command(platform: Platform) -> (c: (String, Vec<String>))
    ensures
        command_view(c) == match platform {
            Platform::Other => ("wmic"@, seq!["printer"@, "get"@, "name"@]),
            _ => ("lpstat"@, seq!["-p"@]),
        },
{
    let mut args: Vec<String> = Vec::new();
    match platform {
        Platform::Other => {
            args.push(String::from_str("printer"));
            args.push(String::from_str("get"));
            args.push(String::from_str("name"));
            let c = (String::from_str("wmic"), args);
            assert(command_view(c).1 =~= seq!["printer"@, "get"@, "name"@]);
            c
        },
        _ => {
            args.push(String::from_str("-p"));
            let c = (String::from_str("lpstat"), args);
            assert(command_view(c).1 =~= seq!["-p"@]);
            c
        },
    }
}

/// The printers the system lists, read from the output of the platform's
/// listing command.
pub fn system_printers(platform: Platform, stdout: &str) -> (ps: Vec<DiscoveredPrinter>)
    ensures
        discovered_views(ps@) == spec_system_printers(platform, stdout@),
{
    match platform {
        Platform::Other => parse_wmic_output(stdout),
        _ => parse_lpstat_output(stdout),
    }
}

/// A printer listing entry as the API reports it.
pub struct PrinterListing {
    pub name: Seq<char>,
    pub protocol: PrintProtocol,
    pub connection: PrintConnection,
    pub status: DeviceStatus,
}

pub open spec fn printer_listing(p: PrinterInfo) -> PrinterListing {
    PrinterListing { name: p.name@, protocol: p.protocol, connection: p.connection, status: p.status }
}

pub open spec fn printer_listings(ps: Seq<PrinterInfo>) -> Seq<PrinterListing> {
    ps.map_values(|p: PrinterInfo| printer_listing(p))
}

/// A system printer, with protocol and connection taken from the
/// configuration when it names the printer, `system` otherwise.
pub open spec fn system_listing(printers: NamedMap<PrinterConfig>, name: Seq<char>, status: DeviceStatus) -> PrinterListing {
    match printers.lookup(name) {
        Some(c) => PrinterListing { name, protocol: c.protocol, connection: c.connection, status },
        None => PrinterListing {
            name,
            protocol: PrintProtocol::System,
            connection: PrintConnection::System,
            status,
        },
    }
}

/// The first `n` configured printers that the system does not list and
/// that do not use the system protocol, reported ready.
pub open spec fn configured_listings(printers: NamedMap<PrinterConfig>, n: int, system_names: Seq<Seq<char>>) -> Seq<PrinterListing>
    decreases n,
{
    if n <= 0 {
        Seq::empty()
    } else {
        let prev = configured_listings(printers, n - 1, system_names);
        let name = printers.names()[n - 1];
        let c = printers.values()[n - 1];
        if c.protocol == PrintProtocol::System || system_names.contains(name) {
            prev
        } else {
            prev.push(
                PrinterListing {
                    name,
                    protocol: c.protocol,
                    connection: c.connection,
                    status: DeviceStatus::Ready,
                },
            )
        }
    }
}

/// The printer inventory: every system printer in the order given, then the
/// configured printers the system did not list (system-protocol ones
/// excepted).
pub open spec fn printer_inventory(config: &Config, system: Seq<DiscoveredPrinter>) -> Seq<PrinterListing> {
    system.map_values(|p: DiscoveredPrinter| system_listing(config.printers, p.name@, p.status))
        + configured_listings(
        config.printers,
        config.printers.size() as int,
        system.map_values(|p: DiscoveredPrinter| p.name@),
    )
}

proof fn lemma_configured_names(printers: NamedMap<PrinterConfig>, n: int, system_names: Seq<Seq<char>>)
    requires
        0 <= n <= printers.size(),
        printers.wf(),
    ensures
        forall|k: int|
            0 <= k < configured_listings(printers, n, system_names).len() ==> exists|j: int|
                0 <= j < n && printers.names()[j] == #[trigger] configured_listings(
                    printers,
                    n,
                    system_names,
                )[k].name,
    decreases n,
{
    if n > 0 {
        lemma_configured_names(printers, n - 1, system_names);
        let prev = configured_listings(printers, n - 1, system_names);
        let cur = configured_listings(printers, n, system_names);
        assert forall|k: int| 0 <= k < cur.len() implies exists|j: int|
            0 <= j < n && printers.names()[j] == #[trigger] cur[k].name by {
            if k < prev.len() {
                assert(cur[k] == prev[k]);
                let j = choose|j: int| 0 <= j < n - 1 && printers.names()[j] == #[trigger] prev[k].name;
                assert(printers.names()[j] == cur[k].name);
            } else {
                assert(printers.names()[n - 1] == cur[k].name);
            }
        }
    }
}

proof fn lemma_configured_listings_kinds(printers: NamedMap<PrinterConfig>, n: int, system_names: Seq<Seq<char>>)
    ensures
        forall|k: int|
            0 <= k < configured_listings(printers, n, system_names).len() ==> {
                let e = #[trigger] configured_listings(printers, n, system_names)[k];
                &&& e.status == DeviceStatus::Ready
                &&& e.protocol != PrintProtocol::System
                &&& !system_names.contains(e.name)
            },
    decreases n,
{
    if n > 0 {
        lemma_configured_listings_kinds(printers, n - 1, system_names);
    }
}

/// Every printer the system lists comes first, in order, under its name and
/// with its reported status; it takes protocol and connection from the
/// configuration when configured there, `system` otherwise. Every further
/// entry is a configured printer the system did not list, reported ready,
/// and never one of the system protocol.
pub proof fn lemma_printer_inventory_entries(config: &Config, system: Seq<DiscoveredPrinter>)
    requires
        config.wf(),
    ensures
        printer_inventory(config, system).len() >= system.len(),
        forall|i: int|
            0 <= i < system.len() ==> {
                let e = #[trigger] printer_inventory(config, system)[i];
                &&& e.name == system[i].name@
                &&& e.status == system[i].status
                &&& match config.printers.lookup(system[i].name@) {
                    Some(c) => e.protocol == c.protocol && e.connection == c.connection,
                    None => e.protocol == PrintProtocol::System && e.connection == PrintConnection::System,
                }
            },
        forall|k: int|
            system.len() <= k < printer_inventory(config, system).len() ==> {
                let e = #[trigger] printer_inventory(config, system)[k];
                &&& e.status == DeviceStatus::Ready
                &&& e.protocol != PrintProtocol::System
                &&& config.printers.has(e.name)
                &&& forall|i: int| 0 <= i < system.len() ==> system[i].name@ != e.name
            },
{
    let inv = printer_inventory(config, system);
    let names = system.map_values(|p: DiscoveredPrinter| p.name@);
    let head = system.map_values(|p: DiscoveredPrinter| system_listing(config.printers, p.name@, p.status));
    let extras = configured_listings(config.printers, config.printers.size() as int, names);
    assert(inv == head + extras);
    lemma_configured_listings_kinds(config.printers, config.printers.size() as int, names);
    lemma_configured_names(config.printers, config.printers.size() as int, names);
    assert forall|i: int| 0 <= i < system.len() implies {
        let e = #[trigger] inv[i];
        &&& e.name == system[i].name@
        &&& e.status == system[i].status
        &&& match config.printers.lookup(system[i].name@) {
            Some(c) => e.protocol == c.protocol && e.connection == c.connection,
            None => e.protocol == PrintProtocol::System && e.connection == PrintConnection::System,
        }
    } by {
        assert(inv[i] == head[i]);
    }
    assert forall|k: int| system.len() <= k < inv.len() implies {
        let e = #[trigger] inv[k];
        &&& e.status == DeviceStatus::Ready
        &&& e.protocol != PrintProtocol::System
        &&& config.printers.has(e.name)
        &&& forall|i: int| 0 <= i < system.len() ==> system[i].name@ != e.name
    } by {
        let kk = k - system.len();
        assert(inv[k] == extras[kk]);
        let j = choose|j: int| 0 <= j < config.printers.size() && config.printers.names()[j] == #[trigger] extras[kk].name;
        assert(config.printers.names().contains(extras[kk].name));
        assert forall|i: int| 0 <= i < system.len() implies system[i].name@ != inv[k].name by {
            assert(names[i] == system[i].name@);
            if system[i].name@ == inv[k].name {
                assert(names.contains(extras[kk].name));
            }
        }
    }
}

/// Whether some listed printer has the given name.
fn any_printer_named(list: &Vec<PrinterInfo>, name: &String) -> (r: bool)
    ensures
        r == exists|k: int| 0 <= k < list@.len() && #[trigger] list@[k].name@ == name@,
{
    let mut i: usize = 0;
    while i < list.len()
        invariant
            i <= list@.len(),
            forall|k: int| 0 <= k < i ==> #[trigger] list@[k].name@ != name@,
        decreases list@.len() - i,
    {
        if list[i].name == *name {
            return true;
        }
        i += 1;
    }
    false
}

/// Builds the printer inventory from the printers the system lists and the
/// configuration.
pub fn discover_printers(config: &Config, system: &[DiscoveredPrinter]) -> (out: Vec<PrinterInfo>)
    requires
        config.wf(),
    ensures
        printer_listings(out@) == printer_inventory(config, system@),
{
    let ghost sys_part = system@.map_values(
        |p: DiscoveredPrinter| system_listing(config.printers, p.name@, p.status),
    );
    let ghost sys_names = system@.map_values(|p: DiscoveredPrinter| p.name@);
    let mut out: Vec<PrinterInfo> = Vec::new();
    let mut i: usize = 0;
    while i < system.len()
        invariant
            i <= system@.len(),
            config.wf(),
            sys_part == system@.map_values(
                |p: DiscoveredPrinter| system_listing(config.printers, p.name@, p.status),
            ),
            printer_listings(out@) == sys_part.take(i as int),
        decreases system@.len() - i,
    {
        let sp = &system[i];
        let info = match config.printers.get(&sp.name) {
            Some(c) => PrinterInfo {
                name: sp.name.clone(),
                protocol: c.protocol,
                connection: c.connection,
                status: sp.status,
            },
            None => PrinterInfo {
                name: sp.name.clone(),
                protocol: PrintProtocol::System,
                connection: PrintConnection::System,
                status: sp.status,
            },
        };
        let ghost before = out@;
        out.push(info);
        assert(printer_listings(out@) =~= printer_listings(before).push(printer_listing(info)));
        assert(sys_part.take(i + 1) =~= sys_part.take(i as int).push(sys_part[i as int]));
        i += 1;
    }
    assert(sys_part.take(system@.len() as int) =~= sys_part);
    let n = config.printers.len();
    let mut j: usize = 0;
    while j < n
        invariant
            j <= n,
            n == config.printers.size(),
            config.wf(),
            sys_part.len() == system@.len(),
            sys_names == system@.map_values(|p: DiscoveredPrinter| p.name@),
            forall|k: int| 0 <= k < sys_part.len() ==> #[trigger] sys_part[k].name == sys_names[k],
            printer_listings(out@) == sys_part + configured_listings(config.printers, j as int, sys_names),
        decreases n - j,
    {
        let name = config.printers.name_at(j);
        let cfg = config.printers.value_at(j);
        proof {
            lemma_configured_names(config.printers, j as int, sys_names);
        }
        let ghost before = out@;
        if cfg.protocol != PrintProtocol::System {
            let seen = any_printer_named(&out, name);
            proof {
                let extras = configured_listings(config.printers, j as int, sys_names);
                assert(printer_listings(out@).len() == out@.len());
                assert forall|k: int| 0 <= k < out@.len() implies #[trigger] printer_listings(out@)[k]
                    == printer_listing(out@[k]) by {}
                if seen {
                    let k = choose|k: int| 0 <= k < out@.len() && #[trigger] out@[k].name@ == name@;
                    assert(printer_listings(out@)[k] == printer_listing(out@[k]));
                    assert(printer_listings(out@)[k].name == name@);
                    if k < sys_part.len() {
                        assert(sys_names[k] == name@);
                        assert(sys_names.contains(name@));
                    } else {
                        let kk = k - sys_part.len();
                        assert((sys_part + extras)[k] == extras[kk]);
                        assert(extras[kk].name == name@);
                        let jj = choose|jj: int| 0 <= jj < j && config.printers.names()[jj] == #[trigger] extras[kk].name;
                        assert(config.printers.names()[jj] == config.printers.names()[j as int]);
                    }
                } else {
                    if sys_names.contains(name@) {
                        let k = choose|k: int| 0 <= k < sys_names.len() && sys_names[k] == name@;
                        assert((sys_part + extras)[k] == sys_part[k]);
                        assert(printer_listings(out@)[k] == printer_listing(out@[k]));
                        assert(printer_listings(out@)[k].name == name@);
                        assert(out@[k].name@ == name@);
                    }
                }
            }
            if !seen {
                out.push(
                    PrinterInfo {
                        name: name.clone(),
                        protocol: cfg.protocol,
                        connection: cfg.connection,
                        status: DeviceStatus::Ready,
                    },
                );
                proof {
                    let last = out@.last();
                    assert(printer_listings(out@) =~= printer_listings(before).push(printer_listing(last)));
                }
            }
        }
        j += 1;
    }
    out
}

// ========================================================================
// RFID
// ========================================================================
/// An RFID reader listing entry as the API reports it.
pub struct RfidListing {
    pub name: Seq<char>,
    pub protocol: crate::types::RfidProtocol,
    pub transport: crate::types::RfidTransport,
    pub status: DeviceStatus,
}

pub open spec fn rfid_listings(rs: Seq<RfidInfo>) -> Seq<RfidListing> {
    rs.map_values(
        |r: RfidInfo|
            RfidListing { name: r.name@, protocol: r.protocol, transport: r.transport, status: r.status },
    )
}

/// Lists the configured RFID readers, all reported ready, in configuration
/// order.
pub fn discover_rfid_readers(config: &Config) -> (out: Vec<RfidInfo>)
    requires
        config.wf(),
    ensures
        out@.len() == config.rfid.size(),
        forall|k: int|
            0 <= k < out@.len() ==> (#[trigger] rfid_listings(out@)[k]) == (RfidListing {
                name: config.rfid.names()[k],
                protocol: config.rfid.values()[k].protocol,
                transport: config.rfid.values()[k].transport,
                status: DeviceStatus::Ready,
            }),
{
    let n = config.rfid.len();
    let mut out: Vec<RfidInfo> = Vec::new();
    let mut i: usize = 0;
    while i < n
        invariant
            i <= n,
            n == config.rfid.size(),
            config.wf(),
            out@.len() == i,
            forall|k: int|
                0 <= k < i ==> (#[trigger] rfid_listings(out@)[k]) == (RfidListing {
                    name: config.rfid.names()[k],
                    protocol: config.rfid.values()[k].protocol,
                    transport: config.rfid.values()[k].transport,
                    status: DeviceStatus::Ready,
                }),
        decreases n - i,
    {
        let cfg = config.rfid.value_at(i);
        let ghost before = out@;
        out.push(
            RfidInfo {
                name: config.rfid.name_at(i).clone(),
                protocol: cfg.protocol,
                transport: cfg.transport,
                status: DeviceStatus::Ready,
            },
        );
        assert(rfid_listings(out@) =~= rfid_listings(before).push(rfid_listings(out@).last()));
        i += 1;
    }
    out
}

// ========================================================================
// Scales
// ========================================================================
/// The HID usage page of point-of-sale scales.
pub const HID_POS_SCALE_USAGE_PAGE: u16 = 0x8d;

/// `0x` followed by four lower-case hexadecimal digits.
pub open spec fn hex_id(n: u16) -> Seq<char> {
    "0x"@ + hex_padded(n as nat, 4, false)
}

/// Renders a USB id as `0x` and four lower-case hexadecimal digits.
pub fn to_hex(n: u16) -> (s: String)
    ensures
        s@ == hex_id(n),
{
    let mut s = String::new();
    s.append("0x");
    push_hex_padded(&mut s, n as u64, 4, false);
    s
}

/// The catalog name of a detected HID-POS scale.
pub open spec fn hid_scale_name(vendor_id: u16, product_id: u16) -> Seq<char> {
    "hid:"@ + hex_id(vendor_id) + "-"@ + hex_id(product_id)
}

fn hid_name(vendor_id: u16, product_id: u16) -> (s: String)
    ensures
        s@ == hid_scale_name(vendor_id, product_id),
{
    let mut s = String::new();
    s.append("hid:");
    let v = to_hex(vendor_id);
    s.append(v.as_str());
    s.append("-");
    let p = to_hex(product_id);
    s.append(p.as_str());
    s
}

/// The devices on the HID-POS scale usage page, in order.
pub open spec fn hid_pos_devices(devices: Seq<HidDeviceSummary>) -> Seq<HidDeviceSummary>
    decreases devices.len(),
{
    if devices.len() == 0 {
        Seq::empty()
    } else {
        let prev = hid_pos_devices(devices.drop_last());
        if devices.last().usage_page == HID_POS_SCALE_USAGE_PAGE {
            prev.push(devices.last())
        } else {
            prev
        }
    }
}

impl HidDeviceSummary {
    /// A field-by-field copy.
    pub fn duplicate(&self) -> (r: HidDeviceSummary)
        ensures
            r == *self,
    {
        HidDeviceSummary {
            vendor_id: self.vendor_id,
            product_id: self.product_id,
            usage_page: self.usage_page,
            manufacturer: copy_opt_string(&self.manufacturer),
            product: copy_opt_string(&self.product),
        }
    }
}

/// Keeps the devices that are HID-POS scales.
pub fn find_hid_pos_scales(devices: &[HidDeviceSummary]) -> (out: Vec<HidDeviceSummary>)
    ensures
        out@ == hid_pos_devices(devices@),
{
    let mut out: Vec<HidDeviceSummary> = Vec::new();
    let mut i: usize = 0;
    while i < devices.len()
        invariant
            i <= devices@.len(),
            out@ == hid_pos_devices(devices@.take(i as int)),
        decreases devices@.len() - i,
    {
        assert(devices@.take(i + 1).drop_last() =~= devices@.take(i as int));
        if devices[i].usage_page == HID_POS_SCALE_USAGE_PAGE {
            out.push(devices[i].duplicate());
        }
        i += 1;
    }
    assert(devices@.take(devices@.len() as int) =~= devices@);
    out
}

/// A scale listing entry as the API reports it.
pub struct ScaleListing {
    pub name: Seq<char>,
    pub protocol: ScaleProtocol,
    pub transport: ScaleTransport,
    pub status: DeviceStatus,
}

pub open spec fn scale_listings(ss: Seq<ScaleInfo>) -> Seq<ScaleListing> {
    ss.map_values(
        |s: ScaleInfo|
            ScaleListing { name: s.name@, protocol: s.protocol, transport: s.transport, status: s.status },
    )
}

/// The listing of a detected HID-POS scale.
pub open spec fn hid_listing(d: HidDeviceSummary) -> ScaleListing {
    ScaleListing {
        name: hid_scale_name(d.vendor_id, d.product_id),
        protocol: ScaleProtocol::HidPos,
        transport: ScaleTransport::UsbHid,
        status: DeviceStatus::Ready,
    }
}

/// The listings of the detected HID-POS scales whose names the
/// configuration does not use, in order.
pub open spec fn detected_scale_listings(hid: Seq<HidDeviceSummary>, scales: NamedMap<ScaleConfig>) -> Seq<ScaleListing>
    decreases hid.len(),
{
    if hid.len() == 0 {
        Seq::empty()
    } else {
        let prev = detected_scale_listings(hid.drop_last(), scales);
        let d = hid.last();
        if scales.has(hid_scale_name(d.vendor_id, d.product_id)) {
            prev
        } else {
            prev.push(hid_listing(d))
        }
    }
}

/// The listing of a configured scale, reported ready.
pub open spec fn configured_listing(name: Seq<char>, c: ScaleConfig) -> ScaleListing {
    ScaleListing { name, protocol: c.protocol, transport: c.transport, status: DeviceStatus::Ready }
}

/// The listings of the first `n` configured scales, in configuration order.
pub open spec fn configured_scale_listings(scales: NamedMap<ScaleConfig>, n: int) -> Seq<ScaleListing> {
    Seq::new(
        if n <= 0 {
            0nat
        } else {
            n as nat
        },
        |k: int| configured_listing(scales.names()[k], scales.values()[k]),
    )
}

/// The scale inventory: the detected HID-POS scales whose names are not
/// configured, then every configured scale once, with its own protocol
/// and transport (configuration overrides detection).
pub open spec fn scale_inventory(config: &Config, devices: Seq<HidDeviceSummary>) -> Seq<ScaleListing> {
    detected_scale_listings(hid_pos_devices(devices), config.scales) + configured_scale_listings(
        config.scales,
        config.scales.size() as int,
    )
}

/// Every entry of the detected part of the inventory is a detected scale
/// whose name is not configured.
proof fn lemma_detected_scale_entries(hid: Seq<HidDeviceSummary>, scales: NamedMap<ScaleConfig>, k: int)
    requires
        0 <= k < detected_scale_listings(hid, scales).len(),
    ensures
        !scales.has(detected_scale_listings(hid, scales)[k].name),
        exists|i: int|
            0 <= i < hid.len() && #[trigger] hid_scale_name(hid[i].vendor_id, hid[i].product_id)
                == detected_scale_listings(hid, scales)[k].name,
    decreases hid.len(),
{
    let pre = hid.drop_last();
    let prev = detected_scale_listings(pre, scales);
    let cur = detected_scale_listings(hid, scales);
    if k < prev.len() {
        assert(cur[k] == prev[k]);
        lemma_detected_scale_entries(pre, scales, k);
        let i = choose|i: int|
            0 <= i < pre.len() && #[trigger] hid_scale_name(pre[i].vendor_id, pre[i].product_id) == prev[k].name;
        assert(hid[i] == pre[i]);
        assert(hid_scale_name(hid[i].vendor_id, hid[i].product_id) == cur[k].name);
    } else {
        let last = hid.last();
        assert(!scales.has(hid_scale_name(last.vendor_id, last.product_id)));
        assert(cur == prev.push(hid_listing(last)));
        assert(cur[k] == hid_listing(last));
        assert(hid[hid.len() - 1] == last);
        assert(hid_scale_name(hid[hid.len() - 1].vendor_id, hid[hid.len() - 1].product_id) == cur[k].name);
    }
}

/// Every detected scale whose name is not configured is in the detected
/// part of the inventory.
proof fn lemma_detected_scale_listed(hid: Seq<HidDeviceSummary>, scales: NamedMap<ScaleConfig>, i: int)
    requires
        0 <= i < hid.len(),
        !scales.has(hid_scale_name(hid[i].vendor_id, hid[i].product_id)),
    ensures
        exists|k: int|
            0 <= k < detected_scale_listings(hid, scales).len() && #[trigger] detected_scale_listings(hid, scales)[k].name
                == hid_scale_name(hid[i].vendor_id, hid[i].product_id),
    decreases hid.len(),
{
    let pre = hid.drop_last();
    let prev = detected_scale_listings(pre, scales);
    let cur = detected_scale_listings(hid, scales);
    if i < pre.len() {
        assert(hid[i] == pre[i]);
        lemma_detected_scale_listed(pre, scales, i);
        let k = choose|k: int|
            0 <= k < prev.len() && #[trigger] prev[k].name == hid_scale_name(pre[i].vendor_id, pre[i].product_id);
        assert(cur[k] == prev[k]);
    } else {
        let last = hid.last();
        assert(hid[i] == last);
        assert(cur == prev.push(hid_listing(last)));
        assert(cur[prev.len() as int].name == hid_scale_name(hid[i].vendor_id, hid[i].product_id));
    }
}

proof fn lemma_detected_scale_kinds(hid: Seq<HidDeviceSummary>, scales: NamedMap<ScaleConfig>)
    ensures
        forall|k: int|
            0 <= k < detected_scale_listings(hid, scales).len() ==> {
                let e = #[trigger] detected_scale_listings(hid, scales)[k];
                &&& e.protocol == ScaleProtocol::HidPos
                &&& e.transport == ScaleTransport::UsbHid
                &&& e.status == DeviceStatus::Ready
            },
    decreases hid.len(),
{
    if hid.len() > 0 {
        lemma_detected_scale_kinds(hid.drop_last(), scales);
    }
}

/// Every scale in the inventory is reported ready. Detected scales are
/// listed as HID-POS over USB HID under a name the configuration does not
/// use; every configured scale is listed under its name with its own
/// protocol and transport.
pub proof fn lemma_scale_inventory_entries(config: &Config, devices: Seq<HidDeviceSummary>)
    requires
        config.wf(),
    ensures
        forall|k: int|
            0 <= k < scale_inventory(config, devices).len() ==> (#[trigger] scale_inventory(config, devices)[k]).status
                == DeviceStatus::Ready,
        forall|k: int|
            0 <= k < scale_inventory(config, devices).len() && !config.scales.has(
                (#[trigger] scale_inventory(config, devices)[k]).name,
            ) ==> scale_inventory(config, devices)[k].protocol == ScaleProtocol::HidPos
                && scale_inventory(config, devices)[k].transport == ScaleTransport::UsbHid,
        forall|j: int|
            #![trigger config.scales.names()[j]]
            0 <= j < config.scales.size() ==> exists|k: int|
                0 <= k < scale_inventory(config, devices).len() && #[trigger] scale_inventory(config, devices)[k]
                    == (ScaleListing {
                    name: config.scales.names()[j],
                    protocol: config.scales.values()[j].protocol,
                    transport: config.scales.values()[j].transport,
                    status: DeviceStatus::Ready,
                }),
{
    let inv = scale_inventory(config, devices);
    let hid = hid_pos_devices(devices);
    let det = detected_scale_listings(hid, config.scales);
    let extras = configured_scale_listings(config.scales, config.scales.size() as int);
    lemma_detected_scale_kinds(hid, config.scales);
    assert(inv == det + extras);
    assert forall|k: int| 0 <= k < inv.len() implies (#[trigger] inv[k]).status == DeviceStatus::Ready by {
        if k < det.len() {
            assert(inv[k] == det[k]);
        } else {
            assert(inv[k] == extras[k - det.len()]);
        }
    }
    assert forall|k: int| 0 <= k < inv.len() && !config.scales.has((#[trigger] inv[k]).name) implies inv[k].protocol
        == ScaleProtocol::HidPos && inv[k].transport == ScaleTransport::UsbHid by {
        if k < det.len() {
            assert(inv[k] == det[k]);
        } else {
            assert(inv[k] == extras[k - det.len()]);
            assert(config.scales.names().contains(config.scales.names()[k - det.len()]));
        }
    }
    assert forall|j: int| #![trigger config.scales.names()[j]] 0 <= j < config.scales.size() implies exists|k: int|
        0 <= k < inv.len() && #[trigger] inv[k] == (ScaleListing {
            name: config.scales.names()[j],
            protocol: config.scales.values()[j].protocol,
            transport: config.scales.values()[j].transport,
            status: DeviceStatus::Ready,
        }) by {
        assert(inv[det.len() + j] == extras[j]);
    }
}

/// The scale inventory and the scale catalog name the same scales: every
/// listed scale can be looked up by its name, and every scale that can be
/// looked up is listed.
pub proof fn lemma_inventory_matches_catalog(config: &Config, devices: Seq<HidDeviceSummary>, name: Seq<char>)
    requires
        config.wf(),
    ensures
        (exists|i: int|
            0 <= i < scale_inventory(config, devices).len() && #[trigger] scale_inventory(config, devices)[i].name
                == name) <==> (config.scales.has(name) || hid_scale_names(devices).contains(name)),
{
    let inv = scale_inventory(config, devices);
    let hid = hid_pos_devices(devices);
    let names = hid_scale_names(devices);
    let n = config.scales.size() as int;
    let det = detected_scale_listings(hid, config.scales);
    let extras = configured_scale_listings(config.scales, n);
    assert(inv == det + extras);
    if exists|i: int| 0 <= i < inv.len() && #[trigger] inv[i].name == name {
        let i = choose|i: int| 0 <= i < inv.len() && #[trigger] inv[i].name == name;
        if i < det.len() {
            assert(inv[i] == det[i]);
            lemma_detected_scale_entries(hid, config.scales, i);
            let m = choose|m: int| 0 <= m < hid.len() && #[trigger] hid_scale_name(hid[m].vendor_id, hid[m].product_id) == det[i].name;
            assert(names[m] == name);
        } else {
            assert(inv[i] == extras[i - det.len()]);
            assert(config.scales.names()[i - det.len()] == name);
        }
    }
    if config.scales.has(name) || names.contains(name) {
        if config.scales.has(name) {
            let j = choose|j: int| 0 <= j < config.scales.names().len() && config.scales.names()[j] == name;
            assert(inv[det.len() + j] == extras[j]);
            assert(inv[det.len() + j].name == name);
        } else {
            let m = choose|m: int| 0 <= m < names.len() && names[m] == name;
            assert(hid_scale_name(hid[m].vendor_id, hid[m].product_id) == name);
            lemma_detected_scale_listed(hid, config.scales, m);
            let k = choose|k: int| 0 <= k < det.len() && #[trigger] det[k].name == hid_scale_name(hid[m].vendor_id, hid[m].product_id);
            assert(inv[k] == det[k]);
        }
    }
}

/// Builds the scale inventory from the enumerated HID devices and the
/// configuration: detected HID-POS scales not named in the configuration,
/// then every configured scale.
pub fn discover_scales(config: &Config, devices: &[HidDeviceSummary]) -> (out: Vec<ScaleInfo>)
    requires
        config.wf(),
    ensures
        scale_listings(out@) == scale_inventory(config, devices@),
{
    let hid = find_hid_pos_scales(devices);
    let mut out: Vec<ScaleInfo> = Vec::new();
    let mut i: usize = 0;
    while i < hid.len()
        invariant
            i <= hid@.len(),
            config.wf(),
            scale_listings(out@) == detected_scale_listings(hid@.take(i as int), config.scales),
        decreases hid@.len() - i,
    {
        let d = &hid[i];
        let name = hid_name(d.vendor_id, d.product_id);
        assert(hid@.take(i + 1).drop_last() =~= hid@.take(i as int));
        assert(hid@.take(i + 1).last() == hid@[i as int]);
        if !config.scales.contains_key(&name) {
            let ghost before = out@;
            out.push(
                ScaleInfo {
                    name,
                    protocol: ScaleProtocol::HidPos,
                    transport: ScaleTransport::UsbHid,
                    status: DeviceStatus::Ready,
                },
            );
            assert(scale_listings(out@) =~= scale_listings(before).push(hid_listing(hid@[i as int])));
        }
        i += 1;
    }
    assert(hid@.take(hid@.len() as int) =~= hid@);
    let ghost det = scale_listings(out@);
    let n = config.scales.len();
    let mut j: usize = 0;
    while j < n
        invariant
            j <= n,
            n == config.scales.size(),
            config.wf(),
            scale_listings(out@) == det + configured_scale_listings(config.scales, j as int),
        decreases n - j,
    {
        let ghost before = out@;
        let name = config.scales.name_at(j);
        let cfg = config.scales.value_at(j);
        assert(configured_scale_listings(config.scales, j + 1) =~= configured_scale_listings(config.scales, j as int).push(
            configured_listing(config.scales.names()[j as int], config.scales.values()[j as int]),
        ));
        out.push(
            ScaleInfo {
                name: name.clone(),
                protocol: cfg.protocol,
                transport: cfg.transport,
                status: DeviceStatus::Ready,
            },
        );
        assert(scale_listings(out@) =~= scale_listings(before).push(
            configured_listing(config.scales.names()[j as int], config.scales.values()[j as int]),
        ));
        j += 1;
    }
    out
}

/// Whether `c` is the catalog entry made for a detected HID-POS scale with
/// the given ids: HID-POS over USB HID, ids rendered as `0x` and four
/// lower-case hex digits, unit kilograms, no serial settings.
pub open spec fn is_hid_catalog_entry(c: ScaleConfig, vendor_id: u16, product_id: u16) -> bool {
    &&& c.protocol == ScaleProtocol::HidPos
    &&& c.transport == ScaleTransport::UsbHid
    &&& c.path is None
    &&& c.baud is None
    &&& c.vendor_id matches Some(v) && v@ == hex_id(vendor_id)
    &&& c.product_id matches Some(p) && p@ == hex_id(product_id)
    &&& c.unit == Some(WeightUnit::Kg)
}

/// The names of the detected HID-POS scales among `devices`.
pub open spec fn hid_scale_names(devices: Seq<HidDeviceSummary>) -> Seq<Seq<char>> {
    hid_pos_devices(devices).map_values(|d: HidDeviceSummary| hid_scale_name(d.vendor_id, d.product_id))
}

/// What the scale catalog holds: every configured scale under its name, and
/// every detected HID-POS scale whose name the configuration does not use.
pub open spec fn is_scale_catalog(cat: NamedMap<ScaleConfig>, config: &Config, devices: Seq<HidDeviceSummary>) -> bool {
    let hid = hid_pos_devices(devices);
    let names = hid_scale_names(devices);
    &&& cat.wf()
    &&& forall|k: Seq<char>| #[trigger] cat.has(k) <==> (config.scales.has(k) || names.contains(k))
    &&& forall|k: Seq<char>| config.scales.has(k) ==> #[trigger] cat.lookup(k) == config.scales.lookup(k)
    &&& forall|k: Seq<char>|
        !config.scales.has(k) && names.contains(k) ==> exists|i: int|
            0 <= i < hid.len() && names[i] == k && is_hid_catalog_entry(
                #[trigger] cat.lookup(k).unwrap(),
                hid[i].vendor_id,
                hid[i].product_id,
            )
}

fn hid_catalog_entry(d: &HidDeviceSummary) -> (c: ScaleConfig)
    ensures
        is_hid_catalog_entry(c, d.vendor_id, d.product_id),
{
    ScaleConfig {
        protocol: ScaleProtocol::HidPos,
        transport: ScaleTransport::UsbHid,
        path: None,
        baud: None,
        vendor_id: Some(to_hex(d.vendor_id)),
        product_id: Some(to_hex(d.product_id)),
        unit: Some(WeightUnit::Kg),
    }
}

/// Merges detected HID-POS scales and configured scales into a name-keyed
/// catalog; a configured scale replaces a detected one of the same name.
pub fn build_catalog(config: &Config, devices: &[HidDeviceSummary]) -> (cat: NamedMap<ScaleConfig>)
    requires
        config.wf(),
    ensures
        is_scale_catalog(cat, config, devices@),
{
    let hid = find_hid_pos_scales(devices);
    let ghost names = hid_scale_names(devices@);
    let mut cat: NamedMap<ScaleConfig> = NamedMap::new();
    let mut i: usize = 0;
    while i < hid.len()
        invariant
            i <= hid@.len(),
            hid@ == hid_pos_devices(devices@),
            names == hid_scale_names(devices@),
            names.len() == hid@.len(),
            cat.wf(),
            forall|k: Seq<char>| #[trigger] cat.has(k) <==> names.take(i as int).contains(k),
            forall|k: Seq<char>|
                cat.has(k) ==> exists|j: int|
                    0 <= j < i && names[j] == k && is_hid_catalog_entry(
                        #[trigger] cat.lookup(k).unwrap(),
                        hid@[j].vendor_id,
                        hid@[j].product_id,
                    ),
        decreases hid@.len() - i,
    {
        let d = &hid[i];
        let name = hid_name(d.vendor_id, d.product_id);
        let entry = hid_catalog_entry(d);
        let ghost old_cat = cat;
        let ghost key = name@;
        assert(names[i as int] == key);
        cat.insert(name, entry);
        proof {
            assert(names.take(i + 1) =~= names.take(i as int).push(key));
            assert forall|k: Seq<char>| #[trigger] cat.has(k) <==> names.take(i + 1).contains(k) by {
                if k == key {
                    assert(cat.lookup(k) is Some);
                    assert(names.take(i + 1)[i as int] == key);
                } else {
                    assert(cat.lookup(k) == old_cat.lookup(k));
                    if names.take(i + 1).contains(k) {
                        let t = names.take(i + 1).index_of(k);
                        assert(names.take(i as int)[t] == k);
                    }
                    if names.take(i as int).contains(k) {
                        let t = names.take(i as int).index_of(k);
                        assert(names.take(i + 1)[t] == k);
                    }
                }
            }
            assert forall|k: Seq<char>| cat.has(k) implies exists|j: int|
                0 <= j < i + 1 && names[j] == k && is_hid_catalog_entry(
                    #[trigger] cat.lookup(k).unwrap(),
                    hid@[j].vendor_id,
                    hid@[j].product_id,
                ) by {
                if k == key {
                    assert(cat.lookup(k) == Some(entry));
                    assert(is_hid_catalog_entry(cat.lookup(k).unwrap(), hid@[i as int].vendor_id, hid@[i as int].product_id));
                } else {
                    assert(cat.lookup(k) == old_cat.lookup(k));
                    assert(old_cat.has(k));
                    let j = choose|j: int| 0 <= j < i && names[j] == k && is_hid_catalog_entry(
                        #[trigger] old_cat.lookup(k).unwrap(),
                        hid@[j].vendor_id,
                        hid@[j].product_id,
                    );
                    assert(is_hid_catalog_entry(cat.lookup(k).unwrap(), hid@[j].vendor_id, hid@[j].product_id));
                }
            }
        }
        i += 1;
    }
    assert(names.take(hid@.len() as int) =~= names);
    let n = config.scales.len();
    let mut j: usize = 0;
    while j < n
        invariant
            j <= n,
            n == config.scales.size(),
            config.wf(),
            hid@ == hid_pos_devices(devices@),
            names == hid_scale_names(devices@),
            names.len() == hid@.len(),
            cat.wf(),
            forall|k: Seq<char>|
                #[trigger] cat.has(k) <==> (config.scales.names().take(j as int).contains(k)
                    || names.contains(k)),
            forall|k: Seq<char>|
                config.scales.names().take(j as int).contains(k) ==> #[trigger] cat.lookup(k)
                    == config.scales.lookup(k),
            forall|k: Seq<char>|
                !config.scales.names().take(j as int).contains(k) && names.contains(k)
                    ==> exists|t: int|
                    0 <= t < hid@.len() && names[t] == k && is_hid_catalog_entry(
                        #[trigger] cat.lookup(k).unwrap(),
                        hid@[t].vendor_id,
                        hid@[t].product_id,
                    ),
        decreases n - j,
    {
        let name = config.scales.name_at(j);
        let cfg = config.scales.value_at(j);
        let ghost old_cat = cat;
        let ghost key = name@;
        let ghost taken = config.scales.names().take(j as int);
        let ghost taken2 = config.scales.names().take(j + 1);
        proof {
            config.scales.lemma_lookup_at(j as int);
            assert(taken2 =~= taken.push(key));
        }
        cat.insert(name.clone(), cfg.duplicate());
        proof {
            assert forall|k: Seq<char>| #[trigger] cat.has(k) <==> (taken2.contains(k) || names.contains(k)) by {
                if k == key {
                    assert(cat.lookup(k) is Some);
                    assert(taken2[j as int] == key);
                } else {
                    assert(cat.lookup(k) == old_cat.lookup(k));
                    if taken2.contains(k) {
                        let t = taken2.index_of(k);
                        assert(taken[t] == k);
                    }
                    if taken.contains(k) {
                        let t = taken.index_of(k);
                        assert(taken2[t] == k);
                    }
                }
            }
            assert forall|k: Seq<char>| taken2.contains(k) implies #[trigger] cat.lookup(k)
                == config.scales.lookup(k) by {
                if k != key {
                    assert(cat.lookup(k) == old_cat.lookup(k));
                    let t = taken2.index_of(k);
                    assert(taken[t] == k);
                }
            }
            assert forall|k: Seq<char>| !taken2.contains(k) && names.contains(k) implies exists|t: int|
                0 <= t < hid@.len() && names[t] == k && is_hid_catalog_entry(
                    #[trigger] cat.lookup(k).unwrap(),
                    hid@[t].vendor_id,
                    hid@[t].product_id,
                ) by {
                assert(k != key) by {
                    assert(taken2[j as int] == key);
                }
                assert(cat.lookup(k) == old_cat.lookup(k));
                if taken.contains(k) {
                    let t = taken.index_of(k);
                    assert(taken2[t] == k);
                }
                let t = choose|t: int| 0 <= t < hid@.len() && names[t] == k && is_hid_catalog_entry(
                    #[trigger] old_cat.lookup(k).unwrap(),
                    hid@[t].vendor_id,
                    hid@[t].product_id,
                );
                assert(is_hid_catalog_entry(cat.lookup(k).unwrap(), hid@[t].vendor_id, hid@[t].product_id));
            }
        }
        j += 1;
    }
    proof {
        assert(config.scales.names().take(n as int) =~= config.scales.names());
        assert forall|k: Seq<char>| config.scales.has(k) implies #[trigger] cat.lookup(k) == config.scales.lookup(k) by {
            assert(config.scales.names().take(n as int).contains(k));
        }
    }
    cat
}

/// Whether the catalog built from the configuration and the enumerated
/// devices holds `name`.
pub fn catalog_has(config: &Config, devices: &[HidDeviceSummary], name: &String) -> (r: bool)
    requires
        config.wf(),
    ensures
        r == (config.scales.has(name@) || hid_scale_names(devices@).contains(name@)),
{
    let cat = build_catalog(config, devices);
    cat.contains_key(name)
}

} // verus!
