//! Data types of the device service: configuration, device listings,
//! print commands and API results.
use vstd::prelude::*;

use crate::named_map::NamedMap;

verus! {

// ========================================================================
// Shared
// ========================================================================
#[derive(Debug, Clone, Copy, PartialEq, Eq, Structural)]
pub enum DeviceStatus {
    Ready,
    Offline,
    Error,
}

/// A copy of an optional string.
pub fn copy_opt_string(o: &Option<String>) -> (r: Option<String>)
    ensures
        r == *o,
{
    match o {
        Some(s) => Some(s.clone()),
        None => None,
    }
}

// ========================================================================
// Printers
// ========================================================================
#[derive(Debug, Clone, Copy, PartialEq, Eq, Structural)]
pub enum PrintProtocol {
    Escpos,
    Zpl,
    Sbpl,
    System,
}

#[derive(Debug, Clone, Copy, PartialEq, Eq, Structural)]
pub enum PrintConnection {
    Usb,
    Network,
    System,
}

#[derive(Debug, Clone)]
pub struct PrinterConfig {
    pub protocol: PrintProtocol,
    pub connection: PrintConnection,
    pub vendor_id: Option<String>,
    pub product_id: Option<String>,
    pub paper_width: Option<u32>,
}

#[derive(Debug, Clone)]
pub struct PrinterInfo {
    pub name: String,
    pub protocol: PrintProtocol,
    pub connection: PrintConnection,
    pub status: DeviceStatus,
}

#[derive(Debug, Clone, Copy, PartialEq, Eq, Structural)]
pub enum CommandKind {
    Text,
    Align,
    Style,
    Columns,
    Feed,
    Cut,
    Barcode,
    Image,
    Drawer,
    Raw,
}

#[derive(Debug, Clone, Copy, PartialEq, Eq, Structural)]
pub enum TextSize {
    Small,
    Normal,
    Large,
}

#[derive(Debug, Clone, Copy, PartialEq, Eq, Structural)]
pub enum CutMode {
    Full,
    Partial,
}

#[derive(Debug, Clone, Copy, PartialEq, Eq, Structural)]
pub enum BarcodeFormat {
    Code128,
    Ean13,
    Qr,
}

/// One step of a print job, as sent by the client.
#[derive(Debug, Clone)]
pub struct PrintCommand {
    pub kind: CommandKind,
    pub value: Option<String>,
    pub values: Option<Vec<String>>,
    pub widths: Option<Vec<u32>>,
    pub bold: Option<bool>,
    pub underline: Option<bool>,
    pub size: Option<TextSize>,
    pub lines: Option<u32>,
    pub mode: Option<CutMode>,
    pub format: Option<BarcodeFormat>,
    pub data: Option<String>,
}

impl PrintCommand {
    /// A command of the given kind with every option unset.
    pub fn new(kind: CommandKind) -> (c: PrintCommand)
        ensures
            c.kind == kind,
            c.value is None,
            c.values is None,
            c.widths is None,
            c.bold is None,
            c.underline is None,
            c.size is None,
            c.lines is None,
            c.mode is None,
            c.format is None,
            c.data is None,
    {
        PrintCommand {
            kind,
            value: None,
            values: None,
            widths: None,
            bold: None,
            underline: None,
            size: None,
            lines: None,
            mode: None,
            format: None,
            data: None,
        }
    }
}

#[derive(Debug, Clone)]
pub struct PrintRequest {
    pub printer: String,
    pub protocol: PrintProtocol,
    pub data: PrintRequestData,
}

#[derive(Debug, Clone)]
pub struct PrintRequestData {
    pub commands: Option<Vec<PrintCommand>>,
    pub pdf: Option<String>,
    pub raw: Option<String>,
}

/// Body of the answer to a print request.
#[derive(Debug, Clone)]
pub struct PrintResult {
    pub success: bool,
    pub job_id: Option<String>,
    pub message: Option<String>,
    pub error: Option<String>,
}

// ========================================================================
// Scales
// ========================================================================
#[derive(Debug, Clone, Copy, PartialEq, Eq, Structural, Hash)]
pub enum ScaleProtocol {
    Nci,
    Cas,
    Toledo,
    Avery,
    HidPos,
    Mock,
}

#[derive(Debug, Clone, Copy, PartialEq, Eq, Structural)]
pub enum ScaleTransport {
    Serial,
    UsbHid,
    Mock,
}

#[derive(Debug, Clone, Copy, PartialEq, Eq, Structural)]
pub enum WeightUnit {
    Kg,
    G,
    Lb,
    Oz,
}

#[derive(Debug, Clone)]
pub struct ScaleConfig {
    pub protocol: ScaleProtocol,
    pub transport: ScaleTransport,
    pub path: Option<String>,
    pub baud: Option<u32>,
    pub vendor_id: Option<String>,
    pub product_id: Option<String>,
    pub unit: Option<WeightUnit>,
}

impl ScaleConfig {
    /// A field-by-field copy.
    pub fn duplicate(&self) -> (r: ScaleConfig)
        ensures
            r == *self,
    {
        ScaleConfig {
            protocol: self.protocol,
            transport: self.transport,
            path: copy_opt_string(&self.path),
            baud: self.baud,
            vendor_id: copy_opt_string(&self.vendor_id),
            product_id: copy_opt_string(&self.product_id),
            unit: self.unit,
        }
    }
}

#[derive(Debug, Clone)]
pub struct ScaleInfo {
    pub name: String,
    pub protocol: ScaleProtocol,
    pub transport: ScaleTransport,
    pub status: DeviceStatus,
}

// ========================================================================
// RFID
// ========================================================================
#[derive(Debug, Clone, Copy, PartialEq, Eq, Structural)]
pub enum RfidProtocol {
    Llrp,
    HidKeyboard,
    SerialProprietary,
    Mock,
}

#[derive(Debug, Clone, Copy, PartialEq, Eq, Structural)]
pub enum RfidTransport {
    Tcp,
    UsbHid,
    Serial,
    Mock,
}

#[derive(Debug, Clone)]
pub struct RfidConfig {
    pub protocol: RfidProtocol,
    pub transport: RfidTransport,
    pub host: Option<String>,
    pub port: Option<u16>,
    pub path: Option<String>,
    pub baud: Option<u32>,
    pub vendor_id: Option<String>,
    pub product_id: Option<String>,
}

#[derive(Debug, Clone)]
pub struct RfidInfo {
    pub name: String,
    pub protocol: RfidProtocol,
    pub transport: RfidTransport,
    pub status: DeviceStatus,
}

/// One tag observation, as streamed to clients.
#[derive(Debug, Clone)]
pub struct TagEvent {
    pub reader: String,
    pub epc: String,
    pub tid: Option<String>,
    pub rssi: Option<i16>,
    pub antenna: Option<u32>,
    pub ts: String,
}

/// Body of a tag-write request (accepted, not carried out).
#[derive(Debug, Clone)]
pub struct RfidWriteRequest {
    pub epc: String,
    pub data: Option<String>,
}

// ========================================================================
// Aggregate
// ========================================================================
/// The service configuration.
pub struct Config {
    pub port: u16,
    pub printers: NamedMap<PrinterConfig>,
    pub scales: NamedMap<ScaleConfig>,
    pub rfid: NamedMap<RfidConfig>,
}

impl Config {
    /// Every device map is well formed.
    pub open spec fn wf(&self) -> bool {
        &&& self.printers.wf()
        &&& self.scales.wf()
        &&& self.rfid.wf()
    }
}

impl Default for Config {
    fn default() -> (c: Config)
        ensures
            c.port == 0,
            c.wf(),
            c.printers.size() == 0,
            c.scales.size() == 0,
            c.rfid.size() == 0,
    {
        Config {
            port: 0,
            printers: NamedMap::new(),
            scales: NamedMap::new(),
            rfid: NamedMap::new(),
        }
    }
}

/// The port the configuration file falls back to when it names none.
pub fn default_port() -> (p: u16)
    ensures
        p == 3333,
{
    3333
}

/// The port to listen on: the configured one unless it is zero.
pub fn effective_port(config: &Config, fallback: u16) -> (p: u16)
    ensures
        p == (if config.port != 0 {
            config.port
        } else {
            fallback
        }),
{
    if config.port != 0 {
        config.port
    } else {
        fallback
    }
}

#[derive(Debug, Clone)]
pub struct DeviceInventory {
    pub printers: Vec<PrinterInfo>,
    pub scales: Vec<ScaleInfo>,
    pub rfid: Vec<RfidInfo>,
}

#[derive(Debug, Clone, Copy, PartialEq, Eq, Structural)]
pub struct SubsystemStatus {
    pub ok: bool,
    pub count: usize,
}

#[derive(Debug, Clone, Copy, PartialEq, Eq, Structural)]
pub struct SubsystemHealth {
    pub printers: SubsystemStatus,
    pub scales: SubsystemStatus,
    pub rfid: SubsystemStatus,
}

/// The health summary: every subsystem reports ok with the number of
/// configured devices.
pub fn subsystem_health(config: &Config) -> (h: SubsystemHealth)
    requires
        config.wf(),
    ensures
        h.printers == (SubsystemStatus { ok: true, count: config.printers.size() as usize }),
        h.scales == (SubsystemStatus { ok: true, count: config.scales.size() as usize }),
        h.rfid == (SubsystemStatus { ok: true, count: config.rfid.size() as usize }),
{
    SubsystemHealth {
        printers: SubsystemStatus { ok: true, count: config.printers.len() },
        scales: SubsystemStatus { ok: true, count: config.scales.len() },
        rfid: SubsystemStatus { ok: true, count: config.rfid.len() },
    }
}

/// Error body of the HTTP API.
#[derive(Debug, Clone)]
pub struct ApiError {
    pub error: String,
    pub message: String,
}

impl ApiError {
    pub fn new(error: String, message: String) -> (e: ApiError)
        ensures
            e.error == error,
            e.message == message,
    {
        ApiError { error, message }
    }
}

/// A HID device as seen by enumeration.
#[derive(Debug, Clone)]
pub struct HidDeviceSummary {
    pub vendor_id: u16,
    pub product_id: u16,
    pub usage_page: u16,
    pub manufacturer: Option<String>,
    pub product: Option<String>,
}

/// Settings of a serial port.
#[derive(Debug, Clone)]
pub struct SerialOptions {
    pub path: String,
    pub baud: u32,
}

} // verus!
