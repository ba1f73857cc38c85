//! Verified core of the POS device service: protocol encoders and decoders
//! for printers, scales and RFID readers, device discovery and request
//! planning.
pub mod text;
pub mod named_map;
pub mod types;
pub mod llrp;
pub mod discovery;
pub mod scales;
pub mod codec;
pub mod escpos;
pub mod zpl;
pub mod sbpl;
pub mod print;
pub mod rfid;
pub mod nci;
