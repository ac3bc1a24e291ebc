//! Decoding of raw Ethernet frames into one-line, optionally colored summaries,
//! with the protocol, port and address filters of a packet sniffer.

pub mod capture;
pub mod color;
pub mod filters;
pub mod frame;
pub mod parser;
pub mod text;
