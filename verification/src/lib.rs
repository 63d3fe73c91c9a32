//! Decoder for the length-prefixed, command-oriented wire protocol spoken between
//! an Iggy client and server: frame reassembly from a fragmented byte stream,
//! per-command payload decoding, and pairing of responses with requests.

pub mod catalog;
pub mod correlator;
pub mod dissector;
pub mod encoding;
pub mod fault;
pub mod frame;
pub mod message;
pub mod packet;
pub mod payload;
pub mod status;
pub mod text;
pub mod wire;
