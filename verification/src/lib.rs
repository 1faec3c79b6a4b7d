//! FSP, the File Storage Protocol: a binary request/response protocol for
//! listing, uploading, downloading and deleting files.
//!
//! Every message starts with a fixed header (magic `"FS"`, version, opcode or
//! status, lengths); all multi-byte integers are big-endian. This crate holds
//! the message types, their byte encodings and decodings, and the decisions a
//! client or server makes around them, each with a contract.
pub mod client;
pub mod display;
pub mod header;
pub mod properties;
pub mod request;
pub mod response;
pub mod server;
pub mod text;
pub mod transfer;
pub mod utils;
pub mod wire;
