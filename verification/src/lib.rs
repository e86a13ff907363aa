//! The binary format in which the dust-devil SOCKS5 server sends its log
//! events: how each value is written to a byte buffer and read back from
//! one, with each writer and reader proved against a model of the format.
pub mod wire;
pub mod text;
pub mod net;
pub mod io_error;
pub mod users;
pub mod socks5;
pub mod logging;
pub mod laws;
pub mod format;
pub mod event_format;
pub mod truncation;
