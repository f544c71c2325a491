//! Wire-protocol engine for a length-framed request/response database
//! protocol: field codec, frame codec, handshake negotiation, typed request
//! encoding, typed response decoding, and request-id allocation.
//!
//! Every byte layout here (field order, widths, little-endian encoding,
//! string framing, variable-length column metadata) is stated as a spec
//! function and the executable encoders and decoders are verified against it.

pub mod len;
pub mod op_const;
pub mod wire;
pub mod frame;
pub mod protocol;
pub mod session;
