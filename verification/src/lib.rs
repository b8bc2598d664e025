//! A minimal length-prefixed binary wire protocol: framed request decoding,
//! typed response encoding, and dispatch for a small log-broker protocol
//! subset (capability discovery and topic description).

use vstd::prelude::*;

pub mod dispatch;
pub mod request;
pub mod response;
pub mod wire;

verus! {

/// Why a frame could not be decoded or a response could not be encoded.
#[derive(Debug, Clone, Copy, PartialEq, Eq, Structural)]
pub enum ProtocolError {
    /// The buffer ended before a field it declares.
    Truncated,
    /// The common request header (or a length-prefixed field) cannot be parsed.
    MalformedHeader,
    /// The api_key names no supported operation; the frame is skipped.
    UnsupportedApi,
    /// A collection is too long for its one-byte count encoding.
    EncodingOverflow,
}

} // verus!
