//! The error kinds a search operation can surface.

use vstd::prelude::*;

verus! {

/// Why one search operation failed. A query-level failure reported by
/// the API itself is not an error value: it appears as
/// `Data::error_code` inside a decoded response.
#[derive(Clone, Debug, PartialEq)]
pub enum QwantError {
    /// An input was rejected at the client boundary (an empty search
    /// term, or a page offset that cannot advance further).
    InvalidArgument,
    /// The HTTP round trip failed; carries the transport's own message.
    TransportError(String),
    /// The response body was not a JSON document of the expected shape.
    DecodeError,
}

} // verus!
