use vstd::prelude::*;

verus! {

/// Failures while locating or fetching the remote image.
#[derive(Debug, Clone, Copy, PartialEq, Eq, Structural)]
pub enum FetchError {
    /// Transport failure or a non-success status.
    Network,
    /// The API response body is not JSON.
    InvalidResponse,
    /// The response has no string at `data[0].media_url`.
    MissingField,
    /// The fetched bytes are not a recognised image.
    DecodeError,
}

/// Failures while compositing.
#[derive(Debug, Clone, Copy, PartialEq, Eq, Structural)]
pub enum CompositeError {
    /// The font data could not be loaded.
    FontUnavailable,
}

} // verus!
