use vstd::prelude::*;

verus! {

/// Why a message could not be decoded, or a query could not be completed.
#[derive(Debug, Copy, Clone, PartialEq, Eq, Structural)]
pub enum Error {
    /// A numeric code outside the values a closed field allows.
    OutOfRange,
    /// The bytes do not have the structure of a DNS message.
    FormatError,
    /// The exchange with the server failed or was cut short.
    TransportError,
}

impl Error {
    /// A short human-readable description.
    pub fn describe(&self) -> (r: &'static str)
    {
        match self {
            Error::OutOfRange => "Out of range",
            Error::FormatError => "Format error",
            Error::TransportError => "Transport error",
        }
    }
}

} // verus!
