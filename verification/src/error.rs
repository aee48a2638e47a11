//! The ways a request can fail, and the HTTP status each one is answered with.

use vstd::prelude::*;

verus! {

/// Why a request was not served.
#[derive(Clone, Copy, Debug, PartialEq, Eq, Structural)]
pub enum LogError {
    /// The identifier in the path is not 24 hexadecimal characters.
    InvalidIdentifier,
    /// A field that an insert needs is empty.
    ValidationError,
    /// The identifier is well formed but no entry carries it.
    NotFound,
    /// The store could not be reached or did not complete the operation.
    StoreUnavailable,
}

impl LogError {
    /// The HTTP status that reports this failure.
    pub open spec fn spec_status(self) -> u16 {
        match self {
            LogError::InvalidIdentifier => 400,
            LogError::ValidationError => 400,
            LogError::NotFound => 404,
            LogError::StoreUnavailable => 500,
        }
    }

    /// True for the failures the client caused, false for the store's.
    pub open spec fn spec_is_client_error(self) -> bool {
        self != LogError::StoreUnavailable
    }

    /// The HTTP status that reports this failure.
    pub fn status(&self) -> (code: u16)
        ensures
            code == self.spec_status(),
            self.spec_is_client_error() <==> 400 <= code < 500,
    {
        match self {
            LogError::InvalidIdentifier => 400,
            LogError::ValidationError => 400,
            LogError::NotFound => 404,
            LogError::StoreUnavailable => 500,
        }
    }

    /// True for the failures the client caused, false for the store's.
    pub fn is_client_error(&self) -> (client: bool)
        ensures
            client == self.spec_is_client_error(),
    {
        match self {
            LogError::StoreUnavailable => false,
            _ => true,
        }
    }
}

} // verus!
