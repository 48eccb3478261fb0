use vstd::prelude::*;

verus! {

/// Why a connection was abandoned.
#[derive(Debug, Clone, Copy, PartialEq, Eq, Structural)]
pub enum ServerError {
    /// An outgoing message could not be encoded.
    Serialize,
    /// Received bytes do not have the shape of the expected message.
    Deserialize,
    /// A read from or a write to the peer failed.
    Communication,
    /// A line was to be chosen from an empty corpus.
    DataSelectionError,
}

impl ServerError {
    /// The human-readable description of each kind.
    pub open spec fn description(self) -> Seq<char> {
        match self {
            ServerError::Serialize => "Serialization Error"@,
            ServerError::Deserialize => "Deserialization Error"@,
            ServerError::Communication => "Communication Error"@,
            ServerError::DataSelectionError => "Data Selection Error"@,
        }
    }

    /// Renders the error as text.
    pub fn message(&self) -> (text: String)
        ensures
            text@ == self.description(),
    {
        match self {
            ServerError::Serialize => String::from_str("Serialization Error"),
            ServerError::Deserialize => String::from_str("Deserialization Error"),
            ServerError::Communication => String::from_str("Communication Error"),
            ServerError::DataSelectionError => String::from_str("Data Selection Error"),
        }
    }
}

} // verus!
