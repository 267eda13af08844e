//! The failures that are reported to the host instead of being absorbed.

use vstd::prelude::*;

verus! {

/// A failure that stops a call and is handed back to the host.
#[derive(Clone, Copy, Debug, PartialEq, Eq, Structural)]
pub enum FatalError {
    /// The configuration could not be opened, read or parsed.
    ConfigFileRead,
    /// The entry at `index` of the configured program list does not decode
    /// to a program identifier.
    MalformedProgram { index: usize },
    /// The event arrived in the older wire format, which is not handled.
    UnsupportedVersion,
}

impl FatalError {
    /// The text that `message` returns for each failure.
    pub open spec fn message_text(self) -> Seq<char> {
        match self {
            FatalError::ConfigFileRead => "Error opening, or reading config file"@,
            FatalError::MalformedProgram { .. } => "Configured program is not a base58 identifier of 32 bytes"@,
            FatalError::UnsupportedVersion => "V1 not supported, please upgrade your Solana CLI Version"@,
        }
    }

    /// A description of the failure for the host's log.
    pub fn message(&self) -> (text: &'static str)
        ensures
            text@ == self.message_text(),
    {
        match self {
            FatalError::ConfigFileRead => "Error opening, or reading config file",
            FatalError::MalformedProgram { .. } => "Configured program is not a base58 identifier of 32 bytes",
            FatalError::UnsupportedVersion => "V1 not supported, please upgrade your Solana CLI Version",
        }
    }
}

} // verus!
