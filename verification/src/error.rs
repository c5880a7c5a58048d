use vstd::prelude::*;

verus! {

/// Why a derivation produced no identifier: either the machine-id file could
/// not be read, or its contents are not a well-formed 128-bit identifier.
#[derive(Debug, Clone, PartialEq, Eq)]
pub enum Error {
    /// The machine-id file could not be read. Holds the underlying I/O
    /// cause, rendered as text by the caller that performed the read.
    Io(String),
    /// The machine-id file's trimmed contents do not parse as a 128-bit
    /// identifier.
    InvalidId,
}

impl Error {
    /// The user-visible description of this error. Both variants name the
    /// fixed machine-id path; a read failure also carries its cause.
    pub open spec fn message_spec(&self) -> Seq<char> {
        match self {
            Error::Io(cause) => "Could not read /etc/machine-id: "@ + cause@,
            Error::InvalidId => (
                "The machine ID in /etc/machine-id does not match the format described in machine-id(5)"@
            ),
        }
    }

    /// Render the user-visible description of this error.
    pub fn message(&self) -> (r: String)
        ensures
            r@ == self.message_spec(),
    {
        match self {
            Error::Io(cause) => "Could not read /etc/machine-id: ".to_owned().concat(
                cause.as_str(),
            ),
            Error::InvalidId => (
                "The machine ID in /etc/machine-id does not match the format described in machine-id(5)".to_owned()
            ),
        }
    }
}

} // verus!
