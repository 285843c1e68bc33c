//! What can go wrong, and how it is reported.

use vstd::prelude::*;
use vstd::string::StringExecFns;

verus! {

/// A failure of the backend. Each kind but the first carries the detail that
/// the failing collaborator reported.
#[derive(Debug)]
pub enum Error {
    /// The per-user configuration directory could not be found.
    AppDir,
    /// The configuration file could not be read or written.
    Io(String),
    /// The request could not be sent, or the response could not be read to
    /// its end.
    Request(String),
    /// The configuration file does not hold a configuration.
    Serde(String),
    /// The server did not report success for a model pull; carries the
    /// status it reported instead.
    ModelPull(String),
}

impl Error {
    /// The text that [`Error::message`] returns.
    pub open spec fn message_spec(self) -> Seq<char> {
        match self {
            Error::AppDir => "Failed to get app directory"@,
            Error::Io(detail) => "Failed to read config file: "@ + detail@,
            Error::Request(detail) => "Failed to send request: "@ + detail@,
            Error::Serde(detail) => "Failed to parse config file: "@ + detail@,
            Error::ModelPull(status) => "Failed to pull model: "@ + status@,
        }
    }

    /// The one human-readable line under which the failure reaches the user.
    pub fn message(&self) -> (r: String)
        ensures
            r@ == self.message_spec(),
    {
        match self {
            Error::AppDir => String::from_str("Failed to get app directory"),
            Error::Io(detail) => String::from_str("Failed to read config file: ").concat(
                detail.as_str(),
            ),
            Error::Request(detail) => String::from_str("Failed to send request: ").concat(
                detail.as_str(),
            ),
            Error::Serde(detail) => String::from_str("Failed to parse config file: ").concat(
                detail.as_str(),
            ),
            Error::ModelPull(status) => String::from_str("Failed to pull model: ").concat(
                status.as_str(),
            ),
        }
    }
}

} // verus!
