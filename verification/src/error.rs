//! The error type of the library.

use vstd::prelude::*;
use crate::text::concat;

verus! {

/// Every failure the tool reports; each variant carries its message.
#[derive(Debug, Clone, PartialEq, Eq)]
pub enum TossError {
    Config(String),
    Device(String),
    Project(String),
    Xcrun(String),
    Signing(String),
    Io(String),
    Json(String),
    TomlDeserialize(String),
    TomlSerialize(String),
    UserCancelled(String),
}

/// The text shown for an error: a category prefix followed by the message.
pub open spec fn error_text(e: TossError) -> Seq<char> {
    match e {
        TossError::Config(m) => "config error: "@ + m@,
        TossError::Device(m) => "device error: "@ + m@,
        TossError::Project(m) => "project error: "@ + m@,
        TossError::Xcrun(m) => "xcrun failed: "@ + m@,
        TossError::Signing(m) => "signing error: "@ + m@,
        TossError::Io(m) => "io error: "@ + m@,
        TossError::Json(m) => "json parse error: "@ + m@,
        TossError::TomlDeserialize(m) => "toml parse error: "@ + m@,
        TossError::TomlSerialize(m) => "toml serialize error: "@ + m@,
        TossError::UserCancelled(m) => m@,
    }
}

impl TossError {
    /// The text of the error, as it is shown to the user.
    pub fn message(&self) -> (r: String)
        ensures
            r@ == error_text(*self),
    {
        match self {
            TossError::Config(m) => concat("config error: ", m.as_str()),
            TossError::Device(m) => concat("device error: ", m.as_str()),
            TossError::Project(m) => concat("project error: ", m.as_str()),
            TossError::Xcrun(m) => concat("xcrun failed: ", m.as_str()),
            TossError::Signing(m) => concat("signing error: ", m.as_str()),
            TossError::Io(m) => concat("io error: ", m.as_str()),
            TossError::Json(m) => concat("json parse error: ", m.as_str()),
            TossError::TomlDeserialize(m) => concat("toml parse error: ", m.as_str()),
            TossError::TomlSerialize(m) => concat("toml serialize error: ", m.as_str()),
            TossError::UserCancelled(m) => m.clone(),
        }
    }
}

} // verus!
