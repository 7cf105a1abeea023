//! The library's error type.
use crate::bytes::ParseFail;
use vstd::prelude::*;

verus! {

broadcast use vstd::string::group_string_axioms;

/// What can go wrong while loading a model or its textures.
#[derive(Debug)]
pub enum MdlError {
    Io(String),
    Parse(String),
    TextureDecode(String),
    Network(String),
    NotFound(String),
    InvalidFormat(String),
}

/// The text that describes an error: a prefix naming its kind, then its message.
pub open spec fn describe(e: MdlError) -> Seq<char> {
    match e {
        MdlError::Io(m) => "IO error: "@ + m@,
        MdlError::Parse(m) => "Parse error: "@ + m@,
        MdlError::TextureDecode(m) => "Texture decode error: "@ + m@,
        MdlError::Network(m) => "Network error: "@ + m@,
        MdlError::NotFound(m) => "Not found: "@ + m@,
        MdlError::InvalidFormat(m) => "Invalid format: "@ + m@,
    }
}

/// The message of a read that ran out of data.
pub open spec fn truncated_message() -> Seq<char> {
    "failed to fill whole buffer"@
}

/// The error that a failed read of a model file is reported as: running out
/// of data is an I/O error, the other failures are an invalid format.
pub open spec fn reported_as(e: MdlError, f: ParseFail) -> bool {
    match f {
        ParseFail::Truncated => e matches MdlError::Io(m) && m@ == truncated_message(),
        ParseFail::SizeOverflow => e matches MdlError::InvalidFormat(m) && m@ == "size overflow"@,
        ParseFail::Stalled => e matches MdlError::InvalidFormat(m) && m@
            == "record of zero size"@,
    }
}

impl MdlError {
    /// The text that describes the error (see [`describe`]).
    pub fn describe(&self) -> (r: String)
        ensures
            r@ == describe(*self),
    {
        match self {
            MdlError::Io(m) => "IO error: ".to_string().concat(m.as_str()),
            MdlError::Parse(m) => "Parse error: ".to_string().concat(m.as_str()),
            MdlError::TextureDecode(m) => "Texture decode error: ".to_string().concat(m.as_str()),
            MdlError::Network(m) => "Network error: ".to_string().concat(m.as_str()),
            MdlError::NotFound(m) => "Not found: ".to_string().concat(m.as_str()),
            MdlError::InvalidFormat(m) => "Invalid format: ".to_string().concat(m.as_str()),
        }
    }

    /// The error that a failed read of a model file is reported as.
    pub fn from_parse_fail(f: ParseFail) -> (r: MdlError)
        ensures
            reported_as(r, f),
    {
        match f {
            ParseFail::Truncated => MdlError::Io("failed to fill whole buffer".to_string()),
            ParseFail::SizeOverflow => MdlError::InvalidFormat("size overflow".to_string()),
            ParseFail::Stalled => MdlError::InvalidFormat("record of zero size".to_string()),
        }
    }
}

impl From<String> for MdlError {
    fn from(s: String) -> (r: MdlError) {
        MdlError::Parse(s)
    }
}

impl vstd::std_specs::convert::FromSpecImpl<String> for MdlError {
    open spec fn obeys_from_spec() -> bool {
        true
    }

    open spec fn from_spec(s: String) -> MdlError {
        MdlError::Parse(s)
    }
}

} // verus!
