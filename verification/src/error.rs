use vstd::prelude::*;
use vstd::std_specs::convert::FromSpecImpl;

verus! {

/// `std::io::Error`, carried as it comes; nothing of it is known.
#[verifier::external_type_specification]
#[verifier::external_body]
pub struct ExIoError(std::io::Error);

/// `std::str::Utf8Error`, carried as it comes; nothing of it is known.
#[verifier::external_type_specification]
#[verifier::external_body]
pub struct ExUtf8Error(std::str::Utf8Error);

/// `serde_json::Error`, carried as it comes; nothing of it is known.
#[verifier::external_type_specification]
#[verifier::external_body]
pub struct ExJsonError(serde_json::Error);

pub type Result<T> = std::result::Result<T, MinecraftError>;

/// Why a variable-length integer could not be decoded.
#[derive(Debug, Clone, Copy, PartialEq, Eq, Structural)]
pub enum VarIntError {
    /// The bytes ran out before a byte without the continuation bit was seen.
    /// More input may complete the value.
    Incomplete,
    /// Five bytes in a row carry the continuation bit: no 32-bit value is that long.
    Oversized,
}

/// The kinds of failure, without the detail that an error value carries.
#[derive(Debug, Clone, Copy, PartialEq, Eq, Structural)]
pub enum ErrorKind {
    Io,
    Utf8Decode,
    VarIntIncomplete,
    VarIntOversized,
    BufferUnderrun,
    Protocol,
    CatalogParse,
}

/// All that can go wrong on a connection or while the server starts.
#[derive(Debug)]
pub enum MinecraftError {
    /// A socket read or write failed.
    Io(std::io::Error),
    /// A string field does not hold UTF-8.
    Utf8(std::str::Utf8Error),
    /// A variable-length integer is cut short or too long.
    VarInt(VarIntError),
    /// A field claims more bytes than the payload holds.
    BufferUnderrun(String),
    /// A value is well-formed but has no meaning in the protocol.
    Protocol(String),
    /// A static data document could not be read.
    Json(serde_json::Error),
}

impl VarIntError {
    /// The kind of failure that this is.
    pub open spec fn kind(self) -> ErrorKind {
        match self {
            VarIntError::Incomplete => ErrorKind::VarIntIncomplete,
            VarIntError::Oversized => ErrorKind::VarIntOversized,
        }
    }
}

impl MinecraftError {
    /// The kind of this error.
    pub open spec fn spec_kind(&self) -> ErrorKind {
        match self {
            MinecraftError::Io(_) => ErrorKind::Io,
            MinecraftError::Utf8(_) => ErrorKind::Utf8Decode,
            MinecraftError::VarInt(e) => e.kind(),
            MinecraftError::BufferUnderrun(_) => ErrorKind::BufferUnderrun,
            MinecraftError::Protocol(_) => ErrorKind::Protocol,
            MinecraftError::Json(_) => ErrorKind::CatalogParse,
        }
    }

    /// The kind of this error.
    #[verifier::when_used_as_spec(spec_kind)]
    pub fn kind(&self) -> (k: ErrorKind)
        ensures
            k == self.spec_kind(),
    {
        match self {
            MinecraftError::Io(_) => ErrorKind::Io,
            MinecraftError::Utf8(_) => ErrorKind::Utf8Decode,
            MinecraftError::VarInt(VarIntError::Incomplete) => ErrorKind::VarIntIncomplete,
            MinecraftError::VarInt(VarIntError::Oversized) => ErrorKind::VarIntOversized,
            MinecraftError::BufferUnderrun(_) => ErrorKind::BufferUnderrun,
            MinecraftError::Protocol(_) => ErrorKind::Protocol,
            MinecraftError::Json(_) => ErrorKind::CatalogParse,
        }
    }
}

impl From<std::io::Error> for MinecraftError {
    fn from(e: std::io::Error) -> (r: MinecraftError) {
        MinecraftError::Io(e)
    }
}

impl FromSpecImpl<std::io::Error> for MinecraftError {
    open spec fn obeys_from_spec() -> bool {
        true
    }

    open spec fn from_spec(e: std::io::Error) -> MinecraftError {
        MinecraftError::Io(e)
    }
}

impl From<std::str::Utf8Error> for MinecraftError {
    fn from(e: std::str::Utf8Error) -> (r: MinecraftError) {
        MinecraftError::Utf8(e)
    }
}

impl FromSpecImpl<std::str::Utf8Error> for MinecraftError {
    open spec fn obeys_from_spec() -> bool {
        true
    }

    open spec fn from_spec(e: std::str::Utf8Error) -> MinecraftError {
        MinecraftError::Utf8(e)
    }
}

impl From<serde_json::Error> for MinecraftError {
    fn from(e: serde_json::Error) -> (r: MinecraftError) {
        MinecraftError::Json(e)
    }
}

impl FromSpecImpl<serde_json::Error> for MinecraftError {
    open spec fn obeys_from_spec() -> bool {
        true
    }

    open spec fn from_spec(e: serde_json::Error) -> MinecraftError {
        MinecraftError::Json(e)
    }
}

} // verus!
