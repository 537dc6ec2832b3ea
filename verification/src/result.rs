//! Error types that can be emitted from this library.

use vstd::prelude::*;

verus! {

/// An I/O failure reported by the standard library, carried through unchanged.
#[verifier::external_type_specification]
#[verifier::external_body]
pub struct ExIoError(std::io::Error);

/// Error type for ZIP archives.
#[derive(Debug)]
pub enum ZipError {
    /// An error caused by reading or writing bytes.
    Io(std::io::Error),
    /// The archive violates the format; the message says how.
    InvalidArchive(&'static str),
    /// The archive is sound but uses a feature that is rejected by design.
    UnsupportedArchive(&'static str),
    /// The requested entry does not exist in the archive.
    FileNotFound,
    /// The checksum of the bytes read differs from the stored one.
    Crc32Mismatch { expected: u32, actual: u32 },
}

/// What an error says, without the cause that an I/O error carries.
pub enum Fault {
    Io,
    InvalidArchive(Seq<char>),
    UnsupportedArchive(Seq<char>),
    FileNotFound,
    Crc32Mismatch { expected: u32, actual: u32 },
}

impl View for ZipError {
    type V = Fault;

    open spec fn view(&self) -> Fault {
        match self {
            ZipError::Io(_) => Fault::Io,
            ZipError::InvalidArchive(m) => Fault::InvalidArchive(m@),
            ZipError::UnsupportedArchive(m) => Fault::UnsupportedArchive(m@),
            ZipError::FileNotFound => Fault::FileNotFound,
            ZipError::Crc32Mismatch { expected, actual } => Fault::Crc32Mismatch {
                expected: *expected,
                actual: *actual,
            },
        }
    }
}

/// Makes the error of a read that met the end of its source, with
/// `std::io::Error::from` on `ErrorKind::UnexpectedEof`.
#[verifier::external_body]
pub(crate) fn unexpected_eof() -> std::io::Error {
    std::io::Error::from(std::io::ErrorKind::UnexpectedEof)
}

/// Makes an I/O error of the kind `Other` with a message, with `std::io::Error::new`.
#[verifier::external_body]
pub(crate) fn io_other(message: &'static str) -> std::io::Error {
    std::io::Error::new(std::io::ErrorKind::Other, message)
}

/// An I/O error that this library reports itself, with a message.
pub fn other_error(message: &'static str) -> (e: ZipError)
    ensures
        e@ == Fault::Io,
{
    ZipError::Io(io_other(message))
}

/// The error of a read that met the end of its source.
pub fn truncated() -> (e: ZipError)
    ensures
        e@ == Fault::Io,
{
    ZipError::Io(unexpected_eof())
}

/// Generic result type with `ZipError` as its error variant.
pub type ZipResult<T> = Result<T, ZipError>;

/// The text of the error returned when an encrypted entry is opened without a password.
pub const PASSWORD_REQUIRED: &'static str = "Password required to decrypt file";

/// The password given for an encrypted entry did not pass validation.
#[derive(Debug, Clone, Copy, PartialEq, Eq, Structural)]
pub struct InvalidPassword;

/// The inclusive bounds that a date or time component has to lie in.
#[derive(Debug, Clone, Copy, PartialEq, Eq, Structural)]
pub struct ComponentBounds {
    pub min: u16,
    pub max: u16,
}

/// Error type for a date or time component outside its bounds.
#[derive(Debug, Clone, Copy, PartialEq, Eq, Structural)]
pub enum DateTimeRangeError {
    /// The year is outside [1980, 2107].
    InvalidYear(u16, ComponentBounds),
    /// The month is outside [1, 12].
    InvalidMonth(u8, ComponentBounds),
    /// The day is outside [1, 31].
    InvalidDay(u8, ComponentBounds),
    /// The hour is outside [0, 23].
    InvalidHour(u8, ComponentBounds),
    /// The minute is outside [0, 59].
    InvalidMinute(u8, ComponentBounds),
    /// The second is outside [0, 60].
    InvalidSecond(u8, ComponentBounds),
    /// The year of a foreign timestamp, given here, does not fit in 16 bits.
    NumericConversion(i32),
}

impl ZipError {
    /// True exactly for the errors that report a failed read or write.
    pub fn is_io(&self) -> (r: bool)
        ensures
            r == (self is Io),
    {
        match self {
            ZipError::Io(_) => true,
            _ => false,
        }
    }

    /// The message carried by a structural or feature error; empty for the other variants.
    pub fn detail(&self) -> (r: &'static str)
        ensures
            r@ == self.spec_detail(),
    {
        match self {
            ZipError::InvalidArchive(m) => m,
            ZipError::UnsupportedArchive(m) => m,
            _ => "",
        }
    }

    pub open spec fn spec_detail(&self) -> Seq<char> {
        match self {
            ZipError::InvalidArchive(m) => m@,
            ZipError::UnsupportedArchive(m) => m@,
            _ => ""@,
        }
    }
}

} // verus!
