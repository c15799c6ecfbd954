use vstd::prelude::*;
use vstd::utf8::*;

verus! {

/// `std::io::Error`, carried through unread in [`PINEError::IO`].
#[verifier::external_type_specification]
#[verifier::external_body]
pub struct ExIoError(std::io::Error);

/// `std::str::Utf8Error`, carried through unread in [`PINEError::UTF8`].
#[verifier::external_type_specification]
#[verifier::external_body]
pub struct ExUtf8Error(std::str::Utf8Error);

/// `std::path::PathBuf`, carried through unread in [`PINEError::UnixSocket`].
#[verifier::external_type_specification]
#[verifier::external_body]
pub struct ExPathBuf(std::path::PathBuf);

/// Every way an exchange with the emulator can fail.
#[derive(Debug)]
pub enum PINEError {
    /// Reading or writing the stream failed, or a response ended early.
    IO(std::io::Error),
    /// A string in a response is not valid UTF-8.
    UTF8(std::str::Utf8Error),
    /// The emulator answered the batch with a non-zero status byte.
    CommandFailure,
    /// The host has no known runtime directory for the socket.
    UnsupportedOS,
    /// The Unix socket of the emulator does not exist.
    UnixSocket(std::path::PathBuf),
}

pub type PINEResult<T> = Result<T, PINEError>;

impl From<std::io::Error> for PINEError {
    fn from(e: std::io::Error) -> (r: PINEError)
        ensures
            r == PINEError::IO(e),
    {
        PINEError::IO(e)
    }
}

impl vstd::std_specs::convert::FromSpecImpl<std::io::Error> for PINEError {
    open spec fn obeys_from_spec() -> bool {
        true
    }

    open spec fn from_spec(e: std::io::Error) -> PINEError {
        PINEError::IO(e)
    }
}

impl From<std::str::Utf8Error> for PINEError {
    fn from(e: std::str::Utf8Error) -> (r: PINEError)
        ensures
            r == PINEError::UTF8(e),
    {
        PINEError::UTF8(e)
    }
}

impl vstd::std_specs::convert::FromSpecImpl<std::str::Utf8Error> for PINEError {
    open spec fn obeys_from_spec() -> bool {
        true
    }

    open spec fn from_spec(e: std::str::Utf8Error) -> PINEError {
        PINEError::UTF8(e)
    }
}

/// Relies on `std::io::Error::from(ErrorKind)`: builds the error that a read
/// past the end of the data reports.
#[verifier::external_body]
pub(crate) fn unexpected_eof() -> std::io::Error {
    std::io::Error::from(std::io::ErrorKind::UnexpectedEof)
}

/// Relies on `std::str::from_utf8`: succeeds exactly on valid UTF-8, and then
/// hands back the text that the bytes encode.
#[verifier::external_body]
pub(crate) fn str_from_utf8(bytes: &[u8]) -> (r: Result<&str, std::str::Utf8Error>)
    ensures
        match r {
            Ok(s) => valid_utf8(bytes@) && s@ == decode_utf8(bytes@),
            Err(_) => !valid_utf8(bytes@),
        },
{
    std::str::from_utf8(bytes)
}

} // verus!
