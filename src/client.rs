use crate::error::{unexpected_eof, PINEError, PINEResult};
use vstd::array::array_as_slice;
use vstd::bytes::*;
use vstd::prelude::*;
use vstd::slice::slice_subrange;

verus! {

/// The bytes in front of a response payload: the total length of the
/// response as a little-endian `u32`, then the status byte.
pub const RESPONSE_HEADER_LEN: usize = 5;

/// The total length that a response header declares, itself included.
pub open spec fn declared_len(header: Seq<u8>) -> u32 {
    spec_u32_from_le_bytes(header.subrange(0, 4))
}

/// Reads a response header and decides how the exchange goes on: a non-zero
/// status byte fails the batch, whatever the declared length; otherwise the
/// payload is the declared length less the header. A declared length shorter
/// than the header itself is a response that ended early.
pub fn parse_response_header(header: &[u8; 5]) -> (r: PINEResult<usize>)
    ensures
        header@[4] != 0 ==> r matches Err(PINEError::CommandFailure),
        header@[4] == 0 && declared_len(header@) >= 5 ==> r == Ok::<usize, PINEError>(
            (declared_len(header@) - 5) as usize,
        ),
        header@[4] == 0 && declared_len(header@) < 5 ==> r matches Err(PINEError::IO(_)),
{
    let bytes = array_as_slice(header);
    let size = u32_from_le_bytes(slice_subrange(bytes, 0, 4));
    if bytes[4] != 0 {
        return Err(PINEError::CommandFailure);
    }
    if size < 5 {
        return Err(PINEError::IO(unexpected_eof()));
    }
    Ok((size - 5) as usize)
}

/// A client of one emulator, over a connected byte stream.
///
/// Every exchange with the emulator takes the client by `&mut`, so it has the
/// stream to itself from the first byte written to the last byte read: two
/// callers that share a client (behind a `Mutex`, say) are served one whole
/// exchange after the other.
pub struct PINE<T> {
    stream: T,
}

impl<T> PINE<T> {
    /// The stream that the client talks over.
    pub closed spec fn stream(&self) -> T {
        self.stream
    }

    /// A client over a stream that is already connected to the emulator.
    pub fn from_stream(stream: T) -> (r: Self)
        ensures
            r.stream() == stream,
    {
        PINE { stream }
    }

    /// Gives the stream back.
    pub fn into_inner(self) -> (r: T)
        ensures
            r == self.stream(),
    {
        self.stream
    }

    /// The stream, for an exchange.
    pub fn stream_mut(&mut self) -> (r: &mut T)
        ensures
            *r == old(self).stream(),
    {
        &mut self.stream
    }
}

} // verus!
