use crate::command::{status_of, PINECommand, PINEResponse, PINEStatus, ResponseValue};
use crate::error::{str_from_utf8, unexpected_eof, PINEError, PINEResult};
use vstd::bytes::*;
use vstd::prelude::*;
use vstd::slice::slice_subrange;
use vstd::string::StrSliceExecFns;
use vstd::utf8::*;

verus! {

/// Why a response payload does not decode.
pub enum DecodeFailure {
    /// The payload ends before the field that a command asks for.
    Truncated,
    /// A string field is not valid UTF-8.
    InvalidUtf8,
}

/// A string field without its final character, the null terminator.
pub open spec fn strip_terminator(s: Seq<char>) -> Seq<char> {
    if s.len() == 0 {
        s
    } else {
        s.drop_last()
    }
}

/// The string field at the front of `bytes`, with the number of bytes it
/// takes: a little-endian `u32` length, then that many bytes of UTF-8 text.
pub open spec fn parse_string(bytes: Seq<u8>) -> Result<(Seq<char>, nat), DecodeFailure> {
    if bytes.len() < 4 {
        Err(DecodeFailure::Truncated)
    } else {
        let n = spec_u32_from_le_bytes(bytes.subrange(0, 4)) as int;
        if bytes.len() < 4 + n {
            Err(DecodeFailure::Truncated)
        } else if !valid_utf8(bytes.subrange(4, 4 + n)) {
            Err(DecodeFailure::InvalidUtf8)
        } else {
            Ok((strip_terminator(decode_utf8(bytes.subrange(4, 4 + n))), (4 + n) as nat))
        }
    }
}

/// A fixed-width field of `width` bytes at the front of `bytes`, mapped to a
/// value by `f`.
pub open spec fn parse_fixed(
    bytes: Seq<u8>,
    width: nat,
    f: spec_fn(Seq<u8>) -> ResponseValue,
) -> Result<(ResponseValue, nat), DecodeFailure> {
    if bytes.len() < width {
        Err(DecodeFailure::Truncated)
    } else {
        Ok((f(bytes.subrange(0, width as int)), width))
    }
}

/// A string field at the front of `bytes`, mapped to a value by `f`.
pub open spec fn parse_text(
    bytes: Seq<u8>,
    f: spec_fn(Seq<char>) -> ResponseValue,
) -> Result<(ResponseValue, nat), DecodeFailure> {
    match parse_string(bytes) {
        Ok((s, n)) => Ok((f(s), n)),
        Err(e) => Err(e),
    }
}

/// The response to `cmd` at the front of `bytes`, with the number of bytes
/// it takes.
pub open spec fn parse_response(cmd: PINECommand, bytes: Seq<u8>) -> Result<
    (ResponseValue, nat),
    DecodeFailure,
> {
    match cmd {
        PINECommand::MsgRead8 { .. } => parse_fixed(bytes, 1, |b: Seq<u8>| ResponseValue::Read8(b[0])),
        PINECommand::MsgRead16 { .. } => parse_fixed(
            bytes,
            2,
            |b: Seq<u8>| ResponseValue::Read16(spec_u16_from_le_bytes(b)),
        ),
        PINECommand::MsgRead32 { .. } => parse_fixed(
            bytes,
            4,
            |b: Seq<u8>| ResponseValue::Read32(spec_u32_from_le_bytes(b)),
        ),
        PINECommand::MsgRead64 { .. } => parse_fixed(
            bytes,
            8,
            |b: Seq<u8>| ResponseValue::Read64(spec_u64_from_le_bytes(b)),
        ),
        PINECommand::MsgWrite8 { .. } => Ok((ResponseValue::Write8, 0)),
        PINECommand::MsgWrite16 { .. } => Ok((ResponseValue::Write16, 0)),
        PINECommand::MsgWrite32 { .. } => Ok((ResponseValue::Write32, 0)),
        PINECommand::MsgWrite64 { .. } => Ok((ResponseValue::Write64, 0)),
        PINECommand::MsgVersion => parse_text(bytes, |s: Seq<char>| ResponseValue::Version(s)),
        PINECommand::MsgSaveState { .. } => Ok((ResponseValue::SaveState, 0)),
        PINECommand::MsgLoadState { .. } => Ok((ResponseValue::LoadState, 0)),
        PINECommand::MsgTitle => parse_text(bytes, |s: Seq<char>| ResponseValue::Title(s)),
        PINECommand::MsgID => parse_text(bytes, |s: Seq<char>| ResponseValue::Id(s)),
        PINECommand::MsgUUID => parse_text(bytes, |s: Seq<char>| ResponseValue::Uuid(s)),
        PINECommand::MsgGameVersion => parse_text(
            bytes,
            |s: Seq<char>| ResponseValue::GameVersion(s),
        ),
        PINECommand::MsgStatus => parse_fixed(
            bytes,
            4,
            |b: Seq<u8>| ResponseValue::Status(status_of(spec_u32_from_le_bytes(b))),
        ),
        PINECommand::MsgUnimplemented => Ok((ResponseValue::Unimplemented, 0)),
    }
}

/// The responses to `cmds`, decoded in order from the front of `bytes`; bytes
/// left over after the last response are ignored.
pub open spec fn parse_responses(cmds: Seq<PINECommand>, bytes: Seq<u8>) -> Result<
    Seq<ResponseValue>,
    DecodeFailure,
>
    decreases cmds.len(),
{
    if cmds.len() == 0 {
        Ok(Seq::empty())
    } else {
        match parse_response(cmds[0], bytes) {
            Err(e) => Err(e),
            Ok((v, n)) => match parse_responses(cmds.drop_first(), bytes.skip(n as int)) {
                Ok(rest) => Ok(seq![v] + rest),
                Err(e) => Err(e),
            },
        }
    }
}

/// `r` is what the library returns for the decoding outcome `outcome`.
pub open spec fn reports(
    r: PINEResult<Vec<PINEResponse>>,
    outcome: Result<Seq<ResponseValue>, DecodeFailure>,
) -> bool {
    match (r, outcome) {
        (Ok(v), Ok(values)) => v@.map_values(|x: PINEResponse| x@) == values,
        (Err(PINEError::IO(_)), Err(DecodeFailure::Truncated)) => true,
        (Err(PINEError::UTF8(_)), Err(DecodeFailure::InvalidUtf8)) => true,
        _ => false,
    }
}

fn read_u8(buf: &[u8], pos: &mut usize) -> (r: PINEResult<u8>)
    requires
        *old(pos) <= buf@.len(),
    ensures
        match r {
            Ok(v) => *old(pos) + 1 <= buf@.len() && v == buf@[*old(pos) as int] && *final(pos)
                == *old(pos) + 1,
            Err(e) => *old(pos) + 1 > buf@.len() && e is IO && *final(pos) == *old(pos),
        },
{
    if buf.len() - *pos < 1 {
        return Err(PINEError::IO(unexpected_eof()));
    }
    let v = buf[*pos];
    *pos = *pos + 1;
    Ok(v)
}

fn read_u16(buf: &[u8], pos: &mut usize) -> (r: PINEResult<u16>)
    requires
        *old(pos) <= buf@.len(),
    ensures
        match r {
            Ok(v) => *old(pos) + 2 <= buf@.len() && v == spec_u16_from_le_bytes(
                buf@.subrange(*old(pos) as int, *old(pos) + 2),
            ) && *final(pos) == *old(pos) + 2,
            Err(e) => *old(pos) + 2 > buf@.len() && e is IO && *final(pos) == *old(pos),
        },
{
    if buf.len() - *pos < 2 {
        return Err(PINEError::IO(unexpected_eof()));
    }
    let v = u16_from_le_bytes(slice_subrange(buf, *pos, *pos + 2));
    *pos = *pos + 2;
    Ok(v)
}

fn read_u32(buf: &[u8], pos: &mut usize) -> (r: PINEResult<u32>)
    requires
        *old(pos) <= buf@.len(),
    ensures
        match r {
            Ok(v) => *old(pos) + 4 <= buf@.len() && v == spec_u32_from_le_bytes(
                buf@.subrange(*old(pos) as int, *old(pos) + 4),
            ) && *final(pos) == *old(pos) + 4,
            Err(e) => *old(pos) + 4 > buf@.len() && e is IO && *final(pos) == *old(pos),
        },
{
    if buf.len() - *pos < 4 {
        return Err(PINEError::IO(unexpected_eof()));
    }
    let v = u32_from_le_bytes(slice_subrange(buf, *pos, *pos + 4));
    *pos = *pos + 4;
    Ok(v)
}

fn read_u64(buf: &[u8], pos: &mut usize) -> (r: PINEResult<u64>)
    requires
        *old(pos) <= buf@.len(),
    ensures
        match r {
            Ok(v) => *old(pos) + 8 <= buf@.len() && v == spec_u64_from_le_bytes(
                buf@.subrange(*old(pos) as int, *old(pos) + 8),
            ) && *final(pos) == *old(pos) + 8,
            Err(e) => *old(pos) + 8 > buf@.len() && e is IO && *final(pos) == *old(pos),
        },
{
    if buf.len() - *pos < 8 {
        return Err(PINEError::IO(unexpected_eof()));
    }
    let v = u64_from_le_bytes(slice_subrange(buf, *pos, *pos + 8));
    *pos = *pos + 8;
    Ok(v)
}

fn read_string(buf: &[u8], pos: &mut usize) -> (r: PINEResult<String>)
    requires
        *old(pos) <= buf@.len(),
    ensures
        *final(pos) <= buf@.len(),
        match (r, parse_string(buf@.skip(*old(pos) as int))) {
            (Ok(s), Ok((chars, n))) => s@ == chars && *final(pos) == *old(pos) + n,
            (Err(PINEError::IO(_)), Err(DecodeFailure::Truncated)) => true,
            (Err(PINEError::UTF8(_)), Err(DecodeFailure::InvalidUtf8)) => true,
            _ => false,
        },
{
    let ghost rest = buf@.skip(*pos as int);
    let start = *pos;
    let size = match read_u32(buf, pos) {
        Ok(size) => size,
        Err(e) => return Err(e),
    };
    assert(rest.subrange(0, 4) == buf@.subrange(start as int, start + 4));
    let n = size as usize;
    if buf.len() - *pos < n {
        *pos = start;
        return Err(PINEError::IO(unexpected_eof()));
    }
    let bytes = slice_subrange(buf, *pos, *pos + n);
    assert(bytes@ == rest.subrange(4, 4 + n));
    match str_from_utf8(bytes) {
        Err(e) => {
            *pos = start;
            Err(PINEError::UTF8(e))
        },
        Ok(s) => {
            let len = s.unicode_len();
            let text = if len == 0 {
                s
            } else {
                s.substring_char(0, len - 1)
            };
            assert(text@ == strip_terminator(s@));
            *pos = *pos + n;
            Ok(text.to_owned())
        },
    }
}

fn read_response(cmd: &PINECommand, buf: &[u8], pos: &mut usize) -> (r: PINEResult<PINEResponse>)
    requires
        *old(pos) <= buf@.len(),
    ensures
        *final(pos) <= buf@.len(),
        match (r, parse_response(*cmd, buf@.skip(*old(pos) as int))) {
            (Ok(resp), Ok((v, n))) => resp@ == v && *final(pos) == *old(pos) + n,
            (Err(PINEError::IO(_)), Err(DecodeFailure::Truncated)) => true,
            (Err(PINEError::UTF8(_)), Err(DecodeFailure::InvalidUtf8)) => true,
            _ => false,
        },
{
    let ghost p = *pos as int;
    let ghost rest = buf@.skip(p);
    assert(p + 1 <= buf@.len() ==> rest.subrange(0, 1)[0] == buf@[p]);
    assert(p + 2 <= buf@.len() ==> rest.subrange(0, 2) == buf@.subrange(p, p + 2));
    assert(p + 4 <= buf@.len() ==> rest.subrange(0, 4) == buf@.subrange(p, p + 4));
    assert(p + 8 <= buf@.len() ==> rest.subrange(0, 8) == buf@.subrange(p, p + 8));
    match cmd {
        PINECommand::MsgRead8 { .. } => match read_u8(buf, pos) {
            Ok(val) => Ok(PINEResponse::ResRead8 { val }),
            Err(e) => Err(e),
        },
        PINECommand::MsgRead16 { .. } => match read_u16(buf, pos) {
            Ok(val) => Ok(PINEResponse::ResRead16 { val }),
            Err(e) => Err(e),
        },
        PINECommand::MsgRead32 { .. } => match read_u32(buf, pos) {
            Ok(val) => Ok(PINEResponse::ResRead32 { val }),
            Err(e) => Err(e),
        },
        PINECommand::MsgRead64 { .. } => match read_u64(buf, pos) {
            Ok(val) => Ok(PINEResponse::ResRead64 { val }),
            Err(e) => Err(e),
        },
        PINECommand::MsgWrite8 { .. } => Ok(PINEResponse::ResWrite8),
        PINECommand::MsgWrite16 { .. } => Ok(PINEResponse::ResWrite16),
        PINECommand::MsgWrite32 { .. } => Ok(PINEResponse::ResWrite32),
        PINECommand::MsgWrite64 { .. } => Ok(PINEResponse::ResWrite64),
        PINECommand::MsgVersion => match read_string(buf, pos) {
            Ok(version) => Ok(PINEResponse::ResVersion { version }),
            Err(e) => Err(e),
        },
        PINECommand::MsgSaveState { .. } => Ok(PINEResponse::ResSaveState),
        PINECommand::MsgLoadState { .. } => Ok(PINEResponse::ResLoadState),
        PINECommand::MsgTitle => match read_string(buf, pos) {
            Ok(title) => Ok(PINEResponse::ResTitle { title }),
            Err(e) => Err(e),
        },
        PINECommand::MsgID => match read_string(buf, pos) {
            Ok(id) => Ok(PINEResponse::ResID { id }),
            Err(e) => Err(e),
        },
        PINECommand::MsgUUID => match read_string(buf, pos) {
            Ok(uuid) => Ok(PINEResponse::ResUUID { uuid }),
            Err(e) => Err(e),
        },
        PINECommand::MsgGameVersion => match read_string(buf, pos) {
            Ok(version) => Ok(PINEResponse::ResGameVersion { version }),
            Err(e) => Err(e),
        },
        PINECommand::MsgStatus => match read_u32(buf, pos) {
            Ok(code) => Ok(PINEResponse::ResStatus { status: PINEStatus::from(code) }),
            Err(e) => Err(e),
        },
        PINECommand::MsgUnimplemented => Ok(PINEResponse::ResUnimplemented),
    }
}

/// The outcome `rest` with the values `done` decoded before it.
spec fn after(done: Seq<ResponseValue>, rest: Result<Seq<ResponseValue>, DecodeFailure>) -> Result<
    Seq<ResponseValue>,
    DecodeFailure,
> {
    match rest {
        Ok(values) => Ok(done + values),
        Err(e) => Err(e),
    }
}

/// Decodes the payload of a successful response to a batch of `commands`:
/// one response per command, in order, each read from where the previous
/// one ended. A payload that ends early is an I/O error (`UnexpectedEof`); a
/// string that is not UTF-8 is a UTF-8 error.
pub fn decode_responses(commands: &[PINECommand], payload: &[u8]) -> (r: PINEResult<
    Vec<PINEResponse>,
>)
    ensures
        reports(r, parse_responses(commands@, payload@)),
{
    let mut res: Vec<PINEResponse> = Vec::with_capacity(commands.len());
    let mut pos: usize = 0;
    let mut i: usize = 0;
    assert(commands@.skip(0) == commands@);
    assert(payload@.skip(0) == payload@);
    while i < commands.len()
        invariant
            i <= commands@.len(),
            pos <= payload@.len(),
            res@.len() == i,
            parse_responses(commands@, payload@) == after(
                res@.map_values(|x: PINEResponse| x@),
                parse_responses(commands@.skip(i as int), payload@.skip(pos as int)),
            ),
        decreases commands@.len() - i,
    {
        let ghost old_pos = pos as int;
        let ghost done = res@.map_values(|x: PINEResponse| x@);
        let ghost cmds = commands@.skip(i as int);
        assert(cmds[0] == commands@[i as int]);
        assert(cmds.drop_first() == commands@.skip(i + 1));
        match read_response(&commands[i], payload, &mut pos) {
            Ok(resp) => {
                assert(payload@.skip(old_pos).skip(pos - old_pos) == payload@.skip(pos as int));
                res.push(resp);
                assert(res@.map_values(|x: PINEResponse| x@) == done.push(resp@));
                assert(forall|t: Seq<ResponseValue>|
                    done.push(resp@) + t =~= done + (seq![resp@] + t));
            },
            Err(e) => {
                return Err(e);
            },
        }
        i = i + 1;
    }
    assert(commands@.skip(i as int) == Seq::<PINECommand>::empty());
    assert(res@.map_values(|x: PINEResponse| x@) + Seq::<ResponseValue>::empty() =~= res@.map_values(
        |x: PINEResponse| x@,
    ));
    Ok(res)
}

} // verus!
