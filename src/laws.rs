use crate::batch::encode_all;
use crate::command::{status_of, PINECommand, PINEStatus, ResponseValue};
use crate::wire::{parse_response, parse_responses, parse_string, strip_terminator, DecodeFailure};
use vstd::bytes::*;
use vstd::prelude::*;
use vstd::utf8::*;

verus! {

/// The status code that an emulator sends for `status`.
pub open spec fn status_code(status: PINEStatus) -> u32 {
    match status {
        PINEStatus::Running => 0,
        PINEStatus::Paused => 1,
        PINEStatus::Shutdown => 2,
        PINEStatus::Unknown => 3,
    }
}

/// A string field as an emulator sends it: the length of the body, then the
/// UTF-8 encoding of the text followed by its null terminator.
pub open spec fn encode_text(s: Seq<char>) -> Seq<u8> {
    let body = encode_utf8(s.push('\0'));
    spec_u32_to_le_bytes(body.len() as u32) + body
}

/// A string whose field length fits the `u32` length field.
pub open spec fn text_fits(s: Seq<char>) -> bool {
    encode_utf8(s.push('\0')).len() <= u32::MAX
}

/// The bytes that an emulator sends for one response.
pub open spec fn encode_response(v: ResponseValue) -> Seq<u8> {
    match v {
        ResponseValue::Read8(x) => seq![x],
        ResponseValue::Read16(x) => spec_u16_to_le_bytes(x),
        ResponseValue::Read32(x) => spec_u32_to_le_bytes(x),
        ResponseValue::Read64(x) => spec_u64_to_le_bytes(x),
        ResponseValue::Version(s) => encode_text(s),
        ResponseValue::Title(s) => encode_text(s),
        ResponseValue::Id(s) => encode_text(s),
        ResponseValue::Uuid(s) => encode_text(s),
        ResponseValue::GameVersion(s) => encode_text(s),
        ResponseValue::Status(st) => spec_u32_to_le_bytes(status_code(st)),
        _ => Seq::empty(),
    }
}

/// The payload that an emulator sends for the responses `values`, in order.
pub open spec fn encode_responses(values: Seq<ResponseValue>) -> Seq<u8>
    decreases values.len(),
{
    if values.len() == 0 {
        Seq::empty()
    } else {
        encode_response(values[0]) + encode_responses(values.drop_first())
    }
}

/// Every string in `v` fits its length field.
pub open spec fn sendable(v: ResponseValue) -> bool {
    match v {
        ResponseValue::Version(s) => text_fits(s),
        ResponseValue::Title(s) => text_fits(s),
        ResponseValue::Id(s) => text_fits(s),
        ResponseValue::Uuid(s) => text_fits(s),
        ResponseValue::GameVersion(s) => text_fits(s),
        _ => true,
    }
}

/// `v` is a response of the kind that `cmd` asks for.
pub open spec fn answers(cmd: PINECommand, v: ResponseValue) -> bool {
    match (cmd, v) {
        (PINECommand::MsgRead8 { .. }, ResponseValue::Read8(_)) => true,
        (PINECommand::MsgRead16 { .. }, ResponseValue::Read16(_)) => true,
        (PINECommand::MsgRead32 { .. }, ResponseValue::Read32(_)) => true,
        (PINECommand::MsgRead64 { .. }, ResponseValue::Read64(_)) => true,
        (PINECommand::MsgWrite8 { .. }, ResponseValue::Write8) => true,
        (PINECommand::MsgWrite16 { .. }, ResponseValue::Write16) => true,
        (PINECommand::MsgWrite32 { .. }, ResponseValue::Write32) => true,
        (PINECommand::MsgWrite64 { .. }, ResponseValue::Write64) => true,
        (PINECommand::MsgVersion, ResponseValue::Version(_)) => true,
        (PINECommand::MsgSaveState { .. }, ResponseValue::SaveState) => true,
        (PINECommand::MsgLoadState { .. }, ResponseValue::LoadState) => true,
        (PINECommand::MsgTitle, ResponseValue::Title(_)) => true,
        (PINECommand::MsgID, ResponseValue::Id(_)) => true,
        (PINECommand::MsgUUID, ResponseValue::Uuid(_)) => true,
        (PINECommand::MsgGameVersion, ResponseValue::GameVersion(_)) => true,
        (PINECommand::MsgStatus, ResponseValue::Status(_)) => true,
        (PINECommand::MsgUnimplemented, ResponseValue::Unimplemented) => true,
        _ => false,
    }
}

proof fn lemma_text_round_trip(s: Seq<char>, rest: Seq<u8>)
    requires
        text_fits(s),
    ensures
        parse_string(encode_text(s) + rest) == Ok::<(Seq<char>, nat), DecodeFailure>(
            (s, encode_text(s).len()),
        ),
{
    broadcast use encode_utf8_valid_utf8, encode_utf8_decode_utf8;

    lemma_auto_spec_u32_to_from_le_bytes();
    let body = encode_utf8(s.push('\0'));
    let bytes = encode_text(s) + rest;
    assert(bytes.subrange(0, 4) == spec_u32_to_le_bytes(body.len() as u32));
    assert(bytes.subrange(4, 4 + body.len() as int) == body);
    assert(strip_terminator(s.push('\0')) == s);
}

proof fn lemma_response_round_trip(cmd: PINECommand, v: ResponseValue, rest: Seq<u8>)
    requires
        answers(cmd, v),
        sendable(v),
    ensures
        parse_response(cmd, encode_response(v) + rest) == Ok::<(ResponseValue, nat), DecodeFailure>(
            (v, encode_response(v).len()),
        ),
{
    lemma_auto_spec_u16_to_from_le_bytes();
    lemma_auto_spec_u32_to_from_le_bytes();
    lemma_auto_spec_u64_to_from_le_bytes();
    let bytes = encode_response(v) + rest;
    match v {
        ResponseValue::Read8(x) => {
            assert(bytes.subrange(0, 1)[0] == x);
        },
        ResponseValue::Read16(x) => {
            assert(bytes.subrange(0, 2) == spec_u16_to_le_bytes(x));
        },
        ResponseValue::Read32(x) => {
            assert(bytes.subrange(0, 4) == spec_u32_to_le_bytes(x));
        },
        ResponseValue::Read64(x) => {
            assert(bytes.subrange(0, 8) == spec_u64_to_le_bytes(x));
        },
        ResponseValue::Version(s) => lemma_text_round_trip(s, rest),
        ResponseValue::Title(s) => lemma_text_round_trip(s, rest),
        ResponseValue::Id(s) => lemma_text_round_trip(s, rest),
        ResponseValue::Uuid(s) => lemma_text_round_trip(s, rest),
        ResponseValue::GameVersion(s) => lemma_text_round_trip(s, rest),
        ResponseValue::Status(st) => {
            assert(bytes.subrange(0, 4) == spec_u32_to_le_bytes(status_code(st)));
            assert(status_of(status_code(st)) == st);
        },
        _ => {
            assert(bytes == rest);
        },
    }
}

/// Decoding what an emulator sends for a batch gives back its responses:
/// for commands `cmds` and responses `values` of the matching kinds, whose
/// strings fit their length fields, the payload that encodes `values` (with
/// any bytes after it) decodes to exactly `values`.
pub proof fn lemma_responses_round_trip(
    cmds: Seq<PINECommand>,
    values: Seq<ResponseValue>,
    rest: Seq<u8>,
)
    requires
        cmds.len() == values.len(),
        forall|i: int| 0 <= i < cmds.len() ==> answers(cmds[i], values[i]),
        forall|i: int| 0 <= i < values.len() ==> sendable(values[i]),
    ensures
        parse_responses(cmds, encode_responses(values) + rest) == Ok::<
            Seq<ResponseValue>,
            DecodeFailure,
        >(values),
    decreases cmds.len(),
{
    if cmds.len() == 0 {
        assert(values == Seq::<ResponseValue>::empty());
    } else {
        let tail = encode_responses(values.drop_first()) + rest;
        assert(encode_responses(values) + rest == encode_response(values[0]) + tail);
        lemma_response_round_trip(cmds[0], values[0], tail);
        assert((encode_response(values[0]) + tail).skip(encode_response(values[0]).len() as int)
            == tail);
        lemma_responses_round_trip(cmds.drop_first(), values.drop_first(), rest);
        assert(seq![values[0]] + values.drop_first() == values);
    }
}

/// A batch that decodes has exactly one response per command, in the order
/// of the commands, each of the kind that its command asks for.
pub proof fn lemma_one_response_per_command(cmds: Seq<PINECommand>, bytes: Seq<u8>)
    ensures
        parse_responses(cmds, bytes) is Ok ==> {
            let values = parse_responses(cmds, bytes)->Ok_0;
            &&& values.len() == cmds.len()
            &&& forall|i: int| 0 <= i < cmds.len() ==> answers(cmds[i], #[trigger] values[i])
        },
    decreases cmds.len(),
{
    if cmds.len() > 0 {
        match parse_response(cmds[0], bytes) {
            Ok((v, n)) => {
                lemma_one_response_per_command(cmds.drop_first(), bytes.skip(n as int));
                if parse_responses(cmds, bytes) is Ok {
                    let values = parse_responses(cmds, bytes)->Ok_0;
                    let rest = parse_responses(cmds.drop_first(), bytes.skip(n as int))->Ok_0;
                    assert(values == seq![v] + rest);
                    assert(answers(cmds[0], v));
                    assert forall|i: int| 0 <= i < cmds.len() implies answers(
                        cmds[i],
                        #[trigger] values[i],
                    ) by {
                        if i > 0 {
                            assert(cmds[i] == cmds.drop_first()[i - 1]);
                            assert(values[i] == rest[i - 1]);
                        }
                    }
                }
            },
            Err(_) => {},
        }
    }
}

/// The number of payload bytes that follow opcode `op` in a request, for the
/// opcodes of the protocol.
pub open spec fn payload_width(op: u8) -> Option<nat> {
    if op <= 3 {
        Some(4)
    } else if op == 4 {
        Some(5)
    } else if op == 5 {
        Some(6)
    } else if op == 6 {
        Some(8)
    } else if op == 7 {
        Some(12)
    } else if op == 9 || op == 10 {
        Some(1)
    } else if op == 8 || (11 <= op && op <= 15) || op == 255 {
        Some(0)
    } else {
        None
    }
}

/// The command that `bytes` start with, as an emulator reads a request, with
/// the number of bytes that it takes.
pub open spec fn parse_command(bytes: Seq<u8>) -> Option<(PINECommand, nat)> {
    if bytes.len() == 0 || payload_width(bytes[0]) is None {
        None
    } else {
        let op = bytes[0];
        let width = payload_width(op)->Some_0;
        let b = bytes.drop_first();
        if b.len() < width {
            None
        } else {
            let mem = spec_u32_from_le_bytes(b.subrange(0, 4));
            let cmd = if op == 0 {
                PINECommand::MsgRead8 { mem }
            } else if op == 1 {
                PINECommand::MsgRead16 { mem }
            } else if op == 2 {
                PINECommand::MsgRead32 { mem }
            } else if op == 3 {
                PINECommand::MsgRead64 { mem }
            } else if op == 4 {
                PINECommand::MsgWrite8 { mem, val: b[4] }
            } else if op == 5 {
                PINECommand::MsgWrite16 { mem, val: spec_u16_from_le_bytes(b.subrange(4, 6)) }
            } else if op == 6 {
                PINECommand::MsgWrite32 { mem, val: spec_u32_from_le_bytes(b.subrange(4, 8)) }
            } else if op == 7 {
                PINECommand::MsgWrite64 { mem, val: spec_u64_from_le_bytes(b.subrange(4, 12)) }
            } else if op == 8 {
                PINECommand::MsgVersion
            } else if op == 9 {
                PINECommand::MsgSaveState { sta: b[0] }
            } else if op == 10 {
                PINECommand::MsgLoadState { sta: b[0] }
            } else if op == 11 {
                PINECommand::MsgTitle
            } else if op == 12 {
                PINECommand::MsgID
            } else if op == 13 {
                PINECommand::MsgUUID
            } else if op == 14 {
                PINECommand::MsgGameVersion
            } else if op == 15 {
                PINECommand::MsgStatus
            } else {
                PINECommand::MsgUnimplemented
            };
            Some((cmd, 1 + width))
        }
    }
}

/// The commands of a request body, read one after the other until the bytes
/// run out.
pub open spec fn parse_commands(bytes: Seq<u8>) -> Option<Seq<PINECommand>>
    decreases bytes.len(),
{
    if bytes.len() == 0 {
        Some(Seq::empty())
    } else {
        match parse_command(bytes) {
            Some((c, n)) => if 1 <= n <= bytes.len() {
                match parse_commands(bytes.skip(n as int)) {
                    Some(cs) => Some(seq![c] + cs),
                    None => None,
                }
            } else {
                None
            },
            None => None,
        }
    }
}

proof fn lemma_command_round_trip(c: PINECommand, rest: Seq<u8>)
    ensures
        parse_command(c.encoding() + rest) == Some((c, c.encoding().len())),
{
    lemma_auto_spec_u16_to_from_le_bytes();
    lemma_auto_spec_u32_to_from_le_bytes();
    lemma_auto_spec_u64_to_from_le_bytes();
    let bytes = c.encoding() + rest;
    let b = bytes.drop_first();
    assert(b == c.payload() + rest);
    match c {
        PINECommand::MsgRead8 { mem } => assert(b.subrange(0, 4) == spec_u32_to_le_bytes(mem)),
        PINECommand::MsgRead16 { mem } => assert(b.subrange(0, 4) == spec_u32_to_le_bytes(mem)),
        PINECommand::MsgRead32 { mem } => assert(b.subrange(0, 4) == spec_u32_to_le_bytes(mem)),
        PINECommand::MsgRead64 { mem } => assert(b.subrange(0, 4) == spec_u32_to_le_bytes(mem)),
        PINECommand::MsgWrite8 { mem, val } => {
            assert(b.subrange(0, 4) == spec_u32_to_le_bytes(mem));
            assert(b[4] == val);
        },
        PINECommand::MsgWrite16 { mem, val } => {
            assert(b.subrange(0, 4) == spec_u32_to_le_bytes(mem));
            assert(b.subrange(4, 6) == spec_u16_to_le_bytes(val));
        },
        PINECommand::MsgWrite32 { mem, val } => {
            assert(b.subrange(0, 4) == spec_u32_to_le_bytes(mem));
            assert(b.subrange(4, 8) == spec_u32_to_le_bytes(val));
        },
        PINECommand::MsgWrite64 { mem, val } => {
            assert(b.subrange(0, 4) == spec_u32_to_le_bytes(mem));
            assert(b.subrange(4, 12) == spec_u64_to_le_bytes(val));
        },
        _ => {},
    }
}

proof fn lemma_encode_all_front(cmds: Seq<PINECommand>)
    requires
        cmds.len() > 0,
    ensures
        encode_all(cmds) == cmds[0].encoding() + encode_all(cmds.drop_first()),
    decreases cmds.len(),
{
    if cmds.len() == 1 {
        assert(cmds.drop_last() == Seq::<PINECommand>::empty());
        assert(cmds.drop_first() == Seq::<PINECommand>::empty());
        assert(encode_all(cmds.drop_last()) == Seq::<u8>::empty());
        assert(cmds.last() == cmds[0]);
        assert(encode_all(cmds) =~= cmds[0].encoding());
        assert(cmds[0].encoding() + encode_all(cmds.drop_first()) =~= cmds[0].encoding());
    } else {
        lemma_encode_all_front(cmds.drop_last());
        assert(cmds.drop_last().drop_first() == cmds.drop_first().drop_last());
        assert(cmds.drop_first().last() == cmds.last());
    }
}

/// An emulator reads back exactly the commands of a request: the encoding
/// of `cmds` splits into one command after the other, and they are `cmds`.
pub proof fn lemma_request_round_trip(cmds: Seq<PINECommand>)
    ensures
        parse_commands(encode_all(cmds)) == Some(cmds),
    decreases cmds.len(),
{
    if cmds.len() > 0 {
        lemma_encode_all_front(cmds);
        let rest = encode_all(cmds.drop_first());
        lemma_command_round_trip(cmds[0], rest);
        assert((cmds[0].encoding() + rest).skip(cmds[0].encoding().len() as int) == rest);
        lemma_request_round_trip(cmds.drop_first());
        assert(seq![cmds[0]] + cmds.drop_first() == cmds);
    }
}

} // verus!
