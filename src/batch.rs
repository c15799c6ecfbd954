use crate::command::{PINECommand, PINEResponse};
use crate::error::PINEResult;
use crate::wire::{decode_responses, parse_responses, reports};
use vstd::bytes::*;
use vstd::prelude::*;

verus! {

/// The request encoding of `cmds`, one after the other.
pub open spec fn encode_all(cmds: Seq<PINECommand>) -> Seq<u8>
    decreases cmds.len(),
{
    if cmds.len() == 0 {
        Seq::empty()
    } else {
        encode_all(cmds.drop_last()) + cmds.last().encoding()
    }
}

/// What a batch holds: the request bytes so far and the commands they encode.
pub struct BatchView {
    pub bytes: Seq<u8>,
    pub commands: Seq<PINECommand>,
}

impl BatchView {
    /// The number of bytes in front of the encoded commands: four for the
    /// length field, or none after `clear`.
    pub open spec fn header_len(self) -> int {
        self.bytes.len() - encode_all(self.commands).len()
    }

    /// The bytes are a header of zero or four bytes followed by the encoding
    /// of the commands, in order.
    pub open spec fn wf(self) -> bool {
        &&& self.header_len() == 0 || self.header_len() == 4
        &&& self.bytes.skip(self.header_len()) == encode_all(self.commands)
    }
}

/// An ordered list of commands together with the request that encodes them.
pub struct PINEBatch {
    buffer: Vec<u8>,
    commands: Vec<PINECommand>,
}

impl View for PINEBatch {
    type V = BatchView;

    closed spec fn view(&self) -> BatchView {
        BatchView { bytes: self.buffer@, commands: self.commands@ }
    }
}

impl PINEBatch {
    /// An empty batch: four placeholder bytes for the length field, no command.
    pub fn new() -> (r: Self)
        ensures
            r@.bytes == seq![0u8, 0u8, 0u8, 0u8],
            r@.commands == Seq::<PINECommand>::empty(),
            r@.wf(),
    {
        let r = PINEBatch { buffer: vec![0x00, 0x00, 0x00, 0x00], commands: Vec::new() };
        assert(r@.bytes.skip(4) == Seq::<u8>::empty());
        r
    }

    /// A batch of `commands`, in order.
    pub fn from_commands(commands: &[PINECommand]) -> (r: Self)
        ensures
            r@.bytes == seq![0u8, 0u8, 0u8, 0u8] + encode_all(commands@),
            r@.commands == commands@,
            r@.wf(),
    {
        let mut batch = PINEBatch::new();
        let mut i: usize = 0;
        while i < commands.len()
            invariant
                i <= commands@.len(),
                batch@.bytes == seq![0u8, 0u8, 0u8, 0u8] + encode_all(commands@.take(i as int)),
                batch@.commands == commands@.take(i as int),
                batch@.wf(),
            decreases commands@.len() - i,
        {
            batch.add(commands[i]);
            assert(commands@.take(i + 1).drop_last() == commands@.take(i as int));
            assert(commands@.take(i + 1) == commands@.take(i as int).push(commands@[i as int]));
            i = i + 1;
        }
        assert(commands@.take(i as int) == commands@);
        batch
    }

    /// Empties both the bytes, the length field included, and the commands.
    pub fn clear(&mut self)
        ensures
            final(self)@.bytes == Seq::<u8>::empty(),
            final(self)@.commands == Seq::<PINECommand>::empty(),
            final(self)@.wf(),
    {
        self.buffer.clear();
        self.commands.clear();
        assert(self@.bytes.skip(0) == self@.bytes);
    }

    /// Appends the opcode and payload of `command` to the request, and
    /// `command` to the commands.
    pub fn add(&mut self, command: PINECommand)
        ensures
            final(self)@.bytes == old(self)@.bytes + command.encoding(),
            final(self)@.commands == old(self)@.commands.push(command),
            old(self)@.wf() ==> final(self)@.wf(),
    {
        let ghost before = self@;
        self.buffer.push(command.to_opcode());
        match command {
            PINECommand::MsgRead8 { mem } => self.buffer.append(&mut u32_to_le_bytes(mem)),
            PINECommand::MsgRead16 { mem } => self.buffer.append(&mut u32_to_le_bytes(mem)),
            PINECommand::MsgRead32 { mem } => self.buffer.append(&mut u32_to_le_bytes(mem)),
            PINECommand::MsgRead64 { mem } => self.buffer.append(&mut u32_to_le_bytes(mem)),
            PINECommand::MsgWrite8 { mem, val } => {
                self.buffer.append(&mut u32_to_le_bytes(mem));
                self.buffer.push(val);
            },
            PINECommand::MsgWrite16 { mem, val } => {
                self.buffer.append(&mut u32_to_le_bytes(mem));
                self.buffer.append(&mut u16_to_le_bytes(val));
            },
            PINECommand::MsgWrite32 { mem, val } => {
                self.buffer.append(&mut u32_to_le_bytes(mem));
                self.buffer.append(&mut u32_to_le_bytes(val));
            },
            PINECommand::MsgWrite64 { mem, val } => {
                self.buffer.append(&mut u32_to_le_bytes(mem));
                self.buffer.append(&mut u64_to_le_bytes(val));
            },
            PINECommand::MsgSaveState { sta } => self.buffer.push(sta),
            PINECommand::MsgLoadState { sta } => self.buffer.push(sta),
            _ => {},
        }
        self.commands.push(command);
        assert(self@.bytes =~= before.bytes + command.encoding());
        assert(self@.commands.drop_last() == before.commands);
        proof {
            if before.wf() {
                assert(encode_all(self@.commands) == encode_all(before.commands)
                    + command.encoding());
                assert(self@.bytes.skip(before.header_len()) =~= before.bytes.skip(
                    before.header_len(),
                ) + command.encoding());
            }
        }
    }

    /// Writes the length of the request into its first four bytes, as a
    /// little-endian `u32`, and returns the whole request.
    pub fn finalize(&mut self) -> (r: &[u8])
        requires
            old(self)@.bytes.len() >= 4,
            old(self)@.bytes.len() <= u32::MAX,
        ensures
            final(self)@.bytes == spec_u32_to_le_bytes(old(self)@.bytes.len() as u32) + old(
                self,
            )@.bytes.skip(4),
            final(self)@.commands == old(self)@.commands,
            r@ == final(self)@.bytes,
            r@.len() == old(self)@.bytes.len(),
            spec_u32_from_le_bytes(r@.subrange(0, 4)) == r@.len(),
            old(self)@.wf() && old(self)@.header_len() == 4 ==> r@ == spec_u32_to_le_bytes(
                r@.len() as u32,
            ) + encode_all(old(self)@.commands),
            old(self)@.wf() && old(self)@.header_len() == 4 ==> final(self)@.wf(),
    {
        let ghost before = self@;
        let size = self.buffer.len() as u32;
        let field = u32_to_le_bytes(size);
        self.buffer.set(0, field[0]);
        self.buffer.set(1, field[1]);
        self.buffer.set(2, field[2]);
        self.buffer.set(3, field[3]);
        assert(self@.bytes =~= field@ + before.bytes.skip(4));
        assert(self@.bytes.subrange(0, 4) =~= field@);
        proof {
            lemma_auto_spec_u32_to_from_le_bytes();
        }
        proof {
            if before.wf() && before.header_len() == 4 {
                assert(self@.bytes.skip(4) =~= before.bytes.skip(4));
            }
        }
        self.buffer.as_slice()
    }

    /// The number of request bytes, length field included.
    pub fn encoded_len(&self) -> (r: usize)
        ensures
            r == self@.bytes.len(),
    {
        self.buffer.len()
    }

    /// Decodes the payload of a successful response to this batch: one
    /// response per command, in order.
    pub fn decode(&self, payload: &[u8]) -> (r: PINEResult<Vec<PINEResponse>>)
        ensures
            reports(r, parse_responses(self@.commands, payload@)),
    {
        decode_responses(self.commands.as_slice(), payload)
    }
}

impl Default for PINEBatch {
    fn default() -> (r: Self)
        ensures
            r@.bytes == seq![0u8, 0u8, 0u8, 0u8],
            r@.commands == Seq::<PINECommand>::empty(),
    {
        PINEBatch::new()
    }
}

} // verus!
