use vstd::bytes::*;
use vstd::prelude::*;

verus! {

/// One operation of the protocol, with its payload.
#[allow(inconsistent_fields)]
#[derive(Clone, Copy, Debug, PartialEq, Eq, Structural)]
pub enum PINECommand {
    MsgRead8 { mem: u32 },
    MsgRead16 { mem: u32 },
    MsgRead32 { mem: u32 },
    MsgRead64 { mem: u32 },
    MsgWrite8 { mem: u32, val: u8 },
    MsgWrite16 { mem: u32, val: u16 },
    MsgWrite32 { mem: u32, val: u32 },
    MsgWrite64 { mem: u32, val: u64 },
    MsgVersion,
    MsgSaveState { sta: u8 },
    MsgLoadState { sta: u8 },
    MsgTitle,
    MsgID,
    MsgUUID,
    MsgGameVersion,
    MsgStatus,
    MsgUnimplemented,
}

impl PINECommand {
    /// The byte that identifies this command on the wire.
    pub open spec fn opcode(self) -> u8 {
        match self {
            PINECommand::MsgRead8 { .. } => 0,
            PINECommand::MsgRead16 { .. } => 1,
            PINECommand::MsgRead32 { .. } => 2,
            PINECommand::MsgRead64 { .. } => 3,
            PINECommand::MsgWrite8 { .. } => 4,
            PINECommand::MsgWrite16 { .. } => 5,
            PINECommand::MsgWrite32 { .. } => 6,
            PINECommand::MsgWrite64 { .. } => 7,
            PINECommand::MsgVersion => 8,
            PINECommand::MsgSaveState { .. } => 9,
            PINECommand::MsgLoadState { .. } => 10,
            PINECommand::MsgTitle => 11,
            PINECommand::MsgID => 12,
            PINECommand::MsgUUID => 13,
            PINECommand::MsgGameVersion => 14,
            PINECommand::MsgStatus => 15,
            PINECommand::MsgUnimplemented => 255,
        }
    }

    /// The bytes that follow the opcode: the address as a little-endian
    /// `u32`, then the value at the width of the operation, or the state slot.
    pub open spec fn payload(self) -> Seq<u8> {
        match self {
            PINECommand::MsgRead8 { mem } => spec_u32_to_le_bytes(mem),
            PINECommand::MsgRead16 { mem } => spec_u32_to_le_bytes(mem),
            PINECommand::MsgRead32 { mem } => spec_u32_to_le_bytes(mem),
            PINECommand::MsgRead64 { mem } => spec_u32_to_le_bytes(mem),
            PINECommand::MsgWrite8 { mem, val } => spec_u32_to_le_bytes(mem) + seq![val],
            PINECommand::MsgWrite16 { mem, val } => spec_u32_to_le_bytes(mem)
                + spec_u16_to_le_bytes(val),
            PINECommand::MsgWrite32 { mem, val } => spec_u32_to_le_bytes(mem)
                + spec_u32_to_le_bytes(val),
            PINECommand::MsgWrite64 { mem, val } => spec_u32_to_le_bytes(mem)
                + spec_u64_to_le_bytes(val),
            PINECommand::MsgSaveState { sta } => seq![sta],
            PINECommand::MsgLoadState { sta } => seq![sta],
            _ => Seq::empty(),
        }
    }

    /// The full request encoding of this command.
    pub open spec fn encoding(self) -> Seq<u8> {
        seq![self.opcode()] + self.payload()
    }

    pub fn to_opcode(&self) -> (r: u8)
        ensures
            r == self.opcode(),
    {
        match self {
            PINECommand::MsgRead8 { .. } => 0,
            PINECommand::MsgRead16 { .. } => 1,
            PINECommand::MsgRead32 { .. } => 2,
            PINECommand::MsgRead64 { .. } => 3,
            PINECommand::MsgWrite8 { .. } => 4,
            PINECommand::MsgWrite16 { .. } => 5,
            PINECommand::MsgWrite32 { .. } => 6,
            PINECommand::MsgWrite64 { .. } => 7,
            PINECommand::MsgVersion => 8,
            PINECommand::MsgSaveState { .. } => 9,
            PINECommand::MsgLoadState { .. } => 10,
            PINECommand::MsgTitle => 11,
            PINECommand::MsgID => 12,
            PINECommand::MsgUUID => 13,
            PINECommand::MsgGameVersion => 14,
            PINECommand::MsgStatus => 15,
            PINECommand::MsgUnimplemented => 255,
        }
    }
}

impl From<PINECommand> for u8 {
    fn from(command: PINECommand) -> (r: u8)
        ensures
            r == command.opcode(),
    {
        command.to_opcode()
    }
}

impl vstd::std_specs::convert::FromSpecImpl<PINECommand> for u8 {
    open spec fn obeys_from_spec() -> bool {
        true
    }

    open spec fn from_spec(command: PINECommand) -> u8 {
        command.opcode()
    }
}

/// Run state of the emulator, as reported by the status query.
#[derive(Clone, Copy, Debug, PartialEq, Eq, Structural)]
pub enum PINEStatus {
    Running,
    Paused,
    Shutdown,
    Unknown,
}

/// The status that a status code on the wire stands for.
pub open spec fn status_of(code: u32) -> PINEStatus {
    if code == 0 {
        PINEStatus::Running
    } else if code == 1 {
        PINEStatus::Paused
    } else if code == 2 {
        PINEStatus::Shutdown
    } else {
        PINEStatus::Unknown
    }
}

impl From<u32> for PINEStatus {
    fn from(value: u32) -> (r: PINEStatus)
        ensures
            r == status_of(value),
    {
        match value {
            0 => PINEStatus::Running,
            1 => PINEStatus::Paused,
            2 => PINEStatus::Shutdown,
            _ => PINEStatus::Unknown,
        }
    }
}

impl vstd::std_specs::convert::FromSpecImpl<u32> for PINEStatus {
    open spec fn obeys_from_spec() -> bool {
        true
    }

    open spec fn from_spec(value: u32) -> PINEStatus {
        status_of(value)
    }
}

/// The answer to one command.
#[allow(inconsistent_fields)]
#[derive(Clone, Debug, PartialEq, Eq)]
pub enum PINEResponse {
    ResRead8 { val: u8 },
    ResRead16 { val: u16 },
    ResRead32 { val: u32 },
    ResRead64 { val: u64 },
    ResWrite8,
    ResWrite16,
    ResWrite32,
    ResWrite64,
    ResVersion { version: String },
    ResSaveState,
    ResLoadState,
    ResTitle { title: String },
    ResID { id: String },
    ResUUID { uuid: String },
    ResGameVersion { version: String },
    ResStatus { status: PINEStatus },
    ResUnimplemented,
}

/// The mathematical value of a [`PINEResponse`]: strings are seen as their
/// characters.
pub enum ResponseValue {
    Read8(u8),
    Read16(u16),
    Read32(u32),
    Read64(u64),
    Write8,
    Write16,
    Write32,
    Write64,
    Version(Seq<char>),
    SaveState,
    LoadState,
    Title(Seq<char>),
    Id(Seq<char>),
    Uuid(Seq<char>),
    GameVersion(Seq<char>),
    Status(PINEStatus),
    Unimplemented,
}

impl View for PINEResponse {
    type V = ResponseValue;

    open spec fn view(&self) -> ResponseValue {
        match self {
            PINEResponse::ResRead8 { val } => ResponseValue::Read8(*val),
            PINEResponse::ResRead16 { val } => ResponseValue::Read16(*val),
            PINEResponse::ResRead32 { val } => ResponseValue::Read32(*val),
            PINEResponse::ResRead64 { val } => ResponseValue::Read64(*val),
            PINEResponse::ResWrite8 => ResponseValue::Write8,
            PINEResponse::ResWrite16 => ResponseValue::Write16,
            PINEResponse::ResWrite32 => ResponseValue::Write32,
            PINEResponse::ResWrite64 => ResponseValue::Write64,
            PINEResponse::ResVersion { version } => ResponseValue::Version(version@),
            PINEResponse::ResSaveState => ResponseValue::SaveState,
            PINEResponse::ResLoadState => ResponseValue::LoadState,
            PINEResponse::ResTitle { title } => ResponseValue::Title(title@),
            PINEResponse::ResID { id } => ResponseValue::Id(id@),
            PINEResponse::ResUUID { uuid } => ResponseValue::Uuid(uuid@),
            PINEResponse::ResGameVersion { version } => ResponseValue::GameVersion(version@),
            PINEResponse::ResStatus { status } => ResponseValue::Status(*status),
            PINEResponse::ResUnimplemented => ResponseValue::Unimplemented,
        }
    }
}

} // verus!
