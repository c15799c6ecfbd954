use pine_ipc::{PINEBatch, PINECommand};

fn request_of(commands: &[PINECommand]) -> Vec<u8> {
    let mut batch = PINEBatch::new();
    for c in commands {
        batch.add(*c);
    }
    batch.finalize().to_vec()
}

#[test]
fn new_batch_is_only_the_length_field() {
    let mut batch = PINEBatch::new();
    assert_eq!(batch.finalize(), &[4, 0, 0, 0]);
}

#[test]
fn default_batch_equals_new_batch() {
    let mut batch = PINEBatch::default();
    assert_eq!(batch.finalize(), &[4, 0, 0, 0]);
}

#[test]
fn opcodes_follow_the_table() {
    let table: Vec<(PINECommand, u8)> = vec![
        (PINECommand::MsgRead8 { mem: 0 }, 0),
        (PINECommand::MsgRead16 { mem: 0 }, 1),
        (PINECommand::MsgRead32 { mem: 0 }, 2),
        (PINECommand::MsgRead64 { mem: 0 }, 3),
        (PINECommand::MsgWrite8 { mem: 0, val: 0 }, 4),
        (PINECommand::MsgWrite16 { mem: 0, val: 0 }, 5),
        (PINECommand::MsgWrite32 { mem: 0, val: 0 }, 6),
        (PINECommand::MsgWrite64 { mem: 0, val: 0 }, 7),
        (PINECommand::MsgVersion, 8),
        (PINECommand::MsgSaveState { sta: 0 }, 9),
        (PINECommand::MsgLoadState { sta: 0 }, 10),
        (PINECommand::MsgTitle, 11),
        (PINECommand::MsgID, 12),
        (PINECommand::MsgUUID, 13),
        (PINECommand::MsgGameVersion, 14),
        (PINECommand::MsgStatus, 15),
        (PINECommand::MsgUnimplemented, 255),
    ];
    for (command, opcode) in table {
        assert_eq!(command.to_opcode(), opcode);
        let byte: u8 = command.into();
        assert_eq!(byte, opcode);
    }
}

#[test]
fn reads_encode_the_address_little_endian() {
    assert_eq!(
        request_of(&[PINECommand::MsgRead8 { mem: 0x11223344 }]),
        vec![9, 0, 0, 0, 0, 0x44, 0x33, 0x22, 0x11]
    );
    assert_eq!(
        request_of(&[PINECommand::MsgRead16 { mem: 1 }]),
        vec![9, 0, 0, 0, 1, 1, 0, 0, 0]
    );
    assert_eq!(
        request_of(&[PINECommand::MsgRead32 { mem: 0x003667DC }]),
        vec![9, 0, 0, 0, 2, 0xDC, 0x67, 0x36, 0x00]
    );
    assert_eq!(
        request_of(&[PINECommand::MsgRead64 { mem: 0xFFFFFFFF }]),
        vec![9, 0, 0, 0, 3, 0xFF, 0xFF, 0xFF, 0xFF]
    );
}

#[test]
fn writes_encode_address_then_value_at_their_width() {
    assert_eq!(
        request_of(&[PINECommand::MsgWrite8 { mem: 0x10, val: 0xAB }]),
        vec![10, 0, 0, 0, 4, 0x10, 0, 0, 0, 0xAB]
    );
    assert_eq!(
        request_of(&[PINECommand::MsgWrite16 { mem: 0x10, val: 0xABCD }]),
        vec![11, 0, 0, 0, 5, 0x10, 0, 0, 0, 0xCD, 0xAB]
    );
    assert_eq!(
        request_of(&[PINECommand::MsgWrite32 { mem: 0x1000, val: 42 }]),
        vec![13, 0, 0, 0, 6, 0x00, 0x10, 0, 0, 42, 0, 0, 0]
    );
    assert_eq!(
        request_of(&[PINECommand::MsgWrite64 { mem: 0x10, val: 0x0102030405060708 }]),
        vec![17, 0, 0, 0, 7, 0x10, 0, 0, 0, 8, 7, 6, 5, 4, 3, 2, 1]
    );
}

#[test]
fn write32_takes_nine_bytes_with_its_opcode() {
    let request = request_of(&[PINECommand::MsgWrite32 { mem: 0x1000, val: 42 }]);
    assert_eq!(request.len() - 4, 9);
}

#[test]
fn state_commands_encode_the_slot() {
    assert_eq!(request_of(&[PINECommand::MsgSaveState { sta: 3 }]), vec![6, 0, 0, 0, 9, 3]);
    assert_eq!(request_of(&[PINECommand::MsgLoadState { sta: 7 }]), vec![6, 0, 0, 0, 10, 7]);
}

#[test]
fn queries_encode_only_their_opcode() {
    assert_eq!(
        request_of(&[
            PINECommand::MsgVersion,
            PINECommand::MsgTitle,
            PINECommand::MsgID,
            PINECommand::MsgUUID,
            PINECommand::MsgGameVersion,
            PINECommand::MsgStatus,
            PINECommand::MsgUnimplemented,
        ]),
        vec![11, 0, 0, 0, 8, 11, 12, 13, 14, 15, 255]
    );
}

#[test]
fn length_field_counts_every_byte() {
    let mut batch = PINEBatch::new();
    batch.add(PINECommand::MsgTitle);
    batch.add(PINECommand::MsgRead32 { mem: 0x003667DC });
    batch.add(PINECommand::MsgWrite64 { mem: 4, val: 5 });
    let request = batch.finalize().to_vec();
    let k = request.len();
    assert_eq!(k, 4 + 1 + 5 + 13);
    assert_eq!(u32::from_le_bytes([request[0], request[1], request[2], request[3]]) as usize, k);
}

#[test]
fn finalize_twice_gives_the_same_request() {
    let mut batch = PINEBatch::new();
    batch.add(PINECommand::MsgGameVersion);
    let first = batch.finalize().to_vec();
    let second = batch.finalize().to_vec();
    assert_eq!(first, second);
    assert_eq!(first, vec![5, 0, 0, 0, 14]);
}

#[test]
fn finalize_then_add_updates_the_length() {
    let mut batch = PINEBatch::new();
    batch.add(PINECommand::MsgStatus);
    assert_eq!(batch.finalize(), &[5, 0, 0, 0, 15]);
    batch.add(PINECommand::MsgTitle);
    assert_eq!(batch.finalize(), &[6, 0, 0, 0, 15, 11]);
}

#[test]
fn from_commands_matches_adding_one_by_one() {
    let commands = [
        PINECommand::MsgRead8 { mem: 9 },
        PINECommand::MsgSaveState { sta: 1 },
        PINECommand::MsgUUID,
    ];
    let mut batch = PINEBatch::from_commands(&commands);
    assert_eq!(batch.finalize().to_vec(), request_of(&commands));
}

#[test]
fn clear_drops_the_length_field_too() {
    let mut batch = PINEBatch::new();
    batch.add(PINECommand::MsgWrite32 { mem: 1, val: 2 });
    batch.clear();
    batch.add(PINECommand::MsgWrite8 { mem: 0x01020304, val: 9 });
    // Without its placeholder, finalize writes the length over the first
    // four bytes of the first command.
    assert_eq!(batch.finalize(), &[6, 0, 0, 0, 0x01, 9]);
}
