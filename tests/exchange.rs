use pine_ipc::{
    parse_response_header, PINEBatch, PINECommand, PINEError, PINEResponse, PINE,
    RESPONSE_HEADER_LEN,
};

#[test]
fn header_of_size_five_has_an_empty_payload() {
    assert_eq!(parse_response_header(&[5, 0, 0, 0, 0]).unwrap(), 0);
}

#[test]
fn header_gives_the_payload_length() {
    assert_eq!(parse_response_header(&[9, 0, 0, 0, 0]).unwrap(), 4);
    assert_eq!(parse_response_header(&[0x05, 0x01, 0, 0, 0]).unwrap(), 256);
    assert_eq!(parse_response_header(&[0xFF, 0xFF, 0xFF, 0xFF, 0]).unwrap(), 0xFFFF_FFFA);
}

#[test]
fn non_zero_status_fails_whatever_the_length() {
    for header in [
        [5, 0, 0, 0, 1],
        [9, 0, 0, 0, 0xFF],
        [0, 0, 0, 0, 1],
        [0xFF, 0xFF, 0xFF, 0xFF, 2],
    ] {
        assert!(matches!(parse_response_header(&header), Err(PINEError::CommandFailure)));
    }
}

#[test]
fn length_shorter_than_header_is_an_io_error() {
    assert!(matches!(parse_response_header(&[4, 0, 0, 0, 0]), Err(PINEError::IO(_))));
    assert!(matches!(parse_response_header(&[0, 0, 0, 0, 0]), Err(PINEError::IO(_))));
}

#[test]
fn header_length_constant() {
    assert_eq!(RESPONSE_HEADER_LEN, 5);
}

#[test]
fn client_keeps_its_stream() {
    let mut pine = PINE::from_stream(vec![1u8, 2, 3]);
    pine.stream_mut().push(4);
    assert_eq!(pine.into_inner(), vec![1, 2, 3, 4]);
}

#[test]
fn simulated_exchange() {
    let mut batch = PINEBatch::new();
    batch.add(PINECommand::MsgTitle);
    batch.add(PINECommand::MsgWrite32 { mem: 0x1000, val: 42 });
    batch.add(PINECommand::MsgRead32 { mem: 0x003667DC });
    let request = batch.finalize().to_vec();
    assert_eq!(request.len(), 4 + 1 + 9 + 5);
    assert_eq!(u32::from_le_bytes([request[0], request[1], request[2], request[3]]), 19);

    // The emulator answers with status 0 and one field per command.
    let mut payload = Vec::new();
    payload.extend_from_slice(&9u32.to_le_bytes());
    payload.extend_from_slice(b"Klonoa 2");
    payload.push(0);
    payload.extend_from_slice(&3566512u32.to_le_bytes());
    let mut response = ((payload.len() + 5) as u32).to_le_bytes().to_vec();
    response.push(0);
    response.extend_from_slice(&payload);

    let header: [u8; 5] = response[..5].try_into().unwrap();
    let len = parse_response_header(&header).unwrap();
    assert_eq!(len, payload.len());
    let res = batch.decode(&response[5..5 + len]).unwrap();
    assert_eq!(
        res,
        vec![
            PINEResponse::ResTitle { title: String::from("Klonoa 2") },
            PINEResponse::ResWrite32,
            PINEResponse::ResRead32 { val: 3566512 },
        ]
    );
}

#[test]
fn errors_convert_from_their_sources() {
    let e: PINEError = std::io::Error::from(std::io::ErrorKind::BrokenPipe).into();
    assert!(matches!(e, PINEError::IO(_)));
    let bad = vec![0xC3u8];
    let utf8 = std::str::from_utf8(&bad).unwrap_err();
    let e: PINEError = utf8.into();
    assert!(matches!(e, PINEError::UTF8(_)));
}
