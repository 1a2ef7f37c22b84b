use casimir::host::{build_command, classify_incoming, command_response, frame_length, hal_frame, process, HalRoute, HostError};

#[test]
fn routes_by_message_type() {
    assert_eq!(classify_incoming(2), HalRoute::Control);
    assert_eq!(classify_incoming(3), HalRoute::Control);
    assert_eq!(classify_incoming(0), HalRoute::Data);
    assert_eq!(classify_incoming(1), HalRoute::Unsupported);
    assert_eq!(classify_incoming(7), HalRoute::Unsupported);
}

#[test]
fn hal_framing_is_big_endian() {
    // A Command: packet type 1, length 4, then the packet.
    assert_eq!(hal_frame(&vec![0x20, 0x00, 0x01, 0x01]), Ok(vec![0x01, 0x00, 0x04, 0x20, 0x00, 0x01, 0x01]));
    // A Data packet of 300 bytes.
    let mut data = vec![0x00, 0x00, 0xff];
    data.extend_from_slice(&[0xaa; 297]);
    let framed = hal_frame(&data).unwrap();
    assert_eq!(&framed[..3], &[0x00, 0x01, 0x2c]);
    assert_eq!(framed.len(), 303);
    assert_eq!(frame_length([0x01, 0x2c]), 300);
    assert_eq!(hal_frame(&vec![0; 65536]), Err(HostError::PacketTooLong));
    assert_eq!(hal_frame(&vec![]), Err(HostError::InvalidPacket));
    assert_eq!(hal_frame(&vec![0x80, 0x00, 0x00]), Err(HostError::InvalidPacket));
}

#[test]
fn minimal_server_answers() {
    assert_eq!(command_response(&vec![0x20, 0x00, 0x01, 0x01]), Ok(vec![0x40, 0x00, 0x01, 0x00]));
    assert_eq!(command_response(&vec![0x20, 0x01, 0x00]), Ok(vec![0x40, 0x01, 0x00]));
    assert_eq!(command_response(&vec![0x20, 0x02, 0x00]), Err(HostError::UnsupportedCommand));
    assert_eq!(command_response(&vec![0x40, 0x00, 0x00]), Err(HostError::InvalidCommand));
    assert_eq!(process(1, &vec![0x20, 0x00, 0x01, 0x01]), Ok(vec![0x02, 0x00, 0x04, 0x40, 0x00, 0x01, 0x00]));
    assert_eq!(process(0, &vec![0x20, 0x00, 0x01, 0x01]), Err(HostError::UnsupportedPacket));
}

#[test]
fn builds_reset_and_init() {
    assert_eq!(build_command(0x00), Some(vec![0x20, 0x00, 0x01, 0x01]));
    assert_eq!(build_command(0x01), Some(vec![0x20, 0x01, 0x02, 0x00, 0x00]));
    assert_eq!(build_command(0x02), None);
}

