use ersha::protocol::{
    Packet, PacketHeader, PacketType, ProtocolError, SensorType, MAX_PACKET_SIZE, MAX_PAYLOAD_SIZE,
    PACKET_PREAMBLE, PROTOCOL_VERSION,
};

#[test]
fn header_bytes_are_little_endian() {
    let h = PacketHeader::new(PacketType::SensorData, 0x1234, 0x0056);
    assert_eq!(h.version, PROTOCOL_VERSION);
    assert_eq!(h.to_bytes(), [0x01, 0x01, 0x34, 0x12, 0x56, 0x00]);
    assert_eq!(PacketHeader::from_bytes(&h.to_bytes()).unwrap(), h);
}

#[test]
fn header_errors() {
    assert_eq!(
        PacketHeader::from_bytes(&[1, 1, 0]),
        Err(ProtocolError::InsufficientData { needed: 6, available: 3 })
    );
    assert_eq!(
        PacketHeader::from_bytes(&[2, 1, 0, 0, 0, 0]),
        Err(ProtocolError::UnsupportedVersion(2))
    );
    assert_eq!(
        PacketHeader::from_bytes(&[1, 9, 0, 0, 0, 0]),
        Err(ProtocolError::InvalidPacketType(9))
    );
}

#[test]
fn packet_roundtrip() {
    let p = Packet::new(PacketType::Heartbeat, 7, &[9, 8, 7]).unwrap();
    assert_eq!(p.preamble, PACKET_PREAMBLE);
    assert_eq!(p.header.payload_len, 3);
    let bytes = p.to_bytes();
    assert_eq!(bytes.len(), MAX_PACKET_SIZE);
    assert_eq!(&bytes[0..2], &[0x5A, 0xE4]);
    let back = Packet::from_bytes(&bytes).unwrap();
    assert_eq!(back.header, p.header);
    assert_eq!(&back.payload[..3], &[9, 8, 7]);
    assert!(back.payload[3..].iter().all(|b| *b == 0));
}

#[test]
fn packet_errors() {
    let big = vec![0u8; MAX_PAYLOAD_SIZE + 1];
    assert_eq!(
        Packet::new(PacketType::SensorData, 1, &big).err(),
        Some(ProtocolError::PayloadTooLarge { size: MAX_PAYLOAD_SIZE + 1, max: MAX_PACKET_SIZE })
    );
    assert_eq!(
        Packet::from_bytes(&[0x5A, 0xE4, 1]).err(),
        Some(ProtocolError::InsufficientData { needed: 8, available: 3 })
    );
    assert_eq!(
        Packet::from_bytes(&[0, 0, 1, 1, 0, 0, 0, 0]).err(),
        Some(ProtocolError::InvalidPreamble(0))
    );
    assert_eq!(
        Packet::from_bytes(&[0x5A, 0xE4, 1, 1, 0, 0, 5, 0, 1]).err(),
        Some(ProtocolError::InsufficientData { needed: 13, available: 9 })
    );
}

#[test]
fn type_codes() {
    assert_eq!(PacketType::try_from(1).unwrap(), PacketType::SensorData);
    assert_eq!(PacketType::try_from(2).unwrap(), PacketType::Heartbeat);
    assert_eq!(PacketType::Heartbeat.code(), 2);
    assert_eq!(SensorType::try_from(7).unwrap(), SensorType::Accelerometer);
    assert_eq!(SensorType::Battery.code(), 6);
    assert_eq!(SensorType::try_from(0), Err(ProtocolError::InvalidSensorType(0)));
}
