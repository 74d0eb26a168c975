use earthmover::communication::{data_stream_to_packet_pairs, FrameError, MessageType, MoverPacket};

#[test]
fn header_round_trips_for_all_valid_fields() {
    for version in [0u8, 1, 7, 255] {
        for msg_type in [MessageType::Lidar, MessageType::Accelerometer] {
            for len in [0u16, 1, 255, 256, 0x1234, u16::MAX] {
                let p = MoverPacket::new(version, msg_type, len);
                let bytes = p.to_bytes();
                assert_eq!(MoverPacket::from_bytes(&bytes), Some(p));
            }
        }
    }
}

#[test]
fn header_bytes_are_big_endian() {
    let p = MoverPacket::new(2, MessageType::Accelerometer, 0x0102);
    assert_eq!(p.to_bytes(), [2, 1, 1, 2]);
    assert_eq!(MoverPacket::new(1, MessageType::Lidar, 300).to_bytes(), [1, 0, 1, 44]);
}

#[test]
fn header_rejects_wrong_lengths() {
    assert_eq!(MoverPacket::from_bytes(&[]), None);
    assert_eq!(MoverPacket::from_bytes(&[1, 0, 0]), None);
    assert_eq!(MoverPacket::from_bytes(&[1, 0, 0, 0, 0]), None);
}

#[test]
fn header_rejects_unknown_type() {
    assert_eq!(MoverPacket::from_bytes(&[1, 2, 0, 0]), None);
    assert_eq!(MoverPacket::from_bytes(&[1, 255, 0, 0]), None);
    assert_eq!(MessageType::from_byte(2), None);
    assert_eq!(MessageType::from_byte(1), Some(MessageType::Accelerometer));
}

#[test]
fn v1_header_counts_payload() {
    let p = MoverPacket::v1_from_data(MessageType::Lidar, &[9, 9, 9]);
    assert_eq!(p, MoverPacket::new(1, MessageType::Lidar, 3));
}

#[test]
fn serialize_completely_prefixes_header() {
    let p = MoverPacket::v1_from_data(MessageType::Accelerometer, &[5, 6]);
    assert_eq!(p.serialize_completely(&[5, 6]), vec![1, 1, 0, 2, 5, 6]);
}

#[test]
fn stream_splits_into_frames() {
    let mut stream = MoverPacket::v1_from_data(MessageType::Lidar, &[1, 2, 3]).serialize_completely(&[1, 2, 3]);
    stream.extend(MoverPacket::v1_from_data(MessageType::Accelerometer, &[]).serialize_completely(&[]));
    stream.extend(MoverPacket::v1_from_data(MessageType::Accelerometer, &[4]).serialize_completely(&[4]));
    let frames = data_stream_to_packet_pairs(&stream);
    assert_eq!(frames.len(), 3);
    assert_eq!(frames[0], Ok((MoverPacket::new(1, MessageType::Lidar, 3), vec![1, 2, 3])));
    assert_eq!(frames[1], Ok((MoverPacket::new(1, MessageType::Accelerometer, 0), vec![])));
    assert_eq!(frames[2], Ok((MoverPacket::new(1, MessageType::Accelerometer, 1), vec![4])));
}

#[test]
fn short_payload_is_an_error_for_the_last_frame() {
    assert_eq!(data_stream_to_packet_pairs(&[1, 0, 0, 3, 1, 2]), vec![Err(FrameError::Truncated)]);
    assert_eq!(
        data_stream_to_packet_pairs(&[1, 0, 0, 1, 9, 1, 1, 0, 5, 1]),
        vec![Ok((MoverPacket::new(1, MessageType::Lidar, 1), vec![9])), Err(FrameError::Truncated)]
    );
}

#[test]
fn unknown_type_is_an_error_for_that_frame_only() {
    let frames = data_stream_to_packet_pairs(&[1, 0, 0, 0, 1, 9, 0, 2, 7, 7, 2, 1, 0, 1, 8]);
    assert_eq!(
        frames,
        vec![
            Ok((MoverPacket::new(1, MessageType::Lidar, 0), vec![])),
            Err(FrameError::UnknownType(9)),
            Ok((MoverPacket::new(2, MessageType::Accelerometer, 1), vec![8])),
        ]
    );
}

#[test]
fn stream_ignores_trailing_partial_header() {
    assert_eq!(data_stream_to_packet_pairs(&[]), vec![]);
    let frames = data_stream_to_packet_pairs(&[1, 0, 0, 1, 7, 1, 0]);
    assert_eq!(frames, vec![Ok((MoverPacket::new(1, MessageType::Lidar, 1), vec![7]))]);
}
