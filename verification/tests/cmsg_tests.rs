use interprocess::cmsg::buffer::{align_up, Cmsg, CmsgRef, CmsgVecBuf, DecodeError};

#[test]
fn align_up_values() {
    assert_eq!(align_up(0), 0);
    assert_eq!(align_up(1), 8);
    assert_eq!(align_up(8), 8);
    assert_eq!(align_up(9), 16);
    assert_eq!(align_up(28), 32);
}

#[test]
fn cmsg_len_for_payload_size_values() {
    assert_eq!(Cmsg::cmsg_len_for_payload_size(0), 16);
    assert_eq!(Cmsg::cmsg_len_for_payload_size(1), 24);
    assert_eq!(Cmsg::cmsg_len_for_payload_size(12), 32);
}

#[test]
fn single_record_round_trip() {
    let mut buf = CmsgVecBuf::new(64);
    buf.add_message(&Cmsg::new(1, 2, vec![0xAA, 0xBB, 0xCC]));
    let records = buf.as_ref().decode_all().expect("decode failed");
    assert_eq!(records.len(), 1);
    assert_eq!(records[0].cmsg_level(), 1);
    assert_eq!(records[0].cmsg_type(), 2);
    assert_eq!(records[0].data(), &[0xAA, 0xBB, 0xCC]);
}

#[test]
fn multi_record_round_trip_keeps_order() {
    let mut buf = CmsgVecBuf::new(0);
    buf.add_message(&Cmsg::new(1, 2, vec![1; 12]));
    buf.add_message(&Cmsg::new(7, 9, vec![2, 3, 4]));
    buf.add_message(&Cmsg::new(5, 6, Vec::new()));
    let records = buf.as_ref().decode_all().expect("decode failed");
    assert_eq!(records.len(), 3);
    assert_eq!(records[0], Cmsg::new(1, 2, vec![1; 12]));
    assert_eq!(records[1], Cmsg::new(7, 9, vec![2, 3, 4]));
    assert_eq!(records[2], Cmsg::new(5, 6, Vec::new()));
}

#[test]
fn wire_layout_is_as_documented() {
    let mut buf = CmsgVecBuf::new(0);
    buf.add_message(&Cmsg::new(0x01020304, 0x05060708, vec![0xAA]));
    let bytes = buf.as_bytes();
    // stored length: header (16) + payload (1) = 17, little-endian over 8 bytes
    assert_eq!(&bytes[0..8], &[17, 0, 0, 0, 0, 0, 0, 0]);
    // level and type, little-endian over 4 bytes each
    assert_eq!(&bytes[8..12], &[0x04, 0x03, 0x02, 0x01]);
    assert_eq!(&bytes[12..16], &[0x08, 0x07, 0x06, 0x05]);
    // payload, then zero padding to the 8-byte boundary
    assert_eq!(bytes[16], 0xAA);
    assert_eq!(&bytes[17..24], &[0; 7]);
    assert_eq!(bytes.len(), 24);
}

#[test]
fn clear_resets_for_reuse() {
    let mut buf = CmsgVecBuf::new(0);
    buf.add_message(&Cmsg::new(1, 2, vec![9]));
    assert!(buf.byte_len() > 0);
    buf.clear();
    assert_eq!(buf.byte_len(), 0);
    let records = buf.as_ref().decode_all().expect("decode failed");
    assert!(records.is_empty());
    buf.add_message(&Cmsg::new(3, 4, vec![8]));
    let records = buf.as_ref().decode_all().expect("decode failed");
    assert_eq!(records.len(), 1);
    assert_eq!(records[0].cmsg_level(), 3);
}

#[test]
fn empty_buffer_decodes_to_no_records() {
    let backing: Vec<u8> = Vec::new();
    let records = CmsgRef::new(&backing, 0).decode_all().expect("decode failed");
    assert!(records.is_empty());
}

#[test]
fn used_length_beyond_backing_is_reported() {
    let backing = [0u8; 8];
    let r = CmsgRef::new(&backing, 16).decode_all();
    assert_eq!(r.unwrap_err(), DecodeError::UsedLengthTooLarge);
}

#[test]
fn truncated_header_is_reported() {
    let backing = [0u8; 8];
    let r = CmsgRef::new(&backing, 8).decode_all();
    assert_eq!(r.unwrap_err(), DecodeError::TruncatedHeader);
}

#[test]
fn invalid_stored_length_is_reported() {
    // a full header whose stored length (8) is smaller than a header
    let mut backing = vec![0u8; 16];
    backing[0] = 8;
    let r = CmsgRef::new(&backing, 16).decode_all();
    assert_eq!(r.unwrap_err(), DecodeError::InvalidRecordLength);
}

#[test]
fn overrunning_stored_length_is_reported() {
    // a full header whose stored length (32) overruns the 16 used bytes
    let mut backing = vec![0u8; 16];
    backing[0] = 32;
    let r = CmsgRef::new(&backing, 16).decode_all();
    assert_eq!(r.unwrap_err(), DecodeError::TruncatedPayload);
}

#[test]
fn malformation_after_valid_record_is_reported() {
    let mut buf = CmsgVecBuf::new(0);
    buf.add_message(&Cmsg::new(1, 2, vec![5]));
    let mut backing = buf.as_bytes().to_vec();
    // append a second, truncated header
    backing.extend_from_slice(&[0u8; 8]);
    let used = backing.len();
    let r = CmsgRef::new(&backing, used).decode_all();
    assert_eq!(r.unwrap_err(), DecodeError::TruncatedHeader);
}

#[test]
fn stepwise_decoding_is_restartable() {
    let mut buf = CmsgVecBuf::new(0);
    buf.add_message(&Cmsg::new(1, 2, vec![5]));
    buf.add_message(&Cmsg::new(3, 4, vec![6, 7]));
    let view = buf.as_ref();

    let mut dec = view.decode();
    let first = dec.next_record().unwrap().unwrap();
    assert_eq!(first.cmsg_level(), 1);
    let second = dec.next_record().unwrap().unwrap();
    assert_eq!(second.cmsg_level(), 3);
    assert!(dec.next_record().unwrap().is_none());

    // a fresh pass starts over at the first record
    let mut dec2 = view.decode();
    let again = dec2.next_record().unwrap().unwrap();
    assert_eq!(again.cmsg_level(), 1);
}

#[test]
fn last_record_padding_may_be_absent() {
    let mut buf = CmsgVecBuf::new(0);
    buf.add_message(&Cmsg::new(1, 2, vec![5]));
    // drop the trailing padding: the kernel reports only 17 used bytes
    let backing = buf.as_bytes().to_vec();
    let r = CmsgRef::new(&backing, 17).decode_all().expect("decode failed");
    assert_eq!(r.len(), 1);
    assert_eq!(r[0].data(), &[5]);
}
