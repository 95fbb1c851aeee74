use cfdp_core::{
    read_length_value_pair, read_type, read_type_length_value, CRCFlag, Condition, DeliveryCode,
    Direction, FileSizeFlag, FileStatusCode, MessageType, NakOrKeepAlive, PDUEncode, PDUError,
    PDUHeader, PDUType, SegmentationControl, SegmentedData, TraceControl, TransactionStatus,
    TransmissionMode, VariableID, U3,
};

#[test]
fn read_lv() {
    for input_message in [
        "Hello World",
        "Goodbye world!>",
        "A much longer message really but we need to be sure.",
        "",
    ] {
        let mut buffer: Vec<u8> = vec![input_message.as_bytes().len() as u8];
        buffer.extend_from_slice(input_message.as_bytes());
        let input_buffer = &buffer[..];
        assert_ne!(0, input_buffer.len());
        let (recovered, read) = read_length_value_pair(input_buffer).unwrap();
        assert_eq!(input_message.as_bytes(), recovered);
        assert_eq!(read, input_message.len() + 1);
    }
}

#[test]
fn read_tlv() {
    for message_type in [
        MessageType::ProxyPutCancel,
        MessageType::ProxyClosureRequest,
        MessageType::SFOReport,
    ] {
        for input_message in [
            "Hello World",
            "Goodbye world!>",
            "A much longer message really but we need to be sure.",
        ] {
            let mut buffer: Vec<u8> = vec![message_type.to_u8()];
            buffer.push(input_message.as_bytes().len() as u8);
            buffer.extend_from_slice(input_message.as_bytes());
            let input_buffer = &buffer[..];
            let (msg_type, message, read) = read_type_length_value(input_buffer).unwrap();
            assert_eq!(message_type, MessageType::from_u8(msg_type).unwrap());
            assert_eq!(input_message.as_bytes(), message);
            assert_eq!(read, input_message.len() + 2);
        }
    }
}

fn header_roundtrip_case(
    pdu_data_field_length: u16,
    source_entity_id: VariableID,
    transaction_sequence_number: VariableID,
    destination_entity_id: VariableID,
) {
    for version in [U3::One, U3::Seven] {
        for pdu_type in [PDUType::FileDirective, PDUType::FileData] {
            for direction in [Direction::ToReceiver, Direction::ToSender] {
                for transmission_mode in
                    [TransmissionMode::Acknowledged, TransmissionMode::Unacknowledged]
                {
                    for crc_flag in [CRCFlag::NotPresent, CRCFlag::Present] {
                        for large_file_flag in [FileSizeFlag::Small, FileSizeFlag::Large] {
                            let (segmentation_control, segment_metadata_flag) = match &pdu_type {
                                PDUType::FileData => {
                                    (SegmentationControl::Preserved, SegmentedData::Present)
                                }
                                PDUType::FileDirective => {
                                    (SegmentationControl::NotPreserved, SegmentedData::Present)
                                }
                            };
                            let expected = PDUHeader {
                                version: version.clone(),
                                pdu_type: pdu_type.clone(),
                                direction: direction.clone(),
                                transmission_mode,
                                crc_flag,
                                large_file_flag,
                                pdu_data_field_length,
                                segmentation_control,
                                segment_metadata_flag,
                                source_entity_id,
                                transaction_sequence_number,
                                destination_entity_id,
                            };
                            let buffer = expected.clone().encode();
                            let (recovered, read) = PDUHeader::decode(buffer.as_slice()).unwrap();
                            assert_eq!(expected, recovered);
                            assert_eq!(read, buffer.len());
                            assert_eq!(read, expected.encoded_len() as usize);
                        }
                    }
                }
            }
        }
    }
}

#[test]
fn pdu_header_u16_ids() {
    header_roundtrip_case(
        12_u16,
        VariableID::U16(u16::MAX),
        VariableID::U16(1485_u16),
        VariableID::U16(22_u16),
    );
}

#[test]
fn pdu_header_u32_ids() {
    header_roundtrip_case(
        8745_u16,
        VariableID::U32(u32::MAX),
        VariableID::U32(88654_u32),
        VariableID::U32(76_u32),
    );
}

#[test]
fn pdu_header_u64_ids() {
    header_roundtrip_case(
        65531_u16,
        VariableID::U64(u64::MAX),
        VariableID::U64(5673452001_u64),
        VariableID::U64(5_u64),
    );
}

#[test]
fn pdu_header_mixed_ids() {
    header_roundtrip_case(0, VariableID::U8(7), VariableID::U64(1), VariableID::U8(200));
}

fn sample_header() -> PDUHeader {
    PDUHeader {
        version: U3::One,
        pdu_type: PDUType::FileData,
        direction: Direction::ToSender,
        transmission_mode: TransmissionMode::Unacknowledged,
        crc_flag: CRCFlag::Present,
        large_file_flag: FileSizeFlag::Large,
        pdu_data_field_length: 12,
        segmentation_control: SegmentationControl::Preserved,
        segment_metadata_flag: SegmentedData::Present,
        source_entity_id: VariableID::U16(0x0102),
        transaction_sequence_number: VariableID::U8(0x33),
        destination_entity_id: VariableID::U16(0x0405),
    }
}

#[test]
fn pdu_header_exact_bytes() {
    let header = sample_header();
    assert_eq!(header.encoded_len(), 9);
    let bytes = header.encode();
    // 001 1 1 1 1 1, length 12 + 2, 1 001 1 000, then the identifiers
    assert_eq!(
        bytes,
        vec![0x3F, 0x00, 0x0E, 0x98, 0x01, 0x02, 0x33, 0x04, 0x05]
    );
}

#[test]
fn pdu_header_no_crc_keeps_length() {
    let mut header = sample_header();
    header.crc_flag = CRCFlag::NotPresent;
    header.version = U3::Zero;
    let bytes = header.encode();
    assert_eq!(&bytes[..4], &[0x1D, 0x00, 0x0C, 0x98]);
}

#[test]
fn pdu_header_decode_ignores_trailing_bytes() {
    let mut bytes = sample_header().encode();
    bytes.extend_from_slice(&[0xAA, 0xBB, 0xCC]);
    let (header, read) = PDUHeader::decode(&bytes).unwrap();
    assert_eq!(header, sample_header());
    assert_eq!(read, 9);
}

#[test]
fn pdu_header_decode_short_input() {
    let bytes = sample_header().encode();
    for cut in 0..bytes.len() {
        assert_eq!(PDUHeader::decode(&bytes[..cut]), Err(PDUError::ReadError));
    }
}

#[test]
fn pdu_header_decode_unknown_id_length() {
    // entity identifiers of 3 bytes
    let bytes = [0x20, 0x00, 0x05, 0x20, 1, 2, 3, 4, 5, 6, 7];
    assert_eq!(PDUHeader::decode(&bytes), Err(PDUError::UnknownIDLength(3)));
    // sequence number of 5 bytes
    let bytes = [0x20, 0x00, 0x05, 0x04, 1, 2, 3, 4, 5, 6, 7];
    assert_eq!(PDUHeader::decode(&bytes), Err(PDUError::UnknownIDLength(5)));
}

#[test]
fn pdu_header_decode_fields() {
    // version 7, directive, to sender, acknowledged, no CRC, small files;
    // length 0x0102; not preserved, 1-byte ids, metadata flag set, 2-byte sequence number
    let bytes = [0xE8, 0x01, 0x02, 0x09, 0x11, 0x22, 0x33, 0x44];
    let (header, read) = PDUHeader::decode(&bytes).unwrap();
    assert_eq!(read, 8);
    assert_eq!(
        header,
        PDUHeader {
            version: U3::Seven,
            pdu_type: PDUType::FileDirective,
            direction: Direction::ToSender,
            transmission_mode: TransmissionMode::Acknowledged,
            crc_flag: CRCFlag::NotPresent,
            large_file_flag: FileSizeFlag::Small,
            pdu_data_field_length: 0x0102,
            segmentation_control: SegmentationControl::NotPreserved,
            segment_metadata_flag: SegmentedData::Present,
            source_entity_id: VariableID::U8(0x11),
            transaction_sequence_number: VariableID::U16(0x2233),
            destination_entity_id: VariableID::U8(0x44),
        }
    );
}

#[test]
fn pdu_header_decode_strips_crc_length() {
    let bytes = [0x02, 0x00, 0x02, 0x00, 0x01, 0x02, 0x03];
    let (header, read) = PDUHeader::decode(&bytes).unwrap();
    assert_eq!(header.crc_flag, CRCFlag::Present);
    assert_eq!(header.pdu_data_field_length, 0);
    assert_eq!(read, 7);
}

#[test]
fn read_lv_errors() {
    assert_eq!(read_length_value_pair(&[]), Err(PDUError::ReadError));
    assert_eq!(read_length_value_pair(&[3, 1, 2]), Err(PDUError::ReadError));
    assert_eq!(read_length_value_pair(&[2, 1, 2, 9]), Ok((vec![1, 2], 3)));
}

#[test]
fn read_type_and_tlv_errors() {
    assert_eq!(read_type(&[]), Err(PDUError::ReadError));
    assert_eq!(read_type(&[7, 8]), Ok((7, 1)));
    assert_eq!(read_type_length_value(&[]), Err(PDUError::ReadError));
    assert_eq!(read_type_length_value(&[7]), Err(PDUError::ReadError));
    assert_eq!(read_type_length_value(&[7, 2, 1]), Err(PDUError::ReadError));
    assert_eq!(read_type_length_value(&[7, 0, 1]), Ok((7, vec![], 2)));
}

#[test]
fn transmission_mode_encoding() {
    assert_eq!(TransmissionMode::Acknowledged.encoded_len(), 1);
    assert_eq!(TransmissionMode::Unacknowledged.encode(), vec![1]);
    assert_eq!(TransmissionMode::Acknowledged.encode(), vec![0]);
    assert_eq!(
        TransmissionMode::decode(&[1, 0]),
        Ok((TransmissionMode::Unacknowledged, 1))
    );
    assert_eq!(TransmissionMode::decode(&[]), Err(PDUError::ReadError));
    assert_eq!(
        TransmissionMode::decode(&[2]),
        Err(PDUError::InvalidTransmissionMode(2))
    );
}

#[test]
fn file_size_flag_encoded_len() {
    assert_eq!(FileSizeFlag::Small.encoded_len(), 4);
    assert_eq!(FileSizeFlag::Large.encoded_len(), 8);
}

#[test]
fn variable_id_bytes() {
    assert_eq!(VariableID::U8(9).to_be_bytes(), vec![9]);
    assert_eq!(VariableID::U16(0x1234).to_be_bytes(), vec![0x12, 0x34]);
    assert_eq!(
        VariableID::U32(0x1234_5678).to_be_bytes(),
        vec![0x12, 0x34, 0x56, 0x78]
    );
    assert_eq!(
        VariableID::U64(0x0102_0304_0506_0708).to_be_bytes(),
        vec![1, 2, 3, 4, 5, 6, 7, 8]
    );
    assert_eq!(VariableID::U32(1).encoded_len(), 4);
    assert_eq!(
        VariableID::try_from_bytes(&[1, 2, 3, 4, 5, 6, 7, 8]),
        Ok(VariableID::U64(0x0102_0304_0506_0708))
    );
    assert_eq!(
        VariableID::try_from_bytes(&[0xAB, 0xCD]),
        Ok(VariableID::U16(0xABCD))
    );
    assert_eq!(
        VariableID::try_from_bytes(&[1, 2, 3]),
        Err(PDUError::UnknownIDLength(3))
    );
    assert_eq!(VariableID::try_from_bytes(&[]), Err(PDUError::UnknownIDLength(0)));
}

#[test]
fn numeric_codes() {
    assert_eq!(Condition::CancelReceived.to_u8(), 0b1111);
    assert_eq!(Condition::from_u8(0b1110), Some(Condition::SuspendReceived));
    assert_eq!(Condition::from_u8(12), None);
    assert_eq!(U3::from_u8(5), Some(U3::Five));
    assert_eq!(U3::from_u8(8), None);
    assert_eq!(TraceControl::BothDirections.to_u8(), 3);
    assert_eq!(NakOrKeepAlive::from_u8(1), Some(NakOrKeepAlive::KeepAlive));
    assert_eq!(DeliveryCode::from_u8(2), None);
    assert_eq!(FileStatusCode::from_u8(2), Some(FileStatusCode::Retained));
    assert_eq!(TransactionStatus::Unrecognized.to_u8(), 3);
    assert_eq!(MessageType::from_u8(0x38), Some(MessageType::RemoteResumeRequest));
    assert_eq!(MessageType::from_u8(0x0C), None);
    assert_eq!(MessageType::SFOFileStoreResponse.to_u8(), 0x46);
    for n in 0..=255u8 {
        if let Some(m) = MessageType::from_u8(n) {
            assert_eq!(m.to_u8(), n);
        }
        if let Some(c) = Condition::from_u8(n) {
            assert_eq!(c.to_u8(), n);
        }
    }
}

#[test]
fn pdu_header_decode_short_crc_length() {
    // CRC flag set, wire data field length 0 and 1: too short for the CRC
    let bytes = [0x02, 0x00, 0x00, 0x00, 0x01, 0x02, 0x03];
    assert_eq!(PDUHeader::decode(&bytes), Err(PDUError::InvalidDataFieldLength(0)));
    let bytes = [0x02, 0x00, 0x01];
    assert_eq!(PDUHeader::decode(&bytes), Err(PDUError::InvalidDataFieldLength(1)));
    // without the CRC flag the same length is accepted
    let bytes = [0x00, 0x00, 0x00, 0x00, 0x01, 0x02, 0x03];
    let (header, read) = PDUHeader::decode(&bytes).unwrap();
    assert_eq!(header.pdu_data_field_length, 0);
    assert_eq!(read, 7);
}
