use dfmessage::error::DFParseError;
use dfmessage::header::{header_size, parse_header, serialize_header, DFBinaryHeader, MetaType};
use dfmessage::message::{
    assemble_message, frame_message_now, header_time_of, make_message, next_read, parse_meta, read_df_message_bytes, split_message, ReadStep,
};

fn header_array(buf: &[u8]) -> [u8; 30] {
    let mut h = [0u8; 30];
    h.copy_from_slice(&buf[0..30]);
    h
}

fn be(buf: &[u8], off: usize) -> u32 {
    u32::from_be_bytes([buf[off], buf[off + 1], buf[off + 2], buf[off + 3]])
}

fn df01_header(magic: u32, meta_code: u32, close: &[u8; 4]) -> [u8; 30] {
    let mut h = [0u8; 30];
    h[0..2].copy_from_slice(b"#!");
    h[2..6].copy_from_slice(&magic.to_be_bytes());
    h[6..10].copy_from_slice(&7u32.to_be_bytes());
    h[10..14].copy_from_slice(&meta_code.to_be_bytes());
    h[14..18].copy_from_slice(&5u32.to_be_bytes());
    h[18..22].copy_from_slice(&0u32.to_be_bytes());
    h[22..26].copy_from_slice(&3u32.to_be_bytes());
    h[26..30].copy_from_slice(close);
    h
}

#[test]
fn header_size_of_markers() {
    assert_eq!(header_size(b"#!").unwrap(), 30);
    assert_eq!(header_size(b"#~").unwrap(), 24);
    match header_size(b"ab") {
        Err(DFParseError::NotADFMessage(m)) => assert_eq!(m, "unsupported opening scope ab"),
        other => panic!("unexpected {:?}", other),
    }
    assert!(matches!(header_size(b"!#"), Err(DFParseError::NotADFMessage(_))));
}

#[test]
fn serialized_header_layout() {
    let mut buf = Vec::new();
    serialize_header(&mut buf, 0x0102_0304, 9, MetaType::Json, 0xAABB_CCDD);
    assert_eq!(
        buf,
        vec![
            b'#', b'!', 0x00, 0x01, 0x40, 0x00, 0xAA, 0xBB, 0xCC, 0xDD, 0x00, 0x01, 0x00, 0x00, 0x01,
            0x02, 0x03, 0x04, 0, 0, 0, 0, 0, 0, 0, 9, b'!', b'#', b'\r', b'\n'
        ]
    );
}

#[test]
fn parse_valid_header() {
    let h = df01_header(0x00014000, 0x00010000, b"!#\r\n");
    let parsed = parse_header(&h).unwrap();
    assert_eq!(
        parsed,
        DFBinaryHeader::DF01 { time: 7, meta_type: MetaType::Json, meta_len: 5, data_type: 0, data_len: 3 }
    );
    assert_eq!(parsed.get_meta_len(), 5);
    assert_eq!(parsed.get_data_len(), 3);
    assert_eq!(parsed.payload_len(), Some(3));
}

#[test]
fn bad_magic_is_malformed() {
    let h = df01_header(0x00014001, 0x00010000, b"!#\r\n");
    match parse_header(&h) {
        Err(DFParseError::MalformedHeader(m)) => assert_eq!(m, "header_type != 0x14000"),
        other => panic!("unexpected {:?}", other),
    }
    let h = df01_header(0, 0xdead, b"xxxx");
    assert!(matches!(parse_header(&h), Err(DFParseError::MalformedHeader(_))));
}

#[test]
fn bad_closing_marker_is_malformed() {
    let h = df01_header(0x00014000, 0x00010000, b"~#\r\n");
    match parse_header(&h) {
        Err(DFParseError::MalformedHeader(m)) => {
            assert_eq!(m, "open scope '#!' does not match closing '~#\r\n'");
            assert!(m.contains("#!"));
            assert!(m.contains("~#\r\n"));
        }
        other => panic!("unexpected {:?}", other),
    }
}

#[test]
fn unknown_meta_code_is_malformed() {
    let h = df01_header(0x00014000, 0x0001abcd, b"!#\r\n");
    match parse_header(&h) {
        Err(DFParseError::MalformedHeader(m)) => assert_eq!(m, "No meta type for 0x1abcd code!"),
        other => panic!("unexpected {:?}", other),
    }
    match MetaType::try_from(0x10) {
        Err(DFParseError::MalformedHeader(m)) => assert_eq!(m, "No meta type for 0x10 code!"),
        other => panic!("unexpected {:?}", other),
    }
    assert_eq!(MetaType::try_from(0x00010007).unwrap(), MetaType::Qdatastream);
    assert_eq!(MetaType::try_from(0).unwrap(), MetaType::Undefined);
    assert_eq!(MetaType::Json.code(), 0x00010000);
}

#[test]
fn df02_and_unknown_markers() {
    let mut h = [0u8; 30];
    h[0..2].copy_from_slice(b"#~");
    match parse_header(&h) {
        Err(DFParseError::Unimplemented(m)) => assert_eq!(m, "DF02 format parsing is not implemented"),
        other => panic!("unexpected {:?}", other),
    }
    h[0..2].copy_from_slice(b"{}");
    assert!(matches!(parse_header(&h), Err(DFParseError::NotADFMessage(_))));
    assert!(matches!(split_message(&h[0..24]), Err(DFParseError::NotADFMessage(_))));
    h[0..2].copy_from_slice(b"#~");
    assert!(matches!(split_message(&h[0..24]), Err(DFParseError::Unimplemented(_))));
    assert!(matches!(split_message(&h[0..23]), Err(DFParseError::IoError(_))));
}

#[test]
fn qdatastream_header_parses_but_metadata_is_refused() {
    let h = df01_header(0x00014000, 0x00010007, b"!#\r\n");
    let header = parse_header(&h).unwrap();
    assert!(matches!(header, DFBinaryHeader::DF01 { meta_type: MetaType::Qdatastream, .. }));
    match parse_meta(&header, b"{}".to_vec()) {
        Err(DFParseError::Unimplemented(m)) => {
            assert_eq!(m, "MetaType::Qdatastream handling is not implemented");
        }
        other => panic!("unexpected {:?}", other.map(|_| ())),
    }
    let undefined = DFBinaryHeader::DF01 { time: 0, meta_type: MetaType::Undefined, meta_len: 2, data_type: 0, data_len: 0 };
    assert!(matches!(parse_meta(&undefined, b"{}".to_vec()), Err(DFParseError::Unimplemented(_))));
}

#[test]
fn bad_json_is_meta_error() {
    let msg = assemble_message(b"{not json", &None, 1).unwrap();
    assert!(matches!(read_df_message_bytes(&msg), Err(DFParseError::MetaError(_))));
}

#[test]
fn assembled_message_bytes() {
    let msg = assemble_message(b"{}", &Some(vec![1, 2, 3]), 5).unwrap();
    assert_eq!(msg.len(), 30 + 4 + 3);
    assert_eq!(&msg[0..2], b"#!");
    assert_eq!(be(&msg, 2), 0x00014000);
    assert_eq!(be(&msg, 6), 5);
    assert_eq!(be(&msg, 10), 0x00010000);
    assert_eq!(be(&msg, 14), 4);
    assert_eq!(be(&msg, 18), 0);
    assert_eq!(be(&msg, 22), 3);
    assert_eq!(&msg[26..30], b"!#\r\n");
    assert_eq!(&msg[30..34], b"{}\r\n");
    assert_eq!(&msg[34..], &[1, 2, 3]);
}

#[test]
fn zero_payload_consumes_no_payload_bytes() {
    let mut msg = assemble_message(b"[1]", &None, 0).unwrap();
    assert_eq!(be(&msg, 22), 0);
    let framed = msg.len();
    msg.extend_from_slice(&[9, 9, 9]);
    let frame = split_message(&msg).unwrap();
    assert!(frame.data.is_none());
    assert_eq!(frame.consumed, framed);
    assert_eq!(frame.meta, b"[1]\r\n".to_vec());
    let read = read_df_message_bytes(&msg).unwrap();
    assert!(read.data.is_none());
}

#[test]
fn empty_payload_reads_back_as_none() {
    let msg = assemble_message(b"1", &Some(Vec::new()), 0).unwrap();
    assert_eq!(be(&msg, 22), 0);
    assert!(read_df_message_bytes(&msg).unwrap().data.is_none());
}

#[test]
fn round_trip_with_payload() {
    let meta: serde_json::Value = serde_json::from_str(r#"{"sensor":"t1","values":[1,2,3]}"#).unwrap();
    let payload = vec![0u8, 255, 7, 13, 10];
    let msg = make_message(&meta, &Some(payload.clone())).unwrap();
    let read = read_df_message_bytes(&msg).unwrap();
    assert_eq!(read.meta, meta);
    assert_eq!(read.data, Some(payload));
}

#[test]
fn example_point_end_to_end() {
    let meta: serde_json::Value = serde_json::from_str(r#"{"type":"point"}"#).unwrap();
    let msg = make_message(&meta, &None).unwrap();
    let pretty = serde_json::to_vec_pretty(&meta).unwrap();
    let header = parse_header(&header_array(&msg)).unwrap();
    assert_eq!(header.get_meta_len(), pretty.len() + 2);
    assert_eq!(header.get_data_len(), 0);
    assert_eq!(msg.len(), 30 + pretty.len() + 2);
    assert_eq!(&msg[30..30 + pretty.len()], &pretty[..]);
    assert_eq!(&msg[msg.len() - 2..], b"\r\n");
    let read = read_df_message_bytes(&msg).unwrap();
    assert_eq!(read.meta, meta);
    assert!(read.data.is_none());
}

#[test]
fn truncated_message_is_io_error() {
    let msg = assemble_message(b"{}", &Some(vec![1, 2]), 0).unwrap();
    assert!(matches!(split_message(&msg[..1]), Err(DFParseError::IoError(_))));
    assert!(matches!(split_message(&msg[..29]), Err(DFParseError::IoError(_))));
    assert!(matches!(split_message(&msg[..33]), Err(DFParseError::IoError(_))));
    assert!(matches!(split_message(&msg[..msg.len() - 1]), Err(DFParseError::IoError(_))));
    assert!(split_message(&msg).is_ok());
}

#[test]
fn error_descriptions() {
    let e = header_size(b"zz").unwrap_err();
    assert_eq!(e.description().map(|s| s.as_str()), Some("unsupported opening scope zz"));
    let msg = assemble_message(b"{", &None, 0).unwrap();
    let e = read_df_message_bytes(&msg).err().unwrap();
    assert!(e.description().is_none());
}

#[test]
fn stream_reader_steps_through_stages() {
    let msg = assemble_message(b"{}", &Some(vec![1, 2, 3]), 0).unwrap();
    assert_eq!(msg.len(), 37);
    assert!(matches!(next_read(&[]), Ok(ReadStep::Need(2))));
    assert!(matches!(next_read(&msg[..1]), Ok(ReadStep::Need(2))));
    assert!(matches!(next_read(&msg[..2]), Ok(ReadStep::Need(30))));
    assert!(matches!(next_read(&msg[..30]), Ok(ReadStep::Need(34))));
    match next_read(&msg[..34]) {
        Ok(ReadStep::Head(head)) => {
            assert_eq!(head.consumed, 34);
            assert_eq!(head.header.get_data_len(), 3);
            assert_eq!(head.meta, serde_json::Value::Object(serde_json::Map::new()));
        }
        _ => panic!("head not complete"),
    }
    assert!(matches!(next_read(&msg), Ok(ReadStep::Head(_))));
    assert!(matches!(next_read(b"#~"), Ok(ReadStep::Need(24))));
    assert!(matches!(next_read(b"xy"), Err(DFParseError::NotADFMessage(_))));
}

#[test]
fn metadata_errors_come_before_payload() {
    let mut h = df01_header(0x00014000, 0x00010007, b"!#\r\n");
    h[14..18].copy_from_slice(&2u32.to_be_bytes());
    let mut msg = h.to_vec();
    msg.extend_from_slice(b"{}");
    msg.push(1);
    match read_df_message_bytes(&msg) {
        Err(DFParseError::Unimplemented(m)) => assert!(m.contains("Qdatastream")),
        other => panic!("unexpected {:?}", other.map(|_| ())),
    }
    assert!(matches!(next_read(&msg[..32]), Err(DFParseError::Unimplemented(_))));
    let mut bad = assemble_message(b"{oops", &Some(vec![1, 2, 3, 4]), 0).unwrap();
    bad.truncate(bad.len() - 2);
    assert!(matches!(read_df_message_bytes(&bad), Err(DFParseError::MetaError(_))));
    assert!(matches!(split_message(&bad), Err(DFParseError::IoError(_))));
}

#[test]
fn point_example_exact_bytes() {
    let meta: serde_json::Value = serde_json::from_str(r#"{"type":"point"}"#).unwrap();
    let msg = make_message(&meta, &None).unwrap();
    assert_eq!(msg.len(), 53);
    assert_eq!(&msg[0..6], &[0x23, 0x21, 0, 1, 0x40, 0]);
    assert_eq!(
        &msg[10..30],
        &[0, 1, 0, 0, 0, 0, 0, 23, 0, 0, 0, 0, 0, 0, 0, 0, 0x21, 0x23, 0x0d, 0x0a]
    );
    assert_eq!(&msg[30..53], b"{\n  \"type\": \"point\"\n}\r\n");
}

#[test]
fn framing_with_current_time() {
    let msg = frame_message_now(b"{}", &Some(vec![5])).unwrap();
    assert_eq!(msg.len(), 35);
    assert_eq!(be(&msg, 14), 4);
    assert_eq!(be(&msg, 22), 1);
    assert_eq!(msg[34], 5);
}

#[test]
fn errors_convert_from_sources() {
    let io = std::io::Error::from(std::io::ErrorKind::UnexpectedEof);
    assert!(matches!(DFParseError::from(io), DFParseError::IoError(_)));
    let json = serde_json::from_str::<serde_json::Value>("{").unwrap_err();
    assert!(matches!(DFParseError::from(json), DFParseError::MetaError(_)));
}

#[test]
fn payload_len_of_empty_payload() {
    let h = DFBinaryHeader::DF01 { time: 0, meta_type: MetaType::Json, meta_len: 4, data_type: 0, data_len: 0 };
    assert_eq!(h.payload_len(), None);
    assert_eq!(MetaType::Qdatastream.name(), "Qdatastream");
}

#[test]
fn header_time_keeps_low_bits() {
    assert_eq!(header_time_of(Some(0x1_0000_0005)), 5);
    assert_eq!(header_time_of(Some(1_700_000_000)), 1_700_000_000);
    assert_eq!(header_time_of(None), 0);
}

#[test]
fn parse_meta_returns_decoded_value() {
    let header = DFBinaryHeader::DF01 { time: 0, meta_type: MetaType::Json, meta_len: 9, data_type: 0, data_len: 0 };
    let bytes = b"[1, true]".to_vec();
    let expected: serde_json::Value = serde_json::from_slice(&bytes).unwrap();
    assert_eq!(parse_meta(&header, bytes).unwrap(), expected);
    assert!(matches!(parse_meta(&header, b"[1,".to_vec()), Err(DFParseError::MetaError(_))));
}
