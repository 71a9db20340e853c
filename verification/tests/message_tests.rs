use udp_cluster::config::BUFFER_SIZE;
use udp_cluster::message::{decode_message, encode_message, Message, WireError};

fn sample() -> Message {
    Message {
        m_Type: 1,
        m_ID: "ab".to_string(),
        remote_Ref: String::new(),
        local_Ref: "x".to_string(),
        op_Id: 2,
        op_Arg: vec![7, 8],
    }
}

fn same(a: &Message, b: &Message) -> bool {
    a.m_Type == b.m_Type
        && a.m_ID == b.m_ID
        && a.remote_Ref == b.remote_Ref
        && a.local_Ref == b.local_Ref
        && a.op_Id == b.op_Id
        && a.op_Arg == b.op_Arg
}

#[test]
fn encoding_is_bincode_layout() {
    let bytes = encode_message(&sample());
    let mut expected: Vec<u8> = vec![1];
    expected.extend_from_slice(&[2, 0, 0, 0, 0, 0, 0, 0]);
    expected.extend_from_slice(b"ab");
    expected.extend_from_slice(&[0, 0, 0, 0, 0, 0, 0, 0]);
    expected.extend_from_slice(&[1, 0, 0, 0, 0, 0, 0, 0]);
    expected.extend_from_slice(b"x");
    expected.extend_from_slice(&[2, 0, 0, 0]);
    expected.extend_from_slice(&[2, 0, 0, 0, 0, 0, 0, 0]);
    expected.extend_from_slice(&[7, 8]);
    assert_eq!(bytes, expected);
}

#[test]
fn op_id_is_little_endian() {
    let mut m = sample();
    m.op_Id = 0x0102_0304;
    let bytes = encode_message(&m);
    let at = 1 + 8 + 2 + 8 + 8 + 1;
    assert_eq!(&bytes[at..at + 4], &[4, 3, 2, 1]);
}

#[test]
fn decode_reads_back_encoding() {
    let m = sample();
    let bytes = encode_message(&m);
    let back = decode_message(&bytes).unwrap();
    assert!(same(&m, &back));
}

#[test]
fn decode_ignores_trailing_buffer() {
    let m = Message {
        m_Type: 0,
        m_ID: "10.0.0.1:9000:17".to_string(),
        remote_Ref: "10.7.57.90:8080".to_string(),
        local_Ref: "10.0.0.1:9000".to_string(),
        op_Id: 0,
        op_Arg: vec![],
    };
    let bytes = encode_message(&m);
    let mut buf = [0u8; BUFFER_SIZE];
    buf[..bytes.len()].copy_from_slice(&bytes);
    let back = decode_message(&buf).unwrap();
    assert!(same(&m, &back));
}

#[test]
fn decode_rejects_empty() {
    assert_eq!(decode_message(&[]).err(), Some(WireError::Malformed));
}

#[test]
fn decode_rejects_truncated() {
    let bytes = encode_message(&sample());
    let cut = &bytes[..bytes.len() - 1];
    assert_eq!(decode_message(cut).err(), Some(WireError::Malformed));
}

#[test]
fn decode_rejects_invalid_utf8() {
    let mut bytes = encode_message(&sample());
    bytes[9] = 0xff;
    assert_eq!(decode_message(&bytes).err(), Some(WireError::Malformed));
}

#[test]
fn zero_buffer_is_an_empty_message() {
    let buf = [0u8; BUFFER_SIZE];
    let m = decode_message(&buf).unwrap();
    assert_eq!(m.m_Type, 0);
    assert_eq!(m.m_ID, "");
    assert_eq!(m.op_Id, 0);
    assert!(m.op_Arg.is_empty());
}

#[test]
fn duplicate_copies_fields() {
    let m = sample();
    assert!(same(&m, &m.duplicate()));
}
