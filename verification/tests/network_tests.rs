use frakt::network::{
    receive_message, receive_message_payload, receive_message_size, send_message,
    send_message_payload, send_message_size, FragmentKind, FrameError,
};

fn check_send_message_size(total: u32, payload: u32) {
    let mut buffer: Vec<u8> = Vec::new();
    send_message_size(&mut buffer, total, payload);
    assert_eq!(buffer.len(), 8);
    assert_eq!(buffer[0..4], total.to_be_bytes());
    assert_eq!(buffer[4..8], payload.to_be_bytes());
}

#[test]
fn test_send_message_size() {
    check_send_message_size(0, 0);
    check_send_message_size(77, 42);
    check_send_message_size(12, 32);
    check_send_message_size(4444, 1000);
}

fn check_send_message_payload(payload: &str, src_data: Option<Vec<u8>>, data: Option<Vec<u8>>) {
    let mut buffer: Vec<u8> = Vec::new();
    send_message_payload(&mut buffer, payload, src_data.clone(), data.clone());
    let mut expected = Vec::new();
    expected.extend_from_slice(payload.as_bytes());
    if let Some(src_data) = src_data {
        expected.extend_from_slice(&src_data);
    }
    if let Some(data) = data {
        expected.extend_from_slice(&data);
    }
    assert_eq!(buffer.len(), expected.len());
    assert_eq!(buffer, expected);
}

#[test]
fn test_send_message_payload() {
    check_send_message_payload("{}", None, None);
    check_send_message_payload("{}", Some(vec![0, 0, 0, 42]), None);
    check_send_message_payload("{}", None, Some(vec![0, 0, 0, 42]));
    check_send_message_payload("{}", Some(vec![0, 0, 0, 42]), Some(vec![0, 0, 0, 42]));
}

fn check_receive_message_size(total: u32, payload: u32) {
    let mut buffer: Vec<u8> = Vec::new();
    send_message_size(&mut buffer, total, payload);
    assert_eq!(buffer.len(), 8);
    let result = receive_message_size(&buffer).unwrap();
    assert_eq!(result.0, total);
    assert_eq!(result.1, payload);
}

#[test]
fn test_receive_message_size() {
    check_receive_message_size(0, 0);
    check_receive_message_size(77, 42);
    check_receive_message_size(12, 32);
    check_receive_message_size(4444, 1000);
}

fn check_receive_message_payload(payload: &str, src_data: Option<Vec<u8>>, data: Option<Vec<u8>>) {
    let mut buffer: Vec<u8> = Vec::new();
    send_message_payload(&mut buffer, payload, src_data.clone(), data.clone());
    let data_len = data.clone().unwrap_or_default().len() as u32;
    let result = receive_message_payload(&buffer, payload.len() as u32, data_len).unwrap();
    assert_eq!(result.0, payload);
    assert_eq!(result.1, data.unwrap_or_default());
}

#[test]
fn test_receive_message_payload() {
    check_receive_message_payload("{}", None, None);
    check_receive_message_payload("{}", Some(vec![0, 0, 0, 42]), None);
    check_receive_message_payload("{}", None, Some(vec![0, 0, 0, 42]));
    check_receive_message_payload("{}", Some(vec![0, 0, 0, 42]), Some(vec![0, 0, 0, 42]));
}

#[test]
fn size_header_is_big_endian() {
    let mut buffer = vec![9u8];
    send_message_size(&mut buffer, 0x0102_0304, 0xA0B0_C0D0);
    assert_eq!(buffer, vec![9, 1, 2, 3, 4, 0xA0, 0xB0, 0xC0, 0xD0]);
}

#[test]
fn short_header_is_end_of_input() {
    assert_eq!(receive_message_size(&[0, 0, 0, 1, 0, 0, 0]), Err(FrameError::UnexpectedEof));
    assert_eq!(receive_message_size(&[]), Err(FrameError::UnexpectedEof));
}

#[test]
fn payload_errors() {
    // fewer bytes than the JSON size
    assert_eq!(receive_message_payload(b"{}", 3, 0), Err(FrameError::UnexpectedEof));
    // invalid UTF-8 is reported before missing data
    assert_eq!(receive_message_payload(&[0xff, 0xfe], 2, 10), Err(FrameError::InvalidUtf8));
    // JSON present, data missing
    assert_eq!(receive_message_payload(b"{}ab", 2, 3), Err(FrameError::UnexpectedEof));
    let (text, data) = receive_message_payload("héllo!xyz".as_bytes(), 7, 2).unwrap();
    assert_eq!(text, "héllo!");
    assert_eq!(data, b"xy".to_vec());
}

#[test]
fn whole_message_roundtrip() {
    let mut buffer = Vec::new();
    send_message(&mut buffer, "{\"a\":1}", Some(vec![5, 6]), Some(vec![1, 2, 3])).unwrap();
    assert_eq!(&buffer[0..4], &12u32.to_be_bytes());
    assert_eq!(&buffer[4..8], &7u32.to_be_bytes());
    assert_eq!(&buffer[8..15], b"{\"a\":1}");
    assert_eq!(&buffer[15..], &[1, 2, 3, 5, 6]);
    let (json, data) = receive_message(&buffer).unwrap();
    assert_eq!(json, "{\"a\":1}");
    assert_eq!(data, vec![1, 2, 3, 5, 6]);
}

#[test]
fn message_without_data() {
    let mut buffer = Vec::new();
    send_message(&mut buffer, "{}", None, None).unwrap();
    assert_eq!(buffer, vec![0, 0, 0, 2, 0, 0, 0, 2, b'{', b'}']);
    assert_eq!(receive_message(&buffer), Ok(("{}".to_string(), vec![])));
}

#[test]
fn truncated_message_is_end_of_input() {
    let mut buffer = Vec::new();
    send_message(&mut buffer, "{}", Some(vec![1, 2, 3]), None).unwrap();
    buffer.pop();
    assert_eq!(receive_message(&buffer), Err(FrameError::UnexpectedEof));
}

#[test]
fn fragment_keys() {
    assert_eq!(FragmentKind::Task.key(), "FragmentTask");
    assert_eq!(FragmentKind::Result.key(), "FragmentResult");
    assert_eq!(FragmentKind::Request.key(), "FragmentRequest");
    for kind in [FragmentKind::Task, FragmentKind::Result, FragmentKind::Request] {
        assert_eq!(FragmentKind::from_key(kind.key()), Some(kind));
    }
    assert_eq!(FragmentKind::from_key("FragmentFoo"), None);
    assert_eq!(FragmentKind::from_key("fragmenttask"), None);
}
