use brokerwire::dispatch::{frame_size, process_frame, FrameOutcome, Request, Response};
use brokerwire::request::RequestHeaderV2;
use brokerwire::response::ResApiVersionsV4;
use brokerwire::ProtocolError;

fn capabilities_frame(correlation_id_byte: u8) -> Vec<u8> {
    vec![
        0, 0, 0, 18, // message_size: the bytes after this length prefix
        0, 18, // api_key
        0, 4, // api_version
        0, 0, 0, correlation_id_byte, // correlation_id
        0, 1, b'x', // client_id
        0, // null terminator
        0, 1, b'x', // body: client_id
        0, 1, b'y', // body: client_version
    ]
}

#[test]
fn test_end_to_end_capabilities() {
    let frame = capabilities_frame(7);
    let out = process_frame(&frame);
    let bytes = out.respond_bytes().unwrap();
    let expected: Vec<u8> = vec![
        0, 0, 0, 26, // length prefix
        0, 0, 0, 7, // correlation_id
        0, 0, // error_code
        3, // api version count plus one
        0, 18, 0, 0, 0, 4, 0, // ApiVersions v0..4
        0, 75, 0, 0, 0, 0, 0, // DescribeTopicPartitions v0
        0, 0, 0, 0, // throttle_time_ms
        0, // reserved
    ];
    assert_eq!(bytes, expected);
}

#[test]
fn test_end_to_end_describe_topics() {
    let frame: Vec<u8> = vec![
        0, 0, 0, 30, // message_size
        0, 0, // api_key
        0, 0, // api_version
        0, 0, 0, 9, // correlation_id
        0, 0, // empty client_id
        0, // null terminator
        2, // topic count plus one
        1, b'a', 0, // one topic
        0, 0, 0, 1, // response partition limit
        5, // cursor
    ];
    let out = process_frame(&frame);
    let bytes = out.respond_bytes().unwrap();
    let expected: Vec<u8> = vec![
        0, 0, 0, 39, // length prefix
        0, 0, 0, 9, // correlation_id
        0, // reserved
        0, 0, 0, 0, // throttle_time_ms
        2, // topic count plus one
        0, 3, // unknown-topic error
        1, b'a', // name
        0, 0, 0, 0, 0, 0, 0, 0, 0, 0, 0, 0, 0, 0, 0, 0, // topic_id
        0, // is_internal
        1, // no partitions
        0, 0, 0, 0, // topic_operations
        0, // reserved after the topic
        5, // cursor echoed
        0, // final reserved byte
    ];
    assert_eq!(bytes, expected);
}

#[test]
fn test_unsupported_api_key_is_skipped() {
    // api_key 9999: nothing is written, and the next frame is still served
    let mut frame = capabilities_frame(1);
    let key = 9999u16.to_be_bytes();
    frame[4] = key[0];
    frame[5] = key[1];
    let out = process_frame(&frame);
    assert!(out.is_skip());
    assert!(out.respond_bytes().is_none());
    let next = process_frame(&capabilities_frame(2));
    assert!(next.is_respond());
}

#[test]
fn test_zero_length_read_closes() {
    let out = process_frame(&Vec::new());
    assert!(out.is_close());
    assert!(!out.is_skip());
    assert!(!out.is_respond());
}

#[test]
fn test_malformed_header_closes() {
    let frame: Vec<u8> = vec![0, 0, 0, 5, 0, 18];
    assert!(process_frame(&frame).is_close());
}

#[test]
fn test_truncated_body_closes() {
    // a complete header for api_key 18 but a body that ends mid-field
    let mut frame = capabilities_frame(1);
    frame.truncate(18);
    assert!(process_frame(&frame).is_close());
}

#[test]
fn test_request_dispatch_unsupported_key() {
    let header = RequestHeaderV2 {
        message_size: 0,
        request_api_key: 9999,
        request_api_version: 0,
        correlation_id: 0,
        client_id: Some(String::new()),
    };
    let body: Vec<u8> = Vec::new();
    let err = Request::from_bytes(header, &body, 0).unwrap_err();
    assert_eq!(err, ProtocolError::UnsupportedApi);
}

#[test]
fn test_request_dispatch_supported_key() {
    let header = RequestHeaderV2 {
        message_size: 0,
        request_api_key: 18,
        request_api_version: 4,
        correlation_id: 3,
        client_id: Some(String::new()),
    };
    let body: Vec<u8> = vec![0, 1, b'x', 0, 1, b'y'];
    let (req, end) = Request::from_bytes(header, &body, 0).unwrap();
    assert_eq!(end, body.len());
    match req {
        Request::ApiVersions(q) => {
            assert_eq!(q.client_id, "x");
            assert_eq!(q.client_version, "y");
        }
        Request::DescTopicPartition(_) => panic!("dispatched to the wrong decoder"),
    }
}

#[test]
fn test_response_enum_to_bytes() {
    let res = Response::ApiVersions(ResApiVersionsV4 {
        correlation_id: 1,
        error_code: 0,
        api_versions: vec![],
        throttle_time_ms: 0,
    });
    let bytes = res.to_bytes().unwrap();
    assert_eq!(bytes, vec![0, 0, 0, 1, 0, 0, 1, 0, 0, 0, 0, 0]);
}

#[test]
fn test_frame_size_accumulation() {
    let frame = capabilities_frame(1);
    // the length prefix declares 18 payload bytes, so 22 in all
    assert_eq!(frame.len(), 22);
    assert_eq!(frame_size(&frame), Some(22));
    assert_eq!(frame_size(&frame[..3].to_vec()), None);
    assert_eq!(frame_size(&frame[..10].to_vec()), None);
    let mut two = frame.clone();
    two.extend_from_slice(&frame);
    assert_eq!(frame_size(&two), Some(22));
}

#[test]
fn test_frame_outcome_matches() {
    let out = process_frame(&capabilities_frame(1));
    assert!(matches!(out, FrameOutcome::Respond(_)));
}
