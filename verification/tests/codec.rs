use brokerwire::request::{ReqApiVersionsV4, ReqDescTopicPartitionV0, RequestHeaderV2};
use brokerwire::response::{
    ApiVersion, Partition, ResApiVersionsV4, ResDescTopicPartitionV0, Topic,
};
use brokerwire::ProtocolError;

#[test]
fn test_request_header_v2_from_bytes() {
    let bytes: Vec<u8> = vec![
        0, 0, 0, 20, // message_size
        0, 18, // request_api_key
        0, 2, // request_api_version
        0, 0, 0, 1, // correlation_id
        0, 5, // client_id length
        b'h', b'e', b'l', b'l', b'o', // client_id
        0, // null terminator
    ];
    let (header, consumed) = RequestHeaderV2::from_bytes(&bytes).unwrap();
    assert_eq!(header.message_size, 20);
    assert_eq!(header.request_api_key, 18);
    assert_eq!(header.request_api_version, 2);
    assert_eq!(header.correlation_id, 1);
    assert_eq!(header.client_id, Some("hello".to_string()));
    assert_eq!(consumed, 20);
}

#[test]
fn test_req_api_versions_from_bytes() {
    let bytes: Vec<u8> = vec![
        0, 0, 0, 30, // message_size
        0, 18, // request_api_key
        0, 2, // request_api_version
        0, 0, 0, 1, // correlation_id
        0, 5, // client_id length
        b'h', b'e', b'l', b'l', b'o', // client_id
        0, // null terminator
        0, 5, // client_id length
        b'h', b'e', b'l', b'l', b'o', //
        0, 6, // client_version length
        b'w', b'o', b'r', b'l', b'd', b'!', //
        0, // null terminator
    ];
    let (header, consumed) = RequestHeaderV2::from_bytes(&bytes).unwrap();
    let (req, _end) = ReqApiVersionsV4::from_bytes(header, &bytes, consumed).unwrap();
    assert_eq!(req.header.message_size, 30);
    assert_eq!(req.header.request_api_key, 18);
    assert_eq!(req.header.request_api_version, 2);
    assert_eq!(req.header.correlation_id, 1);
    assert_eq!(req.header.client_id, Some("hello".to_string()));
    assert_eq!(req.client_id, "hello");
    assert_eq!(req.client_version, "world!");
}

#[test]
fn test_header_round_trip() {
    let header = RequestHeaderV2 {
        message_size: 20,
        request_api_key: 18,
        request_api_version: 2,
        correlation_id: 1,
        client_id: Some("hello".to_string()),
    };
    let bytes = header.to_bytes().unwrap();
    let expected: Vec<u8> = vec![
        0, 0, 0, 20, 0, 18, 0, 2, 0, 0, 0, 1, 0, 5, b'h', b'e', b'l', b'l', b'o', 0,
    ];
    assert_eq!(bytes, expected);
    let (decoded, consumed) = RequestHeaderV2::from_bytes(&bytes).unwrap();
    assert_eq!(decoded.message_size, 20);
    assert_eq!(decoded.request_api_key, 18);
    assert_eq!(decoded.request_api_version, 2);
    assert_eq!(decoded.correlation_id, 1);
    assert_eq!(decoded.client_id, Some("hello".to_string()));
    assert_eq!(consumed, bytes.len());
}

#[test]
fn test_header_negative_correlation_id_round_trip() {
    let header = RequestHeaderV2 {
        message_size: 0,
        request_api_key: 0,
        request_api_version: 0,
        correlation_id: -2,
        client_id: Some(String::new()),
    };
    let bytes = header.to_bytes().unwrap();
    assert_eq!(&bytes[8..12], &[0xff, 0xff, 0xff, 0xfe]);
    let (decoded, _) = RequestHeaderV2::from_bytes(&bytes).unwrap();
    assert_eq!(decoded.correlation_id, -2);
    assert_eq!(decoded.client_id, Some(String::new()));
}

#[test]
fn test_header_invalid_utf8_client_id_is_absent() {
    let bytes: Vec<u8> = vec![
        0, 0, 0, 20, 0, 18, 0, 2, 0, 0, 0, 1, 0, 2, 0xff, 0xfe, 0,
    ];
    let (header, consumed) = RequestHeaderV2::from_bytes(&bytes).unwrap();
    assert_eq!(header.client_id, None);
    assert_eq!(consumed, 17);
}

#[test]
fn test_header_too_short_is_malformed() {
    let bytes: Vec<u8> = vec![0, 0, 0, 20, 0, 18, 0, 2, 0, 0];
    assert_eq!(
        RequestHeaderV2::from_bytes(&bytes).unwrap_err(),
        ProtocolError::MalformedHeader
    );
}

#[test]
fn test_header_client_id_overruns_buffer() {
    // declares a five-byte client id but holds only three bytes after the length
    let bytes: Vec<u8> = vec![0, 0, 0, 20, 0, 18, 0, 2, 0, 0, 0, 1, 0, 5, b'a', b'b', b'c'];
    assert_eq!(
        RequestHeaderV2::from_bytes(&bytes).unwrap_err(),
        ProtocolError::MalformedHeader
    );
}

fn plain_header(api_key: u16, correlation_id: i32) -> RequestHeaderV2 {
    RequestHeaderV2 {
        message_size: 0,
        request_api_key: api_key,
        request_api_version: 0,
        correlation_id,
        client_id: Some(String::new()),
    }
}

#[test]
fn test_req_api_versions_truncated_mid_field() {
    // declares a five-byte client id but the buffer ends after two bytes of it
    let body: Vec<u8> = vec![0, 5, b'a', b'b'];
    let err = ReqApiVersionsV4::from_bytes(plain_header(18, 1), &body, 0).unwrap_err();
    assert_eq!(err, ProtocolError::Truncated);
}

#[test]
fn test_req_api_versions_invalid_utf8() {
    let body: Vec<u8> = vec![0, 2, 0xff, 0xfe, 0, 1, b'y'];
    let err = ReqApiVersionsV4::from_bytes(plain_header(18, 1), &body, 0).unwrap_err();
    assert_eq!(err, ProtocolError::MalformedHeader);
}

#[test]
fn test_req_desc_topics_from_bytes() {
    let body: Vec<u8> = vec![
        3, // topic count plus one
        1, b'a', 0, // first topic
        2, b'b', b'b', 0, // second topic
        0, 0, 0, 1, // response partition limit
        5, // cursor
    ];
    let (req, end) = ReqDescTopicPartitionV0::from_bytes(plain_header(0, 1), &body, 0).unwrap();
    assert_eq!(req.topics, vec!["a".to_string(), "bb".to_string()]);
    assert_eq!(req.res_partition_limit, 1);
    assert_eq!(req.cursor, 5);
    assert_eq!(end, body.len());
}

#[test]
fn test_req_desc_topics_empty_list() {
    let body: Vec<u8> = vec![1, 0, 0, 0, 0, 9];
    let (req, _) = ReqDescTopicPartitionV0::from_bytes(plain_header(0, 1), &body, 0).unwrap();
    assert_eq!(req.topics.len(), 0);
    assert_eq!(req.cursor, 9);
}

#[test]
fn test_req_desc_topics_zero_count_byte() {
    let body: Vec<u8> = vec![0, 0, 0, 0, 0, 5];
    let err = ReqDescTopicPartitionV0::from_bytes(plain_header(0, 1), &body, 0).unwrap_err();
    assert_eq!(err, ProtocolError::MalformedHeader);
}

#[test]
fn test_req_desc_topics_truncated() {
    let body: Vec<u8> = vec![2, 1, b'a'];
    let err = ReqDescTopicPartitionV0::from_bytes(plain_header(0, 1), &body, 0).unwrap_err();
    assert_eq!(err, ProtocolError::Truncated);
}

#[test]
fn test_api_versions_response_bytes() {
    let req = ReqApiVersionsV4 {
        header: plain_header(18, 7),
        client_id: "x".to_string(),
        client_version: "y".to_string(),
    };
    let res = ResApiVersionsV4::from_request(&req);
    assert_eq!(res.correlation_id, 7);
    assert_eq!(res.error_code, 0);
    assert_eq!(res.throttle_time_ms, 0);
    assert_eq!(
        res.api_versions,
        vec![
            ApiVersion { api_key: 18, min_version: 0, max_version: 4 },
            ApiVersion { api_key: 75, min_version: 0, max_version: 0 },
        ]
    );
    let bytes = res.to_bytes().unwrap();
    let expected: Vec<u8> = vec![
        0, 0, 0, 7, // correlation_id
        0, 0, // error_code
        3, // api version count plus one
        0, 18, 0, 0, 0, 4, 0, // first entry
        0, 75, 0, 0, 0, 0, 0, // second entry
        0, 0, 0, 0, // throttle_time_ms
        0, // reserved
    ];
    assert_eq!(bytes, expected);
}

#[test]
fn test_capabilities_response_independent_of_client_strings() {
    let req1 = ReqApiVersionsV4 {
        header: plain_header(18, 42),
        client_id: "alpha".to_string(),
        client_version: "1.0".to_string(),
    };
    let req2 = ReqApiVersionsV4 {
        header: plain_header(18, 42),
        client_id: "beta".to_string(),
        client_version: "9.9".to_string(),
    };
    let bytes1 = ResApiVersionsV4::from_request(&req1).to_bytes().unwrap();
    let bytes2 = ResApiVersionsV4::from_request(&req2).to_bytes().unwrap();
    assert_eq!(bytes1, bytes2);
}

#[test]
fn test_off_by_one_count_byte() {
    // the count byte of the encoding is the list length plus one
    let empty = ResApiVersionsV4 {
        correlation_id: 0,
        error_code: 0,
        api_versions: vec![],
        throttle_time_ms: 0,
    };
    assert_eq!(empty.to_bytes().unwrap()[6], 1);
    let two = ResApiVersionsV4 {
        correlation_id: 0,
        error_code: 0,
        api_versions: vec![
            ApiVersion { api_key: 1, min_version: 0, max_version: 0 },
            ApiVersion { api_key: 2, min_version: 0, max_version: 0 },
        ],
        throttle_time_ms: 0,
    };
    assert_eq!(two.to_bytes().unwrap()[6], 3);
    // decoding a count byte of n + 1 yields n topics
    let body: Vec<u8> = vec![2, 1, b'a', 0, 0, 0, 0, 0, 0];
    let (req, _) = ReqDescTopicPartitionV0::from_bytes(plain_header(0, 1), &body, 0).unwrap();
    assert_eq!(req.topics.len(), 1);
}

#[test]
fn test_api_versions_largest_list() {
    // 254 entries is the largest list the count-plus-one byte can hold
    let mut api_versions: Vec<ApiVersion> = Vec::new();
    for _ in 0..254 {
        api_versions.push(ApiVersion { api_key: 0, min_version: 0, max_version: 0 });
    }
    let res = ResApiVersionsV4 {
        correlation_id: 0,
        error_code: 0,
        api_versions,
        throttle_time_ms: 0,
    };
    let bytes = res.to_bytes().unwrap();
    assert_eq!(bytes[6], 255);
    assert_eq!(bytes.len(), 12 + 7 * 254);
}

#[test]
fn test_api_versions_overflow() {
    let mut api_versions: Vec<ApiVersion> = Vec::new();
    for _ in 0..255 {
        api_versions.push(ApiVersion { api_key: 0, min_version: 0, max_version: 0 });
    }
    let res = ResApiVersionsV4 {
        correlation_id: 0,
        error_code: 0,
        api_versions,
        throttle_time_ms: 0,
    };
    assert_eq!(res.to_bytes().unwrap_err(), ProtocolError::EncodingOverflow);
}

fn unknown_topic(name: &str) -> Topic {
    Topic {
        error_code: 3,
        topic_name: name.to_string(),
        topic_id: 0,
        is_internal: false,
        partitions: None,
        topic_operations: 0,
    }
}

#[test]
fn test_topic_to_bytes_no_partitions() {
    let topic = Topic {
        error_code: 3,
        topic_name: "ab".to_string(),
        topic_id: 1,
        is_internal: true,
        partitions: None,
        topic_operations: 2,
    };
    let bytes = topic.to_bytes().unwrap();
    let expected: Vec<u8> = vec![
        0, 3, // error_code
        2, b'a', b'b', // name
        0, 0, 0, 0, 0, 0, 0, 0, 0, 0, 0, 0, 0, 0, 0, 1, // topic_id
        1, // is_internal
        1, // no partitions
        0, 0, 0, 2, // topic_operations
    ];
    assert_eq!(bytes, expected);
}

#[test]
fn test_topic_to_bytes_with_partition() {
    let topic = Topic {
        error_code: 0,
        topic_name: "t".to_string(),
        topic_id: 0,
        is_internal: false,
        partitions: Some(vec![Partition {
            partition_id: 1,
            leader_id: 2,
            replica_nodes: vec![3, 4],
            isr_nodes: vec![3],
            offline_replicas: vec![],
            partition_error_code: 0,
        }]),
        topic_operations: 0,
    };
    let bytes = topic.to_bytes().unwrap();
    let expected: Vec<u8> = vec![
        0, 0, // error_code
        1, b't', // name
        0, 0, 0, 0, 0, 0, 0, 0, 0, 0, 0, 0, 0, 0, 0, 0, // topic_id
        0, // is_internal
        2, // partition count plus one
        0, 0, 0, 1, // partition_id
        0, 0, 0, 2, // leader_id
        2, 0, 0, 0, 3, 0, 0, 0, 4, // replica_nodes (plain count)
        1, 0, 0, 0, 3, // isr_nodes
        0, // offline_replicas
        0, 0, // partition_error_code
        0, 0, 0, 0, // topic_operations
    ];
    assert_eq!(bytes, expected);
}

#[test]
fn test_topic_name_overflow() {
    let mut name = String::new();
    for _ in 0..256 {
        name.push('a');
    }
    let topic = unknown_topic(&name);
    assert_eq!(topic.to_bytes().unwrap_err(), ProtocolError::EncodingOverflow);
}

#[test]
fn test_partition_node_list_overflow() {
    let mut nodes: Vec<i32> = Vec::new();
    for i in 0..256 {
        nodes.push(i);
    }
    let topic = Topic {
        error_code: 0,
        topic_name: "t".to_string(),
        topic_id: 0,
        is_internal: false,
        partitions: Some(vec![Partition {
            partition_id: 0,
            leader_id: 0,
            replica_nodes: nodes,
            isr_nodes: vec![],
            offline_replicas: vec![],
            partition_error_code: 0,
        }]),
        topic_operations: 0,
    };
    assert_eq!(topic.to_bytes().unwrap_err(), ProtocolError::EncodingOverflow);
}

#[test]
fn test_topic_list_overflow() {
    let mut topics: Vec<Topic> = Vec::new();
    for _ in 0..255 {
        topics.push(unknown_topic("t"));
    }
    let res = ResDescTopicPartitionV0 {
        correlation_id: 0,
        throttle_time_ms: 0,
        topics,
        cursor: 0,
    };
    assert_eq!(res.to_bytes().unwrap_err(), ProtocolError::EncodingOverflow);
}

#[test]
fn test_desc_topics_response() {
    let req = ReqDescTopicPartitionV0 {
        header: plain_header(0, 11),
        topics: vec!["a".to_string(), "bb".to_string()],
        res_partition_limit: 100,
        cursor: 5,
    };
    let res = ResDescTopicPartitionV0::from_request(&req);
    assert_eq!(res.correlation_id, 11);
    assert_eq!(res.throttle_time_ms, 0);
    assert_eq!(res.cursor, 5);
    assert_eq!(res.topics.len(), 2);
    for (topic, name) in res.topics.iter().zip(["a", "bb"]) {
        assert_eq!(topic.error_code, 3);
        assert_eq!(topic.topic_name, name);
        assert_eq!(topic.topic_id, 0);
        assert!(!topic.is_internal);
        assert!(topic.partitions.is_none());
        assert_eq!(topic.topic_operations, 0);
    }
}

#[test]
fn test_desc_topics_response_bytes() {
    let req = ReqDescTopicPartitionV0 {
        header: plain_header(0, 9),
        topics: vec!["a".to_string()],
        res_partition_limit: 1,
        cursor: 5,
    };
    let bytes = ResDescTopicPartitionV0::from_request(&req).to_bytes().unwrap();
    let expected: Vec<u8> = vec![
        0, 0, 0, 9, // correlation_id
        0, // reserved
        0, 0, 0, 0, // throttle_time_ms
        2, // topic count plus one
        0, 3, // error_code: unknown topic
        1, b'a', // name
        0, 0, 0, 0, 0, 0, 0, 0, 0, 0, 0, 0, 0, 0, 0, 0, // topic_id
        0, // is_internal
        1, // no partitions
        0, 0, 0, 0, // topic_operations
        0, // reserved after the topic
        5, // cursor
        0, // final reserved byte
    ];
    assert_eq!(bytes, expected);
}
