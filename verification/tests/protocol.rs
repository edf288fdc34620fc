use qdb::qdb::codec::{
    read_byte, read_option_string, read_string, write_byte, write_option_string, write_string,
    ByteSource,
};
use qdb::qdb::protocol::{
    QDBRequest, QDBRequestBody, QDBResponse, QDB_REQUEST_CREATE_NAMESPACE, QDB_REQUEST_DELETE,
    QDB_REQUEST_DELETE_NAMESPACE, QDB_REQUEST_READ, QDB_REQUEST_WRITE,
};
use qdb::util::QError;

fn encode_request(request: &QDBRequest) -> Vec<u8> {
    let mut out = Vec::new();
    request.write(&mut out);
    out
}

fn encode_response(response: &QDBResponse) -> Vec<u8> {
    let mut out = Vec::new();
    response.write(&mut out);
    out
}

fn decode_request(bytes: &[u8]) -> (Result<QDBRequest, QError>, usize) {
    let mut source = ByteSource::new(bytes);
    let r = QDBRequest::read(&mut source);
    (r, source.position())
}

fn decode_response(bytes: &[u8]) -> (Result<QDBResponse, QError>, usize) {
    let mut source = ByteSource::new(bytes);
    let r = QDBResponse::read(&mut source);
    (r, source.position())
}

fn framed(s: &str) -> Vec<u8> {
    let mut out = (s.len() as u64).to_le_bytes().to_vec();
    out.extend_from_slice(s.as_bytes());
    out
}

fn sample_requests() -> Vec<QDBRequest> {
    vec![
        QDBRequest::read_request("ns1".to_string(), "k".to_string()),
        QDBRequest::write_request("ns1".to_string(), "key".to_string(), "värde".to_string(), true),
        QDBRequest::write_request("ns".to_string(), "".to_string(), "".to_string(), false),
        QDBRequest::delete_request("".to_string(), "gone".to_string()),
        QDBRequest::create_namespace("fresh".to_string()),
        QDBRequest::delete_namespace("日本語".to_string()),
    ]
}

fn sample_responses() -> Vec<QDBResponse> {
    vec![
        QDBResponse { success: true, message: None, result: None },
        QDBResponse { success: true, message: None, result: Some("v".to_string()) },
        QDBResponse { success: false, message: Some("not found".to_string()), result: None },
        QDBResponse {
            success: true,
            message: Some("odd but allowed".to_string()),
            result: Some("".to_string()),
        },
        QDBResponse { success: false, message: None, result: Some("x".to_string()) },
    ]
}

#[test]
fn tags_have_their_wire_values() {
    assert_eq!(QDB_REQUEST_READ, 1);
    assert_eq!(QDB_REQUEST_WRITE, 2);
    assert_eq!(QDB_REQUEST_DELETE, 3);
    assert_eq!(QDB_REQUEST_CREATE_NAMESPACE, 4);
    assert_eq!(QDB_REQUEST_DELETE_NAMESPACE, 5);
}

#[test]
fn constructors_fill_the_fields() {
    assert_eq!(
        QDBRequest::read_request("n".to_string(), "k".to_string()),
        QDBRequest { namespace: "n".to_string(), body: QDBRequestBody::Read { key: "k".to_string() } }
    );
    assert_eq!(
        QDBRequest::write_request("n".to_string(), "k".to_string(), "v".to_string(), true),
        QDBRequest {
            namespace: "n".to_string(),
            body: QDBRequestBody::Write {
                key: "k".to_string(),
                value: "v".to_string(),
                overwrite: true
            }
        }
    );
    assert_eq!(
        QDBRequest::delete_request("n".to_string(), "k".to_string()),
        QDBRequest {
            namespace: "n".to_string(),
            body: QDBRequestBody::Delete { key: "k".to_string() }
        }
    );
    assert_eq!(
        QDBRequest::create_namespace("n".to_string()),
        QDBRequest { namespace: "n".to_string(), body: QDBRequestBody::CreateNamespace }
    );
    assert_eq!(
        QDBRequest::delete_namespace("n".to_string()),
        QDBRequest { namespace: "n".to_string(), body: QDBRequestBody::DeleteNamespace }
    );
    assert_eq!(
        QDBResponse::success(),
        QDBResponse { success: true, message: None, result: None }
    );
    assert_eq!(
        QDBResponse::success_with_result("v".to_string()),
        QDBResponse { success: true, message: None, result: Some("v".to_string()) }
    );
    assert_eq!(
        QDBResponse::failure("why".to_string()),
        QDBResponse { success: false, message: Some("why".to_string()), result: None }
    );
}

#[test]
fn read_request_round_trip() {
    let request = QDBRequest::read_request("ns1".to_string(), "k".to_string());
    let bytes = encode_request(&request);
    assert_eq!(
        bytes,
        vec![3, 0, 0, 0, 0, 0, 0, 0, b'n', b's', b'1', 1, 1, 0, 0, 0, 0, 0, 0, 0, b'k']
    );
    assert_eq!(decode_request(&bytes), (Ok(request), bytes.len()));
}

#[test]
fn write_request_layout() {
    let request =
        QDBRequest::write_request("n".to_string(), "k".to_string(), "vv".to_string(), true);
    let mut expected = framed("n");
    expected.push(2);
    expected.extend(framed("k"));
    expected.extend(framed("vv"));
    expected.push(1);
    assert_eq!(encode_request(&request), expected);
}

#[test]
fn delete_and_namespace_layouts() {
    let mut expected = framed("n");
    expected.push(3);
    expected.extend(framed("k"));
    assert_eq!(
        encode_request(&QDBRequest::delete_request("n".to_string(), "k".to_string())),
        expected
    );
    let mut expected = framed("n");
    expected.push(4);
    assert_eq!(encode_request(&QDBRequest::create_namespace("n".to_string())), expected);
    let mut expected = framed("n");
    expected.push(5);
    assert_eq!(encode_request(&QDBRequest::delete_namespace("n".to_string())), expected);
}

#[test]
fn every_request_round_trips() {
    for request in sample_requests() {
        let bytes = encode_request(&request);
        assert_eq!(decode_request(&bytes), (Ok(request), bytes.len()));
    }
}

#[test]
fn every_response_round_trips() {
    for response in sample_responses() {
        let bytes = encode_response(&response);
        assert_eq!(decode_response(&bytes), (Ok(response), bytes.len()));
    }
}

#[test]
fn write_with_overwrite_false() {
    let request =
        QDBRequest::write_request("ns".to_string(), "k".to_string(), "v".to_string(), false);
    let bytes = encode_request(&request);
    assert_eq!(*bytes.last().unwrap(), 0);
    let (decoded, _) = decode_request(&bytes);
    match decoded.unwrap().body {
        QDBRequestBody::Write { overwrite, .. } => assert!(!overwrite),
        _ => panic!("not a write"),
    }
}

#[test]
fn write_with_overwrite_true() {
    let request =
        QDBRequest::write_request("ns".to_string(), "k".to_string(), "v".to_string(), true);
    let mut bytes = encode_request(&request);
    assert_eq!(*bytes.last().unwrap(), 1);
    assert_eq!(decode_request(&bytes).0, Ok(request.clone()));
    for flag in [2u8, 0x7f, 0x80, 0xff] {
        let last = bytes.len() - 1;
        bytes[last] = flag;
        assert_eq!(decode_request(&bytes).0, Ok(request.clone()));
    }
}

#[test]
fn response_with_absent_fields() {
    let response = QDBResponse { success: true, message: None, result: None };
    let bytes = encode_response(&response);
    assert_eq!(bytes, vec![1, 0, 0]);
    assert_eq!(decode_response(&bytes), (Ok(response), 3));
}

#[test]
fn response_with_failure_message() {
    let response =
        QDBResponse { success: false, message: Some("not found".to_string()), result: None };
    let bytes = encode_response(&response);
    let mut expected = vec![0, 1, 9, 0, 0, 0, 0, 0, 0, 0];
    expected.extend_from_slice(b"not found");
    expected.push(0);
    assert_eq!(bytes, expected);
    assert_eq!(decode_response(&bytes), (Ok(response), bytes.len()));
}

#[test]
fn response_decoding_is_permissive() {
    let mut bytes = vec![7, 0xff];
    bytes.extend(framed("fine"));
    bytes.push(3);
    bytes.extend(framed(""));
    assert_eq!(
        decode_response(&bytes).0,
        Ok(QDBResponse {
            success: true,
            message: Some("fine".to_string()),
            result: Some("".to_string())
        })
    );
}

#[test]
fn absent_and_empty_strings_differ() {
    let absent = QDBResponse { success: true, message: None, result: None };
    let empty = QDBResponse { success: true, message: None, result: Some(String::new()) };
    assert_eq!(encode_response(&absent), vec![1, 0, 0]);
    assert_eq!(encode_response(&empty), vec![1, 0, 1, 0, 0, 0, 0, 0, 0, 0, 0]);
    assert_ne!(decode_response(&encode_response(&empty)).0, Ok(absent));
}

#[test]
fn string_length_is_exact() {
    for s in ["", "a", "héllo", "日本語", "a longer string with several words"] {
        let mut out = vec![0xaa];
        write_string(&mut out, s);
        assert_eq!(out.len(), 1 + 8 + s.len());
        assert_eq!(out[0], 0xaa);
        assert_eq!(&out[1..9], &(s.len() as u64).to_le_bytes());
        assert_eq!(&out[9..], s.as_bytes());
        out.extend_from_slice(&[1, 2, 3]);
        let mut source = ByteSource::new(&out[1..]);
        assert_eq!(read_string(&mut source), Ok(s.to_string()));
        assert_eq!(source.position(), 8 + s.len());
        assert_eq!(source.available(), 3);
    }
}

#[test]
fn length_prefix_is_little_endian() {
    let s = "x".repeat(0x0102);
    let mut out = Vec::new();
    write_string(&mut out, &s);
    assert_eq!(&out[..8], &[0x02, 0x01, 0, 0, 0, 0, 0, 0]);
    let mut source = ByteSource::new(&out);
    assert_eq!(read_string(&mut source), Ok(s));
}

#[test]
fn bytes_are_read_in_order() {
    let mut out = Vec::new();
    write_byte(&mut out, 5);
    write_byte(&mut out, 0);
    write_byte(&mut out, 255);
    assert_eq!(out, vec![5, 0, 255]);
    let mut source = ByteSource::new(&out);
    assert_eq!(read_byte(&mut source), Ok(5));
    assert_eq!(read_byte(&mut source), Ok(0));
    assert_eq!(source.position(), 2);
    assert_eq!(read_byte(&mut source), Ok(255));
    assert_eq!(read_byte(&mut source), Err(QError::Truncated));
    assert_eq!(source.position(), 3);
    assert_eq!(source.available(), 0);
}

#[test]
fn optional_string_layout() {
    let mut out = Vec::new();
    write_option_string(&mut out, &None);
    assert_eq!(out, vec![0]);
    let mut out = Vec::new();
    write_option_string(&mut out, &Some("ab".to_string()));
    assert_eq!(out, vec![1, 2, 0, 0, 0, 0, 0, 0, 0, b'a', b'b']);
    let mut source = ByteSource::new(&out);
    assert_eq!(read_option_string(&mut source), Ok(Some("ab".to_string())));
    assert_eq!(source.position(), 11);
    let absent = [0u8, 9, 9];
    let mut source = ByteSource::new(&absent);
    assert_eq!(read_option_string(&mut source), Ok(None));
    assert_eq!(source.position(), 1);
    let empty: [u8; 0] = [];
    let mut source = ByteSource::new(&empty);
    assert_eq!(read_option_string(&mut source), Err(QError::Truncated));
    assert_eq!(source.position(), 0);
}

#[test]
fn truncated_requests_are_detected() {
    for request in sample_requests() {
        let bytes = encode_request(&request);
        for cut in 0..bytes.len() {
            assert_eq!(decode_request(&bytes[..cut]).0, Err(QError::Truncated));
        }
    }
}

#[test]
fn truncated_responses_are_detected() {
    for response in sample_responses() {
        let bytes = encode_response(&response);
        for cut in 0..bytes.len() {
            assert_eq!(decode_response(&bytes[..cut]).0, Err(QError::Truncated));
        }
    }
}

#[test]
fn truncated_string_keeps_what_was_not_taken() {
    let short_prefix = [4u8, 0, 0];
    let mut source = ByteSource::new(&short_prefix);
    assert_eq!(read_string(&mut source), Err(QError::Truncated));
    assert_eq!(source.position(), 0);
    let short_payload = [4u8, 0, 0, 0, 0, 0, 0, 0, b'a', b'b', b'c'];
    let mut source = ByteSource::new(&short_payload);
    assert_eq!(read_string(&mut source), Err(QError::Truncated));
    assert_eq!(source.position(), 8);
}

#[test]
fn huge_declared_length_is_truncation() {
    let mut bytes = vec![0xff; 8];
    bytes.extend_from_slice(b"abc");
    let mut source = ByteSource::new(&bytes);
    assert_eq!(read_string(&mut source), Err(QError::Truncated));
    assert_eq!(decode_request(&bytes).0, Err(QError::Truncated));
}

#[test]
fn unknown_tags_are_rejected() {
    for tag in (0u8..=255).filter(|t| !(1..=5).contains(t)) {
        let mut bytes = framed("ns");
        bytes.push(tag);
        bytes.extend(framed("k"));
        assert_eq!(decode_request(&bytes), (Err(QError::UnknownTag), 11));
    }
}

#[test]
fn known_tags_are_accepted() {
    for tag in 1u8..=5 {
        let mut bytes = framed("ns");
        bytes.push(tag);
        bytes.extend(framed("k"));
        bytes.extend(framed("v"));
        bytes.push(1);
        assert!(decode_request(&bytes).0.is_ok());
    }
}

#[test]
fn fields_of_other_operations_are_not_read() {
    let mut bytes = framed("ns");
    bytes.push(4);
    let end = bytes.len();
    bytes.extend(framed("ignored"));
    assert_eq!(
        decode_request(&bytes),
        (Ok(QDBRequest::create_namespace("ns".to_string())), end)
    );
    let mut bytes = framed("ns");
    bytes.push(1);
    bytes.extend(framed("k"));
    let end = bytes.len();
    bytes.extend(framed("ignored"));
    assert_eq!(
        decode_request(&bytes),
        (Ok(QDBRequest::read_request("ns".to_string(), "k".to_string())), end)
    );
}

#[test]
fn invalid_utf8_is_rejected() {
    let payloads: [&[u8]; 6] = [
        &[0xff],
        &[0xc0, 0x80],
        &[0xe2, 0x82],
        &[0xed, 0xa0, 0x80],
        &[0xf4, 0x90, 0x80, 0x80],
        &[b'a', 0x80, b'b'],
    ];
    for payload in payloads {
        let mut bytes = (payload.len() as u64).to_le_bytes().to_vec();
        bytes.extend_from_slice(payload);
        bytes.push(1);
        let mut source = ByteSource::new(&bytes);
        assert_eq!(read_string(&mut source), Err(QError::InvalidEncoding));
        assert_eq!(source.position(), 8 + payload.len());
        assert_eq!(decode_request(&bytes).0, Err(QError::InvalidEncoding));
    }
}

#[test]
fn invalid_utf8_in_any_field_is_rejected() {
    let bad: Vec<u8> = vec![1, 0, 0, 0, 0, 0, 0, 0, 0xff];
    let mut key = framed("ns");
    key.push(1);
    key.extend(bad.clone());
    assert_eq!(decode_request(&key).0, Err(QError::InvalidEncoding));
    let mut value = framed("ns");
    value.push(2);
    value.extend(framed("k"));
    value.extend(bad.clone());
    value.push(0);
    assert_eq!(decode_request(&value).0, Err(QError::InvalidEncoding));
    let mut message = vec![0, 1];
    message.extend(bad.clone());
    message.push(0);
    assert_eq!(decode_response(&message).0, Err(QError::InvalidEncoding));
    let mut result = vec![1, 0, 1];
    result.extend(bad);
    assert_eq!(decode_response(&result).0, Err(QError::InvalidEncoding));
}

#[test]
fn multibyte_strings_are_counted_in_bytes() {
    let request = QDBRequest::create_namespace("é".to_string());
    assert_eq!(encode_request(&request), vec![2, 0, 0, 0, 0, 0, 0, 0, 0xc3, 0xa9, 4]);
}

#[test]
fn messages_follow_each_other_in_one_source() {
    let first = QDBRequest::delete_request("a".to_string(), "b".to_string());
    let second = QDBRequest::create_namespace("c".to_string());
    let mut bytes = encode_request(&first);
    let boundary = bytes.len();
    second.write(&mut bytes);
    let mut source = ByteSource::new(&bytes);
    assert_eq!(QDBRequest::read(&mut source), Ok(first));
    assert_eq!(source.position(), boundary);
    assert_eq!(QDBRequest::read(&mut source), Ok(second));
    assert_eq!(source.available(), 0);
    assert_eq!(QDBRequest::read(&mut source), Err(QError::Truncated));
}

#[test]
fn write_appends_to_the_sink() {
    let mut out = vec![9, 9];
    QDBResponse::success().write(&mut out);
    assert_eq!(out, vec![9, 9, 1, 0, 0]);
    QDBRequest::delete_namespace("".to_string()).write(&mut out);
    assert_eq!(out, vec![9, 9, 1, 0, 0, 0, 0, 0, 0, 0, 0, 0, 0, 5]);
}

#[test]
fn errors_in_words() {
    assert_eq!(QError::Truncated.message(), "[qdb/protocol] Truncated message");
    assert_eq!(QError::InvalidEncoding.message(), "[qdb/protocol] Invalid string encoding");
    assert_eq!(QError::UnknownTag.message(), "[qdb/protocol] Invalid request type");
}

#[test]
fn truncation_comes_before_the_encoding_check() {
    let bytes = [5u8, 0, 0, 0, 0, 0, 0, 0, 0xff, 0xff];
    let mut source = ByteSource::new(&bytes);
    assert_eq!(read_string(&mut source), Err(QError::Truncated));
}

#[test]
fn empty_source() {
    let empty: [u8; 0] = [];
    assert_eq!(decode_request(&empty), (Err(QError::Truncated), 0));
    assert_eq!(decode_response(&empty), (Err(QError::Truncated), 0));
    let source = ByteSource::new(&empty);
    assert_eq!(source.position(), 0);
    assert_eq!(source.available(), 0);
}
