//! Frames of requests and responses.
use qomicex_connector::error::ScaffoldingError;
use qomicex_connector::guest::requests::center_keys;
use qomicex_connector::models::protocol::{ProtocolRequest, ProtocolResponse};
use qomicex_connector::session::protocol_serializer::{
    parse_request, parse_response, request_bytes_wanted, response_bytes_wanted, serialize_request,
    serialize_response, stream_ended, stream_failed,
};

fn request(namespace: &str, request_type: &str, body: Vec<u8>) -> ProtocolRequest {
    ProtocolRequest {
        namespace: namespace.to_string(),
        request_type: request_type.to_string(),
        body,
    }
}

fn response(status: u8, body: Vec<u8>) -> ProtocolResponse {
    ProtocolResponse { status, body }
}

fn protocol_message(error: ScaffoldingError) -> String {
    match error {
        ScaffoldingError::Protocol(message) => message,
        other => panic!("unexpected error: {other:?}"),
    }
}

#[test]
fn roundtrip_request_preserves_data() {
    let req = request("c", "ping", vec![0x01, 0x02, 0x03]);
    let bytes = serialize_request(&req);

    let parsed = parse_request(&bytes).expect("请求帧应解析成功");

    assert_eq!(parsed.namespace, "c");
    assert_eq!(parsed.request_type, "ping");
    assert_eq!(parsed.body, vec![0x01, 0x02, 0x03]);
}

#[test]
fn roundtrip_response_preserves_data() {
    let resp = response(0, vec![0xFF, 0xFE]);
    let bytes = serialize_response(&resp);

    let parsed = parse_response(&bytes).expect("响应帧应解析成功");

    assert_eq!(parsed.status, 0);
    assert_eq!(parsed.body, vec![0xFF, 0xFE]);
}

#[test]
fn roundtrip_response_empty_body_works() {
    let resp = response(0, Vec::new());
    let bytes = serialize_response(&resp);

    let parsed = parse_response(&bytes).expect("空 body 响应帧应解析成功");

    assert_eq!(parsed.status, 0);
    assert!(parsed.body.is_empty());
}

#[test]
fn long_type_name_works() {
    let req = request("myapp", "very_long_type_name", vec![0x42]);
    let bytes = serialize_request(&req);

    let parsed = parse_request(&bytes).expect("长类型名请求帧应解析成功");

    assert_eq!(parsed.namespace, "myapp");
    assert_eq!(parsed.request_type, "very_long_type_name");
    assert_eq!(parsed.body, vec![0x42]);
}

#[test]
fn serialize_request_frame_matches_csharp_bytes() {
    let req = request("c", "ping", vec![0x01, 0x02, 0x03]);

    let expected = [
        &[0x06][..],
        b"c:ping",
        &[0x00, 0x00, 0x00, 0x03][..],
        &[0x01, 0x02, 0x03][..],
    ]
    .concat();

    assert_eq!(serialize_request(&req), expected);
}

#[test]
fn serialize_response_frame_matches_csharp_bytes() {
    let resp = response(0, vec![0xFF, 0xFE]);

    let expected = [&[0x00][..], &[0x00, 0x00, 0x00, 0x02][..], &[0xFF, 0xFE][..]].concat();

    assert_eq!(serialize_response(&resp), expected);
}

#[test]
fn parse_request_accepts_csharp_known_bytes() {
    let bytes = [
        0x0A, 0x6D, 0x79, 0x61, 0x70, 0x70, 0x3A, 0x70, 0x69, 0x6E, 0x67, 0x00, 0x00, 0x00, 0x01,
        0x42,
    ];

    let parsed = parse_request(&bytes).expect("已知请求帧应解析成功");

    assert_eq!(parsed.namespace, "myapp");
    assert_eq!(parsed.request_type, "ping");
    assert_eq!(parsed.body, vec![0x42]);
}

#[test]
fn parse_response_accepts_csharp_known_bytes() {
    let bytes = [0x01, 0x00, 0x00, 0x00, 0x02, 0x01, 0x02];

    let parsed = parse_response(&bytes).expect("已知响应帧应解析成功");

    assert_eq!(parsed.status, 1);
    assert_eq!(parsed.body, vec![0x01, 0x02]);
}

#[test]
fn bytes_behind_a_frame_are_ignored() {
    let mut bytes = serialize_request(&request("c", "ping", vec![7]));
    bytes.extend_from_slice(&[9, 9, 9]);
    let parsed = parse_request(&bytes).expect("frame");
    assert_eq!(parsed.body, vec![7]);

    let mut bytes = serialize_response(&response(3, vec![8]));
    bytes.extend_from_slice(&[9, 9]);
    let parsed = parse_response(&bytes).expect("frame");
    assert_eq!((parsed.status, parsed.body), (3, vec![8]));
}

#[test]
fn requests_that_end_early_say_where() {
    let frame = serialize_request(&request("c", "ping", vec![1, 2, 3]));
    let message = |size: usize| protocol_message(parse_request(&frame[..size]).unwrap_err());
    assert_eq!(message(0), "流提前结束: 期望读取 1 字节，实际读取 0 字节");
    assert_eq!(message(4), "流提前结束: 期望读取 6 字节，实际读取 3 字节");
    assert_eq!(message(9), "流提前结束: 期望读取 4 字节，实际读取 2 字节");
    assert_eq!(message(13), "流提前结束: 期望读取 3 字节，实际读取 2 字节");
}

#[test]
fn responses_that_end_early_say_where() {
    let frame = serialize_response(&response(0, vec![1, 2, 3]));
    let message = |size: usize| protocol_message(parse_response(&frame[..size]).unwrap_err());
    assert_eq!(message(0), "流提前结束: 期望读取 1 字节，实际读取 0 字节");
    assert_eq!(message(3), "流提前结束: 期望读取 4 字节，实际读取 2 字节");
    assert_eq!(message(7), "流提前结束: 期望读取 3 字节，实际读取 2 字节");
}

#[test]
fn a_key_without_a_colon_is_refused_after_the_body() {
    let bytes = [&[4u8][..], b"ping", &[0, 0, 0, 0][..]].concat();
    let message = protocol_message(parse_request(&bytes).unwrap_err());
    assert_eq!(message, "无效的请求类型格式: ping");

    // The body is missing: that is reported first.
    let bytes = [&[4u8][..], b"ping", &[0, 0, 0, 2][..]].concat();
    let message = protocol_message(parse_request(&bytes).unwrap_err());
    assert_eq!(message, "流提前结束: 期望读取 2 字节，实际读取 0 字节");
}

#[test]
fn a_key_is_split_at_its_first_colon() {
    let bytes = [&[5u8][..], b"a:b:c", &[0, 0, 0, 0][..]].concat();
    let parsed = parse_request(&bytes).expect("frame");
    assert_eq!(parsed.namespace, "a");
    assert_eq!(parsed.request_type, "b:c");
}

#[test]
fn a_key_that_is_not_utf8_is_read_with_replacements() {
    let bytes = [&[3u8][..], &[0xFF, b':', b'x'][..], &[0, 0, 0, 0][..]].concat();
    let parsed = parse_request(&bytes).expect("frame");
    assert_eq!(parsed.namespace, "\u{FFFD}");
    assert_eq!(parsed.request_type, "x");

    let key = "名:字".as_bytes();
    let bytes = [&[key.len() as u8][..], key, &[0, 0, 0, 0][..]].concat();
    let parsed = parse_request(&bytes).expect("frame");
    assert_eq!((parsed.namespace.as_str(), parsed.request_type.as_str()), ("名", "字"));
}

#[test]
fn a_key_is_accepted_where_its_bytes_hold_a_colon() {
    let accepted = |key: &[u8]| {
        let bytes = [&[key.len() as u8][..], key, &[0, 0, 0, 0][..]].concat();
        parse_request(&bytes).is_ok()
    };
    for a in 0..=255u8 {
        for b in 0..=255u8 {
            assert_eq!(accepted(&[a, b]), a == b':' || b == b':', "{a} {b}");
            assert!(accepted(&[a, b, b':']), "{a} {b}");
        }
    }
}

#[test]
fn ascii_bytes_are_kept_in_their_order() {
    let some = [b'a', b':', 0x7F, 0x80, 0xBF, 0xC2, 0xE0, 0xE4, 0xED, 0xF0, 0xF4, 0xFF];
    for a in some {
        for b in some {
            for c in some {
                for d in some {
                    let bytes = [a, b, c, d];
                    let text = center_keys(&bytes).join("\0");
                    let kept: Vec<u8> = text.chars().filter(char::is_ascii).map(|c| c as u8).collect();
                    let ascii: Vec<u8> = bytes.into_iter().filter(u8::is_ascii).collect();
                    assert_eq!(kept, ascii, "{bytes:?}");
                }
            }
        }
    }
}

#[test]
fn characters_that_are_not_ascii_become_question_marks() {
    let bytes = serialize_request(&request("c", "é名", vec![]));
    assert_eq!(bytes, [&[4u8][..], b"c:??", &[0, 0, 0, 0][..]].concat());
}

#[test]
fn the_length_of_a_long_key_is_cut_off() {
    let bytes = serialize_request(&request("c", &"x".repeat(298), vec![]));
    assert_eq!(bytes[0], 44);
    assert_eq!(bytes.len(), 1 + 300 + 4);
}

#[test]
fn a_request_is_read_from_a_stream_in_four_steps() {
    let frame = serialize_request(&request("c", "ping", vec![1, 2, 3]));
    let mut received: Vec<u8> = Vec::new();
    let mut steps: Vec<u64> = Vec::new();
    loop {
        let wanted = request_bytes_wanted(&received);
        if wanted == 0 {
            break;
        }
        steps.push(wanted);
        let end = received.len() + wanted as usize;
        received = frame[..end].to_vec();
    }
    assert_eq!(steps, vec![1, 6, 4, 3]);
    assert_eq!(received, frame);
    assert_eq!(parse_request(&received).expect("frame").request_type, "ping");
}

#[test]
fn a_response_without_a_body_is_read_from_a_stream_in_two_steps() {
    let frame = serialize_response(&response(32, vec![]));
    assert_eq!(response_bytes_wanted(&frame[..0]), 1);
    assert_eq!(response_bytes_wanted(&frame[..1]), 4);
    assert_eq!(response_bytes_wanted(&frame[..3]), 2);
    assert_eq!(response_bytes_wanted(&frame), 0);
    assert_eq!(response_bytes_wanted(&[0, 0, 0, 1, 0]), 256);
}

#[test]
fn streams_that_end_or_fail_are_reported() {
    assert_eq!(protocol_message(stream_ended(4)), "流提前结束: 期望读取 4 字节");
    assert_eq!(protocol_message(stream_failed("reset")), "读取流失败: reset");
}

#[test]
fn requests_responses_and_errors_are_copied() {
    let asked = request("c", "ping", vec![1]);
    assert_eq!(asked.clone(), asked);
    assert_eq!(ProtocolRequest::default(), request("", "", vec![]));
    let answered = response(7, vec![2]);
    assert_eq!(answered.clone(), answered);
    assert_eq!(ProtocolResponse::default(), response(0, vec![]));
    let error = ScaffoldingError::HeartbeatTimeout("late".into());
    assert_eq!(error.clone(), error);
    assert_ne!(error, ScaffoldingError::EasyTierTimeout("late".into()));
}

#[test]
fn only_status_zero_is_a_success() {
    assert!(response(0, vec![]).is_success());
    assert!(!response(1, vec![]).is_success());
    assert!(!response(255, vec![]).is_success());
}
