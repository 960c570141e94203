use axon_cluster::protocol::DecodeError;
use axon_cluster::protocol::EncodeError;
use axon_cluster::protocol::InferenceCodec;
use axon_cluster::protocol::InferenceRequest;
use axon_cluster::protocol::InferenceResponse;

#[test]
fn request_round_trip_with_model() {
    let codec = InferenceCodec;
    let req = InferenceRequest {
        prompt: "2+2?".to_string(),
        model: Some("qwen:0.5b".to_string()),
    };
    let bytes = codec.encode_request(&req).unwrap();
    let back = codec.decode_request(&bytes).unwrap();
    assert_eq!(back, req);
}

#[test]
fn request_round_trip_without_model() {
    let codec = InferenceCodec;
    let req = InferenceRequest {
        prompt: "what is the weather".to_string(),
        model: None,
    };
    let bytes = codec.encode_request(&req).unwrap();
    let back = codec.decode_request(&bytes).unwrap();
    assert_eq!(back, req);
}

#[test]
fn request_round_trip_empty_prompt() {
    let codec = InferenceCodec;
    let req = InferenceRequest {
        prompt: String::new(),
        model: None,
    };
    let bytes = codec.encode_request(&req).unwrap();
    let back = codec.decode_request(&bytes).unwrap();
    assert_eq!(back, req);
}

#[test]
fn request_round_trip_multibyte_prompt() {
    let codec = InferenceCodec;
    let req = InferenceRequest {
        prompt: "héllo ✓ 数".to_string(),
        model: Some("modèle".to_string()),
    };
    let bytes = codec.encode_request(&req).unwrap();
    let back = codec.decode_request(&bytes).unwrap();
    assert_eq!(back, req);
}

#[test]
fn response_round_trip_success() {
    let codec = InferenceCodec;
    let resp = InferenceResponse {
        text: "4".to_string(),
        success: true,
        error: None,
    };
    let bytes = codec.encode_response(&resp).unwrap();
    let back = codec.decode_response(&bytes).unwrap();
    assert_eq!(back, resp);
}

#[test]
fn response_round_trip_failure() {
    let codec = InferenceCodec;
    let resp = InferenceResponse {
        text: String::new(),
        success: false,
        error: Some("connection refused".to_string()),
    };
    let bytes = codec.encode_response(&resp).unwrap();
    let back = codec.decode_response(&bytes).unwrap();
    assert_eq!(back, resp);
}

#[test]
fn request_exact_wire_bytes() {
    let codec = InferenceCodec;
    let req = InferenceRequest {
        prompt: "A".to_string(),
        model: None,
    };
    let bytes = codec.encode_request(&req).unwrap();
    // frame length 6; prompt length 1, byte 'A'; no model.
    assert_eq!(bytes, vec![0, 0, 0, 6, 0, 0, 0, 1, 65, 0]);
}

#[test]
fn response_exact_wire_bytes() {
    let codec = InferenceCodec;
    let resp = InferenceResponse {
        text: "ok".to_string(),
        success: true,
        error: None,
    };
    let bytes = codec.encode_response(&resp).unwrap();
    // frame length 8; text "ok"; success byte; no error.
    assert_eq!(bytes, vec![0, 0, 0, 8, 0, 0, 0, 2, 111, 107, 1, 0]);
}

#[test]
fn truncated_before_prefix_complete() {
    let codec = InferenceCodec;
    assert_eq!(codec.decode_request(&vec![]), Err(DecodeError::Truncated));
    assert_eq!(codec.decode_request(&vec![0, 0, 0]), Err(DecodeError::Truncated));
    assert_eq!(codec.decode_response(&vec![0, 0]), Err(DecodeError::Truncated));
}

#[test]
fn truncated_after_prefix() {
    let codec = InferenceCodec;
    // The prefix declares five payload bytes; only two arrived.
    let stream = vec![0, 0, 0, 5, 1, 2];
    assert_eq!(codec.decode_request(&stream), Err(DecodeError::Truncated));
    assert_eq!(codec.decode_response(&stream), Err(DecodeError::Truncated));
}

#[test]
fn oversize_declared_length_rejected() {
    let codec = InferenceCodec;
    // 0xFF000000 bytes declared: rejected before any allocation.
    let stream = vec![255, 0, 0, 0];
    assert_eq!(codec.decode_request(&stream), Err(DecodeError::TooLarge));
    assert_eq!(codec.decode_response(&stream), Err(DecodeError::TooLarge));
}

#[test]
fn malformed_payload_not_utf8() {
    let codec = InferenceCodec;
    // Prompt field of one byte that is not UTF-8.
    let stream = vec![0, 0, 0, 6, 0, 0, 0, 1, 255, 0];
    assert_eq!(codec.decode_request(&stream), Err(DecodeError::Malformed));
}

#[test]
fn malformed_payload_short_field() {
    let codec = InferenceCodec;
    // Payload of one byte cannot hold a string length.
    let stream = vec![0, 0, 0, 1, 7];
    assert_eq!(codec.decode_request(&stream), Err(DecodeError::Malformed));
}

#[test]
fn malformed_option_tag() {
    let codec = InferenceCodec;
    // Empty prompt, then an option tag that is neither 0 nor 1.
    let stream = vec![0, 0, 0, 5, 0, 0, 0, 0, 7];
    assert_eq!(codec.decode_request(&stream), Err(DecodeError::Malformed));
}

#[test]
fn malformed_trailing_payload_bytes() {
    let codec = InferenceCodec;
    // A well-formed request followed by a stray payload byte.
    let stream = vec![0, 0, 0, 6, 0, 0, 0, 0, 0, 9];
    assert_eq!(codec.decode_request(&stream), Err(DecodeError::Malformed));
}

#[test]
fn stream_bytes_after_frame_ignored() {
    let codec = InferenceCodec;
    let stream = vec![0, 0, 0, 5, 0, 0, 0, 0, 0, 9, 9];
    let back = codec.decode_request(&stream).unwrap();
    assert_eq!(
        back,
        InferenceRequest {
            prompt: String::new(),
            model: None,
        }
    );
}

#[test]
fn oversize_message_refused() {
    let codec = InferenceCodec;
    let req = InferenceRequest {
        prompt: "a".repeat(16_777_217),
        model: None,
    };
    assert_eq!(codec.encode_request(&req), Err(EncodeError::Oversize));
    let resp = InferenceResponse {
        text: "b".repeat(16_777_217),
        success: true,
        error: None,
    };
    assert_eq!(codec.encode_response(&resp), Err(EncodeError::Oversize));
}
