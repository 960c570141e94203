use axon_cluster::cli::default_model;
use axon_cluster::cli::default_ollama_url;
use axon_cluster::cli::effective_ollama_url;
use axon_cluster::httpapi::AskOutcome;
use axon_cluster::httpapi::AskResponse;
use axon_cluster::httpapi::ErrorResponse;
use axon_cluster::httpapi::http_reply;
use axon_cluster::psk::PskError;
use axon_cluster::psk::hex_decode;
use axon_cluster::psk::parse_psk;

#[test]
fn args_carry_their_mode() {
    let args = axon_cluster::cli::Args {
        mode: axon_cluster::cli::Mode::Ask {
            prompt: "hi".to_string(),
        },
    };
    match args.mode {
        axon_cluster::cli::Mode::Ask { prompt } => assert_eq!(prompt, "hi"),
        _ => panic!("wrong mode"),
    }
}

#[test]
fn defaults() {
    assert_eq!(default_ollama_url(), "http://127.0.0.1:11434");
    assert_eq!(default_model(), "qwen:0.5b");
}

#[test]
fn env_override_applies_only_to_default_urls() {
    let over = Some("http://10.0.0.2:11434".to_string());
    assert_eq!(
        effective_ollama_url("http://localhost:11434".to_string(), over.clone()),
        "http://10.0.0.2:11434"
    );
    assert_eq!(
        effective_ollama_url("http://127.0.0.1:11434".to_string(), over.clone()),
        "http://10.0.0.2:11434"
    );
    assert_eq!(
        effective_ollama_url("http://example.org:11434".to_string(), over),
        "http://example.org:11434"
    );
    assert_eq!(
        effective_ollama_url("http://localhost:11434".to_string(), None),
        "http://localhost:11434"
    );
}

#[test]
fn http_reply_statuses_and_bodies() {
    let answered = http_reply(AskOutcome::Answer("4".to_string()));
    assert_eq!(answered.status, 200);
    assert_eq!(
        answered.body,
        Ok(AskResponse {
            answer: "4".to_string(),
        })
    );

    let failed = http_reply(AskOutcome::Failure("no peer available".to_string()));
    assert_eq!(failed.status, 500);
    assert_eq!(
        failed.body,
        Err(ErrorResponse {
            error: "no peer available".to_string(),
        })
    );

    let send_failed = http_reply(AskOutcome::SendFailed("queue closed".to_string()));
    assert_eq!(send_failed.status, 500);
    assert_eq!(
        send_failed.body,
        Err(ErrorResponse {
            error: "Failed to send command: queue closed".to_string(),
        })
    );

    let timeout = http_reply(AskOutcome::Timeout);
    assert_eq!(timeout.status, 408);
    assert_eq!(
        timeout.body,
        Err(ErrorResponse {
            error: "Request timeout".to_string(),
        })
    );

    let closed = http_reply(AskOutcome::ChannelClosed);
    assert_eq!(closed.status, 500);
    assert_eq!(
        closed.body,
        Err(ErrorResponse {
            error: "Channel closed".to_string(),
        })
    );
}

#[test]
fn psk_valid_key_file() {
    let mut content = b"/key/swarm/psk/1.0.0/\n/base16/\n".to_vec();
    content.extend_from_slice(
        b"000102030405060708090a0b0c0d0e0f101112131415161718191a1b1c1d1e1f\n",
    );
    let key = parse_psk(&content).unwrap();
    let expected: Vec<u8> = (0u8..32).collect();
    assert_eq!(key, expected);
}

#[test]
fn psk_uppercase_and_crlf() {
    let content = b"/key/swarm/psk/1.0.0/\r\n/base16/\r\n000102030405060708090A0B0C0D0E0F101112131415161718191A1B1C1D1E1F\r\n"
        .to_vec();
    let key = parse_psk(&content).unwrap();
    let expected: Vec<u8> = (0u8..32).collect();
    assert_eq!(key, expected);
}

#[test]
fn psk_bare_hex_without_header() {
    let content =
        b"000102030405060708090a0b0c0d0e0f101112131415161718191a1b1c1d1e1f".to_vec();
    assert!(parse_psk(&content).is_ok());
}

#[test]
fn psk_empty_file() {
    assert_eq!(parse_psk(&Vec::new()), Err(PskError::Empty));
    assert_eq!(parse_psk(&b" \n\t\n".to_vec()), Err(PskError::Empty));
}

#[test]
fn psk_invalid_hex() {
    assert_eq!(
        parse_psk(&b"header\nzz".to_vec()),
        Err(PskError::InvalidHex)
    );
    // Odd number of digits.
    assert_eq!(parse_psk(&b"abc".to_vec()), Err(PskError::InvalidHex));
}

#[test]
fn psk_wrong_length() {
    assert_eq!(
        parse_psk(&b"header\nab".to_vec()),
        Err(PskError::WrongLength { got: 1 })
    );
}

#[test]
fn hex_decode_exact_values() {
    assert_eq!(hex_decode(&b"deadBEEF".to_vec()), Some(vec![0xde, 0xad, 0xbe, 0xef]));
    assert_eq!(hex_decode(&b"".to_vec()), Some(Vec::new()));
    assert_eq!(hex_decode(&b"0g".to_vec()), None);
}
