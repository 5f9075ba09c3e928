use bytes::Bytes;
use yuha_core::error::ChannelError;
use yuha_core::error::Direction;
use yuha_core::message_channel::encode_frame;
use yuha_core::message_channel::MessageChannel;
use yuha_core::protocol::decode_request;
use yuha_core::protocol::decode_response;
use yuha_core::protocol::encode_request;
use yuha_core::protocol::encode_response;
use yuha_core::protocol::ProtocolRequest;
use yuha_core::protocol::ProtocolResponse;

/// Frame an encoded payload and deliver it into a receiving channel, as the
/// sending side of a connected pair would.
fn deliver_payload(channel: &mut MessageChannel, payload: Vec<u8>) {
    let frame = encode_frame(&Bytes::from(payload)).unwrap();
    channel.push_chunk(&frame);
}

#[test]
fn test_scenario_get_clipboard_returns_data_items() {
    // Client sends a request naming the get_clipboard operation.
    let mut server = MessageChannel::new();
    let request = ProtocolRequest { op: "get_clipboard".to_string(), params: Vec::new() };
    deliver_payload(&mut server, encode_request(&request).unwrap());

    // Server decodes it and replies with one data item.
    let received = decode_request(&server.take_frame().unwrap()).unwrap();
    assert_eq!(received.op, "get_clipboard");
    assert!(received.params.is_empty());
    let reply = ProtocolResponse::Data { items: vec!["hello".to_string()] };

    let mut client = MessageChannel::new();
    deliver_payload(&mut client, encode_response(&reply).unwrap());

    // Client-side extraction yields exactly the sent items.
    match decode_response(&client.take_frame().unwrap()).unwrap() {
        ProtocolResponse::Data { items } => assert_eq!(items, vec!["hello".to_string()]),
        other => panic!("expected a data response, got {:?}", other),
    }
}

#[test]
fn test_scenario_malformed_operation_yields_error_message() {
    let mut server = MessageChannel::new();
    let request = ProtocolRequest { op: "no_such_operation".to_string(), params: Vec::new() };
    deliver_payload(&mut server, encode_request(&request).unwrap());
    let _received = decode_request(&server.take_frame().unwrap()).unwrap();

    let reply = ProtocolResponse::Error { message: "unknown operation".to_string() };
    let mut client = MessageChannel::new();
    deliver_payload(&mut client, encode_response(&reply).unwrap());

    match decode_response(&client.take_frame().unwrap()).unwrap() {
        ProtocolResponse::Error { message } => assert_eq!(message, "unknown operation"),
        other => panic!("expected an error response, got {:?}", other),
    }
}

#[test]
fn test_request_round_trip_with_parameters() {
    let request = ProtocolRequest {
        op: "set_clipboard".to_string(),
        params: vec!["primary".to_string(), "hello world".to_string(), String::new()],
    };
    let payload = encode_request(&request).unwrap();
    let decoded = decode_request(&Bytes::from(payload)).unwrap();
    assert_eq!(decoded, request);
}

#[test]
fn test_request_round_trip_non_ascii() {
    let request = ProtocolRequest {
        op: "écho".to_string(),
        params: vec!["grüße ☃".to_string()],
    };
    let payload = encode_request(&request).unwrap();
    let decoded = decode_request(&Bytes::from(payload)).unwrap();
    assert_eq!(decoded, request);
}

#[test]
fn test_response_round_trip_all_variants() {
    let responses = [
        ProtocolResponse::Success,
        ProtocolResponse::Error { message: "boom".to_string() },
        ProtocolResponse::Data { items: Vec::new() },
        ProtocolResponse::Data { items: vec!["a".to_string(), "b".to_string()] },
    ];
    for response in responses {
        let payload = encode_response(&response).unwrap();
        let decoded = decode_response(&Bytes::from(payload)).unwrap();
        assert_eq!(decoded, response);
    }
}

#[test]
fn test_request_wire_form() {
    let request = ProtocolRequest { op: "get".to_string(), params: Vec::new() };
    let payload = encode_request(&request).unwrap();
    assert_eq!(payload, vec![b'Q', 0x00, 0x03, b'g', b'e', b't', 0x00, 0x00]);
}

#[test]
fn test_success_response_wire_form() {
    let payload = encode_response(&ProtocolResponse::Success).unwrap();
    assert_eq!(payload, vec![b'S']);
}

#[test]
fn test_decode_rejects_malformed_payloads() {
    let malformed: [&[u8]; 6] = [
        // An empty payload.
        &[],
        // An unknown tag.
        &[b'X'],
        // A truncated string field.
        &[b'E', 0x00, 0x05, b'a'],
        // Trailing bytes after a complete response.
        &[b'S', 0x00],
        // A count promising more fields than are present.
        &[b'D', 0x00, 0x02, 0x00, 0x01, b'a'],
        // A field that is not valid UTF-8.
        &[b'E', 0x00, 0x01, 0xff],
    ];
    for payload in malformed {
        let r = decode_response(&Bytes::from(payload.to_vec()));
        match r {
            Err(ChannelError::Serialization { direction, .. }) => {
                assert_eq!(direction, Direction::Response);
            }
            other => panic!("expected a serialization error, got {:?}", other),
        }
    }

    let r = decode_request(&Bytes::from(vec![b'S']));
    match r {
        Err(ChannelError::Serialization { direction, .. }) => {
            assert_eq!(direction, Direction::Request);
        }
        other => panic!("expected a serialization error, got {:?}", other),
    }
}

#[test]
fn test_encode_rejects_oversize_field() {
    let request = ProtocolRequest { op: "x".repeat(65536), params: Vec::new() };
    match encode_request(&request) {
        Err(ChannelError::Serialization { direction, .. }) => {
            assert_eq!(direction, Direction::Request);
        }
        other => panic!("expected a serialization error, got {:?}", other),
    }

    let response = ProtocolResponse::Data { items: vec!["y".repeat(65536)] };
    match encode_response(&response) {
        Err(ChannelError::Serialization { direction, .. }) => {
            assert_eq!(direction, Direction::Response);
        }
        other => panic!("expected a serialization error, got {:?}", other),
    }
}

#[test]
fn test_envelope_over_fragmented_stream() {
    let mut client = MessageChannel::new();
    let reply = ProtocolResponse::Data { items: vec!["clipboard text".to_string()] };
    let frame = encode_frame(&Bytes::from(encode_response(&reply).unwrap())).unwrap();
    for byte in frame {
        assert!(client.take_frame().is_none());
        client.push_chunk(&vec![byte]);
    }
    let decoded = decode_response(&client.take_frame().unwrap()).unwrap();
    assert_eq!(decoded, reply);
}
