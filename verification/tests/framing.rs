use bytes::Bytes;
use yuha_core::error::ChannelError;
use yuha_core::message_channel::encode_frame;
use yuha_core::message_channel::MessageChannel;

/// Send one frame's bytes to a receiving channel, whole.
fn deliver(channel: &mut MessageChannel, frame: &[u8]) {
    channel.push_chunk(&frame.to_vec());
}

#[test]
fn test_send_receive_binary() {
    let mut server_channel = MessageChannel::new();

    let test_data = Bytes::from_static(b"Hello, server!");
    let frame = encode_frame(&test_data).unwrap();
    deliver(&mut server_channel, &frame);

    let received = server_channel.take_frame().unwrap();
    assert_eq!(received, Bytes::from_static(b"Hello, server!"));
}

#[test]
fn test_frame_wire_form_is_length_prefixed_big_endian() {
    let frame = encode_frame(&Bytes::from_static(b"abc")).unwrap();
    assert_eq!(frame, vec![0x00, 0x03, b'a', b'b', b'c']);

    let frame = encode_frame(&Bytes::from(vec![0u8; 300])).unwrap();
    assert_eq!(frame[0], 0x01);
    assert_eq!(frame[1], 0x2c);
    assert_eq!(frame.len(), 302);
}

#[test]
fn test_round_trip_empty_payload() {
    let mut channel = MessageChannel::new();
    let frame = encode_frame(&Bytes::new()).unwrap();
    assert_eq!(frame, vec![0x00, 0x00]);
    deliver(&mut channel, &frame);
    let received = channel.take_frame().unwrap();
    assert_eq!(received.len(), 0);
}

#[test]
fn test_round_trip_largest_payload() {
    let payload: Vec<u8> = (0..65535u32).map(|i| (i % 251) as u8).collect();
    let mut channel = MessageChannel::new();
    let frame = encode_frame(&Bytes::from(payload.clone())).unwrap();
    assert_eq!(frame.len(), 2 + 65535);
    deliver(&mut channel, &frame);
    let received = channel.take_frame().unwrap();
    assert_eq!(received.to_vec(), payload);
}

#[test]
fn test_oversize_send_is_rejected_and_writes_nothing() {
    let payload = vec![0u8; 65536];
    let r = encode_frame(&Bytes::from(payload));
    assert_eq!(r, Err(ChannelError::BufferOverflow { size: 65536 }));
    // The failed send described no bytes to write, so a peer fed from it
    // observes nothing.
    let mut peer = MessageChannel::new();
    assert!(peer.take_frame().is_none());
}

#[test]
fn test_fragmentation_one_byte_at_a_time() {
    let mut channel = MessageChannel::new();
    let frame = encode_frame(&Bytes::from_static(b"fragmented payload")).unwrap();
    for (i, byte) in frame.iter().enumerate() {
        // Until the very last byte arrives, no frame can be taken.
        if i + 1 < frame.len() {
            assert!(channel.take_frame().is_none());
        }
        channel.push_chunk(&vec![*byte]);
    }
    let received = channel.take_frame().unwrap();
    assert_eq!(received, Bytes::from_static(b"fragmented payload"));
}

#[test]
fn test_partial_header_yields_no_frame() {
    let mut channel = MessageChannel::new();
    channel.push_chunk(&vec![0x00]);
    assert!(channel.take_frame().is_none());
}

#[test]
fn test_partial_payload_yields_no_frame() {
    let mut channel = MessageChannel::new();
    // Header promises 4 bytes; only 3 arrive before the peer closes. The
    // half-received frame must never come out as a truncated success.
    channel.push_chunk(&vec![0x00, 0x04, b'a', b'b', b'c']);
    assert!(channel.take_frame().is_none());
    assert!(channel.take_frame().is_none());
}

#[test]
fn test_extra_bytes_stay_buffered_for_next_call() {
    let mut channel = MessageChannel::new();
    let mut bytes = encode_frame(&Bytes::from_static(b"first")).unwrap();
    bytes.extend_from_slice(&encode_frame(&Bytes::from_static(b"second")).unwrap());
    bytes.extend_from_slice(&[0x00]);
    channel.push_chunk(&bytes);

    assert_eq!(channel.take_frame().unwrap(), Bytes::from_static(b"first"));
    assert_eq!(channel.take_frame().unwrap(), Bytes::from_static(b"second"));
    // The trailing partial header stays buffered.
    assert!(channel.take_frame().is_none());
    channel.push_chunk(&vec![0x01, b'z']);
    assert_eq!(channel.take_frame().unwrap(), Bytes::from_static(b"z"));
}

#[test]
fn test_frames_are_delivered_in_order_sent() {
    let mut channel = MessageChannel::new();
    for i in 0..10u8 {
        let frame = encode_frame(&Bytes::from(vec![i; 3])).unwrap();
        channel.push_chunk(&frame);
    }
    for i in 0..10u8 {
        assert_eq!(channel.take_frame().unwrap().to_vec(), vec![i; 3]);
    }
    assert!(channel.take_frame().is_none());
}
