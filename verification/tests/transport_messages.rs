use stargaze::config::Codec;
use stargaze::input::{
    AbsAxisSpec, GamepadAxis, GamepadButton, GamepadDescriptor, HidDeviceDescriptor, HidReplyKind,
    InputEvent, MouseButton, RawGamepadEvent,
};
use stargaze::transport::{
    deserialize_control_message, deserialize_header, deserialize_legacy_v1, deserialize_legacy_v2,
    deserialize_session_request_compat, deserialize_session_response_compat,
    deserialize_usb_tunnel_header, serialize_control_message, serialize_header,
    serialize_usb_tunnel_header, ControlMessage, DatagramHeader, LegacyControlMessageV1,
    LegacyControlMessageV2, ReassembledFrame, TransportError, UsbTunnelHeader, STREAM_TYPE_AUDIO,
    STREAM_TYPE_VIDEO, USB_STREAM_MAGIC,
};

#[test]
fn datagram_header_round_trip() {
    let header = DatagramHeader {
        stream_type: STREAM_TYPE_VIDEO,
        frame_index: 42,
        fragment_index: 3,
        fragment_count: 10,
        pts: 12345,
        is_keyframe: true,
        capture_us: 2_100,
        convert_us: 1_500,
        encode_us: 3_400,
    };
    let bytes = serialize_header(&header).unwrap();
    let (decoded, remainder) = deserialize_header(&bytes).unwrap();
    assert_eq!(decoded, header);
    assert!(remainder.is_empty());
}

#[test]
fn datagram_header_with_payload() {
    let header = DatagramHeader {
        stream_type: STREAM_TYPE_AUDIO,
        frame_index: 0,
        fragment_index: 0,
        fragment_count: 1,
        pts: 0,
        is_keyframe: false,
        capture_us: 0,
        convert_us: 0,
        encode_us: 0,
    };
    let header_bytes = serialize_header(&header).unwrap();
    let payload = b"audio data here";
    let mut datagram = header_bytes.clone();
    datagram.extend_from_slice(payload);
    let (decoded, remainder) = deserialize_header(&datagram).unwrap();
    assert_eq!(decoded, header);
    assert_eq!(remainder, payload);
}

#[test]
fn control_message_session_request_round_trip() {
    let msg = ControlMessage::SessionRequest {
        width: 1920,
        height: 1080,
        framerate: 60,
        codec: Codec::H265,
        bitrate_mbps: 25,
    };
    let bytes = serialize_control_message(&msg).unwrap();
    // First 4 bytes are length prefix.
    let len = u32::from_le_bytes(bytes[..4].try_into().unwrap()) as usize;
    assert_eq!(len, bytes.len() - 4);
    let decoded = deserialize_control_message(&bytes[4..]).unwrap();
    assert_eq!(decoded, msg);
}

/// Old client → new server: a pre-v1.3.0 request (no bitrate field)
/// must parse via the compat path with bitrate 0.
#[test]
fn session_request_compat_accepts_legacy_shape() {
    // Tag of the request, width, height, framerate, tag of the codec.
    let old_bytes = postcard::to_allocvec(&(0u32, 1280u32, 800u32, 90u32, 0u32)).unwrap();

    let decoded = deserialize_session_request_compat(&old_bytes).unwrap();
    assert_eq!(
        decoded,
        ControlMessage::SessionRequest {
            width: 1280,
            height: 800,
            framerate: 90,
            codec: Codec::H265,
            bitrate_mbps: 0,
        }
    );
}

/// New client → old server: postcard ignores unread trailing bytes,
/// so an old server parsing today's request with the legacy shape
/// just drops the bitrate field. This test IS the old server.
#[test]
fn legacy_parser_tolerates_new_request_bytes() {
    let msg = ControlMessage::SessionRequest {
        width: 1920,
        height: 1080,
        framerate: 60,
        codec: Codec::Av1,
        bitrate_mbps: 42,
    };
    let body = serialize_control_message(&msg).unwrap()[4..].to_vec();
    let LegacyControlMessageV1::SessionRequest {
        width,
        height,
        framerate,
        codec,
    } = deserialize_legacy_v1(&body)
        .expect("old servers must still parse new requests");
    assert_eq!(
        (width, height, framerate, codec),
        (1920, 1080, 60, Codec::Av1)
    );
}

#[test]
fn control_message_session_response_round_trip() {
    let msg = ControlMessage::SessionResponse {
        width: 2560,
        height: 1440,
        framerate: 120,
        bitrate_mbps: 50,
        codec: Codec::Av1,
        max_datagram_size: 1200,
        cursor_embedded: true,
        server_command: "stargaze-server --bitrate 50".to_string(),
        audio_channels: 6,
    };
    let bytes = serialize_control_message(&msg).unwrap();
    let len = u32::from_le_bytes(bytes[..4].try_into().unwrap()) as usize;
    let decoded = deserialize_control_message(&bytes[4..4 + len]).unwrap();
    assert_eq!(decoded, msg);
}

#[test]
fn session_response_compat_reads_pre_surround_shape() {
    // A pre-surround server serializes a SessionResponse without the
    // trailing audio_channels field; a new client must default it to 2.
    let body = postcard::to_allocvec(&(
        1u32,
        1920u32,
        1080u32,
        60u32,
        20u32,
        0u32,
        1200u16,
        true,
        "stargaze-server",
    ))
    .unwrap();
    let decoded = deserialize_session_response_compat(&body).unwrap();
    assert_eq!(
        decoded,
        ControlMessage::SessionResponse {
            width: 1920,
            height: 1080,
            framerate: 60,
            bitrate_mbps: 20,
            codec: Codec::H265,
            max_datagram_size: 1200,
            cursor_embedded: true,
            server_command: "stargaze-server".to_string(),
            audio_channels: 2,
        }
    );
}

#[test]
fn session_response_compat_reads_current_shape() {
    let msg = ControlMessage::SessionResponse {
        width: 3440,
        height: 1440,
        framerate: 100,
        bitrate_mbps: 30,
        codec: Codec::H265,
        max_datagram_size: 1200,
        cursor_embedded: false,
        server_command: String::new(),
        audio_channels: 8,
    };
    let body = serialize_control_message(&msg).unwrap()[4..].to_vec();
    assert_eq!(deserialize_session_response_compat(&body).unwrap(), msg);
}

/// New server → old client: postcard ignores the appended channel count,
/// leaving the pre-surround response fields unchanged.
#[test]
fn legacy_parser_tolerates_new_response_bytes() {
    let msg = ControlMessage::SessionResponse {
        width: 2560,
        height: 1440,
        framerate: 120,
        bitrate_mbps: 50,
        codec: Codec::H265,
        max_datagram_size: 1200,
        cursor_embedded: true,
        server_command: "stargaze-server --bitrate 50".to_string(),
        audio_channels: 2,
    };
    let body = serialize_control_message(&msg).unwrap()[4..].to_vec();
    let LegacyControlMessageV2::SessionResponse {
        width,
        height,
        framerate,
        bitrate_mbps,
        codec,
        max_datagram_size,
        cursor_embedded,
        server_command,
    } = deserialize_legacy_v2(&body)
        .expect("old clients must still parse new responses")
    else {
        panic!("expected legacy session response");
    };
    assert_eq!(
        (
            width,
            height,
            framerate,
            bitrate_mbps,
            codec,
            max_datagram_size,
            cursor_embedded,
            server_command.as_str(),
        ),
        (
            2560,
            1440,
            120,
            50,
            Codec::H265,
            1200,
            true,
            "stargaze-server --bitrate 50",
        )
    );
}

#[test]
fn control_message_idr_request_round_trip() {
    let msg = ControlMessage::IdrRequest;
    let bytes = serialize_control_message(&msg).unwrap();
    let len = u32::from_le_bytes(bytes[..4].try_into().unwrap()) as usize;
    let decoded = deserialize_control_message(&bytes[4..4 + len]).unwrap();
    assert_eq!(decoded, msg);
}

#[test]
fn control_message_session_response_cursor_hidden_round_trip() {
    let msg = ControlMessage::SessionResponse {
        width: 1920,
        height: 1080,
        framerate: 60,
        bitrate_mbps: 20,
        codec: Codec::H265,
        max_datagram_size: 1200,
        cursor_embedded: false,
        server_command: String::new(),
        audio_channels: 2,
    };
    let bytes = serialize_control_message(&msg).unwrap();
    let len = u32::from_le_bytes(bytes[..4].try_into().unwrap()) as usize;
    let decoded = deserialize_control_message(&bytes[4..4 + len]).unwrap();
    assert_eq!(decoded, msg);
}

#[test]
fn usb_tunnel_header_round_trip() {
    let header = UsbTunnelHeader {
        vendor: 0x28de,
        product: 0x1142,
        devid: (3 << 16) | 7,
        speed: 2,
        name: "Valve Software Steam Controller".to_string(),
    };
    let bytes = serialize_usb_tunnel_header(&header).unwrap();
    assert_eq!(bytes[..4], USB_STREAM_MAGIC);
    let len = u16::from_le_bytes(bytes[4..6].try_into().unwrap()) as usize;
    assert_eq!(len, bytes.len() - 6);
    let decoded = deserialize_usb_tunnel_header(&bytes[6..]).unwrap();
    assert_eq!(decoded, header);
}

#[test]
fn control_message_ping_pong_round_trip() {
    for msg in [
        ControlMessage::Ping {
            timestamp_ms: 1_000_000,
        },
        ControlMessage::Pong {
            timestamp_ms: 1_000_000,
        },
    ] {
        let bytes = serialize_control_message(&msg).unwrap();
        let len = u32::from_le_bytes(bytes[..4].try_into().unwrap()) as usize;
        let decoded = deserialize_control_message(&bytes[4..4 + len]).unwrap();
        assert_eq!(decoded, msg);
    }
}

#[test]
fn transport_error_display() {
    let err = TransportError::ConnectionError("timeout".to_string());
    assert_eq!(err.to_string(), "connection error: timeout");

    let err = TransportError::TlsError("bad cert".to_string());
    assert_eq!(err.to_string(), "TLS error: bad cert");

    let err = TransportError::SerializationError("eof".to_string());
    assert_eq!(err.to_string(), "serialization error: eof");
}

#[test]
fn reassembled_frame_construction() {
    let frame = ReassembledFrame {
        data: vec![1, 2, 3],
        pts: 100,
        is_keyframe: false,
        stream_type: STREAM_TYPE_VIDEO,
        capture_us: 0,
        convert_us: 0,
        encode_us: 0,
        received_at: 0,
        tainted: false,
    };
    assert_eq!(frame.data.len(), 3);
    assert_eq!(frame.pts, 100);
    assert!(!frame.is_keyframe);
    assert_eq!(frame.stream_type, STREAM_TYPE_VIDEO);
}

#[test]
fn stream_type_constants() {
    assert_eq!(STREAM_TYPE_VIDEO, 0);
    assert_eq!(STREAM_TYPE_AUDIO, 1);
    assert_ne!(STREAM_TYPE_VIDEO, STREAM_TYPE_AUDIO);
}

#[test]
fn control_message_input_keyboard_round_trip() {
    let msg = ControlMessage::Input(InputEvent::Keyboard {
        scancode: 4,
        pressed: true,
    });
    let bytes = serialize_control_message(&msg).unwrap();
    let len = u32::from_le_bytes(bytes[..4].try_into().unwrap()) as usize;
    let decoded = deserialize_control_message(&bytes[4..4 + len]).unwrap();
    assert_eq!(decoded, msg);
}

#[test]
fn control_message_input_mouse_move_round_trip() {
    let msg = ControlMessage::Input(InputEvent::MouseMove { dx: -10, dy: 5 });
    let bytes = serialize_control_message(&msg).unwrap();
    let len = u32::from_le_bytes(bytes[..4].try_into().unwrap()) as usize;
    let decoded = deserialize_control_message(&bytes[4..4 + len]).unwrap();
    assert_eq!(decoded, msg);
}

#[test]
fn control_message_input_mouse_button_round_trip() {
    let msg = ControlMessage::Input(InputEvent::MouseButton {
        button: MouseButton::Left,
        pressed: true,
    });
    let bytes = serialize_control_message(&msg).unwrap();
    let len = u32::from_le_bytes(bytes[..4].try_into().unwrap()) as usize;
    let decoded = deserialize_control_message(&bytes[4..4 + len]).unwrap();
    assert_eq!(decoded, msg);
}

#[test]
fn control_message_input_mouse_wheel_round_trip() {
    let msg = ControlMessage::Input(InputEvent::MouseWheel { dx: 0, dy: 3 });
    let bytes = serialize_control_message(&msg).unwrap();
    let len = u32::from_le_bytes(bytes[..4].try_into().unwrap()) as usize;
    let decoded = deserialize_control_message(&bytes[4..4 + len]).unwrap();
    assert_eq!(decoded, msg);
}

#[test]
fn control_message_input_gamepad_axis_round_trip() {
    let msg = ControlMessage::Input(InputEvent::GamepadAxis {
        pad: 0,
        axis: GamepadAxis::LeftX,
        value: -16000,
    });
    let bytes = serialize_control_message(&msg).unwrap();
    let len = u32::from_le_bytes(bytes[..4].try_into().unwrap()) as usize;
    let decoded = deserialize_control_message(&bytes[4..4 + len]).unwrap();
    assert_eq!(decoded, msg);
}

#[test]
fn control_message_input_gamepad_button_round_trip() {
    let msg = ControlMessage::Input(InputEvent::GamepadButton {
        pad: 1,
        button: GamepadButton::South,
        pressed: true,
    });
    let bytes = serialize_control_message(&msg).unwrap();
    let len = u32::from_le_bytes(bytes[..4].try_into().unwrap()) as usize;
    let decoded = deserialize_control_message(&bytes[4..4 + len]).unwrap();
    assert_eq!(decoded, msg);
}

fn round_trip(msg: &ControlMessage) {
    let bytes = serialize_control_message(msg).unwrap();
    let len = u32::from_le_bytes(bytes[..4].try_into().unwrap()) as usize;
    assert_eq!(len, bytes.len() - 4);
    assert_eq!(&deserialize_control_message(&bytes[4..]).unwrap(), msg);
}

#[test]
fn passthrough_events_round_trip() {
    let descriptor = GamepadDescriptor {
        name: "Pad — é".to_string(),
        bus_type: 3,
        vendor: 0x054c,
        product: 0x0ce6,
        version: 0x8111,
        keys: vec![0x130, 0x131, 0x2ff],
        abs_axes: vec![AbsAxisSpec {
            code: 0,
            value: 5,
            minimum: -32768,
            maximum: 32767,
            fuzz: 16,
            flat: 128,
            resolution: 0,
        }],
    };
    for event in [
        InputEvent::GamepadConnected { pad: 2 },
        InputEvent::GamepadDisconnected { pad: 255 },
        InputEvent::GamepadPassthroughConnected { pad: 1, descriptor },
        InputEvent::GamepadPassthroughEvents {
            pad: 1,
            events: vec![
                RawGamepadEvent { event_type: 1, code: 0x130, value: 1 },
                RawGamepadEvent { event_type: 3, code: 0, value: -32768 },
            ],
        },
        InputEvent::HidPassthroughConnected {
            hid: 0,
            descriptor: HidDeviceDescriptor {
                name: "Valve".to_string(),
                phys: "usb-1".to_string(),
                uniq: String::new(),
                bus_type: 3,
                vendor: 0x28de,
                product: 0x1142,
                report_descriptor: vec![6, 0, 255],
            },
        },
        InputEvent::HidPassthroughReport { hid: 3, data: vec![0; 300] },
        InputEvent::HidPassthroughReply {
            hid: 3,
            request: u32::MAX,
            kind: HidReplyKind::SetReport,
            err: true,
            data: Vec::new(),
        },
        InputEvent::HidPassthroughDisconnected { hid: 3 },
    ] {
        round_trip(&ControlMessage::Input(event));
    }
}

#[test]
fn extreme_numbers_round_trip() {
    for (dx, dy) in [(i32::MIN, i32::MAX), (0, -1), (63, -64), (64, -65)] {
        round_trip(&ControlMessage::Input(InputEvent::MouseMove { dx, dy }));
    }
    for timestamp_ms in [0, 127, 128, 16383, 16384, u64::MAX] {
        round_trip(&ControlMessage::Ping { timestamp_ms });
    }
}

#[test]
fn header_bytes_are_variable_length_numbers() {
    let header = DatagramHeader {
        stream_type: STREAM_TYPE_VIDEO,
        frame_index: 300,
        fragment_index: 0,
        fragment_count: 1,
        pts: 5,
        is_keyframe: true,
        capture_us: 0,
        convert_us: 0,
        encode_us: 0,
    };
    assert_eq!(
        serialize_header(&header).unwrap(),
        vec![0, 0xac, 0x02, 0, 1, 5, 1, 0, 0, 0]
    );
}

#[test]
fn truncated_header_is_an_error() {
    let err = deserialize_header(&[0, 0xac]).unwrap_err();
    assert!(matches!(&err, TransportError::SerializationError(s) if s.starts_with("header deserialize: ")));
}

#[test]
fn bad_messages_are_errors() {
    for body in [&[][..], &[200][..], &[0][..], &[0, 1, 2][..], &[4, 0xff][..]] {
        assert!(
            matches!(deserialize_control_message(body), Err(TransportError::SerializationError(_))),
            "{body:?}"
        );
    }
    // A flag that is neither 0 nor 1.
    let mut bytes = serialize_control_message(&ControlMessage::Input(InputEvent::Keyboard {
        scancode: 4,
        pressed: true,
    }))
    .unwrap();
    *bytes.last_mut().unwrap() = 2;
    assert!(deserialize_control_message(&bytes[4..]).is_err());
    assert!(deserialize_usb_tunnel_header(&[1]).is_err());
}

#[test]
fn every_transport_error_has_its_text() {
    for (err, text) in [
        (TransportError::SendError("x".to_string()), "send error: x"),
        (TransportError::ControlError("x".to_string()), "control channel error: x"),
        (TransportError::SessionError("x".to_string()), "session error: x"),
        (TransportError::PipelineClosed("x".to_string()), "pipeline closed: x"),
    ] {
        assert_eq!(err.to_string(), text);
    }
}

#[test]
fn overlong_usb_name_is_refused() {
    let header = UsbTunnelHeader {
        vendor: 1,
        product: 2,
        devid: 3,
        speed: 4,
        name: "x".repeat(70_000),
    };
    assert_eq!(
        serialize_usb_tunnel_header(&header),
        Err(TransportError::SerializationError("usb header too large".to_string()))
    );
}

#[test]
fn compat_readers_refuse_other_messages() {
    let request = ControlMessage::SessionRequest {
        width: 1280,
        height: 800,
        framerate: 60,
        codec: Codec::H265,
        bitrate_mbps: 15,
    };
    let body = serialize_control_message(&request).unwrap()[4..].to_vec();
    assert_eq!(deserialize_session_request_compat(&body).unwrap(), request);
    assert_eq!(
        deserialize_session_response_compat(&body),
        Err(TransportError::SerializationError("not a session response".to_string()))
    );
    // The encoding of `IdrRequest`.
    assert_eq!(
        deserialize_session_response_compat(&[2]),
        Err(TransportError::SerializationError("not a session response".to_string()))
    );
    assert_eq!(
        deserialize_session_request_compat(&[2]),
        Err(TransportError::SerializationError("not a session request".to_string()))
    );
    assert!(matches!(
        deserialize_session_request_compat(&[]),
        Err(TransportError::SerializationError(s)) if s.starts_with("control deserialize: ")
    ));
}
