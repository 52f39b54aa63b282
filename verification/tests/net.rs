use stargaze::clock::Clock;
use stargaze::config::Codec;
use stargaze::net::{
    preferred_address, request_bytes, response_len, session_params, strip_brackets,
    unexpected_message, ReceiveState, Route, SendOutcome, SessionRequest,
};
use stargaze::queue::{FrameQueue, VIDEO_QUEUE_FRAMES};
use stargaze::transport::{
    deserialize_control_message, serialize_control_message, serialize_header, ControlMessage,
    DatagramHeader, ReassembledFrame, TransportError, IDR_RATE_LIMIT_MS, STREAM_TYPE_AUDIO,
    STREAM_TYPE_VIDEO,
};

const MILLISECOND: u64 = 1_000_000;

fn datagram(stream_type: u8, frame_index: u32, is_keyframe: bool) -> Vec<u8> {
    let mut bytes = serialize_header(&DatagramHeader {
        stream_type,
        frame_index,
        fragment_index: 0,
        fragment_count: 1,
        pts: u64::from(frame_index),
        is_keyframe,
        capture_us: 0,
        convert_us: 0,
        encode_us: 0,
    })
    .unwrap();
    bytes.extend_from_slice(b"payload");
    bytes
}

fn response() -> ControlMessage {
    ControlMessage::SessionResponse {
        width: 2560,
        height: 1440,
        framerate: 120,
        bitrate_mbps: 50,
        codec: Codec::Av1,
        max_datagram_size: 1200,
        cursor_embedded: true,
        server_command: "stargaze-server".to_string(),
        audio_channels: 6,
    }
}

#[test]
fn request_asks_for_the_session() {
    let bytes = request_bytes(&SessionRequest {
        width: 1920,
        height: 1080,
        framerate: 60,
        codec: Codec::H265,
        bitrate_mbps: 25,
    })
    .unwrap();
    assert_eq!(
        deserialize_control_message(&bytes[4..]).unwrap(),
        ControlMessage::SessionRequest {
            width: 1920,
            height: 1080,
            framerate: 60,
            codec: Codec::H265,
            bitrate_mbps: 25,
        }
    );
}

#[test]
fn response_length_is_bounded() {
    assert_eq!(response_len(&65536u32.to_le_bytes()), Ok(65536));
    assert_eq!(
        response_len(&65537u32.to_le_bytes()),
        Err(TransportError::SessionError("session response too large".to_string()))
    );
}

#[test]
fn response_gives_the_parameters() {
    let body = serialize_control_message(&response()).unwrap()[4..].to_vec();
    let params = session_params(&body).unwrap();
    assert_eq!((params.width, params.height, params.framerate), (2560, 1440, 120));
    assert_eq!((params.bitrate_mbps, params.max_datagram_size), (50, 1200));
    assert_eq!((params.codec, params.audio_channels), (Codec::Av1, 6));
    assert_eq!(params.server_command, "stargaze-server");
}

#[test]
fn other_messages_are_no_response() {
    let body = serialize_control_message(&ControlMessage::IdrRequest).unwrap()[4..].to_vec();
    assert_eq!(
        session_params(&body).unwrap_err(),
        TransportError::SessionError("expected SessionResponse, got IdrRequest".to_string())
    );
    assert_eq!(
        unexpected_message("X"),
        TransportError::SessionError("expected SessionResponse, got X".to_string())
    );
    assert!(matches!(
        session_params(&[]),
        Err(TransportError::SessionError(s)) if s.starts_with("control deserialize: ")
    ));
}

#[test]
fn brackets_are_stripped_in_pairs() {
    assert_eq!(strip_brackets("[::1]"), "::1");
    assert_eq!(strip_brackets("[::1"), "[::1");
    assert_eq!(strip_brackets("zeus.lan"), "zeus.lan");
    assert_eq!(strip_brackets("["), "[");
    assert_eq!(strip_brackets("[]"), "");
}

#[test]
fn first_ipv4_address_is_preferred() {
    assert_eq!(preferred_address(&vec![]), None);
    assert_eq!(preferred_address(&vec![false, true, true]), Some(1));
    assert_eq!(preferred_address(&vec![false, false]), Some(0));
}

#[test]
fn frames_are_counted_and_routed() {
    let mut state = ReceiveState::new(Clock::start());
    let frames = state.datagram(&datagram(STREAM_TYPE_VIDEO, 0, true)).unwrap();
    assert_eq!(state.route(&frames[0]), Route::Video);
    let frames = state.datagram(&datagram(STREAM_TYPE_AUDIO, 0, false)).unwrap();
    assert_eq!(state.route(&frames[0]), Route::Audio);
    let frames = state.datagram(&datagram(9, 0, false)).unwrap();
    assert_eq!(state.route(&frames[0]), Route::Unknown);
    assert_eq!(state.total_frames(), 3);
    assert_eq!(state.stats().video_frames, 1);
    assert_eq!(state.stats().video_bytes, 7);
    assert_eq!(state.stats().video_dropped, 0);
    assert!(state.datagram(&[1]).is_err());
}

#[test]
fn tainted_frames_are_dropped() {
    let mut state = ReceiveState::new(Clock::start());
    let start = 1_000 * MILLISECOND;
    state.datagram_at(&datagram(STREAM_TYPE_VIDEO, 0, true), start).unwrap();
    state.datagram_at(&datagram(STREAM_TYPE_VIDEO, 2, false), start).unwrap();
    let frames = state.datagram_at(&datagram(STREAM_TYPE_VIDEO, 3, false), start).unwrap();
    assert_eq!(frames.len(), 2);
    assert_eq!(state.route(&frames[0]), Route::Tainted);
    assert_eq!(state.stats().video_dropped, 1);
    assert!(state.take_request());
    assert!(!state.take_request());
}

#[test]
fn full_decoder_asks_for_a_keyframe() {
    let mut state = ReceiveState::new(Clock::start());
    let start = 1_000 * MILLISECOND;
    state.datagram_at(&datagram(STREAM_TYPE_VIDEO, 0, true), start).unwrap();
    assert!(state.video_sent_at(SendOutcome::Sent, start));
    assert!(!state.take_request());
    assert!(state.video_sent_at(SendOutcome::Full, start));
    assert!(state.take_request());
    assert_eq!(state.stats().video_dropped, 1);
    // A second drop inside the window is deferred to a later datagram.
    assert!(state.video_sent_at(SendOutcome::Full, start));
    assert!(!state.take_request());
    let later = start + IDR_RATE_LIMIT_MS * MILLISECOND;
    state.datagram_at(&datagram(STREAM_TYPE_VIDEO, 1, false), later).unwrap();
    assert!(state.take_request());
    assert!(!state.video_sent(SendOutcome::Closed));
    assert!(state.audio_sent(SendOutcome::Full));
    assert!(!state.audio_sent(SendOutcome::Closed));
}

#[test]
fn decoder_requests_are_rate_limited() {
    let mut state = ReceiveState::new(Clock::start());
    assert!(state.decoder_request_at(0));
    assert!(!state.decoder_request_at(1));
    assert!(state.decoder_request_at(IDR_RATE_LIMIT_MS * MILLISECOND));
    assert!(ReceiveState::new(Clock::start()).decoder_request());
}

fn frame(pts: u64) -> ReassembledFrame {
    ReassembledFrame {
        data: vec![pts as u8],
        pts,
        is_keyframe: false,
        stream_type: STREAM_TYPE_VIDEO,
        capture_us: 0,
        convert_us: 0,
        encode_us: 0,
        received_at: 0,
        tainted: false,
    }
}

#[test]
fn full_queue_drops_its_oldest_frame() {
    let mut state = ReceiveState::new(Clock::start());
    let mut queue = FrameQueue::new(VIDEO_QUEUE_FRAMES);
    assert!(state.queue_video_at(&mut queue, frame(0), 0).is_none());
    assert!(state.queue_video_at(&mut queue, frame(1), 0).is_none());
    assert!(!state.take_request());
    let dropped = state.queue_video_at(&mut queue, frame(2), 0).unwrap();
    assert_eq!(dropped.pts, 0);
    assert_eq!(state.stats().video_dropped, 1);
    assert!(state.take_request());
    // The next drop falls inside the rate limit.
    assert_eq!(state.queue_video_at(&mut queue, frame(3), MILLISECOND).unwrap().pts, 1);
    assert!(!state.take_request());
    assert_eq!(queue.len(), 2);
    assert_eq!(queue.pop().unwrap().pts, 2);
    assert_eq!(queue.pop().unwrap().pts, 3);
    assert!(queue.pop().is_none());
}
