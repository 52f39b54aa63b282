use stargaze::encode::{EncodeError, EncodedPacket, EncoderConfig};

#[test]
fn encode_error_display_ffmpeg() {
    let err = EncodeError::FfmpegError("codec not found".to_string());
    assert_eq!(err.to_string(), "FFmpeg error: codec not found");
}

#[test]
fn encode_error_display_init() {
    let err = EncodeError::InitError("CUDA device creation failed".to_string());
    assert_eq!(
        err.to_string(),
        "Encoder initialization failed: CUDA device creation failed"
    );
}

#[test]
fn encode_error_display_frame() {
    let err = EncodeError::EncodeFrameError {
        frame: 42,
        reason: "upload failed".to_string(),
    };
    assert_eq!(
        err.to_string(),
        "Encoding failed for frame 42: upload failed"
    );
}

#[test]
fn encode_error_display_unsupported_format() {
    let err = EncodeError::UnsupportedFormat("YUV444P".to_string());
    assert_eq!(err.to_string(), "Unsupported pixel format: YUV444P");
}

#[test]
fn encoded_packet_construction() {
    let pkt = EncodedPacket {
        data: vec![0x00, 0x00, 0x00, 0x01, 0x40, 0x01],
        pts: 0,
        is_keyframe: true,
        capture_us: 0,
        encode_us: 0,
    };
    assert_eq!(pkt.data.len(), 6);
    assert_eq!(pkt.pts, 0);
    assert!(pkt.is_keyframe);
}

#[test]
fn encoder_config_construction() {
    let cfg = EncoderConfig {
        width: 1920,
        height: 1080,
        framerate: 60,
        bitrate_mbps: 20,
    };
    assert_eq!(cfg.width, 1920);
    assert_eq!(cfg.height, 1080);
    assert_eq!(cfg.framerate, 60);
    assert_eq!(cfg.bitrate_mbps, 20);
}
