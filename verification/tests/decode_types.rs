use stargaze::config::Codec;
use stargaze::decode::{DecodeError, DecodedFrame, DecoderConfig, FramePixels, FrameStats};

#[test]
fn decode_error_display_ffmpeg() {
    let err = DecodeError::FfmpegError("packet rejected".to_string());
    assert_eq!(err.to_string(), "FFmpeg error: packet rejected");
}

#[test]
fn decode_error_display_init() {
    let err = DecodeError::InitError("hevc decoder not found".to_string());
    assert_eq!(
        err.to_string(),
        "Decoder initialization failed: hevc decoder not found"
    );
}

#[test]
fn decode_error_display_frame() {
    let err = DecodeError::DecodeFrameError {
        pts: 42,
        reason: "corrupt NAL unit".to_string(),
    };
    assert_eq!(
        err.to_string(),
        "Decoding failed for frame at PTS 42: corrupt NAL unit"
    );
}

#[test]
fn decode_error_display_unsupported_codec() {
    let err = DecodeError::UnsupportedCodec("VP9".to_string());
    assert_eq!(err.to_string(), "Unsupported codec: VP9");
}

#[test]
fn decoded_frame_construction() {
    let width: u32 = 1920;
    let height: u32 = 1080;
    let y_size = (width * height) as usize;
    let chroma_size = ((width / 2) * (height / 2)) as usize;
    let frame = DecodedFrame {
        pixels: FramePixels::I420 {
            y: vec![128; y_size],
            u: vec![128; chroma_size],
            v: vec![128; chroma_size],
        },
        width,
        height,
        pts: 0,
        stats: FrameStats::default(),
    };
    match &frame.pixels {
        FramePixels::I420 { y, u, v } => {
            assert_eq!(y.len(), y_size);
            assert_eq!(u.len(), chroma_size);
            assert_eq!(v.len(), chroma_size);
        }
        FramePixels::Nv12 { .. } => panic!("expected I420"),
    }
    assert_eq!(frame.width, 1920);
    assert_eq!(frame.height, 1080);
    assert_eq!(frame.pts, 0);
}

#[test]
fn decoded_frame_nv12_plane_sizes() {
    let width: u32 = 640;
    let height: u32 = 480;
    let y_size = (width * height) as usize;
    let uv_size = (width * height / 2) as usize;

    let frame = DecodedFrame {
        pixels: FramePixels::Nv12 {
            y: vec![0; y_size],
            uv: vec![0; uv_size],
        },
        width,
        height,
        pts: 100,
        stats: FrameStats::default(),
    };

    match &frame.pixels {
        FramePixels::Nv12 { y, uv } => {
            assert_eq!(y.len(), 307_200);
            assert_eq!(uv.len(), 153_600);
        }
        FramePixels::I420 { .. } => panic!("expected NV12"),
    }
}

#[test]
fn decoder_config_construction() {
    let cfg = DecoderConfig {
        width: 1920,
        height: 1080,
        codec: Codec::H265,
    };
    assert_eq!(cfg.width, 1920);
    assert_eq!(cfg.height, 1080);
    assert!(matches!(cfg.codec, Codec::H265));
}
