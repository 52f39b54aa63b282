//! Shared types for video decoding.
use crate::config::Codec;
use crate::text::{copy_text, decimal, push_decimal};
use vstd::prelude::*;

verus! {

/// Pixel data of a decoded 4:2:0 frame, in the layout the decoder produced.
#[derive(Debug, Clone)]
pub enum FramePixels {
    /// Planar YUV 4:2:0: separate Y, U, V planes.
    I420 {
        /// Y (luma) plane, `width * height` bytes.
        y: Vec<u8>,
        /// U (chroma-blue) plane, `(width/2) * (height/2)` bytes.
        u: Vec<u8>,
        /// V (chroma-red) plane, `(width/2) * (height/2)` bytes.
        v: Vec<u8>,
    },
    /// Semi-planar NV12: Y plane plus interleaved UV plane.
    Nv12 {
        /// Y (luma) plane, `width * height` bytes.
        y: Vec<u8>,
        /// Interleaved UV plane, `width * height / 2` bytes.
        uv: Vec<u8>,
    },
}

/// Per-frame pipeline timing measurements. All values in microseconds; zero
/// means "not measured".
#[derive(Debug, Clone, Copy, PartialEq, Eq, Structural)]
pub struct FrameStats {
    /// Host: capture to start of encoding.
    pub capture_us: u32,
    /// Host: frame preparation (pixel conversion + GPU upload).
    pub convert_us: u32,
    /// Host: encode duration.
    pub encode_us: u32,
    /// Client: frame fully received to decode started.
    pub queue_us: u32,
    /// Client: decode duration.
    pub decode_us: u32,
    /// Size of the encoded frame in bytes (for bitrate display).
    pub packet_bytes: u32,
}

impl Default for FrameStats {
    fn default() -> (s: FrameStats)
        ensures
            s == (FrameStats {
                capture_us: 0,
                convert_us: 0,
                encode_us: 0,
                queue_us: 0,
                decode_us: 0,
                packet_bytes: 0,
            }),
    {
        FrameStats {
            capture_us: 0,
            convert_us: 0,
            encode_us: 0,
            queue_us: 0,
            decode_us: 0,
            packet_bytes: 0,
        }
    }
}

/// A decoded video frame ready for rendering.
#[derive(Debug, Clone)]
pub struct DecodedFrame {
    /// Pixel planes in the decoder's native 4:2:0 layout.
    pub pixels: FramePixels,
    /// Frame width in pixels.
    pub width: u32,
    /// Frame height in pixels.
    pub height: u32,
    /// Presentation timestamp (matches the encoded frame's PTS).
    pub pts: u64,
    /// Per-frame pipeline timing, for the client stats overlay.
    pub stats: FrameStats,
}

/// Configuration for the video decoder.
#[derive(Debug, Clone, Copy, PartialEq, Eq, Structural)]
pub struct DecoderConfig {
    /// Expected frame width in pixels.
    pub width: u32,
    /// Expected frame height in pixels.
    pub height: u32,
    /// Codec to decode.
    pub codec: Codec,
}

/// Errors from the video decoding subsystem.
#[derive(Debug, PartialEq, Eq)]
pub enum DecodeError {
    /// An FFmpeg operation failed.
    FfmpegError(String),
    /// Decoder initialization failed (codec unavailable, etc.).
    InitError(String),
    /// Decoding a specific frame failed.
    DecodeFrameError {
        /// PTS of the frame that failed.
        pts: u64,
        /// Description of the failure.
        reason: String,
    },
    /// The requested codec is not supported.
    UnsupportedCodec(String),
}

impl DecodeError {
    /// The message of the error.
    pub open spec fn text(&self) -> Seq<char> {
        match self {
            DecodeError::FfmpegError(e) => "FFmpeg error: "@ + e@,
            DecodeError::InitError(e) => "Decoder initialization failed: "@ + e@,
            DecodeError::DecodeFrameError { pts, reason } => "Decoding failed for frame at PTS "@
                + decimal(*pts as nat) + ": "@ + reason@,
            DecodeError::UnsupportedCodec(e) => "Unsupported codec: "@ + e@,
        }
    }

    /// The message of the error.
    pub fn to_string(&self) -> (s: String)
        ensures
            s@ == self.text(),
    {
        let (head, tail) = match self {
            DecodeError::FfmpegError(e) => ("FFmpeg error: ", e.as_str()),
            DecodeError::InitError(e) => ("Decoder initialization failed: ", e.as_str()),
            DecodeError::UnsupportedCodec(e) => ("Unsupported codec: ", e.as_str()),
            DecodeError::DecodeFrameError { pts, reason } => {
                let mut s = copy_text("Decoding failed for frame at PTS ");
                push_decimal(&mut s, *pts);
                s.append(": ");
                s.append(reason.as_str());
                return s;
            },
        };
        let mut s = copy_text(head);
        s.append(tail);
        s
    }
}

} // verus!
