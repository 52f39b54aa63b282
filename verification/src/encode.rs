//! Shared types for video encoding.
use crate::text::{copy_text, decimal, push_decimal};
use vstd::prelude::*;

verus! {

/// An encoded video packet (one or more NAL units from a single frame).
#[derive(Debug, Clone)]
pub struct EncodedPacket {
    /// H.265 NAL units with Annex B start codes (0x00000001 prefix).
    pub data: Vec<u8>,
    /// Presentation timestamp (frame number).
    pub pts: u64,
    /// True for IDR frames.
    pub is_keyframe: bool,
    /// Microseconds from capture to the start of encoding (0 = unknown).
    pub capture_us: u32,
    /// Microseconds spent encoding (0 = unknown).
    pub encode_us: u32,
}

/// Configuration for the video encoder.
#[derive(Debug, Clone, Copy, PartialEq, Eq, Structural)]
pub struct EncoderConfig {
    /// Frame width in pixels.
    pub width: u32,
    /// Frame height in pixels.
    pub height: u32,
    /// Target framerate.
    pub framerate: u32,
    /// Target bitrate in Mbps.
    pub bitrate_mbps: u32,
}

/// Errors from the video encoding subsystem.
#[derive(Debug, PartialEq, Eq)]
pub enum EncodeError {
    /// An FFmpeg operation failed.
    FfmpegError(String),
    /// Encoder initialization failed (NVENC unavailable, CUDA device error).
    InitError(String),
    /// Encoding a specific frame failed.
    EncodeFrameError {
        /// Frame number that failed.
        frame: u64,
        /// Description of the failure.
        reason: String,
    },
    /// The captured frame has an unsupported pixel format.
    UnsupportedFormat(String),
}

impl EncodeError {
    /// The message of the error.
    pub open spec fn text(&self) -> Seq<char> {
        match self {
            EncodeError::FfmpegError(e) => "FFmpeg error: "@ + e@,
            EncodeError::InitError(e) => "Encoder initialization failed: "@ + e@,
            EncodeError::EncodeFrameError { frame, reason } => "Encoding failed for frame "@
                + decimal(*frame as nat) + ": "@ + reason@,
            EncodeError::UnsupportedFormat(e) => "Unsupported pixel format: "@ + e@,
        }
    }

    /// The message of the error.
    pub fn to_string(&self) -> (s: String)
        ensures
            s@ == self.text(),
    {
        let (head, tail) = match self {
            EncodeError::FfmpegError(e) => ("FFmpeg error: ", e.as_str()),
            EncodeError::InitError(e) => ("Encoder initialization failed: ", e.as_str()),
            EncodeError::UnsupportedFormat(e) => ("Unsupported pixel format: ", e.as_str()),
            EncodeError::EncodeFrameError { frame, reason } => {
                let mut s = copy_text("Encoding failed for frame ");
                push_decimal(&mut s, *frame);
                s.append(": ");
                s.append(reason.as_str());
                return s;
            },
        };
        let mut s = copy_text(head);
        s.append(tail);
        s
    }
}

} // verus!
