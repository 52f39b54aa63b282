//! What the errors and descriptions tell.
use crate::audio::AudioError;
use crate::capture::{CaptureError, DmaBufInfo, PixelFormat};
use crate::decode::DecodeError;
use crate::encode::EncodeError;
use crate::error::ConfigError;
use crate::text::{decimal, hex};
use crate::transport::TransportError;
use vstd::prelude::*;

verus! {

/// An error tells what could not be done, to which file, and why.
pub proof fn law_config_errors_tell_what_failed(wrong: String, path: String, reason: String)
    ensures
        ConfigError::InvalidCodec(wrong).text() == "Invalid codec: "@ + wrong@
            + ". Supported: h265, av1"@,
        ConfigError::InvalidResolution(wrong).text() == "Invalid resolution: "@ + wrong@
            + ". Expected format: WIDTHxHEIGHT (e.g. 1920x1080)"@,
        (ConfigError::ParseError { path, reason }).text() == "Failed to parse config file "@ + path@
            + ": "@ + reason@,
        (ConfigError::ReadError { path, reason }).text() == "Failed to read config file "@ + path@
            + ": "@ + reason@,
        (ConfigError::WriteError { path, reason }).text() == "Failed to write config file "@ + path@
            + ": "@ + reason@,
{
    reveal_strlit(" config file ");
    reveal_strlit("Failed to parse");
    reveal_strlit("Failed to read");
    reveal_strlit("Failed to write");
    reveal_strlit("Failed to parse config file ");
    reveal_strlit("Failed to read config file ");
    reveal_strlit("Failed to write config file ");
    assert("Failed to parse"@ + " config file "@ =~= "Failed to parse config file "@);
    assert("Failed to read"@ + " config file "@ =~= "Failed to read config file "@);
    assert("Failed to write"@ + " config file "@ =~= "Failed to write config file "@);
}

/// An error of the connection tells which part of it failed, and why.
pub proof fn law_transport_errors_tell_what_failed(e: String)
    ensures
        TransportError::ConnectionError(e).text() == "connection error: "@ + e@,
        TransportError::SendError(e).text() == "send error: "@ + e@,
        TransportError::ControlError(e).text() == "control channel error: "@ + e@,
        TransportError::SessionError(e).text() == "session error: "@ + e@,
        TransportError::TlsError(e).text() == "TLS error: "@ + e@,
        TransportError::SerializationError(e).text() == "serialization error: "@ + e@,
        TransportError::PipelineClosed(e).text() == "pipeline closed: "@ + e@,
{
}

/// An error of capturing, encoding or decoding tells what failed, and why.
pub proof fn law_video_errors_tell_what_failed(e: String, number: u64)
    ensures
        CaptureError::PortalError(e).text() == "Portal session failed: "@ + e@,
        CaptureError::PipeWireError(e).text() == "PipeWire error: "@ + e@,
        CaptureError::NegotiationError(e).text() == "Buffer format negotiation failed: "@ + e@,
        CaptureError::StreamEnded.text() == "Capture stream ended unexpectedly"@,
        DecodeError::FfmpegError(e).text() == "FFmpeg error: "@ + e@,
        DecodeError::InitError(e).text() == "Decoder initialization failed: "@ + e@,
        (DecodeError::DecodeFrameError { pts: number, reason: e }).text()
            == "Decoding failed for frame at PTS "@ + decimal(number as nat) + ": "@ + e@,
        DecodeError::UnsupportedCodec(e).text() == "Unsupported codec: "@ + e@,
        EncodeError::FfmpegError(e).text() == "FFmpeg error: "@ + e@,
        EncodeError::InitError(e).text() == "Encoder initialization failed: "@ + e@,
        (EncodeError::EncodeFrameError { frame: number, reason: e }).text()
            == "Encoding failed for frame "@ + decimal(number as nat) + ": "@ + e@,
        EncodeError::UnsupportedFormat(e).text() == "Unsupported pixel format: "@ + e@,
{
}

/// An error of the sound tells what failed, and why.
pub proof fn law_audio_errors_tell_what_failed(e: String, channels: u16)
    ensures
        AudioError::CaptureInit(e).text() == "audio capture initialization failed: "@ + e@,
        AudioError::CaptureStream(e).text() == "audio capture stream error: "@ + e@,
        AudioError::EncoderInit(e).text() == "audio encoder initialization failed: "@ + e@,
        AudioError::EncodeFailed(e).text() == "audio encoding failed: "@ + e@,
        AudioError::DecoderInit(e).text() == "audio decoder initialization failed: "@ + e@,
        AudioError::DecodeFailed(e).text() == "audio decoding failed: "@ + e@,
        AudioError::ChannelClosed(e).text() == "audio channel closed: "@ + e@,
        AudioError::UnsupportedChannels(channels).text() == "unsupported channel count "@ + decimal(
            channels as nat,
        ) + ": only 1, 2, 6, or 8 are supported"@,
{
}

/// The name of a pixel format in a description.
pub open spec fn format_name(format: PixelFormat) -> Seq<char> {
    if format == PixelFormat::Bgra8 {
        "Bgra8"@
    } else if format == PixelFormat::Rgba8 {
        "Rgba8"@
    } else {
        "Nv12"@
    }
}

/// A buffer is described by the names of its fields, each with its value.
pub proof fn law_buffers_are_described(b: DmaBufInfo)
    ensures
        b.text() == "DmaBufInfo { fd: "@ + decimal(b.fd as nat) + ", width: "@ + decimal(
            b.width as nat,
        ) + ", height: "@ + decimal(b.height as nat) + ", format: "@ + format_name(b.format)
            + ", modifier: 0x"@ + hex(b.modifier as nat) + ", stride: "@ + decimal(b.stride as nat)
            + ", offset: "@ + decimal(b.offset as nat) + " }"@,
        PixelFormat::Bgra8.text() == "BGRA8"@,
        PixelFormat::Rgba8.text() == "RGBA8"@,
        PixelFormat::Nv12.text() == "NV12"@,
{
}

} // verus!
