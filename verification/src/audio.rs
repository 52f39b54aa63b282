//! Shared audio types and the Opus channel layout.
use crate::text::{copy_text, decimal, push_decimal};
use vstd::prelude::*;

verus! {

/// The Opus multistream layout for a given channel count.
///
/// Opus encodes a multichannel signal as a set of independent streams, some
/// coupled (stereo) and some uncoupled (mono), plus a table that assigns each
/// interleaved channel to one encoded channel slot. Only the channel count
/// travels over the wire; both peers derive the identical layout from it.
#[derive(Debug, PartialEq, Eq)]
pub struct OpusChannelLayout {
    /// Total number of Opus streams (coupled + uncoupled).
    pub streams: u8,
    /// Number of those streams that are coupled (stereo).
    pub coupled_streams: u8,
    /// The encoded channel index that carries interleaved channel `i`.
    pub mapping: Vec<u8>,
}

/// The table for a supported channel count, in SPA/WAV order: front and
/// rear and side pairs are coupled and come first, front center and the
/// subwoofer are mono and come last.
pub open spec fn channel_mapping(channels: u16) -> Seq<u8> {
    if channels == 1 {
        seq![0u8]
    } else if channels == 2 {
        seq![0u8, 1u8]
    } else if channels == 6 {
        seq![0u8, 1u8, 4u8, 5u8, 2u8, 3u8]
    } else {
        seq![0u8, 1u8, 6u8, 7u8, 2u8, 3u8, 4u8, 5u8]
    }
}

/// Mono, stereo, 5.1 and 7.1 are supported.
pub open spec fn supported_channels(channels: u16) -> bool {
    channels == 1 || channels == 2 || channels == 6 || channels == 8
}

/// The number of stereo pairs among the channels.
pub open spec fn coupled_count(channels: u16) -> int {
    if channels == 1 {
        0
    } else if channels == 2 {
        1
    } else {
        (channels - 2) / 2
    }
}

/// Returns the Opus multistream layout for a supported channel count.
pub fn opus_channel_layout(channels: u16) -> (r: Result<OpusChannelLayout, AudioError>)
    ensures
        match r {
            Ok(layout) => {
                &&& supported_channels(channels)
                &&& layout.mapping@ == channel_mapping(channels)
                &&& layout.coupled_streams == coupled_count(channels)
                &&& layout.streams == channels - coupled_count(channels)
            },
            Err(e) => !supported_channels(channels) && e is UnsupportedChannels
                && e->UnsupportedChannels_0 == channels,
        },
{
    if channels == 1 {
        Ok(OpusChannelLayout { streams: 1, coupled_streams: 0, mapping: vec![0u8] })
    } else if channels == 2 {
        Ok(OpusChannelLayout { streams: 1, coupled_streams: 1, mapping: vec![0u8, 1u8] })
    } else if channels == 6 {
        Ok(
            OpusChannelLayout {
                streams: 4,
                coupled_streams: 2,
                mapping: vec![0u8, 1u8, 4u8, 5u8, 2u8, 3u8],
            },
        )
    } else if channels == 8 {
        Ok(
            OpusChannelLayout {
                streams: 5,
                coupled_streams: 3,
                mapping: vec![0u8, 1u8, 6u8, 7u8, 2u8, 3u8, 4u8, 5u8],
            },
        )
    } else {
        Err(AudioError::UnsupportedChannels(channels))
    }
}

/// A layout has one encoded slot per channel (two per coupled stream, one
/// per other), and its table is a permutation of the slots.
pub proof fn law_layout_is_permutation(channels: u16)
    requires
        supported_channels(channels),
    ensures
        channel_mapping(channels).len() == channels,
        coupled_count(channels) * 2 + (channels - coupled_count(channels) - coupled_count(
            channels,
        )) == channels,
        forall|i: int|
            0 <= i < channels ==> 0 <= #[trigger] channel_mapping(channels)[i] < channels,
        channel_mapping(channels).no_duplicates(),
{
}

/// Configuration for audio capture.
#[derive(Debug, Clone, Copy, PartialEq, Eq, Structural)]
pub struct AudioCaptureConfig {
    /// Target sample rate in Hz (e.g. 48000).
    pub sample_rate: u32,
    /// Number of channels (1, 2, 6, or 8).
    pub channels: u16,
}

/// Opus application mode controlling encoder tuning.
#[derive(Debug, Clone, Copy, PartialEq, Eq, Structural)]
pub enum AudioApplication {
    /// General audio (music, game sounds, mixed content).
    Audio,
    /// Voice-optimized (speech-heavy content).
    Voip,
    /// Ultra-low latency (sacrifices quality for speed).
    LowDelay,
}

/// Configuration for the Opus audio decoder.
#[derive(Debug, Clone, Copy, PartialEq, Eq, Structural)]
pub struct AudioDecoderConfig {
    /// Sample rate in Hz (must be 48000 for Opus).
    pub sample_rate: u32,
    /// Number of channels (1, 2, 6, or 8).
    pub channels: u16,
}

/// Configuration for the Opus audio encoder.
#[derive(Debug, Clone, Copy, PartialEq, Eq, Structural)]
pub struct AudioEncoderConfig {
    /// Sample rate in Hz (must be 48000 for Opus).
    pub sample_rate: u32,
    /// Number of channels (1, 2, 6, or 8).
    pub channels: u16,
    /// Target bitrate in bits per second (e.g. 128000).
    pub bitrate: u32,
    /// Opus application mode.
    pub application: AudioApplication,
}

/// Errors from the audio subsystem (capture and encoding).
#[derive(Debug, PartialEq, Eq)]
pub enum AudioError {
    CaptureInit(String),
    CaptureStream(String),
    EncoderInit(String),
    EncodeFailed(String),
    DecoderInit(String),
    DecodeFailed(String),
    ChannelClosed(String),
    UnsupportedChannels(u16),
}

impl AudioError {
    /// The message of the error.
    pub open spec fn text(&self) -> Seq<char> {
        match self {
            AudioError::CaptureInit(e) => "audio capture initialization failed: "@ + e@,
            AudioError::CaptureStream(e) => "audio capture stream error: "@ + e@,
            AudioError::EncoderInit(e) => "audio encoder initialization failed: "@ + e@,
            AudioError::EncodeFailed(e) => "audio encoding failed: "@ + e@,
            AudioError::DecoderInit(e) => "audio decoder initialization failed: "@ + e@,
            AudioError::DecodeFailed(e) => "audio decoding failed: "@ + e@,
            AudioError::ChannelClosed(e) => "audio channel closed: "@ + e@,
            AudioError::UnsupportedChannels(n) => "unsupported channel count "@ + decimal(
                *n as nat,
            ) + ": only 1, 2, 6, or 8 are supported"@,
        }
    }

    /// The message of the error.
    pub fn to_string(&self) -> (s: String)
        ensures
            s@ == self.text(),
    {
        let (head, tail) = match self {
            AudioError::CaptureInit(e) => ("audio capture initialization failed: ", e.as_str()),
            AudioError::CaptureStream(e) => ("audio capture stream error: ", e.as_str()),
            AudioError::EncoderInit(e) => ("audio encoder initialization failed: ", e.as_str()),
            AudioError::EncodeFailed(e) => ("audio encoding failed: ", e.as_str()),
            AudioError::DecoderInit(e) => ("audio decoder initialization failed: ", e.as_str()),
            AudioError::DecodeFailed(e) => ("audio decoding failed: ", e.as_str()),
            AudioError::ChannelClosed(e) => ("audio channel closed: ", e.as_str()),
            AudioError::UnsupportedChannels(n) => {
                let mut s = copy_text("unsupported channel count ");
                push_decimal(&mut s, *n as u64);
                s.append(": only 1, 2, 6, or 8 are supported");
                return s;
            },
        };
        let mut s = copy_text(head);
        s.append(tail);
        s
    }
}

} // verus!
