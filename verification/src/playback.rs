//! Audio playback: sizes of buffers, the backlog that is tolerated, and the
//! steps of the audio decoder.
use crate::text::{copy_text, decimal, push_decimal};
use vstd::prelude::*;

verus! {

/// Samples of a channel in a packet: ten milliseconds.
pub const OPUS_FRAME_SAMPLES: usize = 480;

/// Bytes of a millisecond of playback: 48 samples of four bytes for each
/// channel.
pub fn audio_bytes_per_ms(channels: u16) -> (n: u32)
    ensures
        n == 48 * channels * 4,
{
    48 * channels as u32 * 4
}

/// The most bytes that may wait for playback: 150 milliseconds.
pub fn max_queued_audio_bytes(channels: u16) -> (n: u32)
    ensures
        n == 150 * (48 * channels * 4),
{
    150 * audio_bytes_per_ms(channels)
}

/// Whether so much waits for playback that it has to be dropped, since it
/// would lag behind the picture forever.
pub fn over_backlog(queued: u32, channels: u16) -> (r: bool)
    ensures
        r == (queued > 150 * (48 * channels * 4)),
{
    queued > max_queued_audio_bytes(channels)
}

/// The channel count as the audio device takes it.
pub fn device_channels(channels: u16) -> (r: Result<u8, String>)
    ensures
        match r {
            Ok(n) => n == channels,
            Err(e) => channels > u8::MAX && e@ == "unsupported audio channel count "@ + decimal(
                channels as nat,
            ),
        },
{
    if channels <= 0xff {
        Ok(channels as u8)
    } else {
        let mut s = copy_text("unsupported audio channel count ");
        push_decimal(&mut s, channels as u64);
        Err(s)
    }
}

/// The samples that the buffer of the audio decoder holds.
pub fn decode_buffer_len(channels: u16) -> (n: usize)
    ensures
        n == OPUS_FRAME_SAMPLES * channels,
{
    OPUS_FRAME_SAMPLES * channels as usize
}

/// The samples of all channels that a packet gave.
pub fn pcm_len(samples_per_channel: usize, channels: u16) -> (n: usize)
    requires
        samples_per_channel <= OPUS_FRAME_SAMPLES,
    ensures
        n == samples_per_channel * channels,
        n <= OPUS_FRAME_SAMPLES * channels,
{
    assert(samples_per_channel * channels <= OPUS_FRAME_SAMPLES * channels) by (nonlinear_arith)
        requires
            samples_per_channel <= OPUS_FRAME_SAMPLES,
    ;
    samples_per_channel * channels as usize
}

/// What happened in the audio decode loop.
#[derive(Debug, Clone, Copy, PartialEq, Eq, Structural)]
pub enum AudioEvent {
    /// The loop is told to stop.
    Shutdown,
    /// No more packets will come.
    Closed,
    /// A packet came.
    Packet,
    /// The packet was decoded.
    Decoded,
    /// The packet could not be decoded.
    Refused,
    /// The samples were passed on.
    Sent,
    /// Nobody takes samples any more.
    ReceiverGone,
}

/// What the audio decode loop does next.
#[derive(Debug, Clone, Copy, PartialEq, Eq, Structural)]
pub enum AudioAction {
    /// Wait for a packet.
    Wait,
    /// Decode the packet.
    Decode,
    /// Pass the samples on.
    Send,
    /// Leave the loop.
    Finish,
}

/// What the audio decode loop does after an event: a packet that cannot be
/// decoded is left out.
pub fn audio_step(event: AudioEvent) -> (action: AudioAction)
    ensures
        action == (match event {
            AudioEvent::Shutdown | AudioEvent::Closed | AudioEvent::ReceiverGone => {
                AudioAction::Finish
            },
            AudioEvent::Packet => AudioAction::Decode,
            AudioEvent::Decoded => AudioAction::Send,
            AudioEvent::Refused | AudioEvent::Sent => AudioAction::Wait,
        }),
{
    match event {
        AudioEvent::Shutdown | AudioEvent::Closed | AudioEvent::ReceiverGone => {
            AudioAction::Finish
        },
        AudioEvent::Packet => AudioAction::Decode,
        AudioEvent::Decoded => AudioAction::Send,
        AudioEvent::Refused | AudioEvent::Sent => AudioAction::Wait,
    }
}

} // verus!
