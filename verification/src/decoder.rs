//! The video decoder's decisions: what it accepts, how it goes through
//! packets and frames, and what it measures.
use crate::config::Codec;
use crate::decode::{DecodeError, FrameStats};
use crate::text::copy_text;
use crate::transport::{FrameView, ReassembledFrame};
use crate::ui::elapsed_ns;
use vstd::prelude::*;

verus! {

/// Microseconds of a time in nanoseconds, held at the end of the range.
pub open spec fn micros(ns: int) -> u32 {
    if ns / 1000 <= u32::MAX {
        (ns / 1000) as u32
    } else {
        u32::MAX
    }
}

/// Microseconds of a time in nanoseconds, held at the end of the range.
pub fn saturating_us(ns: u64) -> (us: u32)
    ensures
        us == micros(ns as int),
{
    let us: u64 = ns / 1000;
    if us <= u32::MAX as u64 {
        us as u32
    } else {
        u32::MAX
    }
}

/// Whether the decoder can decode a codec: only H.265.
pub fn check_codec(codec: Codec) -> (r: Result<(), DecodeError>)
    ensures
        match r {
            Ok(()) => codec == Codec::H265,
            Err(e) => codec == Codec::Av1 && (e matches DecodeError::UnsupportedCodec(s) && s@
                == "av1 — only H.265 is supported by this decoder"@),
        },
{
    match codec {
        Codec::H265 => Ok(()),
        Codec::Av1 => Err(
            DecodeError::UnsupportedCodec(
                copy_text("av1 — only H.265 is supported by this decoder"),
            ),
        ),
    }
}

/// A pixel format that the decoder offers.
#[derive(Debug, Clone, Copy, PartialEq, Eq, Structural)]
pub struct OfferedFormat {
    /// The number of the format.
    pub id: i32,
    /// Its frames are in memory, not in hardware.
    pub software: bool,
}

/// The first offered software format.
pub open spec fn first_software(formats: Seq<OfferedFormat>) -> Option<i32>
    decreases formats.len(),
{
    if formats.len() == 0 {
        None
    } else if formats[0].software {
        Some(formats[0].id)
    } else {
        first_software(formats.skip(1))
    }
}

/// The format is offered.
pub open spec fn offers(formats: Seq<OfferedFormat>, id: i32) -> bool {
    exists|i: int| 0 <= i < formats.len() && (#[trigger] formats[i]).id == id
}

/// Picks a pixel format: the wanted one if it is offered, else the first
/// software format.
pub fn select_format(formats: &Vec<OfferedFormat>, wanted: i32) -> (format: Option<i32>)
    ensures
        format == (if offers(formats@, wanted) {
            Some(wanted)
        } else {
            first_software(formats@)
        }),
{
    let mut n: usize = 0;
    while n < formats.len()
        invariant
            n <= formats.len(),
            forall|i: int| 0 <= i < n ==> (#[trigger] formats@[i]).id != wanted,
        decreases formats.len() - n,
    {
        if formats[n].id == wanted {
            return Some(wanted);
        }
        n = n + 1;
    }
    assert(!offers(formats@, wanted));
    let mut m: usize = 0;
    assert(formats@.skip(0) =~= formats@);
    while m < formats.len()
        invariant
            m <= formats.len(),
            !offers(formats@, wanted),
            first_software(formats@.skip(m as int)) == first_software(formats@),
        decreases formats.len() - m,
    {
        assert(formats@.skip(m as int).skip(1) =~= formats@.skip(m + 1));
        if formats[m].software {
            return Some(formats[m].id);
        }
        m = m + 1;
    }
    None
}

/// A way in which a decoder can use hardware.
#[derive(Debug, Clone, Copy, PartialEq, Eq, Structural)]
pub struct HardwareConfig {
    /// It works through a device context.
    pub via_device: bool,
    /// The device is the one that is wanted.
    pub wanted_device: bool,
}

/// Whether one of the ways works through a context of the wanted device.
pub fn supports_device(configs: &Vec<HardwareConfig>) -> (r: bool)
    ensures
        r == exists|i: int|
            0 <= i < configs@.len() && (#[trigger] configs@[i]).via_device
                && configs@[i].wanted_device,
{
    let mut n: usize = 0;
    while n < configs.len()
        invariant
            n <= configs.len(),
            forall|i: int|
                0 <= i < n ==> !((#[trigger] configs@[i]).via_device && configs@[i].wanted_device),
        decreases configs.len() - n,
    {
        if configs[n].via_device && configs[n].wanted_device {
            return true;
        }
        n = n + 1;
    }
    false
}

/// What is known of a frame before it is decoded.
pub open spec fn stats_of(frame: FrameView, now: u64) -> FrameStats {
    FrameStats {
        capture_us: frame.capture_us,
        convert_us: frame.convert_us,
        encode_us: frame.encode_us,
        queue_us: micros(elapsed_ns(frame.received_at, now)),
        decode_us: 0,
        packet_bytes: if frame.data.len() <= u32::MAX {
            frame.data.len() as u32
        } else {
            u32::MAX
        },
    }
}

/// What is known of a frame when its packet goes to the decoder at `now`.
pub fn packet_stats(frame: &ReassembledFrame, now: u64) -> (stats: FrameStats)
    ensures
        stats == (FrameStats {
            capture_us: frame.capture_us,
            convert_us: frame.convert_us,
            encode_us: frame.encode_us,
            queue_us: micros(elapsed_ns(frame.received_at, now)),
            decode_us: 0,
            packet_bytes: if frame.data@.len() <= u32::MAX {
                frame.data@.len() as u32
            } else {
                u32::MAX
            },
        }),
        stats == stats_of(frame@, now),
{
    let waited: u64 = if now >= frame.received_at {
        now - frame.received_at
    } else {
        0
    };
    let len: usize = frame.data.len();
    FrameStats {
        capture_us: frame.capture_us,
        convert_us: frame.convert_us,
        encode_us: frame.encode_us,
        queue_us: saturating_us(waited),
        decode_us: 0,
        packet_bytes: if len <= u32::MAX as usize {
            len as u32
        } else {
            u32::MAX
        },
    }
}

/// What is known of a frame once it was decoded in so many nanoseconds.
pub fn decoded_stats(stats: FrameStats, took: u64) -> (r: FrameStats)
    ensures
        r == (FrameStats { decode_us: micros(took as int), ..stats }),
{
    FrameStats { decode_us: saturating_us(took), ..stats }
}

/// What happened in the decode loop.
#[derive(Debug, Clone, Copy, PartialEq, Eq, Structural)]
pub enum DecodeEvent {
    /// The loop is told to stop.
    Shutdown,
    /// No more packets will come.
    Closed,
    /// A packet came.
    Packet,
    /// The decoder took the packet.
    Accepted,
    /// The packet is corrupt.
    Refused,
    /// All frames that were ready were passed on.
    Drained,
    /// The decoder took the end of the stream.
    EndAccepted,
    /// The decoder did not take the end of the stream.
    EndRefused,
    /// The frames left were passed on.
    Flushed,
}

/// What the decode loop does next.
#[derive(Debug, Clone, Copy, PartialEq, Eq, Structural)]
pub enum DecodeAction {
    /// Wait for a packet.
    Wait,
    /// Give the packet to the decoder.
    Feed,
    /// Pass on the frames that are ready.
    Drain,
    /// Tell the decoder that the stream ends.
    SendEnd,
    /// Pass on the frames left.
    Flush,
    /// Leave the loop.
    Finish,
}

/// What the decode loop does after an event. Every packet is decoded: leaving
/// one out would break the references of those that follow.
pub open spec fn decode_next(event: DecodeEvent) -> DecodeAction {
    match event {
        DecodeEvent::Shutdown | DecodeEvent::Closed => DecodeAction::SendEnd,
        DecodeEvent::Packet => DecodeAction::Feed,
        DecodeEvent::Accepted => DecodeAction::Drain,
        DecodeEvent::Refused | DecodeEvent::Drained => DecodeAction::Wait,
        DecodeEvent::EndAccepted => DecodeAction::Flush,
        DecodeEvent::EndRefused | DecodeEvent::Flushed => DecodeAction::Finish,
    }
}

/// What the decode loop does after an event.
pub fn decode_step(event: DecodeEvent) -> (action: DecodeAction)
    ensures
        action == decode_next(event),
{
    match event {
        DecodeEvent::Shutdown | DecodeEvent::Closed => DecodeAction::SendEnd,
        DecodeEvent::Packet => DecodeAction::Feed,
        DecodeEvent::Accepted => DecodeAction::Drain,
        DecodeEvent::Refused | DecodeEvent::Drained => DecodeAction::Wait,
        DecodeEvent::EndAccepted => DecodeAction::Flush,
        DecodeEvent::EndRefused | DecodeEvent::Flushed => DecodeAction::Finish,
    }
}

/// The format of a frame, as far as it matters.
#[derive(Debug, Clone, Copy, PartialEq, Eq, Structural)]
pub enum PixelKind {
    /// A surface in hardware.
    Vaapi,
    /// Luma, and the two colours in turn.
    Nv12,
    /// Three planes.
    Yuv420p,
    /// Anything else.
    Other,
}

/// What happened while frames are taken from the decoder.
#[derive(Debug, Clone, Copy, PartialEq, Eq, Structural)]
pub enum DrainEvent {
    /// A frame of this format came.
    Frame(PixelKind),
    /// No frame is ready.
    Empty,
    /// The decoder failed.
    Failed,
    /// The frame was moved to memory, and has this format there.
    Transferred(PixelKind),
    /// The frame could not be moved to memory.
    TransferFailed,
    /// The frame was converted to three planes.
    Scaled,
    /// The frame could not be converted.
    ScaleFailed,
    /// The frame was passed on.
    Sent,
    /// Nobody takes frames any more.
    ReceiverGone,
}

/// What to do next to take frames from the decoder.
#[derive(Debug, Clone, Copy, PartialEq, Eq, Structural)]
pub enum DrainAction {
    /// Ask for the next frame.
    Receive,
    /// Move the frame to memory.
    Transfer,
    /// Part the colours, and pass the frame on.
    ExtractNv12,
    /// Copy the three planes, and pass the frame on.
    ExtractYuv420p,
    /// Convert the frame to three planes.
    Scale,
    /// Stop.
    Finish,
    /// Stop with an error.
    Fail,
}

/// How a frame in memory is turned into planes.
pub open spec fn extraction(kind: PixelKind) -> DrainAction {
    match kind {
        PixelKind::Nv12 => DrainAction::ExtractNv12,
        PixelKind::Yuv420p => DrainAction::ExtractYuv420p,
        _ => DrainAction::Scale,
    }
}

/// What to do after an event, where `hw_accel` tells whether the decoder uses
/// hardware.
pub open spec fn drain_next(hw_accel: bool, event: DrainEvent) -> DrainAction {
    match event {
        DrainEvent::Frame(kind) => if hw_accel && kind == PixelKind::Vaapi {
            DrainAction::Transfer
        } else {
            extraction(kind)
        },
        DrainEvent::Transferred(kind) => extraction(kind),
        DrainEvent::TransferFailed | DrainEvent::Sent => DrainAction::Receive,
        DrainEvent::Scaled => DrainAction::ExtractYuv420p,
        DrainEvent::ScaleFailed => DrainAction::Fail,
        DrainEvent::Empty | DrainEvent::Failed | DrainEvent::ReceiverGone => DrainAction::Finish,
    }
}

fn extract(kind: PixelKind) -> (action: DrainAction)
    ensures
        action == extraction(kind),
{
    match kind {
        PixelKind::Nv12 => DrainAction::ExtractNv12,
        PixelKind::Yuv420p => DrainAction::ExtractYuv420p,
        _ => DrainAction::Scale,
    }
}

/// What to do after an event to take frames from the decoder.
pub fn drain_step(hw_accel: bool, event: DrainEvent) -> (action: DrainAction)
    ensures
        action == drain_next(hw_accel, event),
{
    match event {
        DrainEvent::Frame(kind) => {
            if hw_accel && kind == PixelKind::Vaapi {
                DrainAction::Transfer
            } else {
                extract(kind)
            }
        },
        DrainEvent::Transferred(kind) => extract(kind),
        DrainEvent::TransferFailed | DrainEvent::Sent => DrainAction::Receive,
        DrainEvent::Scaled => DrainAction::ExtractYuv420p,
        DrainEvent::ScaleFailed => DrainAction::Fail,
        DrainEvent::Empty | DrainEvent::Failed | DrainEvent::ReceiverGone => DrainAction::Finish,
    }
}

/// Planes are copied only out of frames that have them, and a surface in
/// hardware is moved to memory first.
pub proof fn law_extraction_fits_format(hw_accel: bool, event: DrainEvent)
    ensures
        drain_next(hw_accel, event) is ExtractNv12 ==> event == DrainEvent::Frame(PixelKind::Nv12)
            || event == DrainEvent::Transferred(PixelKind::Nv12),
        drain_next(hw_accel, event) is ExtractYuv420p ==> event == DrainEvent::Frame(
            PixelKind::Yuv420p,
        ) || event == DrainEvent::Transferred(PixelKind::Yuv420p) || event is Scaled,
        hw_accel && event == DrainEvent::Frame(PixelKind::Vaapi) ==> drain_next(
            hw_accel,
            event,
        ) is Transfer,
{
}

/// Whether a converter for frames of one size can be used for another.
pub fn needs_new_scaler(current: Option<(u32, u32)>, width: u32, height: u32) -> (r: bool)
    ensures
        r == (current != Some((width, height))),
{
    match current {
        Some((w, h)) => w != width || h != height,
        None => true,
    }
}

} // verus!
