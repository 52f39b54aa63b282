//! Which decoded frame is shown, and the texture it needs.
use crate::decode::{FramePixels, FrameStats};
use crate::stats::{OverlayView, RecordView, StatsOverlay, StatsRecorder};
use vstd::prelude::*;

verus! {

/// How the pixels of a frame are laid out in a texture.
#[derive(Debug, Clone, Copy, PartialEq, Eq, Structural)]
pub enum TextureLayout {
    Nv12,
    I420,
}

/// The layout of a frame.
pub fn texture_layout(pixels: &FramePixels) -> (layout: TextureLayout)
    ensures
        layout == (match pixels {
            FramePixels::Nv12 { .. } => TextureLayout::Nv12,
            FramePixels::I420 { .. } => TextureLayout::I420,
        }),
{
    match pixels {
        FramePixels::Nv12 { .. } => TextureLayout::Nv12,
        FramePixels::I420 { .. } => TextureLayout::I420,
    }
}

/// Whether the texture at hand cannot take a frame of a layout, so that a new
/// one is needed.
pub fn needs_texture(current: Option<TextureLayout>, wanted: TextureLayout) -> (r: bool)
    ensures
        r == (current != Some(wanted)),
{
    match current {
        Some(layout) => layout != wanted,
        None => true,
    }
}

/// The arrivals of frames taken at one time.
pub open spec fn recorded(r: RecordView, frames: Seq<FrameStats>, at: u64) -> RecordView {
    RecordView {
        samples: r.samples + frames,
        arrivals: r.arrivals + Seq::new(frames.len(), |i: int| at),
        ..r
    }
}

/// How many of some frames are not shown, since a newer one is there.
pub open spec fn passed_over(frames: nat) -> nat {
    if frames == 0 {
        0
    } else {
        (frames - 1) as nat
    }
}

/// Takes the frames that were decoded since the last look, in order, at
/// `at`: all are recorded, and the newest one, whose place is returned, is
/// shown.
pub fn pick_frame_at(
    overlay: &mut StatsOverlay,
    recorder: &mut StatsRecorder,
    frames: &Vec<FrameStats>,
    at: u64,
) -> (shown: Option<usize>)
    requires
        old(overlay).wf(),
        old(recorder).wf(),
        old(overlay)@.superseded + passed_over(frames@.len()) <= u64::MAX,
    ensures
        final(overlay).wf(),
        final(recorder).wf(),
        final(recorder)@ == recorded(old(recorder)@, frames@, at),
        final(overlay)@ == (OverlayView {
            superseded: (old(overlay)@.superseded + passed_over(frames@.len())) as u64,
            ..old(overlay)@
        }),
        shown == (if frames@.len() == 0 {
            None
        } else {
            Some((frames@.len() - 1) as usize)
        }),
{
    let mut n: usize = 0;
    assert(recorder@ =~= recorded(recorder@, frames@.take(0), at));
    while n < frames.len()
        invariant
            n <= frames.len(),
            overlay.wf(),
            recorder.wf(),
            old(overlay)@.superseded + passed_over(frames@.len()) <= u64::MAX,
            recorder@ == recorded(old(recorder)@, frames@.take(n as int), at),
            overlay@ == (OverlayView {
                superseded: (old(overlay)@.superseded + passed_over(n as nat)) as u64,
                ..old(overlay)@
            }),
        decreases frames.len() - n,
    {
        recorder.record_at(frames[n], at);
        assert(recorder@ =~= recorded(old(recorder)@, frames@.take(n + 1), at));
        if n > 0 {
            overlay.on_frames_dropped(1);
        }
        n = n + 1;
    }
    assert(frames@.take(n as int) =~= frames@);
    if n == 0 {
        None
    } else {
        Some(n - 1)
    }
}

} // verus!
