use stargaze::receiver::FrameAssembler;
use stargaze::transport::{
    DatagramHeader, IDR_RATE_LIMIT_MS, IDR_RETRY_MS, MAX_PENDING_FRAMES, STREAM_TYPE_AUDIO,
    STREAM_TYPE_VIDEO,
};

const MILLISECOND: u64 = 1_000_000;
const START: u64 = 10_000 * MILLISECOND;

fn make_header(
    stream_type: u8,
    frame_index: u32,
    fragment_index: u16,
    fragment_count: u16,
    pts: u64,
    is_keyframe: bool,
) -> DatagramHeader {
    DatagramHeader {
        stream_type,
        frame_index,
        fragment_index,
        fragment_count,
        pts,
        is_keyframe,
        capture_us: 0,
        convert_us: 0,
        encode_us: 0,
    }
}

fn video_header(
    frame_index: u32,
    fragment_index: u16,
    fragment_count: u16,
    pts: u64,
    is_keyframe: bool,
) -> DatagramHeader {
    make_header(
        STREAM_TYPE_VIDEO,
        frame_index,
        fragment_index,
        fragment_count,
        pts,
        is_keyframe,
    )
}

#[test]
fn single_fragment_frame() {
    let mut assembler = FrameAssembler::new();
    let header = video_header(0, 0, 1, 100, true);
    let payload = vec![1, 2, 3, 4, 5];

    let (frames, need_idr) = assembler.process_datagram(&header, payload.clone());

    assert!(!need_idr);
    assert_eq!(frames.len(), 1);
    assert_eq!(frames[0].data, payload);
    assert_eq!(frames[0].pts, 100);
    assert!(frames[0].is_keyframe);
    assert_eq!(frames[0].stream_type, STREAM_TYPE_VIDEO);
}

#[test]
fn malformed_zero_fragment_count_rejected() {
    // A zero fragment_count off the network must not create an
    // instantly-"complete" empty frame, nor (when keyframe-flagged)
    // clear recovery state.
    let mut assembler = FrameAssembler::new();
    let header = video_header(0, 0, 0, 100, true);

    let (frames, need_idr) = assembler.process_datagram(&header, vec![1, 2, 3]);

    assert!(frames.is_empty());
    assert!(!need_idr);
}

#[test]
fn malformed_datagram_does_not_anchor_delivery() {
    // Malformed headers must be rejected *before* they seed in-order
    // tracking. Without the guard, an out-of-range fragment_index (or a
    // zero fragment_count) with a high frame_index would seed
    // `next_frame` to that index, causing a later legitimate frame 0 to
    // be dropped as "late".
    let mut assembler = FrameAssembler::new();

    // High frame_index, fragment_index >= fragment_count.
    let bad = video_header(10_000, 3, 3, 100, false);
    let (frames, _) = assembler.process_datagram(&bad, vec![9]);
    assert!(frames.is_empty());

    // High frame_index, zero fragment_count.
    let bad2 = video_header(10_001, 0, 0, 100, true);
    let (frames, _) = assembler.process_datagram(&bad2, vec![1, 2, 3]);
    assert!(frames.is_empty());

    // A legitimate frame 0 must still be delivered — proving neither
    // malformed datagram anchored delivery at their high indices.
    let good = video_header(0, 0, 1, 200, true);
    let (frames, need_idr) = assembler.process_datagram(&good, vec![1, 2, 3]);
    assert_eq!(frames.len(), 1);
    assert_eq!(frames[0].data, vec![1, 2, 3]);
    assert!(!need_idr);
}

#[test]
fn multi_fragment_in_order() {
    let mut assembler = FrameAssembler::new();

    let h0 = video_header(0, 0, 3, 0, false);
    let h1 = video_header(0, 1, 3, 0, false);
    let h2 = video_header(0, 2, 3, 0, false);

    let (frames, _) = assembler.process_datagram(&h0, vec![1, 2]);
    assert!(frames.is_empty());

    let (frames, _) = assembler.process_datagram(&h1, vec![3, 4]);
    assert!(frames.is_empty());

    let (frames, _) = assembler.process_datagram(&h2, vec![5, 6]);
    assert_eq!(frames.len(), 1);
    assert_eq!(frames[0].data, vec![1, 2, 3, 4, 5, 6]);
}

#[test]
fn multi_fragment_out_of_order() {
    let mut assembler = FrameAssembler::new();

    let h2 = video_header(0, 2, 3, 42, true);
    let h0 = video_header(0, 0, 3, 42, true);
    let h1 = video_header(0, 1, 3, 42, true);

    let (frames, _) = assembler.process_datagram(&h2, vec![5, 6]);
    assert!(frames.is_empty());

    let (frames, _) = assembler.process_datagram(&h0, vec![1, 2]);
    assert!(frames.is_empty());

    let (frames, _) = assembler.process_datagram(&h1, vec![3, 4]);
    assert_eq!(frames.len(), 1);
    assert_eq!(frames[0].data, vec![1, 2, 3, 4, 5, 6]);
    assert_eq!(frames[0].pts, 42);
    assert!(frames[0].is_keyframe);
}

#[test]
fn duplicate_fragment_ignored() {
    let mut assembler = FrameAssembler::new();

    let h0 = video_header(0, 0, 2, 0, false);
    let h1 = video_header(0, 1, 2, 0, false);

    let (frames, _) = assembler.process_datagram(&h0, vec![1, 2]);
    assert!(frames.is_empty());

    let (frames, _) = assembler.process_datagram(&h0, vec![99, 99]);
    assert!(frames.is_empty());

    let (frames, _) = assembler.process_datagram(&h1, vec![3, 4]);
    assert_eq!(frames.len(), 1);
    assert_eq!(frames[0].data, vec![1, 2, 3, 4]);
}

#[test]
fn max_pending_triggers_idr() {
    let mut assembler = FrameAssembler::new();

    for i in 0..=MAX_PENDING_FRAMES as u32 {
        let h = video_header(i, 0, 2, u64::from(i), false);
        let (_, _need_idr) = assembler.process_datagram(&h, vec![0]);
    }

    let video_pending = assembler.video_pending();
    assert!(
        video_pending == 0 || video_pending <= MAX_PENDING_FRAMES,
        "Video pending should be cleared after IDR"
    );
}

#[test]
fn idr_rate_limiting() {
    let mut assembler = FrameAssembler::new();

    assert!(assembler.should_request_idr());
    assert!(!assembler.should_request_idr());
}

#[test]
fn multiple_frames_sequential() {
    let mut assembler = FrameAssembler::new();

    let h0 = video_header(0, 0, 1, 0, true);
    let (frames, _) = assembler.process_datagram(&h0, vec![10]);
    assert_eq!(frames.len(), 1);

    let h1 = video_header(1, 0, 1, 1, false);
    let (frames, _) = assembler.process_datagram(&h1, vec![20]);
    assert_eq!(frames.len(), 1);
    assert_eq!(frames[0].pts, 1);
}

#[test]
fn mixed_streams_same_frame_index_no_collision() {
    let mut assembler = FrameAssembler::new();

    // Video frame 0 and audio frame 0 should not collide.
    let video_h = video_header(0, 0, 1, 100, true);
    let audio_h = make_header(STREAM_TYPE_AUDIO, 0, 0, 1, 200, false);

    let (frames, _) = assembler.process_datagram(&video_h, vec![0xAA]);
    assert_eq!(frames.len(), 1);
    assert_eq!(frames[0].stream_type, STREAM_TYPE_VIDEO);
    assert_eq!(frames[0].data, vec![0xAA]);
    assert_eq!(frames[0].pts, 100);

    let (frames, _) = assembler.process_datagram(&audio_h, vec![0xBB]);
    assert_eq!(frames.len(), 1);
    assert_eq!(frames[0].stream_type, STREAM_TYPE_AUDIO);
    assert_eq!(frames[0].data, vec![0xBB]);
    assert_eq!(frames[0].pts, 200);
}

#[test]
fn per_stream_in_order_delivery() {
    let mut assembler = FrameAssembler::new();

    // Audio frame 1 is the first frame seen on this stream — in-order
    // tracking starts there and it is delivered immediately.
    let audio_1 = make_header(STREAM_TYPE_AUDIO, 1, 0, 1, 10, false);
    let (frames, _) = assembler.process_datagram(&audio_1, vec![0xBB]);
    assert_eq!(frames.len(), 1);
    assert_eq!(frames[0].data, vec![0xBB]);

    // Audio frame 0 arrives late (before the stream start) — dropped.
    let audio_0 = make_header(STREAM_TYPE_AUDIO, 0, 0, 1, 5, false);
    let (frames, _) = assembler.process_datagram(&audio_0, vec![0xAA]);
    assert!(frames.is_empty());

    // Meanwhile, video stream is tracked independently.
    let video_0 = video_header(0, 0, 1, 50, true);
    let (frames, _) = assembler.process_datagram(&video_0, vec![0xCC]);
    assert_eq!(frames.len(), 1);
    assert_eq!(frames[0].stream_type, STREAM_TYPE_VIDEO);
}

#[test]
fn out_of_order_frames_delivered_in_order() {
    let mut assembler = FrameAssembler::new();

    // Frame 0 starts assembling (1 of 2 fragments).
    let f0_frag0 = video_header(0, 0, 2, 0, true);
    let (frames, _) = assembler.process_datagram(&f0_frag0, vec![1]);
    assert!(frames.is_empty());

    // Frame 1 completes while frame 0 is still pending — must NOT be
    // delivered ahead of frame 0.
    let f1 = video_header(1, 0, 1, 1, false);
    let (frames, need_idr) = assembler.process_datagram(&f1, vec![9]);
    assert!(frames.is_empty());
    assert!(!need_idr);

    // Frame 0 completes — both frames are delivered, in order.
    let f0_frag1 = video_header(0, 1, 2, 0, true);
    let (frames, _) = assembler.process_datagram(&f0_frag1, vec![2]);
    assert_eq!(frames.len(), 2);
    assert_eq!(frames[0].data, vec![1, 2]);
    assert_eq!(frames[1].data, vec![9]);
}

#[test]
fn lost_frame_gap_skipped_and_idr_requested() {
    let mut assembler = FrameAssembler::new();

    // Frame 0 delivered normally.
    let f0 = video_header(0, 0, 1, 0, true);
    let (frames, _) = assembler.process_datagram(&f0, vec![1]);
    assert_eq!(frames.len(), 1);

    // Frame 1 is lost entirely; frame 2 arrives complete — only one
    // frame of progress, could still be simple reordering, so wait.
    let f2 = video_header(2, 0, 1, 2, false);
    let (frames, need_idr) = assembler.process_datagram(&f2, vec![3]);
    assert!(frames.is_empty());
    assert!(!need_idr);

    // Frame 3 completes too — frame 1 is now considered lost: the gap
    // is skipped, frames 2 and 3 are delivered, and an IDR is requested.
    let f3 = video_header(3, 0, 1, 3, false);
    let (frames, need_idr) = assembler.process_datagram(&f3, vec![4]);
    assert_eq!(frames.len(), 2);
    assert_eq!(frames[0].pts, 2);
    assert_eq!(frames[1].pts, 3);
    assert!(need_idr, "Skipping a lost video frame must request an IDR");

    // A late fragment of the skipped frame 1 is ignored.
    let f1_late = video_header(1, 0, 2, 1, false);
    let (frames, need_idr) = assembler.process_datagram(&f1_late, vec![7]);
    assert!(frames.is_empty());
    assert!(!need_idr);
}

#[test]
fn idr_rerequested_until_keyframe_arrives() {
    let mut assembler = FrameAssembler::new();
    let mut now = START;

    // Frame 0 delivered normally.
    let (frames, _) = assembler.process_datagram_at(&video_header(0, 0, 1, 0, true), vec![1], now);
    assert_eq!(frames.len(), 1);

    // Frame 1 lost; frames 2 and 3 arrive → gap skipped, IDR requested.
    assembler.process_datagram_at(&video_header(2, 0, 1, 2, false), vec![2], now);
    let (_, need_idr) = assembler.process_datagram_at(&video_header(3, 0, 1, 3, false), vec![3], now);
    assert!(need_idr);

    // Within the retry window: no duplicate request while the
    // keyframe may still be in flight.
    let (_, need_idr) = assembler.process_datagram_at(&video_header(4, 0, 1, 4, false), vec![4], now);
    assert!(!need_idr);
    now += IDR_RATE_LIMIT_MS * 2 * MILLISECOND;
    let (_, need_idr) = assembler.process_datagram_at(&video_header(5, 0, 1, 5, false), vec![5], now);
    assert!(!need_idr, "retries are slower than the rate-limit floor");

    // Retry window elapses and still no keyframe (the request or the
    // IDR it produced was lost): the request must be re-issued.
    now += IDR_RETRY_MS * 2 * MILLISECOND;
    let (_, need_idr) = assembler.process_datagram_at(&video_header(6, 0, 1, 6, false), vec![6], now);
    assert!(
        need_idr,
        "IDR must be re-requested until a keyframe arrives"
    );

    // Keyframe delivered: recovery complete, requests stop.
    let (frames, need_idr) =
        assembler.process_datagram_at(&video_header(7, 0, 1, 7, true), vec![7], now);
    assert_eq!(frames.len(), 1);
    assert!(!need_idr);
    now += IDR_RETRY_MS * 2 * MILLISECOND;
    let (_, need_idr) = assembler.process_datagram_at(&video_header(8, 0, 1, 8, false), vec![8], now);
    assert!(!need_idr, "recovery is over once a keyframe is delivered");
}

#[test]
fn fresh_disruption_request_is_deferred_not_dropped() {
    let mut assembler = FrameAssembler::new();
    let mut now = START;

    // Frame 0 delivered; an IDR request just went out.
    assembler.process_datagram_at(&video_header(0, 0, 1, 0, true), vec![1], now);
    assert!(assembler.should_request_idr_at(now));

    // A fresh disruption inside the rate-limit window: the request is
    // deferred, not dropped.
    assembler.note_disruption();
    let (_, need_idr) = assembler.process_datagram_at(&video_header(1, 0, 1, 1, false), vec![2], now);
    assert!(!need_idr);

    // Once the rate-limit floor passes (well before the retry
    // cadence), the deferred request goes out.
    now += IDR_RATE_LIMIT_MS * 2 * MILLISECOND;
    let (_, need_idr) = assembler.process_datagram_at(&video_header(2, 0, 1, 2, false), vec![3], now);
    assert!(
        need_idr,
        "a deferred fresh request fires at the rate-limit floor"
    );
}

#[test]
fn note_disruption_triggers_idr_rerequests() {
    let mut assembler = FrameAssembler::new();
    let mut now = START;
    assert!(assembler.should_request_idr_at(now));

    // Frame 0 delivered, then a frame is dropped outside the assembler
    // (decoder backpressure).
    assembler.process_datagram_at(&video_header(0, 0, 1, 0, true), vec![1], now);
    assembler.note_disruption();

    now += IDR_RATE_LIMIT_MS * 2 * MILLISECOND;
    let (_, need_idr) = assembler.process_datagram_at(&video_header(1, 0, 1, 1, false), vec![2], now);
    assert!(need_idr);

    // Cleared by the next keyframe.
    let (_, need_idr) = assembler.process_datagram_at(&video_header(2, 0, 1, 2, true), vec![3], now);
    assert!(!need_idr);
    now += IDR_RETRY_MS * 2 * MILLISECOND;
    let (_, need_idr) = assembler.process_datagram_at(&video_header(3, 0, 1, 3, false), vec![4], now);
    assert!(!need_idr);
}

#[test]
fn overflow_wipe_waits_for_granted_request_and_resumes_forward() {
    let mut assembler = FrameAssembler::new();
    let mut now = START;
    // An IDR request just went out: the limiter suppresses new ones.
    assert!(assembler.should_request_idr_at(now));

    // Fill past max_pending with incomplete frames (1 of 2 fragments).
    for i in 0..=MAX_PENDING_FRAMES as u32 {
        let h = video_header(i, 0, 2, u64::from(i), false);
        let (_, need_idr) = assembler.process_datagram_at(&h, vec![0], now);
        assert!(!need_idr, "request suppressed inside the rate window");
    }
    assert!(
        assembler.video_pending() > MAX_PENDING_FRAMES,
        "buffered frames must be retained until the request can go out"
    );

    // Window expires: the request fires and video tracking resets
    // past the freshest wiped frame.
    now += IDR_RATE_LIMIT_MS * 2 * MILLISECOND;
    let newest = MAX_PENDING_FRAMES as u32 + 1;
    let (_, need_idr) =
        assembler.process_datagram_at(&video_header(newest, 0, 2, 99, false), vec![0], now);
    assert!(need_idr);
    assert_eq!(assembler.video_pending(), 0);
    assert_eq!(assembler.next_frame(STREAM_TYPE_VIDEO), Some(newest + 1));

    // A straggler fragment of a wiped frame must not re-anchor the
    // cursor backwards.
    let (frames, _) = assembler.process_datagram_at(&video_header(3, 1, 2, 3, false), vec![1], now);
    assert!(frames.is_empty());
    assert_eq!(assembler.next_frame(STREAM_TYPE_VIDEO), Some(newest + 1));
}

#[test]
fn frames_after_gap_are_tainted_until_keyframe() {
    let mut assembler = FrameAssembler::new();

    // Keyframe 0 delivered clean.
    let (frames, _) = assembler.process_datagram(&video_header(0, 0, 1, 0, true), vec![1]);
    assert!(!frames[0].tainted);

    // Frame 1 lost; frames 2 and 3 arrive → gap skipped, both
    // delivered tainted (their references are gone).
    assembler.process_datagram(&video_header(2, 0, 1, 2, false), vec![2]);
    let (frames, _) = assembler.process_datagram(&video_header(3, 0, 1, 3, false), vec![3]);
    assert_eq!(frames.len(), 2);
    assert!(frames.iter().all(|f| f.tainted));

    // Still tainted until a keyframe arrives.
    let (frames, _) = assembler.process_datagram(&video_header(4, 0, 1, 4, false), vec![4]);
    assert!(frames[0].tainted);

    // The recovery keyframe itself is clean, and so is what follows.
    let (frames, _) = assembler.process_datagram(&video_header(5, 0, 1, 5, true), vec![5]);
    assert!(!frames[0].tainted);
    let (frames, _) = assembler.process_datagram(&video_header(6, 0, 1, 6, false), vec![6]);
    assert!(!frames[0].tainted);
}

#[test]
fn audio_pending_does_not_trigger_idr() {
    let mut assembler = FrameAssembler::new();

    // Fill up many incomplete audio frames — should NOT trigger IDR.
    for i in 0..=MAX_PENDING_FRAMES as u32 + 5 {
        let h = make_header(STREAM_TYPE_AUDIO, i, 0, 2, u64::from(i), false);
        let (_, need_idr) = assembler.process_datagram(&h, vec![0]);
        assert!(!need_idr, "Audio frames should never trigger IDR");
    }
}

#[test]
fn fragment_order_does_not_matter() {
    let orders = [[0u16, 1, 2], [0, 2, 1], [1, 0, 2], [1, 2, 0], [2, 0, 1], [2, 1, 0]];
    for order in orders {
        let mut assembler = FrameAssembler::new();
        let mut got = Vec::new();
        for i in order {
            let header = video_header(7, i, 3, 1, true);
            let (frames, _) = assembler.process_datagram(&header, vec![i as u8; 2]);
            got.extend(frames);
        }
        assert_eq!(got.len(), 1, "{order:?}");
        assert_eq!(got[0].data, vec![0, 0, 1, 1, 2, 2]);
    }
}

#[test]
fn requests_keep_their_distance() {
    let mut assembler = FrameAssembler::new();
    assert!(assembler.should_request_idr_at(START));
    assert!(!assembler.should_request_idr_at(START + IDR_RATE_LIMIT_MS * MILLISECOND - 1));
    assert!(assembler.should_request_idr_at(START + IDR_RATE_LIMIT_MS * MILLISECOND));
    assert!(!assembler.request_idr_now_at(START + IDR_RATE_LIMIT_MS * MILLISECOND));
}

#[test]
fn received_frame_carries_its_arrival() {
    let mut assembler = FrameAssembler::new();
    let mut header = video_header(0, 0, 1, 9, true);
    header.capture_us = 1;
    header.convert_us = 2;
    header.encode_us = 3;
    let (frames, _) = assembler.process_datagram_at(&header, vec![1], START);
    assert_eq!(frames[0].received_at, START);
    assert_eq!(frames[0].capture_us, 1);
    assert_eq!(frames[0].convert_us, 2);
    assert_eq!(frames[0].encode_us, 3);
}

#[test]
fn highest_index_is_delivered() {
    let mut assembler = FrameAssembler::default();
    let (frames, _) = assembler.process_datagram(&video_header(u32::MAX, 0, 1, 1, true), vec![5]);
    assert_eq!(frames.len(), 1);
}

#[test]
fn frames_cut_into_fragments_come_out_whole() {
    let mut assembler = FrameAssembler::new();
    let parts = [vec![1, 2], vec![], vec![3], vec![4, 5, 6]];
    for (frame, order) in [vec![3, 0, 3, 2, 1], vec![0, 1, 2, 3], vec![2, 2, 1, 0, 3]]
        .into_iter()
        .enumerate()
    {
        let mut delivered = Vec::new();
        for part in order {
            let header = video_header(frame as u32, part as u16, 4, 7, frame == 0);
            let (frames, need_idr) = assembler.process_datagram(&header, parts[part].clone());
            assert!(!need_idr);
            delivered.extend(frames);
        }
        assert_eq!(delivered.len(), 1);
        assert_eq!(delivered[0].data, vec![1, 2, 3, 4, 5, 6]);
        assert!(!delivered[0].tainted);
    }
}

#[test]
fn interleaved_frames_come_out_in_order_as_sent() {
    let mut assembler = FrameAssembler::new();
    let mut frames = Vec::new();
    // (frame, fragment, payload, timestamp): two frames of two fragments
    // each, interleaved; a repeated fragment and a late one are ignored.
    for (frame, fragment, payload, pts) in [
        (0, 0, vec![0], 0),
        (1, 1, vec![31], 1),
        (2, 0, vec![40], 2),
        (1, 1, vec![99], 77),
        (0, 1, vec![1], 88),
        (0, 1, vec![98], 0),
        (1, 0, vec![30], 99),
        (2, 1, vec![41], 2),
    ] {
        let header = video_header(frame, fragment, 2, pts, frame == 0);
        frames.extend(assembler.process_datagram(&header, payload).0);
    }
    let out: Vec<(u64, Vec<u8>)> = frames.into_iter().map(|f| (f.pts, f.data)).collect();
    assert_eq!(out, vec![(0, vec![0, 1]), (1, vec![30, 31]), (2, vec![40, 41])]);
}

#[test]
fn requests_do_not_disturb_delivery() {
    let mut assembler = FrameAssembler::new();
    let mut frames = Vec::new();
    for frame in 0..6u32 {
        for fragment in [1, 0] {
            let header = video_header(frame, fragment, 2, u64::from(frame), frame == 4);
            let now = START + u64::from(frame) * 10 * MILLISECOND;
            let payload = vec![frame as u8, fragment as u8];
            frames.extend(assembler.process_datagram_at(&header, payload, now).0);
            match frame {
                1 => assembler.note_disruption(),
                2 => {
                    assembler.request_idr_now_at(now);
                }
                _ => {
                    assembler.should_request_idr_at(now);
                }
            }
        }
    }
    let pts: Vec<u64> = frames.iter().map(|f| f.pts).collect();
    assert_eq!(pts, vec![0, 1, 2, 3, 4, 5]);
    for f in &frames {
        assert_eq!(f.data, vec![f.pts as u8, 0, f.pts as u8, 1]);
        // Continuity breaks inside frame 1 and is restored by frame 4.
        assert_eq!(f.tainted, (1..4).contains(&f.pts));
    }
}
