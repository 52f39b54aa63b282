//! What holds of reassembly over several datagrams.
use crate::receiver::{
    complete_at, frame_key, is_complete, key_index, key_stream, lemma_frame_key,
    limiter_open, malformed, opened_frame, passes, stop_index, stops_at, two_past,
    video_keys, walk, with_fragment, AssemblerModel, PendingView, Recovery, INDEX_END,
};
use crate::transport::{DatagramHeader, FrameView, IDR_RATE_LIMIT_MS, STREAM_TYPE_VIDEO};
use vstd::prelude::*;

verus! {

/// A malformed datagram changes nothing and delivers nothing.
pub proof fn law_malformed_changes_nothing(
    m: AssemblerModel,
    header: DatagramHeader,
    payload: Seq<u8>,
    now: u64,
)
    requires
        header.fragment_count == 0 || header.fragment_index >= header.fragment_count,
    ensures
        m.after_datagram(header, payload, now) == (m, Seq::<FrameView>::empty(), false),
{
}

/// A fragment of a frame before the cursor of its stream is dropped: it
/// delivers nothing and changes nothing.
pub proof fn law_late_fragment_dropped(
    m: AssemblerModel,
    header: DatagramHeader,
    payload: Seq<u8>,
    now: u64,
)
    requires
        m.next_frame.contains_key(header.stream_type),
        header.frame_index < m.next_frame[header.stream_type],
    ensures
        m.after_datagram(header, payload, now) == (m, Seq::<FrameView>::empty(), false),
{
    assert(m.next_frame.insert(header.stream_type, m.next_frame[header.stream_type])
        =~= m.next_frame);
}

/// The first copy of a fragment wins: a second one changes nothing.
pub proof fn law_duplicate_fragment_ignored(
    frame: PendingView,
    index: int,
    first: Seq<u8>,
    second: Seq<u8>,
)
    requires
        0 <= index < frame.fragments.len(),
    ensures
        with_fragment(with_fragment(frame, index, first), index, second) == with_fragment(
            frame,
            index,
            first,
        ),
{
}

/// The fragments of a frame may arrive in any order.
pub proof fn law_fragment_order_irrelevant(
    frame: PendingView,
    i: int,
    a: Seq<u8>,
    j: int,
    b: Seq<u8>,
)
    requires
        0 <= i < frame.fragments.len(),
        0 <= j < frame.fragments.len(),
        i != j,
    ensures
        with_fragment(with_fragment(frame, i, a), j, b) == with_fragment(
            with_fragment(frame, j, b),
            i,
            a,
        ),
{
    assert(with_fragment(with_fragment(frame, i, a), j, b).fragments =~= with_fragment(
        with_fragment(frame, j, b),
        i,
        a,
    ).fragments);
}

/// A single-fragment frame is complete at once, and its payload is the
/// fragment's.
pub proof fn law_single_fragment_complete(header: DatagramHeader, payload: Seq<u8>)
    requires
        header.fragment_count == 1,
        header.fragment_index == 0,
    ensures
        is_complete(with_fragment(opened_frame(header), 0, payload)),
        crate::receiver::joined(with_fragment(opened_frame(header), 0, payload).fragments)
            == payload,
{
    let fragments = with_fragment(opened_frame(header), 0, payload).fragments;
    assert(fragments.drop_last() =~= Seq::empty());
    reveal_with_fuel(crate::receiver::joined, 2);
    assert(crate::receiver::joined(fragments) =~= payload);
}

/// The newest complete frame of a stream from `from` on.
pub open spec fn newest_complete(
    pending: Map<u64, PendingView>,
    stream_type: u8,
    from: int,
    i: int,
) -> bool {
    &&& from <= i
    &&& complete_at(pending, stream_type, i)
    &&& forall|j: int| #[trigger] complete_at(pending, stream_type, j) ==> j <= i
}

/// Delivery stays where it is when no frame from the cursor on is complete.
pub proof fn law_nothing_complete_nothing_delivered(
    pending: Map<u64, PendingView>,
    stream_type: u8,
    from: int,
)
    requires
        0 <= from < INDEX_END,
        forall|j: int| #[trigger] complete_at(pending, stream_type, j) ==> j < from,
    ensures
        stops_at(pending, stream_type, from, from),
        stop_index(pending, stream_type, from) == from,
{
    assert(stops_at(pending, stream_type, from, from));
    let to = stop_index(pending, stream_type, from);
    if to > from {
        assert(passes(pending, stream_type, from));
    }
}

/// Delivery reaches past the newest complete frame, unless that frame lies
/// just behind one that is still missing: then delivery waits for the
/// missing one, since a single frame of progress may be reordering.
pub proof fn law_delivery_reach(
    pending: Map<u64, PendingView>,
    stream_type: u8,
    from: int,
    newest: int,
)
    requires
        0 <= from,
        newest_complete(pending, stream_type, from, newest),
    ensures
        ({
            let waits = newest > from && !complete_at(pending, stream_type, newest - 1)
                && newest < INDEX_END - 1;
            stop_index(pending, stream_type, from) == (if waits {
                newest - 1
            } else {
                newest + 1
            })
        }),
{
    let waits = newest > from && !complete_at(pending, stream_type, newest - 1) && newest
        < INDEX_END - 1;
    let to = if waits {
        newest - 1
    } else {
        newest + 1
    };
    assert forall|i: int| from <= i < to implies #[trigger] passes(pending, stream_type, i) by {
        if !complete_at(pending, stream_type, i) {
            assert(two_past(i) <= newest);
            assert(complete_at(pending, stream_type, newest));
        }
    }
    if to < INDEX_END && passes(pending, stream_type, to) {
        if complete_at(pending, stream_type, to) {
        } else {
            let j = choose|j: int|
                two_past(to) <= j && #[trigger] complete_at(pending, stream_type, j);
            assert(j <= newest);
        }
    }
    assert(stops_at(pending, stream_type, from, to));
    let other = stop_index(pending, stream_type, from);
    if other < to {
        assert(passes(pending, stream_type, other));
    }
    if to < other {
        assert(passes(pending, stream_type, to));
    }
}

/// Where delivery stops exists, from whatever cursor.
pub proof fn lemma_stop_exists(pending: Map<u64, PendingView>, stream_type: u8, from: int)
    requires
        0 <= from <= INDEX_END,
    ensures
        stops_at(pending, stream_type, from, stop_index(pending, stream_type, from)),
    decreases INDEX_END - from,
{
    if from == INDEX_END || !passes(pending, stream_type, from) {
        assert(stops_at(pending, stream_type, from, from));
    } else {
        lemma_stop_exists(pending, stream_type, from + 1);
        let to = stop_index(pending, stream_type, from + 1);
        assert forall|i: int| from <= i < to implies #[trigger] passes(pending, stream_type, i) by {
            if i > from {
                assert(from + 1 <= i);
            }
        }
        assert(stops_at(pending, stream_type, from, to));
    }
}

/// Delivery runs past the last index only if that frame has arrived.
pub proof fn lemma_end_needs_last(pending: Map<u64, PendingView>, stream_type: u8, from: int)
    requires
        0 <= from < INDEX_END,
    ensures
        stop_index(pending, stream_type, from) == INDEX_END ==> pending.contains_key(
            frame_key(stream_type, u32::MAX as int),
        ),
{
    lemma_stop_exists(pending, stream_type, from);
    if stop_index(pending, stream_type, from) == INDEX_END {
        let last = u32::MAX as int;
        assert(passes(pending, stream_type, last));
        if !complete_at(pending, stream_type, last) {
            let j = choose|j: int|
                two_past(last) <= j && #[trigger] complete_at(pending, stream_type, j);
            assert(j == last);
        }
    }
}

/// The cursor of a stream only moves forward; it starts over only past the
/// frame with the last index.
pub proof fn law_cursor_monotonic(
    m: AssemblerModel,
    header: DatagramHeader,
    payload: Seq<u8>,
    now: u64,
    stream_type: u8,
)
    requires
        m.wf(),
        m.next_frame.contains_key(stream_type),
    ensures
        ({
            let after = m.after_datagram(header, payload, now).0;
            &&& after.next_frame.contains_key(stream_type)
            &&& after.next_frame[stream_type] >= m.next_frame[stream_type] || (
            after.next_frame[stream_type] == 0 && m.stored(header, payload).contains_key(
                frame_key(stream_type, u32::MAX as int),
            ))
        }),
{
    if !malformed(header) {
        let next = m.cursor(header);
        let seeded = AssemblerModel {
            next_frame: m.next_frame.insert(header.stream_type, next),
            ..m
        };
        if header.frame_index >= next {
            let filled = AssemblerModel { pending: m.stored(header, payload), ..seeded };
            lemma_stop_exists(filled.pending, header.stream_type, next as int);
            lemma_end_needs_last(filled.pending, header.stream_type, next as int);
            let after = filled.delivered(header.stream_type, next, now).0;
            let settled = if after.overflowing() {
                after.disrupted()
            } else {
                after
            };
            if settled.request_due(now) && settled.overflowing() {
                let to = stop_index(filled.pending, header.stream_type, next as int);
                crate::receiver::lemma_remove_keys_finite(
                    filled.pending,
                    Set::new(
                        |k: u64|
                            key_stream(k) == header.stream_type && next <= key_index(k) < to,
                    ),
                );
                lemma_newest_exists(settled.pending);
                let newest = choose|i: int|
                    crate::receiver::is_newest_video(settled.requested(now).pending, i);
                let key = frame_key(STREAM_TYPE_VIDEO, newest);
                lemma_frame_key(STREAM_TYPE_VIDEO, newest);
                lemma_frame_key(header.stream_type, header.frame_index as int);
                assert(settled.pending.contains_key(key));
                assert(filled.pending.contains_key(key));
                if key != frame_key(header.stream_type, header.frame_index as int) {
                    assert(m.pending.contains_key(key));
                }
            }
        }
    }
}

/// Pending video frames have a newest one.
pub proof fn lemma_newest_exists(pending: Map<u64, PendingView>)
    requires
        video_keys(pending).len() > 0,
        pending.dom().finite(),
    ensures
        exists|i: int| crate::receiver::is_newest_video(pending, i),
{
    let keys = video_keys(pending);
    lemma_max_key(keys);
    let top = choose|k: u64|
        #![trigger keys.contains(k)]
        keys.contains(k) && forall|j: u64| #[trigger] keys.contains(j) ==> j <= k;
    assert(key_stream(top) == 0);
    assert(frame_key(STREAM_TYPE_VIDEO, key_index(top)) == top);
    assert forall|k: u64| #[trigger] keys.contains(k) implies key_index(k) <= key_index(top) by {
        assert(key_stream(k) == 0);
    }
    assert(crate::receiver::is_newest_video(pending, key_index(top)));
}

proof fn lemma_max_key(keys: Set<u64>)
    requires
        keys.finite(),
        keys.len() > 0,
    ensures
        exists|k: u64|
            #![trigger keys.contains(k)]
            keys.contains(k) && forall|j: u64| #[trigger] keys.contains(j) ==> j <= k,
    decreases keys.len(),
{
    let a = keys.choose();
    assert(keys.contains(a));
    let rest = keys.remove(a);
    if rest.len() == 0 {
        assert forall|j: u64| #[trigger] keys.contains(j) implies j <= a by {
            if j != a {
                assert(rest.contains(j));
            }
        }
    } else {
        lemma_max_key(rest);
        let b = choose|k: u64|
            #![trigger rest.contains(k)]
            rest.contains(k) && forall|j: u64| #[trigger] rest.contains(j) ==> j <= k;
        let top = if a > b {
            a
        } else {
            b
        };
        assert(keys.contains(top));
        assert forall|j: u64| #[trigger] keys.contains(j) implies j <= top by {
            if j != a {
                assert(rest.contains(j));
            }
        }
    }
}

/// The indices of the complete frames in `from <= i < to`, ascending.
pub open spec fn complete_indices(
    pending: Map<u64, PendingView>,
    stream_type: u8,
    from: int,
    to: int,
) -> Seq<int>
    decreases to - from,
{
    if to <= from {
        Seq::empty()
    } else if complete_at(pending, stream_type, to - 1) {
        complete_indices(pending, stream_type, from, to - 1).push(to - 1)
    } else {
        complete_indices(pending, stream_type, from, to - 1)
    }
}

/// Delivery hands out exactly the complete frames before the point where it
/// stops, in ascending order of their index, each with its own payload,
/// timestamp, keyframe flag and timings.
pub proof fn law_delivery_in_order(
    pending: Map<u64, PendingView>,
    stream_type: u8,
    from: int,
    to: int,
    now: u64,
    recovery: Recovery,
)
    requires
        0 <= from,
    ensures
        ({
            let frames = walk(pending, stream_type, from, to, now, recovery).0;
            let order = complete_indices(pending, stream_type, from, to);
            &&& frames.len() == order.len()
            &&& forall|i: int, j: int| 0 <= i < j < order.len() ==> order[i] < order[j]
            &&& forall|i: int|
                0 <= i < order.len() ==> {
                    let frame = pending[frame_key(stream_type, #[trigger] order[i])];
                    &&& from <= order[i] < to
                    &&& complete_at(pending, stream_type, order[i])
                    &&& frames[i].data == crate::receiver::joined(frame.fragments)
                    &&& frames[i].pts == frame.pts
                    &&& frames[i].is_keyframe == frame.is_keyframe
                    &&& frames[i].stream_type == stream_type
                    &&& frames[i].capture_us == frame.capture_us
                    &&& frames[i].convert_us == frame.convert_us
                    &&& frames[i].encode_us == frame.encode_us
                    &&& frames[i].received_at == now
                }
            &&& forall|k: int|
                from <= k < to && #[trigger] complete_at(pending, stream_type, k)
                    ==> order.contains(k)
        }),
    decreases to - from,
{
    if to > from {
        law_delivery_in_order(pending, stream_type, from, to - 1, now, recovery);
        let order = complete_indices(pending, stream_type, from, to);
        let shorter = complete_indices(pending, stream_type, from, to - 1);
        assert forall|k: int|
            from <= k < to && #[trigger] complete_at(
                pending,
                stream_type,
                k,
            ) implies order.contains(k) by {
            if k < to - 1 {
                assert(shorter.contains(k));
                let i = shorter.index_of(k);
                assert(order[i] == k);
            } else {
                assert(order[order.len() - 1] == k);
            }
        }
    }
}

/// Once video continuity is broken, every frame delivered before the next
/// keyframe is tainted. A keyframe never is.
pub proof fn law_tainted_until_keyframe(
    pending: Map<u64, PendingView>,
    from: int,
    to: int,
    now: u64,
    recovery: Recovery,
    i: int,
)
    requires
        0 <= i < walk(pending, STREAM_TYPE_VIDEO, from, to, now, recovery).0.len(),
    ensures
        ({
            let frames = walk(pending, STREAM_TYPE_VIDEO, from, to, now, recovery).0;
            &&& frames[i].is_keyframe ==> !frames[i].tainted
            &&& recovery.awaiting_keyframe && (forall|j: int|
                0 <= j <= i ==> !(#[trigger] frames[j]).is_keyframe) ==> frames[i].tainted
        }),
    decreases to - from,
{
    let frames = walk(pending, STREAM_TYPE_VIDEO, from, to, now, recovery).0;
    let (shorter, before) = walk(pending, STREAM_TYPE_VIDEO, from, to - 1, now, recovery);
    if i < shorter.len() {
        law_tainted_until_keyframe(pending, from, to - 1, now, recovery, i);
        if forall|j: int| 0 <= j <= i ==> !(#[trigger] frames[j]).is_keyframe {
            assert forall|j: int| 0 <= j <= i implies !(#[trigger] shorter[j]).is_keyframe by {
                assert(frames[j] == shorter[j]);
            }
        }
    } else if forall|j: int| 0 <= j <= i ==> !(#[trigger] frames[j]).is_keyframe {
        assert forall|j: int| 0 <= j < shorter.len() implies !(#[trigger] shorter[j]).is_keyframe by {
            assert(frames[j] == shorter[j]);
        }
        lemma_awaiting_persists(pending, from, to - 1, now, recovery);
    }
}

/// Without a keyframe, broken continuity stays broken.
proof fn lemma_awaiting_persists(
    pending: Map<u64, PendingView>,
    from: int,
    to: int,
    now: u64,
    recovery: Recovery,
)
    requires
        forall|j: int|
            0 <= j < walk(pending, STREAM_TYPE_VIDEO, from, to, now, recovery).0.len()
                ==> !(#[trigger] walk(
                pending,
                STREAM_TYPE_VIDEO,
                from,
                to,
                now,
                recovery,
            ).0[j]).is_keyframe,
    ensures
        recovery.awaiting_keyframe ==> walk(
            pending,
            STREAM_TYPE_VIDEO,
            from,
            to,
            now,
            recovery,
        ).1.awaiting_keyframe,
        recovery.request_pending ==> walk(
            pending,
            STREAM_TYPE_VIDEO,
            from,
            to,
            now,
            recovery,
        ).1.request_pending,
    decreases to - from,
{
    if to > from {
        let frames = walk(pending, STREAM_TYPE_VIDEO, from, to, now, recovery).0;
        let shorter = walk(pending, STREAM_TYPE_VIDEO, from, to - 1, now, recovery).0;
        assert forall|j: int| 0 <= j < shorter.len() implies !(#[trigger] shorter[j]).is_keyframe by {
            assert(frames[j] == shorter[j]);
        }
        lemma_awaiting_persists(pending, from, to - 1, now, recovery);
        if complete_at(pending, STREAM_TYPE_VIDEO, to - 1) {
            assert(frames[frames.len() - 1].is_keyframe == pending[frame_key(
                STREAM_TYPE_VIDEO,
                to - 1,
            )].is_keyframe);
        }
    }
}

/// Delivery on another stream leaves video recovery as it was.
proof fn lemma_other_stream_keeps_recovery(
    pending: Map<u64, PendingView>,
    stream_type: u8,
    from: int,
    to: int,
    now: u64,
    recovery: Recovery,
)
    requires
        stream_type != STREAM_TYPE_VIDEO,
    ensures
        walk(pending, stream_type, from, to, now, recovery).1 == recovery,
    decreases to - from,
{
    if to > from {
        lemma_other_stream_keeps_recovery(pending, stream_type, from, to - 1, now, recovery);
    }
}

/// Requests keep their distance: one goes out only when the rate limit has
/// passed since the last, and then counts as the last.
pub proof fn law_requests_rate_limited(
    m: AssemblerModel,
    header: DatagramHeader,
    payload: Seq<u8>,
    now: u64,
)
    ensures
        ({
            let (after, frames, need) = m.after_datagram(header, payload, now);
            &&& need ==> limiter_open(m.last_idr_request, now)
            &&& need ==> after.last_idr_request == Some(now)
            &&& !need ==> after.last_idr_request == m.last_idr_request
        }),
{
}

/// Two requests are never closer than the rate limit.
pub proof fn law_no_request_inside_window(
    m: AssemblerModel,
    header: DatagramHeader,
    payload: Seq<u8>,
    last: u64,
    now: u64,
)
    requires
        m.last_idr_request == Some(last),
        last <= now < last + IDR_RATE_LIMIT_MS * 1_000_000,
    ensures
        !m.after_datagram(header, payload, now).2,
{
}

/// A datagram of another stream never asks for a keyframe by itself: with
/// no video disruption and no overflow outstanding it changes neither.
pub proof fn law_audio_never_requests(
    m: AssemblerModel,
    header: DatagramHeader,
    payload: Seq<u8>,
    now: u64,
)
    requires
        m.wf(),
        header.stream_type != STREAM_TYPE_VIDEO,
        !m.awaiting_keyframe,
        !m.request_pending,
        !m.overflowing(),
    ensures
        ({
            let (after, frames, need) = m.after_datagram(header, payload, now);
            &&& !need
            &&& !after.awaiting_keyframe
            &&& !after.request_pending
            &&& !after.overflowing()
        }),
{
    if !malformed(header) && header.frame_index >= m.cursor(header) {
        let next = m.cursor(header);
        let filled = AssemblerModel {
            pending: m.stored(header, payload),
            next_frame: m.next_frame.insert(header.stream_type, next),
            ..m
        };
        let to = stop_index(filled.pending, header.stream_type, next as int);
        let recovery = Recovery {
            awaiting_keyframe: m.awaiting_keyframe,
            request_pending: m.request_pending,
        };
        lemma_other_stream_keeps_recovery(
            filled.pending,
            header.stream_type,
            next as int,
            to,
            now,
            recovery,
        );
        let after = filled.delivered(header.stream_type, next, now).0;
        lemma_frame_key(header.stream_type, header.frame_index as int);
        assert(video_keys(after.pending) =~= video_keys(m.pending));
    }
}

/// A deferred request is not lost: while no keyframe is delivered, a request
/// that is owed is either issued or still owed.
pub proof fn law_deferred_request_kept(
    m: AssemblerModel,
    header: DatagramHeader,
    payload: Seq<u8>,
    now: u64,
)
    requires
        m.request_pending,
        forall|i: int|
            0 <= i < m.after_datagram(header, payload, now).1.len() ==> !(
            #[trigger] m.after_datagram(header, payload, now).1[i]).is_keyframe,
    ensures
        m.after_datagram(header, payload, now).2 || m.after_datagram(
            header,
            payload,
            now,
        ).0.request_pending,
{
    if !malformed(header) && header.frame_index >= m.cursor(header) {
        let next = m.cursor(header);
        let pending = m.stored(header, payload);
        let to = stop_index(pending, header.stream_type, next as int);
        let recovery = Recovery {
            awaiting_keyframe: m.awaiting_keyframe,
            request_pending: m.request_pending,
        };
        if header.stream_type == STREAM_TYPE_VIDEO {
            let out = m.after_datagram(header, payload, now).1;
            let frames = walk(pending, STREAM_TYPE_VIDEO, next as int, to, now, recovery).0;
            assert(out == frames);
            assert forall|j: int| 0 <= j < frames.len() implies !(#[trigger] frames[j]).is_keyframe by {
                assert(!out[j].is_keyframe);
            }
            lemma_awaiting_persists(pending, next as int, to, now, recovery);
        } else {
            lemma_other_stream_keeps_recovery(
                pending,
                header.stream_type,
                next as int,
                to,
                now,
                recovery,
            );
        }
    }
}

/// An owed request goes out with the first datagram for a frame at or past
/// the cursor once the rate limit allows it, unless that datagram delivers
/// a keyframe.
pub proof fn law_owed_request_issued(
    m: AssemblerModel,
    header: DatagramHeader,
    payload: Seq<u8>,
    now: u64,
)
    requires
        m.request_pending,
        !malformed(header),
        header.frame_index >= m.cursor(header),
        limiter_open(m.last_idr_request, now),
        forall|i: int|
            0 <= i < m.after_datagram(header, payload, now).1.len() ==> !(
            #[trigger] m.after_datagram(header, payload, now).1[i]).is_keyframe,
    ensures
        m.after_datagram(header, payload, now).2,
{
    let next = m.cursor(header);
    let pending = m.stored(header, payload);
    let to = stop_index(pending, header.stream_type, next as int);
    let recovery = Recovery {
        awaiting_keyframe: m.awaiting_keyframe,
        request_pending: m.request_pending,
    };
    if header.stream_type == STREAM_TYPE_VIDEO {
        let out = m.after_datagram(header, payload, now).1;
        let frames = walk(pending, STREAM_TYPE_VIDEO, next as int, to, now, recovery).0;
        assert(out == frames);
        assert forall|j: int| 0 <= j < frames.len() implies !(#[trigger] frames[j]).is_keyframe by {
            assert(!out[j].is_keyframe);
        }
        lemma_awaiting_persists(pending, next as int, to, now, recovery);
    } else {
        lemma_other_stream_keeps_recovery(
            pending,
            header.stream_type,
            next as int,
            to,
            now,
            recovery,
        );
    }
}

/// A granted request on overflow empties the video buffer: buffered frames
/// are dropped only together with a request for their replacement.
pub proof fn law_overflow_wipe_only_with_request(
    m: AssemblerModel,
    header: DatagramHeader,
    payload: Seq<u8>,
    now: u64,
)
    requires
        m.wf(),
    ensures
        ({
            let (after, frames, need) = m.after_datagram(header, payload, now);
            &&& !(need && after.overflowing())
            &&& header.stream_type != STREAM_TYPE_VIDEO && !need ==> video_keys(after.pending)
                == video_keys(m.pending)
        }),
{
    lemma_frame_key(header.stream_type, header.frame_index as int);
    let (after, frames, need) = m.after_datagram(header, payload, now);
    if !malformed(header) && header.frame_index >= m.cursor(header) {
        let next = m.cursor(header);
        let filled = AssemblerModel {
            pending: m.stored(header, payload),
            next_frame: m.next_frame.insert(header.stream_type, next),
            ..m
        };
        let delivered = filled.delivered(header.stream_type, next, now).0;
        let wiped = delivered.pending.remove_keys(video_keys(delivered.pending));
        assert(video_keys(wiped) =~= Set::empty());
        if header.stream_type != STREAM_TYPE_VIDEO && !need {
            assert(video_keys(after.pending) =~= video_keys(m.pending));
        }
    }
}

/// Streams do not disturb each other's order: a datagram moves the cursor
/// of its own stream only, but for the video cursor when video is wiped.
pub proof fn law_streams_independent(
    m: AssemblerModel,
    header: DatagramHeader,
    payload: Seq<u8>,
    now: u64,
    other: u8,
)
    requires
        other != header.stream_type,
        other != STREAM_TYPE_VIDEO,
    ensures
        ({
            let after = m.after_datagram(header, payload, now).0;
            &&& after.next_frame.contains_key(other) == m.next_frame.contains_key(other)
            &&& m.next_frame.contains_key(other) ==> after.next_frame[other]
                == m.next_frame[other]
            &&& forall|k: u64|
                key_stream(k) == other ==> (#[trigger] after.pending.contains_key(k)
                    <==> m.pending.contains_key(k)) && (m.pending.contains_key(k)
                    ==> after.pending[k] == m.pending[k])
        }),
{
    lemma_frame_key(header.stream_type, header.frame_index as int);
}

} // verus!
