//! What holds of loss and recovery: no loss goes unnoticed, what is delivered
//! behind it is marked until a keyframe, and the keyframe is asked for.
use crate::receiver::{
    complete_at, frame_key, key_index, lemma_frame_key, video_keys, walk, AssemblerModel,
    PendingView, Recovery,
};
use crate::receiver_laws::{
    complete_indices, law_delivery_in_order, lemma_newest_exists, lemma_stop_exists,
};
use crate::stream_laws::{
    accepts, after_call, below_last, delivery_end, frames_of, indices_below_last, lemma_ordered,
    lemma_step, numbered, state_after, Call,
};
use crate::transport::{DatagramHeader, FrameView, STREAM_TYPE_VIDEO};
use vstd::prelude::*;

verus! {

/// None of the frames from index `k` on is a keyframe, where `order` gives
/// their indices.
pub open spec fn no_keyframe_past(frames: Seq<FrameView>, order: Seq<int>, k: int) -> bool {
    forall|i: int|
        0 <= i < frames.len() && i < order.len() && order[i] > k ==> !(
        #[trigger] frames[i]).is_keyframe
}

/// Delivery past a frame that is not delivered, however much of it arrived.
proof fn lemma_walk_past_lost(
    pending: Map<u64, PendingView>,
    from: int,
    to: int,
    now: u64,
    recovery: Recovery,
    k: int,
)
    requires
        0 <= from <= k < to,
        !complete_at(pending, STREAM_TYPE_VIDEO, k),
    ensures
        ({
            let (frames, after) = walk(pending, STREAM_TYPE_VIDEO, from, to, now, recovery);
            let order = complete_indices(pending, STREAM_TYPE_VIDEO, from, to);
            &&& frames.len() == order.len()
            &&& forall|i: int|
                0 <= i < frames.len() && order[i] > k && no_keyframe_past(
                    frames.take(i + 1),
                    order,
                    k,
                ) ==> (#[trigger] frames[i]).tainted
            &&& no_keyframe_past(frames, order, k) ==> after.awaiting_keyframe
                && after.request_pending
        }),
    decreases to - from,
{
    let (frames, after) = walk(pending, STREAM_TYPE_VIDEO, from, to, now, recovery);
    let order = complete_indices(pending, STREAM_TYPE_VIDEO, from, to);
    let (shorter, before) = walk(pending, STREAM_TYPE_VIDEO, from, to - 1, now, recovery);
    let places = complete_indices(pending, STREAM_TYPE_VIDEO, from, to - 1);
    law_delivery_in_order(pending, STREAM_TYPE_VIDEO, from, to, now, recovery);
    law_delivery_in_order(pending, STREAM_TYPE_VIDEO, from, to - 1, now, recovery);
    if k < to - 1 {
        lemma_walk_past_lost(pending, from, to - 1, now, recovery, k);
        if no_keyframe_past(frames, order, k) {
            assert(no_keyframe_past(shorter, places, k)) by {
                assert forall|i: int|
                    0 <= i < shorter.len() && i < places.len() && places[i] > k implies !(
                #[trigger] shorter[i]).is_keyframe by {
                    assert(frames[i] == shorter[i] && order[i] == places[i]);
                }
            }
            if complete_at(pending, STREAM_TYPE_VIDEO, to - 1) {
                let last = frames.len() - 1;
                assert(order[last] == to - 1);
                assert(!frames[last].is_keyframe);
            }
        }
        assert forall|i: int|
            0 <= i < frames.len() && order[i] > k && no_keyframe_past(
                frames.take(i + 1),
                order,
                k,
            ) implies (#[trigger] frames[i]).tainted by {
            let head = frames.take(i + 1);
            assert(head[i] == frames[i]);
            assert(!head[i].is_keyframe);
            if i < shorter.len() {
                assert(frames[i] == shorter[i]);
                assert(shorter.take(i + 1) =~= head);
                assert(no_keyframe_past(shorter.take(i + 1), places, k)) by {
                    assert forall|j: int|
                        0 <= j < shorter.take(i + 1).len() && j < places.len() && places[j]
                            > k implies !(#[trigger] shorter.take(i + 1)[j]).is_keyframe by {
                        assert(head[j] == shorter[j] && order[j] == places[j]);
                        assert(!head[j].is_keyframe);
                    }
                }
            } else {
                assert(no_keyframe_past(shorter, places, k)) by {
                    assert forall|j: int|
                        0 <= j < shorter.len() && j < places.len() && places[j] > k implies !(
                    #[trigger] shorter[j]).is_keyframe by {
                        assert(head[j] == shorter[j] && order[j] == places[j]);
                        assert(!head[j].is_keyframe);
                    }
                }
            }
        }
    }
}

/// A frame that delivery moves past without delivering it breaks continuity,
/// however many of its fragments had arrived: every frame delivered behind it
/// before the next keyframe is tainted, and unless a keyframe is delivered
/// behind it, recovery is pending and its request is issued or owed.
pub proof fn law_lost_frame_breaks_continuity(
    m: AssemblerModel,
    header: DatagramHeader,
    payload: Seq<u8>,
    now: u64,
    k: int,
)
    requires
        accepts(m, header),
        header.stream_type == STREAM_TYPE_VIDEO,
        m.cursor(header) <= k < delivery_end(m, header, payload),
        !complete_at(m.stored(header, payload), STREAM_TYPE_VIDEO, k),
    ensures
        ({
            let (after, frames, asked) = m.after_datagram(header, payload, now);
            let order = complete_indices(
                m.stored(header, payload),
                STREAM_TYPE_VIDEO,
                m.cursor(header) as int,
                delivery_end(m, header, payload),
            );
            &&& frames.len() == order.len()
            &&& forall|i: int|
                0 <= i < frames.len() && order[i] > k && no_keyframe_past(
                    frames.take(i + 1),
                    order,
                    k,
                ) ==> (#[trigger] frames[i]).tainted
            &&& no_keyframe_past(frames, order, k) ==> after.awaiting_keyframe && (asked
                || after.request_pending)
        }),
{
    lemma_walk_past_lost(
        m.stored(header, payload),
        m.cursor(header) as int,
        delivery_end(m, header, payload),
        now,
        Recovery {
            awaiting_keyframe: m.awaiting_keyframe,
            request_pending: m.request_pending,
        },
        k,
    );
}

/// The last video frame of some.
pub open spec fn last_video(frames: Seq<FrameView>) -> Option<FrameView>
    decreases frames.len(),
{
    if frames.len() == 0 {
        None
    } else if frames.last().stream_type == STREAM_TYPE_VIDEO {
        Some(frames.last())
    } else {
        last_video(frames.drop_last())
    }
}

/// A video frame can be decoded behind another: it is a keyframe, or the
/// other is its direct predecessor and was clean itself.
pub open spec fn decodes_behind(frame: FrameView, previous: FrameView) -> bool {
    frame.is_keyframe || (!previous.tainted && frame.pts == previous.pts + 1)
}

/// Every clean video frame can be decoded behind the video frame before it.
spec fn clean_runs(frames: Seq<FrameView>) -> bool
    decreases frames.len(),
{
    frames.len() > 0 ==> {
        let frame = frames.last();
        &&& clean_runs(frames.drop_last())
        &&& frame.stream_type == STREAM_TYPE_VIDEO && !frame.tainted ==> (last_video(
            frames.drop_last(),
        ) matches Some(previous) ==> decodes_behind(frame, previous))
    }
}

/// Where delivery stands behind some frames: past the last video frame, and
/// directly behind it, that one being clean, unless recovery is pending.
spec fn stands(frames: Seq<FrameView>, awaiting: bool, at: int) -> bool {
    last_video(frames) matches Some(previous) ==> {
        &&& previous.pts < at
        &&& !awaiting ==> !previous.tainted && at == previous.pts + 1
    }
}

proof fn lemma_last_video_push(frames: Seq<FrameView>, frame: FrameView)
    ensures
        last_video(frames.push(frame)) == (if frame.stream_type == STREAM_TYPE_VIDEO {
            Some(frame)
        } else {
            last_video(frames)
        }),
        clean_runs(frames.push(frame)) == (clean_runs(frames) && (frame.stream_type
            == STREAM_TYPE_VIDEO && !frame.tainted ==> (last_video(frames) matches Some(previous)
            ==> decodes_behind(frame, previous)))),
{
    assert(frames.push(frame).drop_last() =~= frames);
}

/// Delivery of video keeps the runs clean.
proof fn lemma_walk_clean(
    earlier: Seq<FrameView>,
    pending: Map<u64, PendingView>,
    from: int,
    to: int,
    now: u64,
    recovery: Recovery,
)
    requires
        0 <= from <= to,
        clean_runs(earlier),
        stands(earlier, recovery.awaiting_keyframe, from),
        forall|k: u64| #[trigger] pending.contains_key(k) ==> pending[k].pts == key_index(k),
    ensures
        ({
            let (frames, after) = walk(pending, STREAM_TYPE_VIDEO, from, to, now, recovery);
            &&& clean_runs(earlier + frames)
            &&& stands(earlier + frames, after.awaiting_keyframe, to)
        }),
    decreases to - from,
{
    let (frames, after) = walk(pending, STREAM_TYPE_VIDEO, from, to, now, recovery);
    if to > from {
        lemma_walk_clean(earlier, pending, from, to - 1, now, recovery);
        let (shorter, before) = walk(pending, STREAM_TYPE_VIDEO, from, to - 1, now, recovery);
        if complete_at(pending, STREAM_TYPE_VIDEO, to - 1) {
            lemma_frame_key(STREAM_TYPE_VIDEO, to - 1);
            assert(pending.contains_key(frame_key(STREAM_TYPE_VIDEO, to - 1)));
            assert(earlier + frames =~= (earlier + shorter).push(frames.last()));
            lemma_last_video_push(earlier + shorter, frames.last());
        }
    } else {
        assert(earlier + frames =~= earlier);
    }
}

/// Delivery of another stream changes nothing for video.
proof fn lemma_walk_other(
    earlier: Seq<FrameView>,
    pending: Map<u64, PendingView>,
    stream_type: u8,
    from: int,
    to: int,
    now: u64,
    recovery: Recovery,
)
    requires
        stream_type != STREAM_TYPE_VIDEO,
        clean_runs(earlier),
    ensures
        ({
            let (frames, after) = walk(pending, stream_type, from, to, now, recovery);
            &&& clean_runs(earlier + frames)
            &&& last_video(earlier + frames) == last_video(earlier)
            &&& after == recovery
        }),
    decreases to - from,
{
    let (frames, after) = walk(pending, stream_type, from, to, now, recovery);
    if to > from {
        lemma_walk_other(earlier, pending, stream_type, from, to - 1, now, recovery);
        let (shorter, before) = walk(pending, stream_type, from, to - 1, now, recovery);
        if complete_at(pending, stream_type, to - 1) {
            assert(earlier + frames =~= (earlier + shorter).push(frames.last()));
            lemma_last_video_push(earlier + shorter, frames.last());
        }
    } else {
        assert(earlier + frames =~= earlier);
    }
}

/// The state after some calls goes with the frames that came out.
spec fn continuous(ds: Seq<Call>) -> bool {
    let m = state_after(ds);
    let frames = frames_of(ds);
    &&& clean_runs(frames)
    &&& last_video(frames) is Some ==> m.next_frame.contains_key(STREAM_TYPE_VIDEO) && stands(
        frames,
        m.awaiting_keyframe,
        m.next_frame[STREAM_TYPE_VIDEO] as int,
    )
}

proof fn lemma_continuous(ds: Seq<Call>)
    requires
        indices_below_last(ds),
        numbered(ds),
    ensures
        continuous(ds),
    decreases ds.len(),
{
    if ds.len() > 0 {
        let front = ds.drop_last();
        assert forall|k: int| 0 <= k < front.len() implies (#[trigger] front[k]) == ds[k] by {}
        lemma_continuous(front);
        lemma_ordered(front);
        let m = state_after(front);
        let earlier = frames_of(front);
        let (after, more) = after_call(m, ds.last());
        let frames = frames_of(ds);
        let header = ds.last()->header;
        let payload = ds.last()->payload;
        let now = ds.last()->now;
        assert(ds[ds.len() - 1] == ds.last());
        assert(frames == earlier + more);
        if ds.last() is Datagram {
            lemma_step(m, header, payload, now);
        }
        if ds.last() is Datagram && accepts(m, header) {
            let stored = m.stored(header, payload);
            let from = m.cursor(header) as int;
            let to = delivery_end(m, header, payload);
            let recovery = Recovery {
                awaiting_keyframe: m.awaiting_keyframe,
                request_pending: m.request_pending,
            };
            let key = frame_key(header.stream_type, header.frame_index as int);
            lemma_frame_key(header.stream_type, header.frame_index as int);
            lemma_stop_exists(stored, header.stream_type, from);
            assert forall|k: u64| #[trigger] stored.contains_key(k) implies stored[k].pts
                == key_index(k) by {
                if k != key {
                    assert(m.pending.contains_key(k));
                }
            }
            if header.stream_type == STREAM_TYPE_VIDEO {
                lemma_walk_clean(earlier, stored, from, to, now, recovery);
                lemma_cursor_at_end(m, header, payload, now);
            } else {
                lemma_walk_other(earlier, stored, header.stream_type, from, to, now, recovery);
                lemma_cursor_at_end(m, header, payload, now);
            }
        } else {
            assert(frames =~= earlier);
        }
    }
}

/// After a datagram the video cursor lies where delivery stopped, or further
/// if recovery is pending; recovery ends only with a delivered keyframe.
proof fn lemma_cursor_at_end(m: AssemblerModel, header: DatagramHeader, payload: Seq<u8>, now: u64)
    requires
        ordered_state(m),
        header.frame_index < u32::MAX,
        accepts(m, header),
    ensures
        ({
            let after = m.after_datagram(header, payload, now).0;
            let to = delivery_end(m, header, payload);
            let stays = walk(
                m.stored(header, payload),
                header.stream_type,
                m.cursor(header) as int,
                to,
                now,
                Recovery {
                    awaiting_keyframe: m.awaiting_keyframe,
                    request_pending: m.request_pending,
                },
            ).1.awaiting_keyframe;
            &&& stays ==> after.awaiting_keyframe
            &&& header.stream_type == STREAM_TYPE_VIDEO ==> {
                &&& after.next_frame.contains_key(STREAM_TYPE_VIDEO)
                &&& to <= after.next_frame[STREAM_TYPE_VIDEO]
                &&& after.awaiting_keyframe || after.next_frame[STREAM_TYPE_VIDEO] == to
            }
            &&& header.stream_type != STREAM_TYPE_VIDEO && m.next_frame.contains_key(
                STREAM_TYPE_VIDEO,
            ) ==> {
                &&& after.next_frame.contains_key(STREAM_TYPE_VIDEO)
                &&& m.next_frame[STREAM_TYPE_VIDEO] <= after.next_frame[STREAM_TYPE_VIDEO]
                &&& after.awaiting_keyframe || after.next_frame[STREAM_TYPE_VIDEO]
                    == m.next_frame[STREAM_TYPE_VIDEO]
            }
        }),
{
    lemma_step(m, header, payload, now);
    let stored = m.stored(header, payload);
    let from = m.cursor(header) as int;
    lemma_stop_exists(stored, header.stream_type, from);
    let to = delivery_end(m, header, payload);
    assert(0 <= to <= u32::MAX);
    assert(to % (crate::receiver::INDEX_END as int) == to);
}

/// What [`lemma_step`] asks of a state.
spec fn ordered_state(m: AssemblerModel) -> bool {
    m.wf() && crate::stream_laws::below_last(m.pending)
}

proof fn lemma_clean_at(frames: Seq<FrameView>, i: int, j: int)
    requires
        clean_runs(frames),
        0 <= i < j < frames.len(),
        frames[i].stream_type == STREAM_TYPE_VIDEO,
        frames[j].stream_type == STREAM_TYPE_VIDEO,
        forall|k: int| i < k < j ==> (#[trigger] frames[k]).stream_type != STREAM_TYPE_VIDEO,
    ensures
        frames[j].tainted || decodes_behind(frames[j], frames[i]),
    decreases frames.len(),
{
    let front = frames.drop_last();
    if j < frames.len() - 1 {
        lemma_clean_at(front, i, j);
    } else {
        lemma_last_at(front, i);
    }
}

proof fn lemma_last_at(frames: Seq<FrameView>, i: int)
    requires
        0 <= i < frames.len(),
        frames[i].stream_type == STREAM_TYPE_VIDEO,
        forall|k: int|
            i < k < frames.len() ==> (#[trigger] frames[k]).stream_type != STREAM_TYPE_VIDEO,
    ensures
        last_video(frames) == Some(frames[i]),
    decreases frames.len(),
{
    if i < frames.len() - 1 {
        assert(frames.last() == frames[frames.len() - 1]);
        lemma_last_at(frames.drop_last(), i);
    }
}

/// Over a whole session, whatever is lost, disrupted and requested: a video
/// frame that is not marked tainted is a keyframe, or the direct successor of
/// the video frame delivered before it, which was not tainted either. So the
/// decoder is only given unbroken runs.
pub proof fn law_decoder_gets_unbroken_runs(ds: Seq<Call>, i: int, j: int)
    requires
        indices_below_last(ds),
        numbered(ds),
        0 <= i < j < frames_of(ds).len(),
        frames_of(ds)[i].stream_type == STREAM_TYPE_VIDEO,
        frames_of(ds)[j].stream_type == STREAM_TYPE_VIDEO,
        forall|k: int|
            i < k < j ==> (#[trigger] frames_of(ds)[k]).stream_type != STREAM_TYPE_VIDEO,
        !frames_of(ds)[j].tainted,
    ensures
        frames_of(ds)[j].is_keyframe || (!frames_of(ds)[i].tainted && frames_of(ds)[j].pts
            == frames_of(ds)[i].pts + 1),
{
    lemma_continuous(ds);
    lemma_clean_at(frames_of(ds), i, j);
}

/// Over a whole session: while no recovery is pending, nothing is missing. The
/// video frame that was delivered last is clean, and the one expected next is
/// its direct successor; so whatever delivery moves past otherwise, recovery is
/// pending behind it.
pub proof fn law_nothing_missing_unless_recovering(ds: Seq<Call>, i: int)
    requires
        indices_below_last(ds),
        numbered(ds),
        0 <= i < frames_of(ds).len(),
        frames_of(ds)[i].stream_type == STREAM_TYPE_VIDEO,
        forall|k: int|
            i < k < frames_of(ds).len() ==> (#[trigger] frames_of(ds)[k]).stream_type
                != STREAM_TYPE_VIDEO,
        !state_after(ds).awaiting_keyframe,
    ensures
        !frames_of(ds)[i].tainted,
        state_after(ds).next_frame.contains_key(STREAM_TYPE_VIDEO),
        state_after(ds).next_frame[STREAM_TYPE_VIDEO] == frames_of(ds)[i].pts + 1,
{
    lemma_continuous(ds);
    lemma_last_at(frames_of(ds), i);
}

/// Over a whole session: while recovery is pending, a keyframe has been asked
/// for or is still to be asked for.
pub proof fn law_recovering_has_asked(ds: Seq<Call>)
    ensures
        state_after(ds).awaiting_keyframe ==> state_after(ds).request_pending || state_after(
            ds,
        ).last_idr_request is Some,
    decreases ds.len(),
{
    if ds.len() > 0 {
        law_recovering_has_asked(ds.drop_last());
        let m = state_after(ds.drop_last());
        if ds.last() is Datagram && accepts(m, ds.last()->header) {
            let header = ds.last()->header;
            let stored = m.stored(header, ds.last()->payload);
            let from = m.cursor(header) as int;
            lemma_walk_asks(
                stored,
                header.stream_type,
                from,
                delivery_end(m, header, ds.last()->payload),
                ds.last()->now,
                Recovery {
                    awaiting_keyframe: m.awaiting_keyframe,
                    request_pending: m.request_pending,
                },
                m.last_idr_request is Some,
            );
        }
    }
}

proof fn lemma_walk_asks(
    pending: Map<u64, PendingView>,
    stream_type: u8,
    from: int,
    to: int,
    now: u64,
    recovery: Recovery,
    asked: bool,
)
    requires
        recovery.awaiting_keyframe ==> recovery.request_pending || asked,
    ensures
        ({
            let after = walk(pending, stream_type, from, to, now, recovery).1;
            after.awaiting_keyframe ==> after.request_pending || asked
        }),
    decreases to - from,
{
    if to > from {
        lemma_walk_asks(pending, stream_type, from, to - 1, now, recovery, asked);
    }
}

/// Without loss there is no alarm: a datagram behind which nothing is missing
/// and nothing is pending too many taints no frame and asks for nothing.
pub proof fn law_no_loss_no_request(
    m: AssemblerModel,
    header: DatagramHeader,
    payload: Seq<u8>,
    now: u64,
)
    requires
        accepts(m, header),
        !m.awaiting_keyframe,
        !m.request_pending,
        forall|k: int|
            m.cursor(header) <= k < delivery_end(m, header, payload) ==> #[trigger] complete_at(
                m.stored(header, payload),
                header.stream_type,
                k,
            ),
        crate::receiver::video_keys(m.stored(header, payload)).len() <= m.max_pending,
        m.stored(header, payload).dom().finite(),
    ensures
        ({
            let (after, frames, asked) = m.after_datagram(header, payload, now);
            &&& !asked
            &&& !after.awaiting_keyframe
            &&& !after.request_pending
            &&& forall|i: int| 0 <= i < frames.len() ==> !(#[trigger] frames[i]).tainted
        }),
{
    let stored = m.stored(header, payload);
    let from = m.cursor(header) as int;
    let to = delivery_end(m, header, payload);
    let recovery = Recovery { awaiting_keyframe: false, request_pending: false };
    lemma_walk_whole(stored, header.stream_type, from, to, now, recovery);
    let gone = Set::new(
        |k: u64|
            crate::receiver::key_stream(k) == header.stream_type && from <= key_index(k) < to,
    );
    let kept = stored.remove_keys(gone);
    assert(crate::receiver::video_keys(kept).subset_of(crate::receiver::video_keys(stored)));
    assert(crate::receiver::video_keys(stored).finite());
    vstd::set_lib::lemma_len_subset(
        crate::receiver::video_keys(kept),
        crate::receiver::video_keys(stored),
    );
}

proof fn lemma_walk_whole(
    pending: Map<u64, PendingView>,
    stream_type: u8,
    from: int,
    to: int,
    now: u64,
    recovery: Recovery,
)
    requires
        !recovery.awaiting_keyframe,
        !recovery.request_pending,
        forall|k: int| from <= k < to ==> #[trigger] complete_at(pending, stream_type, k),
    ensures
        ({
            let (frames, after) = walk(pending, stream_type, from, to, now, recovery);
            &&& !after.awaiting_keyframe
            &&& !after.request_pending
            &&& forall|i: int| 0 <= i < frames.len() ==> !(#[trigger] frames[i]).tainted
        }),
    decreases to - from,
{
    if to > from {
        lemma_walk_whole(pending, stream_type, from, to - 1, now, recovery);
        assert(complete_at(pending, stream_type, to - 1));
    }
}

/// One of some frames is a keyframe.
pub open spec fn has_keyframe(frames: Seq<FrameView>) -> bool {
    exists|i: int| 0 <= i < frames.len() && (#[trigger] frames[i]).is_keyframe
}

/// Recovery goes on until a keyframe is delivered: while none is, a state that
/// awaits one goes on awaiting it, whatever arrives.
pub proof fn law_recovery_needs_keyframe(
    m: AssemblerModel,
    header: DatagramHeader,
    payload: Seq<u8>,
    now: u64,
)
    requires
        m.awaiting_keyframe,
        !m.after_datagram(header, payload, now).0.awaiting_keyframe,
    ensures
        header.stream_type == STREAM_TYPE_VIDEO,
        has_keyframe(m.after_datagram(header, payload, now).1),
{
    let recovery = Recovery {
        awaiting_keyframe: m.awaiting_keyframe,
        request_pending: m.request_pending,
    };
    lemma_walk_awaits(
        m.stored(header, payload),
        header.stream_type,
        m.cursor(header) as int,
        delivery_end(m, header, payload),
        now,
        recovery,
    );
}

proof fn lemma_walk_awaits(
    pending: Map<u64, PendingView>,
    stream_type: u8,
    from: int,
    to: int,
    now: u64,
    recovery: Recovery,
)
    requires
        recovery.awaiting_keyframe,
    ensures
        ({
            let (frames, after) = walk(pending, stream_type, from, to, now, recovery);
            after.awaiting_keyframe || (stream_type == STREAM_TYPE_VIDEO && has_keyframe(frames))
        }),
    decreases to - from,
{
    if to > from {
        lemma_walk_awaits(pending, stream_type, from, to - 1, now, recovery);
        let (frames, after) = walk(pending, stream_type, from, to, now, recovery);
        let (shorter, before) = walk(pending, stream_type, from, to - 1, now, recovery);
        if !after.awaiting_keyframe {
            if before.awaiting_keyframe {
                assert(frames[frames.len() - 1].is_keyframe);
            } else {
                let i = choose|i: int|
                    0 <= i < shorter.len() && (#[trigger] shorter[i]).is_keyframe;
                assert(frames[i] == shorter[i]);
            }
        }
    }
}

/// An unanswered request is issued again after half a second, and a fresh one
/// after a tenth: any accepted datagram then asks, if recovery is still
/// pending behind it.
pub proof fn law_request_is_repeated(
    m: AssemblerModel,
    header: DatagramHeader,
    payload: Seq<u8>,
    last: u64,
    now: u64,
)
    requires
        accepts(m, header),
        m.last_idr_request == Some(last),
        m.after_datagram(header, payload, now).0.awaiting_keyframe,
    ensures
        last + 500_000_000 <= now ==> m.after_datagram(header, payload, now).2,
        m.request_pending && last + 100_000_000 <= now && !has_keyframe(
            m.after_datagram(header, payload, now).1,
        ) ==> m.after_datagram(header, payload, now).2,
        last <= now < last + 100_000_000 ==> !m.after_datagram(header, payload, now).2,
{
    let recovery = Recovery {
        awaiting_keyframe: m.awaiting_keyframe,
        request_pending: m.request_pending,
    };
    lemma_walk_owes(
        m.stored(header, payload),
        header.stream_type,
        m.cursor(header) as int,
        delivery_end(m, header, payload),
        now,
        recovery,
    );
}

proof fn lemma_walk_owes(
    pending: Map<u64, PendingView>,
    stream_type: u8,
    from: int,
    to: int,
    now: u64,
    recovery: Recovery,
)
    ensures
        ({
            let (frames, after) = walk(pending, stream_type, from, to, now, recovery);
            recovery.request_pending ==> after.request_pending || has_keyframe(frames)
        }),
    decreases to - from,
{
    if to > from {
        lemma_walk_owes(pending, stream_type, from, to - 1, now, recovery);
        let (frames, after) = walk(pending, stream_type, from, to, now, recovery);
        let (shorter, before) = walk(pending, stream_type, from, to - 1, now, recovery);
        if recovery.request_pending && !after.request_pending {
            if before.request_pending {
                assert(frames[frames.len() - 1].is_keyframe);
            } else {
                let i = choose|i: int|
                    0 <= i < shorter.len() && (#[trigger] shorter[i]).is_keyframe;
                assert(frames[i] == shorter[i]);
            }
        }
    }
}

/// Too many frames are more than eight, and only those of video count.
pub proof fn law_overflow_counts_video(m: AssemblerModel, k: u64)
    ensures
        AssemblerModel::initial().max_pending == 8,
        video_keys(m.pending).contains(k) <==> m.pending.contains_key(k) && k < 0x1_0000_0000,
        m.overflowing() <==> video_keys(m.pending).len() > m.max_pending,
{
}

/// An overflow breaks continuity: while too many video frames stay pending
/// behind a datagram, recovery is pending and a request is owed, which nothing
/// but the rate limit holds back.
pub proof fn law_overflow_breaks_continuity(
    m: AssemblerModel,
    header: DatagramHeader,
    payload: Seq<u8>,
    now: u64,
)
    requires
        accepts(m, header),
        m.after_datagram(header, payload, now).0.overflowing(),
    ensures
        m.after_datagram(header, payload, now).0.awaiting_keyframe,
        m.after_datagram(header, payload, now).0.request_pending,
        !m.after_datagram(header, payload, now).2,
        m.last_idr_request is Some,
        now < m.last_idr_request->0 + 100_000_000,
{
    let next = m.cursor(header);
    let filled = AssemblerModel {
        pending: m.stored(header, payload),
        next_frame: m.next_frame.insert(header.stream_type, next),
        ..m
    };
    let settled = filled.delivered(header.stream_type, next, now).0.disrupted();
    let left = settled.requested(now).wiped().pending;
    assert(video_keys(left) =~= Set::<u64>::empty());
    assert(video_keys(left).len() == 0);
}

/// Giving the pending video frames up gives up all of them and nothing else,
/// and delivery goes on behind the newest of them.
pub proof fn law_wipe_gives_up_video(m: AssemblerModel, k: u64)
    requires
        m.wf(),
        below_last(m.pending),
        video_keys(m.pending).len() > 0,
    ensures
        m.wiped().pending.contains_key(k) <==> m.pending.contains_key(k) && k >= 0x1_0000_0000,
        m.wiped().pending.contains_key(k) ==> m.wiped().pending[k] == m.pending[k],
        m.pending.contains_key(k) && k < 0x1_0000_0000 ==> k < m.wiped().next_frame[
            STREAM_TYPE_VIDEO],
        m.wiped().awaiting_keyframe == m.awaiting_keyframe,
{
    lemma_newest_exists(m.pending);
    let newest = choose|i: int| crate::receiver::is_newest_video(m.pending, i);
    lemma_frame_key(STREAM_TYPE_VIDEO, newest);
    assert(m.pending.contains_key(frame_key(STREAM_TYPE_VIDEO, newest)));
    assert(newest < u32::MAX);
    if m.pending.contains_key(k) && k < 0x1_0000_0000 {
        assert(video_keys(m.pending).contains(k));
    }
}

/// A keyframe that is asked for is on its way or owed: whoever asks, recovery
/// is pending from then on, and a request that the rate limit holds back is
/// remembered.
pub proof fn law_asked_keyframe_is_owed(m: AssemblerModel, at: u64)
    ensures
        ({
            let asked = after_call(m, Call::Request { at }).0;
            let noted = after_call(m, Call::Disruption).0;
            &&& asked.awaiting_keyframe && noted.awaiting_keyframe && noted.request_pending
            &&& asked.request_pending || asked.last_idr_request == Some(at)
            &&& m.last_idr_request is None ==> asked.last_idr_request == Some(at)
                && !asked.request_pending
            &&& m.last_idr_request matches Some(t) ==> (t <= at && at < t + 100_000_000
                ==> asked.request_pending && asked.last_idr_request == Some(t))
            &&& m.last_idr_request matches Some(t) ==> (t + 100_000_000 <= at
                ==> !asked.request_pending && asked.last_idr_request == Some(at))
            &&& asked.pending == m.pending && asked.next_frame == m.next_frame
            &&& noted.pending == m.pending && noted.next_frame == m.next_frame
            &&& after_call(m, Call::Request { at }).1.len() == 0
        }),
{
}

} // verus!
