//! A frame that was cut into fragments comes out whole, in whatever order its
//! fragments arrive.
use crate::receiver::{
    complete_at, delivered_frame, frame_key, is_complete, joined, key_stream, lemma_frame_key,
    opened_frame, stop_index, video_keys, walk, with_fragment, without_range, AssemblerModel,
    PendingView, Recovery, INDEX_END,
};
use crate::receiver_laws::{law_delivery_reach, law_nothing_complete_nothing_delivered};
use crate::transport::{DatagramHeader, FrameView, STREAM_TYPE_VIDEO};
use vstd::prelude::*;

verus! {

/// The header of fragment `i` of a frame.
pub open spec fn fragment_header(header: DatagramHeader, i: int) -> DatagramHeader {
    DatagramHeader { fragment_index: i as u16, ..header }
}

/// The frame after its fragments have arrived in an order.
pub open spec fn gathered(
    header: DatagramHeader,
    parts: Seq<Seq<u8>>,
    order: Seq<int>,
) -> PendingView
    decreases order.len(),
{
    if order.len() == 0 {
        opened_frame(header)
    } else {
        with_fragment(
            gathered(header, parts, order.drop_last()),
            order.last(),
            parts[order.last()],
        )
    }
}

/// What the fragments of a frame do that arrive in an order, each at its
/// time: the next state, and the frames that come out.
pub open spec fn after_fragments(
    m: AssemblerModel,
    header: DatagramHeader,
    parts: Seq<Seq<u8>>,
    order: Seq<int>,
    times: Seq<u64>,
) -> (AssemblerModel, Seq<FrameView>)
    decreases order.len(),
{
    if order.len() == 0 {
        (m, Seq::empty())
    } else {
        let (before, frames) = after_fragments(m, header, parts, order.drop_last(), times);
        let (after, more, _) = before.after_datagram(
            fragment_header(header, order.last()),
            parts[order.last()],
            times[order.len() - 1],
        );
        (after, frames + more)
    }
}

/// The order names fragments of a frame of `count` parts.
pub open spec fn in_parts(order: Seq<int>, count: nat) -> bool {
    forall|k: int| 0 <= k < order.len() ==> 0 <= #[trigger] order[k] < count
}

/// A slot of the frame holds its fragment as soon as that has arrived.
proof fn lemma_gathered(header: DatagramHeader, parts: Seq<Seq<u8>>, order: Seq<int>)
    requires
        parts.len() == header.fragment_count,
        in_parts(order, parts.len()),
    ensures
        ({
            let frame = gathered(header, parts, order);
            &&& frame == (PendingView { fragments: frame.fragments, ..opened_frame(header) })
            &&& frame.fragments.len() == parts.len()
            &&& forall|i: int|
                0 <= i < parts.len() ==> #[trigger] frame.fragments[i] == (if order.contains(i) {
                    Some(parts[i])
                } else {
                    None
                })
        }),
    decreases order.len(),
{
    if order.len() > 0 {
        let front = order.drop_last();
        let last = order.last();
        assert(0 <= last < parts.len());
        assert forall|k: int| 0 <= k < front.len() implies 0 <= #[trigger] front[k]
            < parts.len() by {
            assert(order[k] == front[k]);
        }
        lemma_gathered(header, parts, front);
        assert forall|i: int| order.contains(i) <==> #[trigger] front.contains(i) || i == last by {
            if order.contains(i) {
                let k = order.index_of(i);
                if k < front.len() {
                    assert(front[k] == i);
                }
            }
            if front.contains(i) {
                let k = front.index_of(i);
                assert(order[k] == i);
            }
            assert(order[order.len() - 1] == last);
        }
        let before = gathered(header, parts, front);
        let frame = gathered(header, parts, order);
        assert forall|i: int| 0 <= i < parts.len() implies #[trigger] frame.fragments[i] == (
        if order.contains(i) {
            Some(parts[i])
        } else {
            None
        }) by {
            assert(order.contains(i) <==> front.contains(i) || i == last);
            assert(before.fragments[i] == (if front.contains(i) {
                Some(parts[i])
            } else {
                None
            }));
        }
    }
}

/// The payload of a frame with all its parts is their concatenation.
pub proof fn lemma_joined_parts(fragments: Seq<Option<Seq<u8>>>, parts: Seq<Seq<u8>>)
    requires
        fragments.len() == parts.len(),
        forall|i: int| 0 <= i < parts.len() ==> #[trigger] fragments[i] == Some(parts[i]),
    ensures
        joined(fragments) == parts.flatten(),
    decreases parts.len(),
{
    parts.lemma_flatten_and_flatten_alt_are_equivalent();
    if parts.len() > 0 {
        let front = parts.drop_last();
        let slots = fragments.drop_last();
        assert forall|i: int| 0 <= i < front.len() implies #[trigger] slots[i] == Some(
            front[i],
        ) by {
            assert(slots[i] == fragments[i]);
        }
        lemma_joined_parts(slots, front);
        front.lemma_flatten_and_flatten_alt_are_equivalent();
        assert(fragments.last() == Some(parts.last()));
    }
}

/// The assembler waits for this frame: it is the next of its stream, none of
/// the stream is pending, and there is room for it.
pub open spec fn awaits(m: AssemblerModel, header: DatagramHeader) -> bool {
    &&& m.wf()
    &&& m.cursor(header) == header.frame_index
    &&& forall|k: u64| #[trigger]
        m.pending.contains_key(k) ==> key_stream(k) != header.stream_type
    &&& !m.overflowing()
    &&& m.max_pending >= 1
}

/// The state between the first and the last fragment of a frame.
spec fn between(
    m: AssemblerModel,
    header: DatagramHeader,
    frame: PendingView,
    now: AssemblerModel,
) -> bool {
    &&& now.pending == m.pending.insert(
        frame_key(header.stream_type, header.frame_index as int),
        frame,
    )
    &&& now.next_frame == m.next_frame.insert(header.stream_type, header.frame_index)
    &&& now.max_pending == m.max_pending
    &&& now.awaiting_keyframe == m.awaiting_keyframe
}

/// With one frame of a stream pending, only that one can be complete.
proof fn lemma_only_pending(m: AssemblerModel, header: DatagramHeader, frame: PendingView, j: int)
    requires
        awaits(m, header),
        complete_at(
            m.pending.insert(frame_key(header.stream_type, header.frame_index as int), frame),
            header.stream_type,
            j,
        ),
    ensures
        j == header.frame_index,
        is_complete(frame),
{
    lemma_frame_key(header.stream_type, j);
    lemma_frame_key(header.stream_type, header.frame_index as int);
    if j != header.frame_index {
        assert(m.pending.contains_key(frame_key(header.stream_type, j)));
    }
}

/// One more pending frame is no overflow.
proof fn lemma_room(m: AssemblerModel, header: DatagramHeader, frame: PendingView)
    requires
        awaits(m, header),
    ensures
        video_keys(
            m.pending.insert(frame_key(header.stream_type, header.frame_index as int), frame),
        ).len() <= m.max_pending,
{
    let key = frame_key(header.stream_type, header.frame_index as int);
    let after = m.pending.insert(key, frame);
    lemma_frame_key(header.stream_type, header.frame_index as int);
    if header.stream_type == STREAM_TYPE_VIDEO {
        assert(video_keys(after) =~= Set::empty().insert(key));
    } else {
        assert(video_keys(after) =~= video_keys(m.pending));
    }
}

/// A fragment that leaves the frame incomplete delivers nothing.
proof fn lemma_incomplete(
    m: AssemblerModel,
    header: DatagramHeader,
    before: AssemblerModel,
    frame: PendingView,
    i: int,
    payload: Seq<u8>,
    now: u64,
)
    requires
        awaits(m, header),
        0 <= i < header.fragment_count,
        before == m && frame == opened_frame(header) || between(m, header, frame, before),
        !is_complete(with_fragment(frame, i, payload)),
    ensures
        ({
            let (after, frames, _) = before.after_datagram(
                fragment_header(header, i),
                payload,
                now,
            );
            &&& between(m, header, with_fragment(frame, i, payload), after)
            &&& frames == Seq::<FrameView>::empty()
        }),
{
    let h = fragment_header(header, i);
    let stream_type = header.stream_type;
    let from = header.frame_index as int;
    let key = frame_key(stream_type, from);
    let full = with_fragment(frame, i, payload);
    lemma_frame_key(stream_type, from);
    assert(opened_frame(h) == opened_frame(header));
    assert(before.cursor(h) == header.frame_index);
    assert(before.stored(h, payload) =~= m.pending.insert(key, full));
    let pending = before.stored(h, payload);
    assert forall|j: int| #[trigger] complete_at(pending, stream_type, j) implies j < from by {
        lemma_only_pending(m, header, full, j);
    }
    law_nothing_complete_nothing_delivered(pending, stream_type, from);
    assert(without_range(pending, stream_type, from, from) =~= pending);
    assert(before.next_frame.insert(stream_type, header.frame_index).insert(
        stream_type,
        header.frame_index,
    ) =~= m.next_frame.insert(stream_type, header.frame_index));
    lemma_room(m, header, full);
}

/// The fragment that completes the frame delivers it, and nothing else.
proof fn lemma_completed(
    m: AssemblerModel,
    header: DatagramHeader,
    before: AssemblerModel,
    frame: PendingView,
    i: int,
    payload: Seq<u8>,
    now: u64,
)
    requires
        awaits(m, header),
        0 <= i < header.fragment_count,
        before == m && frame == opened_frame(header) || between(m, header, frame, before),
        is_complete(with_fragment(frame, i, payload)),
    ensures
        ({
            let (after, frames, _) = before.after_datagram(
                fragment_header(header, i),
                payload,
                now,
            );
            let full = with_fragment(frame, i, payload);
            &&& after.pending == m.pending
            &&& after.max_pending == m.max_pending
            &&& after.next_frame == m.next_frame.insert(
                header.stream_type,
                ((header.frame_index + 1) % INDEX_END as int) as u32,
            )
            &&& frames.len() == 1
            &&& frames[0].data == joined(full.fragments)
            &&& frames[0].pts == full.pts
            &&& frames[0].is_keyframe == full.is_keyframe
            &&& frames[0].stream_type == header.stream_type
            &&& frames[0].received_at == now
            &&& frames[0].tainted == (m.awaiting_keyframe && !full.is_keyframe)
        }),
{
    let h = fragment_header(header, i);
    let stream_type = header.stream_type;
    let from = header.frame_index as int;
    let key = frame_key(stream_type, from);
    let full = with_fragment(frame, i, payload);
    lemma_frame_key(stream_type, from);
    assert(opened_frame(h) == opened_frame(header));
    assert(before.cursor(h) == header.frame_index);
    assert(before.stored(h, payload) =~= m.pending.insert(key, full));
    let pending = before.stored(h, payload);
    assert(complete_at(pending, stream_type, from));
    assert forall|j: int| #[trigger] complete_at(pending, stream_type, j) implies j <= from by {
        lemma_only_pending(m, header, full, j);
    }
    law_delivery_reach(pending, stream_type, from, from);
    assert(stop_index(pending, stream_type, from) == from + 1);
    assert forall|k: u64|
        #![trigger m.pending.contains_key(k)]
        m.pending.contains_key(k) implies k != key by {}
    assert(without_range(pending, stream_type, from, from + 1) =~= m.pending) by {
        assert forall|k: u64|
            #![trigger m.pending.contains_key(k)]
            m.pending.contains_key(k) implies key_stream(k) != stream_type by {}
    }
    let recovery = Recovery {
        awaiting_keyframe: before.awaiting_keyframe,
        request_pending: before.request_pending,
    };
    assert(walk(pending, stream_type, from, from, now, recovery) == (
        Seq::<FrameView>::empty(),
        recovery,
    ));
    assert(walk(pending, stream_type, from, from + 1, now, recovery).0 == Seq::empty().push(
        delivered_frame(full, stream_type, now, recovery),
    ));
    let to = ((from + 1) % INDEX_END as int) as u32;
    assert(before.next_frame.insert(stream_type, header.frame_index).insert(stream_type, to)
        =~= m.next_frame.insert(stream_type, to));
    assert(video_keys(m.pending).len() <= m.max_pending);
}

/// Until the last fragment has arrived, the frame gathers and nothing comes
/// out.
proof fn lemma_gathering(
    m: AssemblerModel,
    header: DatagramHeader,
    parts: Seq<Seq<u8>>,
    order: Seq<int>,
    times: Seq<u64>,
    missing: int,
)
    requires
        awaits(m, header),
        parts.len() == header.fragment_count,
        in_parts(order, parts.len()),
        order.len() > 0,
        0 <= missing < parts.len(),
        !order.contains(missing),
    ensures
        between(
            m,
            header,
            gathered(header, parts, order),
            after_fragments(m, header, parts, order, times).0,
        ),
        after_fragments(m, header, parts, order, times).1 == Seq::<FrameView>::empty(),
    decreases order.len(),
{
    let front = order.drop_last();
    let last = order.last();
    assert forall|k: int| 0 <= k < front.len() implies 0 <= #[trigger] front[k]
        < parts.len() by {
        assert(order[k] == front[k]);
    }
    if front.contains(missing) {
        let k = front.index_of(missing);
        assert(order[k] == missing);
    }
    if front.len() > 0 {
        lemma_gathering(m, header, parts, front, times, missing);
    }
    lemma_gathered(header, parts, order);
    let frame = gathered(header, parts, order);
    assert(frame.fragments[missing] is None);
    lemma_incomplete(
        m,
        header,
        after_fragments(m, header, parts, front, times).0,
        gathered(header, parts, front),
        last,
        parts[last],
        times[order.len() - 1],
    );
    assert(after_fragments(m, header, parts, order, times).1 =~= Seq::<FrameView>::empty());
}

/// A frame that was cut into fragments is delivered whole as soon as its last
/// missing fragment arrives: its payload is the fragments in their order,
/// whatever order they arrived in and however often the earlier ones did.
/// Nothing else comes out, and the assembler waits for the next frame, so
/// that frame after frame comes out of a stream.
pub proof fn law_frame_reassembled(
    m: AssemblerModel,
    header: DatagramHeader,
    parts: Seq<Seq<u8>>,
    order: Seq<int>,
    times: Seq<u64>,
)
    requires
        awaits(m, header),
        parts.len() == header.fragment_count,
        in_parts(order, parts.len()),
        forall|i: int| 0 <= i < parts.len() ==> #[trigger] order.contains(i),
        order.len() > 0,
        !order.drop_last().contains(order.last()),
    ensures
        ({
            let (after, frames) = after_fragments(m, header, parts, order, times);
            &&& frames.len() == 1
            &&& frames[0].data == parts.flatten()
            &&& frames[0].pts == header.pts
            &&& frames[0].is_keyframe == header.is_keyframe
            &&& frames[0].stream_type == header.stream_type
            &&& frames[0].received_at == times[order.len() - 1]
            &&& frames[0].tainted == (m.awaiting_keyframe && !header.is_keyframe)
            &&& after.pending == m.pending
            &&& after.next_frame[header.stream_type] == (header.frame_index + 1) % INDEX_END as int
            &&& forall|next: DatagramHeader|
                next.stream_type == header.stream_type && next.frame_index == header.frame_index
                    + 1 ==> #[trigger] awaits(after, next)
        }),
{
    let front = order.drop_last();
    let last = order.last();
    assert forall|k: int| 0 <= k < front.len() implies 0 <= #[trigger] front[k]
        < parts.len() by {
        assert(order[k] == front[k]);
    }
    if front.len() > 0 {
        lemma_gathering(m, header, parts, front, times, last);
    }
    lemma_gathered(header, parts, order);
    let full = gathered(header, parts, order);
    assert forall|i: int| 0 <= i < parts.len() implies #[trigger] full.fragments[i] == Some(
        parts[i],
    ) by {
        assert(order.contains(i));
    }
    lemma_joined_parts(full.fragments, parts);
    lemma_completed(
        m,
        header,
        after_fragments(m, header, parts, front, times).0,
        gathered(header, parts, front),
        last,
        parts[last],
        times[order.len() - 1],
    );
    let frames = after_fragments(m, header, parts, order, times).1;
    assert(frames.len() == 1);
}

} // verus!
