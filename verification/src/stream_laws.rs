//! What holds of the frames that come out of a whole session: of any sequence
//! of datagrams, noted disruptions and keyframe requests.
use crate::receiver::{
    frame_key, is_newest_video, joined, key_index, key_stream, lemma_frame_key, limiter_open,
    lemma_remove_keys_finite, malformed, opened_frame, stop_index, video_keys, walk,
    with_fragment, AssemblerModel, PendingView, Recovery, INDEX_END,
};
use crate::reassembly_laws::lemma_joined_parts;
use crate::receiver_laws::{
    complete_indices, law_cursor_monotonic, law_delivery_in_order, lemma_end_needs_last,
    lemma_newest_exists, lemma_stop_exists,
};
use crate::transport::{DatagramHeader, FrameView, STREAM_TYPE_VIDEO};
use vstd::prelude::*;

verus! {

/// A call of an assembler.
pub enum Call {
    /// A datagram arrives.
    Datagram { header: DatagramHeader, payload: Seq<u8>, now: u64 },
    /// A disruption is noted.
    Disruption,
    /// A disruption is noted, and its request is sent if the rate limit
    /// allows.
    Request { at: u64 },
    /// The rate limit is asked; a request that it allows counts as issued.
    LimiterCheck { at: u64 },
}

/// What a call does: the next state, and the frames that come out.
pub open spec fn after_call(m: AssemblerModel, call: Call) -> (AssemblerModel, Seq<FrameView>) {
    match call {
        Call::Datagram { header, payload, now } => {
            let (after, frames, _) = m.after_datagram(header, payload, now);
            (after, frames)
        },
        Call::Disruption => (m.disrupted(), Seq::empty()),
        Call::Request { at } => (
            if limiter_open(m.last_idr_request, at) {
                m.disrupted().requested(at)
            } else {
                m.disrupted()
            },
            Seq::empty(),
        ),
        Call::LimiterCheck { at } => (
            if limiter_open(m.last_idr_request, at) {
                AssemblerModel { last_idr_request: Some(at), ..m }
            } else {
                m
            },
            Seq::empty(),
        ),
    }
}

/// What calls do one after the other: the state after the last, and all
/// frames that come out.
pub open spec fn after_all(m: AssemblerModel, calls: Seq<Call>) -> (AssemblerModel, Seq<FrameView>)
    decreases calls.len(),
{
    if calls.len() == 0 {
        (m, Seq::empty())
    } else {
        let (before, frames) = after_all(m, calls.drop_last());
        let (after, more) = after_call(before, calls.last());
        (after, frames + more)
    }
}

/// The state of a new assembler after some calls.
pub open spec fn state_after(ds: Seq<Call>) -> AssemblerModel {
    after_all(AssemblerModel::initial(), ds).0
}

/// All frames that come out of a new assembler.
pub open spec fn frames_of(ds: Seq<Call>) -> Seq<FrameView> {
    after_all(AssemblerModel::initial(), ds).1
}

/// The last index, past which a stream starts over, does not occur.
pub open spec fn indices_below_last(ds: Seq<Call>) -> bool {
    forall|k: int|
        0 <= k < ds.len() && (#[trigger] ds[k]) is Datagram ==> ds[k]->header.frame_index
            < u32::MAX
}

/// The assembler accepts the datagram: it is well-formed and not late.
pub open spec fn accepts(m: AssemblerModel, header: DatagramHeader) -> bool {
    !malformed(header) && header.frame_index >= m.cursor(header)
}

/// No frame with the last index is pending.
pub open spec fn below_last(pending: Map<u64, PendingView>) -> bool {
    forall|k: u64| #[trigger] pending.contains_key(k) ==> key_index(k) < u32::MAX
}

/// The index of a frame has been passed by the cursor of its stream.
pub open spec fn passed(m: AssemblerModel, key: u64) -> bool {
    &&& key_stream(key) <= u8::MAX
    &&& m.next_frame.contains_key(key_stream(key) as u8)
    &&& key_index(key) < m.next_frame[key_stream(key) as u8]
}

/// Where delivery on the header's stream stops.
pub open spec fn delivery_end(m: AssemblerModel, header: DatagramHeader, payload: Seq<u8>) -> int {
    stop_index(m.stored(header, payload), header.stream_type, m.cursor(header) as int)
}

/// What a datagram does to the pending frames and the cursors: an accepted
/// one is stored, and what is pending no more has been passed.
pub open spec fn stepped(
    m: AssemblerModel,
    header: DatagramHeader,
    payload: Seq<u8>,
    now: u64,
    after: AssemblerModel,
    frames: Seq<FrameView>,
) -> bool {
    let stored = m.stored(header, payload);
    let to = delivery_end(m, header, payload);
    &&& after.wf()
    &&& below_last(after.pending)
    &&& forall|s: u8| #[trigger]
        m.next_frame.contains_key(s) ==> after.next_frame.contains_key(s)
            && after.next_frame[s] >= m.next_frame[s]
    &&& !accepts(m, header) ==> after.pending == m.pending && frames == Seq::<FrameView>::empty()
    &&& accepts(m, header) ==> {
        &&& forall|k: u64| #[trigger]
            after.pending.contains_key(k) ==> stored.contains_key(k) && after.pending[k]
                == stored[k]
        &&& forall|k: u64| #[trigger]
            stored.contains_key(k) ==> after.pending.contains_key(k) || passed(after, k)
        &&& after.next_frame.contains_key(header.stream_type)
        &&& to <= after.next_frame[header.stream_type]
        &&& frames == walk(
            stored,
            header.stream_type,
            m.cursor(header) as int,
            to,
            now,
            Recovery {
                awaiting_keyframe: m.awaiting_keyframe,
                request_pending: m.request_pending,
            },
        ).0
    }
}

proof fn lemma_stored(m: AssemblerModel, header: DatagramHeader, payload: Seq<u8>)
    requires
        m.wf(),
        below_last(m.pending),
        header.frame_index < u32::MAX,
        accepts(m, header),
    ensures
        ({
            let stored = m.stored(header, payload);
            let next = m.cursor(header);
            &&& stored.dom().finite()
            &&& below_last(stored)
            &&& forall|k: u64| #[trigger]
                stored.contains_key(k) ==> {
                    &&& key_stream(k) <= u8::MAX
                    &&& stored[k].stream_type == key_stream(k)
                    &&& if key_stream(k) == header.stream_type {
                        key_index(k) >= next
                    } else {
                        m.next_frame.contains_key(key_stream(k) as u8) && key_index(k)
                            >= m.next_frame[key_stream(k) as u8]
                    }
                }
        }),
{
    let stored = m.stored(header, payload);
    let key = frame_key(header.stream_type, header.frame_index as int);
    lemma_frame_key(header.stream_type, header.frame_index as int);
    assert forall|k: u64| #[trigger] stored.contains_key(k) implies {
        &&& key_stream(k) <= u8::MAX
        &&& stored[k].stream_type == key_stream(k)
        &&& key_index(k) < u32::MAX
        &&& if key_stream(k) == header.stream_type {
            key_index(k) >= m.cursor(header)
        } else {
            m.next_frame.contains_key(key_stream(k) as u8) && key_index(k)
                >= m.next_frame[key_stream(k) as u8]
        }
    } by {
        if k != key {
            assert(m.pending.contains_key(k));
        }
    }
}

/// Delivery leaves a consistent state, and passes what it takes out.
proof fn lemma_delivered(m: AssemblerModel, header: DatagramHeader, payload: Seq<u8>, now: u64)
    requires
        m.wf(),
        below_last(m.pending),
        header.frame_index < u32::MAX,
        accepts(m, header),
    ensures
        ({
            let next = m.cursor(header);
            let stored = m.stored(header, payload);
            let to = delivery_end(m, header, payload);
            let filled = AssemblerModel {
                pending: stored,
                next_frame: m.next_frame.insert(header.stream_type, next),
                ..m
            };
            let after = filled.delivered(header.stream_type, next, now).0;
            &&& next <= to < INDEX_END
            &&& after.wf()
            &&& below_last(after.pending)
            &&& after.next_frame == m.next_frame.insert(header.stream_type, to as u32)
            &&& forall|k: u64| #[trigger]
                after.pending.contains_key(k) ==> stored.contains_key(k) && after.pending[k]
                    == stored[k]
            &&& forall|k: u64| #[trigger]
                stored.contains_key(k) ==> after.pending.contains_key(k) || passed(after, k)
        }),
{
    let next = m.cursor(header);
    let stored = m.stored(header, payload);
    let stream_type = header.stream_type;
    let to = delivery_end(m, header, payload);
    lemma_stored(m, header, payload);
    lemma_stop_exists(stored, stream_type, next as int);
    lemma_end_needs_last(stored, stream_type, next as int);
    lemma_frame_key(stream_type, u32::MAX as int);
    assert(to < INDEX_END) by {
        if to == INDEX_END {
            assert(stored.contains_key(frame_key(stream_type, u32::MAX as int)));
        }
    }
    let filled = AssemblerModel {
        pending: stored,
        next_frame: m.next_frame.insert(stream_type, next),
        ..m
    };
    let gone = Set::new(
        |k: u64| key_stream(k) == stream_type && next as int <= key_index(k) < to,
    );
    let after = filled.delivered(stream_type, next, now).0;
    lemma_remove_keys_finite(stored, gone);
    assert(after.pending == stored.remove_keys(gone));
    assert(after.next_frame =~= m.next_frame.insert(stream_type, to as u32));
    assert forall|k: u64| #[trigger] after.pending.contains_key(k) implies {
        &&& stored.contains_key(k)
        &&& after.pending[k] == stored[k]
        &&& key_index(k) < u32::MAX
        &&& key_stream(k) <= u8::MAX
        &&& after.next_frame.contains_key(key_stream(k) as u8)
        &&& key_index(k) >= after.next_frame[key_stream(k) as u8]
        &&& after.pending[k].stream_type == key_stream(k)
    } by {
        assert(stored.contains_key(k));
        assert(!gone.contains(k));
    }
    assert forall|k: u64| #[trigger] stored.contains_key(k) implies after.pending.contains_key(k)
        || passed(after, k) by {
        if !after.pending.contains_key(k) {
            assert(gone.contains(k));
        }
    }
}

/// Every datagram leaves a consistent state, and what it takes out has been
/// passed.
pub proof fn lemma_step(m: AssemblerModel, header: DatagramHeader, payload: Seq<u8>, now: u64)
    requires
        m.wf(),
        below_last(m.pending),
        header.frame_index < u32::MAX,
    ensures
        ({
            let (after, frames, _) = m.after_datagram(header, payload, now);
            stepped(m, header, payload, now, after, frames)
        }),
{
    let (result, frames, _) = m.after_datagram(header, payload, now);
    if accepts(m, header) {
        let next = m.cursor(header);
        let stored = m.stored(header, payload);
        let to = delivery_end(m, header, payload);
        let filled = AssemblerModel {
            pending: stored,
            next_frame: m.next_frame.insert(header.stream_type, next),
            ..m
        };
        lemma_stored(m, header, payload);
        lemma_delivered(m, header, payload, now);
        let after = filled.delivered(header.stream_type, next, now).0;
        let settled = if after.overflowing() {
            after.disrupted()
        } else {
            after
        };
        assert(settled.wf());
        if settled.request_due(now) && settled.overflowing() {
            let asked = settled.requested(now);
            let videos = video_keys(asked.pending);
            lemma_newest_exists(settled.pending);
            let newest = choose|i: int| is_newest_video(asked.pending, i);
            let top = frame_key(STREAM_TYPE_VIDEO, newest);
            lemma_frame_key(STREAM_TYPE_VIDEO, newest);
            assert(asked.pending.contains_key(top));
            assert(newest < u32::MAX);
            lemma_remove_keys_finite(asked.pending, videos);
            assert(result.pending == asked.pending.remove_keys(videos));
            assert(result.next_frame == asked.next_frame.insert(
                STREAM_TYPE_VIDEO,
                (newest + 1) as u32,
            ));
            assert forall|k: u64| #[trigger] result.pending.contains_key(k) implies {
                &&& after.pending.contains_key(k)
                &&& result.pending[k] == after.pending[k]
                &&& key_stream(k) != STREAM_TYPE_VIDEO
            } by {
                assert(asked.pending.contains_key(k));
                assert(!videos.contains(k));
            }
            assert forall|k: u64| #[trigger]
                stored.contains_key(k) implies result.pending.contains_key(k) || passed(
                result,
                k,
            ) by {
                if after.pending.contains_key(k) {
                    if !result.pending.contains_key(k) {
                        assert(videos.contains(k));
                    }
                } else {
                    assert(passed(after, k));
                    if key_stream(k) == STREAM_TYPE_VIDEO {
                        assert(after.next_frame[STREAM_TYPE_VIDEO] <= newest);
                    }
                }
            }
            assert(result.wf());
        }
    } else if !malformed(header) {
        assert(m.next_frame.insert(header.stream_type, m.cursor(header)) =~= m.next_frame);
    }
    assert forall|s: u8| #[trigger] m.next_frame.contains_key(s) implies result.next_frame.contains_key(
        s,
    ) && result.next_frame[s] >= m.next_frame[s] by {
        law_cursor_monotonic(m, header, payload, now, s);
        let last = frame_key(s, u32::MAX as int);
        lemma_frame_key(s, u32::MAX as int);
        lemma_frame_key(header.stream_type, header.frame_index as int);
        if m.stored(header, payload).contains_key(last) {
            assert(m.pending.contains_key(last));
        }
    }
}

/// The frames of a stream are numbered by their timestamps.
pub open spec fn numbered(ds: Seq<Call>) -> bool {
    forall|k: int|
        0 <= k < ds.len() && (#[trigger] ds[k]) is Datagram ==> ds[k]->header.pts
            == ds[k]->header.frame_index
}

/// Pending frames carry their numbers, what came out lies before the cursor
/// of its stream, and it came out in order.
pub open spec fn ordered(ds: Seq<Call>) -> bool {
    let m = state_after(ds);
    let frames = frames_of(ds);
    &&& m.wf()
    &&& below_last(m.pending)
    &&& forall|k: u64| #[trigger] m.pending.contains_key(k) ==> m.pending[k].pts == key_index(k)
    &&& forall|i: int|
        0 <= i < frames.len() ==> m.next_frame.contains_key((#[trigger] frames[i]).stream_type)
            && frames[i].pts < m.next_frame[frames[i].stream_type]
    &&& forall|i: int, j: int|
        0 <= i < j < frames.len() && (#[trigger] frames[i]).stream_type == (
        #[trigger] frames[j]).stream_type ==> frames[i].pts < frames[j].pts
}

/// Over a whole session, frames stay in order.
pub proof fn lemma_ordered(ds: Seq<Call>)
    requires
        indices_below_last(ds),
        numbered(ds),
    ensures
        ordered(ds),
    decreases ds.len(),
{
    if ds.len() > 0 {
        let front = ds.drop_last();
        assert forall|k: int| 0 <= k < front.len() implies (#[trigger] front[k]) == ds[k] by {}
        lemma_ordered(front);
        let m = state_after(front);
        let earlier = frames_of(front);
        let (after, more) = after_call(m, ds.last());
        let frames = frames_of(ds);
        assert(frames == earlier + more);
        let header = ds.last()->header;
        let payload = ds.last()->payload;
        let now = ds.last()->now;
        assert(ds[ds.len() - 1] == ds.last());
        if ds.last() is Datagram {
            lemma_step(m, header, payload, now);
        }
        if ds.last() is Datagram && accepts(m, header) {
            let stored = m.stored(header, payload);
            let from = m.cursor(header) as int;
            let to = delivery_end(m, header, payload);
            let recovery = Recovery {
                awaiting_keyframe: m.awaiting_keyframe,
                request_pending: m.request_pending,
            };
            let key = frame_key(header.stream_type, header.frame_index as int);
            lemma_frame_key(header.stream_type, header.frame_index as int);
            assert forall|k: u64| #[trigger] stored.contains_key(k) implies stored[k].pts
                == key_index(k) by {
                if k != key {
                    assert(m.pending.contains_key(k));
                }
            }
            law_delivery_in_order(stored, header.stream_type, from, to, now, recovery);
            let order = complete_indices(stored, header.stream_type, from, to);
            assert forall|i: int| 0 <= i < more.len() implies {
                &&& (#[trigger] more[i]).stream_type == header.stream_type
                &&& more[i].pts == order[i]
                &&& from <= order[i] < to
            } by {
                lemma_frame_key(header.stream_type, order[i]);
                assert(stored.contains_key(frame_key(header.stream_type, order[i])));
            }
            assert forall|i: int| 0 <= i < frames.len() implies after.next_frame.contains_key(
                (#[trigger] frames[i]).stream_type,
            ) && frames[i].pts < after.next_frame[frames[i].stream_type] by {
                if i < earlier.len() {
                    assert(frames[i] == earlier[i]);
                } else {
                    assert(frames[i] == more[i - earlier.len()]);
                }
            }
            assert forall|i: int, j: int|
                0 <= i < j < frames.len() && (#[trigger] frames[i]).stream_type == (
                #[trigger] frames[j]).stream_type implies frames[i].pts < frames[j].pts by {
                if j < earlier.len() {
                    assert(frames[i] == earlier[i] && frames[j] == earlier[j]);
                } else if i < earlier.len() {
                    assert(frames[i] == earlier[i]);
                    assert(frames[j] == more[j - earlier.len()]);
                } else {
                    assert(frames[i] == more[i - earlier.len()]);
                    assert(frames[j] == more[j - earlier.len()]);
                }
            }
        } else {
            assert(frames =~= earlier);
        }
    }
}

/// Over a whole session, whatever is lost, disrupted and requested, frames
/// come out in the order in which they were sent, and none comes out twice:
/// of two frames of one stream, the one that comes out first has the lower
/// number. This holds until the last index, past which the numbers start
/// over.
pub proof fn law_in_order_without_repeats(ds: Seq<Call>)
    requires
        indices_below_last(ds),
        numbered(ds),
    ensures
        forall|i: int, j: int|
            0 <= i < j < frames_of(ds).len() && (#[trigger] frames_of(ds)[i]).stream_type == (
            #[trigger] frames_of(ds)[j]).stream_type ==> frames_of(ds)[i].pts < frames_of(
                ds,
            )[j].pts,
{
    lemma_ordered(ds);
}

/// Call `k` is a datagram that was accepted.
pub open spec fn accepted(ds: Seq<Call>, k: int) -> bool {
    0 <= k < ds.len() && ds[k] is Datagram && accepts(
        state_after(ds.take(k)),
        ds[k]->header,
    )
}

/// Call `k` is a datagram that was accepted for frame `f` of a stream.
pub open spec fn for_frame(ds: Seq<Call>, k: int, stream_type: u8, f: int) -> bool {
    accepted(ds, k) && ds[k]->header.stream_type == stream_type && ds[k]->header.frame_index == f
}

/// Call `k` is the first datagram that was accepted for a frame.
pub open spec fn first_for_frame(ds: Seq<Call>, k: int, stream_type: u8, f: int) -> bool {
    &&& for_frame(ds, k, stream_type, f)
    &&& forall|j: int| 0 <= j < k ==> !(#[trigger] for_frame(ds, j, stream_type, f))
}

/// Call `k` is a datagram that was accepted for slot `i` of a frame.
pub open spec fn for_slot(ds: Seq<Call>, k: int, stream_type: u8, f: int, i: int) -> bool {
    for_frame(ds, k, stream_type, f) && ds[k]->header.fragment_index == i
}

/// Call `k` is the first datagram that was accepted for a slot.
pub open spec fn first_for_slot(
    ds: Seq<Call>,
    k: int,
    stream_type: u8,
    f: int,
    i: int,
) -> bool {
    &&& for_slot(ds, k, stream_type, f, i)
    &&& forall|j: int| 0 <= j < k ==> !(#[trigger] for_slot(ds, j, stream_type, f, i))
}

/// Something was accepted for a slot.
pub open spec fn slot_arrived(ds: Seq<Call>, stream_type: u8, f: int, i: int) -> bool {
    exists|k: int| first_for_slot(ds, k, stream_type, f, i)
}

/// The payload of the first datagram that was accepted for a slot.
pub open spec fn slot_payload(ds: Seq<Call>, stream_type: u8, f: int, i: int) -> Seq<u8> {
    ds[choose|k: int| first_for_slot(ds, k, stream_type, f, i)]->payload
}

/// The payloads of the first `n` slots of a frame.
pub open spec fn payloads(ds: Seq<Call>, stream_type: u8, f: int, n: nat) -> Seq<Seq<u8>> {
    Seq::new(n, |i: int| slot_payload(ds, stream_type, f, i))
}

/// A frame is frame `f` of its stream as it was sent: it has as many slots as
/// the first datagram accepted for it says, every slot has arrived, its
/// payload is what arrived first for each slot, in their order, and the rest
/// is what the first datagram says.
pub open spec fn as_sent(ds: Seq<Call>, f: int, r: FrameView) -> bool {
    exists|k: int|
        {
            let h = ds[k]->header;
            &&& #[trigger] first_for_frame(ds, k, r.stream_type, f)
            &&& forall|i: int|
                0 <= i < h.fragment_count ==> #[trigger] slot_arrived(ds, r.stream_type, f, i)
            &&& r.data == payloads(ds, r.stream_type, f, h.fragment_count as nat).flatten()
            &&& r.pts == h.pts
            &&& r.is_keyframe == h.is_keyframe
            &&& r.capture_us == h.capture_us
            &&& r.convert_us == h.convert_us
            &&& r.encode_us == h.encode_us
        }
}

/// A frame is some frame of its stream as it was sent.
pub open spec fn was_sent(ds: Seq<Call>, r: FrameView) -> bool {
    exists|f: int| as_sent(ds, f, r)
}

/// A slot holds what was accepted for it first, and is empty if nothing was.
spec fn slot_kept(
    ds: Seq<Call>,
    stream_type: u8,
    f: int,
    i: int,
    slot: Option<Seq<u8>>,
) -> bool {
    match slot {
        Some(bytes) => slot_arrived(ds, stream_type, f, i) && bytes == slot_payload(
            ds,
            stream_type,
            f,
            i,
        ),
        None => forall|k: int| !(#[trigger] for_slot(ds, k, stream_type, f, i)),
    }
}

/// A pending frame is what was accepted for it so far.
spec fn kept(ds: Seq<Call>, stream_type: u8, f: int, frame: PendingView) -> bool {
    exists|k: int|
        {
            &&& #[trigger] first_for_frame(ds, k, stream_type, f)
            &&& frame == (PendingView { fragments: frame.fragments, ..opened_frame(ds[k]->header) })
            &&& frame.fragments.len() == ds[k]->header.fragment_count
            &&& forall|i: int|
                0 <= i < frame.fragments.len() ==> slot_kept(
                    ds,
                    stream_type,
                    f,
                    i,
                    #[trigger] frame.fragments[i],
                )
        }
}

/// What is pending is what was accepted; what was accepted is pending or has
/// been passed; and what came out is as it was sent.
spec fn faithful(ds: Seq<Call>) -> bool {
    let m = state_after(ds);
    &&& m.wf()
    &&& below_last(m.pending)
    &&& forall|k: u64| #[trigger]
        m.pending.contains_key(k) ==> kept(ds, key_stream(k) as u8, key_index(k), m.pending[k])
    &&& forall|k: int| #[trigger]
        accepted(ds, k) ==> {
            let key = frame_key(ds[k]->header.stream_type, ds[k]->header.frame_index as int);
            m.pending.contains_key(key) || passed(m, key)
        }
    &&& forall|i: int|
        0 <= i < frames_of(ds).len() ==> was_sent(ds, #[trigger] frames_of(ds)[i])
}

/// What was accepted before does not change as more calls follow.
proof fn lemma_accepted_stays(ds: Seq<Call>, k: int)
    requires
        0 <= k < ds.len() - 1,
    ensures
        accepted(ds, k) == accepted(ds.drop_last(), k),
        ds[k] == ds.drop_last()[k],
{
    assert(ds.take(k) =~= ds.drop_last().take(k));
}

proof fn lemma_first_stays(ds: Seq<Call>, k: int, stream_type: u8, f: int)
    requires
        ds.len() > 0,
        first_for_frame(ds.drop_last(), k, stream_type, f),
    ensures
        first_for_frame(ds, k, stream_type, f),
{
    lemma_accepted_stays(ds, k);
    assert forall|j: int| 0 <= j < k implies !(#[trigger] for_frame(ds, j, stream_type, f)) by {
        lemma_accepted_stays(ds, j);
        assert(!for_frame(ds.drop_last(), j, stream_type, f));
    }
}

/// The first datagram of a slot is one.
proof fn lemma_slot_unique(ds: Seq<Call>, k: int, stream_type: u8, f: int, i: int)
    requires
        first_for_slot(ds, k, stream_type, f, i),
    ensures
        slot_arrived(ds, stream_type, f, i),
        slot_payload(ds, stream_type, f, i) == ds[k]->payload,
{
    let other = choose|j: int| first_for_slot(ds, j, stream_type, f, i);
    assert(first_for_slot(ds, other, stream_type, f, i));
    if other < k {
        assert(!for_slot(ds, other, stream_type, f, i));
    }
    if k < other {
        assert(!for_slot(ds, k, stream_type, f, i));
    }
}

proof fn lemma_slot_stays(ds: Seq<Call>, stream_type: u8, f: int, i: int)
    requires
        ds.len() > 0,
        slot_arrived(ds.drop_last(), stream_type, f, i),
    ensures
        slot_arrived(ds, stream_type, f, i),
        slot_payload(ds, stream_type, f, i) == slot_payload(ds.drop_last(), stream_type, f, i),
{
    let front = ds.drop_last();
    let k = choose|k: int| first_for_slot(front, k, stream_type, f, i);
    assert(first_for_slot(front, k, stream_type, f, i));
    lemma_accepted_stays(ds, k);
    assert forall|j: int| 0 <= j < k implies !(#[trigger] for_slot(ds, j, stream_type, f, i)) by {
        lemma_accepted_stays(ds, j);
        assert(!for_slot(front, j, stream_type, f, i));
    }
    lemma_slot_unique(ds, k, stream_type, f, i);
    lemma_slot_unique(front, k, stream_type, f, i);
}

/// A frame that is as it was sent stays so as more calls follow.
proof fn lemma_as_sent_stays(ds: Seq<Call>, f: int, r: FrameView)
    requires
        ds.len() > 0,
        as_sent(ds.drop_last(), f, r),
    ensures
        as_sent(ds, f, r),
{
    let front = ds.drop_last();
    let k = choose|k: int|
        {
            let h = front[k]->header;
            &&& #[trigger] first_for_frame(front, k, r.stream_type, f)
            &&& forall|i: int|
                0 <= i < h.fragment_count ==> #[trigger] slot_arrived(front, r.stream_type, f, i)
            &&& r.data == payloads(front, r.stream_type, f, h.fragment_count as nat).flatten()
            &&& r.pts == h.pts
            &&& r.is_keyframe == h.is_keyframe
            &&& r.capture_us == h.capture_us
            &&& r.convert_us == h.convert_us
            &&& r.encode_us == h.encode_us
        };
    lemma_first_stays(ds, k, r.stream_type, f);
    lemma_accepted_stays(ds, k);
    let n = ds[k]->header.fragment_count;
    assert forall|i: int| 0 <= i < n implies #[trigger] slot_arrived(ds, r.stream_type, f, i) by {
        assert(slot_arrived(front, r.stream_type, f, i));
        lemma_slot_stays(ds, r.stream_type, f, i);
    }
    assert(payloads(ds, r.stream_type, f, n as nat) =~= payloads(
        front,
        r.stream_type,
        f,
        n as nat,
    )) by {
        assert forall|i: int| 0 <= i < n implies slot_payload(ds, r.stream_type, f, i)
            == slot_payload(front, r.stream_type, f, i) by {
            assert(slot_arrived(front, r.stream_type, f, i));
            lemma_slot_stays(ds, r.stream_type, f, i);
        }
    }
    assert(first_for_frame(ds, k, r.stream_type, f));
}

/// A slot that the last datagram is not for is kept as it was.
proof fn lemma_slot_kept_stays(
    ds: Seq<Call>,
    stream_type: u8,
    f: int,
    i: int,
    slot: Option<Seq<u8>>,
)
    requires
        ds.len() > 0,
        slot_kept(ds.drop_last(), stream_type, f, i, slot),
        slot is Some || !for_slot(ds, ds.len() - 1, stream_type, f, i),
    ensures
        slot_kept(ds, stream_type, f, i, slot),
{
    if slot is Some {
        lemma_slot_stays(ds, stream_type, f, i);
    } else {
        assert forall|k: int| !(#[trigger] for_slot(ds, k, stream_type, f, i)) by {
            if 0 <= k < ds.len() - 1 {
                lemma_accepted_stays(ds, k);
                assert(!for_slot(ds.drop_last(), k, stream_type, f, i));
            }
        }
    }
}

/// What is pending of a frame stays what was accepted for it, with the last
/// datagram stored if it is for that frame.
proof fn lemma_kept_with(ds: Seq<Call>, stream_type: u8, f: int, frame: PendingView)
    requires
        ds.len() > 0,
        kept(ds.drop_last(), stream_type, f, frame),
    ensures
        ({
            let header = ds.last()->header;
            let payload = ds.last()->payload;
            if for_frame(ds, ds.len() - 1, stream_type, f) {
                kept(
                    ds,
                    stream_type,
                    f,
                    with_fragment(frame, header.fragment_index as int, payload),
                )
            } else {
                kept(ds, stream_type, f, frame)
            }
        }),
{
    let front = ds.drop_last();
    let n = ds.len() - 1;
    let header = ds.last()->header;
    let payload = ds.last()->payload;
    let at = header.fragment_index as int;
    let mine = for_frame(ds, n, stream_type, f);
    let after = if mine {
        with_fragment(frame, at, payload)
    } else {
        frame
    };
    let k = choose|k: int|
        {
            &&& #[trigger] first_for_frame(front, k, stream_type, f)
            &&& frame == (PendingView { fragments: frame.fragments, ..opened_frame(front[k]->header) })
            &&& frame.fragments.len() == front[k]->header.fragment_count
            &&& forall|i: int|
                0 <= i < frame.fragments.len() ==> slot_kept(
                    front,
                    stream_type,
                    f,
                    i,
                    #[trigger] frame.fragments[i],
                )
        };
    lemma_first_stays(ds, k, stream_type, f);
    lemma_accepted_stays(ds, k);
    assert forall|i: int| 0 <= i < after.fragments.len() implies slot_kept(
        ds,
        stream_type,
        f,
        i,
        #[trigger] after.fragments[i],
    ) by {
        assert(slot_kept(front, stream_type, f, i, frame.fragments[i]));
        if mine && i == at && frame.fragments[i] is None {
            assert forall|j: int| 0 <= j < n implies !(#[trigger] for_slot(
                ds,
                j,
                stream_type,
                f,
                i,
            )) by {
                lemma_accepted_stays(ds, j);
                assert(!for_slot(front, j, stream_type, f, i));
            }
            assert(first_for_slot(ds, n, stream_type, f, i));
            lemma_slot_unique(ds, n, stream_type, f, i);
        } else {
            lemma_slot_kept_stays(ds, stream_type, f, i, frame.fragments[i]);
        }
    }
    assert(first_for_frame(ds, k, stream_type, f));
}

/// The first datagram of a frame opens it.
proof fn lemma_kept_new(ds: Seq<Call>)
    requires
        ds.len() > 0,
        accepted(ds, ds.len() - 1),
        forall|j: int|
            0 <= j < ds.len() - 1 ==> !(#[trigger] for_frame(
                ds,
                j,
                ds.last()->header.stream_type,
                ds.last()->header.frame_index as int,
            )),
    ensures
        ({
            let header = ds.last()->header;
            let payload = ds.last()->payload;
            kept(
                ds,
                header.stream_type,
                header.frame_index as int,
                with_fragment(opened_frame(header), header.fragment_index as int, payload),
            )
        }),
{
    let header = ds.last()->header;
    let payload = ds.last()->payload;
    let n = ds.len() - 1;
    let stream_type = header.stream_type;
    let f = header.frame_index as int;
    let at = header.fragment_index as int;
    let frame = with_fragment(opened_frame(header), at, payload);
    assert(first_for_frame(ds, n, stream_type, f));
    assert forall|i: int| 0 <= i < frame.fragments.len() implies slot_kept(
        ds,
        stream_type,
        f,
        i,
        #[trigger] frame.fragments[i],
    ) by {
        assert forall|j: int| 0 <= j < n implies !(#[trigger] for_slot(
            ds,
            j,
            stream_type,
            f,
            i,
        )) by {
            assert(!for_frame(ds, j, stream_type, f));
        }
        if i == at {
            assert(first_for_slot(ds, n, stream_type, f, i));
            lemma_slot_unique(ds, n, stream_type, f, i);
        } else {
            assert forall|j: int| !(#[trigger] for_slot(ds, j, stream_type, f, i)) by {
                if 0 <= j < n {
                    assert(!for_frame(ds, j, stream_type, f));
                }
            }
        }
    }
}

/// A frame that is complete comes out as it was sent.
proof fn lemma_complete_as_sent(ds: Seq<Call>, f: int, frame: PendingView, r: FrameView)
    requires
        kept(ds, r.stream_type, f, frame),
        crate::receiver::is_complete(frame),
        r.data == joined(frame.fragments),
        r.pts == frame.pts,
        r.is_keyframe == frame.is_keyframe,
        r.capture_us == frame.capture_us,
        r.convert_us == frame.convert_us,
        r.encode_us == frame.encode_us,
    ensures
        as_sent(ds, f, r),
{
    let stream_type = r.stream_type;
    let k = choose|k: int|
        {
            &&& #[trigger] first_for_frame(ds, k, stream_type, f)
            &&& frame == (PendingView { fragments: frame.fragments, ..opened_frame(ds[k]->header) })
            &&& frame.fragments.len() == ds[k]->header.fragment_count
            &&& forall|i: int|
                0 <= i < frame.fragments.len() ==> slot_kept(
                    ds,
                    stream_type,
                    f,
                    i,
                    #[trigger] frame.fragments[i],
                )
        };
    let n = ds[k]->header.fragment_count as nat;
    let parts = payloads(ds, stream_type, f, n);
    assert forall|i: int| 0 <= i < n implies {
        &&& #[trigger] frame.fragments[i] == Some(parts[i])
        &&& slot_arrived(ds, stream_type, f, i)
    } by {
        assert(slot_kept(ds, stream_type, f, i, frame.fragments[i]));
        assert(frame.fragments[i] is Some);
    }
    assert forall|i: int| 0 <= i < n implies #[trigger] slot_arrived(ds, stream_type, f, i) by {
        assert(frame.fragments[i] == Some(parts[i]));
    }
    lemma_joined_parts(frame.fragments, parts);
    assert(first_for_frame(ds, k, stream_type, f));
}

proof fn lemma_faithful(ds: Seq<Call>)
    requires
        indices_below_last(ds),
    ensures
        faithful(ds),
    decreases ds.len(),
{
    if ds.len() > 0 {
        let front = ds.drop_last();
        let n = ds.len() - 1;
        assert forall|k: int| 0 <= k < front.len() implies (#[trigger] front[k]) == ds[k] by {}
        lemma_faithful(front);
        let m = state_after(front);
        let header = ds.last()->header;
        let payload = ds.last()->payload;
        let now = ds.last()->now;
        assert(ds[n] == ds.last());
        assert(ds.take(n) =~= front);
        if ds.last() is Datagram {
            lemma_step(m, header, payload, now);
        }
        let (after, more) = after_call(m, ds.last());
        let stored = if accepted(ds, n) {
            m.stored(header, payload)
        } else {
            m.pending
        };
        let key = frame_key(header.stream_type, header.frame_index as int);
        lemma_frame_key(header.stream_type, header.frame_index as int);
        assert forall|k: u64| #[trigger] stored.contains_key(k) implies kept(
            ds,
            key_stream(k) as u8,
            key_index(k),
            stored[k],
        ) by {
            if m.pending.contains_key(k) {
                lemma_kept_with(ds, key_stream(k) as u8, key_index(k), m.pending[k]);
                assert(frame_key(key_stream(k) as u8, key_index(k)) == k);
            } else {
                assert(k == key);
                assert forall|j: int| 0 <= j < n implies !(#[trigger] for_frame(
                    ds,
                    j,
                    header.stream_type,
                    header.frame_index as int,
                )) by {
                    lemma_accepted_stays(ds, j);
                    if for_frame(ds, j, header.stream_type, header.frame_index as int) {
                        assert(accepted(front, j));
                        assert(passed(m, key));
                    }
                }
                lemma_kept_new(ds);
            }
        }
        assert forall|k: u64| #[trigger] after.pending.contains_key(k) implies kept(
            ds,
            key_stream(k) as u8,
            key_index(k),
            after.pending[k],
        ) by {
            assert(stored.contains_key(k));
        }
        assert forall|k: int| #[trigger] accepted(ds, k) implies ({
            let of = frame_key(ds[k]->header.stream_type, ds[k]->header.frame_index as int);
            after.pending.contains_key(of) || passed(after, of)
        }) by {
            let of = frame_key(ds[k]->header.stream_type, ds[k]->header.frame_index as int);
            lemma_frame_key(ds[k]->header.stream_type, ds[k]->header.frame_index as int);
            if k < n {
                lemma_accepted_stays(ds, k);
                assert(accepted(front, k));
                if m.pending.contains_key(of) {
                    assert(stored.contains_key(of));
                } else {
                    assert(passed(m, of));
                }
            } else {
                assert(stored.contains_key(of));
            }
        }
        lemma_frames_as_sent(ds, m, after, stored, more);
    }
}

/// The frames of one more call are as they were sent, as the earlier ones
/// are.
proof fn lemma_frames_as_sent(
    ds: Seq<Call>,
    m: AssemblerModel,
    after: AssemblerModel,
    stored: Map<u64, PendingView>,
    more: Seq<FrameView>,
)
    requires
        ds.len() > 0,
        faithful(ds.drop_last()),
        m == state_after(ds.drop_last()),
        stored == (if ds.last() is Datagram && accepts(m, ds.last()->header) {
            m.stored(ds.last()->header, ds.last()->payload)
        } else {
            m.pending
        }),
        if ds.last() is Datagram {
            stepped(m, ds.last()->header, ds.last()->payload, ds.last()->now, after, more)
        } else {
            more.len() == 0
        },
        frames_of(ds) == frames_of(ds.drop_last()) + more,
        forall|k: u64| #[trigger]
            stored.contains_key(k) ==> kept(ds, key_stream(k) as u8, key_index(k), stored[k]),
    ensures
        forall|i: int|
            0 <= i < frames_of(ds).len() ==> was_sent(ds, #[trigger] frames_of(ds)[i]),
{
    let front = ds.drop_last();
    let earlier = frames_of(front);
    let frames = frames_of(ds);
    let header = ds.last()->header;
    let payload = ds.last()->payload;
    let now = ds.last()->now;
    assert forall|i: int| 0 <= i < frames.len() implies was_sent(ds, #[trigger] frames[i]) by {
        if i < earlier.len() {
            assert(frames[i] == earlier[i]);
            assert(was_sent(front, earlier[i]));
            let f = choose|f: int| as_sent(front, f, earlier[i]);
            lemma_as_sent_stays(ds, f, earlier[i]);
        } else {
            let r = more[i - earlier.len()];
            let from = m.cursor(header) as int;
            let to = delivery_end(m, header, payload);
            let recovery = Recovery {
                awaiting_keyframe: m.awaiting_keyframe,
                request_pending: m.request_pending,
            };
            law_delivery_in_order(stored, header.stream_type, from, to, now, recovery);
            let f = complete_indices(stored, header.stream_type, from, to)[i - earlier.len()];
            let key = frame_key(header.stream_type, f);
            lemma_frame_key(header.stream_type, f);
            assert(stored.contains_key(key));
            lemma_complete_as_sent(ds, f, stored[key], r);
        }
    }
}

/// Whatever arrives, in whatever order and interleaving, and whatever is
/// disrupted and requested in between, a frame that comes out is a frame as it
/// was sent: its payload is, slot by slot, that of the
/// first datagram accepted for the slot, and its timestamp, keyframe flag and
/// timings are those of the first datagram accepted for the frame. This
/// holds until the last index, past which the indices start over.
pub proof fn law_delivered_as_sent(ds: Seq<Call>, i: int)
    requires
        indices_below_last(ds),
        0 <= i < frames_of(ds).len(),
    ensures
        was_sent(ds, frames_of(ds)[i]),
{
    lemma_faithful(ds);
}

} // verus!
