//! Reassembly of datagram fragments into frames, delivered in order per
//! stream, and the decision when to ask the server for a keyframe.
use crate::clock::Clock;
use crate::transport::{
    frame_views, DatagramHeader, FrameView, ReassembledFrame, IDR_RATE_LIMIT_MS, IDR_RETRY_MS,
    MAX_PENDING_FRAMES, STREAM_TYPE_VIDEO,
};
use std::collections::HashMap;
use vstd::prelude::*;
use vstd::std_specs::iter::IteratorSpec;

verus! {

broadcast use vstd::std_specs::hash::group_hash_axioms;

/// A frame being assembled from fragments.
pub struct PendingFrame {
    /// Fragment slots (`None` = not yet received).
    fragments: Vec<Option<Vec<u8>>>,
    /// Number of fragments received so far.
    received_count: u16,
    /// Total fragments expected.
    fragment_count: u16,
    pts: u64,
    is_keyframe: bool,
    stream_type: u8,
    capture_us: u32,
    convert_us: u32,
    encode_us: u32,
}

/// What a [`PendingFrame`] holds, with its bytes as sequences.
#[verifier::ext_equal]
pub struct PendingView {
    pub fragments: Seq<Option<Seq<u8>>>,
    pub pts: u64,
    pub is_keyframe: bool,
    pub stream_type: u8,
    pub capture_us: u32,
    pub convert_us: u32,
    pub encode_us: u32,
}

/// The bytes in a fragment slot, if any.
pub open spec fn slot_view(slot: Option<Vec<u8>>) -> Option<Seq<u8>> {
    match slot {
        Some(bytes) => Some(bytes@),
        None => None,
    }
}

/// How many of the slots are filled.
spec fn filled(slots: Seq<Option<Vec<u8>>>) -> nat
    decreases slots.len(),
{
    if slots.len() == 0 {
        0
    } else {
        filled(slots.drop_last()) + (if slots.last() is Some {
            1nat
        } else {
            0nat
        })
    }
}

proof fn lemma_filled_bound(slots: Seq<Option<Vec<u8>>>)
    ensures
        filled(slots) <= slots.len(),
        filled(slots) == slots.len() <==> (forall|i: int|
            0 <= i < slots.len() ==> (#[trigger] slots[i]) is Some),
    decreases slots.len(),
{
    if slots.len() > 0 {
        let front = slots.drop_last();
        lemma_filled_bound(front);
        assert(forall|i: int| 0 <= i < front.len() ==> front[i] == slots[i]);
        if filled(slots) == slots.len() {
            assert forall|i: int| 0 <= i < slots.len() implies (#[trigger] slots[i]) is Some by {
                if i < front.len() {
                    assert(front[i] is Some);
                }
            }
        }
        if forall|i: int| 0 <= i < slots.len() ==> (#[trigger] slots[i]) is Some {
            assert forall|i: int| 0 <= i < front.len() implies (#[trigger] front[i]) is Some by {
                assert(slots[i] is Some);
            }
            assert(slots[slots.len() - 1] is Some);
        }
    }
}

proof fn lemma_filled_update(slots: Seq<Option<Vec<u8>>>, at: int, bytes: Vec<u8>)
    requires
        0 <= at < slots.len(),
        slots[at] is None,
    ensures
        filled(slots.update(at, Some(bytes))) == filled(slots) + 1,
    decreases slots.len(),
{
    let after = slots.update(at, Some(bytes));
    if at == slots.len() - 1 {
        assert(after.drop_last() =~= slots.drop_last());
    } else {
        lemma_filled_update(slots.drop_last(), at, bytes);
        assert(after.drop_last() =~= slots.drop_last().update(at, Some(bytes)));
    }
}

proof fn lemma_filled_none(slots: Seq<Option<Vec<u8>>>)
    requires
        forall|i: int| 0 <= i < slots.len() ==> (#[trigger] slots[i]) is None,
    ensures
        filled(slots) == 0,
    decreases slots.len(),
{
    if slots.len() > 0 {
        lemma_filled_none(slots.drop_last());
    }
}

impl PendingFrame {
    closed spec fn wf(self) -> bool {
        &&& self.fragments@.len() == self.fragment_count
        &&& self.received_count == filled(self.fragments@)
    }
}

impl View for PendingFrame {
    type V = PendingView;

    closed spec fn view(&self) -> PendingView {
        PendingView {
            fragments: self.fragments@.map_values(|slot: Option<Vec<u8>>| slot_view(slot)),
            pts: self.pts,
            is_keyframe: self.is_keyframe,
            stream_type: self.stream_type,
            capture_us: self.capture_us,
            convert_us: self.convert_us,
            encode_us: self.encode_us,
        }
    }
}

/// Every fragment of the frame has arrived.
pub open spec fn is_complete(frame: PendingView) -> bool {
    forall|i: int| 0 <= i < frame.fragments.len() ==> (#[trigger] frame.fragments[i]) is Some
}

/// The payload of a frame: its fragments in order of their index.
pub open spec fn joined(fragments: Seq<Option<Seq<u8>>>) -> Seq<u8>
    decreases fragments.len(),
{
    if fragments.len() == 0 {
        Seq::empty()
    } else {
        joined(fragments.drop_last()) + (match fragments.last() {
            Some(bytes) => bytes,
            None => Seq::empty(),
        })
    }
}

/// One more than the highest frame index.
pub const INDEX_END: u64 = 0x1_0000_0000;

/// The key of a frame among the pending ones: audio and video count their
/// frames independently, so the stream type is a part of it.
pub open spec fn frame_key(stream_type: u8, frame_index: int) -> u64 {
    (stream_type * INDEX_END + frame_index) as u64
}

/// The stream that a key belongs to.
pub open spec fn key_stream(key: u64) -> int {
    key as int / INDEX_END as int
}

/// The frame index in a key.
pub open spec fn key_index(key: u64) -> int {
    key as int % INDEX_END as int
}

pub proof fn lemma_frame_key(stream_type: u8, frame_index: int)
    requires
        0 <= frame_index < INDEX_END,
    ensures
        key_stream(frame_key(stream_type, frame_index)) == stream_type,
        key_index(frame_key(stream_type, frame_index)) == frame_index,
        frame_key(stream_type, frame_index) == stream_type * INDEX_END + frame_index,
{
}

/// Builds the key of a frame.
fn make_key(stream_type: u8, frame_index: u32) -> (key: u64)
    ensures
        key == frame_key(stream_type, frame_index as int),
        key_stream(key) == stream_type,
        key_index(key) == frame_index,
{
    (stream_type as u64) * INDEX_END + frame_index as u64
}

/// The state of a [`FrameAssembler`].
#[verifier::ext_equal]
pub struct AssemblerModel {
    /// In-progress frames by [`frame_key`].
    pub pending: Map<u64, PendingView>,
    /// The next frame index to deliver, per stream that has been seen.
    pub next_frame: Map<u8, u32>,
    /// Pending video frames above this number are an overflow.
    pub max_pending: nat,
    /// When the last keyframe request went out.
    pub last_idr_request: Option<u64>,
    /// Video continuity is broken and no keyframe has been delivered since.
    pub awaiting_keyframe: bool,
    /// A disruption whose keyframe request has not been issued yet.
    pub request_pending: bool,
}

/// Frame `i` of the stream is pending and has all its fragments.
pub open spec fn complete_at(pending: Map<u64, PendingView>, stream_type: u8, i: int) -> bool {
    &&& 0 <= i < INDEX_END
    &&& pending.contains_key(frame_key(stream_type, i))
    &&& is_complete(pending[frame_key(stream_type, i)])
}

/// Two past `i`, held at the highest index.
pub open spec fn two_past(i: int) -> int {
    if i + 2 < INDEX_END {
        i + 2
    } else {
        INDEX_END - 1
    }
}

/// The stream has moved at least two frames past `i`.
pub open spec fn overtaken(pending: Map<u64, PendingView>, stream_type: u8, i: int) -> bool {
    exists|j: int| two_past(i) <= j && #[trigger] complete_at(pending, stream_type, j)
}

/// In-order delivery moves past frame `i`: it is delivered, or it is lost.
pub open spec fn passes(pending: Map<u64, PendingView>, stream_type: u8, i: int) -> bool {
    complete_at(pending, stream_type, i) || overtaken(pending, stream_type, i)
}

/// Delivery that starts at `from` stops at `to`: the first frame that is
/// neither delivered nor lost.
pub open spec fn stops_at(
    pending: Map<u64, PendingView>,
    stream_type: u8,
    from: int,
    to: int,
) -> bool {
    &&& from <= to <= INDEX_END
    &&& forall|i: int| from <= i < to ==> #[trigger] passes(pending, stream_type, i)
    &&& to < INDEX_END ==> !passes(pending, stream_type, to)
}

/// Where delivery that starts at `from` stops.
pub open spec fn stop_index(pending: Map<u64, PendingView>, stream_type: u8, from: int) -> int {
    choose|to: int| stops_at(pending, stream_type, from, to)
}

/// Whether video continuity is broken, and whether its request is still owed.
pub struct Recovery {
    pub awaiting_keyframe: bool,
    pub request_pending: bool,
}

/// The frame that delivery makes of a pending one.
pub open spec fn delivered_frame(
    frame: PendingView,
    stream_type: u8,
    now: u64,
    recovery: Recovery,
) -> FrameView {
    FrameView {
        data: joined(frame.fragments),
        pts: frame.pts,
        is_keyframe: frame.is_keyframe,
        stream_type,
        capture_us: frame.capture_us,
        convert_us: frame.convert_us,
        encode_us: frame.encode_us,
        received_at: now,
        tainted: recovery.awaiting_keyframe && !frame.is_keyframe,
    }
}

/// Delivery of the frames `from <= i < to` of a stream: the complete ones
/// come out in order, the others are lost. A lost video frame breaks
/// continuity; a delivered video keyframe restores it.
pub open spec fn walk(
    pending: Map<u64, PendingView>,
    stream_type: u8,
    from: int,
    to: int,
    now: u64,
    recovery: Recovery,
) -> (Seq<FrameView>, Recovery)
    decreases to - from,
{
    if to <= from {
        (Seq::empty(), recovery)
    } else {
        let (frames, before) = walk(pending, stream_type, from, to - 1, now, recovery);
        if complete_at(pending, stream_type, to - 1) {
            let frame = pending[frame_key(stream_type, to - 1)];
            (
                frames.push(delivered_frame(frame, stream_type, now, before)),
                if stream_type == STREAM_TYPE_VIDEO && frame.is_keyframe {
                    Recovery { awaiting_keyframe: false, request_pending: false }
                } else {
                    before
                },
            )
        } else if stream_type == STREAM_TYPE_VIDEO {
            (frames, Recovery { awaiting_keyframe: true, request_pending: true })
        } else {
            (frames, before)
        }
    }
}

/// The pending frames without those of a stream in `from <= i < to`.
pub open spec fn without_range(
    pending: Map<u64, PendingView>,
    stream_type: u8,
    from: int,
    to: int,
) -> Map<u64, PendingView> {
    pending.remove_keys(
        Set::new(|k: u64| key_stream(k) == stream_type && from <= key_index(k) < to),
    )
}

/// The keys of the pending video frames.
pub open spec fn video_keys(pending: Map<u64, PendingView>) -> Set<u64> {
    pending.dom().filter(|k: u64| key_stream(k) == STREAM_TYPE_VIDEO)
}

/// Frame `i` is the pending video frame with the highest index.
pub open spec fn is_newest_video(pending: Map<u64, PendingView>, i: int) -> bool {
    &&& 0 <= i < INDEX_END
    &&& pending.contains_key(frame_key(STREAM_TYPE_VIDEO, i))
    &&& forall|k: u64| #[trigger] video_keys(pending).contains(k) ==> key_index(k) <= i
}

/// Whole milliseconds from `since` to `now`, in nanoseconds both; none if
/// `now` is the earlier one.
pub open spec fn elapsed_ms(since: u64, now: u64) -> int {
    if now >= since {
        (now - since) as int / 1_000_000
    } else {
        0
    }
}

/// The rate limit allows a keyframe request at `now`.
pub open spec fn limiter_open(last: Option<u64>, now: u64) -> bool {
    match last {
        Some(t) => elapsed_ms(t, now) >= IDR_RATE_LIMIT_MS,
        None => true,
    }
}

/// An unanswered keyframe request may be issued again at `now`.
pub open spec fn retry_open(last: Option<u64>, now: u64) -> bool {
    match last {
        Some(t) => elapsed_ms(t, now) >= IDR_RETRY_MS,
        None => true,
    }
}

/// The frame that a first fragment opens: all its slots are empty.
pub open spec fn opened_frame(header: DatagramHeader) -> PendingView {
    PendingView {
        fragments: Seq::new(header.fragment_count as nat, |i: int| None::<Seq<u8>>),
        pts: header.pts,
        is_keyframe: header.is_keyframe,
        stream_type: header.stream_type,
        capture_us: header.capture_us,
        convert_us: header.convert_us,
        encode_us: header.encode_us,
    }
}

/// The frame with a fragment put into its slot, if that slot exists and is
/// empty.
pub open spec fn with_fragment(frame: PendingView, index: int, payload: Seq<u8>) -> PendingView {
    if index < frame.fragments.len() && frame.fragments[index] is None {
        PendingView { fragments: frame.fragments.update(index, Some(payload)), ..frame }
    } else {
        frame
    }
}

/// The header cannot belong to any frame.
pub open spec fn malformed(header: DatagramHeader) -> bool {
    header.fragment_count == 0 || header.fragment_index >= header.fragment_count
}

impl AssemblerModel {
    /// The next index to deliver on the header's stream, which the first
    /// frame seen on a stream sets.
    pub open spec fn cursor(self, header: DatagramHeader) -> u32 {
        if self.next_frame.contains_key(header.stream_type) {
            self.next_frame[header.stream_type]
        } else {
            header.frame_index
        }
    }

    /// The pending frames with the datagram's fragment stored.
    pub open spec fn stored(self, header: DatagramHeader, payload: Seq<u8>) -> Map<
        u64,
        PendingView,
    > {
        let key = frame_key(header.stream_type, header.frame_index as int);
        let frame = if self.pending.contains_key(key) {
            self.pending[key]
        } else {
            opened_frame(header)
        };
        self.pending.insert(key, with_fragment(frame, header.fragment_index as int, payload))
    }

    /// In-order delivery on a stream: the complete frames up to the first
    /// one that is neither complete nor overtaken.
    pub open spec fn delivered(self, stream_type: u8, next: u32, now: u64) -> (
        AssemblerModel,
        Seq<FrameView>,
    ) {
        let to = stop_index(self.pending, stream_type, next as int);
        let (frames, after) = walk(
            self.pending,
            stream_type,
            next as int,
            to,
            now,
            Recovery {
                awaiting_keyframe: self.awaiting_keyframe,
                request_pending: self.request_pending,
            },
        );
        (
            AssemblerModel {
                pending: without_range(self.pending, stream_type, next as int, to),
                next_frame: self.next_frame.insert(stream_type, (to % INDEX_END as int) as u32),
                awaiting_keyframe: after.awaiting_keyframe,
                request_pending: after.request_pending,
                ..self
            },
            frames,
        )
    }

    /// Too many video frames are pending.
    pub open spec fn overflowing(self) -> bool {
        video_keys(self.pending).len() > self.max_pending
    }

    /// A video disruption: requests are owed until a keyframe is delivered.
    pub open spec fn disrupted(self) -> AssemblerModel {
        AssemblerModel { awaiting_keyframe: true, request_pending: true, ..self }
    }

    /// A keyframe request is due at `now`: a fresh one as soon as the rate
    /// limit allows, an unanswered one at the slower retry cadence.
    pub open spec fn request_due(self, now: u64) -> bool {
        &&& limiter_open(self.last_idr_request, now)
        &&& self.request_pending || (self.awaiting_keyframe && retry_open(
            self.last_idr_request,
            now,
        ))
    }

    /// The state after a request that is due has gone out.
    pub open spec fn requested(self, now: u64) -> AssemblerModel {
        AssemblerModel { last_idr_request: Some(now), request_pending: false, ..self }
    }

    /// Without the pending video frames; delivery resumes past the newest.
    pub open spec fn wiped(self) -> AssemblerModel {
        let newest = choose|i: int| is_newest_video(self.pending, i);
        AssemblerModel {
            pending: self.pending.remove_keys(video_keys(self.pending)),
            next_frame: self.next_frame.insert(
                STREAM_TYPE_VIDEO,
                ((newest + 1) % INDEX_END as int) as u32,
            ),
            ..self
        }
    }

    /// What a datagram does: the next state, the frames that come out, and
    /// whether to request a keyframe.
    pub open spec fn after_datagram(self, header: DatagramHeader, payload: Seq<u8>, now: u64) -> (
        AssemblerModel,
        Seq<FrameView>,
        bool,
    ) {
        if malformed(header) {
            (self, Seq::empty(), false)
        } else {
            let next = self.cursor(header);
            let seeded = AssemblerModel {
                next_frame: self.next_frame.insert(header.stream_type, next),
                ..self
            };
            if header.frame_index < next {
                (seeded, Seq::empty(), false)
            } else {
                let filled = AssemblerModel { pending: self.stored(header, payload), ..seeded };
                let (after, frames) = filled.delivered(header.stream_type, next, now);
                let settled = if after.overflowing() {
                    after.disrupted()
                } else {
                    after
                };
                if settled.request_due(now) {
                    if settled.overflowing() {
                        (settled.requested(now).wiped(), frames, true)
                    } else {
                        (settled.requested(now), frames, true)
                    }
                } else {
                    (settled, frames, false)
                }
            }
        }
    }
}

/// Collects datagram fragments into complete frames and delivers them in
/// order, per stream.
pub struct FrameAssembler {
    /// In-progress frames by [`frame_key`].
    pending: HashMap<u64, PendingFrame>,
    /// Next frame index expected per stream type.
    next_frame: HashMap<u8, u32>,
    /// Pending video frames above this number are an overflow.
    max_pending: usize,
    /// Last time a keyframe request was issued.
    last_idr_request: Option<u64>,
    /// Set from a video disruption until a keyframe is delivered.
    awaiting_keyframe: bool,
    /// Set from a video disruption until its request is issued.
    request_pending: bool,
    /// Where the current time is read.
    clock: Clock,
}

/// The views of a map of pending frames.
spec fn pending_views(pending: Map<u64, PendingFrame>) -> Map<u64, PendingView> {
    pending.map_values(|p: PendingFrame| p@)
}

impl View for FrameAssembler {
    type V = AssemblerModel;

    closed spec fn view(&self) -> AssemblerModel {
        AssemblerModel {
            pending: pending_views(self.pending@),
            next_frame: self.next_frame@,
            max_pending: self.max_pending as nat,
            last_idr_request: self.last_idr_request,
            awaiting_keyframe: self.awaiting_keyframe,
            request_pending: self.request_pending,
        }
    }
}

/// The fragment counts of the pending frames agree with their slots.
spec fn frames_wf(pending: Map<u64, PendingFrame>) -> bool {
    forall|k: u64|
        #![trigger pending[k]]
        #![trigger pending.contains_key(k)]
        pending.contains_key(k) ==> pending[k].wf()
}

impl AssemblerModel {
    /// Finitely many frames are pending, and each lies at or past the cursor
    /// of its stream.
    pub open spec fn wf(self) -> bool {
        &&& self.pending.dom().finite()
        &&& forall|k: u64| #[trigger]
            self.pending.contains_key(k) ==> {
                &&& key_stream(k) <= u8::MAX
                &&& self.next_frame.contains_key(key_stream(k) as u8)
                &&& key_index(k) >= self.next_frame[key_stream(k) as u8]
                &&& self.pending[k].stream_type == key_stream(k)
            }
    }
}

impl PendingFrame {
    /// Opens a frame from the first of its fragments.
    fn open(header: &DatagramHeader) -> (frame: PendingFrame)
        ensures
            frame.wf(),
            frame@ == opened_frame(*header),
    {
        let mut fragments: Vec<Option<Vec<u8>>> = Vec::new();
        let mut n: u16 = 0;
        while n < header.fragment_count
            invariant
                n <= header.fragment_count,
                fragments@.len() == n,
                forall|i: int| 0 <= i < n ==> (#[trigger] fragments@[i]) is None,
            decreases header.fragment_count - n,
        {
            fragments.push(None);
            n = n + 1;
        }
        proof {
            lemma_filled_none(fragments@);
        }
        let frame = PendingFrame {
            fragments,
            received_count: 0,
            fragment_count: header.fragment_count,
            pts: header.pts,
            is_keyframe: header.is_keyframe,
            stream_type: header.stream_type,
            capture_us: header.capture_us,
            convert_us: header.convert_us,
            encode_us: header.encode_us,
        };
        assert(frame@.fragments =~= opened_frame(*header).fragments);
        frame
    }

    /// Stores a fragment, unless its slot is taken or does not exist.
    fn store(&mut self, index: u16, payload: Vec<u8>)
        requires
            old(self).wf(),
        ensures
            final(self).wf(),
            final(self)@ == with_fragment(old(self)@, index as int, payload@),
    {
        let at: usize = index as usize;
        if at < self.fragments.len() && self.fragments[at].is_none() {
            proof {
                lemma_filled_update(self.fragments@, at as int, payload);
                lemma_filled_bound(self.fragments@.update(at as int, Some(payload)));
            }
            self.fragments.set(at, Some(payload));
            self.received_count = self.received_count + 1;
        }
        assert(self@.fragments =~= with_fragment(old(self)@, index as int, payload@).fragments);
    }

    /// Whether every fragment has arrived.
    fn complete(&self) -> (r: bool)
        requires
            self.wf(),
        ensures
            r == is_complete(self@),
    {
        proof {
            lemma_filled_bound(self.fragments@);
            if is_complete(self@) {
                assert forall|i: int| 0 <= i < self.fragments@.len() implies (
                #[trigger] self.fragments@[i]) is Some by {
                    assert(self@.fragments[i] is Some);
                }
            }
        }
        self.received_count == self.fragment_count
    }

    /// The fragments joined in order.
    fn join(&self) -> (data: Vec<u8>)
        ensures
            data@ == joined(self@.fragments),
    {
        let mut data: Vec<u8> = Vec::new();
        let mut n: usize = 0;
        assert(self@.fragments.take(0) =~= Seq::empty());
        while n < self.fragments.len()
            invariant
                n <= self.fragments.len(),
                self@.fragments.len() == self.fragments@.len(),
                data@ == joined(self@.fragments.take(n as int)),
            decreases self.fragments.len() - n,
        {
            proof {
                assert(self@.fragments.take(n + 1).drop_last() =~= self@.fragments.take(n as int));
                assert(self@.fragments.take(n + 1).last() == slot_view(self.fragments@[n as int]));
            }
            if let Some(bytes) = &self.fragments[n] {
                data.extend_from_slice(bytes.as_slice());
            }
            assert(data@ =~= joined(self@.fragments.take(n + 1)));
            n = n + 1;
        }
        assert(self@.fragments.take(n as int) =~= self@.fragments);
        data
    }
}

impl FrameAssembler {
    /// The assembler's internal state is consistent.
    pub closed spec fn wf(&self) -> bool {
        frames_wf(self.pending@) && self@.wf()
    }

    /// The clock that the assembler reads.
    pub closed spec fn time_source(&self) -> Clock {
        self.clock
    }

    /// The keys of the pending frames, in some order.
    fn pending_keys(&self) -> (keys: Vec<u64>)
        ensures
            keys@.no_duplicates(),
            forall|k: u64| keys@.contains(k) <==> #[trigger] self.pending@.contains_key(k),
    {
        let mut keys: Vec<u64> = Vec::new();
        let ghost all = vstd::std_specs::hash::spec_keys_iter(&self.pending).remaining();
        for key in it: self.pending.keys()
            invariant
                it.seq() == all,
                keys@ == all.unref().take(it.index() as int),
        {
            proof {
                assert(all.unref().take(it.index() + 1) =~= all.unref().take(
                    it.index() as int,
                ).push(*key));
            }
            keys.push(*key);
        }
        proof {
            assert(all.unref().take(all.len() as int) =~= all.unref());
            assert(keys@.to_set() == self.pending@.dom());
            assert forall|k: u64| keys@.contains(k) <==> #[trigger] self.pending@.contains_key(
                k,
            ) by {
                assert(keys@.to_set().contains(k) <==> keys@.contains(k));
            }
            assert forall|i: int, j: int|
                0 <= i < keys@.len() && 0 <= j < keys@.len() && i != j implies keys@[i]
                != keys@[j] by {
                assert(all[i] != all[j]);
            }
        }
        keys
    }

    /// Whether a complete frame of the stream has an index of at least
    /// `threshold`.
    fn complete_from(&self, stream_type: u8, threshold: u32) -> (r: bool)
        requires
            frames_wf(self.pending@),
        ensures
            r == exists|j: int|
                threshold <= j && #[trigger] complete_at(self@.pending, stream_type, j),
    {
        let keys = self.pending_keys();
        let mut n: usize = 0;
        while n < keys.len()
            invariant
                n <= keys.len(),
                frames_wf(self.pending@),
                forall|k: u64| keys@.contains(k) <==> #[trigger] self.pending@.contains_key(k),
                forall|i: int|
                    0 <= i < n ==> {
                        ||| key_stream(#[trigger] keys@[i]) != stream_type
                        ||| key_index(keys@[i]) < threshold
                        ||| !is_complete(self@.pending[keys@[i]])
                    },
            decreases keys.len() - n,
        {
            let key: u64 = keys[n];
            assert(keys@.contains(key));
            if key / INDEX_END == stream_type as u64 && key % INDEX_END >= threshold as u64 {
                if let Some(frame) = self.pending.get(&key) {
                    if frame.complete() {
                        proof {
                            assert(frame_key(stream_type, key_index(key)) == key);
                            assert(complete_at(self@.pending, stream_type, key_index(key)));
                        }
                        return true;
                    }
                }
            }
            n = n + 1;
        }
        proof {
            assert forall|j: int| threshold <= j implies !#[trigger] complete_at(
                self@.pending,
                stream_type,
                j,
            ) by {
                if complete_at(self@.pending, stream_type, j) {
                    let k = frame_key(stream_type, j);
                    lemma_frame_key(stream_type, j);
                    assert(self.pending@.contains_key(k));
                    assert(keys@.contains(k));
                    let i = keys@.index_of(k);
                    assert(keys@[i] == k);
                }
            }
        }
        false
    }

    /// The keys of the pending video frames, in some order.
    fn pending_video_keys(&self) -> (keys: Vec<u64>)
        ensures
            keys@.no_duplicates(),
            forall|k: u64| keys@.contains(k) <==> #[trigger] video_keys(self@.pending).contains(k),
            keys@.len() == video_keys(self@.pending).len(),
    {
        let all = self.pending_keys();
        let mut keys: Vec<u64> = Vec::new();
        let mut n: usize = 0;
        while n < all.len()
            invariant
                n <= all.len(),
                all@.no_duplicates(),
                keys@.no_duplicates(),
                forall|k: u64| #[trigger]
                    keys@.contains(k) <==> all@.take(n as int).contains(k) && key_stream(k)
                        == STREAM_TYPE_VIDEO,
            decreases all.len() - n,
        {
            let key: u64 = all[n];
            let ghost before = keys@;
            proof {
                assert(all@.take(n + 1) =~= all@.take(n as int).push(key));
                assert forall|k: u64| #[trigger]
                    all@.take(n + 1).contains(k) <==> all@.take(n as int).contains(k) || k
                        == key by {
                    vstd::seq_lib::lemma_seq_contains_after_push(all@.take(n as int), key, k);
                }
                if before.contains(key) {
                    assert(all@.take(n as int).contains(key));
                    let i = all@.take(n as int).index_of(key);
                    assert(all@[i] == all@[n as int]);
                }
            }
            if key / INDEX_END == STREAM_TYPE_VIDEO as u64 {
                keys.push(key);
                proof {
                    assert forall|k: u64| #[trigger]
                        keys@.contains(k) <==> before.contains(k) || k == key by {
                        vstd::seq_lib::lemma_seq_contains_after_push(before, key, k);
                    }
                }
            }
            n = n + 1;
        }
        proof {
            assert(all@.take(n as int) =~= all@);
            assert forall|k: u64| keys@.contains(k) <==> #[trigger] video_keys(
                self@.pending,
            ).contains(k) by {
                assert(self.pending@.contains_key(k) <==> self@.pending.contains_key(k));
            }
            assert(keys@.to_set() =~= video_keys(self@.pending));
            keys@.unique_seq_to_set();
        }
        keys
    }

    /// Takes a pending frame out and joins its fragments.
    fn assemble_frame(&mut self, key: u64, now: u64) -> (r: Option<ReassembledFrame>)
        requires
            frames_wf(old(self).pending@),
        ensures
            frames_wf(final(self).pending@),
            final(self)@ == (AssemblerModel {
                pending: old(self)@.pending.remove(key),
                ..old(self)@
            }),
            final(self).clock == old(self).clock,
            r is Some <==> old(self)@.pending.contains_key(key),
            r matches Some(frame) ==> {
                let pending = old(self)@.pending[key];
                frame@ == delivered_frame(
                    pending,
                    pending.stream_type,
                    now,
                    Recovery {
                        awaiting_keyframe: old(self)@.awaiting_keyframe,
                        request_pending: old(self)@.request_pending,
                    },
                )
            },
    {
        let taken = self.pending.remove(&key);
        assert(self@.pending =~= old(self)@.pending.remove(key));
        match taken {
            Some(frame) => {
                let data = frame.join();
                Some(
                    ReassembledFrame {
                        data,
                        pts: frame.pts,
                        is_keyframe: frame.is_keyframe,
                        stream_type: frame.stream_type,
                        capture_us: frame.capture_us,
                        convert_us: frame.convert_us,
                        encode_us: frame.encode_us,
                        received_at: now,
                        tainted: self.awaiting_keyframe && !frame.is_keyframe,
                    },
                )
            },
            None => None,
        }
    }

    /// Delivers complete frames in order starting from `next`, the cursor of
    /// the stream. A frame that the stream has moved two frames past is
    /// lost and skipped, which tolerates simple reordering.
    fn deliver_in_order(
        &mut self,
        stream_type: u8,
        next: u32,
        now: u64,
        completed: &mut Vec<ReassembledFrame>,
    )
        requires
            old(self).wf(),
            old(self)@.next_frame.contains_key(stream_type),
            old(self)@.next_frame[stream_type] == next,
        ensures
            final(self).wf(),
            final(self)@ == old(self)@.delivered(stream_type, next, now).0,
            final(self).clock == old(self).clock,
            frame_views(final(completed)@) == frame_views(old(completed)@) + old(self)@.delivered(
                stream_type,
                next,
                now,
            ).1,
            stops_at(
                old(self)@.pending,
                stream_type,
                next as int,
                stop_index(old(self)@.pending, stream_type, next as int),
            ),
    {
        let ghost from = next as int;
        let ghost mut pos = next as int;
        let ghost model = old(self)@;
        let ghost start = Recovery {
            awaiting_keyframe: model.awaiting_keyframe,
            request_pending: model.request_pending,
        };
        let ghost base = frame_views(completed@);
        let mut next: u32 = next;
        assert(self@.pending =~= without_range(model.pending, stream_type, from, pos));
        assert(frame_views(completed@) =~= base + Seq::<FrameView>::empty());
        loop
            invariant
                from <= pos <= INDEX_END,
                from < INDEX_END,
                next == pos % INDEX_END as int,
                model.wf(),
                model.next_frame.contains_key(stream_type),
                model.next_frame[stream_type] == from,
                frames_wf(self.pending@),
                self.clock == old(self).clock,
                self@ == (AssemblerModel {
                    pending: without_range(model.pending, stream_type, from, pos),
                    awaiting_keyframe: walk(
                        model.pending,
                        stream_type,
                        from,
                        pos,
                        now,
                        start,
                    ).1.awaiting_keyframe,
                    request_pending: walk(
                        model.pending,
                        stream_type,
                        from,
                        pos,
                        now,
                        start,
                    ).1.request_pending,
                    ..model
                }),
                frame_views(completed@) == base + walk(
                    model.pending,
                    stream_type,
                    from,
                    pos,
                    now,
                    start,
                ).0,
                forall|i: int|
                    from <= i < pos ==> #[trigger] passes(model.pending, stream_type, i),
            ensures
                stops_at(model.pending, stream_type, from, pos),
            decreases INDEX_END - pos,
        {
            let key: u64 = make_key(stream_type, next);
            let ghost here = self@;
            let ghost frames_here = completed@;
            let whole: bool = match self.pending.get(&key) {
                Some(frame) => frame.complete(),
                None => false,
            };
            proof {
                lemma_after_range(model, stream_type, from, pos);
                assert(here.pending.contains_key(key) <==> self.pending@.contains_key(key));
                if pos < INDEX_END {
                    assert(key == frame_key(stream_type, pos));
                    assert(complete_at(here.pending, stream_type, pos) <==> whole);
                    assert(complete_at(model.pending, stream_type, pos) <==> whole);
                }
            }
            if whole {
                if let Some(frame) = self.assemble_frame(key, now) {
                    if stream_type == STREAM_TYPE_VIDEO && frame.is_keyframe {
                        self.awaiting_keyframe = false;
                        self.request_pending = false;
                    }
                    completed.push(frame);
                    assert(frame_views(completed@) =~= frame_views(frames_here).push(frame@));
                }
                proof {
                    assert(passes(model.pending, stream_type, pos));
                    assert(self@.pending =~= without_range(
                        model.pending,
                        stream_type,
                        from,
                        pos + 1,
                    ));
                    pos = pos + 1;
                }
                next = next.wrapping_add(1);
                continue;
            }
            let lost: bool = self.complete_from(stream_type, next.saturating_add(2));
            if lost {
                proof {
                    let j = choose|j: int|
                        next.saturating_add(2) <= j && #[trigger] complete_at(
                            here.pending,
                            stream_type,
                            j,
                        );
                    lemma_frame_key(stream_type, j);
                    assert(pos < INDEX_END);
                    assert(!complete_at(model.pending, stream_type, pos));
                }
                self.pending.remove(&key);
                if stream_type == STREAM_TYPE_VIDEO {
                    self.awaiting_keyframe = true;
                    self.request_pending = true;
                }
                proof {
                    assert(self@.pending =~= here.pending.remove(key));
                    assert(passes(model.pending, stream_type, pos));
                    assert(self@.pending =~= without_range(
                        model.pending,
                        stream_type,
                        from,
                        pos + 1,
                    ));
                    pos = pos + 1;
                }
                next = next.wrapping_add(1);
                continue;
            }
            break;
        }
        proof {
            lemma_stop_unique(
                model.pending,
                stream_type,
                from,
                pos,
                stop_index(model.pending, stream_type, from),
            );
        }
        self.next_frame.insert(stream_type, next);
        proof {
            assert(self@.next_frame =~= model.next_frame.insert(stream_type, next));
            lemma_remove_keys_finite(
                model.pending,
                Set::new(|k: u64| key_stream(k) == stream_type && from <= key_index(k) < pos),
            );
        }
    }
}

/// Removing the frames in `from <= i < pos` leaves the rest of the stream,
/// and nothing of it once the last index is passed.
proof fn lemma_after_range(model: AssemblerModel, stream_type: u8, from: int, pos: int)
    requires
        model.wf(),
        model.next_frame.contains_key(stream_type),
        model.next_frame[stream_type] == from,
        0 <= from <= pos <= INDEX_END,
    ensures
        pos < INDEX_END ==> {
            let rest = without_range(model.pending, stream_type, from, pos);
            &&& forall|j: int|
                pos <= j ==> (#[trigger] complete_at(rest, stream_type, j) <==> complete_at(
                    model.pending,
                    stream_type,
                    j,
                ))
            &&& overtaken(model.pending, stream_type, pos) <==> exists|j: int|
                two_past(pos) <= j && #[trigger] complete_at(rest, stream_type, j)
            &&& rest.contains_key(frame_key(stream_type, pos)) <==> model.pending.contains_key(
                frame_key(stream_type, pos),
            )
            &&& without_range(model.pending, stream_type, from, pos + 1) == rest.remove(
                frame_key(stream_type, pos),
            )
        },
        pos == INDEX_END ==> forall|k: u64|
            key_stream(k) == stream_type ==> !#[trigger] without_range(
                model.pending,
                stream_type,
                from,
                pos,
            ).contains_key(k),
{
    let rest = without_range(model.pending, stream_type, from, pos);
    if pos < INDEX_END {
        assert forall|j: int| pos <= j implies (#[trigger] complete_at(rest, stream_type, j)
            <==> complete_at(model.pending, stream_type, j)) by {
            if j < INDEX_END {
                lemma_frame_key(stream_type, j);
            }
        }
        assert(overtaken(model.pending, stream_type, pos) ==> exists|j: int|
            two_past(pos) <= j && #[trigger] complete_at(rest, stream_type, j)) by {
            if overtaken(model.pending, stream_type, pos) {
                let j = choose|j: int|
                    two_past(pos) <= j && #[trigger] complete_at(model.pending, stream_type, j);
                assert(complete_at(rest, stream_type, j));
            }
        }
        assert forall|j: int|
            two_past(pos) <= j && #[trigger] complete_at(rest, stream_type, j) implies overtaken(
            model.pending,
            stream_type,
            pos,
        ) by {
            assert(complete_at(model.pending, stream_type, j));
        }
        lemma_frame_key(stream_type, pos);
        assert forall|k: u64|
            key_stream(k) == stream_type && key_index(k) == pos implies k == frame_key(
            stream_type,
            pos,
        ) by {}
        assert(without_range(model.pending, stream_type, from, pos + 1) =~= rest.remove(
            frame_key(stream_type, pos),
        ));
    }
}

/// Removing keys from a finite map leaves it finite.
pub proof fn lemma_remove_keys_finite(pending: Map<u64, PendingView>, keys: Set<u64>)
    requires
        pending.dom().finite(),
    ensures
        pending.remove_keys(keys).dom().finite(),
{
    assert(pending.remove_keys(keys).dom() =~= pending.dom().difference(keys));
}

proof fn lemma_stop_unique(
    pending: Map<u64, PendingView>,
    stream_type: u8,
    from: int,
    a: int,
    b: int,
)
    requires
        stops_at(pending, stream_type, from, a),
        stops_at(pending, stream_type, from, b),
    ensures
        a == b,
{
    if a < b {
        assert(passes(pending, stream_type, a));
    }
    if b < a {
        assert(passes(pending, stream_type, b));
    }
}

/// Whole milliseconds from `since` to `now`, in nanoseconds both.
fn millis_between(since: u64, now: u64) -> (ms: u64)
    ensures
        ms == elapsed_ms(since, now),
{
    if now >= since {
        (now - since) / 1_000_000
    } else {
        0
    }
}

impl FrameAssembler {
    /// An assembler that has seen nothing, with a clock of its own.
    pub fn new() -> (assembler: FrameAssembler)
        ensures
            assembler.wf(),
            assembler@ == AssemblerModel::initial(),
    {
        FrameAssembler::with_clock(Clock::start())
    }

    /// An assembler that has seen nothing and reads the given clock.
    pub fn with_clock(clock: Clock) -> (assembler: FrameAssembler)
        ensures
            assembler.wf(),
            assembler@ == AssemblerModel::initial(),
            assembler.time_source() == clock,
    {
        let assembler = FrameAssembler {
            pending: HashMap::new(),
            next_frame: HashMap::new(),
            max_pending: MAX_PENDING_FRAMES,
            last_idr_request: None,
            awaiting_keyframe: false,
            request_pending: false,
            clock,
        };
        assert(assembler@.pending =~= Map::empty());
        assembler
    }

    /// The number of pending video frames.
    pub fn video_pending(&self) -> (n: usize)
        ensures
            n == video_keys(self@.pending).len(),
    {
        self.pending_video_keys().len()
    }

    /// The next frame index to deliver on a stream that has been seen.
    pub fn next_frame(&self, stream_type: u8) -> (next: Option<u32>)
        ensures
            next == (if self@.next_frame.contains_key(stream_type) {
                Some(self@.next_frame[stream_type])
            } else {
                None
            }),
    {
        match self.next_frame.get(&stream_type) {
            Some(next) => Some(*next),
            None => None,
        }
    }

    /// Records a video disruption (lost frame, decoder backpressure drop,
    /// decode failure, pending overflow): keyframe requests are owed until
    /// the next keyframe is delivered.
    pub fn note_disruption(&mut self)
        requires
            old(self).wf(),
        ensures
            final(self).wf(),
            final(self).time_source() == old(self).time_source(),
            final(self)@ == old(self)@.disrupted(),
    {
        self.awaiting_keyframe = true;
        self.request_pending = true;
    }

    /// Checks the rate limit at `now`. A request that it allows counts as
    /// issued.
    pub fn should_request_idr_at(&mut self, now: u64) -> (r: bool)
        requires
            old(self).wf(),
        ensures
            final(self).wf(),
            final(self).time_source() == old(self).time_source(),
            r == limiter_open(old(self)@.last_idr_request, now),
            final(self)@ == (if r {
                AssemblerModel { last_idr_request: Some(now), ..old(self)@ }
            } else {
                old(self)@
            }),
    {
        if let Some(last) = self.last_idr_request {
            if millis_between(last, now) < IDR_RATE_LIMIT_MS {
                return false;
            }
        }
        self.last_idr_request = Some(now);
        true
    }

    /// Checks the rate limit now. A request that it allows counts as issued.
    pub fn should_request_idr(&mut self) -> (r: bool)
        requires
            old(self).wf(),
        ensures
            final(self).wf(),
            final(self).time_source() == old(self).time_source(),
            exists|now: u64|
                {
                    &&& r == #[trigger] limiter_open(old(self)@.last_idr_request, now)
                    &&& final(self)@ == (if r {
                        AssemblerModel { last_idr_request: Some(now), ..old(self)@ }
                    } else {
                        old(self)@
                    })
                },
    {
        let now: u64 = self.clock.now();
        self.should_request_idr_at(now)
    }

    /// Whether an unanswered request may be issued again at `now`.
    fn retry_due(&self, now: u64) -> (r: bool)
        ensures
            r == retry_open(self@.last_idr_request, now),
    {
        match self.last_idr_request {
            Some(last) => millis_between(last, now) >= IDR_RETRY_MS,
            None => true,
        }
    }

    /// Records an external disruption and decides whether to send the
    /// request at `now`. A request that the rate limit defers is issued
    /// from the datagram path as soon as the limit allows.
    pub fn request_idr_now_at(&mut self, now: u64) -> (r: bool)
        requires
            old(self).wf(),
        ensures
            final(self).wf(),
            final(self).time_source() == old(self).time_source(),
            r == limiter_open(old(self)@.last_idr_request, now),
            final(self)@ == (if r {
                old(self)@.disrupted().requested(now)
            } else {
                old(self)@.disrupted()
            }),
    {
        self.note_disruption();
        if self.should_request_idr_at(now) {
            self.request_pending = false;
            return true;
        }
        false
    }

    /// Records an external disruption and decides whether to send the
    /// request now.
    pub fn request_idr_now(&mut self) -> (r: bool)
        requires
            old(self).wf(),
        ensures
            final(self).wf(),
            final(self).time_source() == old(self).time_source(),
            exists|now: u64|
                {
                    &&& r == #[trigger] limiter_open(old(self)@.last_idr_request, now)
                    &&& final(self)@ == (if r {
                        old(self)@.disrupted().requested(now)
                    } else {
                        old(self)@.disrupted()
                    })
                },
    {
        let now: u64 = self.clock.now();
        self.request_idr_now_at(now)
    }

    /// Drops the pending video frames. Delivery resumes past the newest of
    /// them, so a straggler cannot move the cursor back.
    fn wipe_video(&mut self)
        requires
            old(self).wf(),
            video_keys(old(self)@.pending).len() > 0,
        ensures
            final(self).wf(),
            final(self).time_source() == old(self).time_source(),
            final(self)@ == old(self)@.wiped(),
            exists|i: int| is_newest_video(old(self)@.pending, i),
    {
        let keys = self.pending_video_keys();
        let ghost model = self@;
        let mut newest: u32 = 0;
        let mut n: usize = 0;
        proof {
            assert(keys@.contains(keys@[0]));
        }
        while n < keys.len()
            invariant
                n <= keys.len(),
                keys.len() > 0,
                forall|k: u64| keys@.contains(k) <==> #[trigger] video_keys(model.pending).contains(
                    k,
                ),
                keys@.no_duplicates(),
                model == old(self)@,
                model.wf(),
                frames_wf(self.pending@),
                self.clock == old(self).clock,
                self@ == (AssemblerModel {
                    pending: model.pending.remove_keys(keys@.take(n as int).to_set()),
                    ..model
                }),
                forall|i: int| 0 <= i < n ==> key_index(#[trigger] keys@[i]) <= newest,
                n > 0 ==> keys@.contains(newest as u64),
            decreases keys.len() - n,
        {
            let key: u64 = keys[n];
            let ghost before = self@.pending;
            assert(keys@.contains(key));
            assert(video_keys(model.pending).contains(key));
            assert(key_stream(key) == 0);
            assert(key == key_index(key));
            let index: u32 = (key % INDEX_END) as u32;
            if n == 0 || index > newest {
                newest = index;
            }
            self.pending.remove(&key);
            proof {
                assert(self@.pending =~= before.remove(key));
                assert(keys@.take(n + 1) =~= keys@.take(n as int).push(key));
                assert(keys@.take(n + 1).to_set() =~= keys@.take(n as int).to_set().insert(key)) by {
                    assert forall|k: u64| #[trigger]
                        keys@.take(n + 1).contains(k) <==> keys@.take(n as int).contains(k) || k
                            == key by {
                        vstd::seq_lib::lemma_seq_contains_after_push(keys@.take(n as int), key, k);
                    }
                }
                assert(self@.pending =~= model.pending.remove_keys(keys@.take(n + 1).to_set()));
            }
            n = n + 1;
        }
        proof {
            assert(keys@.take(n as int) =~= keys@);
            assert(keys@.to_set() =~= video_keys(model.pending));
            assert(video_keys(model.pending).contains(newest as u64));
            assert forall|k: u64| #[trigger]
                video_keys(model.pending).contains(k) implies key_index(k) <= newest by {
                assert(keys@.contains(k));
                assert(keys@[keys@.index_of(k)] == k);
            }
            lemma_frame_key(STREAM_TYPE_VIDEO, newest as int);
            assert(is_newest_video(model.pending, newest as int));
            lemma_newest_unique(
                model.pending,
                newest as int,
                choose|i: int| is_newest_video(model.pending, i),
            );
        }
        self.next_frame.insert(STREAM_TYPE_VIDEO, newest.wrapping_add(1));
        proof {
            assert(self@.next_frame =~= model.wiped().next_frame);
            assert(self@ =~= model.wiped());
            lemma_remove_keys_finite(model.pending, video_keys(model.pending));
        }
    }

    /// Processes a datagram fragment that arrived at `now`. Returns the
    /// frames that it completes or unblocks, in order, and whether to
    /// request a keyframe.
    pub fn process_datagram_at(
        &mut self,
        header: &DatagramHeader,
        payload: Vec<u8>,
        now: u64,
    ) -> (r: (Vec<ReassembledFrame>, bool))
        requires
            old(self).wf(),
        ensures
            final(self).wf(),
            final(self).time_source() == old(self).time_source(),
            final(self)@ == old(self)@.after_datagram(*header, payload@, now).0,
            frame_views(r.0@) == old(self)@.after_datagram(*header, payload@, now).1,
            r.1 == old(self)@.after_datagram(*header, payload@, now).2,
    {
        let mut completed: Vec<ReassembledFrame> = Vec::new();
        assert(frame_views(completed@) =~= Seq::empty());
        if header.fragment_count == 0 || header.fragment_index >= header.fragment_count {
            return (completed, false);
        }
        let next: u32 = match self.next_frame.get(&header.stream_type) {
            Some(next) => *next,
            None => header.frame_index,
        };
        self.next_frame.insert(header.stream_type, next);
        let ghost seeded = self@;
        if header.frame_index < next {
            return (completed, false);
        }
        let key: u64 = make_key(header.stream_type, header.frame_index);
        let mut frame = match self.pending.remove(&key) {
            Some(frame) => frame,
            None => PendingFrame::open(header),
        };
        frame.store(header.fragment_index, payload);
        self.pending.insert(key, frame);
        proof {
            assert(self@.pending =~= old(self)@.stored(*header, payload@));
            assert(self@ =~= AssemblerModel {
                pending: old(self)@.stored(*header, payload@),
                ..seeded
            });
        }
        self.deliver_in_order(header.stream_type, next, now, &mut completed);
        let overflow: bool = self.video_pending() > self.max_pending;
        if overflow {
            self.note_disruption();
        }
        let mut need_idr: bool = false;
        if self.request_pending {
            if self.should_request_idr_at(now) {
                self.request_pending = false;
                need_idr = true;
            }
        } else if self.awaiting_keyframe && self.retry_due(now) {
            need_idr = self.should_request_idr_at(now);
        }
        if need_idr && overflow {
            self.wipe_video();
        }
        (completed, need_idr)
    }

    /// Processes a datagram fragment as it arrives. Returns the frames that
    /// it completes or unblocks, in order, and whether to request a
    /// keyframe.
    pub fn process_datagram(&mut self, header: &DatagramHeader, payload: Vec<u8>) -> (r: (
        Vec<ReassembledFrame>,
        bool,
    ))
        requires
            old(self).wf(),
        ensures
            final(self).wf(),
            final(self).time_source() == old(self).time_source(),
            exists|now: u64|
                (final(self)@, frame_views(r.0@), r.1) == #[trigger] old(self)@.after_datagram(
                    *header,
                    payload@,
                    now,
                ),
    {
        let now: u64 = self.clock.now();
        self.process_datagram_at(header, payload, now)
    }
}

impl Default for FrameAssembler {
    fn default() -> (assembler: FrameAssembler)
        ensures
            assembler.wf(),
            assembler@ == AssemblerModel::initial(),
    {
        FrameAssembler::new()
    }
}

/// Finitely many frames are pending in an assembler, and each lies at or past
/// the cursor of its stream.
pub proof fn law_pending_past_cursor(assembler: &FrameAssembler)
    requires
        assembler.wf(),
    ensures
        assembler@.wf(),
{
}

impl AssemblerModel {
    /// The state of an assembler that has seen nothing.
    pub open spec fn initial() -> AssemblerModel {
        AssemblerModel {
            pending: Map::empty(),
            next_frame: Map::empty(),
            max_pending: MAX_PENDING_FRAMES as nat,
            last_idr_request: None,
            awaiting_keyframe: false,
            request_pending: false,
        }
    }
}

proof fn lemma_newest_unique(pending: Map<u64, PendingView>, a: int, b: int)
    requires
        is_newest_video(pending, a),
        is_newest_video(pending, b),
    ensures
        a == b,
{
    lemma_frame_key(STREAM_TYPE_VIDEO, a);
    lemma_frame_key(STREAM_TYPE_VIDEO, b);
    assert(video_keys(pending).contains(frame_key(STREAM_TYPE_VIDEO, a)));
    assert(video_keys(pending).contains(frame_key(STREAM_TYPE_VIDEO, b)));
}

} // verus!
