//! The client's side of a session: handshake, and what becomes of datagrams
//! and of the frames that they complete.
use crate::clock::Clock;
use crate::config::Codec;
use crate::messages::{enc_control, read_control, read_header};
use crate::receiver::{
    law_pending_past_cursor, limiter_open, AssemblerModel, FrameAssembler,
};
use crate::queue::{frame_view, FrameQueue};
use crate::stream_laws::{after_call, Call};
use crate::text::{chars_of, copy_text, string_of};
use crate::transport::{
    deserialize_control_message, deserialize_header, deserialize_session_response_compat,
    frame_views, framed, is_serialization_error, read_response_compat, serialize_control_message,
    ControlMessage, ControlView, DatagramHeader, FrameView, ReassembledFrame, TransportError,
    STREAM_TYPE_AUDIO, STREAM_TYPE_VIDEO,
};
use vstd::prelude::*;

verus! {

/// The largest session response that is accepted, in bytes.
pub const MAX_RESPONSE_LEN: u32 = 65536;

/// Session parameters requested by the client.
#[derive(Debug, Clone, Copy, PartialEq, Eq, Structural)]
pub struct SessionRequest {
    /// Desired video width.
    pub width: u32,
    /// Desired video height.
    pub height: u32,
    /// Desired framerate.
    pub framerate: u32,
    /// Desired codec.
    pub codec: Codec,
    /// Desired bitrate in Mbps; 0 = the server's default.
    pub bitrate_mbps: u32,
}

/// Session parameters confirmed by the server.
#[derive(Debug, Clone, PartialEq, Eq)]
pub struct SessionParams {
    /// Confirmed video width in pixels.
    pub width: u32,
    /// Confirmed video height in pixels.
    pub height: u32,
    /// Confirmed framerate.
    pub framerate: u32,
    /// Bitrate in Mbps.
    pub bitrate_mbps: u32,
    /// Confirmed video codec: what the server actually encodes with, and
    /// what the decoder must use.
    pub codec: Codec,
    /// Maximum datagram payload size for the connection.
    pub max_datagram_size: u16,
    /// Server command line, sanitized of addresses and ports.
    pub server_command: String,
    /// Number of audio channels the server encodes (1, 2, 6, or 8).
    pub audio_channels: u16,
}

impl SessionRequest {
    /// The message that asks for the session.
    pub open spec fn message(self) -> ControlView {
        ControlView::SessionRequest {
            width: self.width,
            height: self.height,
            framerate: self.framerate,
            codec: self.codec,
            bitrate_mbps: self.bitrate_mbps,
        }
    }
}

/// The bytes that ask for a session.
pub fn request_bytes(request: &SessionRequest) -> (r: Result<Vec<u8>, TransportError>)
    ensures
        r is Ok && r->Ok_0@ == framed(enc_control(request.message())),
{
    let msg = ControlMessage::SessionRequest {
        width: request.width,
        height: request.height,
        framerate: request.framerate,
        codec: request.codec,
        bitrate_mbps: request.bitrate_mbps,
    };
    proof {
        crate::wire::lemma_groups();
        crate::wire::lemma_varint_len(0, 5);
        crate::wire::lemma_varint_len(request.width as nat, 5);
        crate::wire::lemma_varint_len(request.height as nat, 5);
        crate::wire::lemma_varint_len(request.framerate as nat, 5);
        crate::wire::lemma_varint_len(crate::messages::codec_tag(request.codec), 5);
        crate::wire::lemma_varint_len(request.bitrate_mbps as nat, 5);
        assert(enc_control(msg@).len() <= 30);
    }
    serialize_control_message(&msg)
}

/// The length of the response, from the four bytes before it. One that is
/// too large is refused.
pub fn response_len(prefix: &[u8]) -> (r: Result<usize, TransportError>)
    requires
        prefix@.len() == 4,
    ensures
        ({
            let len = vstd::bytes::spec_u32_from_le_bytes(prefix@);
            match r {
                Ok(n) => len <= MAX_RESPONSE_LEN && n == len,
                Err(e) => len > MAX_RESPONSE_LEN && e is SessionError && e->SessionError_0@
                    == "session response too large"@,
            }
        }),
{
    let len: u32 = vstd::bytes::u32_from_le_bytes(prefix);
    if len > MAX_RESPONSE_LEN {
        return Err(TransportError::SessionError(copy_text("session response too large")));
    }
    Ok(len as usize)
}

/// What `format!` prints of a message with `{:?}`.
pub uninterp spec fn debug_form(msg: ControlView) -> Seq<char>;

/// Prints a message with `{:?}` through `format!`. The text depends on what
/// the message holds and on nothing else; it is named, not stated.
#[verifier::external_body]
fn debug_text(msg: &ControlMessage) -> (text: String)
    ensures
        text@ == debug_form(msg@),
{
    format!("{:?}", msg)
}

/// The error for a message that is no session response, by how it is printed.
pub fn unexpected_message(shown: &str) -> (e: TransportError)
    ensures
        e is SessionError,
        e->SessionError_0@ == "expected SessionResponse, got "@ + shown@,
{
    let mut text = copy_text("expected SessionResponse, got ");
    text.append(shown);
    TransportError::SessionError(text)
}

/// The session parameters hold what the response says.
pub open spec fn params_match(params: SessionParams, response: ControlView) -> bool {
    &&& response matches ControlView::SessionResponse {
        width,
        height,
        framerate,
        bitrate_mbps,
        codec,
        max_datagram_size,
        cursor_embedded,
        server_command,
        audio_channels,
    }
    &&& params.width == width
    &&& params.height == height
    &&& params.framerate == framerate
    &&& params.bitrate_mbps == bitrate_mbps
    &&& params.codec == codec
    &&& params.max_datagram_size == max_datagram_size
    &&& params.server_command@ == server_command
    &&& params.audio_channels == audio_channels
}

/// The session parameters from the body of the response. The response may
/// have the shape of a server that only knows stereo. A body that is none is
/// a session error: another message is named in it as it is printed for
/// debugging, else it says why the body cannot be read.
pub fn session_params(body: &[u8]) -> (r: Result<SessionParams, TransportError>)
    ensures
        match (read_response_compat(body@), r) {
            (Ok(msg), Ok(params)) => params_match(params, msg),
            (Err(_), Err(e)) => e is SessionError && e->SessionError_0@ == (match read_control(
                body@,
            ) {
                Ok((msg, _)) => "expected SessionResponse, got "@ + debug_form(msg),
                Err(fault) => "control deserialize: "@ + fault.text(),
            }),
            _ => false,
        },
{
    match deserialize_session_response_compat(body) {
        Ok(
            ControlMessage::SessionResponse {
                width,
                height,
                framerate,
                bitrate_mbps,
                codec,
                max_datagram_size,
                cursor_embedded: _,
                server_command,
                audio_channels,
            },
        ) => Ok(
            SessionParams {
                width,
                height,
                framerate,
                bitrate_mbps,
                codec,
                max_datagram_size,
                server_command,
                audio_channels,
            },
        ),
        _ => match deserialize_control_message(body) {
            Ok(other) => Err(unexpected_message(debug_text(&other).as_str())),
            Err(TransportError::SerializationError(reason)) => Err(
                TransportError::SessionError(reason),
            ),
            Err(e) => Err(e),
        },
    }
}

/// An address without the brackets around it, if it has both.
pub open spec fn bare_address(address: Seq<char>) -> Seq<char> {
    if address.len() >= 2 && address[0] == '[' && address.last() == ']' {
        address.subrange(1, address.len() - 1)
    } else {
        address
    }
}

/// An address without the brackets that may stand around an IPv6 literal.
pub fn strip_brackets(address: &str) -> (bare: String)
    ensures
        bare@ == bare_address(address@),
{
    let chars = chars_of(address);
    if chars.len() >= 2 && chars[0] == '[' && chars[chars.len() - 1] == ']' {
        string_of(vstd::slice::slice_subrange(chars.as_slice(), 1, chars.len() - 1))
    } else {
        copy_text(address)
    }
}

/// Which of the resolved addresses to use: the first IPv4 one, or else the
/// first.
pub fn preferred_address(is_ipv4: &Vec<bool>) -> (r: Option<usize>)
    ensures
        match r {
            Some(i) => {
                &&& i < is_ipv4@.len()
                &&& is_ipv4@[i as int] ==> forall|j: int| 0 <= j < i ==> !#[trigger] is_ipv4@[j]
                &&& !is_ipv4@[i as int] ==> i == 0 && forall|j: int|
                    0 <= j < is_ipv4@.len() ==> !#[trigger] is_ipv4@[j]
            },
            None => is_ipv4@.len() == 0,
        },
{
    let mut n: usize = 0;
    while n < is_ipv4.len()
        invariant
            n <= is_ipv4.len(),
            forall|j: int| 0 <= j < n ==> !#[trigger] is_ipv4@[j],
        decreases is_ipv4.len() - n,
    {
        if is_ipv4[n] {
            return Some(n);
        }
        n = n + 1;
    }
    if is_ipv4.len() > 0 {
        Some(0)
    } else {
        None
    }
}

/// Receiver-side network counters, for the stats overlay. They count at
/// reassembly, so they reflect what arrives on the wire.
#[derive(Debug, Clone, Copy, PartialEq, Eq, Structural)]
pub struct NetStats {
    /// Total video payload bytes received (complete frames).
    pub video_bytes: u64,
    /// Total complete video frames received.
    pub video_frames: u64,
    /// Video frames dropped because the decoder was behind, or because they
    /// could not be decoded cleanly.
    pub video_dropped: u64,
}

impl Default for NetStats {
    fn default() -> (s: NetStats)
        ensures
            s == (NetStats { video_bytes: 0, video_frames: 0, video_dropped: 0 }),
    {
        NetStats { video_bytes: 0, video_frames: 0, video_dropped: 0 }
    }
}

/// A counter after an addition; it starts over at the end of its range.
pub open spec fn counted(n: u64, more: u64) -> u64 {
    if n + more <= u64::MAX {
        (n + more) as u64
    } else {
        (n + more - 0x1_0000_0000_0000_0000) as u64
    }
}

impl NetStats {
    /// The counters after a video frame of so many bytes arrived.
    pub open spec fn received(self, bytes: u64) -> NetStats {
        NetStats {
            video_bytes: counted(self.video_bytes, bytes),
            video_frames: counted(self.video_frames, 1),
            ..self
        }
    }

    /// The counters after a video frame was dropped.
    pub open spec fn dropped(self) -> NetStats {
        NetStats { video_dropped: counted(self.video_dropped, 1), ..self }
    }
}

/// Where a reassembled frame goes.
#[derive(Debug, Clone, Copy, PartialEq, Eq, Structural)]
pub enum Route {
    /// To the video decoder.
    Video,
    /// To the audio decoder.
    Audio,
    /// Nowhere: it was delivered while recovery is pending, and would decode
    /// into garbage.
    Tainted,
    /// Nowhere: its stream type is unknown.
    Unknown,
}

/// What came of handing a frame to a decoder without waiting.
#[derive(Debug, Clone, Copy, PartialEq, Eq, Structural)]
pub enum SendOutcome {
    Sent,
    /// The decoder is behind, and a frame was dropped.
    Full,
    /// The decoder is gone.
    Closed,
}

/// Where a frame goes.
pub open spec fn route_of(frame: FrameView) -> Route {
    if frame.stream_type == STREAM_TYPE_VIDEO {
        if frame.tainted {
            Route::Tainted
        } else {
            Route::Video
        }
    } else if frame.stream_type == STREAM_TYPE_AUDIO {
        Route::Audio
    } else {
        Route::Unknown
    }
}

/// The state of the receive loop.
pub struct ReceiveState {
    assembler: FrameAssembler,
    stats: NetStats,
    total_frames: u64,
    need_idr: bool,
    clock: Clock,
}

/// What a [`ReceiveState`] holds.
#[verifier::ext_equal]
pub struct ReceiveView {
    pub assembler: AssemblerModel,
    pub stats: NetStats,
    /// Frames that came out of reassembly so far.
    pub total_frames: u64,
    /// A keyframe request is to be sent when this datagram is done.
    pub need_idr: bool,
}

impl View for ReceiveState {
    type V = ReceiveView;

    closed spec fn view(&self) -> ReceiveView {
        ReceiveView {
            assembler: self.assembler@,
            stats: self.stats,
            total_frames: self.total_frames,
            need_idr: self.need_idr,
        }
    }
}

impl ReceiveView {
    pub open spec fn initial() -> ReceiveView {
        ReceiveView {
            assembler: AssemblerModel::initial(),
            stats: NetStats { video_bytes: 0, video_frames: 0, video_dropped: 0 },
            total_frames: 0,
            need_idr: false,
        }
    }

    /// A well-formed datagram was handed to reassembly.
    pub open spec fn assembled(self, header: DatagramHeader, payload: Seq<u8>, now: u64) -> (
        ReceiveView,
        Seq<FrameView>,
    ) {
        let (assembler, frames, need_idr) = self.assembler.after_datagram(header, payload, now);
        (ReceiveView { assembler, need_idr, ..self }, frames)
    }

    /// A frame came out of reassembly.
    pub open spec fn routed(self, frame: FrameView) -> ReceiveView {
        let stats = if frame.stream_type == STREAM_TYPE_VIDEO {
            let counted = self.stats.received(frame.data.len() as u64);
            if frame.tainted {
                counted.dropped()
            } else {
                counted
            }
        } else {
            self.stats
        };
        ReceiveView { stats, total_frames: counted(self.total_frames, 1), ..self }
    }

    /// A video frame was dropped because the decoder is behind: the gap would
    /// corrupt decoding, so a keyframe is due.
    pub open spec fn backpressure(self, now: u64) -> ReceiveView {
        let stats = self.stats.dropped();
        if self.need_idr {
            ReceiveView { stats, assembler: self.assembler.disrupted(), ..self }
        } else {
            let open = limiter_open(self.assembler.last_idr_request, now);
            ReceiveView {
                stats,
                assembler: if open {
                    self.assembler.disrupted().requested(now)
                } else {
                    self.assembler.disrupted()
                },
                need_idr: open,
                ..self
            }
        }
    }
}

impl ReceiveView {
    /// The decoder asks for a keyframe.
    pub open spec fn decoder_asks(self, now: u64) -> ReceiveView {
        ReceiveView {
            assembler: if limiter_open(self.assembler.last_idr_request, now) {
                self.assembler.disrupted().requested(now)
            } else {
                self.assembler.disrupted()
            },
            ..self
        }
    }
}

impl ReceiveState {
    /// Reassembly is consistent, and goes by the same clock.
    pub closed spec fn wf(&self) -> bool {
        self.assembler.wf() && self.assembler.time_source() == self.clock
    }

    /// The clock that frames are stamped with.
    pub closed spec fn time_source(&self) -> Clock {
        self.clock
    }

    /// Nothing has been received.
    pub fn new(clock: Clock) -> (state: ReceiveState)
        ensures
            state.wf(),
            state@ == ReceiveView::initial(),
            state.time_source() == clock,
    {
        ReceiveState {
            assembler: FrameAssembler::with_clock(clock),
            stats: NetStats::default(),
            total_frames: 0,
            need_idr: false,
            clock,
        }
    }

    /// The network counters.
    pub fn stats(&self) -> (s: NetStats)
        ensures
            s == self@.stats,
    {
        self.stats
    }

    /// How many frames came out of reassembly.
    pub fn total_frames(&self) -> (n: u64)
        ensures
            n == self@.total_frames,
    {
        self.total_frames
    }

    /// Takes a datagram that arrived at `now`. Returns the frames that come
    /// out, in order; or why its header cannot be read, and then nothing
    /// has changed.
    pub fn datagram_at(&mut self, datagram: &[u8], now: u64) -> (r: Result<
        Vec<ReassembledFrame>,
        TransportError,
    >)
        requires
            old(self).wf(),
        ensures
            final(self).wf(),
            final(self).time_source() == old(self).time_source(),
            match (read_header(datagram@), r) {
                (Ok((header, payload)), Ok(frames)) => (final(self)@, frame_views(frames@))
                    == old(self)@.assembled(header, payload, now),
                (Err(fault), Err(e)) => final(self)@ == old(self)@ && is_serialization_error(
                    e,
                    "header deserialize: "@ + fault.text(),
                ),
                _ => false,
            },
    {
        match deserialize_header(datagram) {
            Ok((header, payload)) => {
                let bytes = vstd::slice::slice_to_vec(payload);
                assert(bytes@ =~= payload@);
                let (frames, need_idr) = self.assembler.process_datagram_at(&header, bytes, now);
                self.need_idr = need_idr;
                Ok(frames)
            },
            Err(e) => Err(e),
        }
    }

    /// Takes a datagram as it arrives.
    pub fn datagram(&mut self, datagram: &[u8]) -> (r: Result<
        Vec<ReassembledFrame>,
        TransportError,
    >)
        requires
            old(self).wf(),
        ensures
            final(self).wf(),
            final(self).time_source() == old(self).time_source(),
            r is Ok <==> read_header(datagram@) is Ok,
            r matches Err(e) ==> final(self)@ == old(self)@ && is_serialization_error(
                e,
                "header deserialize: "@ + read_header(datagram@)->Err_0.text(),
            ),
            r matches Ok(frames) ==> exists|now: u64|
                (final(self)@, frame_views(frames@)) == #[trigger] old(self)@.assembled(
                    read_header(datagram@)->Ok_0.0,
                    read_header(datagram@)->Ok_0.1,
                    now,
                ),
    {
        let now: u64 = self.clock.now();
        self.datagram_at(datagram, now)
    }

    /// Counts a frame that came out of reassembly and says where it goes.
    pub fn route(&mut self, frame: &ReassembledFrame) -> (route: Route)
        requires
            old(self).wf(),
        ensures
            final(self).wf(),
            final(self).time_source() == old(self).time_source(),
            final(self)@ == old(self)@.routed(frame@),
            route == route_of(frame@),
    {
        self.total_frames = self.total_frames.wrapping_add(1);
        if frame.stream_type == STREAM_TYPE_VIDEO {
            self.stats.video_bytes = self.stats.video_bytes.wrapping_add(frame.data.len() as u64);
            self.stats.video_frames = self.stats.video_frames.wrapping_add(1);
            if frame.tainted {
                self.stats.video_dropped = self.stats.video_dropped.wrapping_add(1);
                return Route::Tainted;
            }
            Route::Video
        } else if frame.stream_type == STREAM_TYPE_AUDIO {
            Route::Audio
        } else {
            Route::Unknown
        }
    }

    /// Notes at `now` what came of handing a video frame to the decoder.
    /// Returns whether to go on.
    pub fn video_sent_at(&mut self, outcome: SendOutcome, now: u64) -> (go_on: bool)
        requires
            old(self).wf(),
        ensures
            final(self).wf(),
            final(self).time_source() == old(self).time_source(),
            go_on == (outcome != SendOutcome::Closed),
            final(self)@ == (if outcome == SendOutcome::Full {
                old(self)@.backpressure(now)
            } else {
                old(self)@
            }),
    {
        match outcome {
            SendOutcome::Sent => true,
            SendOutcome::Full => {
                self.stats.video_dropped = self.stats.video_dropped.wrapping_add(1);
                if !self.need_idr {
                    self.need_idr = self.assembler.request_idr_now_at(now);
                } else {
                    self.assembler.note_disruption();
                }
                true
            },
            SendOutcome::Closed => false,
        }
    }

    /// Notes what came of handing a video frame to the decoder.
    pub fn video_sent(&mut self, outcome: SendOutcome) -> (go_on: bool)
        requires
            old(self).wf(),
        ensures
            final(self).wf(),
            final(self).time_source() == old(self).time_source(),
            go_on == (outcome != SendOutcome::Closed),
            outcome == SendOutcome::Full ==> exists|now: u64|
                final(self)@ == #[trigger] old(self)@.backpressure(now),
            outcome != SendOutcome::Full ==> final(self)@ == old(self)@,
    {
        let now: u64 = self.clock.now();
        self.video_sent_at(outcome, now)
    }

    /// Queues a video frame for the decoder at `now`. If the queue is full,
    /// the decoder is behind: the oldest frame is dropped to make room, and
    /// returned.
    pub fn queue_video_at(
        &mut self,
        queue: &mut FrameQueue,
        frame: ReassembledFrame,
        now: u64,
    ) -> (dropped: Option<ReassembledFrame>)
        requires
            old(self).wf(),
            old(queue)@.wf(),
        ensures
            final(self).wf(),
            final(self).time_source() == old(self).time_source(),
            final(queue)@.wf(),
            final(queue)@ == old(queue)@.pushed(frame@),
            frame_view(dropped) == old(queue)@.dropped(),
            final(self)@ == (if old(queue)@.full() {
                old(self)@.backpressure(now)
            } else {
                old(self)@
            }),
    {
        let dropped = queue.push(frame);
        let outcome = if dropped.is_some() {
            SendOutcome::Full
        } else {
            SendOutcome::Sent
        };
        let _ = self.video_sent_at(outcome, now);
        dropped
    }

    /// Queues a video frame for the decoder.
    pub fn queue_video(&mut self, queue: &mut FrameQueue, frame: ReassembledFrame) -> (dropped:
        Option<ReassembledFrame>)
        requires
            old(self).wf(),
            old(queue)@.wf(),
        ensures
            final(self).wf(),
            final(self).time_source() == old(self).time_source(),
            final(queue)@.wf(),
            final(queue)@ == old(queue)@.pushed(frame@),
            frame_view(dropped) == old(queue)@.dropped(),
            old(queue)@.full() ==> exists|now: u64|
                final(self)@ == #[trigger] old(self)@.backpressure(now),
            !old(queue)@.full() ==> final(self)@ == old(self)@,
    {
        let now: u64 = self.clock.now();
        self.queue_video_at(queue, frame, now)
    }

    /// Notes what came of handing an audio frame to the decoder. A dropped
    /// one is a brief glitch that needs no keyframe. Returns whether to go
    /// on.
    pub fn audio_sent(&self, outcome: SendOutcome) -> (go_on: bool)
        ensures
            go_on == (outcome != SendOutcome::Closed),
    {
        match outcome {
            SendOutcome::Sent | SendOutcome::Full => true,
            SendOutcome::Closed => false,
        }
    }

    /// Whether a keyframe request is to be sent now that the datagram is
    /// done.
    pub fn take_request(&mut self) -> (send: bool)
        requires
            old(self).wf(),
        ensures
            final(self).wf(),
            final(self).time_source() == old(self).time_source(),
            send == old(self)@.need_idr,
            final(self)@ == (ReceiveView { need_idr: false, ..old(self)@ }),
    {
        let send: bool = self.need_idr;
        self.need_idr = false;
        send
    }

    /// The decoder asks for a keyframe at `now`. Returns whether to send the
    /// request right away; a deferred one goes out with a later datagram.
    pub fn decoder_request_at(&mut self, now: u64) -> (send: bool)
        requires
            old(self).wf(),
        ensures
            final(self).wf(),
            final(self).time_source() == old(self).time_source(),
            send == limiter_open(old(self)@.assembler.last_idr_request, now),
            final(self)@ == old(self)@.decoder_asks(now),
    {
        self.assembler.request_idr_now_at(now)
    }

    /// The decoder asks for a keyframe.
    pub fn decoder_request(&mut self) -> (send: bool)
        requires
            old(self).wf(),
        ensures
            final(self).wf(),
            final(self).time_source() == old(self).time_source(),
            exists|now: u64|
                send == #[trigger] limiter_open(old(self)@.assembler.last_idr_request, now)
                    && final(self)@ == old(self)@.decoder_asks(now),
    {
        let now: u64 = self.clock.now();
        self.decoder_request_at(now)
    }
}

/// Reassembly is in a consistent state throughout.
pub proof fn law_reassembly_consistent(state: &ReceiveState)
    requires
        state.wf(),
    ensures
        state@.assembler.wf(),
{
    law_pending_past_cursor(&state.assembler);
}

/// Only clean video frames reach the decoder: a tainted one is dropped, and
/// counted both as received and as dropped.
pub proof fn law_tainted_never_decoded(v: ReceiveView, frame: FrameView)
    requires
        frame.stream_type == STREAM_TYPE_VIDEO,
        frame.tainted,
    ensures
        route_of(frame) == Route::Tainted,
        v.routed(frame).stats.video_frames == counted(v.stats.video_frames, 1),
        v.routed(frame).stats.video_dropped == counted(v.stats.video_dropped, 1),
{
}

/// A video frame that the decoder could not take leaves recovery pending:
/// the request is on its way or owed.
pub proof fn law_backpressure_needs_keyframe(v: ReceiveView, now: u64)
    ensures
        v.backpressure(now).assembler.awaiting_keyframe,
        v.backpressure(now).need_idr || v.backpressure(now).assembler.request_pending,
        v.need_idr ==> v.backpressure(now).need_idr,
{
}

/// Whatever the receive loop does with reassembly is one of its calls, so what
/// holds of all sequences of calls holds of every session.
pub proof fn law_loop_makes_calls(v: ReceiveView, header: DatagramHeader, payload: Seq<u8>, now: u64)
    ensures
        ({
            let (after, frames) = after_call(
                v.assembler,
                Call::Datagram { header, payload, now },
            );
            v.assembled(header, payload, now).0.assembler == after && v.assembled(
                header,
                payload,
                now,
            ).1 == frames
        }),
        v.backpressure(now).assembler == after_call(
            v.assembler,
            if v.need_idr {
                Call::Disruption
            } else {
                Call::Request { at: now }
            },
        ).0,
        v.decoder_asks(now).assembler == after_call(v.assembler, Call::Request { at: now }).0,
{
}

/// Audio touches no counter and no recovery state.
pub proof fn law_audio_leaves_counters(v: ReceiveView, frame: FrameView)
    requires
        frame.stream_type != STREAM_TYPE_VIDEO,
    ensures
        v.routed(frame).stats == v.stats,
        v.routed(frame).assembler == v.assembler,
        v.routed(frame).need_idr == v.need_idr,
{
}

} // verus!
