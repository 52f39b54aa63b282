use crate::config::Codec;
use crate::input::{InputEvent, InputView};
use crate::messages::{
    enc_control, enc_header, enc_usb_header, put_control, put_header, put_usb_header, read_codec,
    read_control, read_header, read_usb_header, take_codec, take_control, take_header,
    take_usb_header,
};
use crate::text::copy_text;
use crate::wire::{
    read_bool, read_string, read_u16, read_u32, take_bool, take_string, take_u16, take_u32, Read,
    WireFault,
};
use vstd::prelude::*;

verus! {

/// Stream type tag for video datagrams.
pub const STREAM_TYPE_VIDEO: u8 = 0;

/// Stream type tag for audio datagrams.
pub const STREAM_TYPE_AUDIO: u8 = 1;

/// Maximum number of incomplete frames the assembler will buffer
/// before requesting an IDR.
pub const MAX_PENDING_FRAMES: usize = 8;

/// Minimum interval between IDR requests in milliseconds.
pub const IDR_RATE_LIMIT_MS: u64 = 100;

/// Minimum interval in milliseconds before an unanswered IDR request is
/// issued again. A keyframe is the largest frame on the wire and can take
/// well over the rate limit to arrive on a slow link.
pub const IDR_RETRY_MS: u64 = 500;

/// Upper bound on the encoded size of a [`DatagramHeader`], whatever its
/// field values.
pub const HEADER_SIZE_UPPER_BOUND: usize = 44;

/// Initial QUIC MTU for LAN streaming.
pub const STREAMING_INITIAL_MTU: u16 = 1452;

/// Outgoing datagram send buffer size (4 MiB).
pub const DATAGRAM_SEND_BUFFER_SIZE: usize = 4 * 1024 * 1024;

/// Header prepended to each QUIC datagram. The bytes after it are the
/// fragment payload.
#[derive(Debug, Clone, Copy, PartialEq, Eq, Structural)]
pub struct DatagramHeader {
    /// Stream type: 0 = video, 1 = audio.
    pub stream_type: u8,
    /// Monotonically increasing frame index (per stream type).
    pub frame_index: u32,
    /// 0-based index of this fragment within the frame.
    pub fragment_index: u16,
    /// Total number of fragments in this frame.
    pub fragment_count: u16,
    /// Presentation timestamp (frame number from encoder).
    pub pts: u64,
    /// True for IDR/keyframes (video only, always false for audio).
    pub is_keyframe: bool,
    /// Host-side capture to encode latency in microseconds (0 = unknown).
    pub capture_us: u32,
    /// Host-side frame preparation (convert + upload) in microseconds.
    pub convert_us: u32,
    /// Host-side encode duration in microseconds (0 = unknown).
    pub encode_us: u32,
}

/// A fully reassembled frame ready for decoding.
#[derive(Debug, Clone)]
pub struct ReassembledFrame {
    /// Concatenated payload data from all fragments.
    pub data: Vec<u8>,
    /// Presentation timestamp.
    pub pts: u64,
    /// Whether this is a keyframe.
    pub is_keyframe: bool,
    /// Stream type (video or audio).
    pub stream_type: u8,
    /// Host-side capture to encode latency in microseconds (0 = unknown).
    pub capture_us: u32,
    /// Host-side frame preparation (convert + upload) in microseconds.
    pub convert_us: u32,
    /// Host-side encode duration in microseconds (0 = unknown).
    pub encode_us: u32,
    /// When the frame finished reassembling, in nanoseconds of the session
    /// clock.
    pub received_at: u64,
    /// True when a frame before this one was lost and no keyframe has
    /// arrived since: decoding it would predict from missing references.
    pub tainted: bool,
}

/// What a [`ReassembledFrame`] holds, with its bytes as a sequence.
#[verifier::ext_equal]
pub struct FrameView {
    pub data: Seq<u8>,
    pub pts: u64,
    pub is_keyframe: bool,
    pub stream_type: u8,
    pub capture_us: u32,
    pub convert_us: u32,
    pub encode_us: u32,
    pub received_at: u64,
    pub tainted: bool,
}

impl View for ReassembledFrame {
    type V = FrameView;

    open spec fn view(&self) -> FrameView {
        FrameView {
            data: self.data@,
            pts: self.pts,
            is_keyframe: self.is_keyframe,
            stream_type: self.stream_type,
            capture_us: self.capture_us,
            convert_us: self.convert_us,
            encode_us: self.encode_us,
            received_at: self.received_at,
            tainted: self.tainted,
        }
    }
}

/// The views of a sequence of frames.
pub open spec fn frame_views(frames: Seq<ReassembledFrame>) -> Seq<FrameView> {
    Seq::new(frames.len(), |i: int| frames[i]@)
}

/// Messages exchanged over the reliable control stream, each preceded by its
/// length in four bytes, lowest first. Variants and trailing fields may be
/// appended: bytes behind the last known field are ignored.
#[derive(Debug, Clone, PartialEq, Eq)]
pub enum ControlMessage {
    /// Client to server: request a streaming session.
    SessionRequest {
        /// Requested video width in pixels.
        width: u32,
        /// Requested video height in pixels.
        height: u32,
        /// Requested framerate.
        framerate: u32,
        /// Requested video codec.
        codec: Codec,
        /// Requested bitrate in Mbps; 0 = the server's configured bitrate.
        bitrate_mbps: u32,
    },
    /// Server to client: confirm session parameters.
    SessionResponse {
        /// Confirmed video width in pixels.
        width: u32,
        /// Confirmed video height in pixels.
        height: u32,
        /// Confirmed framerate.
        framerate: u32,
        /// Bitrate in Mbps.
        bitrate_mbps: u32,
        /// Confirmed video codec.
        codec: Codec,
        /// Maximum datagram payload size for the connection.
        max_datagram_size: u16,
        /// Whether the cursor is embedded in video frames.
        cursor_embedded: bool,
        /// Server command line, sanitized of addresses and ports.
        server_command: String,
        /// Number of audio channels the server encodes (1, 2, 6, or 8).
        audio_channels: u16,
    },
    /// Client to server: request an IDR keyframe (after packet loss).
    IdrRequest,
    /// Keepalive with timestamp.
    Ping {
        /// Millisecond timestamp from sender.
        timestamp_ms: u64,
    },
    /// Keepalive response.
    Pong {
        /// Echoed timestamp from the original `Ping`.
        timestamp_ms: u64,
    },
    /// Client to server: input event from keyboard, mouse, or gamepad.
    Input(InputEvent),
}

/// What a [`ControlMessage`] holds.
#[verifier::ext_equal]
pub enum ControlView {
    SessionRequest { width: u32, height: u32, framerate: u32, codec: Codec, bitrate_mbps: u32 },
    SessionResponse {
        width: u32,
        height: u32,
        framerate: u32,
        bitrate_mbps: u32,
        codec: Codec,
        max_datagram_size: u16,
        cursor_embedded: bool,
        server_command: Seq<char>,
        audio_channels: u16,
    },
    IdrRequest,
    Ping { timestamp_ms: u64 },
    Pong { timestamp_ms: u64 },
    Input(InputView),
}

impl View for ControlMessage {
    type V = ControlView;

    open spec fn view(&self) -> ControlView {
        match self {
            ControlMessage::SessionRequest { width, height, framerate, codec, bitrate_mbps } => {
                ControlView::SessionRequest {
                    width: *width,
                    height: *height,
                    framerate: *framerate,
                    codec: *codec,
                    bitrate_mbps: *bitrate_mbps,
                }
            },
            ControlMessage::SessionResponse {
                width,
                height,
                framerate,
                bitrate_mbps,
                codec,
                max_datagram_size,
                cursor_embedded,
                server_command,
                audio_channels,
            } => ControlView::SessionResponse {
                width: *width,
                height: *height,
                framerate: *framerate,
                bitrate_mbps: *bitrate_mbps,
                codec: *codec,
                max_datagram_size: *max_datagram_size,
                cursor_embedded: *cursor_embedded,
                server_command: server_command@,
                audio_channels: *audio_channels,
            },
            ControlMessage::IdrRequest => ControlView::IdrRequest,
            ControlMessage::Ping { timestamp_ms } => ControlView::Ping {
                timestamp_ms: *timestamp_ms,
            },
            ControlMessage::Pong { timestamp_ms } => ControlView::Pong {
                timestamp_ms: *timestamp_ms,
            },
            ControlMessage::Input(event) => ControlView::Input(event@),
        }
    }
}

/// First bytes of a QUIC stream that carries a tunneled USB device.
pub const USB_STREAM_MAGIC: [u8; 4] = [83, 71, 85, 66];

/// Metadata for one tunneled USB device, the first frame of its stream.
#[derive(Debug, Clone, PartialEq, Eq)]
pub struct UsbTunnelHeader {
    /// USB vendor id of the exported device.
    pub vendor: u16,
    /// USB product id of the exported device.
    pub product: u16,
    /// USB/IP device id: bus number in the high half, device number in the
    /// low one.
    pub devid: u32,
    /// Kernel `usb_device_speed` value (2 = full, 3 = high, 5 = super).
    pub speed: u32,
    /// Human-readable device name, for logs only.
    pub name: String,
}

/// What a [`UsbTunnelHeader`] holds.
#[verifier::ext_equal]
pub struct UsbTunnelView {
    pub vendor: u16,
    pub product: u16,
    pub devid: u32,
    pub speed: u32,
    pub name: Seq<char>,
}

impl View for UsbTunnelHeader {
    type V = UsbTunnelView;

    open spec fn view(&self) -> UsbTunnelView {
        UsbTunnelView {
            vendor: self.vendor,
            product: self.product,
            devid: self.devid,
            speed: self.speed,
            name: self.name@,
        }
    }
}

/// Errors from the transport subsystem.
#[derive(Debug, PartialEq, Eq)]
pub enum TransportError {
    /// QUIC connection failed.
    ConnectionError(String),
    /// Failed to send a datagram.
    SendError(String),
    /// Failed to read or write a control message.
    ControlError(String),
    /// Session handshake failed or was rejected.
    SessionError(String),
    /// TLS certificate generation or loading failed.
    TlsError(String),
    /// Serialization or deserialization failed.
    SerializationError(String),
    /// An encode pipeline packet channel closed.
    PipelineClosed(String),
}

impl TransportError {
    /// The message of the error.
    pub open spec fn text(&self) -> Seq<char> {
        match self {
            TransportError::ConnectionError(e) => "connection error: "@ + e@,
            TransportError::SendError(e) => "send error: "@ + e@,
            TransportError::ControlError(e) => "control channel error: "@ + e@,
            TransportError::SessionError(e) => "session error: "@ + e@,
            TransportError::TlsError(e) => "TLS error: "@ + e@,
            TransportError::SerializationError(e) => "serialization error: "@ + e@,
            TransportError::PipelineClosed(e) => "pipeline closed: "@ + e@,
        }
    }

    /// The message of the error.
    pub fn to_string(&self) -> (s: String)
        ensures
            s@ == self.text(),
    {
        let (head, tail) = match self {
            TransportError::ConnectionError(e) => ("connection error: ", e.as_str()),
            TransportError::SendError(e) => ("send error: ", e.as_str()),
            TransportError::ControlError(e) => ("control channel error: ", e.as_str()),
            TransportError::SessionError(e) => ("session error: ", e.as_str()),
            TransportError::TlsError(e) => ("TLS error: ", e.as_str()),
            TransportError::SerializationError(e) => ("serialization error: ", e.as_str()),
            TransportError::PipelineClosed(e) => ("pipeline closed: ", e.as_str()),
        };
        let mut s = copy_text(head);
        s.append(tail);
        s
    }
}

/// The error is a serialization failure with this message.
pub open spec fn is_serialization_error(e: TransportError, text: Seq<char>) -> bool {
    e is SerializationError && e->SerializationError_0@ == text
}

fn serialization_error(context: &str, fault: WireFault) -> (e: TransportError)
    ensures
        is_serialization_error(e, context@ + fault.text()),
{
    let mut s = copy_text(context);
    s.append(fault.as_str());
    TransportError::SerializationError(s)
}

/// Encodes a [`DatagramHeader`].
pub fn serialize_header(header: &DatagramHeader) -> (r: Result<Vec<u8>, TransportError>)
    ensures
        r is Ok && r->Ok_0@ == enc_header(*header),
{
    let mut out: Vec<u8> = Vec::new();
    put_header(&mut out, header);
    assert(out@ =~= enc_header(*header));
    Ok(out)
}

/// Decodes a [`DatagramHeader`]. Returns the header and the bytes behind it,
/// which are the payload.
pub fn deserialize_header<'a>(buf: &'a [u8]) -> (r: Result<
    (DatagramHeader, &'a [u8]),
    TransportError,
>)
    ensures
        match (r, read_header(buf@)) {
            (Ok((header, payload)), Ok((h, rest))) => header == h && payload@ == rest,
            (Err(e), Err(fault)) => is_serialization_error(
                e,
                "header deserialize: "@ + fault.text(),
            ),
            _ => false,
        },
{
    match take_header(buf) {
        Ok((header, payload)) => Ok((header, payload)),
        Err(fault) => Err(serialization_error("header deserialize: ", fault)),
    }
}

/// A body preceded by its length in four bytes, lowest first.
pub open spec fn framed(body: Seq<u8>) -> Seq<u8> {
    vstd::bytes::spec_u32_to_le_bytes(body.len() as u32) + body
}

/// Encodes a [`ControlMessage`], preceded by the length of its encoding.
pub fn serialize_control_message(msg: &ControlMessage) -> (r: Result<Vec<u8>, TransportError>)
    ensures
        match r {
            Ok(bytes) => enc_control(msg@).len() <= u32::MAX && bytes@ == framed(
                enc_control(msg@),
            ),
            Err(e) => enc_control(msg@).len() > u32::MAX && is_serialization_error(
                e,
                "control message too large"@,
            ),
        },
{
    let mut body: Vec<u8> = Vec::new();
    put_control(&mut body, msg);
    assert(body@ =~= enc_control(msg@));
    if body.len() as u64 > 0xffff_ffff {
        return Err(TransportError::SerializationError(copy_text("control message too large")));
    }
    let mut out = vstd::bytes::u32_to_le_bytes(body.len() as u32);
    out.append(&mut body);
    Ok(out)
}

/// Decodes a [`ControlMessage`] from its body, without the length before it.
/// Bytes behind the message are ignored.
pub fn deserialize_control_message(body: &[u8]) -> (r: Result<ControlMessage, TransportError>)
    ensures
        match (r, read_control(body@)) {
            (Ok(msg), Ok((m, rest))) => msg@ == m,
            (Err(e), Err(fault)) => is_serialization_error(
                e,
                "control deserialize: "@ + fault.text(),
            ),
            _ => false,
        },
{
    match take_control(body) {
        Ok((msg, _rest)) => Ok(msg),
        Err(fault) => Err(serialization_error("control deserialize: ", fault)),
    }
}

/// The session request of clients that do not ask for a bitrate.
#[derive(Debug, Clone, Copy, PartialEq, Eq, Structural)]
pub enum LegacyControlMessageV1 {
    SessionRequest { width: u32, height: u32, framerate: u32, codec: Codec },
}

/// The session response of servers that only know stereo. The request comes
/// first so that the response keeps its tag.
#[derive(Debug, Clone, PartialEq, Eq)]
pub enum LegacyControlMessageV2 {
    SessionRequest { width: u32, height: u32, framerate: u32, codec: Codec, bitrate_mbps: u32 },
    SessionResponse {
        width: u32,
        height: u32,
        framerate: u32,
        bitrate_mbps: u32,
        codec: Codec,
        max_datagram_size: u16,
        cursor_embedded: bool,
        server_command: String,
    },
}

/// What a [`LegacyControlMessageV2`] holds.
#[verifier::ext_equal]
pub enum LegacyViewV2 {
    SessionRequest { width: u32, height: u32, framerate: u32, codec: Codec, bitrate_mbps: u32 },
    SessionResponse {
        width: u32,
        height: u32,
        framerate: u32,
        bitrate_mbps: u32,
        codec: Codec,
        max_datagram_size: u16,
        cursor_embedded: bool,
        server_command: Seq<char>,
    },
}

impl View for LegacyControlMessageV2 {
    type V = LegacyViewV2;

    open spec fn view(&self) -> LegacyViewV2 {
        match self {
            LegacyControlMessageV2::SessionRequest {
                width,
                height,
                framerate,
                codec,
                bitrate_mbps,
            } => LegacyViewV2::SessionRequest {
                width: *width,
                height: *height,
                framerate: *framerate,
                codec: *codec,
                bitrate_mbps: *bitrate_mbps,
            },
            LegacyControlMessageV2::SessionResponse {
                width,
                height,
                framerate,
                bitrate_mbps,
                codec,
                max_datagram_size,
                cursor_embedded,
                server_command,
            } => LegacyViewV2::SessionResponse {
                width: *width,
                height: *height,
                framerate: *framerate,
                bitrate_mbps: *bitrate_mbps,
                codec: *codec,
                max_datagram_size: *max_datagram_size,
                cursor_embedded: *cursor_embedded,
                server_command: server_command@,
            },
        }
    }
}

/// Reads a session request without a bitrate.
pub open spec fn read_legacy_v1(s: Seq<u8>) -> Read<LegacyControlMessageV1> {
    match read_u32(s) {
        Err(e) => Err(e),
        Ok((tag, s)) => if tag != 0 {
            Err(WireFault::UnknownVariant)
        } else {
            match read_u32(s) {
                Err(e) => Err(e),
                Ok((width, s)) => match read_u32(s) {
                    Err(e) => Err(e),
                    Ok((height, s)) => match read_u32(s) {
                        Err(e) => Err(e),
                        Ok((framerate, s)) => match read_codec(s) {
                            Err(e) => Err(e),
                            Ok((codec, s)) => Ok(
                                (
                                    LegacyControlMessageV1::SessionRequest {
                                        width,
                                        height,
                                        framerate,
                                        codec,
                                    },
                                    s,
                                ),
                            ),
                        },
                    },
                },
            }
        },
    }
}

/// Reads a session request with a bitrate, behind its tag.
pub open spec fn read_legacy_v2_request(s: Seq<u8>) -> Read<LegacyViewV2> {
    match read_u32(s) {
        Err(e) => Err(e),
        Ok((width, s)) => match read_u32(s) {
            Err(e) => Err(e),
            Ok((height, s)) => match read_u32(s) {
                Err(e) => Err(e),
                Ok((framerate, s)) => match read_codec(s) {
                    Err(e) => Err(e),
                    Ok((codec, s)) => match read_u32(s) {
                        Err(e) => Err(e),
                        Ok((bitrate_mbps, s)) => Ok(
                            (
                                LegacyViewV2::SessionRequest {
                                    width,
                                    height,
                                    framerate,
                                    codec,
                                    bitrate_mbps,
                                },
                                s,
                            ),
                        ),
                    },
                },
            },
        },
    }
}

/// Reads a session response without a channel count, behind its tag.
pub open spec fn read_legacy_v2_response(s: Seq<u8>) -> Read<LegacyViewV2> {
    match read_u32(s) {
        Err(e) => Err(e),
        Ok((width, s)) => match read_u32(s) {
            Err(e) => Err(e),
            Ok((height, s)) => match read_u32(s) {
                Err(e) => Err(e),
                Ok((framerate, s)) => match read_u32(s) {
                    Err(e) => Err(e),
                    Ok((bitrate_mbps, s)) => match read_codec(s) {
                        Err(e) => Err(e),
                        Ok((codec, s)) => match read_u16(s) {
                            Err(e) => Err(e),
                            Ok((max_datagram_size, s)) => match read_bool(s) {
                                Err(e) => Err(e),
                                Ok((cursor_embedded, s)) => match read_string(s) {
                                    Err(e) => Err(e),
                                    Ok((server_command, s)) => Ok(
                                        (
                                            LegacyViewV2::SessionResponse {
                                                width,
                                                height,
                                                framerate,
                                                bitrate_mbps,
                                                codec,
                                                max_datagram_size,
                                                cursor_embedded,
                                                server_command,
                                            },
                                            s,
                                        ),
                                    ),
                                },
                            },
                        },
                    },
                },
            },
        },
    }
}

/// Reads a control message in the shape that only knows stereo.
pub open spec fn read_legacy_v2(s: Seq<u8>) -> Read<LegacyViewV2> {
    match read_u32(s) {
        Err(e) => Err(e),
        Ok((tag, s)) => if tag == 0 {
            read_legacy_v2_request(s)
        } else if tag == 1 {
            read_legacy_v2_response(s)
        } else {
            Err(WireFault::UnknownVariant)
        },
    }
}

/// Decodes a session request in the shape without a bitrate. Bytes behind
/// the message are ignored.
pub fn deserialize_legacy_v1(body: &[u8]) -> (r: Result<LegacyControlMessageV1, WireFault>)
    ensures
        match (r, read_legacy_v1(body@)) {
            (Ok(msg), Ok((m, rest))) => msg == m,
            (Err(e), Err(fault)) => e == fault,
            _ => false,
        },
{
    let (tag, s) = take_u32(body)?;
    if tag != 0 {
        return Err(WireFault::UnknownVariant);
    }
    let (width, s) = take_u32(s)?;
    let (height, s) = take_u32(s)?;
    let (framerate, s) = take_u32(s)?;
    let (codec, _s) = take_codec(s)?;
    Ok(LegacyControlMessageV1::SessionRequest { width, height, framerate, codec })
}

/// Decodes a control message in the shape that only knows stereo. Bytes
/// behind the message are ignored.
pub fn deserialize_legacy_v2(body: &[u8]) -> (r: Result<LegacyControlMessageV2, WireFault>)
    ensures
        match (r, read_legacy_v2(body@)) {
            (Ok(msg), Ok((m, rest))) => msg@ == m,
            (Err(e), Err(fault)) => e == fault,
            _ => false,
        },
{
    let (tag, s) = take_u32(body)?;
    if tag == 0 {
        let (width, s) = take_u32(s)?;
        let (height, s) = take_u32(s)?;
        let (framerate, s) = take_u32(s)?;
        let (codec, s) = take_codec(s)?;
        let (bitrate_mbps, _s) = take_u32(s)?;
        Ok(
            LegacyControlMessageV2::SessionRequest {
                width,
                height,
                framerate,
                codec,
                bitrate_mbps,
            },
        )
    } else if tag == 1 {
        let (width, s) = take_u32(s)?;
        let (height, s) = take_u32(s)?;
        let (framerate, s) = take_u32(s)?;
        let (bitrate_mbps, s) = take_u32(s)?;
        let (codec, s) = take_codec(s)?;
        let (max_datagram_size, s) = take_u16(s)?;
        let (cursor_embedded, s) = take_bool(s)?;
        let (server_command, _s) = take_string(s)?;
        Ok(
            LegacyControlMessageV2::SessionResponse {
                width,
                height,
                framerate,
                bitrate_mbps,
                codec,
                max_datagram_size,
                cursor_embedded,
                server_command,
            },
        )
    } else {
        Err(WireFault::UnknownVariant)
    }
}

/// A session response in its current shape, or else one that only knows
/// stereo, which then has two channels; or why it is neither.
pub open spec fn read_response_compat(s: Seq<u8>) -> Result<ControlView, Seq<char>> {
    match read_control(s) {
        Ok((msg, _)) => if msg is SessionResponse {
            Ok(msg)
        } else {
            Err("not a session response"@)
        },
        Err(fault) => match read_legacy_v2(s) {
            Ok((
                LegacyViewV2::SessionResponse {
                    width,
                    height,
                    framerate,
                    bitrate_mbps,
                    codec,
                    max_datagram_size,
                    cursor_embedded,
                    server_command,
                },
                _,
            )) => Ok(
                ControlView::SessionResponse {
                    width,
                    height,
                    framerate,
                    bitrate_mbps,
                    codec,
                    max_datagram_size,
                    cursor_embedded,
                    server_command,
                    audio_channels: 2,
                },
            ),
            _ => Err("control deserialize: "@ + fault.text()),
        },
    }
}

/// A session request in its current shape, or else one without a bitrate,
/// which then leaves it to the server; or why it is neither.
pub open spec fn read_request_compat(s: Seq<u8>) -> Result<ControlView, Seq<char>> {
    match read_control(s) {
        Ok((msg, _)) => if msg is SessionRequest {
            Ok(msg)
        } else {
            Err("not a session request"@)
        },
        Err(fault) => match read_legacy_v1(s) {
            Ok((LegacyControlMessageV1::SessionRequest { width, height, framerate, codec }, _)) => {
                Ok(
                    ControlView::SessionRequest {
                        width,
                        height,
                        framerate,
                        codec,
                        bitrate_mbps: 0,
                    },
                )
            },
            Err(_) => Err("control deserialize: "@ + fault.text()),
        },
    }
}

/// Decodes a session response, in the current shape or in the one that only
/// knows stereo. Any other message is an error.
pub fn deserialize_session_response_compat(body: &[u8]) -> (r: Result<
    ControlMessage,
    TransportError,
>)
    ensures
        match (r, read_response_compat(body@)) {
            (Ok(msg), Ok(m)) => msg@ == m,
            (Err(e), Err(text)) => is_serialization_error(e, text),
            _ => false,
        },
{
    match deserialize_control_message(body) {
        Ok(msg) => match msg {
            ControlMessage::SessionResponse { .. } => Ok(msg),
            _ => Err(TransportError::SerializationError(copy_text("not a session response"))),
        },
        Err(modern) => match deserialize_legacy_v2(body) {
            Ok(
                LegacyControlMessageV2::SessionResponse {
                    width,
                    height,
                    framerate,
                    bitrate_mbps,
                    codec,
                    max_datagram_size,
                    cursor_embedded,
                    server_command,
                },
            ) => Ok(
                ControlMessage::SessionResponse {
                    width,
                    height,
                    framerate,
                    bitrate_mbps,
                    codec,
                    max_datagram_size,
                    cursor_embedded,
                    server_command,
                    audio_channels: 2,
                },
            ),
            _ => Err(modern),
        },
    }
}

/// Decodes a session request, in the current shape or in the one without a
/// bitrate. Any other message is an error.
pub fn deserialize_session_request_compat(body: &[u8]) -> (r: Result<
    ControlMessage,
    TransportError,
>)
    ensures
        match (r, read_request_compat(body@)) {
            (Ok(msg), Ok(m)) => msg@ == m,
            (Err(e), Err(text)) => is_serialization_error(e, text),
            _ => false,
        },
{
    match deserialize_control_message(body) {
        Ok(msg) => match msg {
            ControlMessage::SessionRequest { .. } => Ok(msg),
            _ => Err(TransportError::SerializationError(copy_text("not a session request"))),
        },
        Err(modern) => match deserialize_legacy_v1(body) {
            Ok(LegacyControlMessageV1::SessionRequest { width, height, framerate, codec }) => Ok(
                ControlMessage::SessionRequest {
                    width,
                    height,
                    framerate,
                    codec,
                    bitrate_mbps: 0,
                },
            ),
            Err(_) => Err(modern),
        },
    }
}

/// The preamble of a USB tunnel stream: magic, length of the header in two
/// bytes, lowest first, then the header.
pub open spec fn usb_preamble(header: UsbTunnelView) -> Seq<u8> {
    USB_STREAM_MAGIC@ + vstd::bytes::spec_u16_to_le_bytes(enc_usb_header(header).len() as u16)
        + enc_usb_header(header)
}

/// Encodes the preamble of a USB tunnel stream.
pub fn serialize_usb_tunnel_header(header: &UsbTunnelHeader) -> (r: Result<
    Vec<u8>,
    TransportError,
>)
    ensures
        match r {
            Ok(bytes) => enc_usb_header(header@).len() <= u16::MAX && bytes@ == usb_preamble(
                header@,
            ),
            Err(e) => enc_usb_header(header@).len() > u16::MAX && is_serialization_error(
                e,
                "usb header too large"@,
            ),
        },
{
    let mut body: Vec<u8> = Vec::new();
    put_usb_header(&mut body, header);
    assert(body@ =~= enc_usb_header(header@));
    if body.len() > 0xffff {
        return Err(TransportError::SerializationError(copy_text("usb header too large")));
    }
    let mut out: Vec<u8> = Vec::new();
    out.push(USB_STREAM_MAGIC[0]);
    out.push(USB_STREAM_MAGIC[1]);
    out.push(USB_STREAM_MAGIC[2]);
    out.push(USB_STREAM_MAGIC[3]);
    assert(out@ =~= USB_STREAM_MAGIC@);
    let mut len = vstd::bytes::u16_to_le_bytes(body.len() as u16);
    out.append(&mut len);
    out.append(&mut body);
    Ok(out)
}

/// Decodes a USB tunnel header: the bytes behind the magic and the length.
pub fn deserialize_usb_tunnel_header(body: &[u8]) -> (r: Result<UsbTunnelHeader, TransportError>)
    ensures
        match (r, read_usb_header(body@)) {
            (Ok(header), Ok((h, rest))) => header@ == h,
            (Err(e), Err(fault)) => is_serialization_error(e, fault.text()),
            _ => false,
        },
{
    match take_usb_header(body) {
        Ok((header, _rest)) => Ok(header),
        Err(fault) => {
            let e = serialization_error("", fault);
            proof {
                reveal_strlit("");
                assert(""@ + fault.text() =~= fault.text());
            }
            Err(e)
        },
    }
}

} // verus!
