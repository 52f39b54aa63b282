//! What holds of the wire format across versions and functions.
use crate::config::Codec;
use crate::messages::{
    codec_tag, control_fits, enc_control, enc_header, enc_usb_header, lemma_read_codec,
    lemma_read_control, lemma_read_header, lemma_read_usb_header, read_control,
    read_control_session_request, read_control_session_response, read_header, read_usb_header,
    usb_header_fits,
};
use crate::transport::{
    framed, read_legacy_v1, read_legacy_v2, read_legacy_v2_response, read_request_compat,
    read_response_compat, usb_preamble, ControlView, DatagramHeader, LegacyControlMessageV1,
    LegacyViewV2, UsbTunnelView, HEADER_SIZE_UPPER_BOUND, USB_STREAM_MAGIC,
};
use crate::wire::{
    enc_bool, enc_str, lemma_add_assoc, lemma_groups, lemma_read_bool, lemma_read_string,
    lemma_read_u16, lemma_read_u32, lemma_varint_len, varint, WireFault,
};
use vstd::prelude::*;
use vstd::utf8::encode_utf8;

verus! {

/// A header that was written reads back, and what follows it is the payload.
pub proof fn law_header_round_trip(header: DatagramHeader, payload: Seq<u8>)
    ensures
        read_header(enc_header(header) + payload) == Ok::<(DatagramHeader, Seq<u8>), WireFault>(
            (header, payload),
        ),
{
    lemma_read_header(header, payload);
}

/// No header is longer than the bound, whatever its field values.
pub proof fn law_header_size_bounded(header: DatagramHeader)
    ensures
        enc_header(header).len() <= HEADER_SIZE_UPPER_BOUND,
{
    lemma_groups();
    lemma_varint_len(header.frame_index as nat, 5);
    lemma_varint_len(header.fragment_index as nat, 3);
    lemma_varint_len(header.fragment_count as nat, 3);
    lemma_varint_len(header.pts as nat, 10);
    lemma_varint_len(header.capture_us as nat, 5);
    lemma_varint_len(header.convert_us as nat, 5);
    lemma_varint_len(header.encode_us as nat, 5);
}

/// A control message that was written reads back, whatever follows it: a
/// peer that appends fields stays readable.
pub proof fn law_control_round_trip(msg: ControlView, rest: Seq<u8>)
    requires
        control_fits(msg),
    ensures
        read_control(enc_control(msg) + rest) == Ok::<(ControlView, Seq<u8>), WireFault>(
            (msg, rest),
        ),
{
    lemma_read_control(msg, rest);
}

/// The compatible readers read the current shapes as they are, and refuse
/// every other message.
pub proof fn law_compat_reads_current(msg: ControlView)
    requires
        control_fits(msg),
    ensures
        read_request_compat(enc_control(msg)) == (if msg is SessionRequest {
            Ok::<ControlView, Seq<char>>(msg)
        } else {
            Err("not a session request"@)
        }),
        read_response_compat(enc_control(msg)) == (if msg is SessionResponse {
            Ok::<ControlView, Seq<char>>(msg)
        } else {
            Err("not a session response"@)
        }),
{
    lemma_read_control(msg, Seq::empty());
    assert(enc_control(msg) + Seq::<u8>::empty() =~= enc_control(msg));
}

/// A frame says how long its body is, and holds nothing else.
pub proof fn law_frame_tells_length(body: Seq<u8>)
    requires
        body.len() <= u32::MAX,
    ensures
        framed(body).len() == 4 + body.len(),
        vstd::bytes::spec_u32_from_le_bytes(framed(body).take(4)) == body.len(),
        framed(body).skip(4) == body,
{
    vstd::bytes::lemma_auto_spec_u32_to_from_le_bytes();
    assert(framed(body).take(4) =~= vstd::bytes::spec_u32_to_le_bytes(body.len() as u32));
    assert(framed(body).skip(4) =~= body);
}

/// The session request of a client that does not ask for a bitrate.
pub open spec fn enc_legacy_request(width: u32, height: u32, framerate: u32, codec: Codec) -> Seq<
    u8,
> {
    varint(0) + varint(width as nat) + varint(height as nat) + varint(framerate as nat) + varint(
        codec_tag(codec),
    )
}

/// A request without a bitrate is read with the bitrate left to the server.
pub proof fn law_legacy_request_accepted(width: u32, height: u32, framerate: u32, codec: Codec)
    ensures
        read_request_compat(enc_legacy_request(width, height, framerate, codec)) == Ok::<
            ControlView,
            Seq<char>,
        >(ControlView::SessionRequest { width, height, framerate, codec, bitrate_mbps: 0 }),
{
    broadcast use lemma_add_assoc;

    let r4 = Seq::<u8>::empty();
    let r3 = varint(codec_tag(codec)) + r4;
    let r2 = varint(framerate as nat) + r3;
    let r1 = varint(height as nat) + r2;
    let r0 = varint(width as nat) + r1;
    let s = enc_legacy_request(width, height, framerate, codec);
    assert(s + r4 =~= s);
    assert(s + r4 == varint(0) + r0);
    lemma_read_u32(0, r0);
    lemma_read_u32(width, r1);
    lemma_read_u32(height, r2);
    lemma_read_u32(framerate, r3);
    lemma_read_codec(codec, r4);
    assert(read_control_session_request(r0) is Err);
}

/// A peer that does not know the bitrate reads today's request and drops
/// the bitrate.
pub proof fn law_legacy_reads_new_request(
    width: u32,
    height: u32,
    framerate: u32,
    codec: Codec,
    bitrate_mbps: u32,
)
    ensures
        read_legacy_v1(
            enc_control(
                ControlView::SessionRequest { width, height, framerate, codec, bitrate_mbps },
            ),
        ) == Ok::<(LegacyControlMessageV1, Seq<u8>), WireFault>(
            (
                LegacyControlMessageV1::SessionRequest { width, height, framerate, codec },
                varint(bitrate_mbps as nat),
            ),
        ),
{
    broadcast use lemma_add_assoc;

    let r4 = varint(bitrate_mbps as nat);
    let r3 = varint(codec_tag(codec)) + r4;
    let r2 = varint(framerate as nat) + r3;
    let r1 = varint(height as nat) + r2;
    let r0 = varint(width as nat) + r1;
    let s = enc_control(
        ControlView::SessionRequest { width, height, framerate, codec, bitrate_mbps },
    );
    assert(s == varint(0) + r0);
    lemma_read_u32(0, r0);
    lemma_read_u32(width, r1);
    lemma_read_u32(height, r2);
    lemma_read_u32(framerate, r3);
    lemma_read_codec(codec, r4);
}

/// The session response of a server that only knows stereo.
pub open spec fn enc_legacy_response(
    width: u32,
    height: u32,
    framerate: u32,
    bitrate_mbps: u32,
    codec: Codec,
    max_datagram_size: u16,
    cursor_embedded: bool,
    server_command: Seq<char>,
) -> Seq<u8> {
    varint(1) + varint(width as nat) + varint(height as nat) + varint(framerate as nat) + varint(
        bitrate_mbps as nat,
    ) + varint(codec_tag(codec)) + varint(max_datagram_size as nat) + enc_bool(cursor_embedded)
        + enc_str(server_command)
}

/// What both shapes of a response begin with reads the same, whatever
/// follows.
proof fn lemma_response_fields(
    width: u32,
    height: u32,
    framerate: u32,
    bitrate_mbps: u32,
    codec: Codec,
    max_datagram_size: u16,
    cursor_embedded: bool,
    server_command: Seq<char>,
    rest: Seq<u8>,
)
    requires
        encode_utf8(server_command).len() <= usize::MAX,
    ensures
        ({
            let s = enc_legacy_response(
                width,
                height,
                framerate,
                bitrate_mbps,
                codec,
                max_datagram_size,
                cursor_embedded,
                server_command,
            ) + rest;
            &&& read_legacy_v2(s) == Ok::<(LegacyViewV2, Seq<u8>), WireFault>(
                (
                    LegacyViewV2::SessionResponse {
                        width,
                        height,
                        framerate,
                        bitrate_mbps,
                        codec,
                        max_datagram_size,
                        cursor_embedded,
                        server_command,
                    },
                    rest,
                ),
            )
            &&& rest.len() == 0 ==> read_control(s) == Err::<(ControlView, Seq<u8>), WireFault>(
                WireFault::UnexpectedEnd,
            )
        }),
{
    let e1 = varint(width as nat);
    let e2 = varint(height as nat);
    let e3 = varint(framerate as nat);
    let e4 = varint(bitrate_mbps as nat);
    let e5 = varint(codec_tag(codec));
    let e6 = varint(max_datagram_size as nat);
    let e7 = enc_bool(cursor_embedded);
    let e8 = enc_str(server_command);
    let r8 = rest;
    let r7 = e8 + r8;
    let r6 = e7 + r7;
    let r5 = e6 + r6;
    let r4 = e5 + r5;
    let r3 = e4 + r4;
    let r2 = e3 + r3;
    let r1 = e2 + r2;
    let r0 = e1 + r1;
    let p1 = varint(1) + e1;
    let p2 = p1 + e2;
    let p3 = p2 + e3;
    let p4 = p3 + e4;
    let p5 = p4 + e5;
    let p6 = p5 + e6;
    let p7 = p6 + e7;
    lemma_add_assoc(p7, e8, r8);
    lemma_add_assoc(p6, e7, r7);
    lemma_add_assoc(p5, e6, r6);
    lemma_add_assoc(p4, e5, r5);
    lemma_add_assoc(p3, e4, r4);
    lemma_add_assoc(p2, e3, r3);
    lemma_add_assoc(p1, e2, r2);
    lemma_add_assoc(varint(1), e1, r1);
    lemma_read_u32(1, r0);
    lemma_read_u32(width, r1);
    lemma_read_u32(height, r2);
    lemma_read_u32(framerate, r3);
    lemma_read_u32(bitrate_mbps, r4);
    lemma_read_codec(codec, r5);
    lemma_read_u16(max_datagram_size, r6);
    lemma_read_bool(cursor_embedded, r7);
    lemma_read_string(server_command, r8);
    assert(read_legacy_v2_response(r0) is Ok);
    if rest.len() == 0 {
        assert(read_control_session_response(r0) == Err::<(ControlView, Seq<u8>), WireFault>(
            WireFault::UnexpectedEnd,
        ));
    }
}

/// A response without a channel count is read as stereo.
pub proof fn law_legacy_response_accepted(
    width: u32,
    height: u32,
    framerate: u32,
    bitrate_mbps: u32,
    codec: Codec,
    max_datagram_size: u16,
    cursor_embedded: bool,
    server_command: Seq<char>,
)
    requires
        encode_utf8(server_command).len() <= usize::MAX,
    ensures
        read_response_compat(
            enc_legacy_response(
                width,
                height,
                framerate,
                bitrate_mbps,
                codec,
                max_datagram_size,
                cursor_embedded,
                server_command,
            ),
        ) == Ok::<ControlView, Seq<char>>(
            ControlView::SessionResponse {
                width,
                height,
                framerate,
                bitrate_mbps,
                codec,
                max_datagram_size,
                cursor_embedded,
                server_command,
                audio_channels: 2,
            },
        ),
{
    let s = enc_legacy_response(
        width,
        height,
        framerate,
        bitrate_mbps,
        codec,
        max_datagram_size,
        cursor_embedded,
        server_command,
    );
    lemma_response_fields(
        width,
        height,
        framerate,
        bitrate_mbps,
        codec,
        max_datagram_size,
        cursor_embedded,
        server_command,
        Seq::empty(),
    );
    assert(s + Seq::<u8>::empty() =~= s);
}

/// A peer that only knows stereo reads today's response and drops the
/// channel count.
pub proof fn law_legacy_reads_new_response(
    width: u32,
    height: u32,
    framerate: u32,
    bitrate_mbps: u32,
    codec: Codec,
    max_datagram_size: u16,
    cursor_embedded: bool,
    server_command: Seq<char>,
    audio_channels: u16,
)
    requires
        encode_utf8(server_command).len() <= usize::MAX,
    ensures
        read_legacy_v2(
            enc_control(
                ControlView::SessionResponse {
                    width,
                    height,
                    framerate,
                    bitrate_mbps,
                    codec,
                    max_datagram_size,
                    cursor_embedded,
                    server_command,
                    audio_channels,
                },
            ),
        ) == Ok::<(LegacyViewV2, Seq<u8>), WireFault>(
            (
                LegacyViewV2::SessionResponse {
                    width,
                    height,
                    framerate,
                    bitrate_mbps,
                    codec,
                    max_datagram_size,
                    cursor_embedded,
                    server_command,
                },
                varint(audio_channels as nat),
            ),
        ),
{
    lemma_response_fields(
        width,
        height,
        framerate,
        bitrate_mbps,
        codec,
        max_datagram_size,
        cursor_embedded,
        server_command,
        varint(audio_channels as nat),
    );
}

/// The preamble of a USB tunnel starts with the magic and the length of the
/// header, and the header reads back from the rest.
pub proof fn law_usb_preamble_round_trip(header: UsbTunnelView)
    requires
        usb_header_fits(header),
        enc_usb_header(header).len() <= u16::MAX,
    ensures
        usb_preamble(header).take(4) == USB_STREAM_MAGIC@,
        vstd::bytes::spec_u16_from_le_bytes(usb_preamble(header).subrange(4, 6))
            == usb_preamble(header).len() - 6,
        read_usb_header(usb_preamble(header).skip(6)) == Ok::<(UsbTunnelView, Seq<u8>), WireFault>(
            (header, Seq::empty()),
        ),
{
    vstd::bytes::lemma_auto_spec_u16_to_from_le_bytes();
    let body = enc_usb_header(header);
    let len = vstd::bytes::spec_u16_to_le_bytes(body.len() as u16);
    assert(len.len() == 2);
    assert(usb_preamble(header).take(4) =~= USB_STREAM_MAGIC@);
    assert(usb_preamble(header).subrange(4, 6) =~= len);
    assert(usb_preamble(header).skip(6) =~= body + Seq::empty());
    lemma_read_usb_header(header, Seq::empty());
}

} // verus!
