//! The bytes on the wire, field by field. Both ends of a connection must agree
//! on them, whichever version they have.
use crate::config::Codec;
use crate::input::{
    AbsAxisSpec, GamepadAxis, GamepadButton, GamepadDescriptorView, HidDescriptorView,
    HidReplyKind, InputEvent, InputView, MouseButton, RawGamepadEvent,
};
use crate::messages::{
    codec_tag, enc_axis_list, enc_axis_spec, enc_control, enc_event_list, enc_gamepad_descriptor,
    enc_header, enc_hid_descriptor, enc_input, enc_key_list, enc_raw_event, enc_usb_header,
    gamepad_axis_tag, gamepad_button_tag, hid_reply_kind_tag, mouse_button_tag,
};
use crate::transport::{
    usb_preamble, ControlMessage, ControlView, DatagramHeader, UsbTunnelView,
};
use crate::wire::{enc_bool, enc_bytes, enc_items, enc_list, enc_str, varint, zigzag};
use vstd::prelude::*;

verus! {

/// A flag is one byte, 1 for yes.
pub open spec fn flag(v: bool) -> Seq<u8> {
    if v {
        seq![1u8]
    } else {
        seq![0u8]
    }
}

proof fn lemma_flag(v: bool)
    ensures
        enc_bool(v) == flag(v),
{
    assert(enc_bool(v) =~= flag(v));
}

/// The header of a datagram: stream type, frame index, fragment index and
/// count, timestamp, keyframe flag, and the three timings of the host.
pub proof fn law_header_fields(h: DatagramHeader)
    ensures
        enc_header(h) == seq![h.stream_type]
            + varint(h.frame_index as nat)
            + varint(h.fragment_index as nat)
            + varint(h.fragment_count as nat)
            + varint(h.pts as nat)
            + flag(h.is_keyframe)
            + varint(h.capture_us as nat)
            + varint(h.convert_us as nat)
            + varint(h.encode_us as nat),
{
    lemma_flag(h.is_keyframe);
}

/// A control message: the number of its kind, then its fields. A request asks
/// for width, height, frame rate, codec and bitrate in this order; a response
/// has the bitrate before the codec, and the channel count at its end.
pub proof fn law_control_fields(
    width: u32,
    height: u32,
    framerate: u32,
    bitrate_mbps: u32,
    codec: Codec,
    max_datagram_size: u16,
    cursor_embedded: bool,
    server_command: Seq<char>,
    audio_channels: u16,
    timestamp_ms: u64,
    event: InputView,
)
    ensures
        enc_control(
            ControlView::SessionRequest { width, height, framerate, codec, bitrate_mbps },
        ) == seq![0u8]
            + varint(width as nat)
            + varint(height as nat)
            + varint(framerate as nat)
            + varint(codec_tag(codec))
            + varint(bitrate_mbps as nat),
        enc_control(
            ControlView::SessionResponse {
                width,
                height,
                framerate,
                bitrate_mbps,
                codec,
                max_datagram_size,
                cursor_embedded,
                server_command,
                audio_channels,
            },
        ) == seq![1u8]
            + varint(width as nat)
            + varint(height as nat)
            + varint(framerate as nat)
            + varint(bitrate_mbps as nat)
            + varint(codec_tag(codec))
            + varint(max_datagram_size as nat)
            + flag(cursor_embedded)
            + enc_str(server_command)
            + varint(audio_channels as nat),
        enc_control(ControlView::IdrRequest) == seq![2u8],
        enc_control(ControlView::Ping { timestamp_ms }) == seq![3u8] + varint(timestamp_ms as nat),
        enc_control(ControlView::Pong { timestamp_ms }) == seq![4u8] + varint(timestamp_ms as nat),
        enc_control(ControlView::Input(event)) == seq![5u8] + enc_input(event),
        codec_tag(Codec::H265) == 0,
        codec_tag(Codec::Av1) == 1,
{
    lemma_flag(cursor_embedded);
}

/// An input event: the number of its kind, then its fields.
pub proof fn law_input_fields(
    scancode: u32,
    dx: i32,
    dy: i32,
    button: MouseButton,
    pad: u8,
    axis: GamepadAxis,
    value: i16,
    pad_button: GamepadButton,
    pressed: bool,
)
    ensures
        enc_input(InputView::Keyboard { scancode, pressed }) == seq![0u8] + varint(
            scancode as nat,
        ) + flag(pressed),
        enc_input(InputView::MouseMove { dx, dy }) == seq![1u8] + varint(zigzag(dx as int))
            + varint(zigzag(dy as int)),
        enc_input(InputView::MouseButton { button, pressed }) == seq![2u8] + varint(
            mouse_button_tag(button),
        ) + flag(pressed),
        enc_input(InputView::MouseWheel { dx, dy }) == seq![3u8] + varint(zigzag(dx as int))
            + varint(zigzag(dy as int)),
        enc_input(InputView::GamepadAxis { pad, axis, value }) == seq![4u8, pad] + varint(
            gamepad_axis_tag(axis),
        ) + varint(zigzag(value as int)),
        enc_input(InputView::GamepadButton { pad, button: pad_button, pressed }) == seq![5u8, pad]
            + varint(gamepad_button_tag(pad_button)) + flag(pressed),
        enc_input(InputView::GamepadConnected { pad }) == seq![6u8, pad],
        enc_input(InputView::GamepadDisconnected { pad }) == seq![7u8, pad],
{
    lemma_flag(pressed);
    assert(enc_input(InputView::GamepadAxis { pad, axis, value }) =~= seq![4u8, pad] + varint(
        gamepad_axis_tag(axis),
    ) + varint(zigzag(value as int)));
    assert(enc_input(InputView::GamepadButton { pad, button: pad_button, pressed }) =~= seq![
        5u8,
        pad,
    ] + varint(gamepad_button_tag(pad_button)) + flag(pressed));
    assert(enc_input(InputView::GamepadConnected { pad }) =~= seq![6u8, pad]);
    assert(enc_input(InputView::GamepadDisconnected { pad }) =~= seq![7u8, pad]);
}

/// The events of devices that are passed through.
pub proof fn law_passthrough_fields(
    pad: u8,
    descriptor: GamepadDescriptorView,
    events: Seq<RawGamepadEvent>,
    hid: u8,
    hid_descriptor: HidDescriptorView,
    data: Seq<u8>,
    request: u32,
    kind: HidReplyKind,
    err: bool,
)
    ensures
        enc_input(InputView::GamepadPassthroughConnected { pad, descriptor }) == seq![8u8, pad]
            + enc_gamepad_descriptor(descriptor),
        enc_input(InputView::GamepadPassthroughEvents { pad, events }) == seq![9u8, pad]
            + enc_event_list(events),
        enc_input(
            InputView::HidPassthroughConnected { hid, descriptor: hid_descriptor },
        ) == seq![10u8, hid] + enc_hid_descriptor(hid_descriptor),
        enc_input(InputView::HidPassthroughReport { hid, data }) == seq![11u8, hid] + enc_bytes(
            data,
        ),
        enc_input(InputView::HidPassthroughReply { hid, request, kind, err, data }) == seq![
            12u8,
            hid,
        ] + varint(request as nat) + varint(hid_reply_kind_tag(kind)) + flag(err) + enc_bytes(
            data,
        ),
        enc_input(InputView::HidPassthroughDisconnected { hid }) == seq![13u8, hid],
        enc_gamepad_descriptor(descriptor) == enc_str(descriptor.name)
            + varint(descriptor.bus_type as nat)
            + varint(descriptor.vendor as nat)
            + varint(descriptor.product as nat)
            + varint(descriptor.version as nat)
            + enc_key_list(descriptor.keys)
            + enc_axis_list(descriptor.abs_axes),
        enc_hid_descriptor(hid_descriptor) == enc_str(hid_descriptor.name)
            + enc_str(hid_descriptor.phys)
            + enc_str(hid_descriptor.uniq)
            + varint(hid_descriptor.bus_type as nat)
            + varint(hid_descriptor.vendor as nat)
            + varint(hid_descriptor.product as nat)
            + enc_bytes(hid_descriptor.report_descriptor),
{
    lemma_flag(err);
    reveal(enc_gamepad_descriptor);
    reveal(enc_hid_descriptor);
    assert(enc_input(InputView::GamepadPassthroughConnected { pad, descriptor }) =~= seq![8u8, pad]
        + enc_gamepad_descriptor(descriptor));
    assert(enc_input(InputView::GamepadPassthroughEvents { pad, events }) =~= seq![9u8, pad]
        + enc_event_list(events));
    assert(enc_input(
        InputView::HidPassthroughConnected { hid, descriptor: hid_descriptor },
    ) =~= seq![10u8, hid] + enc_hid_descriptor(hid_descriptor));
    assert(enc_input(InputView::HidPassthroughReport { hid, data }) =~= seq![11u8, hid]
        + enc_bytes(data));
    assert(enc_input(InputView::HidPassthroughReply { hid, request, kind, err, data }) =~= seq![
        12u8,
        hid,
    ] + varint(request as nat) + varint(hid_reply_kind_tag(kind)) + flag(err) + enc_bytes(data));
    assert(enc_input(InputView::HidPassthroughDisconnected { hid }) =~= seq![13u8, hid]);
}

/// A raw event is its type, code and value; an axis is its code and then its
/// value, bounds, fuzz, flat and resolution.
pub proof fn law_raw_fields(e: RawGamepadEvent, a: AbsAxisSpec)
    ensures
        enc_raw_event(e) == varint(e.event_type as nat) + varint(e.code as nat) + varint(
            zigzag(e.value as int),
        ),
        enc_axis_spec(a) == varint(a.code as nat)
            + varint(zigzag(a.value as int))
            + varint(zigzag(a.minimum as int))
            + varint(zigzag(a.maximum as int))
            + varint(zigzag(a.fuzz as int))
            + varint(zigzag(a.flat as int))
            + varint(zigzag(a.resolution as int)),
{
}

/// The numbers of buttons and axes on the wire follow the order in which they
/// are named.
pub proof fn law_button_numbers()
    ensures
        mouse_button_tag(MouseButton::Left) == 0,
        mouse_button_tag(MouseButton::Right) == 1,
        mouse_button_tag(MouseButton::Middle) == 2,
        mouse_button_tag(MouseButton::Side) == 3,
        mouse_button_tag(MouseButton::Extra) == 4,
        gamepad_axis_tag(GamepadAxis::LeftX) == 0,
        gamepad_axis_tag(GamepadAxis::LeftY) == 1,
        gamepad_axis_tag(GamepadAxis::RightX) == 2,
        gamepad_axis_tag(GamepadAxis::RightY) == 3,
        gamepad_axis_tag(GamepadAxis::TriggerLeft) == 4,
        gamepad_axis_tag(GamepadAxis::TriggerRight) == 5,
        gamepad_button_tag(GamepadButton::South) == 0,
        gamepad_button_tag(GamepadButton::East) == 1,
        gamepad_button_tag(GamepadButton::North) == 2,
        gamepad_button_tag(GamepadButton::West) == 3,
        gamepad_button_tag(GamepadButton::Start) == 4,
        gamepad_button_tag(GamepadButton::Back) == 5,
        gamepad_button_tag(GamepadButton::Guide) == 6,
        gamepad_button_tag(GamepadButton::LeftStick) == 7,
        gamepad_button_tag(GamepadButton::RightStick) == 8,
        gamepad_button_tag(GamepadButton::LeftShoulder) == 9,
        gamepad_button_tag(GamepadButton::RightShoulder) == 10,
        gamepad_button_tag(GamepadButton::DPadUp) == 11,
        gamepad_button_tag(GamepadButton::DPadDown) == 12,
        gamepad_button_tag(GamepadButton::DPadLeft) == 13,
        gamepad_button_tag(GamepadButton::DPadRight) == 14,
        hid_reply_kind_tag(HidReplyKind::GetReport) == 0,
        hid_reply_kind_tag(HidReplyKind::SetReport) == 1,
{
}

/// The header of a USB tunnel: vendor, product, device number, speed and name,
/// behind the letters SGUB and the length.
pub proof fn law_usb_header_fields(h: UsbTunnelView)
    ensures
        enc_usb_header(h) == varint(h.vendor as nat) + varint(h.product as nat) + varint(
            h.devid as nat,
        ) + varint(h.speed as nat) + enc_str(h.name),
        usb_preamble(h).len() >= 6,
        usb_preamble(h)[0] == 'S' as u8,
        usb_preamble(h)[1] == 'G' as u8,
        usb_preamble(h)[2] == 'U' as u8,
        usb_preamble(h)[3] == 'B' as u8,
{
    vstd::bytes::lemma_auto_spec_u16_to_from_le_bytes();
    let len = vstd::bytes::spec_u16_to_le_bytes(enc_usb_header(h).len() as u16);
    assert(len.len() == 2);
}

/// A message is shown as what it holds.
pub proof fn law_message_shown_as_it_is(
    width: u32,
    height: u32,
    framerate: u32,
    bitrate_mbps: u32,
    codec: Codec,
    timestamp_ms: u64,
    event: InputEvent,
)
    ensures
        (ControlMessage::SessionRequest { width, height, framerate, codec, bitrate_mbps })@ == (
        ControlView::SessionRequest { width, height, framerate, codec, bitrate_mbps }),
        ControlMessage::IdrRequest@ == ControlView::IdrRequest,
        (ControlMessage::Ping { timestamp_ms })@ == (ControlView::Ping { timestamp_ms }),
        (ControlMessage::Pong { timestamp_ms })@ == (ControlView::Pong { timestamp_ms }),
        ControlMessage::Input(event)@ == ControlView::Input(event@),
{
}

/// The number in groups of seven bits, the lowest first.
pub open spec fn in_sevens(s: Seq<u8>) -> int
    decreases s.len(),
{
    if s.len() == 0 {
        0
    } else {
        s[0] % 128 + 128 * in_sevens(s.skip(1))
    }
}

/// A number travels in groups of seven bits, the lowest first. The highest bit
/// of a byte tells that another one follows, and no group is spent on nothing.
pub proof fn law_numbers_in_sevens(n: nat, i: int)
    ensures
        varint(n).len() > 0,
        in_sevens(varint(n)) == n,
        0 <= i < varint(n).len() - 1 ==> varint(n)[i] >= 128,
        varint(n).last() < 128,
        varint(n).len() > 1 ==> varint(n).last() > 0,
    decreases n,
{
    if n < 128 {
        assert(varint(n).skip(1) =~= Seq::empty());
        reveal_with_fuel(in_sevens, 2);
    } else {
        law_numbers_in_sevens(n / 128, i - 1);
        assert(varint(n).skip(1) =~= varint(n / 128));
        assert(varint(n).last() == varint(n / 128).last());
        if 0 < i < varint(n).len() - 1 {
            assert(varint(n)[i] == varint(n / 128)[i - 1]);
        }
        if varint(n / 128).len() == 1 {
            assert(varint(n / 128).skip(1) =~= Seq::empty());
            reveal_with_fuel(in_sevens, 2);
            assert(varint(n / 128)[0] == n / 128);
        }
    }
}

/// Numbers with a sign alternate: 0, -1, 1, -2, 2 and so on.
pub proof fn law_signs_alternate(n: nat)
    ensures
        zigzag(n as int) == 2 * n,
        zigzag(-n - 1) == 2 * n + 1,
{
}

/// A text or a row of bytes has its length in front.
pub proof fn law_length_in_front(bytes: Seq<u8>, text: Seq<char>)
    ensures
        enc_bytes(bytes) == varint(bytes.len()) + bytes,
        enc_str(text) == varint(vstd::utf8::encode_utf8(text).len()) + vstd::utf8::encode_utf8(
            text,
        ),
{
}

/// A list has its length in front, and then its items in their order.
pub proof fn law_items_in_order<T>(items: Seq<T>, item: T, one: spec_fn(T) -> Seq<u8>)
    ensures
        enc_list(items, one) == varint(items.len()) + enc_items(items, one),
        enc_items(Seq::<T>::empty(), one) == Seq::<u8>::empty(),
        enc_items(items.push(item), one) == enc_items(items, one) + one(item),
    decreases items.len(),
{
    if items.len() == 0 {
        let only = items.push(item);
        assert(only.skip(1) =~= Seq::empty());
        assert(only[0] == item);
        assert(enc_items(only.skip(1), one) == Seq::<u8>::empty());
        assert(enc_items(only, one) == one(item) + enc_items(only.skip(1), one));
        assert(one(item) + Seq::<u8>::empty() =~= one(item));
        assert(enc_items(items, one) + one(item) =~= one(item));
    } else {
        let rest = items.skip(1);
        law_items_in_order(rest, item, one);
        assert(items.push(item).skip(1) =~= rest.push(item));
        assert(one(items[0]) + (enc_items(rest, one) + one(item)) =~= one(items[0]) + enc_items(
            rest,
            one,
        ) + one(item));
    }
}

/// The numbers of the streams, and the sizes that both ends keep to.
pub proof fn law_streams_and_sizes()
    ensures
        crate::transport::STREAM_TYPE_VIDEO == 0,
        crate::transport::STREAM_TYPE_AUDIO == 1,
        crate::transport::USB_STREAM_MAGIC@ == seq![83u8, 71, 85, 66],
        crate::transport::STREAMING_INITIAL_MTU == 1452,
        crate::net::MAX_RESPONSE_LEN == 65536,
        crate::playback::OPUS_FRAME_SAMPLES == 480,
{
}

} // verus!
