//! The encoding of each message: how it is written, how it is read, and that
//! what was written reads back.
use crate::config::Codec;
use crate::input::{
    AbsAxisSpec, GamepadAxis, GamepadButton, GamepadDescriptor, GamepadDescriptorView,
    HidDescriptorView, HidDeviceDescriptor, HidReplyKind, InputEvent, InputView, MouseButton,
    RawGamepadEvent,
};
use crate::transport::{
    ControlMessage, ControlView, DatagramHeader, UsbTunnelHeader, UsbTunnelView,
};
use crate::wire::{
    Read, WireFault, enc_bool, enc_bytes, enc_items, enc_list, enc_str, lemma_add_assoc,
    lemma_enc_items_push, lemma_read_bool, lemma_read_bytes, lemma_read_i16, lemma_read_i32,
    lemma_read_list, lemma_read_string, lemma_read_u16, lemma_read_u32, lemma_read_u64,
    lemma_read_u8, put_bool, put_bytes, put_i16, put_i32, put_len, put_str, put_u16, put_u32,
    put_u64, put_u8, read_bool, read_bytes, read_i16, read_i32, read_items, read_list,
    read_string, read_u16, read_u32, read_u64, read_u8, take_bool, take_bytes, take_i16,
    take_i32, take_len, take_string, take_u16, take_u32, take_u64, take_u8, taken, taken_view,
    varint, zigzag,
};
use vstd::prelude::*;
use vstd::utf8::encode_utf8;

verus! {

/// Reads the tag of a variant.
pub open spec fn read_variant<T>(s: Seq<u8>, variants: Seq<T>) -> Read<T> {
    match read_u32(s) {
        Ok((tag, rest)) => if tag < variants.len() {
            Ok((variants[tag as int], rest))
        } else {
            Err(WireFault::UnknownVariant)
        },
        Err(e) => Err(e),
    }
}

/// The variants of [`Codec`] in the order of their tags.
pub open spec fn codec_variants() -> Seq<Codec> {
    seq![Codec::H265, Codec::Av1]
}

/// The tag of a variant.
pub open spec fn codec_tag(v: Codec) -> nat {
    match v {
        Codec::H265 => 0,
        Codec::Av1 => 1,
    }
}

pub open spec fn read_codec(s: Seq<u8>) -> Read<Codec> {
    read_variant(s, codec_variants())
}

fn put_codec(out: &mut Vec<u8>, v: Codec)
    ensures
        final(out)@ == old(out)@ + varint(codec_tag(v)),
{
    let tag: u32 = match v {
        Codec::H265 => 0,
        Codec::Av1 => 1,
    };
    put_u32(out, tag);
}

pub(crate) fn take_codec<'a>(s: &'a [u8]) -> (r: Result<(Codec, &'a [u8]), WireFault>)
    ensures
        taken(r) == read_codec(s@),
{
    let (tag, s) = take_u32(s)?;
    let v = match tag {
        0 => Codec::H265,
        1 => Codec::Av1,
        _ => return Err(WireFault::UnknownVariant),
    };
    Ok((v, s))
}

pub proof fn lemma_read_codec(v: Codec, rest: Seq<u8>)
    ensures
        read_codec(varint(codec_tag(v)) + rest) == Ok::<(Codec, Seq<u8>), WireFault>((v, rest)),
{
    lemma_read_u32(codec_tag(v) as u32, rest);
}

/// The variants of [`MouseButton`] in the order of their tags.
pub open spec fn mouse_button_variants() -> Seq<MouseButton> {
    seq![
        MouseButton::Left,
        MouseButton::Right,
        MouseButton::Middle,
        MouseButton::Side,
        MouseButton::Extra,
    ]
}

/// The tag of a variant.
pub open spec fn mouse_button_tag(v: MouseButton) -> nat {
    match v {
        MouseButton::Left => 0,
        MouseButton::Right => 1,
        MouseButton::Middle => 2,
        MouseButton::Side => 3,
        MouseButton::Extra => 4,
    }
}

pub open spec fn read_mouse_button(s: Seq<u8>) -> Read<MouseButton> {
    read_variant(s, mouse_button_variants())
}

fn put_mouse_button(out: &mut Vec<u8>, v: MouseButton)
    ensures
        final(out)@ == old(out)@ + varint(mouse_button_tag(v)),
{
    let tag: u32 = match v {
        MouseButton::Left => 0,
        MouseButton::Right => 1,
        MouseButton::Middle => 2,
        MouseButton::Side => 3,
        MouseButton::Extra => 4,
    };
    put_u32(out, tag);
}

pub(crate) fn take_mouse_button<'a>(s: &'a [u8]) -> (r: Result<(MouseButton, &'a [u8]), WireFault>)
    ensures
        taken(r) == read_mouse_button(s@),
{
    let (tag, s) = take_u32(s)?;
    let v = match tag {
        0 => MouseButton::Left,
        1 => MouseButton::Right,
        2 => MouseButton::Middle,
        3 => MouseButton::Side,
        4 => MouseButton::Extra,
        _ => return Err(WireFault::UnknownVariant),
    };
    Ok((v, s))
}

pub proof fn lemma_read_mouse_button(v: MouseButton, rest: Seq<u8>)
    ensures
        read_mouse_button(
            varint(mouse_button_tag(v)) + rest,
        ) == Ok::<(MouseButton, Seq<u8>), WireFault>((v, rest)),
{
    lemma_read_u32(mouse_button_tag(v) as u32, rest);
}

/// The variants of [`GamepadAxis`] in the order of their tags.
pub open spec fn gamepad_axis_variants() -> Seq<GamepadAxis> {
    seq![
        GamepadAxis::LeftX,
        GamepadAxis::LeftY,
        GamepadAxis::RightX,
        GamepadAxis::RightY,
        GamepadAxis::TriggerLeft,
        GamepadAxis::TriggerRight,
    ]
}

/// The tag of a variant.
pub open spec fn gamepad_axis_tag(v: GamepadAxis) -> nat {
    match v {
        GamepadAxis::LeftX => 0,
        GamepadAxis::LeftY => 1,
        GamepadAxis::RightX => 2,
        GamepadAxis::RightY => 3,
        GamepadAxis::TriggerLeft => 4,
        GamepadAxis::TriggerRight => 5,
    }
}

pub open spec fn read_gamepad_axis(s: Seq<u8>) -> Read<GamepadAxis> {
    read_variant(s, gamepad_axis_variants())
}

fn put_gamepad_axis(out: &mut Vec<u8>, v: GamepadAxis)
    ensures
        final(out)@ == old(out)@ + varint(gamepad_axis_tag(v)),
{
    let tag: u32 = match v {
        GamepadAxis::LeftX => 0,
        GamepadAxis::LeftY => 1,
        GamepadAxis::RightX => 2,
        GamepadAxis::RightY => 3,
        GamepadAxis::TriggerLeft => 4,
        GamepadAxis::TriggerRight => 5,
    };
    put_u32(out, tag);
}

pub(crate) fn take_gamepad_axis<'a>(s: &'a [u8]) -> (r: Result<(GamepadAxis, &'a [u8]), WireFault>)
    ensures
        taken(r) == read_gamepad_axis(s@),
{
    let (tag, s) = take_u32(s)?;
    let v = match tag {
        0 => GamepadAxis::LeftX,
        1 => GamepadAxis::LeftY,
        2 => GamepadAxis::RightX,
        3 => GamepadAxis::RightY,
        4 => GamepadAxis::TriggerLeft,
        5 => GamepadAxis::TriggerRight,
        _ => return Err(WireFault::UnknownVariant),
    };
    Ok((v, s))
}

pub proof fn lemma_read_gamepad_axis(v: GamepadAxis, rest: Seq<u8>)
    ensures
        read_gamepad_axis(
            varint(gamepad_axis_tag(v)) + rest,
        ) == Ok::<(GamepadAxis, Seq<u8>), WireFault>((v, rest)),
{
    lemma_read_u32(gamepad_axis_tag(v) as u32, rest);
}

/// The variants of [`GamepadButton`] in the order of their tags.
pub open spec fn gamepad_button_variants() -> Seq<GamepadButton> {
    seq![
        GamepadButton::South,
        GamepadButton::East,
        GamepadButton::North,
        GamepadButton::West,
        GamepadButton::Start,
        GamepadButton::Back,
        GamepadButton::Guide,
        GamepadButton::LeftStick,
        GamepadButton::RightStick,
        GamepadButton::LeftShoulder,
        GamepadButton::RightShoulder,
        GamepadButton::DPadUp,
        GamepadButton::DPadDown,
        GamepadButton::DPadLeft,
        GamepadButton::DPadRight,
    ]
}

/// The tag of a variant.
pub open spec fn gamepad_button_tag(v: GamepadButton) -> nat {
    match v {
        GamepadButton::South => 0,
        GamepadButton::East => 1,
        GamepadButton::North => 2,
        GamepadButton::West => 3,
        GamepadButton::Start => 4,
        GamepadButton::Back => 5,
        GamepadButton::Guide => 6,
        GamepadButton::LeftStick => 7,
        GamepadButton::RightStick => 8,
        GamepadButton::LeftShoulder => 9,
        GamepadButton::RightShoulder => 10,
        GamepadButton::DPadUp => 11,
        GamepadButton::DPadDown => 12,
        GamepadButton::DPadLeft => 13,
        GamepadButton::DPadRight => 14,
    }
}

pub open spec fn read_gamepad_button(s: Seq<u8>) -> Read<GamepadButton> {
    read_variant(s, gamepad_button_variants())
}

fn put_gamepad_button(out: &mut Vec<u8>, v: GamepadButton)
    ensures
        final(out)@ == old(out)@ + varint(gamepad_button_tag(v)),
{
    let tag: u32 = match v {
        GamepadButton::South => 0,
        GamepadButton::East => 1,
        GamepadButton::North => 2,
        GamepadButton::West => 3,
        GamepadButton::Start => 4,
        GamepadButton::Back => 5,
        GamepadButton::Guide => 6,
        GamepadButton::LeftStick => 7,
        GamepadButton::RightStick => 8,
        GamepadButton::LeftShoulder => 9,
        GamepadButton::RightShoulder => 10,
        GamepadButton::DPadUp => 11,
        GamepadButton::DPadDown => 12,
        GamepadButton::DPadLeft => 13,
        GamepadButton::DPadRight => 14,
    };
    put_u32(out, tag);
}

pub(crate) fn take_gamepad_button<'a>(s: &'a [u8]) -> (
    r: Result<(GamepadButton, &'a [u8]), WireFault>
)
    ensures
        taken(r) == read_gamepad_button(s@),
{
    let (tag, s) = take_u32(s)?;
    let v = match tag {
        0 => GamepadButton::South,
        1 => GamepadButton::East,
        2 => GamepadButton::North,
        3 => GamepadButton::West,
        4 => GamepadButton::Start,
        5 => GamepadButton::Back,
        6 => GamepadButton::Guide,
        7 => GamepadButton::LeftStick,
        8 => GamepadButton::RightStick,
        9 => GamepadButton::LeftShoulder,
        10 => GamepadButton::RightShoulder,
        11 => GamepadButton::DPadUp,
        12 => GamepadButton::DPadDown,
        13 => GamepadButton::DPadLeft,
        14 => GamepadButton::DPadRight,
        _ => return Err(WireFault::UnknownVariant),
    };
    Ok((v, s))
}

pub proof fn lemma_read_gamepad_button(v: GamepadButton, rest: Seq<u8>)
    ensures
        read_gamepad_button(
            varint(gamepad_button_tag(v)) + rest,
        ) == Ok::<(GamepadButton, Seq<u8>), WireFault>((v, rest)),
{
    lemma_read_u32(gamepad_button_tag(v) as u32, rest);
}

/// The variants of [`HidReplyKind`] in the order of their tags.
pub open spec fn hid_reply_kind_variants() -> Seq<HidReplyKind> {
    seq![HidReplyKind::GetReport, HidReplyKind::SetReport]
}

/// The tag of a variant.
pub open spec fn hid_reply_kind_tag(v: HidReplyKind) -> nat {
    match v {
        HidReplyKind::GetReport => 0,
        HidReplyKind::SetReport => 1,
    }
}

pub open spec fn read_hid_reply_kind(s: Seq<u8>) -> Read<HidReplyKind> {
    read_variant(s, hid_reply_kind_variants())
}

fn put_hid_reply_kind(out: &mut Vec<u8>, v: HidReplyKind)
    ensures
        final(out)@ == old(out)@ + varint(hid_reply_kind_tag(v)),
{
    let tag: u32 = match v {
        HidReplyKind::GetReport => 0,
        HidReplyKind::SetReport => 1,
    };
    put_u32(out, tag);
}

pub(crate) fn take_hid_reply_kind<'a>(s: &'a [u8]) -> (
    r: Result<(HidReplyKind, &'a [u8]), WireFault>
)
    ensures
        taken(r) == read_hid_reply_kind(s@),
{
    let (tag, s) = take_u32(s)?;
    let v = match tag {
        0 => HidReplyKind::GetReport,
        1 => HidReplyKind::SetReport,
        _ => return Err(WireFault::UnknownVariant),
    };
    Ok((v, s))
}

pub proof fn lemma_read_hid_reply_kind(v: HidReplyKind, rest: Seq<u8>)
    ensures
        read_hid_reply_kind(
            varint(hid_reply_kind_tag(v)) + rest,
        ) == Ok::<(HidReplyKind, Seq<u8>), WireFault>((v, rest)),
{
    lemma_read_u32(hid_reply_kind_tag(v) as u32, rest);
}

/// A datagram header.
pub open spec fn enc_header(v: DatagramHeader) -> Seq<u8> {
    seq![v.stream_type] + varint(v.frame_index as nat) + varint(v.fragment_index as nat)
        + varint(v.fragment_count as nat) + varint(v.pts as nat) + enc_bool(v.is_keyframe)
        + varint(v.capture_us as nat) + varint(v.convert_us as nat) + varint(v.encode_us as nat)
}

pub open spec fn read_header(s: Seq<u8>) -> Read<DatagramHeader> {
    match read_u8(s) {
        Err(e) => Err(e),
        Ok((stream_type, s)) =>
        match read_u32(s) {
            Err(e) => Err(e),
            Ok((frame_index, s)) =>
            match read_u16(s) {
                Err(e) => Err(e),
                Ok((fragment_index, s)) =>
                match read_u16(s) {
                    Err(e) => Err(e),
                    Ok((fragment_count, s)) =>
                    match read_u64(s) {
                        Err(e) => Err(e),
                        Ok((pts, s)) =>
                        match read_bool(s) {
                            Err(e) => Err(e),
                            Ok((is_keyframe, s)) =>
                            match read_u32(s) {
                                Err(e) => Err(e),
                                Ok((capture_us, s)) =>
                                match read_u32(s) {
                                    Err(e) => Err(e),
                                    Ok((convert_us, s)) =>
                                    match read_u32(s) {
                                        Err(e) => Err(e),
                                        Ok((encode_us, s)) =>
                                            Ok(
                                                (
                                                    DatagramHeader {
                                                        stream_type,
                                                        frame_index,
                                                        fragment_index,
                                                        fragment_count,
                                                        pts,
                                                        is_keyframe,
                                                        capture_us,
                                                        convert_us,
                                                        encode_us,
                                                    },
                                                    s,
                                                ),
                                            ),
                                        },
                                    },
                                },
                            },
                        },
                    },
                },
            },
        }
}

pub(crate) fn put_header(out: &mut Vec<u8>, v: &DatagramHeader)
    ensures
        final(out)@ == old(out)@ + enc_header(*v),
{
    broadcast use lemma_add_assoc;

    put_u8(out, v.stream_type);
    put_u32(out, v.frame_index);
    put_u16(out, v.fragment_index);
    put_u16(out, v.fragment_count);
    put_u64(out, v.pts);
    put_bool(out, v.is_keyframe);
    put_u32(out, v.capture_us);
    put_u32(out, v.convert_us);
    put_u32(out, v.encode_us);
}

pub(crate) fn take_header<'a>(s: &'a [u8]) -> (r: Result<(DatagramHeader, &'a [u8]), WireFault>)
    ensures
        taken(r) == read_header(s@),
{
    let (stream_type, s) = take_u8(s)?;
    let (frame_index, s) = take_u32(s)?;
    let (fragment_index, s) = take_u16(s)?;
    let (fragment_count, s) = take_u16(s)?;
    let (pts, s) = take_u64(s)?;
    let (is_keyframe, s) = take_bool(s)?;
    let (capture_us, s) = take_u32(s)?;
    let (convert_us, s) = take_u32(s)?;
    let (encode_us, s) = take_u32(s)?;
    Ok(
        (
            DatagramHeader {
                stream_type,
                frame_index,
                fragment_index,
                fragment_count,
                pts,
                is_keyframe,
                capture_us,
                convert_us,
                encode_us,
            },
            s,
        ),
    )
}

pub proof fn lemma_read_header(v: DatagramHeader, rest: Seq<u8>)
    ensures
        read_header(enc_header(v) + rest) == Ok::<(DatagramHeader, Seq<u8>), WireFault>((v, rest)),
{
    broadcast use lemma_add_assoc;

    let r0 = varint(v.frame_index as nat) + (
        varint(v.fragment_index as nat) + (
            varint(v.fragment_count as nat) + (
                varint(v.pts as nat) + (
                    enc_bool(v.is_keyframe) + (
                        varint(v.capture_us as nat) + (
                            varint(v.convert_us as nat) + (varint(v.encode_us as nat) + rest)
                        )
                    )
                )
            )
        )
    );
    let r1 = varint(v.fragment_index as nat) + (
        varint(v.fragment_count as nat) + (
            varint(v.pts as nat) + (
                enc_bool(v.is_keyframe) + (
                    varint(v.capture_us as nat) + (
                        varint(v.convert_us as nat) + (varint(v.encode_us as nat) + rest)
                    )
                )
            )
        )
    );
    let r2 = varint(v.fragment_count as nat) + (
        varint(v.pts as nat) + (
            enc_bool(v.is_keyframe) + (
                varint(v.capture_us as nat) + (
                    varint(v.convert_us as nat) + (varint(v.encode_us as nat) + rest)
                )
            )
        )
    );
    let r3 = varint(v.pts as nat) + (
        enc_bool(v.is_keyframe) + (
            varint(v.capture_us as nat) + (
                varint(v.convert_us as nat) + (varint(v.encode_us as nat) + rest)
            )
        )
    );
    let r4 = enc_bool(v.is_keyframe) + (
        varint(v.capture_us as nat) + (
            varint(v.convert_us as nat) + (varint(v.encode_us as nat) + rest)
        )
    );
    let r5 = varint(v.capture_us as nat) + (
        varint(v.convert_us as nat) + (varint(v.encode_us as nat) + rest)
    );
    let r6 = varint(v.convert_us as nat) + (varint(v.encode_us as nat) + rest);
    let r7 = varint(v.encode_us as nat) + rest;
    let r8 = rest;
    assert(enc_header(v) + rest == seq![v.stream_type] + r0);
    lemma_read_u8(v.stream_type, r0);
    lemma_read_u32(v.frame_index, r1);
    lemma_read_u16(v.fragment_index, r2);
    lemma_read_u16(v.fragment_count, r3);
    lemma_read_u64(v.pts, r4);
    lemma_read_bool(v.is_keyframe, r5);
    lemma_read_u32(v.capture_us, r6);
    lemma_read_u32(v.convert_us, r7);
    lemma_read_u32(v.encode_us, r8);
}

/// The lengths in the message can be written.
pub open spec fn usb_header_fits(v: UsbTunnelView) -> bool {
    &&& encode_utf8(v.name).len() <= usize::MAX
}

/// The header of a USB tunnel.
pub open spec fn enc_usb_header(v: UsbTunnelView) -> Seq<u8> {
    varint(v.vendor as nat) + varint(v.product as nat) + varint(v.devid as nat)
        + varint(v.speed as nat) + enc_str(v.name)
}

pub open spec fn read_usb_header(s: Seq<u8>) -> Read<UsbTunnelView> {
    match read_u16(s) {
        Err(e) => Err(e),
        Ok((vendor, s)) =>
        match read_u16(s) {
            Err(e) => Err(e),
            Ok((product, s)) =>
            match read_u32(s) {
                Err(e) => Err(e),
                Ok((devid, s)) =>
                match read_u32(s) {
                    Err(e) => Err(e),
                    Ok((speed, s)) =>
                    match read_string(s) {
                        Err(e) => Err(e),
                        Ok((name, s)) =>
                            Ok((UsbTunnelView { vendor, product, devid, speed, name }, s)),
                        },
                    },
                },
            },
        }
}

pub(crate) fn put_usb_header(out: &mut Vec<u8>, v: &UsbTunnelHeader)
    ensures
        final(out)@ == old(out)@ + enc_usb_header(v@),
{
    broadcast use lemma_add_assoc;

    put_u16(out, v.vendor);
    put_u16(out, v.product);
    put_u32(out, v.devid);
    put_u32(out, v.speed);
    put_str(out, v.name.as_str());
}

pub(crate) fn take_usb_header<'a>(s: &'a [u8]) -> (
    r: Result<(UsbTunnelHeader, &'a [u8]), WireFault>
)
    ensures
        taken_view(r) == read_usb_header(s@),
{
    let (vendor, s) = take_u16(s)?;
    let (product, s) = take_u16(s)?;
    let (devid, s) = take_u32(s)?;
    let (speed, s) = take_u32(s)?;
    let (name, s) = take_string(s)?;
    Ok((UsbTunnelHeader { vendor, product, devid, speed, name }, s))
}

pub proof fn lemma_read_usb_header(v: UsbTunnelView, rest: Seq<u8>)
    requires
        usb_header_fits(v),
    ensures
        read_usb_header(
            enc_usb_header(v) + rest,
        ) == Ok::<(UsbTunnelView, Seq<u8>), WireFault>((v, rest)),
{
    broadcast use lemma_add_assoc;

    let r0 = varint(v.product as nat) + (
        varint(v.devid as nat) + (varint(v.speed as nat) + (enc_str(v.name) + rest))
    );
    let r1 = varint(v.devid as nat) + (varint(v.speed as nat) + (enc_str(v.name) + rest));
    let r2 = varint(v.speed as nat) + (enc_str(v.name) + rest);
    let r3 = enc_str(v.name) + rest;
    let r4 = rest;
    assert(enc_usb_header(v) + rest == varint(v.vendor as nat) + r0);
    lemma_read_u16(v.vendor, r0);
    lemma_read_u16(v.product, r1);
    lemma_read_u32(v.devid, r2);
    lemma_read_u32(v.speed, r3);
    lemma_read_string(v.name, r4);
}

/// An absolute axis.
pub open spec fn enc_axis_spec(v: AbsAxisSpec) -> Seq<u8> {
    varint(v.code as nat) + varint(zigzag(v.value as int)) + varint(zigzag(v.minimum as int))
        + varint(zigzag(v.maximum as int)) + varint(zigzag(v.fuzz as int))
        + varint(zigzag(v.flat as int)) + varint(zigzag(v.resolution as int))
}

pub open spec fn read_axis_spec(s: Seq<u8>) -> Read<AbsAxisSpec> {
    match read_u16(s) {
        Err(e) => Err(e),
        Ok((code, s)) =>
        match read_i32(s) {
            Err(e) => Err(e),
            Ok((value, s)) =>
            match read_i32(s) {
                Err(e) => Err(e),
                Ok((minimum, s)) =>
                match read_i32(s) {
                    Err(e) => Err(e),
                    Ok((maximum, s)) =>
                    match read_i32(s) {
                        Err(e) => Err(e),
                        Ok((fuzz, s)) =>
                        match read_i32(s) {
                            Err(e) => Err(e),
                            Ok((flat, s)) =>
                            match read_i32(s) {
                                Err(e) => Err(e),
                                Ok((resolution, s)) =>
                                    Ok(
                                        (
                                            AbsAxisSpec {
                                                code,
                                                value,
                                                minimum,
                                                maximum,
                                                fuzz,
                                                flat,
                                                resolution,
                                            },
                                            s,
                                        ),
                                    ),
                                },
                            },
                        },
                    },
                },
            },
        }
}

pub(crate) fn put_axis_spec(out: &mut Vec<u8>, v: &AbsAxisSpec)
    ensures
        final(out)@ == old(out)@ + enc_axis_spec(*v),
{
    broadcast use lemma_add_assoc;

    put_u16(out, v.code);
    put_i32(out, v.value);
    put_i32(out, v.minimum);
    put_i32(out, v.maximum);
    put_i32(out, v.fuzz);
    put_i32(out, v.flat);
    put_i32(out, v.resolution);
}

pub(crate) fn take_axis_spec<'a>(s: &'a [u8]) -> (r: Result<(AbsAxisSpec, &'a [u8]), WireFault>)
    ensures
        taken(r) == read_axis_spec(s@),
{
    let (code, s) = take_u16(s)?;
    let (value, s) = take_i32(s)?;
    let (minimum, s) = take_i32(s)?;
    let (maximum, s) = take_i32(s)?;
    let (fuzz, s) = take_i32(s)?;
    let (flat, s) = take_i32(s)?;
    let (resolution, s) = take_i32(s)?;
    Ok((AbsAxisSpec { code, value, minimum, maximum, fuzz, flat, resolution }, s))
}

pub proof fn lemma_read_axis_spec(v: AbsAxisSpec, rest: Seq<u8>)
    ensures
        read_axis_spec(
            enc_axis_spec(v) + rest,
        ) == Ok::<(AbsAxisSpec, Seq<u8>), WireFault>((v, rest)),
{
    broadcast use lemma_add_assoc;

    let r0 = varint(zigzag(v.value as int)) + (
        varint(zigzag(v.minimum as int)) + (
            varint(zigzag(v.maximum as int)) + (
                varint(zigzag(v.fuzz as int)) + (
                    varint(zigzag(v.flat as int)) + (varint(zigzag(v.resolution as int)) + rest)
                )
            )
        )
    );
    let r1 = varint(zigzag(v.minimum as int)) + (
        varint(zigzag(v.maximum as int)) + (
            varint(zigzag(v.fuzz as int)) + (
                varint(zigzag(v.flat as int)) + (varint(zigzag(v.resolution as int)) + rest)
            )
        )
    );
    let r2 = varint(zigzag(v.maximum as int)) + (
        varint(zigzag(v.fuzz as int)) + (
            varint(zigzag(v.flat as int)) + (varint(zigzag(v.resolution as int)) + rest)
        )
    );
    let r3 = varint(zigzag(v.fuzz as int)) + (
        varint(zigzag(v.flat as int)) + (varint(zigzag(v.resolution as int)) + rest)
    );
    let r4 = varint(zigzag(v.flat as int)) + (varint(zigzag(v.resolution as int)) + rest);
    let r5 = varint(zigzag(v.resolution as int)) + rest;
    let r6 = rest;
    assert(enc_axis_spec(v) + rest == varint(v.code as nat) + r0);
    lemma_read_u16(v.code, r0);
    lemma_read_i32(v.value, r1);
    lemma_read_i32(v.minimum, r2);
    lemma_read_i32(v.maximum, r3);
    lemma_read_i32(v.fuzz, r4);
    lemma_read_i32(v.flat, r5);
    lemma_read_i32(v.resolution, r6);
}

/// A raw gamepad event.
pub open spec fn enc_raw_event(v: RawGamepadEvent) -> Seq<u8> {
    varint(v.event_type as nat) + varint(v.code as nat) + varint(zigzag(v.value as int))
}

pub open spec fn read_raw_event(s: Seq<u8>) -> Read<RawGamepadEvent> {
    match read_u16(s) {
        Err(e) => Err(e),
        Ok((event_type, s)) =>
        match read_u16(s) {
            Err(e) => Err(e),
            Ok((code, s)) =>
            match read_i32(s) {
                Err(e) => Err(e),
                Ok((value, s)) =>
                    Ok((RawGamepadEvent { event_type, code, value }, s)),
                },
            },
        }
}

pub(crate) fn put_raw_event(out: &mut Vec<u8>, v: &RawGamepadEvent)
    ensures
        final(out)@ == old(out)@ + enc_raw_event(*v),
{
    broadcast use lemma_add_assoc;

    put_u16(out, v.event_type);
    put_u16(out, v.code);
    put_i32(out, v.value);
}

pub(crate) fn take_raw_event<'a>(s: &'a [u8]) -> (
    r: Result<(RawGamepadEvent, &'a [u8]), WireFault>
)
    ensures
        taken(r) == read_raw_event(s@),
{
    let (event_type, s) = take_u16(s)?;
    let (code, s) = take_u16(s)?;
    let (value, s) = take_i32(s)?;
    Ok((RawGamepadEvent { event_type, code, value }, s))
}

pub proof fn lemma_read_raw_event(v: RawGamepadEvent, rest: Seq<u8>)
    ensures
        read_raw_event(enc_raw_event(v) + rest) == Ok::<(
            RawGamepadEvent,
            Seq<u8>,
        ), WireFault>((v, rest)),
{
    broadcast use lemma_add_assoc;

    let r0 = varint(v.code as nat) + (varint(zigzag(v.value as int)) + rest);
    let r1 = varint(zigzag(v.value as int)) + rest;
    let r2 = rest;
    assert(enc_raw_event(v) + rest == varint(v.event_type as nat) + r0);
    lemma_read_u16(v.event_type, r0);
    lemma_read_u16(v.code, r1);
    lemma_read_i32(v.value, r2);
}

/// A list of key codes.
pub open spec fn enc_key_list(v: Seq<u16>) -> Seq<u8> {
    enc_list(v, |v: u16| varint(v as nat))
}

pub open spec fn read_key_list(s: Seq<u8>) -> Read<Seq<u16>> {
    read_list(s, |s: Seq<u8>| read_u16(s))
}

fn put_key_list(out: &mut Vec<u8>, v: &Vec<u16>)
    ensures
        final(out)@ == old(out)@ + enc_key_list(v@),
{
    let ghost one = |v: u16| varint(v as nat);
    let ghost start = out@ + varint(v@.len());
    put_len(out, v.len());
    let mut n: usize = 0;
    assert(v@.take(0) =~= Seq::empty());
    assert(out@ =~= start + enc_items(v@.take(0), one));
    while n < v.len()
        invariant
            n <= v.len(),
            one == (|v: u16| varint(v as nat)),
            out@ == start + enc_items(v@.take(n as int), one),
        decreases v.len() - n,
    {
        proof {
            assert(v@.take(n + 1) =~= v@.take(n as int).push(v@[n as int]));
            lemma_enc_items_push(v@.take(n as int), v@[n as int], one);
        }
        put_u16(out, v[n]);
        assert(out@ =~= start + enc_items(v@.take(n + 1), one));
        n = n + 1;
    }
    assert(v@.take(n as int) =~= v@);
    assert(out@ =~= old(out)@ + enc_key_list(v@));
}

fn take_key_list<'a>(input: &'a [u8]) -> (r: Result<(Vec<u16>, &'a [u8]), WireFault>)
    ensures
        taken_view(r) == read_key_list(input@),
{
    let ghost one = |s: Seq<u8>| read_u16(s);
    let ghost whole = read_key_list(input@);
    let (count, s) = take_len(input)?;
    let mut s = s;
    let mut items: Vec<u16> = Vec::new();
    let mut n: usize = 0;
    proof {
        assert(whole == read_items(s@, count as nat, one));
        if let Ok((rest, end)) = whole {
            assert(Seq::<u16>::empty() + rest =~= rest);
        }
    }
    while n < count
        invariant
            n <= count,
            one == (|s: Seq<u8>| read_u16(s)),
            whole == read_key_list(input@),
            whole == (match read_items(s@, (count - n) as nat, one) {
                Ok((rest, end)) => Ok((items@ + rest, end)),
                Err(e) => Err(e),
            }),
        decreases count - n,
    {
        let ghost before = items@;
        let (item, rest) = take_u16(s)?;
        s = rest;
        items.push(item);
        n = n + 1;
        proof {
            if let Ok((more, end)) = read_items(s@, (count - n) as nat, one) {
                assert(before + (seq![item] + more) =~= items@ + more);
            }
        }
    }
    assert(items@ + Seq::<u16>::empty() =~= items@);
    Ok((items, s))
}

proof fn lemma_read_key_list(v: Seq<u16>, rest: Seq<u8>)
    requires
        v.len() <= usize::MAX,
    ensures
        read_key_list(enc_key_list(v) + rest) == Ok::<(Seq<u16>, Seq<u8>), WireFault>((v, rest)),
{
    let enc = |v: u16| varint(v as nat);
    let one = |s: Seq<u8>| read_u16(s);
    assert forall|i: int, end: Seq<u8>| 0 <= i < v.len() implies #[trigger] one(enc(v[i]) + end)
        == Ok::<(u16, Seq<u8>), WireFault>((v[i], end)) by {
        lemma_read_u16(v[i], end);
    }
    lemma_read_list(v, rest, enc, one);
}

/// A list of absolute axes.
pub open spec fn enc_axis_list(v: Seq<AbsAxisSpec>) -> Seq<u8> {
    enc_list(v, |v: AbsAxisSpec| enc_axis_spec(v))
}

pub open spec fn read_axis_list(s: Seq<u8>) -> Read<Seq<AbsAxisSpec>> {
    read_list(s, |s: Seq<u8>| read_axis_spec(s))
}

fn put_axis_list(out: &mut Vec<u8>, v: &Vec<AbsAxisSpec>)
    ensures
        final(out)@ == old(out)@ + enc_axis_list(v@),
{
    let ghost one = |v: AbsAxisSpec| enc_axis_spec(v);
    let ghost start = out@ + varint(v@.len());
    put_len(out, v.len());
    let mut n: usize = 0;
    assert(v@.take(0) =~= Seq::empty());
    assert(out@ =~= start + enc_items(v@.take(0), one));
    while n < v.len()
        invariant
            n <= v.len(),
            one == (|v: AbsAxisSpec| enc_axis_spec(v)),
            out@ == start + enc_items(v@.take(n as int), one),
        decreases v.len() - n,
    {
        proof {
            assert(v@.take(n + 1) =~= v@.take(n as int).push(v@[n as int]));
            lemma_enc_items_push(v@.take(n as int), v@[n as int], one);
        }
        put_axis_spec(out, &v[n]);
        assert(out@ =~= start + enc_items(v@.take(n + 1), one));
        n = n + 1;
    }
    assert(v@.take(n as int) =~= v@);
    assert(out@ =~= old(out)@ + enc_axis_list(v@));
}

fn take_axis_list<'a>(input: &'a [u8]) -> (r: Result<(Vec<AbsAxisSpec>, &'a [u8]), WireFault>)
    ensures
        taken_view(r) == read_axis_list(input@),
{
    let ghost one = |s: Seq<u8>| read_axis_spec(s);
    let ghost whole = read_axis_list(input@);
    let (count, s) = take_len(input)?;
    let mut s = s;
    let mut items: Vec<AbsAxisSpec> = Vec::new();
    let mut n: usize = 0;
    proof {
        assert(whole == read_items(s@, count as nat, one));
        if let Ok((rest, end)) = whole {
            assert(Seq::<AbsAxisSpec>::empty() + rest =~= rest);
        }
    }
    while n < count
        invariant
            n <= count,
            one == (|s: Seq<u8>| read_axis_spec(s)),
            whole == read_axis_list(input@),
            whole == (match read_items(s@, (count - n) as nat, one) {
                Ok((rest, end)) => Ok((items@ + rest, end)),
                Err(e) => Err(e),
            }),
        decreases count - n,
    {
        let ghost before = items@;
        let (item, rest) = take_axis_spec(s)?;
        s = rest;
        items.push(item);
        n = n + 1;
        proof {
            if let Ok((more, end)) = read_items(s@, (count - n) as nat, one) {
                assert(before + (seq![item] + more) =~= items@ + more);
            }
        }
    }
    assert(items@ + Seq::<AbsAxisSpec>::empty() =~= items@);
    Ok((items, s))
}

proof fn lemma_read_axis_list(v: Seq<AbsAxisSpec>, rest: Seq<u8>)
    requires
        v.len() <= usize::MAX,
    ensures
        read_axis_list(enc_axis_list(v) + rest) == Ok::<(
            Seq<AbsAxisSpec>,
            Seq<u8>,
        ), WireFault>((v, rest)),
{
    let enc = |v: AbsAxisSpec| enc_axis_spec(v);
    let one = |s: Seq<u8>| read_axis_spec(s);
    assert forall|i: int, end: Seq<u8>| 0 <= i < v.len() implies #[trigger] one(enc(v[i]) + end)
        == Ok::<(AbsAxisSpec, Seq<u8>), WireFault>((v[i], end)) by {
        lemma_read_axis_spec(v[i], end);
    }
    lemma_read_list(v, rest, enc, one);
}

/// A list of raw gamepad events.
pub open spec fn enc_event_list(v: Seq<RawGamepadEvent>) -> Seq<u8> {
    enc_list(v, |v: RawGamepadEvent| enc_raw_event(v))
}

pub open spec fn read_event_list(s: Seq<u8>) -> Read<Seq<RawGamepadEvent>> {
    read_list(s, |s: Seq<u8>| read_raw_event(s))
}

fn put_event_list(out: &mut Vec<u8>, v: &Vec<RawGamepadEvent>)
    ensures
        final(out)@ == old(out)@ + enc_event_list(v@),
{
    let ghost one = |v: RawGamepadEvent| enc_raw_event(v);
    let ghost start = out@ + varint(v@.len());
    put_len(out, v.len());
    let mut n: usize = 0;
    assert(v@.take(0) =~= Seq::empty());
    assert(out@ =~= start + enc_items(v@.take(0), one));
    while n < v.len()
        invariant
            n <= v.len(),
            one == (|v: RawGamepadEvent| enc_raw_event(v)),
            out@ == start + enc_items(v@.take(n as int), one),
        decreases v.len() - n,
    {
        proof {
            assert(v@.take(n + 1) =~= v@.take(n as int).push(v@[n as int]));
            lemma_enc_items_push(v@.take(n as int), v@[n as int], one);
        }
        put_raw_event(out, &v[n]);
        assert(out@ =~= start + enc_items(v@.take(n + 1), one));
        n = n + 1;
    }
    assert(v@.take(n as int) =~= v@);
    assert(out@ =~= old(out)@ + enc_event_list(v@));
}

fn take_event_list<'a>(input: &'a [u8]) -> (r: Result<(Vec<RawGamepadEvent>, &'a [u8]), WireFault>)
    ensures
        taken_view(r) == read_event_list(input@),
{
    let ghost one = |s: Seq<u8>| read_raw_event(s);
    let ghost whole = read_event_list(input@);
    let (count, s) = take_len(input)?;
    let mut s = s;
    let mut items: Vec<RawGamepadEvent> = Vec::new();
    let mut n: usize = 0;
    proof {
        assert(whole == read_items(s@, count as nat, one));
        if let Ok((rest, end)) = whole {
            assert(Seq::<RawGamepadEvent>::empty() + rest =~= rest);
        }
    }
    while n < count
        invariant
            n <= count,
            one == (|s: Seq<u8>| read_raw_event(s)),
            whole == read_event_list(input@),
            whole == (match read_items(s@, (count - n) as nat, one) {
                Ok((rest, end)) => Ok((items@ + rest, end)),
                Err(e) => Err(e),
            }),
        decreases count - n,
    {
        let ghost before = items@;
        let (item, rest) = take_raw_event(s)?;
        s = rest;
        items.push(item);
        n = n + 1;
        proof {
            if let Ok((more, end)) = read_items(s@, (count - n) as nat, one) {
                assert(before + (seq![item] + more) =~= items@ + more);
            }
        }
    }
    assert(items@ + Seq::<RawGamepadEvent>::empty() =~= items@);
    Ok((items, s))
}

proof fn lemma_read_event_list(v: Seq<RawGamepadEvent>, rest: Seq<u8>)
    requires
        v.len() <= usize::MAX,
    ensures
        read_event_list(enc_event_list(v) + rest) == Ok::<(
            Seq<RawGamepadEvent>,
            Seq<u8>,
        ), WireFault>((v, rest)),
{
    let enc = |v: RawGamepadEvent| enc_raw_event(v);
    let one = |s: Seq<u8>| read_raw_event(s);
    assert forall|i: int, end: Seq<u8>| 0 <= i < v.len() implies #[trigger] one(enc(v[i]) + end)
        == Ok::<(RawGamepadEvent, Seq<u8>), WireFault>((v[i], end)) by {
        lemma_read_raw_event(v[i], end);
    }
    lemma_read_list(v, rest, enc, one);
}

/// The lengths in the message can be written.
pub open spec fn gamepad_descriptor_fits(v: GamepadDescriptorView) -> bool {
    &&& encode_utf8(v.name).len() <= usize::MAX
    &&& v.keys.len() <= usize::MAX
    &&& v.abs_axes.len() <= usize::MAX
}

/// The description of a gamepad.
#[verifier::opaque]
pub open spec fn enc_gamepad_descriptor(v: GamepadDescriptorView) -> Seq<u8> {
    enc_str(v.name) + varint(v.bus_type as nat) + varint(v.vendor as nat)
        + varint(v.product as nat) + varint(v.version as nat) + enc_key_list(v.keys)
        + enc_axis_list(v.abs_axes)
}

#[verifier::opaque]
pub open spec fn read_gamepad_descriptor(s: Seq<u8>) -> Read<GamepadDescriptorView> {
    match read_string(s) {
        Err(e) => Err(e),
        Ok((name, s)) =>
        match read_u16(s) {
            Err(e) => Err(e),
            Ok((bus_type, s)) =>
            match read_u16(s) {
                Err(e) => Err(e),
                Ok((vendor, s)) =>
                match read_u16(s) {
                    Err(e) => Err(e),
                    Ok((product, s)) =>
                    match read_u16(s) {
                        Err(e) => Err(e),
                        Ok((version, s)) =>
                        match read_key_list(s) {
                            Err(e) => Err(e),
                            Ok((keys, s)) =>
                            match read_axis_list(s) {
                                Err(e) => Err(e),
                                Ok((abs_axes, s)) =>
                                    Ok(
                                        (
                                            GamepadDescriptorView {
                                                name,
                                                bus_type,
                                                vendor,
                                                product,
                                                version,
                                                keys,
                                                abs_axes,
                                            },
                                            s,
                                        ),
                                    ),
                                },
                            },
                        },
                    },
                },
            },
        }
}

pub(crate) fn put_gamepad_descriptor(out: &mut Vec<u8>, v: &GamepadDescriptor)
    ensures
        final(out)@ == old(out)@ + enc_gamepad_descriptor(v@),
{
    broadcast use lemma_add_assoc;

    proof {
        reveal(enc_gamepad_descriptor);
    }
    put_str(out, v.name.as_str());
    put_u16(out, v.bus_type);
    put_u16(out, v.vendor);
    put_u16(out, v.product);
    put_u16(out, v.version);
    put_key_list(out, &v.keys);
    put_axis_list(out, &v.abs_axes);
}

pub(crate) fn take_gamepad_descriptor<'a>(s: &'a [u8]) -> (
    r: Result<(GamepadDescriptor, &'a [u8]), WireFault>
)
    ensures
        taken_view(r) == read_gamepad_descriptor(s@),
{
    proof {
        reveal(read_gamepad_descriptor);
    }
    let (name, s) = take_string(s)?;
    let (bus_type, s) = take_u16(s)?;
    let (vendor, s) = take_u16(s)?;
    let (product, s) = take_u16(s)?;
    let (version, s) = take_u16(s)?;
    let (keys, s) = take_key_list(s)?;
    let (abs_axes, s) = take_axis_list(s)?;
    Ok((GamepadDescriptor { name, bus_type, vendor, product, version, keys, abs_axes }, s))
}

pub proof fn lemma_read_gamepad_descriptor(v: GamepadDescriptorView, rest: Seq<u8>)
    requires
        gamepad_descriptor_fits(v),
    ensures
        read_gamepad_descriptor(
            enc_gamepad_descriptor(v) + rest,
        ) == Ok::<(GamepadDescriptorView, Seq<u8>), WireFault>((v, rest)),
{
    broadcast use lemma_add_assoc;

    reveal(enc_gamepad_descriptor);
    reveal(read_gamepad_descriptor);
    let r0 = varint(v.bus_type as nat) + (
        varint(v.vendor as nat) + (
            varint(v.product as nat) + (
                varint(v.version as nat) + (
                    enc_key_list(v.keys) + (enc_axis_list(v.abs_axes) + rest)
                )
            )
        )
    );
    let r1 = varint(v.vendor as nat) + (
        varint(v.product as nat) + (
            varint(v.version as nat) + (enc_key_list(v.keys) + (enc_axis_list(v.abs_axes) + rest))
        )
    );
    let r2 = varint(v.product as nat) + (
        varint(v.version as nat) + (enc_key_list(v.keys) + (enc_axis_list(v.abs_axes) + rest))
    );
    let r3 = varint(v.version as nat) + (
        enc_key_list(v.keys) + (enc_axis_list(v.abs_axes) + rest)
    );
    let r4 = enc_key_list(v.keys) + (enc_axis_list(v.abs_axes) + rest);
    let r5 = enc_axis_list(v.abs_axes) + rest;
    let r6 = rest;
    assert(enc_gamepad_descriptor(v) + rest == enc_str(v.name) + r0);
    lemma_read_string(v.name, r0);
    lemma_read_u16(v.bus_type, r1);
    lemma_read_u16(v.vendor, r2);
    lemma_read_u16(v.product, r3);
    lemma_read_u16(v.version, r4);
    lemma_read_key_list(v.keys, r5);
    lemma_read_axis_list(v.abs_axes, r6);
}

/// The lengths in the message can be written.
pub open spec fn hid_descriptor_fits(v: HidDescriptorView) -> bool {
    &&& encode_utf8(v.name).len() <= usize::MAX
    &&& encode_utf8(v.phys).len() <= usize::MAX
    &&& encode_utf8(v.uniq).len() <= usize::MAX
    &&& v.report_descriptor.len() <= usize::MAX
}

/// The description of a HID device.
#[verifier::opaque]
pub open spec fn enc_hid_descriptor(v: HidDescriptorView) -> Seq<u8> {
    enc_str(v.name) + enc_str(v.phys) + enc_str(v.uniq) + varint(v.bus_type as nat)
        + varint(v.vendor as nat) + varint(v.product as nat) + enc_bytes(v.report_descriptor)
}

#[verifier::opaque]
pub open spec fn read_hid_descriptor(s: Seq<u8>) -> Read<HidDescriptorView> {
    match read_string(s) {
        Err(e) => Err(e),
        Ok((name, s)) =>
        match read_string(s) {
            Err(e) => Err(e),
            Ok((phys, s)) =>
            match read_string(s) {
                Err(e) => Err(e),
                Ok((uniq, s)) =>
                match read_u32(s) {
                    Err(e) => Err(e),
                    Ok((bus_type, s)) =>
                    match read_u16(s) {
                        Err(e) => Err(e),
                        Ok((vendor, s)) =>
                        match read_u16(s) {
                            Err(e) => Err(e),
                            Ok((product, s)) =>
                            match read_bytes(s) {
                                Err(e) => Err(e),
                                Ok((report_descriptor, s)) =>
                                    Ok(
                                        (
                                            HidDescriptorView {
                                                name,
                                                phys,
                                                uniq,
                                                bus_type,
                                                vendor,
                                                product,
                                                report_descriptor,
                                            },
                                            s,
                                        ),
                                    ),
                                },
                            },
                        },
                    },
                },
            },
        }
}

pub(crate) fn put_hid_descriptor(out: &mut Vec<u8>, v: &HidDeviceDescriptor)
    ensures
        final(out)@ == old(out)@ + enc_hid_descriptor(v@),
{
    broadcast use lemma_add_assoc;

    proof {
        reveal(enc_hid_descriptor);
    }
    put_str(out, v.name.as_str());
    put_str(out, v.phys.as_str());
    put_str(out, v.uniq.as_str());
    put_u32(out, v.bus_type);
    put_u16(out, v.vendor);
    put_u16(out, v.product);
    put_bytes(out, v.report_descriptor.as_slice());
}

pub(crate) fn take_hid_descriptor<'a>(s: &'a [u8]) -> (
    r: Result<(HidDeviceDescriptor, &'a [u8]), WireFault>
)
    ensures
        taken_view(r) == read_hid_descriptor(s@),
{
    proof {
        reveal(read_hid_descriptor);
    }
    let (name, s) = take_string(s)?;
    let (phys, s) = take_string(s)?;
    let (uniq, s) = take_string(s)?;
    let (bus_type, s) = take_u32(s)?;
    let (vendor, s) = take_u16(s)?;
    let (product, s) = take_u16(s)?;
    let (report_descriptor, s) = take_bytes(s)?;
    Ok((HidDeviceDescriptor { name, phys, uniq, bus_type, vendor, product, report_descriptor }, s))
}

pub proof fn lemma_read_hid_descriptor(v: HidDescriptorView, rest: Seq<u8>)
    requires
        hid_descriptor_fits(v),
    ensures
        read_hid_descriptor(
            enc_hid_descriptor(v) + rest,
        ) == Ok::<(HidDescriptorView, Seq<u8>), WireFault>((v, rest)),
{
    broadcast use lemma_add_assoc;

    reveal(enc_hid_descriptor);
    reveal(read_hid_descriptor);
    let r0 = enc_str(v.phys) + (
        enc_str(v.uniq) + (
            varint(v.bus_type as nat) + (
                varint(v.vendor as nat) + (
                    varint(v.product as nat) + (enc_bytes(v.report_descriptor) + rest)
                )
            )
        )
    );
    let r1 = enc_str(v.uniq) + (
        varint(v.bus_type as nat) + (
            varint(v.vendor as nat) + (
                varint(v.product as nat) + (enc_bytes(v.report_descriptor) + rest)
            )
        )
    );
    let r2 = varint(v.bus_type as nat) + (
        varint(v.vendor as nat) + (
            varint(v.product as nat) + (enc_bytes(v.report_descriptor) + rest)
        )
    );
    let r3 = varint(v.vendor as nat) + (
        varint(v.product as nat) + (enc_bytes(v.report_descriptor) + rest)
    );
    let r4 = varint(v.product as nat) + (enc_bytes(v.report_descriptor) + rest);
    let r5 = enc_bytes(v.report_descriptor) + rest;
    let r6 = rest;
    assert(enc_hid_descriptor(v) + rest == enc_str(v.name) + r0);
    lemma_read_string(v.name, r0);
    lemma_read_string(v.phys, r1);
    lemma_read_string(v.uniq, r2);
    lemma_read_u32(v.bus_type, r3);
    lemma_read_u16(v.vendor, r4);
    lemma_read_u16(v.product, r5);
    lemma_read_bytes(v.report_descriptor, r6);
}

/// The lengths in the message can be written.
pub open spec fn input_fits(v: InputView) -> bool {
    match v {
        InputView::GamepadPassthroughConnected {
            pad,
            descriptor,
        } => gamepad_descriptor_fits(descriptor),
        InputView::GamepadPassthroughEvents { pad, events } => events.len() <= usize::MAX,
        InputView::HidPassthroughConnected { hid, descriptor } => hid_descriptor_fits(descriptor),
        InputView::HidPassthroughReport { hid, data } => data.len() <= usize::MAX,
        InputView::HidPassthroughReply {
            hid,
            request,
            kind,
            err,
            data,
        } => data.len() <= usize::MAX,
        _ => true,
    }
}

/// An input event.
pub open spec fn enc_input(v: InputView) -> Seq<u8> {
    match v {
        InputView::Keyboard {
            scancode,
            pressed,
        } => varint(0) + varint(scancode as nat) + enc_bool(pressed),
        InputView::MouseMove { dx, dy } => varint(1) + varint(
            zigzag(dx as int),
        ) + varint(zigzag(dy as int)),
        InputView::MouseButton { button, pressed } => varint(2) + varint(
            mouse_button_tag(button),
        ) + enc_bool(pressed),
        InputView::MouseWheel { dx, dy } => varint(3) + varint(
            zigzag(dx as int),
        ) + varint(zigzag(dy as int)),
        InputView::GamepadAxis { pad, axis, value } => varint(4) + seq![pad] + varint(
            gamepad_axis_tag(axis),
        ) + varint(zigzag(value as int)),
        InputView::GamepadButton { pad, button, pressed } => varint(5) + seq![pad] + varint(
            gamepad_button_tag(button),
        ) + enc_bool(pressed),
        InputView::GamepadConnected { pad } => varint(6) + seq![pad],
        InputView::GamepadDisconnected { pad } => varint(7) + seq![pad],
        InputView::GamepadPassthroughConnected {
            pad,
            descriptor,
        } => varint(8) + seq![pad] + enc_gamepad_descriptor(descriptor),
        InputView::GamepadPassthroughEvents {
            pad,
            events,
        } => varint(9) + seq![pad] + enc_event_list(events),
        InputView::HidPassthroughConnected {
            hid,
            descriptor,
        } => varint(10) + seq![hid] + enc_hid_descriptor(descriptor),
        InputView::HidPassthroughReport { hid, data } => varint(11) + seq![hid] + enc_bytes(data),
        InputView::HidPassthroughReply {
            hid,
            request,
            kind,
            err,
            data,
        } => varint(12) + seq![hid] + varint(request as nat) + varint(
            hid_reply_kind_tag(kind),
        ) + enc_bool(err) + enc_bytes(data),
        InputView::HidPassthroughDisconnected { hid } => varint(13) + seq![hid],
    }
}

/// Reads the fields of `Keyboard`.
pub open spec fn read_input_keyboard(s: Seq<u8>) -> Read<InputView> {
    match read_u32(s) {
        Err(e) => Err(e),
        Ok((scancode, s)) =>
        match read_bool(s) {
            Err(e) => Err(e),
            Ok((pressed, s)) =>
                Ok((InputView::Keyboard { scancode, pressed }, s)),
            },
        }
}

/// Reads the fields of `MouseMove`.
pub open spec fn read_input_mouse_move(s: Seq<u8>) -> Read<InputView> {
    match read_i32(s) {
        Err(e) => Err(e),
        Ok((dx, s)) =>
        match read_i32(s) {
            Err(e) => Err(e),
            Ok((dy, s)) =>
                Ok((InputView::MouseMove { dx, dy }, s)),
            },
        }
}

/// Reads the fields of `MouseButton`.
pub open spec fn read_input_mouse_button(s: Seq<u8>) -> Read<InputView> {
    match read_mouse_button(s) {
        Err(e) => Err(e),
        Ok((button, s)) =>
        match read_bool(s) {
            Err(e) => Err(e),
            Ok((pressed, s)) =>
                Ok((InputView::MouseButton { button, pressed }, s)),
            },
        }
}

/// Reads the fields of `MouseWheel`.
pub open spec fn read_input_mouse_wheel(s: Seq<u8>) -> Read<InputView> {
    match read_i32(s) {
        Err(e) => Err(e),
        Ok((dx, s)) =>
        match read_i32(s) {
            Err(e) => Err(e),
            Ok((dy, s)) =>
                Ok((InputView::MouseWheel { dx, dy }, s)),
            },
        }
}

/// Reads the fields of `GamepadAxis`.
pub open spec fn read_input_gamepad_axis(s: Seq<u8>) -> Read<InputView> {
    match read_u8(s) {
        Err(e) => Err(e),
        Ok((pad, s)) =>
        match read_gamepad_axis(s) {
            Err(e) => Err(e),
            Ok((axis, s)) =>
            match read_i16(s) {
                Err(e) => Err(e),
                Ok((value, s)) =>
                    Ok((InputView::GamepadAxis { pad, axis, value }, s)),
                },
            },
        }
}

/// Reads the fields of `GamepadButton`.
pub open spec fn read_input_gamepad_button(s: Seq<u8>) -> Read<InputView> {
    match read_u8(s) {
        Err(e) => Err(e),
        Ok((pad, s)) =>
        match read_gamepad_button(s) {
            Err(e) => Err(e),
            Ok((button, s)) =>
            match read_bool(s) {
                Err(e) => Err(e),
                Ok((pressed, s)) =>
                    Ok((InputView::GamepadButton { pad, button, pressed }, s)),
                },
            },
        }
}

/// Reads the fields of `GamepadConnected`.
pub open spec fn read_input_gamepad_connected(s: Seq<u8>) -> Read<InputView> {
    match read_u8(s) {
        Err(e) => Err(e),
        Ok((pad, s)) =>
            Ok((InputView::GamepadConnected { pad }, s)),
        }
}

/// Reads the fields of `GamepadDisconnected`.
pub open spec fn read_input_gamepad_disconnected(s: Seq<u8>) -> Read<InputView> {
    match read_u8(s) {
        Err(e) => Err(e),
        Ok((pad, s)) =>
            Ok((InputView::GamepadDisconnected { pad }, s)),
        }
}

/// Reads the fields of `GamepadPassthroughConnected`.
pub open spec fn read_input_gamepad_passthrough_connected(s: Seq<u8>) -> Read<InputView> {
    match read_u8(s) {
        Err(e) => Err(e),
        Ok((pad, s)) =>
        match read_gamepad_descriptor(s) {
            Err(e) => Err(e),
            Ok((descriptor, s)) =>
                Ok((InputView::GamepadPassthroughConnected { pad, descriptor }, s)),
            },
        }
}

/// Reads the fields of `GamepadPassthroughEvents`.
pub open spec fn read_input_gamepad_passthrough_events(s: Seq<u8>) -> Read<InputView> {
    match read_u8(s) {
        Err(e) => Err(e),
        Ok((pad, s)) =>
        match read_event_list(s) {
            Err(e) => Err(e),
            Ok((events, s)) =>
                Ok((InputView::GamepadPassthroughEvents { pad, events }, s)),
            },
        }
}

/// Reads the fields of `HidPassthroughConnected`.
pub open spec fn read_input_hid_passthrough_connected(s: Seq<u8>) -> Read<InputView> {
    match read_u8(s) {
        Err(e) => Err(e),
        Ok((hid, s)) =>
        match read_hid_descriptor(s) {
            Err(e) => Err(e),
            Ok((descriptor, s)) =>
                Ok((InputView::HidPassthroughConnected { hid, descriptor }, s)),
            },
        }
}

/// Reads the fields of `HidPassthroughReport`.
pub open spec fn read_input_hid_passthrough_report(s: Seq<u8>) -> Read<InputView> {
    match read_u8(s) {
        Err(e) => Err(e),
        Ok((hid, s)) =>
        match read_bytes(s) {
            Err(e) => Err(e),
            Ok((data, s)) =>
                Ok((InputView::HidPassthroughReport { hid, data }, s)),
            },
        }
}

/// Reads the fields of `HidPassthroughReply`.
pub open spec fn read_input_hid_passthrough_reply(s: Seq<u8>) -> Read<InputView> {
    match read_u8(s) {
        Err(e) => Err(e),
        Ok((hid, s)) =>
        match read_u32(s) {
            Err(e) => Err(e),
            Ok((request, s)) =>
            match read_hid_reply_kind(s) {
                Err(e) => Err(e),
                Ok((kind, s)) =>
                match read_bool(s) {
                    Err(e) => Err(e),
                    Ok((err, s)) =>
                    match read_bytes(s) {
                        Err(e) => Err(e),
                        Ok((data, s)) =>
                            Ok(
                                (
                                    InputView::HidPassthroughReply {
                                        hid,
                                        request,
                                        kind,
                                        err,
                                        data,
                                    },
                                    s,
                                ),
                            ),
                        },
                    },
                },
            },
        }
}

/// Reads the fields of `HidPassthroughDisconnected`.
pub open spec fn read_input_hid_passthrough_disconnected(s: Seq<u8>) -> Read<InputView> {
    match read_u8(s) {
        Err(e) => Err(e),
        Ok((hid, s)) =>
            Ok((InputView::HidPassthroughDisconnected { hid }, s)),
        }
}

pub open spec fn read_input(s: Seq<u8>) -> Read<InputView> {
    match read_u32(s) {
        Err(e) => Err(e),
        Ok((tag, s)) => {
            if tag == 0 {
                read_input_keyboard(s)
            } else if tag == 1 {
                read_input_mouse_move(s)
            } else if tag == 2 {
                read_input_mouse_button(s)
            } else if tag == 3 {
                read_input_mouse_wheel(s)
            } else if tag == 4 {
                read_input_gamepad_axis(s)
            } else if tag == 5 {
                read_input_gamepad_button(s)
            } else if tag == 6 {
                read_input_gamepad_connected(s)
            } else if tag == 7 {
                read_input_gamepad_disconnected(s)
            } else if tag == 8 {
                read_input_gamepad_passthrough_connected(s)
            } else if tag == 9 {
                read_input_gamepad_passthrough_events(s)
            } else if tag == 10 {
                read_input_hid_passthrough_connected(s)
            } else if tag == 11 {
                read_input_hid_passthrough_report(s)
            } else if tag == 12 {
                read_input_hid_passthrough_reply(s)
            } else if tag == 13 {
                read_input_hid_passthrough_disconnected(s)
            } else {
                Err(WireFault::UnknownVariant)
            }
        },
    }
}

pub(crate) fn put_input(out: &mut Vec<u8>, v: &InputEvent)
    ensures
        final(out)@ == old(out)@ + enc_input(v@),
{
    broadcast use lemma_add_assoc;

    match v {
        InputEvent::Keyboard { scancode, pressed } => {
            put_u32(out, 0);
            put_u32(out, *scancode);
            put_bool(out, *pressed);
        },
        InputEvent::MouseMove { dx, dy } => {
            put_u32(out, 1);
            put_i32(out, *dx);
            put_i32(out, *dy);
        },
        InputEvent::MouseButton { button, pressed } => {
            put_u32(out, 2);
            put_mouse_button(out, *button);
            put_bool(out, *pressed);
        },
        InputEvent::MouseWheel { dx, dy } => {
            put_u32(out, 3);
            put_i32(out, *dx);
            put_i32(out, *dy);
        },
        InputEvent::GamepadAxis { pad, axis, value } => {
            put_u32(out, 4);
            put_u8(out, *pad);
            put_gamepad_axis(out, *axis);
            put_i16(out, *value);
        },
        InputEvent::GamepadButton { pad, button, pressed } => {
            put_u32(out, 5);
            put_u8(out, *pad);
            put_gamepad_button(out, *button);
            put_bool(out, *pressed);
        },
        InputEvent::GamepadConnected { pad } => {
            put_u32(out, 6);
            put_u8(out, *pad);
        },
        InputEvent::GamepadDisconnected { pad } => {
            put_u32(out, 7);
            put_u8(out, *pad);
        },
        InputEvent::GamepadPassthroughConnected { pad, descriptor } => {
            put_u32(out, 8);
            put_u8(out, *pad);
            put_gamepad_descriptor(out, descriptor);
        },
        InputEvent::GamepadPassthroughEvents { pad, events } => {
            put_u32(out, 9);
            put_u8(out, *pad);
            put_event_list(out, events);
        },
        InputEvent::HidPassthroughConnected { hid, descriptor } => {
            put_u32(out, 10);
            put_u8(out, *hid);
            put_hid_descriptor(out, descriptor);
        },
        InputEvent::HidPassthroughReport { hid, data } => {
            put_u32(out, 11);
            put_u8(out, *hid);
            put_bytes(out, data.as_slice());
        },
        InputEvent::HidPassthroughReply { hid, request, kind, err, data } => {
            put_u32(out, 12);
            put_u8(out, *hid);
            put_u32(out, *request);
            put_hid_reply_kind(out, *kind);
            put_bool(out, *err);
            put_bytes(out, data.as_slice());
        },
        InputEvent::HidPassthroughDisconnected { hid } => {
            put_u32(out, 13);
            put_u8(out, *hid);
        },
    }
}

fn take_input_keyboard<'a>(s: &'a [u8]) -> (r: Result<(InputEvent, &'a [u8]), WireFault>)
    ensures
        taken_view(r) == read_input_keyboard(s@),
{
    let (scancode, s) = take_u32(s)?;
    let (pressed, s) = take_bool(s)?;
    Ok((InputEvent::Keyboard { scancode, pressed }, s))
}

fn take_input_mouse_move<'a>(s: &'a [u8]) -> (r: Result<(InputEvent, &'a [u8]), WireFault>)
    ensures
        taken_view(r) == read_input_mouse_move(s@),
{
    let (dx, s) = take_i32(s)?;
    let (dy, s) = take_i32(s)?;
    Ok((InputEvent::MouseMove { dx, dy }, s))
}

fn take_input_mouse_button<'a>(s: &'a [u8]) -> (r: Result<(InputEvent, &'a [u8]), WireFault>)
    ensures
        taken_view(r) == read_input_mouse_button(s@),
{
    let (button, s) = take_mouse_button(s)?;
    let (pressed, s) = take_bool(s)?;
    Ok((InputEvent::MouseButton { button, pressed }, s))
}

fn take_input_mouse_wheel<'a>(s: &'a [u8]) -> (r: Result<(InputEvent, &'a [u8]), WireFault>)
    ensures
        taken_view(r) == read_input_mouse_wheel(s@),
{
    let (dx, s) = take_i32(s)?;
    let (dy, s) = take_i32(s)?;
    Ok((InputEvent::MouseWheel { dx, dy }, s))
}

fn take_input_gamepad_axis<'a>(s: &'a [u8]) -> (r: Result<(InputEvent, &'a [u8]), WireFault>)
    ensures
        taken_view(r) == read_input_gamepad_axis(s@),
{
    let (pad, s) = take_u8(s)?;
    let (axis, s) = take_gamepad_axis(s)?;
    let (value, s) = take_i16(s)?;
    Ok((InputEvent::GamepadAxis { pad, axis, value }, s))
}

fn take_input_gamepad_button<'a>(s: &'a [u8]) -> (r: Result<(InputEvent, &'a [u8]), WireFault>)
    ensures
        taken_view(r) == read_input_gamepad_button(s@),
{
    let (pad, s) = take_u8(s)?;
    let (button, s) = take_gamepad_button(s)?;
    let (pressed, s) = take_bool(s)?;
    Ok((InputEvent::GamepadButton { pad, button, pressed }, s))
}

fn take_input_gamepad_connected<'a>(s: &'a [u8]) -> (r: Result<(InputEvent, &'a [u8]), WireFault>)
    ensures
        taken_view(r) == read_input_gamepad_connected(s@),
{
    let (pad, s) = take_u8(s)?;
    Ok((InputEvent::GamepadConnected { pad }, s))
}

fn take_input_gamepad_disconnected<'a>(s: &'a [u8]) -> (
    r: Result<(InputEvent, &'a [u8]), WireFault>
)
    ensures
        taken_view(r) == read_input_gamepad_disconnected(s@),
{
    let (pad, s) = take_u8(s)?;
    Ok((InputEvent::GamepadDisconnected { pad }, s))
}

fn take_input_gamepad_passthrough_connected<'a>(s: &'a [u8]) -> (
    r: Result<(InputEvent, &'a [u8]), WireFault>
)
    ensures
        taken_view(r) == read_input_gamepad_passthrough_connected(s@),
{
    let (pad, s) = take_u8(s)?;
    let (descriptor, s) = take_gamepad_descriptor(s)?;
    Ok((InputEvent::GamepadPassthroughConnected { pad, descriptor }, s))
}

fn take_input_gamepad_passthrough_events<'a>(s: &'a [u8]) -> (
    r: Result<(InputEvent, &'a [u8]), WireFault>
)
    ensures
        taken_view(r) == read_input_gamepad_passthrough_events(s@),
{
    let (pad, s) = take_u8(s)?;
    let (events, s) = take_event_list(s)?;
    Ok((InputEvent::GamepadPassthroughEvents { pad, events }, s))
}

fn take_input_hid_passthrough_connected<'a>(s: &'a [u8]) -> (
    r: Result<(InputEvent, &'a [u8]), WireFault>
)
    ensures
        taken_view(r) == read_input_hid_passthrough_connected(s@),
{
    let (hid, s) = take_u8(s)?;
    let (descriptor, s) = take_hid_descriptor(s)?;
    Ok((InputEvent::HidPassthroughConnected { hid, descriptor }, s))
}

fn take_input_hid_passthrough_report<'a>(s: &'a [u8]) -> (
    r: Result<(InputEvent, &'a [u8]), WireFault>
)
    ensures
        taken_view(r) == read_input_hid_passthrough_report(s@),
{
    let (hid, s) = take_u8(s)?;
    let (data, s) = take_bytes(s)?;
    Ok((InputEvent::HidPassthroughReport { hid, data }, s))
}

fn take_input_hid_passthrough_reply<'a>(s: &'a [u8]) -> (
    r: Result<(InputEvent, &'a [u8]), WireFault>
)
    ensures
        taken_view(r) == read_input_hid_passthrough_reply(s@),
{
    let (hid, s) = take_u8(s)?;
    let (request, s) = take_u32(s)?;
    let (kind, s) = take_hid_reply_kind(s)?;
    let (err, s) = take_bool(s)?;
    let (data, s) = take_bytes(s)?;
    Ok((InputEvent::HidPassthroughReply { hid, request, kind, err, data }, s))
}

fn take_input_hid_passthrough_disconnected<'a>(s: &'a [u8]) -> (
    r: Result<(InputEvent, &'a [u8]), WireFault>
)
    ensures
        taken_view(r) == read_input_hid_passthrough_disconnected(s@),
{
    let (hid, s) = take_u8(s)?;
    Ok((InputEvent::HidPassthroughDisconnected { hid }, s))
}

pub(crate) fn take_input<'a>(s: &'a [u8]) -> (r: Result<(InputEvent, &'a [u8]), WireFault>)
    ensures
        taken_view(r) == read_input(s@),
{
    let (tag, s) = take_u32(s)?;
    match tag {
        0 => take_input_keyboard(s),
        1 => take_input_mouse_move(s),
        2 => take_input_mouse_button(s),
        3 => take_input_mouse_wheel(s),
        4 => take_input_gamepad_axis(s),
        5 => take_input_gamepad_button(s),
        6 => take_input_gamepad_connected(s),
        7 => take_input_gamepad_disconnected(s),
        8 => take_input_gamepad_passthrough_connected(s),
        9 => take_input_gamepad_passthrough_events(s),
        10 => take_input_hid_passthrough_connected(s),
        11 => take_input_hid_passthrough_report(s),
        12 => take_input_hid_passthrough_reply(s),
        13 => take_input_hid_passthrough_disconnected(s),
        _ => Err(WireFault::UnknownVariant),
    }
}

proof fn lemma_read_input_keyboard(scancode: u32, pressed: bool, rest: Seq<u8>)
    ensures
        read_input(
            enc_input(InputView::Keyboard { scancode, pressed }) + rest,
        ) == Ok::<(InputView, Seq<u8>), WireFault>(
            (InputView::Keyboard { scancode, pressed }, rest),
        ),
{
    let r0 = enc_bool(pressed) + rest;
    let r1 = rest;
    lemma_read_u32(scancode, r0);
    lemma_read_bool(pressed, r1);
    lemma_add_assoc(varint(0), varint(scancode as nat), r0);
    lemma_add_assoc(varint(0) + varint(scancode as nat), enc_bool(pressed), r1);
    let tail = varint(scancode as nat) + r0;
    lemma_read_u32(0, tail);
    assert(enc_input(InputView::Keyboard { scancode, pressed }) + rest == varint(0) + tail);
    assert(read_input_keyboard(tail) is Ok);
}

proof fn lemma_read_input_mouse_move(dx: i32, dy: i32, rest: Seq<u8>)
    ensures
        read_input(
            enc_input(InputView::MouseMove { dx, dy }) + rest,
        ) == Ok::<(InputView, Seq<u8>), WireFault>(
            (InputView::MouseMove { dx, dy }, rest),
        ),
{
    let r0 = varint(zigzag(dy as int)) + rest;
    let r1 = rest;
    lemma_read_i32(dx, r0);
    lemma_read_i32(dy, r1);
    lemma_add_assoc(varint(1), varint(zigzag(dx as int)), r0);
    lemma_add_assoc(varint(1) + varint(zigzag(dx as int)), varint(zigzag(dy as int)), r1);
    let tail = varint(zigzag(dx as int)) + r0;
    lemma_read_u32(1, tail);
    assert(enc_input(InputView::MouseMove { dx, dy }) + rest == varint(1) + tail);
    assert(read_input_mouse_move(tail) is Ok);
}

proof fn lemma_read_input_mouse_button(button: MouseButton, pressed: bool, rest: Seq<u8>)
    ensures
        read_input(
            enc_input(InputView::MouseButton { button, pressed }) + rest,
        ) == Ok::<(InputView, Seq<u8>), WireFault>(
            (InputView::MouseButton { button, pressed }, rest),
        ),
{
    let r0 = enc_bool(pressed) + rest;
    let r1 = rest;
    lemma_read_mouse_button(button, r0);
    lemma_read_bool(pressed, r1);
    lemma_add_assoc(varint(2), varint(mouse_button_tag(button)), r0);
    lemma_add_assoc(varint(2) + varint(mouse_button_tag(button)), enc_bool(pressed), r1);
    let tail = varint(mouse_button_tag(button)) + r0;
    lemma_read_u32(2, tail);
    assert(enc_input(InputView::MouseButton { button, pressed }) + rest == varint(2) + tail);
    assert(read_input_mouse_button(tail) is Ok);
}

proof fn lemma_read_input_mouse_wheel(dx: i32, dy: i32, rest: Seq<u8>)
    ensures
        read_input(
            enc_input(InputView::MouseWheel { dx, dy }) + rest,
        ) == Ok::<(InputView, Seq<u8>), WireFault>(
            (InputView::MouseWheel { dx, dy }, rest),
        ),
{
    let r0 = varint(zigzag(dy as int)) + rest;
    let r1 = rest;
    lemma_read_i32(dx, r0);
    lemma_read_i32(dy, r1);
    lemma_add_assoc(varint(3), varint(zigzag(dx as int)), r0);
    lemma_add_assoc(varint(3) + varint(zigzag(dx as int)), varint(zigzag(dy as int)), r1);
    let tail = varint(zigzag(dx as int)) + r0;
    lemma_read_u32(3, tail);
    assert(enc_input(InputView::MouseWheel { dx, dy }) + rest == varint(3) + tail);
    assert(read_input_mouse_wheel(tail) is Ok);
}

proof fn lemma_read_input_gamepad_axis(pad: u8, axis: GamepadAxis, value: i16, rest: Seq<u8>)
    ensures
        read_input(
            enc_input(InputView::GamepadAxis { pad, axis, value }) + rest,
        ) == Ok::<(InputView, Seq<u8>), WireFault>(
            (InputView::GamepadAxis { pad, axis, value }, rest),
        ),
{
    let r0 = varint(gamepad_axis_tag(axis)) + (varint(zigzag(value as int)) + rest);
    let r1 = varint(zigzag(value as int)) + rest;
    let r2 = rest;
    lemma_read_u8(pad, r0);
    lemma_read_gamepad_axis(axis, r1);
    lemma_read_i16(value, r2);
    lemma_add_assoc(varint(4), seq![pad], r0);
    lemma_add_assoc(varint(4) + seq![pad], varint(gamepad_axis_tag(axis)), r1);
    lemma_add_assoc(
        varint(4) + seq![pad] + varint(gamepad_axis_tag(axis)),
        varint(zigzag(value as int)),
        r2,
    );
    let tail = seq![pad] + r0;
    lemma_read_u32(4, tail);
    assert(enc_input(InputView::GamepadAxis { pad, axis, value }) + rest == varint(4) + tail);
    assert(read_input_gamepad_axis(tail) is Ok);
}

proof fn lemma_read_input_gamepad_button(
    pad: u8,
    button: GamepadButton,
    pressed: bool,
    rest: Seq<u8>,
)
    ensures
        read_input(
            enc_input(InputView::GamepadButton { pad, button, pressed }) + rest,
        ) == Ok::<(InputView, Seq<u8>), WireFault>(
            (InputView::GamepadButton { pad, button, pressed }, rest),
        ),
{
    let r0 = varint(gamepad_button_tag(button)) + (enc_bool(pressed) + rest);
    let r1 = enc_bool(pressed) + rest;
    let r2 = rest;
    lemma_read_u8(pad, r0);
    lemma_read_gamepad_button(button, r1);
    lemma_read_bool(pressed, r2);
    lemma_add_assoc(varint(5), seq![pad], r0);
    lemma_add_assoc(varint(5) + seq![pad], varint(gamepad_button_tag(button)), r1);
    lemma_add_assoc(
        varint(5) + seq![pad] + varint(gamepad_button_tag(button)),
        enc_bool(pressed),
        r2,
    );
    let tail = seq![pad] + r0;
    lemma_read_u32(5, tail);
    assert(
        enc_input(InputView::GamepadButton { pad, button, pressed }) + rest == varint(5) + tail
    );
    assert(read_input_gamepad_button(tail) is Ok);
}

proof fn lemma_read_input_gamepad_connected(pad: u8, rest: Seq<u8>)
    ensures
        read_input(
            enc_input(InputView::GamepadConnected { pad }) + rest,
        ) == Ok::<(InputView, Seq<u8>), WireFault>(
            (InputView::GamepadConnected { pad }, rest),
        ),
{
    let r0 = rest;
    lemma_read_u8(pad, r0);
    lemma_add_assoc(varint(6), seq![pad], r0);
    let tail = seq![pad] + r0;
    lemma_read_u32(6, tail);
    assert(enc_input(InputView::GamepadConnected { pad }) + rest == varint(6) + tail);
    assert(read_input_gamepad_connected(tail) is Ok);
}

proof fn lemma_read_input_gamepad_disconnected(pad: u8, rest: Seq<u8>)
    ensures
        read_input(
            enc_input(InputView::GamepadDisconnected { pad }) + rest,
        ) == Ok::<(InputView, Seq<u8>), WireFault>(
            (InputView::GamepadDisconnected { pad }, rest),
        ),
{
    let r0 = rest;
    lemma_read_u8(pad, r0);
    lemma_add_assoc(varint(7), seq![pad], r0);
    let tail = seq![pad] + r0;
    lemma_read_u32(7, tail);
    assert(enc_input(InputView::GamepadDisconnected { pad }) + rest == varint(7) + tail);
    assert(read_input_gamepad_disconnected(tail) is Ok);
}

proof fn lemma_read_input_gamepad_passthrough_connected(
    pad: u8,
    descriptor: GamepadDescriptorView,
    rest: Seq<u8>,
)
    requires
        gamepad_descriptor_fits(descriptor),
    ensures
        read_input(
            enc_input(InputView::GamepadPassthroughConnected { pad, descriptor }) + rest,
        ) == Ok::<(InputView, Seq<u8>), WireFault>(
            (InputView::GamepadPassthroughConnected { pad, descriptor }, rest),
        ),
{
    let r0 = enc_gamepad_descriptor(descriptor) + rest;
    let r1 = rest;
    lemma_read_u8(pad, r0);
    lemma_read_gamepad_descriptor(descriptor, r1);
    lemma_add_assoc(varint(8), seq![pad], r0);
    lemma_add_assoc(varint(8) + seq![pad], enc_gamepad_descriptor(descriptor), r1);
    let tail = seq![pad] + r0;
    lemma_read_u32(8, tail);
    assert(
        enc_input(InputView::GamepadPassthroughConnected { pad, descriptor }) + rest == varint(8)
            + tail
    );
    assert(read_input_gamepad_passthrough_connected(tail) is Ok);
}

proof fn lemma_read_input_gamepad_passthrough_events(
    pad: u8,
    events: Seq<RawGamepadEvent>,
    rest: Seq<u8>,
)
    requires
        events.len() <= usize::MAX,
    ensures
        read_input(
            enc_input(InputView::GamepadPassthroughEvents { pad, events }) + rest,
        ) == Ok::<(InputView, Seq<u8>), WireFault>(
            (InputView::GamepadPassthroughEvents { pad, events }, rest),
        ),
{
    let r0 = enc_event_list(events) + rest;
    let r1 = rest;
    lemma_read_u8(pad, r0);
    lemma_read_event_list(events, r1);
    lemma_add_assoc(varint(9), seq![pad], r0);
    lemma_add_assoc(varint(9) + seq![pad], enc_event_list(events), r1);
    let tail = seq![pad] + r0;
    lemma_read_u32(9, tail);
    assert(
        enc_input(InputView::GamepadPassthroughEvents { pad, events }) + rest == varint(9) + tail
    );
    assert(read_input_gamepad_passthrough_events(tail) is Ok);
}

proof fn lemma_read_input_hid_passthrough_connected(
    hid: u8,
    descriptor: HidDescriptorView,
    rest: Seq<u8>,
)
    requires
        hid_descriptor_fits(descriptor),
    ensures
        read_input(
            enc_input(InputView::HidPassthroughConnected { hid, descriptor }) + rest,
        ) == Ok::<(InputView, Seq<u8>), WireFault>(
            (InputView::HidPassthroughConnected { hid, descriptor }, rest),
        ),
{
    let r0 = enc_hid_descriptor(descriptor) + rest;
    let r1 = rest;
    lemma_read_u8(hid, r0);
    lemma_read_hid_descriptor(descriptor, r1);
    lemma_add_assoc(varint(10), seq![hid], r0);
    lemma_add_assoc(varint(10) + seq![hid], enc_hid_descriptor(descriptor), r1);
    let tail = seq![hid] + r0;
    lemma_read_u32(10, tail);
    assert(
        enc_input(InputView::HidPassthroughConnected { hid, descriptor }) + rest == varint(10)
            + tail
    );
    assert(read_input_hid_passthrough_connected(tail) is Ok);
}

proof fn lemma_read_input_hid_passthrough_report(hid: u8, data: Seq<u8>, rest: Seq<u8>)
    requires
        data.len() <= usize::MAX,
    ensures
        read_input(
            enc_input(InputView::HidPassthroughReport { hid, data }) + rest,
        ) == Ok::<(InputView, Seq<u8>), WireFault>(
            (InputView::HidPassthroughReport { hid, data }, rest),
        ),
{
    let r0 = enc_bytes(data) + rest;
    let r1 = rest;
    lemma_read_u8(hid, r0);
    lemma_read_bytes(data, r1);
    lemma_add_assoc(varint(11), seq![hid], r0);
    lemma_add_assoc(varint(11) + seq![hid], enc_bytes(data), r1);
    let tail = seq![hid] + r0;
    lemma_read_u32(11, tail);
    assert(enc_input(InputView::HidPassthroughReport { hid, data }) + rest == varint(11) + tail);
    assert(read_input_hid_passthrough_report(tail) is Ok);
}

proof fn lemma_read_input_hid_passthrough_reply(
    hid: u8,
    request: u32,
    kind: HidReplyKind,
    err: bool,
    data: Seq<u8>,
    rest: Seq<u8>,
)
    requires
        data.len() <= usize::MAX,
    ensures
        read_input(
            enc_input(InputView::HidPassthroughReply { hid, request, kind, err, data }) + rest,
        ) == Ok::<(InputView, Seq<u8>), WireFault>(
            (InputView::HidPassthroughReply { hid, request, kind, err, data }, rest),
        ),
{
    let r0 = varint(request as nat) + (
        varint(hid_reply_kind_tag(kind)) + (enc_bool(err) + (enc_bytes(data) + rest))
    );
    let r1 = varint(hid_reply_kind_tag(kind)) + (enc_bool(err) + (enc_bytes(data) + rest));
    let r2 = enc_bool(err) + (enc_bytes(data) + rest);
    let r3 = enc_bytes(data) + rest;
    let r4 = rest;
    lemma_read_u8(hid, r0);
    lemma_read_u32(request, r1);
    lemma_read_hid_reply_kind(kind, r2);
    lemma_read_bool(err, r3);
    lemma_read_bytes(data, r4);
    lemma_add_assoc(varint(12), seq![hid], r0);
    lemma_add_assoc(varint(12) + seq![hid], varint(request as nat), r1);
    lemma_add_assoc(
        varint(12) + seq![hid] + varint(request as nat),
        varint(hid_reply_kind_tag(kind)),
        r2,
    );
    lemma_add_assoc(
        varint(12) + seq![hid] + varint(request as nat) + varint(hid_reply_kind_tag(kind)),
        enc_bool(err),
        r3,
    );
    lemma_add_assoc(
        varint(12) + seq![hid] + varint(request as nat) + varint(hid_reply_kind_tag(kind))
            + enc_bool(err),
        enc_bytes(data),
        r4,
    );
    let tail = seq![hid] + r0;
    lemma_read_u32(12, tail);
    assert(
        enc_input(InputView::HidPassthroughReply { hid, request, kind, err, data })
            + rest == varint(12) + tail
    );
    assert(read_input_hid_passthrough_reply(tail) is Ok);
}

proof fn lemma_read_input_hid_passthrough_disconnected(hid: u8, rest: Seq<u8>)
    ensures
        read_input(
            enc_input(InputView::HidPassthroughDisconnected { hid }) + rest,
        ) == Ok::<(InputView, Seq<u8>), WireFault>(
            (InputView::HidPassthroughDisconnected { hid }, rest),
        ),
{
    let r0 = rest;
    lemma_read_u8(hid, r0);
    lemma_add_assoc(varint(13), seq![hid], r0);
    let tail = seq![hid] + r0;
    lemma_read_u32(13, tail);
    assert(enc_input(InputView::HidPassthroughDisconnected { hid }) + rest == varint(13) + tail);
    assert(read_input_hid_passthrough_disconnected(tail) is Ok);
}

pub proof fn lemma_read_input(v: InputView, rest: Seq<u8>)
    requires
        input_fits(v),
    ensures
        read_input(enc_input(v) + rest) == Ok::<(InputView, Seq<u8>), WireFault>((v, rest)),
{
    match v {
        InputView::Keyboard { scancode, pressed } => {
            lemma_read_input_keyboard(scancode, pressed, rest);
        },
        InputView::MouseMove { dx, dy } => {
            lemma_read_input_mouse_move(dx, dy, rest);
        },
        InputView::MouseButton { button, pressed } => {
            lemma_read_input_mouse_button(button, pressed, rest);
        },
        InputView::MouseWheel { dx, dy } => {
            lemma_read_input_mouse_wheel(dx, dy, rest);
        },
        InputView::GamepadAxis { pad, axis, value } => {
            lemma_read_input_gamepad_axis(pad, axis, value, rest);
        },
        InputView::GamepadButton { pad, button, pressed } => {
            lemma_read_input_gamepad_button(pad, button, pressed, rest);
        },
        InputView::GamepadConnected { pad } => {
            lemma_read_input_gamepad_connected(pad, rest);
        },
        InputView::GamepadDisconnected { pad } => {
            lemma_read_input_gamepad_disconnected(pad, rest);
        },
        InputView::GamepadPassthroughConnected { pad, descriptor } => {
            lemma_read_input_gamepad_passthrough_connected(pad, descriptor, rest);
        },
        InputView::GamepadPassthroughEvents { pad, events } => {
            lemma_read_input_gamepad_passthrough_events(pad, events, rest);
        },
        InputView::HidPassthroughConnected { hid, descriptor } => {
            lemma_read_input_hid_passthrough_connected(hid, descriptor, rest);
        },
        InputView::HidPassthroughReport { hid, data } => {
            lemma_read_input_hid_passthrough_report(hid, data, rest);
        },
        InputView::HidPassthroughReply { hid, request, kind, err, data } => {
            lemma_read_input_hid_passthrough_reply(hid, request, kind, err, data, rest);
        },
        InputView::HidPassthroughDisconnected { hid } => {
            lemma_read_input_hid_passthrough_disconnected(hid, rest);
        },
    }
}

/// The lengths in the message can be written.
pub open spec fn control_fits(v: ControlView) -> bool {
    match v {
        ControlView::SessionResponse {
            width,
            height,
            framerate,
            bitrate_mbps,
            codec,
            max_datagram_size,
            cursor_embedded,
            server_command,
            audio_channels,
        } => encode_utf8(server_command).len() <= usize::MAX,
        ControlView::Input(event) => input_fits(event),
        _ => true,
    }
}

/// A control message.
pub open spec fn enc_control(v: ControlView) -> Seq<u8> {
    match v {
        ControlView::SessionRequest {
            width,
            height,
            framerate,
            codec,
            bitrate_mbps,
        } => varint(0) + varint(width as nat) + varint(height as nat) + varint(
            framerate as nat,
        ) + varint(codec_tag(codec)) + varint(
            bitrate_mbps as nat,
        ),
        ControlView::SessionResponse {
            width,
            height,
            framerate,
            bitrate_mbps,
            codec,
            max_datagram_size,
            cursor_embedded,
            server_command,
            audio_channels,
        } => varint(1) + varint(width as nat) + varint(height as nat) + varint(
            framerate as nat,
        ) + varint(
            bitrate_mbps as nat,
        ) + varint(codec_tag(codec)) + varint(
            max_datagram_size as nat,
        ) + enc_bool(cursor_embedded) + enc_str(server_command) + varint(audio_channels as nat),
        ControlView::IdrRequest => varint(2),
        ControlView::Ping { timestamp_ms } => varint(3) + varint(timestamp_ms as nat),
        ControlView::Pong { timestamp_ms } => varint(4) + varint(timestamp_ms as nat),
        ControlView::Input(event) => varint(5) + enc_input(event),
    }
}

/// Reads the fields of `SessionRequest`.
pub open spec fn read_control_session_request(s: Seq<u8>) -> Read<ControlView> {
    match read_u32(s) {
        Err(e) => Err(e),
        Ok((width, s)) =>
        match read_u32(s) {
            Err(e) => Err(e),
            Ok((height, s)) =>
            match read_u32(s) {
                Err(e) => Err(e),
                Ok((framerate, s)) =>
                match read_codec(s) {
                    Err(e) => Err(e),
                    Ok((codec, s)) =>
                    match read_u32(s) {
                        Err(e) => Err(e),
                        Ok((bitrate_mbps, s)) =>
                            Ok(
                                (
                                    ControlView::SessionRequest {
                                        width,
                                        height,
                                        framerate,
                                        codec,
                                        bitrate_mbps,
                                    },
                                    s,
                                ),
                            ),
                        },
                    },
                },
            },
        }
}

/// Reads the fields of `SessionResponse`.
pub open spec fn read_control_session_response(s: Seq<u8>) -> Read<ControlView> {
    match read_u32(s) {
        Err(e) => Err(e),
        Ok((width, s)) =>
        match read_u32(s) {
            Err(e) => Err(e),
            Ok((height, s)) =>
            match read_u32(s) {
                Err(e) => Err(e),
                Ok((framerate, s)) =>
                match read_u32(s) {
                    Err(e) => Err(e),
                    Ok((bitrate_mbps, s)) =>
                    match read_codec(s) {
                        Err(e) => Err(e),
                        Ok((codec, s)) =>
                        match read_u16(s) {
                            Err(e) => Err(e),
                            Ok((max_datagram_size, s)) =>
                            match read_bool(s) {
                                Err(e) => Err(e),
                                Ok((cursor_embedded, s)) =>
                                match read_string(s) {
                                    Err(e) => Err(e),
                                    Ok((server_command, s)) =>
                                    match read_u16(s) {
                                        Err(e) => Err(e),
                                        Ok((audio_channels, s)) =>
                                            Ok(
                                                (
                                                    ControlView::SessionResponse {
                                                        width,
                                                        height,
                                                        framerate,
                                                        bitrate_mbps,
                                                        codec,
                                                        max_datagram_size,
                                                        cursor_embedded,
                                                        server_command,
                                                        audio_channels,
                                                    },
                                                    s,
                                                ),
                                            ),
                                        },
                                    },
                                },
                            },
                        },
                    },
                },
            },
        }
}

/// Reads the fields of `Ping`.
pub open spec fn read_control_ping(s: Seq<u8>) -> Read<ControlView> {
    match read_u64(s) {
        Err(e) => Err(e),
        Ok((timestamp_ms, s)) =>
            Ok((ControlView::Ping { timestamp_ms }, s)),
        }
}

/// Reads the fields of `Pong`.
pub open spec fn read_control_pong(s: Seq<u8>) -> Read<ControlView> {
    match read_u64(s) {
        Err(e) => Err(e),
        Ok((timestamp_ms, s)) =>
            Ok((ControlView::Pong { timestamp_ms }, s)),
        }
}

/// Reads the fields of `Input`.
pub open spec fn read_control_input(s: Seq<u8>) -> Read<ControlView> {
    match read_input(s) {
        Err(e) => Err(e),
        Ok((event, s)) =>
            Ok((ControlView::Input(event), s)),
        }
}

pub open spec fn read_control(s: Seq<u8>) -> Read<ControlView> {
    match read_u32(s) {
        Err(e) => Err(e),
        Ok((tag, s)) => {
            if tag == 0 {
                read_control_session_request(s)
            } else if tag == 1 {
                read_control_session_response(s)
            } else if tag == 2 {
                Ok((ControlView::IdrRequest, s))
            } else if tag == 3 {
                read_control_ping(s)
            } else if tag == 4 {
                read_control_pong(s)
            } else if tag == 5 {
                read_control_input(s)
            } else {
                Err(WireFault::UnknownVariant)
            }
        },
    }
}

pub(crate) fn put_control(out: &mut Vec<u8>, v: &ControlMessage)
    ensures
        final(out)@ == old(out)@ + enc_control(v@),
{
    broadcast use lemma_add_assoc;

    match v {
        ControlMessage::SessionRequest { width, height, framerate, codec, bitrate_mbps } => {
            put_u32(out, 0);
            put_u32(out, *width);
            put_u32(out, *height);
            put_u32(out, *framerate);
            put_codec(out, *codec);
            put_u32(out, *bitrate_mbps);
        },
        ControlMessage::SessionResponse {
            width,
            height,
            framerate,
            bitrate_mbps,
            codec,
            max_datagram_size,
            cursor_embedded,
            server_command,
            audio_channels,
        } => {
            put_u32(out, 1);
            put_u32(out, *width);
            put_u32(out, *height);
            put_u32(out, *framerate);
            put_u32(out, *bitrate_mbps);
            put_codec(out, *codec);
            put_u16(out, *max_datagram_size);
            put_bool(out, *cursor_embedded);
            put_str(out, server_command.as_str());
            put_u16(out, *audio_channels);
        },
        ControlMessage::IdrRequest => {
            put_u32(out, 2);
        },
        ControlMessage::Ping { timestamp_ms } => {
            put_u32(out, 3);
            put_u64(out, *timestamp_ms);
        },
        ControlMessage::Pong { timestamp_ms } => {
            put_u32(out, 4);
            put_u64(out, *timestamp_ms);
        },
        ControlMessage::Input(event) => {
            put_u32(out, 5);
            put_input(out, event);
        },
    }
}

fn take_control_session_request<'a>(s: &'a [u8]) -> (
    r: Result<(ControlMessage, &'a [u8]), WireFault>
)
    ensures
        taken_view(r) == read_control_session_request(s@),
{
    let (width, s) = take_u32(s)?;
    let (height, s) = take_u32(s)?;
    let (framerate, s) = take_u32(s)?;
    let (codec, s) = take_codec(s)?;
    let (bitrate_mbps, s) = take_u32(s)?;
    Ok((ControlMessage::SessionRequest { width, height, framerate, codec, bitrate_mbps }, s))
}

fn take_control_session_response<'a>(s: &'a [u8]) -> (
    r: Result<(ControlMessage, &'a [u8]), WireFault>
)
    ensures
        taken_view(r) == read_control_session_response(s@),
{
    let (width, s) = take_u32(s)?;
    let (height, s) = take_u32(s)?;
    let (framerate, s) = take_u32(s)?;
    let (bitrate_mbps, s) = take_u32(s)?;
    let (codec, s) = take_codec(s)?;
    let (max_datagram_size, s) = take_u16(s)?;
    let (cursor_embedded, s) = take_bool(s)?;
    let (server_command, s) = take_string(s)?;
    let (audio_channels, s) = take_u16(s)?;
    Ok(
        (
            ControlMessage::SessionResponse {
                width,
                height,
                framerate,
                bitrate_mbps,
                codec,
                max_datagram_size,
                cursor_embedded,
                server_command,
                audio_channels,
            },
            s,
        ),
    )
}

fn take_control_ping<'a>(s: &'a [u8]) -> (r: Result<(ControlMessage, &'a [u8]), WireFault>)
    ensures
        taken_view(r) == read_control_ping(s@),
{
    let (timestamp_ms, s) = take_u64(s)?;
    Ok((ControlMessage::Ping { timestamp_ms }, s))
}

fn take_control_pong<'a>(s: &'a [u8]) -> (r: Result<(ControlMessage, &'a [u8]), WireFault>)
    ensures
        taken_view(r) == read_control_pong(s@),
{
    let (timestamp_ms, s) = take_u64(s)?;
    Ok((ControlMessage::Pong { timestamp_ms }, s))
}

fn take_control_input<'a>(s: &'a [u8]) -> (r: Result<(ControlMessage, &'a [u8]), WireFault>)
    ensures
        taken_view(r) == read_control_input(s@),
{
    let (event, s) = take_input(s)?;
    Ok((ControlMessage::Input(event), s))
}

pub(crate) fn take_control<'a>(s: &'a [u8]) -> (r: Result<(ControlMessage, &'a [u8]), WireFault>)
    ensures
        taken_view(r) == read_control(s@),
{
    let (tag, s) = take_u32(s)?;
    match tag {
        0 => take_control_session_request(s),
        1 => take_control_session_response(s),
        2 => Ok((ControlMessage::IdrRequest, s)),
        3 => take_control_ping(s),
        4 => take_control_pong(s),
        5 => take_control_input(s),
        _ => Err(WireFault::UnknownVariant),
    }
}

proof fn lemma_read_control_session_request(
    width: u32,
    height: u32,
    framerate: u32,
    codec: Codec,
    bitrate_mbps: u32,
    rest: Seq<u8>,
)
    ensures
        read_control(
            enc_control(
                ControlView::SessionRequest { width, height, framerate, codec, bitrate_mbps },
            ) + rest,
        ) == Ok::<(ControlView, Seq<u8>), WireFault>(
            (ControlView::SessionRequest { width, height, framerate, codec, bitrate_mbps }, rest),
        ),
{
    let r0 = varint(height as nat) + (
        varint(framerate as nat) + (
            varint(codec_tag(codec)) + (varint(bitrate_mbps as nat) + rest)
        )
    );
    let r1 = varint(framerate as nat) + (
        varint(codec_tag(codec)) + (varint(bitrate_mbps as nat) + rest)
    );
    let r2 = varint(codec_tag(codec)) + (varint(bitrate_mbps as nat) + rest);
    let r3 = varint(bitrate_mbps as nat) + rest;
    let r4 = rest;
    lemma_read_u32(width, r0);
    lemma_read_u32(height, r1);
    lemma_read_u32(framerate, r2);
    lemma_read_codec(codec, r3);
    lemma_read_u32(bitrate_mbps, r4);
    lemma_add_assoc(varint(0), varint(width as nat), r0);
    lemma_add_assoc(varint(0) + varint(width as nat), varint(height as nat), r1);
    lemma_add_assoc(
        varint(0) + varint(width as nat) + varint(height as nat),
        varint(framerate as nat),
        r2,
    );
    lemma_add_assoc(
        varint(0) + varint(width as nat) + varint(height as nat) + varint(framerate as nat),
        varint(codec_tag(codec)),
        r3,
    );
    lemma_add_assoc(
        varint(0) + varint(width as nat) + varint(height as nat) + varint(framerate as nat)
            + varint(codec_tag(codec)),
        varint(bitrate_mbps as nat),
        r4,
    );
    let tail = varint(width as nat) + r0;
    lemma_read_u32(0, tail);
    assert(
        enc_control(ControlView::SessionRequest { width, height, framerate, codec, bitrate_mbps })
            + rest == varint(0) + tail
    );
    assert(read_control_session_request(tail) is Ok);
}

proof fn lemma_read_control_session_response(
    width: u32,
    height: u32,
    framerate: u32,
    bitrate_mbps: u32,
    codec: Codec,
    max_datagram_size: u16,
    cursor_embedded: bool,
    server_command: Seq<char>,
    audio_channels: u16,
    rest: Seq<u8>,
)
    requires
        encode_utf8(server_command).len() <= usize::MAX,
    ensures
        read_control(
            enc_control(
                ControlView::SessionResponse {
                    width,
                    height,
                    framerate,
                    bitrate_mbps,
                    codec,
                    max_datagram_size,
                    cursor_embedded,
                    server_command,
                    audio_channels,
                },
            ) + rest,
        ) == Ok::<(ControlView, Seq<u8>), WireFault>(
            (
                ControlView::SessionResponse {
                    width,
                    height,
                    framerate,
                    bitrate_mbps,
                    codec,
                    max_datagram_size,
                    cursor_embedded,
                    server_command,
                    audio_channels,
                },
                rest,
            ),
        ),
{
    let r0 = varint(height as nat) + (
        varint(framerate as nat) + (
            varint(bitrate_mbps as nat) + (
                varint(codec_tag(codec)) + (
                    varint(max_datagram_size as nat) + (
                        enc_bool(cursor_embedded) + (
                            enc_str(server_command) + (varint(audio_channels as nat) + rest)
                        )
                    )
                )
            )
        )
    );
    let r1 = varint(framerate as nat) + (
        varint(bitrate_mbps as nat) + (
            varint(codec_tag(codec)) + (
                varint(max_datagram_size as nat) + (
                    enc_bool(cursor_embedded) + (
                        enc_str(server_command) + (varint(audio_channels as nat) + rest)
                    )
                )
            )
        )
    );
    let r2 = varint(bitrate_mbps as nat) + (
        varint(codec_tag(codec)) + (
            varint(max_datagram_size as nat) + (
                enc_bool(cursor_embedded) + (
                    enc_str(server_command) + (varint(audio_channels as nat) + rest)
                )
            )
        )
    );
    let r3 = varint(codec_tag(codec)) + (
        varint(max_datagram_size as nat) + (
            enc_bool(cursor_embedded) + (
                enc_str(server_command) + (varint(audio_channels as nat) + rest)
            )
        )
    );
    let r4 = varint(max_datagram_size as nat) + (
        enc_bool(cursor_embedded) + (
            enc_str(server_command) + (varint(audio_channels as nat) + rest)
        )
    );
    let r5 = enc_bool(cursor_embedded) + (
        enc_str(server_command) + (varint(audio_channels as nat) + rest)
    );
    let r6 = enc_str(server_command) + (varint(audio_channels as nat) + rest);
    let r7 = varint(audio_channels as nat) + rest;
    let r8 = rest;
    lemma_read_u32(width, r0);
    lemma_read_u32(height, r1);
    lemma_read_u32(framerate, r2);
    lemma_read_u32(bitrate_mbps, r3);
    lemma_read_codec(codec, r4);
    lemma_read_u16(max_datagram_size, r5);
    lemma_read_bool(cursor_embedded, r6);
    lemma_read_string(server_command, r7);
    lemma_read_u16(audio_channels, r8);
    lemma_add_assoc(varint(1), varint(width as nat), r0);
    lemma_add_assoc(varint(1) + varint(width as nat), varint(height as nat), r1);
    lemma_add_assoc(
        varint(1) + varint(width as nat) + varint(height as nat),
        varint(framerate as nat),
        r2,
    );
    lemma_add_assoc(
        varint(1) + varint(width as nat) + varint(height as nat) + varint(framerate as nat),
        varint(bitrate_mbps as nat),
        r3,
    );
    lemma_add_assoc(
        varint(1) + varint(width as nat) + varint(height as nat) + varint(framerate as nat)
            + varint(bitrate_mbps as nat),
        varint(codec_tag(codec)),
        r4,
    );
    lemma_add_assoc(
        varint(1) + varint(width as nat) + varint(height as nat) + varint(framerate as nat)
            + varint(bitrate_mbps as nat) + varint(codec_tag(codec)),
        varint(max_datagram_size as nat),
        r5,
    );
    lemma_add_assoc(
        varint(1) + varint(width as nat) + varint(height as nat) + varint(framerate as nat)
            + varint(bitrate_mbps as nat) + varint(codec_tag(codec))
            + varint(max_datagram_size as nat),
        enc_bool(cursor_embedded),
        r6,
    );
    lemma_add_assoc(
        varint(1) + varint(width as nat) + varint(height as nat) + varint(framerate as nat)
            + varint(bitrate_mbps as nat) + varint(codec_tag(codec))
            + varint(max_datagram_size as nat) + enc_bool(cursor_embedded),
        enc_str(server_command),
        r7,
    );
    lemma_add_assoc(
        varint(1) + varint(width as nat) + varint(height as nat) + varint(framerate as nat)
            + varint(bitrate_mbps as nat) + varint(codec_tag(codec))
            + varint(max_datagram_size as nat) + enc_bool(cursor_embedded)
            + enc_str(server_command),
        varint(audio_channels as nat),
        r8,
    );
    let tail = varint(width as nat) + r0;
    lemma_read_u32(1, tail);
    assert(
        enc_control(
            ControlView::SessionResponse {
                width,
                height,
                framerate,
                bitrate_mbps,
                codec,
                max_datagram_size,
                cursor_embedded,
                server_command,
                audio_channels,
            },
        )
            + rest == varint(1) + tail
    );
    assert(read_control_session_response(tail) is Ok);
}

proof fn lemma_read_control_ping(timestamp_ms: u64, rest: Seq<u8>)
    ensures
        read_control(
            enc_control(ControlView::Ping { timestamp_ms }) + rest,
        ) == Ok::<(ControlView, Seq<u8>), WireFault>(
            (ControlView::Ping { timestamp_ms }, rest),
        ),
{
    let r0 = rest;
    lemma_read_u64(timestamp_ms, r0);
    lemma_add_assoc(varint(3), varint(timestamp_ms as nat), r0);
    let tail = varint(timestamp_ms as nat) + r0;
    lemma_read_u32(3, tail);
    assert(enc_control(ControlView::Ping { timestamp_ms }) + rest == varint(3) + tail);
    assert(read_control_ping(tail) is Ok);
}

proof fn lemma_read_control_pong(timestamp_ms: u64, rest: Seq<u8>)
    ensures
        read_control(
            enc_control(ControlView::Pong { timestamp_ms }) + rest,
        ) == Ok::<(ControlView, Seq<u8>), WireFault>(
            (ControlView::Pong { timestamp_ms }, rest),
        ),
{
    let r0 = rest;
    lemma_read_u64(timestamp_ms, r0);
    lemma_add_assoc(varint(4), varint(timestamp_ms as nat), r0);
    let tail = varint(timestamp_ms as nat) + r0;
    lemma_read_u32(4, tail);
    assert(enc_control(ControlView::Pong { timestamp_ms }) + rest == varint(4) + tail);
    assert(read_control_pong(tail) is Ok);
}

proof fn lemma_read_control_input(event: InputView, rest: Seq<u8>)
    requires
        input_fits(event),
    ensures
        read_control(
            enc_control(ControlView::Input(event)) + rest,
        ) == Ok::<(ControlView, Seq<u8>), WireFault>(
            (ControlView::Input(event), rest),
        ),
{
    let r0 = rest;
    lemma_read_input(event, r0);
    lemma_add_assoc(varint(5), enc_input(event), r0);
    let tail = enc_input(event) + r0;
    lemma_read_u32(5, tail);
    assert(enc_control(ControlView::Input(event)) + rest == varint(5) + tail);
    assert(read_control_input(tail) is Ok);
}

pub proof fn lemma_read_control(v: ControlView, rest: Seq<u8>)
    requires
        control_fits(v),
    ensures
        read_control(enc_control(v) + rest) == Ok::<(ControlView, Seq<u8>), WireFault>((v, rest)),
{
    match v {
        ControlView::SessionRequest { width, height, framerate, codec, bitrate_mbps } => {
            lemma_read_control_session_request(
                width,
                height,
                framerate,
                codec,
                bitrate_mbps,
                rest,
            );
        },
        ControlView::SessionResponse {
            width,
            height,
            framerate,
            bitrate_mbps,
            codec,
            max_datagram_size,
            cursor_embedded,
            server_command,
            audio_channels,
        } => {
            lemma_read_control_session_response(
                width,
                height,
                framerate,
                bitrate_mbps,
                codec,
                max_datagram_size,
                cursor_embedded,
                server_command,
                audio_channels,
                rest,
            );
        },
        ControlView::IdrRequest => {
            lemma_read_u32(2, rest);
        },
        ControlView::Ping { timestamp_ms } => {
            lemma_read_control_ping(timestamp_ms, rest);
        },
        ControlView::Pong { timestamp_ms } => {
            lemma_read_control_pong(timestamp_ms, rest);
        },
        ControlView::Input(event) => {
            lemma_read_control_input(event, rest);
        },
    }
}

} // verus!
