//! What is stated of a value is what it holds, field by field.
use crate::config::{ClientConfig, Codec, HostEntry};
use crate::gamepad::{PadKey, PadKeyView, ReaderAction, ReaderActionView};
use crate::hidpass::{HidAction, HidActionView, HidIdentity};
use crate::input::{GamepadDescriptor, HidDeviceDescriptor, InputEvent};
use crate::launcher::{Screen, ScreenView};
use crate::layout::TextRun;
use crate::screens::{Tint, Widget, WidgetView};
use crate::transport::{
    ControlMessage, ControlView, LegacyControlMessageV2, LegacyViewV2, UsbTunnelHeader,
};
use crate::usb::UsbDevice;
use crate::widgets::{FocusList, NavEvent, NavView, Rect};
use vstd::prelude::*;

verus! {

/// The configuration.
pub proof fn law_config_holds(c: ClientConfig, i: int)
    ensures
        c@.server_address == c.server_address@,
        c@.port == c.port,
        c@.fullscreen == c.fullscreen,
        c@.gamepad_passthrough == c.gamepad_passthrough,
        c@.usb_forward == c.usb_forward,
        c@.forward_builtin_controller == c.forward_builtin_controller,
        c@.mic_forward.enabled == c.mic_forward.enabled,
        c@.mic_forward.port == c.mic_forward.port,
        c@.mic_forward.rsonance_binary == c.mic_forward.rsonance_binary@,
        c@.resolution == c.resolution,
        c@.framerate == c.framerate,
        c@.codec == c.codec,
        c@.hosts.len() == c.hosts@.len(),
        0 <= i < c.hosts@.len() ==> c@.hosts[i] == c.hosts@[i]@,
{
}

/// The answer to a request for a session, and the messages of an older version.
pub proof fn law_session_messages_hold(
    width: u32,
    height: u32,
    framerate: u32,
    bitrate_mbps: u32,
    codec: Codec,
    max_datagram_size: u16,
    cursor_embedded: bool,
    server_command: String,
    audio_channels: u16,
)
    ensures
        (ControlMessage::SessionResponse {
            width,
            height,
            framerate,
            bitrate_mbps,
            codec,
            max_datagram_size,
            cursor_embedded,
            server_command,
            audio_channels,
        })@ == (ControlView::SessionResponse {
            width,
            height,
            framerate,
            bitrate_mbps,
            codec,
            max_datagram_size,
            cursor_embedded,
            server_command: server_command@,
            audio_channels,
        }),
        (LegacyControlMessageV2::SessionRequest {
            width,
            height,
            framerate,
            codec,
            bitrate_mbps,
        })@ == (LegacyViewV2::SessionRequest { width, height, framerate, codec, bitrate_mbps }),
        (LegacyControlMessageV2::SessionResponse {
            width,
            height,
            framerate,
            bitrate_mbps,
            codec,
            max_datagram_size,
            cursor_embedded,
            server_command,
        })@ == (LegacyViewV2::SessionResponse {
            width,
            height,
            framerate,
            bitrate_mbps,
            codec,
            max_datagram_size,
            cursor_embedded,
            server_command: server_command@,
        }),
{
}

/// The descriptions of devices.
pub proof fn law_descriptions_hold(
    pad: GamepadDescriptor,
    hid: HidDeviceDescriptor,
    identity: HidIdentity,
    usb: UsbDevice,
    header: UsbTunnelHeader,
)
    ensures
        pad@.name == pad.name@,
        pad@.bus_type == pad.bus_type,
        pad@.vendor == pad.vendor,
        pad@.product == pad.product,
        pad@.version == pad.version,
        pad@.keys == pad.keys@,
        pad@.abs_axes == pad.abs_axes@,
        hid@.name == hid.name@,
        hid@.phys == hid.phys@,
        hid@.uniq == hid.uniq@,
        hid@.bus_type == hid.bus_type,
        hid@.vendor == hid.vendor,
        hid@.product == hid.product,
        hid@.report_descriptor == hid.report_descriptor@,
        identity@.name == identity.name@,
        identity@.phys == identity.phys@,
        identity@.uniq == identity.uniq@,
        identity@.bus_type == identity.bus_type,
        identity@.vendor == identity.vendor,
        identity@.product == identity.product,
        usb@.busid == usb.busid@,
        usb@.vendor == usb.vendor,
        usb@.product == usb.product,
        usb@.devid == usb.devid,
        usb@.speed == usb.speed,
        usb@.name == usb.name@,
        header@.vendor == header.vendor,
        header@.product == header.product,
        header@.devid == header.devid,
        header@.speed == header.speed,
        header@.name == header.name@,
{
}

/// What is to be done for a device.
pub proof fn law_device_actions_hold(
    hid: u8,
    request: u32,
    code: u64,
    data: Vec<u8>,
    event: InputEvent,
    ungrab: bool,
    id: u32,
    node: String,
)
    ensures
        HidAction::Skip@ == HidActionView::Skip,
        (HidAction::Write { hid, data })@ == (HidActionView::Write { hid, data: data@ }),
        (HidAction::GetReport { hid, request, code, buffer: data })@ == (HidActionView::GetReport {
            hid,
            request,
            code,
            buffer: data@,
        }),
        (HidAction::SetReport { hid, request, code, data })@ == (HidActionView::SetReport {
            hid,
            request,
            code,
            data: data@,
        }),
        HidAction::Answer(event)@ == HidActionView::Answer(event@),
        ReaderAction::Wait@ == ReaderActionView::Wait,
        ReaderAction::Forward(event)@ == ReaderActionView::Forward(event@),
        (ReaderAction::End { ungrab, last: Some(event) })@ == (ReaderActionView::End {
            ungrab,
            last: Some(event@),
        }),
        (ReaderAction::End { ungrab, last: None })@ == (ReaderActionView::End {
            ungrab,
            last: None,
        }),
        PadKey::Sdl(id)@ == PadKeyView::Sdl(id),
        PadKey::Evdev(node)@ == PadKeyView::Evdev(node@),
{
}

/// What a user does in the launcher.
pub proof fn law_navigation_holds(text: String, x: i32, y: i32)
    ensures
        NavEvent::Up@ == NavView::Up,
        NavEvent::Down@ == NavView::Down,
        NavEvent::Left@ == NavView::Left,
        NavEvent::Right@ == NavView::Right,
        NavEvent::Activate@ == NavView::Activate,
        NavEvent::Back@ == NavView::Back,
        NavEvent::Delete@ == NavView::Delete,
        NavEvent::Edit@ == NavView::Edit,
        NavEvent::ConnectShortcut@ == NavView::ConnectShortcut,
        NavEvent::Text(text)@ == NavView::Text(text@),
        NavEvent::Backspace@ == NavView::Backspace,
        NavEvent::PointerMove(x, y)@ == NavView::PointerMove(x, y),
        NavEvent::PointerClick(x, y)@ == NavView::PointerClick(x, y),
{
}

/// The screens of the launcher.
pub proof fn law_screens_hold(
    index: Option<usize>,
    draft: HostEntry,
    port_text: String,
    focus: FocusList,
    editing: bool,
)
    ensures
        (Screen::HostList { focus })@ == (ScreenView::HostList { focus }),
        (Screen::Settings { focus })@ == (ScreenView::Settings { focus }),
        (Screen::HostEdit { index, draft, port_text, focus, editing })@ == (ScreenView::HostEdit {
            index,
            draft: draft@,
            port_text: port_text@,
            focus,
            editing,
        }),
{
}

/// What stands on a screen.
pub proof fn law_widgets_hold(
    rect: Rect,
    label: String,
    text: String,
    x: i32,
    y: i32,
    px: u16,
    tint: Tint,
    other: Tint,
    value: bool,
    focused: bool,
    run: TextRun,
)
    ensures
        (Widget::Label { text, x, y, px, tint })@ == (WidgetView::Label {
            text: text@,
            x,
            y,
            px,
            tint,
        }),
        (Widget::HostRow { rect, label, details: text, focused })@ == (WidgetView::HostRow {
            rect,
            label: label@,
            details: text@,
            focused,
        }),
        (Widget::Button { rect, label, focused })@ == (WidgetView::Button {
            rect,
            label: label@,
            focused,
        }),
        (Widget::Toggle { rect, label, value, focused })@ == (WidgetView::Toggle {
            rect,
            label: label@,
            value,
            focused,
        }),
        (Widget::Choice { rect, label, value: text, focused })@ == (WidgetView::Choice {
            rect,
            label: label@,
            value: text@,
            focused,
        }),
        (Widget::Field { rect, label, value: text, focused, editing: value })@ == (
        WidgetView::Field { rect, label: label@, value: text@, focused, editing: value }),
        (Widget::Banner { text, background: tint, foreground: other })@ == (WidgetView::Banner {
            text: text@,
            background: tint,
            foreground: other,
        }),
        (Widget::Hint { text })@ == (WidgetView::Hint { text: text@ }),
        run@.text == run.text@,
        run@.x == run.x,
        run@.y == run.y,
        run@.px == run.px,
        run@.tint == run.tint,
        run@.right == run.right,
{
}

} // verus!
