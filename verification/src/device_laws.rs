//! What holds of the devices that are passed through, emulated or forwarded.
use crate::emulation::{swept, EmulatedView, EmulationView};
use crate::gamepad::{ChordView, PadKeyView, ReaderActionView, ReaderEvent, ReaderView, SharedView};
use crate::hidpass::{
    law_ioctl_fields, parse_hid_id, HidActionView, HidRegistryView, UeventView,
};
use crate::input::{HidHostRequest, HidReportType, InputView, RawGamepadEvent};
use crate::slots::{
    allocated, free_slot, lemma_first_where, lemma_first_where_at, released,
    slot_of, usb_id,
};
use crate::text::{lemma_find_char_at, parse_uint, trim};
use crate::ui::Button;
use crate::usb::{
    described, device_busid, law_devid_halves, speed_number, tunnel_header, ForwarderView,
    UsbAttributes, UsbDeviceView,
};
use vstd::prelude::*;

verus! {

/// A chord of which nothing is held.
pub open spec fn idle() -> ChordView {
    ChordView { select_since: None, start_since: None }
}

/// Two buttons that are pressed, in whichever order, fire exactly when the
/// later one has been held for a second.
pub proof fn law_chord_takes_one_second(a: u64, b: u64, now: u64)
    requires
        a <= now,
        b <= now,
    ensures
        idle().select(true, a).start(true, b).fired(now) <==> now - a >= 1_000_000_000 && now - b
            >= 1_000_000_000,
        idle().start(true, b).select(true, a) == idle().select(true, a).start(true, b),
        !idle().select(true, a).fired(now),
        !idle().start(true, b).fired(now),
        idle().select(true, a).start(true, b).select(false, now) == idle().start(true, b),
        idle().select(true, a).start(true, b).start(false, now) == idle().select(true, a),
{
}

/// A press of a key, as a device reports it.
pub open spec fn key_press(code: u16) -> RawGamepadEvent {
    RawGamepadEvent { event_type: 1, code, value: 1 }
}

/// A passed-through controller whose Select and Start are pressed ends the
/// session after a second, and not before; the presses are forwarded all the
/// same.
pub proof fn law_passed_through_chord_quits(
    r: ReaderView,
    shared: SharedView,
    presses: Vec<RawGamepadEvent>,
    at: u64,
    now: u64,
)
    requires
        r.chord == idle(),
        presses@ == seq![key_press(0x13a), key_press(0x13b)],
        at <= now,
        !shared.quit_requested,
    ensures
        ({
            let (held, same, sent) = r.step(shared, ReaderEvent::Events(presses), at);
            let (_, after, _) = held.step(same, ReaderEvent::Round, now);
            &&& sent == ReaderActionView::Forward(
                InputView::GamepadPassthroughEvents { pad: r.pad, events: presses@ },
            )
            &&& same == shared
            &&& after.quit_requested <==> now - at >= 1_000_000_000
        }),
{
    let p = |e: RawGamepadEvent| crate::gamepad::is_forwarded(e);
    reveal(Seq::filter);
    let one = seq![key_press(0x13a)];
    assert(presses@.drop_last() =~= one);
    assert(one.drop_last() =~= Seq::<RawGamepadEvent>::empty());
    assert(Seq::<RawGamepadEvent>::empty().filter(p) =~= Seq::<RawGamepadEvent>::empty());
    assert(one.filter(p) =~= one);
    assert(presses@.filter(p) =~= presses@);
    reveal_with_fuel(ChordView::after_events, 3);
    assert(presses@.last() == key_press(0x13b));
    assert(one.last() == key_press(0x13a));
}

/// The reader forwards the keys and axes that the device reports, all of them
/// and in order, as its own pad, and nothing else.
pub proof fn law_reader_forwards_keys_and_axes(
    r: ReaderView,
    shared: SharedView,
    events: Vec<RawGamepadEvent>,
    now: u64,
)
    ensures
        ({
            let kept = events@.filter(|e: RawGamepadEvent| e.event_type == 1 || e.event_type == 3);
            let (_, after, action) = r.step(shared, ReaderEvent::Events(events), now);
            &&& after == shared
            &&& action == if kept.len() == 0 {
                ReaderActionView::Wait
            } else {
                ReaderActionView::Forward(
                    InputView::GamepadPassthroughEvents { pad: r.pad, events: kept },
                )
            }
        }),
{
    let p = |e: RawGamepadEvent| crate::gamepad::is_forwarded(e);
    let q = |e: RawGamepadEvent| e.event_type == 1 || e.event_type == 3;
    lemma_filter_same(events@, p, q);
}

proof fn lemma_filter_same<T>(s: Seq<T>, p: spec_fn(T) -> bool, q: spec_fn(T) -> bool)
    requires
        forall|x: T| #[trigger] p(x) == q(x),
    ensures
        s.filter(p) == s.filter(q),
    decreases s.len(),
{
    reveal(Seq::filter);
    if s.len() > 0 {
        lemma_filter_same(s.drop_last(), p, q);
    }
}

/// How a reader ends tells the server and the device what to do: a session
/// that ends gives the device back, a device that is gone is announced as
/// disconnected under its own pad.
pub proof fn law_reader_ends_in_order(r: ReaderView, shared: SharedView, now: u64)
    ensures
        r.step(shared, ReaderEvent::Stop, now).2 == (ReaderActionView::End {
            ungrab: true,
            last: None,
        }),
        r.step(shared, ReaderEvent::Failed, now).2 == (ReaderActionView::End {
            ungrab: false,
            last: Some(InputView::GamepadDisconnected { pad: r.pad }),
        }),
        r.step(shared, ReaderEvent::Closed, now).2 == (ReaderActionView::End {
            ungrab: false,
            last: None,
        }),
        r.step(shared, ReaderEvent::Round, now).2 == ReaderActionView::Wait,
{
}

/// A device that is grabbed or claimed keeps its ids from being emulated until
/// it is given back; ids of no device do not. Every change can be told by the
/// generation, and a device that is grabbed again is not lost any more.
pub proof fn law_grab_holds_until_given_back(
    s: SharedView,
    node: Seq<char>,
    vendor: u16,
    product: u16,
)
    ensures
        s.with_grabbed(node, vendor, product).holds(vendor, product),
        s.with_claimed(vendor, product).holds(vendor, product),
        s.with_grabbed(node, vendor, product).active_nodes.contains(node),
        !s.with_grabbed(node, vendor, product).lost.contains(usb_id(vendor, product)),
        !s.without_grabbed(node, vendor, product).active_nodes.contains(node),
        !s.holds(vendor, product) ==> !s.with_grabbed(node, vendor, product).without_grabbed(
            node,
            vendor,
            product,
        ).holds(vendor, product),
        !s.holds(vendor, product) ==> !s.with_claimed(vendor, product).without_claimed(
            vendor,
            product,
        ).holds(vendor, product),
        s.with_grabbed(node, vendor, product).generation != s.generation,
        s.without_grabbed(node, vendor, product).generation != s.generation,
        s.with_claimed(vendor, product).generation != s.generation,
        s.without_claimed(vendor, product).generation != s.generation,
{
    let grabbed = s.with_grabbed(node, vendor, product);
    assert(grabbed.grabs.contains((node, usb_id(vendor, product))));
    let back = grabbed.without_grabbed(node, vendor, product);
    if back.holds(vendor, product) && !s.holds(vendor, product) {
        if !back.claims.contains(usb_id(vendor, product)) {
            let n = choose|n: Seq<char>| #[trigger]
                back.grabs.contains((n, usb_id(vendor, product)));
            assert(s.grabs.contains((n, usb_id(vendor, product))));
        }
    }
    let freed = s.with_claimed(vendor, product).without_claimed(vendor, product);
    if freed.holds(vendor, product) && !s.holds(vendor, product) {
        let n = choose|n: Seq<char>| #[trigger] freed.grabs.contains((n, usb_id(vendor, product)));
        assert(s.grabs.contains((n, usb_id(vendor, product))));
    }
}

/// A new owner gets the lowest slot that is free: all below are taken.
pub proof fn law_lowest_free_slot<K>(slots: Seq<Option<K>>, key: K)
    requires
        slot_of(slots, key) is None,
    ensures
        match allocated(slots, key).1 {
            Some(i) => {
                &&& 0 <= i < slots.len()
                &&& slots[i] is None
                &&& allocated(slots, key).0 == slots.update(i, Some(key))
                &&& forall|j: int| 0 <= j < i ==> (#[trigger] slots[j]) is Some
            },
            None => allocated(slots, key).0 == slots && forall|j: int|
                0 <= j < slots.len() ==> (#[trigger] slots[j]) is Some,
        },
{
    lemma_first_where(slots, |s: Option<K>| s is None);
}

/// Giving a slot back frees that slot alone.
pub proof fn law_release_frees_one_slot<K>(slots: Seq<Option<K>>, key: K)
    ensures
        match released(slots, key).1 {
            Some(i) => {
                &&& 0 <= i < slots.len()
                &&& slots[i] == Some(key)
                &&& released(slots, key).0 == slots.update(i, None)
            },
            None => released(slots, key).0 == slots && forall|j: int|
                0 <= j < slots.len() ==> #[trigger] slots[j] != Some(key),
        },
{
    lemma_first_where(slots, |s: Option<K>| s == Some(key));
}

/// Select and Start of one emulated controller, held for a second, end the
/// session; other buttons have no part in it.
pub proof fn law_emulated_chord_quits(
    v: EmulationView,
    i: int,
    id: u32,
    other: Button,
    a: u64,
    b: u64,
    now: u64,
)
    requires
        v.place(id) == Some(i),
        v.pads[i].chord == idle(),
        forall|k: int|
            0 <= k < v.pads.len() && k != i ==> !(#[trigger] v.pads[k]).chord.fired(now),
        a <= now,
        b <= now,
        other != Button::Back && other != Button::Start,
    ensures
        v.button(id, Button::Back, true, a).button(id, Button::Start, true, b).fired(now)
            <==> now - a >= 1_000_000_000 && now - b >= 1_000_000_000,
        v.button(id, other, true, a) == v,
{
    let by_id = |p: EmulatedView| p.id == id;
    lemma_first_where(v.pads, by_id);
    let once = v.button(id, Button::Back, true, a);
    assert forall|k: int| 0 <= k < i implies !by_id(#[trigger] once.pads[k]) by {
        assert(once.pads[k] == v.pads[k]);
    }
    lemma_first_where_at(once.pads, by_id, i);
    let twice = once.button(id, Button::Start, true, b);
    assert(twice.pads[i].chord == idle().select(true, a).start(true, b));
    assert forall|k: int| 0 <= k < twice.pads.len() && k != i implies !(
    #[trigger] twice.pads[k]).chord.fired(now) by {
        assert(twice.pads[k] == v.pads[k]);
    }
    assert(v.button(id, other, true, a).pads =~= v.pads);
}

/// Following the table closes exactly the controllers that are passed through
/// by now, and keeps the others as they are.
pub proof fn law_follow_closes_passed_through(pads: Seq<EmulatedView>, shared: SharedView)
    ensures
        ({
            let (kept, table, closed) = swept(pads, shared);
            &&& kept == pads.filter(|p: EmulatedView| !shared.holds(p.vendor, p.product))
            &&& closed.len() == pads.len() - kept.len()
            &&& forall|c: int|
                0 <= c < closed.len() ==> exists|k: int|
                    0 <= k < pads.len() && (#[trigger] pads[k]).id == (#[trigger] closed[c]).id
                        && shared.holds(pads[k].vendor, pads[k].product)
            &&& table.claims == shared.claims && table.grabs == shared.grabs
        }),
    decreases pads.len(),
{
    reveal(Seq::filter);
    if pads.len() > 0 {
        let front = pads.drop_last();
        law_follow_closes_passed_through(front, shared);
        let (kept, table, closed) = swept(pads, shared);
        let (before, earlier, fewer) = swept(front, shared);
        assert(earlier.holds(pads.last().vendor, pads.last().product) == shared.holds(
            pads.last().vendor,
            pads.last().product,
        )) by {
            lemma_holds_same(
                earlier,
                shared,
                pads.last().vendor,
                pads.last().product,
            );
        }
        assert forall|c: int| 0 <= c < closed.len() implies exists|k: int|
            0 <= k < pads.len() && (#[trigger] pads[k]).id == (#[trigger] closed[c]).id
                && shared.holds(pads[k].vendor, pads[k].product) by {
            if c < fewer.len() {
                assert(closed[c] == fewer[c]);
                let k = choose|k: int|
                    0 <= k < front.len() && (#[trigger] front[k]).id == fewer[c].id
                        && shared.holds(front[k].vendor, front[k].product);
                assert(pads[k] == front[k]);
            } else {
                assert(pads[pads.len() - 1].id == closed[c].id);
            }
        }
    }
}

proof fn lemma_holds_same(a: SharedView, b: SharedView, vendor: u16, product: u16)
    requires
        a.claims == b.claims,
        a.grabs == b.grabs,
    ensures
        a.holds(vendor, product) == b.holds(vendor, product),
{
}

/// A controller that is passed through is not emulated, one that is emulated
/// gets a slot, and no controller is emulated where none shall be.
pub proof fn law_only_free_controllers_are_emulated(
    v: EmulationView,
    shared: SharedView,
    id: u32,
    vendor: u16,
    product: u16,
)
    ensures
        v.added(shared, id, vendor, product).2 is Connected ==> v.emulate && !shared.holds(
            vendor,
            product,
        ) && v.place(id) is None,
        v.emulate && v.place(id) is None && !shared.holds(vendor, product) && free_slot(
            shared.slots,
        ) is Some ==> v.added(shared, id, vendor, product).2 is Connected,
        !(v.added(shared, id, vendor, product).2 is Connected) ==> v.added(
            shared,
            id,
            vendor,
            product,
        ).0 == v,
{
    lemma_first_where(shared.slots, |s: Option<PadKeyView>| s is None);
}

/// The number of the hidraw command that reads or writes a report of a class:
/// feature, input and output reports have their own commands.
pub open spec fn report_command(rtype: HidReportType, write: bool) -> int {
    match (rtype, write) {
        (HidReportType::Feature, true) => 0x06,
        (HidReportType::Feature, false) => 0x07,
        (HidReportType::Input, true) => 0x09,
        (HidReportType::Input, false) => 0x0a,
        (HidReportType::Output, true) => 0x0b,
        (HidReportType::Output, false) => 0x0c,
    }
}

/// A request of the server reaches the device in the slot that it names, with
/// the bytes that it brings, and by the command for its class and direction;
/// the kernel is told how long the buffer is.
pub proof fn law_requests_reach_their_device(
    r: HidRegistryView,
    hid: u8,
    request: u32,
    report_number: u8,
    report_type: HidReportType,
    data: Vec<u8>,
)
    requires
        r.serves(hid),
        0 < data@.len() < 0x4000,
    ensures
        r.action(HidHostRequest::Output { hid, data }) == (HidActionView::Write {
            hid,
            data: data@,
        }),
        r.action(
            HidHostRequest::GetReport { hid, request, report_number, report_type },
        ) matches HidActionView::GetReport { hid: to, request: n, code, buffer } && to == hid && n
            == request && code == 0xc000_0000 + buffer.len() * 0x1_0000 + 0x4800 + report_command(
            report_type,
            false,
        ) && buffer.len() == 4096 && buffer[0] == report_number,
        r.action(
            HidHostRequest::SetReport { hid, request, report_number, report_type, data },
        ) matches HidActionView::SetReport { hid: to, request: n, code, data: bytes } && to == hid
            && n == request && bytes == data@ && code == 0xc000_0000 + data@.len() * 0x1_0000
            + 0x4800 + report_command(report_type, true),
{
    law_ioctl_fields(3, crate::hidpass::get_command(report_type), 4096);
    law_ioctl_fields(3, crate::hidpass::set_command(report_type), data@.len() as u64);
}

/// Each line of a uevent file sets what it names and nothing else.
pub proof fn law_uevent_lines(u: UeventView, v: Seq<char>)
    ensures
        u.line("HID_NAME="@ + v) == Some(UeventView { name: v, ..u }),
        u.line("HID_PHYS="@ + v) == Some(UeventView { phys: v, ..u }),
        u.line("HID_UNIQ="@ + v) == Some(UeventView { uniq: v, ..u }),
        u.line("HID_ID="@ + v) == (match parse_hid_id(v) {
            Some(id) => Some(UeventView { id: Some(id), ..u }),
            None => None,
        }),
{
    reveal_strlit("HID_NAME=");
    reveal_strlit("HID_PHYS=");
    reveal_strlit("HID_UNIQ=");
    reveal_strlit("HID_ID=");
    lemma_prefix_found("HID_NAME="@, v);
    lemma_prefix_found("HID_PHYS="@, v);
    lemma_prefix_found("HID_UNIQ="@, v);
    lemma_prefix_found("HID_ID="@, v);
    lemma_other_prefix("HID_PHYS="@ + v, "HID_NAME="@, 4);
    lemma_other_prefix("HID_UNIQ="@ + v, "HID_NAME="@, 4);
    lemma_other_prefix("HID_UNIQ="@ + v, "HID_PHYS="@, 4);
    lemma_other_prefix("HID_ID="@ + v, "HID_NAME="@, 4);
    lemma_other_prefix("HID_ID="@ + v, "HID_PHYS="@, 4);
    lemma_other_prefix("HID_ID="@ + v, "HID_UNIQ="@, 4);
}

proof fn lemma_prefix_found(prefix: Seq<char>, v: Seq<char>)
    ensures
        crate::text::after_prefix(prefix + v, prefix) == Some(v),
{
    assert((prefix + v).take(prefix.len() as int) =~= prefix);
    assert((prefix + v).skip(prefix.len() as int) =~= v);
}

proof fn lemma_other_prefix(s: Seq<char>, prefix: Seq<char>, at: int)
    requires
        0 <= at < prefix.len(),
        at < s.len(),
        s[at] != prefix[at],
    ensures
        crate::text::after_prefix(s, prefix) is None,
{
    if crate::text::has_prefix(s, prefix) {
        assert(s.take(prefix.len() as int)[at] == prefix[at]);
    }
}

/// The id line holds bus, vendor and product in this order, in hex digits with
/// colons between; of vendor and product the lower half counts.
pub proof fn law_hid_id_in_order(bus: Seq<char>, vendor: Seq<char>, product: Seq<char>)
    requires
        !bus.contains(':'),
        !vendor.contains(':'),
    ensures
        parse_hid_id(bus + seq![':'] + vendor + seq![':'] + product) == (match (
            parse_uint(bus, 16, u32::MAX as nat),
            parse_uint(vendor, 16, u32::MAX as nat),
            parse_uint(product, 16, u32::MAX as nat),
        ) {
            (Some(b), Some(v), Some(p)) => Some(
                (b as u32, (v % 0x1_0000) as u16, (p % 0x1_0000) as u16),
            ),
            _ => None,
        }),
{
    let s = bus + seq![':'] + vendor + seq![':'] + product;
    let rest = vendor + seq![':'] + product;
    assert forall|i: int| 0 <= i < bus.len() implies s[i] != ':' by {
        assert(s[i] == bus[i]);
        assert(bus.contains(bus[i]));
    }
    assert(s[bus.len() as int] == ':');
    lemma_find_char_at(s, ':', bus.len() as int);
    assert(s.skip(bus.len() as int + 1) =~= rest);
    assert(s.take(bus.len() as int) =~= bus);
    assert forall|i: int| 0 <= i < vendor.len() implies rest[i] != ':' by {
        assert(rest[i] == vendor[i]);
        assert(vendor.contains(vendor[i]));
    }
    assert(rest[vendor.len() as int] == ':');
    lemma_find_char_at(rest, ':', vendor.len() as int);
    assert(rest.take(vendor.len() as int) =~= vendor);
    assert(rest.skip(vendor.len() as int + 1) =~= product);
}

/// A USB device is described by its own attributes: vendor and product as
/// their hex digits say, the device number behind the bus number, the code of
/// its speed, and its name. Only Valve's controllers are.
pub proof fn law_device_described_by_its_attributes(
    busid: Seq<char>,
    a: UsbAttributes,
    builtin: bool,
)
    ensures
        described(busid, a, builtin) matches Some(d) ==> {
            &&& d.busid == busid
            &&& d.vendor == 0x28de
            &&& d.product == 0x1102 || d.product == 0x1142 || (builtin && d.product == 0x1205)
            &&& a.id_vendor matches Some(s) && parse_uint(trim(s@), 16, 65535) == Some(
                d.vendor as nat,
            )
            &&& a.id_product matches Some(s) && parse_uint(trim(s@), 16, 65535) == Some(
                d.product as nat,
            )
            &&& a.busnum matches Some(bus) && (a.devnum matches Some(dev) && (parse_uint(
                trim(bus@),
                10,
                u32::MAX as nat,
            ) matches Some(b) && (parse_uint(trim(dev@), 10, u32::MAX as nat) matches Some(n) && (b
                < 0x1_0000 && n < 0x1_0000 ==> d.devid == b * 0x1_0000 + n))))
            &&& a.speed matches Some(s) && d.speed == speed_number(trim(s@))
            &&& d.name == (match a.product {
                Some(s) => trim(s@),
                None => "USB device"@,
            })
        },
{
    if let Some(d) = described(busid, a, builtin) {
        let b = parse_uint(trim(a.busnum->0@), 10, u32::MAX as nat)->0;
        let n = parse_uint(trim(a.devnum->0@), 10, u32::MAX as nat)->0;
        if b < 0x1_0000 && n < 0x1_0000 {
            law_devid_halves(b as u32, n as u32);
        }
    }
}

/// The codes of the speeds grow with the speed, and each has its own; what is
/// not known counts as high speed.
pub proof fn law_speed_codes(other: Seq<char>)
    ensures
        speed_number("1.5"@) == 1,
        speed_number("12"@) == 2,
        speed_number("480"@) == 3,
        speed_number("5000"@) == 5,
        speed_number("10000"@) == 6,
        other != "1.5"@ && other != "12"@ && other != "5000"@ && other != "10000"@
            ==> speed_number(other) == 3,
{
    reveal_strlit("1.5");
    reveal_strlit("12");
    reveal_strlit("480");
    reveal_strlit("5000");
    reveal_strlit("10000");
    assert("1.5"@.len() == 3 && "12"@.len() == 2 && "480"@.len() == 3 && "5000"@.len() == 4
        && "10000"@.len() == 5);
    assert("1.5"@[0] == '1' && "480"@[0] == '4');
}

/// The header of a tunnel tells the server what the device is.
pub proof fn law_tunnel_tells_the_device(d: UsbDeviceView)
    ensures
        tunnel_header(d).vendor == d.vendor,
        tunnel_header(d).product == d.product,
        tunnel_header(d).devid == d.devid,
        tunnel_header(d).speed == d.speed,
        tunnel_header(d).name == d.name,
{
}

/// A device is exported once at a time, again when its tunnel has ended, and
/// never again once it was given up.
pub proof fn law_export_once_until_it_ends(f: ForwarderView, busid: Seq<char>)
    ensures
        !f.offered(busid).may_export(busid),
        f.may_export(busid) ==> f.offered(busid).exported.contains(busid),
        f.may_export(busid) ==> f.offered(busid).ended(busid, false).may_export(busid),
        !f.ended(busid, true).may_export(busid),
        !f.ended(busid, true).ended(busid, false).may_export(busid),
{
}

/// A bus id is made of digits, dashes and dots, with a dash in it, so that
/// neither interfaces nor root hubs are taken for devices.
pub proof fn law_bus_ids(name: Seq<char>, i: int)
    requires
        0 <= i < name.len(),
        device_busid(name),
    ensures
        name[i] != ':' && name[i] != 'u',
        name.contains('-'),
        '0' <= name[i] <= '9' || name[i] == '-' || name[i] == '.',
{
}

/// A key that a device reports as pressed or held is held, one that it reports
/// as released is not; other keys and other kinds of events have no part in
/// the chord.
pub proof fn law_reported_keys_move_the_chord(
    c: ChordView,
    select: u16,
    start: u16,
    code: u16,
    value: i32,
    now: u64,
)
    requires
        select != start,
    ensures
        ({
            let key = |code: u16| RawGamepadEvent { event_type: 1, code, value };
            &&& value == 0 ==> c.keyed(key(select), select, start, now) == c.select(false, now)
            &&& value != 0 ==> c.keyed(key(select), select, start, now) == c.select(true, now)
            &&& value == 0 ==> c.keyed(key(start), select, start, now) == c.start(false, now)
            &&& value != 0 ==> c.keyed(key(start), select, start, now) == c.start(true, now)
            &&& code != select && code != start ==> c.keyed(key(code), select, start, now) == c
            &&& c.keyed(
                RawGamepadEvent { event_type: 3, code: select, value },
                select,
                start,
                now,
            ) == c
        }),
{
}

/// The numbers that the kernel has for keys, buttons and kinds of events.
pub proof fn law_kernel_numbers()
    ensures
        crate::gamepad::EV_KEY == 1,
        crate::gamepad::EV_ABS == 3,
        crate::gamepad::BTN_SOUTH == 0x130,
        crate::gamepad::BTN_SELECT == 0x13a,
        crate::gamepad::BTN_START == 0x13b,
        crate::gamepad::KEY_VOLUMEDOWN == 114,
        crate::gamepad::KEY_VOLUMEUP == 115,
        crate::gamepad::VALVE_VENDOR_ID == 0x28de,
        crate::input::MAX_GAMEPADS == 4,
        crate::input::MAX_HID_PASSTHROUGH == 4,
        crate::usb::MIN_HEALTHY_TUNNEL == 5_000_000_000,
        crate::hidpass::HID_MAX_DESCRIPTOR_SIZE == 4096,
{
}

/// An interface is taken over if its report descriptor opens with a usage page
/// that vendors define, from 0xff00 to 0xffff, and only then.
pub proof fn law_vendor_pages(d: Seq<u8>)
    ensures
        crate::hidpass::vendor_descriptor(d) <==> d.len() >= 3 && d[0] == 0x06 && d[1] + 256 * d[2]
            >= 0xff00,
{
}

} // verus!
