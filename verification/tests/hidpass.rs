use stargaze::gamepad::SharedGamepads;
use stargaze::hidpass::{
    descriptor_size, get_reply, get_report_ioc, is_vendor_interface, parse_uevent, read_step,
    set_reply, set_report_ioc, HidAction, HidClaim, HidIdentity, HidPassthrough, Opened,
    HIDIOCGRDESC, HIDIOCGRDESCSIZE,
};
use stargaze::input::{HidHostRequest, HidReplyKind, HidReportType, InputEvent};

fn identity(vendor: u16, product: u16) -> HidIdentity {
    HidIdentity {
        name: "Controller".to_string(),
        phys: "usb-1/input1".to_string(),
        uniq: "12AB".to_string(),
        bus_type: 3,
        vendor,
        product,
    }
}

fn ready() -> Opened {
    Opened::Ready {
        report_descriptor: vec![0x06, 0x00, 0xFF],
        shared: true,
    }
}

#[test]
fn ioctl_constants_match_kernel_values() {
    // Known-good values from a C program on x86_64.
    assert_eq!(HIDIOCGRDESCSIZE, 0x8004_4801);
    assert_eq!(HIDIOCGRDESC, 0x9004_4802);
    assert_eq!(get_report_ioc(HidReportType::Feature, 4096), 0xD000_4807);
    assert_eq!(set_report_ioc(HidReportType::Feature, 64), 0xC040_4806);
}

#[test]
fn uevent_parses_valve_dongle() {
    let content = "DRIVER=hid-steam\n\
                   HID_ID=0003:000028DE:00001142\n\
                   HID_NAME=Valve Software Wireless Steam Controller\n\
                   HID_PHYS=usb-0000:00:14.0-2/input1\n\
                   HID_UNIQ=12AB34CD\n\
                   MODALIAS=hid:b0003g0001v000028DEp00001142\n";
    let id = parse_uevent(content).unwrap();
    assert_eq!(
        id,
        HidIdentity {
            name: "Valve Software Wireless Steam Controller".to_string(),
            phys: "usb-0000:00:14.0-2/input1".to_string(),
            uniq: "12AB34CD".to_string(),
            bus_type: 3,
            vendor: 0x28de,
            product: 0x1142,
        }
    );
}

#[test]
fn uevent_without_id_is_rejected() {
    assert!(parse_uevent("HID_NAME=Nameless\n").is_none());
}

#[test]
fn vendor_interface_detection() {
    // Valve proprietary interface: Usage Page (Vendor 0xFF00).
    assert!(is_vendor_interface(&[0x06, 0x00, 0xFF, 0x09, 0x01]));
    // Lizard-mode boot keyboard: Usage Page (Generic Desktop).
    assert!(!is_vendor_interface(&[0x05, 0x01, 0x09, 0x06]));
    // Lizard-mode boot mouse.
    assert!(!is_vendor_interface(&[0x05, 0x01, 0x09, 0x02]));
    // Non-vendor two-byte page (e.g. 0x0C00 would be 06 00 0C).
    assert!(!is_vendor_interface(&[0x06, 0x00, 0x0C, 0x09, 0x01]));
    assert!(!is_vendor_interface(&[0x06]));
}

#[test]
fn slots_release_clears_shared_claim_only_when_last() {
    let mut shared = SharedGamepads::new();
    let mut registry = HidPassthrough::new();
    for node in ["hidraw3", "hidraw4"] {
        let claim = registry.claim(&mut shared, node, &identity(0x28de, 0x1142), ready());
        assert!(matches!(claim, HidClaim::Claimed(..)));
    }
    assert!(shared.is_grabbed(0x28de, 0x1142));

    registry.release(&mut shared, 0, "hidraw3");
    assert!(
        shared.is_grabbed(0x28de, 0x1142),
        "still one interface active"
    );

    registry.release(&mut shared, 1, "hidraw4");
    assert!(!shared.is_grabbed(0x28de, 0x1142));
}

#[test]
fn uevent_takes_the_last_line_of_a_kind() {
    let id = parse_uevent("HID_NAME=a\r\nHID_NAME=b\r\nHID_ID=+5:fFfF0001:2").unwrap();
    assert_eq!(id.name, "b");
    assert_eq!((id.bus_type, id.vendor, id.product), (5, 1, 2));
    assert_eq!(id.phys, "");
}

#[test]
fn uevent_with_a_bad_id_is_rejected() {
    for id in ["", "3", "3:4", "3:4:", "3:4:5:6", "3:x:5", "100000000:1:1", "-1:1:1"] {
        assert!(parse_uevent(&format!("HID_ID={id}\n")).is_none(), "{id}");
    }
    // A good id does not make up for a bad one.
    assert!(parse_uevent("HID_ID=3:4:5\nHID_ID=x\n").is_none());
}

#[test]
fn descriptor_size_is_held() {
    assert_eq!(descriptor_size(-1), 0);
    assert_eq!(descriptor_size(33), 33);
    assert_eq!(descriptor_size(4097), 4096);
}

#[test]
fn report_commands_by_class() {
    assert_eq!(get_report_ioc(HidReportType::Input, 4096) & 0xff, 0x0a);
    assert_eq!(get_report_ioc(HidReportType::Output, 4096) & 0xff, 0x0c);
    assert_eq!(set_report_ioc(HidReportType::Input, 4) & 0xff, 0x09);
    assert_eq!(set_report_ioc(HidReportType::Output, 4) & 0xff, 0x0b);
}

#[test]
fn claim_announces_the_device() {
    let mut shared = SharedGamepads::new();
    let mut registry = HidPassthrough::new();
    let HidClaim::Claimed(hid, event) =
        registry.claim(&mut shared, "hidraw0", &identity(0x28de, 0x1102), ready())
    else {
        panic!("expected a claim");
    };
    assert_eq!(hid, 0);
    let InputEvent::HidPassthroughConnected { hid, descriptor } = event else {
        panic!("expected an announcement");
    };
    assert_eq!(hid, 0);
    assert_eq!(descriptor.uniq, "12AB");
    assert_eq!(descriptor.report_descriptor, vec![0x06, 0x00, 0xFF]);
    assert!(!registry.is_new("hidraw0"));
    assert!(registry.is_new("hidraw1"));
}

#[test]
fn unusable_devices_are_left_alone() {
    let mut shared = SharedGamepads::new();
    let mut registry = HidPassthrough::new();
    let id = identity(0x28de, 0x1102);
    let keyboard = Opened::Ready {
        report_descriptor: vec![0x05, 0x01, 0x09],
        shared: true,
    };
    for (node, opened) in [
        ("hidraw0", Opened::Failed),
        ("hidraw1", Opened::NoDescriptor),
        ("hidraw2", keyboard),
    ] {
        assert!(matches!(registry.claim(&mut shared, node, &id, opened), HidClaim::Refused));
        assert!(!registry.is_new(node));
    }
    assert!(!shared.is_grabbed(0x28de, 0x1102));
    registry.prune_ignored(&vec!["hidraw1".to_string()]);
    assert!(registry.is_new("hidraw0"));
    assert!(!registry.is_new("hidraw1"));
}

#[test]
fn full_registry_tries_again_later() {
    let mut shared = SharedGamepads::new();
    let mut registry = HidPassthrough::new();
    let id = identity(0x28de, 0x1102);
    for n in 0..4 {
        let node = format!("hidraw{n}");
        assert!(matches!(
            registry.claim(&mut shared, &node, &id, ready()),
            HidClaim::Claimed(hid, _) if hid == n
        ));
    }
    assert!(matches!(registry.claim(&mut shared, "hidraw9", &id, ready()), HidClaim::Refused));
    assert!(registry.is_new("hidraw9"));
    let unshared = Opened::Ready {
        report_descriptor: vec![0x06, 0x00, 0xFF],
        shared: false,
    };
    registry.release(&mut shared, 2, "hidraw2");
    assert!(matches!(registry.claim(&mut shared, "hidraw9", &id, unshared), HidClaim::Refused));
    assert!(registry.is_new("hidraw9"));
}

#[test]
fn other_vendors_are_left_alone() {
    let mut registry = HidPassthrough::new();
    assert!(registry.examine("hidraw0", "HID_ID=3:54C:CE6\n").is_none());
    assert!(!registry.is_new("hidraw0"));
    assert!(registry.examine("hidraw1", "HID_NAME=x\n").is_none());
    assert!(registry.is_new("hidraw1"));
    assert!(registry.examine("hidraw2", "HID_ID=3:28DE:1142\n").is_some());
}

#[test]
fn host_requests_are_carried_out_or_fail() {
    let mut shared = SharedGamepads::new();
    let mut registry = HidPassthrough::new();
    let get = || HidHostRequest::GetReport {
        hid: 0,
        request: 7,
        report_number: 9,
        report_type: HidReportType::Feature,
    };
    let set = |data: Vec<u8>| HidHostRequest::SetReport {
        hid: 0,
        request: 8,
        report_number: 9,
        report_type: HidReportType::Feature,
        data,
    };
    let output = || HidHostRequest::Output { hid: 0, data: vec![1] };
    let failed = |request, kind| InputEvent::HidPassthroughReply {
        hid: 0,
        request,
        kind,
        err: true,
        data: Vec::new(),
    };
    assert!(matches!(registry.handle(output()), HidAction::Skip));
    assert!(matches!(
        registry.handle(get()),
        HidAction::Answer(e) if e == failed(7, HidReplyKind::GetReport)
    ));
    assert!(matches!(
        registry.handle(set(vec![1])),
        HidAction::Answer(e) if e == failed(8, HidReplyKind::SetReport)
    ));

    registry.claim(&mut shared, "hidraw0", &identity(0x28de, 0x1142), ready());
    assert!(matches!(registry.handle(output()), HidAction::Write { hid: 0, data } if data == [1]));
    match registry.handle(get()) {
        HidAction::GetReport { hid, request, code, buffer } => {
            assert_eq!((hid, request, code), (0, 7, 0xD000_4807));
            assert_eq!(buffer.len(), 4096);
            assert_eq!(buffer[0], 9);
            assert!(buffer[1..].iter().all(|&b| b == 0));
        }
        _ => panic!("expected a read"),
    }
    match registry.handle(set(vec![1, 2])) {
        HidAction::SetReport { hid, request, code, data } => {
            assert_eq!((hid, request, code), (0, 8, 0xC002_4806));
            assert_eq!(data, vec![1, 2]);
        }
        _ => panic!("expected a write"),
    }
    assert!(matches!(
        registry.handle(set(Vec::new())),
        HidAction::Answer(e) if e == failed(8, HidReplyKind::SetReport)
    ));
}

#[test]
fn replies_tell_the_outcome() {
    let reply = |err, data| InputEvent::HidPassthroughReply {
        hid: 1,
        request: 2,
        kind: HidReplyKind::GetReport,
        err,
        data,
    };
    assert_eq!(get_reply(1, 2, -1, vec![1, 2, 3]), reply(true, Vec::new()));
    assert_eq!(get_reply(1, 2, 2, vec![1, 2, 3]), reply(false, vec![1, 2]));
    assert_eq!(get_reply(1, 2, 9, vec![1, 2, 3]), reply(false, vec![1, 2, 3]));
    assert_eq!(
        set_reply(1, 2, false),
        InputEvent::HidPassthroughReply {
            hid: 1,
            request: 2,
            kind: HidReplyKind::SetReport,
            err: false,
            data: Vec::new(),
        }
    );
}

#[test]
fn reader_ends_without_bytes() {
    assert_eq!(read_step(1, None), None);
    assert_eq!(read_step(1, Some(&[])), None);
    assert_eq!(
        read_step(1, Some(&[4, 5])),
        Some(InputEvent::HidPassthroughReport { hid: 1, data: vec![4, 5] })
    );
}
