use stargaze::transport::{deserialize_usb_tunnel_header, USB_STREAM_MAGIC};
use stargaze::usb::{
    announce_write, bind_failure, bind_write, check_bound, detach_write, driver_link, gives_up,
    is_device_busid, make_devid, read_device, release_writes, socket_attribute, speed_code,
    tunnel_preamble, UsbAttributes, UsbForwarder, MIN_HEALTHY_TUNNEL,
};

fn attributes(product: &str) -> UsbAttributes {
    UsbAttributes {
        id_vendor: Some("28de\n".to_string()),
        id_product: Some(product.to_string()),
        busnum: Some(" 3\n".to_string()),
        devnum: Some("7\n".to_string()),
        speed: Some("12\n".to_string()),
        product: Some("Steam Controller\n".to_string()),
    }
}

#[test]
fn device_busid_filter() {
    assert!(is_device_busid("3-1"));
    assert!(is_device_busid("3-1.3.2"));
    assert!(!is_device_busid("3-1.3:1.0")); // interface
    assert!(!is_device_busid("usb3")); // root hub
    assert!(!is_device_busid("3-0:1.0"));
}

#[test]
fn speed_codes_match_kernel_enum() {
    assert_eq!(speed_code("1.5"), 1);
    assert_eq!(speed_code("12"), 2);
    assert_eq!(speed_code("480"), 3);
    assert_eq!(speed_code("5000"), 5);
    assert_eq!(speed_code("10000"), 6);
    assert_eq!(speed_code("unknown"), 3);
}

#[test]
fn devid_packs_bus_and_device_number() {
    // Matches the USB/IP convention: busnum << 16 | devnum.
    let busnum = 3u32;
    let devnum = 7u32;
    assert_eq!(make_devid(busnum, devnum), 0x0003_0007);
}

#[test]
fn busid_needs_digits_dots_and_a_dash() {
    assert!(!is_device_busid(""));
    assert!(!is_device_busid("31"));
    assert!(is_device_busid("-"));
    assert!(!is_device_busid("3-1a"));
}

#[test]
fn forwarded_devices_are_described() {
    let device = read_device("3-1", &attributes("1142\n"), false).unwrap();
    assert_eq!(device.busid, "3-1");
    assert_eq!((device.vendor, device.product), (0x28de, 0x1142));
    assert_eq!(device.devid, 0x0003_0007);
    assert_eq!(device.speed, 2);
    assert_eq!(device.name, "Steam Controller");
    assert!(read_device("3-1", &attributes("1102"), false).is_some());
    assert!(read_device("3-1", &attributes("9999"), true).is_none());
    assert!(read_device("3-1", &attributes("11421"), true).is_none());
}

#[test]
fn builtin_controller_is_forwarded_on_request() {
    assert!(read_device("3-1", &attributes("1205"), false).is_none());
    assert!(read_device("3-1", &attributes("1205"), true).is_some());
}

#[test]
fn missing_attributes() {
    let unnamed = UsbAttributes { product: None, ..attributes("1142") };
    assert_eq!(read_device("3-1", &unnamed, false).unwrap().name, "USB device");
    for broken in [
        UsbAttributes { id_vendor: None, ..attributes("1142") },
        UsbAttributes { id_product: None, ..attributes("1142") },
        UsbAttributes { busnum: Some("x".to_string()), ..attributes("1142") },
        UsbAttributes { devnum: None, ..attributes("1142") },
        UsbAttributes { speed: None, ..attributes("1142") },
    ] {
        assert!(read_device("3-1", &broken, false).is_none());
    }
}

#[test]
fn healthy_tunnels_are_opened_again() {
    let mut forwarder = UsbForwarder::new();
    assert!(forwarder.offer("3-1"));
    assert!(!forwarder.offer("3-1"));
    forwarder.tunnel_ended("3-1", false);
    assert!(forwarder.offer("3-1"));
    forwarder.tunnel_ended("3-1", true);
    assert!(!forwarder.offer("3-1"));
    assert!(forwarder.offer("3-2"));
    assert!(gives_up(true, MIN_HEALTHY_TUNNEL));
    assert!(gives_up(false, MIN_HEALTHY_TUNNEL - 1));
    assert!(!gives_up(false, MIN_HEALTHY_TUNNEL));
}

#[test]
fn stub_writes() {
    let w = announce_write("3-1");
    assert_eq!(w.path, "/sys/bus/usb/drivers/usbip-host/match_busid");
    assert_eq!(w.data, "add 3-1");
    let w = detach_write("3-1", "usb");
    assert_eq!((w.path.as_str(), w.data.as_str()), ("/sys/bus/usb/drivers/usb/unbind", "3-1"));
    let w = bind_write("3-1");
    assert_eq!((w.path.as_str(), w.data.as_str()), ("/sys/bus/usb/drivers/usbip-host/bind", "3-1"));
    let released: Vec<(String, String)> =
        release_writes("3-1").into_iter().map(|w| (w.path, w.data)).collect();
    let expected = [
        ("/sys/bus/usb/drivers/usbip-host/unbind", "3-1"),
        ("/sys/bus/usb/drivers/usbip-host/match_busid", "del 3-1"),
        ("/sys/bus/usb/drivers_probe", "3-1"),
    ];
    assert_eq!(released.len(), expected.len());
    for ((path, data), want) in released.iter().zip(expected) {
        assert_eq!((path.as_str(), data.as_str()), want);
    }
    assert_eq!(driver_link("3-1"), "/sys/bus/usb/devices/3-1/driver");
    assert_eq!(socket_attribute("3-1"), "/sys/bus/usb/devices/3-1/usbip_sockfd");
}

#[test]
fn bound_driver_is_checked() {
    assert_eq!(check_bound(Some("usbip-host"), "../usbip-host"), Ok(()));
    assert_eq!(
        check_bound(Some("usb"), "../usb"),
        Err("device bound to ../usb instead of usbip-host".to_string())
    );
    assert!(check_bound(None, "..").is_err());
    assert!(bind_failure("3-1", "denied").starts_with("cannot bind 3-1 to usbip-host: denied; is"));
}

#[test]
fn tunnel_opens_with_the_device() {
    let device = read_device("3-1", &attributes("1142"), false).unwrap();
    let bytes = tunnel_preamble(&device).unwrap();
    assert_eq!(bytes[..4], USB_STREAM_MAGIC);
    let header = deserialize_usb_tunnel_header(&bytes[6..]).unwrap();
    assert_eq!(header.product, 0x1142);
    assert_eq!(header.name, "Steam Controller");
    let mut long = device;
    long.name = "x".repeat(70_000);
    assert!(tunnel_preamble(&long).is_err());
}
