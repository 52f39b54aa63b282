//! USB forwarding: which devices are handed to the server, what the kernel
//! is told, and which tunnels are tried again.
use crate::messages::enc_usb_header;
use crate::slots::TextSet;
use crate::text::{
    chars_of, copy_text, parse_number, parse_u32, parse_uint, same_text, string_of, trim,
    trim_chars,
};
use crate::transport::{
    is_serialization_error, serialize_usb_tunnel_header, usb_preamble, TransportError,
    UsbTunnelHeader, UsbTunnelView,
};
use vstd::prelude::*;

verus! {

/// A tunnel that dies faster than this, in nanoseconds, never worked.
pub const MIN_HEALTHY_TUNNEL: u64 = 5_000_000_000;

/// The vendor whose controllers are forwarded.
pub const FORWARDED_VENDOR: u16 = 0x28de;

/// The controller built into the handheld.
pub const BUILTIN_CONTROLLER: u16 = 0x1205;

/// A USB device to forward.
#[derive(Debug, Clone)]
pub struct UsbDevice {
    /// Its name on the bus.
    pub busid: String,
    pub vendor: u16,
    pub product: u16,
    /// Bus and device number in one.
    pub devid: u32,
    /// Kernel code of its speed.
    pub speed: u32,
    pub name: String,
}

/// What a [`UsbDevice`] holds.
#[verifier::ext_equal]
pub struct UsbDeviceView {
    pub busid: Seq<char>,
    pub vendor: u16,
    pub product: u16,
    pub devid: u32,
    pub speed: u32,
    pub name: Seq<char>,
}

impl View for UsbDevice {
    type V = UsbDeviceView;

    open spec fn view(&self) -> UsbDeviceView {
        UsbDeviceView {
            busid: self.busid@,
            vendor: self.vendor,
            product: self.product,
            devid: self.devid,
            speed: self.speed,
            name: self.name@,
        }
    }
}

/// The attribute files of a USB device, as far as they could be read.
pub struct UsbAttributes {
    pub id_vendor: Option<String>,
    pub id_product: Option<String>,
    pub busnum: Option<String>,
    pub devnum: Option<String>,
    pub speed: Option<String>,
    pub product: Option<String>,
}

/// A character that the bus name of a device may have.
pub open spec fn is_busid_char(c: char) -> bool {
    '0' <= c <= '9' || c == '-' || c == '.'
}

/// The name is one of a device, such as `3-1.3`, and not of an interface, a
/// root hub or anything else on the bus.
pub open spec fn device_busid(name: Seq<char>) -> bool {
    &&& name.contains('-')
    &&& forall|i: int| 0 <= i < name.len() ==> is_busid_char(#[trigger] name[i])
}

/// Whether a name on the bus is one of a device, such as `3-1.3`, and not of
/// an interface (`3-1.3:1.0`), a root hub (`usb3`) or an attribute.
pub fn is_device_busid(name: &str) -> (r: bool)
    ensures
        r == device_busid(name@),
{
    let chars = chars_of(name);
    let mut dash: bool = false;
    let mut n: usize = 0;
    while n < chars.len()
        invariant
            n <= chars.len(),
            chars@ == name@,
            forall|i: int| 0 <= i < n ==> is_busid_char(#[trigger] chars@[i]),
            dash <==> exists|i: int| 0 <= i < n && #[trigger] chars@[i] == '-',
        decreases chars.len() - n,
    {
        let c = chars[n];
        if !(('0' <= c && c <= '9') || c == '-' || c == '.') {
            assert(!is_busid_char(name@[n as int]));
            return false;
        }
        if c == '-' {
            dash = true;
        }
        n = n + 1;
    }
    dash
}

/// The kernel's code of a speed attribute; an unknown speed counts as high.
pub open spec fn speed_number(speed: Seq<char>) -> u32 {
    if speed == "1.5"@ {
        1
    } else if speed == "12"@ {
        2
    } else if speed == "480"@ {
        3
    } else if speed == "5000"@ {
        5
    } else if speed == "10000"@ {
        6
    } else {
        3
    }
}

/// The kernel's code of a speed attribute.
pub fn speed_code(speed: &str) -> (code: u32)
    ensures
        code == speed_number(speed@),
{
    if same_text(speed, "1.5") {
        1
    } else if same_text(speed, "12") {
        2
    } else if same_text(speed, "480") {
        3
    } else if same_text(speed, "5000") {
        5
    } else if same_text(speed, "10000") {
        6
    } else {
        3
    }
}

/// The device is one to forward: a wired controller, a wireless receiver,
/// and the built-in controller if it is handed over.
pub open spec fn is_forwarded(vendor: u16, product: u16, builtin: bool) -> bool {
    vendor == FORWARDED_VENDOR && (product == 0x1102 || product == 0x1142 || (builtin && product
        == BUILTIN_CONTROLLER))
}

/// Bus and device number in one number.
pub open spec fn packed_devid(busnum: u32, devnum: u32) -> u32 {
    (busnum << 16u32) | devnum
}

/// Bus and device number in one number.
pub fn make_devid(busnum: u32, devnum: u32) -> (devid: u32)
    ensures
        devid == packed_devid(busnum, devnum),
{
    (busnum << 16u32) | devnum
}

/// The number holds the bus in its high half and the device in its low one.
pub proof fn law_devid_halves(busnum: u32, devnum: u32)
    requires
        busnum <= 0xffff,
        devnum <= 0xffff,
    ensures
        packed_devid(busnum, devnum) == busnum * 0x1_0000 + devnum,
{
    assert(packed_devid(busnum, devnum) == busnum * 0x1_0000 + devnum) by (bit_vector)
        requires
            busnum <= 0xffff,
            devnum <= 0xffff,
    ;
}

/// The number in an attribute, where it can be read and parsed.
pub open spec fn attribute_number(
    attribute: Option<String>,
    radix: nat,
    max: nat,
) -> Option<nat> {
    match attribute {
        Some(s) => parse_uint(trim(s@), radix, max),
        None => None,
    }
}

/// The device that the attributes describe, if it is one to forward and they
/// describe it fully. A device without a name gets one.
pub open spec fn described(
    busid: Seq<char>,
    a: UsbAttributes,
    builtin: bool,
) -> Option<UsbDeviceView> {
    match (
        attribute_number(a.id_vendor, 16, u16::MAX as nat),
        attribute_number(a.id_product, 16, u16::MAX as nat),
        attribute_number(a.busnum, 10, u32::MAX as nat),
        attribute_number(a.devnum, 10, u32::MAX as nat),
        a.speed,
    ) {
        (Some(vendor), Some(product), Some(busnum), Some(devnum), Some(speed)) => {
            if is_forwarded(vendor as u16, product as u16, builtin) {
                Some(
                    UsbDeviceView {
                        busid,
                        vendor: vendor as u16,
                        product: product as u16,
                        devid: packed_devid(busnum as u32, devnum as u32),
                        speed: speed_number(trim(speed@)),
                        name: match a.product {
                            Some(name) => trim(name@),
                            None => "USB device"@,
                        },
                    },
                )
            } else {
                None
            }
        },
        _ => None,
    }
}

fn trimmed(s: &str) -> (r: String)
    ensures
        r@ == trim(s@),
{
    let chars = chars_of(s);
    string_of(trim_chars(chars.as_slice()))
}

fn read_hex_u16(attribute: &Option<String>) -> (r: Option<u16>)
    ensures
        match r {
            Some(n) => attribute_number(*attribute, 16, u16::MAX as nat) == Some(n as nat),
            None => attribute_number(*attribute, 16, u16::MAX as nat) is None,
        },
{
    match attribute {
        Some(s) => {
            let chars = chars_of(s.as_str());
            match parse_number(trim_chars(chars.as_slice()), 16, 0xffff) {
                Some(n) => Some(n as u16),
                None => None,
            }
        },
        None => None,
    }
}

fn read_u32(attribute: &Option<String>) -> (r: Option<u32>)
    ensures
        match r {
            Some(n) => attribute_number(*attribute, 10, u32::MAX as nat) == Some(n as nat),
            None => attribute_number(*attribute, 10, u32::MAX as nat) is None,
        },
{
    match attribute {
        Some(s) => {
            let chars = chars_of(s.as_str());
            parse_u32(trim_chars(chars.as_slice()))
        },
        None => None,
    }
}

/// The device that attributes describe, if it is one to forward; `builtin`
/// tells whether the built-in controller is handed over.
pub fn read_device(busid: &str, attributes: &UsbAttributes, builtin: bool) -> (device: Option<
    UsbDevice,
>)
    ensures
        (match device {
            Some(d) => Some(d@),
            None => None,
        }) == described(busid@, *attributes, builtin),
{
    let vendor: u16 = match read_hex_u16(&attributes.id_vendor) {
        Some(n) => n,
        None => return None,
    };
    let product: u16 = match read_hex_u16(&attributes.id_product) {
        Some(n) => n,
        None => return None,
    };
    let wanted = vendor == FORWARDED_VENDOR && (product == 0x1102 || product == 0x1142 || (builtin
        && product == BUILTIN_CONTROLLER));
    if !wanted {
        return None;
    }
    let busnum: u32 = match read_u32(&attributes.busnum) {
        Some(n) => n,
        None => return None,
    };
    let devnum: u32 = match read_u32(&attributes.devnum) {
        Some(n) => n,
        None => return None,
    };
    let speed: u32 = match &attributes.speed {
        Some(s) => speed_code(trimmed(s.as_str()).as_str()),
        None => return None,
    };
    let name = match &attributes.product {
        Some(s) => trimmed(s.as_str()),
        None => copy_text("USB device"),
    };
    Some(
        UsbDevice {
            busid: copy_text(busid),
            vendor,
            product,
            devid: make_devid(busnum, devnum),
            speed,
            name,
        },
    )
}

/// The built-in controller is forwarded only if it is handed over.
pub proof fn law_builtin_stays(busid: Seq<char>, a: UsbAttributes, builtin: bool)
    ensures
        match described(busid, a, builtin) {
            Some(d) => d.busid == busid && d.vendor == FORWARDED_VENDOR && (d.product
                == BUILTIN_CONTROLLER ==> builtin),
            None => true,
        },
{
}

/// The devices that have a tunnel and those that are not tried again.
pub struct UsbForwarder {
    exported: TextSet,
    skipped: TextSet,
}

/// What a [`UsbForwarder`] holds.
#[verifier::ext_equal]
pub struct ForwarderView {
    pub exported: Set<Seq<char>>,
    pub skipped: Set<Seq<char>>,
}

impl View for UsbForwarder {
    type V = ForwarderView;

    closed spec fn view(&self) -> ForwarderView {
        ForwarderView { exported: self.exported@, skipped: self.skipped@ }
    }
}

impl ForwarderView {
    /// The device may get a tunnel.
    pub open spec fn may_export(self, busid: Seq<char>) -> bool {
        !self.exported.contains(busid) && !self.skipped.contains(busid)
    }

    /// The state after a device was considered.
    pub open spec fn offered(self, busid: Seq<char>) -> ForwarderView {
        if self.may_export(busid) {
            ForwarderView { exported: self.exported.insert(busid), ..self }
        } else {
            self
        }
    }

    /// The state after a tunnel ended.
    pub open spec fn ended(self, busid: Seq<char>, gave_up: bool) -> ForwarderView {
        ForwarderView {
            exported: self.exported.remove(busid),
            skipped: if gave_up {
                self.skipped.insert(busid)
            } else {
                self.skipped
            },
        }
    }
}

impl UsbForwarder {
    /// Every name is kept once.
    pub closed spec fn wf(&self) -> bool {
        self.exported.wf() && self.skipped.wf()
    }

    /// No device has a tunnel.
    pub fn new() -> (forwarder: UsbForwarder)
        ensures
            forwarder.wf(),
            forwarder@.exported == Set::<Seq<char>>::empty(),
            forwarder@.skipped == Set::<Seq<char>>::empty(),
    {
        UsbForwarder { exported: TextSet::new(), skipped: TextSet::new() }
    }

    /// Considers a device that was found: returns whether to open a tunnel
    /// for it, which it then has.
    pub fn offer(&mut self, busid: &str) -> (export: bool)
        requires
            old(self).wf(),
        ensures
            final(self).wf(),
            export == old(self)@.may_export(busid@),
            final(self)@ == old(self)@.offered(busid@),
    {
        if self.exported.contains(busid) || self.skipped.contains(busid) {
            return false;
        }
        self.exported.insert(busid);
        true
    }

    /// The tunnel of a device ended; `gave_up` if it is not to be tried again.
    pub fn tunnel_ended(&mut self, busid: &str, gave_up: bool)
        requires
            old(self).wf(),
        ensures
            final(self).wf(),
            final(self)@ == old(self)@.ended(busid@, gave_up),
    {
        self.exported.remove(busid);
        if gave_up {
            self.skipped.insert(busid);
        }
    }
}

/// Whether to give up on a device whose tunnel ended: it failed, or lived
/// too short to have worked.
pub fn gives_up(failed: bool, lived: u64) -> (r: bool)
    ensures
        r == (failed || lived < MIN_HEALTHY_TUNNEL),
{
    failed || lived < MIN_HEALTHY_TUNNEL
}

/// A device with a tunnel does not get a second one, and one that was given
/// up does not get one in this session.
pub proof fn law_one_tunnel_each(f: ForwarderView, busid: Seq<char>, other: Seq<char>, gave_up: bool)
    ensures
        !f.offered(busid).may_export(busid),
        !f.ended(busid, true).may_export(busid),
        f.skipped.contains(busid) ==> !f.offered(other).ended(other, gave_up).may_export(busid),
{
}

/// A device whose tunnel ended in good health may get one again.
pub proof fn law_healthy_tunnel_retried(f: ForwarderView, busid: Seq<char>)
    requires
        f.may_export(busid),
    ensures
        f.offered(busid).ended(busid, false) == f,
{
    assert(f.exported.insert(busid).remove(busid) =~= f.exported);
}

/// A write to an attribute of the kernel.
pub struct SysfsWrite {
    pub path: String,
    pub data: String,
}

/// Path and data of a [`SysfsWrite`].
pub open spec fn write_view(w: SysfsWrite) -> (Seq<char>, Seq<char>) {
    (w.path@, w.data@)
}

/// Paths and data of some writes.
pub open spec fn write_views(writes: Seq<SysfsWrite>) -> Seq<(Seq<char>, Seq<char>)> {
    Seq::new(writes.len(), |i: int| write_view(writes[i]))
}

fn command(verb: &str, busid: &str) -> (s: String)
    ensures
        s@ == verb@ + busid@,
{
    let mut s = copy_text(verb);
    s.append(busid);
    s
}

fn joined(a: &str, b: &str, c: &str) -> (s: String)
    ensures
        s@ == a@ + b@ + c@,
{
    let mut s = copy_text(a);
    s.append(b);
    s.append(c);
    s
}

/// The link that names the driver of a device.
pub fn driver_link(busid: &str) -> (path: String)
    ensures
        path@ == "/sys/bus/usb/devices/"@ + busid@ + "/driver"@,
{
    joined("/sys/bus/usb/devices/", busid, "/driver")
}

/// The attribute that takes the socket of a tunnel.
pub fn socket_attribute(busid: &str) -> (path: String)
    ensures
        path@ == "/sys/bus/usb/devices/"@ + busid@ + "/usbip_sockfd"@,
{
    joined("/sys/bus/usb/devices/", busid, "/usbip_sockfd")
}

/// Announces a device to the stub driver.
pub fn announce_write(busid: &str) -> (w: SysfsWrite)
    ensures
        write_view(w) == ("/sys/bus/usb/drivers/usbip-host/match_busid"@, "add "@ + busid@),
{
    SysfsWrite {
        path: copy_text("/sys/bus/usb/drivers/usbip-host/match_busid"),
        data: command("add ", busid),
    }
}

/// Detaches a device from the driver it has.
pub fn detach_write(busid: &str, driver: &str) -> (w: SysfsWrite)
    ensures
        write_view(w) == ("/sys/bus/usb/drivers/"@ + driver@ + "/unbind"@, busid@),
{
    SysfsWrite {
        path: joined("/sys/bus/usb/drivers/", driver, "/unbind"),
        data: copy_text(busid),
    }
}

/// Binds a device to the stub driver.
pub fn bind_write(busid: &str) -> (w: SysfsWrite)
    ensures
        write_view(w) == ("/sys/bus/usb/drivers/usbip-host/bind"@, busid@),
{
    SysfsWrite {
        path: copy_text("/sys/bus/usb/drivers/usbip-host/bind"),
        data: copy_text(busid),
    }
}

/// The writes that give a device back: unbind it from the stub, withdraw it,
/// and have its own driver found again.
pub fn release_writes(busid: &str) -> (writes: Vec<SysfsWrite>)
    ensures
        write_views(writes@) == seq![
            ("/sys/bus/usb/drivers/usbip-host/unbind"@, busid@),
            ("/sys/bus/usb/drivers/usbip-host/match_busid"@, "del "@ + busid@),
            ("/sys/bus/usb/drivers_probe"@, busid@),
        ],
{
    let mut writes: Vec<SysfsWrite> = Vec::new();
    writes.push(
        SysfsWrite {
            path: copy_text("/sys/bus/usb/drivers/usbip-host/unbind"),
            data: copy_text(busid),
        },
    );
    writes.push(
        SysfsWrite {
            path: copy_text("/sys/bus/usb/drivers/usbip-host/match_busid"),
            data: command("del ", busid),
        },
    );
    writes.push(
        SysfsWrite { path: copy_text("/sys/bus/usb/drivers_probe"), data: copy_text(busid) },
    );
    assert(write_views(writes@) =~= seq![
        ("/sys/bus/usb/drivers/usbip-host/unbind"@, busid@),
        ("/sys/bus/usb/drivers/usbip-host/match_busid"@, "del "@ + busid@),
        ("/sys/bus/usb/drivers_probe"@, busid@),
    ]);
    writes
}

/// Whether a device is bound to the stub, by the name of its driver; if not,
/// what to report, where `shown` is the driver's path as text.
pub fn check_bound(driver: Option<&str>, shown: &str) -> (r: Result<(), String>)
    ensures
        match r {
            Ok(()) => driver matches Some(d) && d@ == "usbip-host"@,
            Err(e) => !(driver matches Some(d) && d@ == "usbip-host"@) && e@ == "device bound to "@
                + shown@ + " instead of usbip-host"@,
        },
{
    let bound = match driver {
        Some(d) => same_text(d, "usbip-host"),
        None => false,
    };
    if bound {
        Ok(())
    } else {
        Err(joined("device bound to ", shown, " instead of usbip-host"))
    }
}

/// What to report when a device cannot be bound to the stub.
pub fn bind_failure(busid: &str, reason: &str) -> (s: String)
    ensures
        s@ == "cannot bind "@ + busid@ + " to usbip-host: "@ + reason@
            + "; is the usbip_host module loaded and are the stargaze USB permissions set up? (nixosModules.usb-client, docs/steam-controller-usbip.md)"@,
{
    let mut s = joined("cannot bind ", busid, " to usbip-host: ");
    s.append(reason);
    s.append(
        "; is the usbip_host module loaded and are the stargaze USB permissions set up? (nixosModules.usb-client, docs/steam-controller-usbip.md)",
    );
    s
}

/// The header that announces a device on its tunnel.
pub open spec fn tunnel_header(device: UsbDeviceView) -> UsbTunnelView {
    UsbTunnelView {
        vendor: device.vendor,
        product: device.product,
        devid: device.devid,
        speed: device.speed,
        name: device.name,
    }
}

/// The bytes that open the tunnel of a device.
pub fn tunnel_preamble(device: &UsbDevice) -> (r: Result<Vec<u8>, TransportError>)
    ensures
        match r {
            Ok(bytes) => enc_usb_header(tunnel_header(device@)).len() <= u16::MAX && bytes@
                == usb_preamble(tunnel_header(device@)),
            Err(e) => enc_usb_header(tunnel_header(device@)).len() > u16::MAX
                && is_serialization_error(e, "usb header too large"@),
        },
{
    let header = UsbTunnelHeader {
        vendor: device.vendor,
        product: device.product,
        devid: device.devid,
        speed: device.speed,
        name: device.name.clone(),
    };
    assert(header@ =~= tunnel_header(device@));
    serialize_usb_tunnel_header(&header)
}

} // verus!
