//! HID pass-through: the registry of forwarded devices, what the device
//! files are asked, and the events that go to the server.
use crate::gamepad::{SharedGamepads, SharedView, VALVE_VENDOR_ID};
use crate::input::{
    HidDescriptorView, HidDeviceDescriptor, HidHostRequest, HidReplyKind, HidReportType,
    InputEvent, InputView, MAX_HID_PASSTHROUGH,
};
use crate::slots::{
    free_slot, lemma_first_where, lemma_first_where_at, lemma_usb_id, slot_number,
    usb_id, TextSet,
};
use crate::text::{
    after_prefix, chars_of, copy_text, find_char, lines, lines_of, parse_number, parse_uint,
    position_of, same_text, string_of, string_views, strip_chars, text_views,
};
use vstd::prelude::*;
use vstd::slice::slice_subrange;

verus! {

/// The most bytes of a report descriptor, and a bound on report sizes.
pub const HID_MAX_DESCRIPTOR_SIZE: usize = 4096;

/// ioctl direction: the kernel reads from the caller.
pub const IOC_WRITE: u64 = 1;

/// ioctl direction: the kernel writes to the caller.
pub const IOC_READ: u64 = 2;

/// ioctl that tells the size of the report descriptor.
pub const HIDIOCGRDESCSIZE: u64 = 0x8004_4801;

/// ioctl that gets the report descriptor.
pub const HIDIOCGRDESC: u64 = 0x9004_4802;

/// The ioctl number of hidraw for a direction, a command and an argument
/// size.
pub open spec fn hidraw_code(dir: u64, nr: u64, size: u64) -> u64 {
    (dir << 30u64) | (size << 16u64) | (0x48u64 << 8u64) | nr
}

/// Computes the ioctl number of hidraw for a direction, a command and an
/// argument size.
pub fn hidraw_ioc(dir: u64, nr: u64, size: usize) -> (code: u64)
    ensures
        code == hidraw_code(dir, nr, size as u64),
{
    (dir << 30u64) | ((size as u64) << 16u64) | (0x48u64 << 8u64) | nr
}

/// The number of the command that writes a report of a class.
pub open spec fn set_command(rtype: HidReportType) -> u64 {
    match rtype {
        HidReportType::Feature => 0x06,
        HidReportType::Input => 0x09,
        HidReportType::Output => 0x0b,
    }
}

/// The number of the command that reads a report of a class.
pub open spec fn get_command(rtype: HidReportType) -> u64 {
    match rtype {
        HidReportType::Feature => 0x07,
        HidReportType::Input => 0x0a,
        HidReportType::Output => 0x0c,
    }
}

/// The ioctl that writes a report of a class.
pub fn set_report_ioc(rtype: HidReportType, len: usize) -> (code: u64)
    ensures
        code == hidraw_code(3, set_command(rtype), len as u64),
{
    let nr: u64 = match rtype {
        HidReportType::Feature => 0x06,
        HidReportType::Input => 0x09,
        HidReportType::Output => 0x0b,
    };
    assert(IOC_WRITE | IOC_READ == 3u64) by (bit_vector)
        requires
            IOC_WRITE == 1u64,
            IOC_READ == 2u64,
    ;
    hidraw_ioc(IOC_WRITE | IOC_READ, nr, len)
}

/// The ioctl that reads a report of a class.
pub fn get_report_ioc(rtype: HidReportType, len: usize) -> (code: u64)
    ensures
        code == hidraw_code(3, get_command(rtype), len as u64),
{
    let nr: u64 = match rtype {
        HidReportType::Feature => 0x07,
        HidReportType::Input => 0x0a,
        HidReportType::Output => 0x0c,
    };
    assert(IOC_WRITE | IOC_READ == 3u64) by (bit_vector)
        requires
            IOC_WRITE == 1u64,
            IOC_READ == 2u64,
    ;
    hidraw_ioc(IOC_WRITE | IOC_READ, nr, len)
}

/// The ioctl number tells direction, command, type letter and size apart, as
/// long as each fits its field.
pub proof fn law_ioctl_fields(dir: u64, nr: u64, size: u64)
    requires
        dir < 4,
        nr < 0x100,
        size < 0x4000,
    ensures
        hidraw_code(dir, nr, size) == dir * 0x4000_0000 + size * 0x1_0000 + 0x4800 + nr,
{
    assert(hidraw_code(dir, nr, size) == dir * 0x4000_0000 + size * 0x1_0000 + 0x4800 + nr)
        by (bit_vector)
        requires
            dir < 4,
            nr < 0x100,
            size < 0x4000,
    ;
}

/// The two descriptor commands have the numbers of the scheme: the size is a
/// C integer, the descriptor a C integer and its bytes.
pub proof fn law_descriptor_commands()
    ensures
        HIDIOCGRDESCSIZE == hidraw_code(IOC_READ, 1, 4),
        HIDIOCGRDESC == hidraw_code(IOC_READ, 2, (4 + HID_MAX_DESCRIPTOR_SIZE) as u64),
{
    law_ioctl_fields(2, 1, 4);
    law_ioctl_fields(2, 2, 4100);
}

/// Identity of a hidraw device, from the `uevent` file of its node.
#[derive(Debug, PartialEq, Eq)]
pub struct HidIdentity {
    pub name: String,
    pub phys: String,
    pub uniq: String,
    pub bus_type: u32,
    pub vendor: u16,
    pub product: u16,
}

/// What a [`HidIdentity`] holds.
#[verifier::ext_equal]
pub struct HidIdentityView {
    pub name: Seq<char>,
    pub phys: Seq<char>,
    pub uniq: Seq<char>,
    pub bus_type: u32,
    pub vendor: u16,
    pub product: u16,
}

impl View for HidIdentity {
    type V = HidIdentityView;

    open spec fn view(&self) -> HidIdentityView {
        HidIdentityView {
            name: self.name@,
            phys: self.phys@,
            uniq: self.uniq@,
            bus_type: self.bus_type,
            vendor: self.vendor,
            product: self.product,
        }
    }
}

/// The bus, vendor and product in a text such as `0003:000028DE:00001142`:
/// three hexadecimal numbers, of the last two of which the low half counts.
pub open spec fn parse_hid_id(v: Seq<char>) -> Option<(u32, u16, u16)> {
    let i = find_char(v, ':');
    let rest = v.skip(i + 1);
    let j = find_char(rest, ':');
    if i >= v.len() || j >= rest.len() {
        None
    } else {
        match (
            parse_uint(v.take(i), 16, u32::MAX as nat),
            parse_uint(rest.take(j), 16, u32::MAX as nat),
            parse_uint(rest.skip(j + 1), 16, u32::MAX as nat),
        ) {
            (Some(bus), Some(vendor), Some(product)) => Some(
                (bus as u32, (vendor % 0x1_0000) as u16, (product % 0x1_0000) as u16),
            ),
            _ => None,
        }
    }
}

/// What the lines of a `uevent` file have told so far.
#[verifier::ext_equal]
pub struct UeventView {
    pub name: Seq<char>,
    pub phys: Seq<char>,
    pub uniq: Seq<char>,
    pub id: Option<(u32, u16, u16)>,
}

impl UeventView {
    /// Nothing was read yet.
    pub open spec fn empty() -> UeventView {
        UeventView { name: seq![], phys: seq![], uniq: seq![], id: None }
    }

    /// What is known after one more line; nothing, if it holds an id that
    /// does not parse.
    pub open spec fn line(self, line: Seq<char>) -> Option<UeventView> {
        if let Some(v) = after_prefix(line, "HID_NAME="@) {
            Some(UeventView { name: v, ..self })
        } else if let Some(v) = after_prefix(line, "HID_PHYS="@) {
            Some(UeventView { phys: v, ..self })
        } else if let Some(v) = after_prefix(line, "HID_UNIQ="@) {
            Some(UeventView { uniq: v, ..self })
        } else if let Some(v) = after_prefix(line, "HID_ID="@) {
            match parse_hid_id(v) {
                Some(id) => Some(UeventView { id: Some(id), ..self }),
                None => None,
            }
        } else {
            Some(self)
        }
    }

    /// What is known after some more lines.
    pub open spec fn lines(self, lines: Seq<Seq<char>>) -> Option<UeventView>
        decreases lines.len(),
    {
        if lines.len() == 0 {
            Some(self)
        } else {
            match self.line(lines[0]) {
                Some(u) => u.lines(lines.skip(1)),
                None => None,
            }
        }
    }

    /// The identity, once an id was read.
    pub open spec fn identity(self) -> Option<HidIdentityView> {
        match self.id {
            Some((bus_type, vendor, product)) => Some(
                HidIdentityView {
                    name: self.name,
                    phys: self.phys,
                    uniq: self.uniq,
                    bus_type,
                    vendor,
                    product,
                },
            ),
            None => None,
        }
    }
}

/// The identity that a `uevent` text gives, if it gives one.
pub open spec fn uevent_identity(text: Seq<char>) -> Option<HidIdentityView> {
    match UeventView::empty().lines(lines(text)) {
        Some(u) => u.identity(),
        None => None,
    }
}

/// The view of an optional identity.
pub open spec fn identity_view(identity: Option<HidIdentity>) -> Option<HidIdentityView> {
    match identity {
        Some(id) => Some(id@),
        None => None,
    }
}

struct Uevent {
    name: String,
    phys: String,
    uniq: String,
    id: Option<(u32, u16, u16)>,
}

impl View for Uevent {
    type V = UeventView;

    closed spec fn view(&self) -> UeventView {
        UeventView { name: self.name@, phys: self.phys@, uniq: self.uniq@, id: self.id }
    }
}

fn read_hid_id(v: &[char]) -> (r: Option<(u32, u16, u16)>)
    ensures
        r == parse_hid_id(v@),
{
    let i: usize = position_of(v, ':');
    if i >= v.len() {
        return None;
    }
    let bus_text = slice_subrange(v, 0, i);
    let rest = slice_subrange(v, i + 1, v.len());
    proof {
        assert(bus_text@ =~= v@.take(i as int));
        assert(rest@ =~= v@.skip(i + 1));
    }
    let j: usize = position_of(rest, ':');
    if j >= rest.len() {
        return None;
    }
    let vendor_text = slice_subrange(rest, 0, j);
    let product_text = slice_subrange(rest, j + 1, rest.len());
    proof {
        assert(vendor_text@ =~= rest@.take(j as int));
        assert(product_text@ =~= rest@.skip(j + 1));
    }
    let bus: u64 = match parse_number(bus_text, 16, 0xffff_ffff) {
        Some(n) => n,
        None => return None,
    };
    let vendor: u64 = match parse_number(vendor_text, 16, 0xffff_ffff) {
        Some(n) => n,
        None => return None,
    };
    let product: u64 = match parse_number(product_text, 16, 0xffff_ffff) {
        Some(n) => n,
        None => return None,
    };
    Some((bus as u32, (vendor % 0x1_0000) as u16, (product % 0x1_0000) as u16))
}

impl Uevent {
    /// Takes one more line; `false` if it holds an id that does not parse.
    fn line(&mut self, line: &[char]) -> (ok: bool)
        ensures
            match old(self)@.line(line@) {
                Some(u) => ok && final(self)@ == u,
                None => !ok,
            },
    {
        if let Some(v) = strip_chars(line, "HID_NAME=") {
            self.name = string_of(v);
            true
        } else if let Some(v) = strip_chars(line, "HID_PHYS=") {
            self.phys = string_of(v);
            true
        } else if let Some(v) = strip_chars(line, "HID_UNIQ=") {
            self.uniq = string_of(v);
            true
        } else if let Some(v) = strip_chars(line, "HID_ID=") {
            match read_hid_id(v) {
                Some(id) => {
                    self.id = Some(id);
                    true
                },
                None => false,
            }
        } else {
            true
        }
    }
}

/// Reads the identity of a device from its `uevent` text. There is none if
/// no line holds an id, or one holds an id that does not parse.
pub fn parse_uevent(content: &str) -> (identity: Option<HidIdentity>)
    ensures
        identity_view(identity) == uevent_identity(content@),
{
    let text = chars_of(content);
    let parts = lines_of(text.as_slice());
    let ghost all = lines(content@);
    let mut u = Uevent {
        name: String::new(),
        phys: String::new(),
        uniq: String::new(),
        id: None,
    };
    let mut n: usize = 0;
    proof {
        assert(u@ =~= UeventView::empty());
        assert(all.skip(0) =~= all);
    }
    while n < parts.len()
        invariant
            n <= parts.len(),
            all == lines(content@),
            text_views(parts@) == all,
            u@.lines(all.skip(n as int)) == UeventView::empty().lines(all),
        decreases parts.len() - n,
    {
        proof {
            assert(all.skip(n as int)[0] == parts@[n as int]@);
            assert(all.skip(n as int).skip(1) =~= all.skip(n + 1));
        }
        if !u.line(parts[n].as_slice()) {
            return None;
        }
        n = n + 1;
    }
    match u.id {
        Some((bus_type, vendor, product)) => Some(
            HidIdentity { name: u.name, phys: u.phys, uniq: u.uniq, bus_type, vendor, product },
        ),
        None => None,
    }
}

/// Whether a report descriptor opens with a usage page that vendors define,
/// given in two bytes. Other interfaces of such a controller act as keyboard
/// and mouse.
pub fn is_vendor_interface(report_descriptor: &[u8]) -> (r: bool)
    ensures
        r == (report_descriptor@.len() >= 3 && report_descriptor@[0] == 0x06
            && report_descriptor@[2] == 0xff),
{
    report_descriptor.len() >= 3 && report_descriptor[0] == 0x06 && report_descriptor[2] == 0xff
}

/// How many descriptor bytes to ask for, when the device tells this size: no
/// more than fit, and none for a negative size.
pub fn descriptor_size(told: i32) -> (size: u32)
    ensures
        size == (if told < 0 {
            0
        } else if told > HID_MAX_DESCRIPTOR_SIZE {
            HID_MAX_DESCRIPTOR_SIZE as int
        } else {
            told as int
        }),
{
    if told < 0 {
        0
    } else if told > 4096 {
        4096
    } else {
        told as u32
    }
}

/// What came of opening a device.
pub enum Opened {
    /// It could not be opened.
    Failed,
    /// Its report descriptor could not be read.
    NoDescriptor,
    /// It is open, with this report descriptor; whether its file could be
    /// shared with the handler of host requests.
    Ready {
        report_descriptor: Vec<u8>,
        shared: bool,
    },
}

/// Registry of forwarded HID devices.
pub struct HidPassthrough {
    slots: Vec<Option<String>>,
    idents: Vec<Option<(u16, u16)>>,
    ignored: TextSet,
}

/// What a [`HidPassthrough`] holds.
#[verifier::ext_equal]
pub struct HidRegistryView {
    /// The node that occupies each slot.
    pub slots: Seq<Option<Seq<char>>>,
    /// Vendor and product of the device in each slot that answers requests.
    pub idents: Seq<Option<(u16, u16)>>,
    /// Nodes to leave alone.
    pub ignored: Set<Seq<char>>,
}

/// The view of a slot.
pub open spec fn node_view(slot: Option<String>) -> Option<Seq<char>> {
    match slot {
        Some(node) => Some(node@),
        None => None,
    }
}

impl View for HidPassthrough {
    type V = HidRegistryView;

    closed spec fn view(&self) -> HidRegistryView {
        HidRegistryView {
            slots: Seq::new(self.slots@.len(), |i: int| node_view(self.slots@[i])),
            idents: self.idents@,
            ignored: self.ignored@,
        }
    }
}

/// The slots without a node in the slot it had, if it still has it.
pub open spec fn slot_given_back(
    slots: Seq<Option<Seq<char>>>,
    hid: int,
    node: Seq<char>,
) -> Seq<Option<Seq<char>>> {
    if slots[hid] == Some(node) {
        slots.update(hid, None)
    } else {
        slots
    }
}

impl HidRegistryView {
    /// A slot holds a device that answers requests.
    pub open spec fn serves(self, hid: u8) -> bool {
        hid < self.idents.len() && self.idents[hid as int] is Some
    }

    /// Registry and gamepad registry once a slot is released: the device
    /// stays claimed as long as another slot has one of its kind.
    pub open spec fn released(
        self,
        shared: SharedView,
        hid: u8,
        node: Seq<char>,
    ) -> (HidRegistryView, SharedView) {
        let after = HidRegistryView {
            slots: slot_given_back(self.slots, hid as int, node),
            idents: self.idents.update(hid as int, None),
            ..self
        };
        let freed = match self.idents[hid as int] {
            Some((vendor, product)) if !after.idents.contains(Some((vendor, product))) => {
                shared.without_claimed(vendor, product)
            },
            _ => shared,
        };
        (after, freed)
    }

    pub open spec fn with_ignored(self, node: Seq<char>) -> HidRegistryView {
        HidRegistryView { ignored: self.ignored.insert(node), ..self }
    }

    /// The registry once a device has a slot.
    pub open spec fn claimed(
        self,
        hid: int,
        node: Seq<char>,
        vendor: u16,
        product: u16,
    ) -> HidRegistryView {
        HidRegistryView {
            slots: self.slots.update(hid, Some(node)),
            idents: self.idents.update(hid, Some((vendor, product))),
            ..self
        }
    }

    /// Every device in a slot is in the registry that keeps gamepads from
    /// being emulated.
    pub open spec fn covered(self, shared: SharedView) -> bool {
        forall|i: int, vendor: u16, product: u16|
            0 <= i < self.idents.len() && #[trigger] self.idents[i] == Some((vendor, product))
                ==> shared.claims.contains(#[trigger] usb_id(vendor, product))
    }
}

/// The report descriptor opens with a usage page that vendors define.
pub open spec fn vendor_descriptor(d: Seq<u8>) -> bool {
    d.len() >= 3 && d[0] == 0x06 && d[2] == 0xff
}

/// A reply event.
pub open spec fn reply_view(
    hid: u8,
    request: u32,
    kind: HidReplyKind,
    err: bool,
    data: Seq<u8>,
) -> InputView {
    InputView::HidPassthroughReply { hid, request, kind, err, data }
}

/// What to do for a request of the host.
pub enum HidAction {
    /// Nothing.
    Skip,
    /// Write an output report to the device.
    Write {
        hid: u8,
        data: Vec<u8>,
    },
    /// Read a report with this ioctl into this buffer, and answer.
    GetReport {
        hid: u8,
        request: u32,
        code: u64,
        buffer: Vec<u8>,
    },
    /// Write a report with this ioctl, and answer.
    SetReport {
        hid: u8,
        request: u32,
        code: u64,
        data: Vec<u8>,
    },
    /// Answer right away.
    Answer(InputEvent),
}

/// What a [`HidAction`] says.
#[verifier::ext_equal]
pub enum HidActionView {
    Skip,
    Write { hid: u8, data: Seq<u8> },
    GetReport { hid: u8, request: u32, code: u64, buffer: Seq<u8> },
    SetReport { hid: u8, request: u32, code: u64, data: Seq<u8> },
    Answer(InputView),
}

impl View for HidAction {
    type V = HidActionView;

    open spec fn view(&self) -> HidActionView {
        match self {
            HidAction::Skip => HidActionView::Skip,
            HidAction::Write { hid, data } => HidActionView::Write { hid: *hid, data: data@ },
            HidAction::GetReport { hid, request, code, buffer } => HidActionView::GetReport {
                hid: *hid,
                request: *request,
                code: *code,
                buffer: buffer@,
            },
            HidAction::SetReport { hid, request, code, data } => HidActionView::SetReport {
                hid: *hid,
                request: *request,
                code: *code,
                data: data@,
            },
            HidAction::Answer(event) => HidActionView::Answer(event@),
        }
    }
}

/// The buffer of a request for a report: its number, and room.
pub open spec fn report_buffer(report_number: u8) -> Seq<u8> {
    Seq::new(
        HID_MAX_DESCRIPTOR_SIZE as nat,
        |i: int|
            if i == 0 {
                report_number
            } else {
                0u8
            },
    )
}

impl HidRegistryView {
    /// What to do for a request: a device that is not there fails it, and so
    /// does a report without a byte.
    pub open spec fn action(self, request: HidHostRequest) -> HidActionView {
        match request {
            HidHostRequest::Output { hid, data } => if self.serves(hid) {
                HidActionView::Write { hid, data: data@ }
            } else {
                HidActionView::Skip
            },
            HidHostRequest::GetReport { hid, request, report_number, report_type } => {
                if self.serves(hid) {
                    HidActionView::GetReport {
                        hid,
                        request,
                        code: hidraw_code(
                            3,
                            get_command(report_type),
                            HID_MAX_DESCRIPTOR_SIZE as u64,
                        ),
                        buffer: report_buffer(report_number),
                    }
                } else {
                    HidActionView::Answer(
                        reply_view(hid, request, HidReplyKind::GetReport, true, seq![]),
                    )
                }
            },
            HidHostRequest::SetReport { hid, request, report_number, report_type, data } => {
                if self.serves(hid) && data@.len() > 0 {
                    HidActionView::SetReport {
                        hid,
                        request,
                        code: hidraw_code(3, set_command(report_type), data@.len() as u64),
                        data: data@,
                    }
                } else {
                    HidActionView::Answer(
                        reply_view(hid, request, HidReplyKind::SetReport, true, seq![]),
                    )
                }
            },
        }
    }
}

/// What came of claiming a device.
pub enum HidClaim {
    /// It is not forwarded.
    Refused,
    /// It has this slot, and is announced by this event.
    Claimed(u8, InputEvent),
}

impl HidPassthrough {
    /// There are as many slots as devices, and one that answers requests is
    /// occupied.
    pub closed spec fn wf(&self) -> bool {
        &&& self.slots@.len() == MAX_HID_PASSTHROUGH
        &&& self.idents@.len() == MAX_HID_PASSTHROUGH
        &&& self.ignored.wf()
        &&& forall|i: int|
            0 <= i < MAX_HID_PASSTHROUGH && (#[trigger] self.idents@[i]) is Some
                ==> self.slots@[i] is Some
    }

    /// Nothing is forwarded or left alone.
    pub fn new() -> (registry: HidPassthrough)
        ensures
            registry.wf(),
            registry@.slots == Seq::new(MAX_HID_PASSTHROUGH as nat, |i: int| None::<Seq<char>>),
            registry@.idents == Seq::new(MAX_HID_PASSTHROUGH as nat, |i: int| None::<(u16, u16)>),
            registry@.ignored == Set::<Seq<char>>::empty(),
    {
        let mut slots: Vec<Option<String>> = Vec::new();
        let mut idents: Vec<Option<(u16, u16)>> = Vec::new();
        let mut n: u8 = 0;
        while n < MAX_HID_PASSTHROUGH
            invariant
                n <= MAX_HID_PASSTHROUGH,
                slots@.len() == n,
                idents@.len() == n,
                forall|i: int| 0 <= i < n ==> (#[trigger] slots@[i]) is None,
                forall|i: int| 0 <= i < n ==> (#[trigger] idents@[i]) is None,
            decreases MAX_HID_PASSTHROUGH - n,
        {
            slots.push(None);
            idents.push(None);
            n = n + 1;
        }
        let registry = HidPassthrough { slots, idents, ignored: TextSet::new() };
        assert(registry@.slots =~= Seq::new(
            MAX_HID_PASSTHROUGH as nat,
            |i: int| None::<Seq<char>>,
        ));
        registry
    }

    /// Whether another slot has a device of the same kind.
    fn has_ident(&self, ident: (u16, u16)) -> (r: bool)
        ensures
            r == self.idents@.contains(Some(ident)),
    {
        let mut n: usize = 0;
        while n < self.idents.len()
            invariant
                n <= self.idents.len(),
                forall|i: int| 0 <= i < n ==> self.idents@[i] != Some(ident),
            decreases self.idents.len() - n,
        {
            if let Some(other) = self.idents[n] {
                if other.0 == ident.0 && other.1 == ident.1 {
                    assert(self.idents@[n as int] == Some(ident));
                    return true;
                }
            }
            n = n + 1;
        }
        false
    }

    /// Gives back the slot of a device that is gone.
    pub fn release(&mut self, shared: &mut SharedGamepads, hid: u8, node: &str)
        requires
            old(self).wf(),
            old(shared).wf(),
            hid < MAX_HID_PASSTHROUGH,
        ensures
            final(self).wf(),
            final(shared).wf(),
            (final(self)@, final(shared)@) == old(self)@.released(old(shared)@, hid, node@),
    {
        let at: usize = hid as usize;
        let ident = self.idents[at];
        let same = match &self.slots[at] {
            Some(held) => same_text(held.as_str(), node),
            None => false,
        };
        assert(self@.slots[hid as int] == node_view(self.slots@[hid as int]));
        if same {
            self.slots.set(at, None);
        }
        self.idents.set(at, None);
        assert(self@.slots =~= slot_given_back(old(self)@.slots, hid as int, node@));
        if let Some(ident) = ident {
            if !self.has_ident(ident) {
                shared.unmark_claimed(ident.0, ident.1);
            }
        }
    }

    /// Leaves a node alone while it is there.
    pub fn ignore(&mut self, node: &str)
        requires
            old(self).wf(),
        ensures
            final(self).wf(),
            final(self)@ == old(self)@.with_ignored(node@),
    {
        self.ignored.insert(node);
    }

    /// Forgets the nodes to leave alone that are no longer listed.
    pub fn prune_ignored(&mut self, nodes: &Vec<String>)
        requires
            old(self).wf(),
        ensures
            final(self).wf(),
            final(self)@ == (HidRegistryView {
                ignored: old(self)@.ignored.intersect(string_views(nodes@).to_set()),
                ..old(self)@
            }),
    {
        self.ignored.retain_listed(nodes);
    }

    /// Whether a node is worth a look: it has no slot and is not left alone.
    pub fn is_new(&self, node: &str) -> (r: bool)
        ensures
            r == (!self@.ignored.contains(node@) && !self@.slots.contains(Some(node@))),
    {
        if self.ignored.contains(node) {
            return false;
        }
        let mut n: usize = 0;
        while n < self.slots.len()
            invariant
                n <= self.slots.len(),
                forall|i: int| 0 <= i < n ==> #[trigger] self@.slots[i] != Some(node@),
            decreases self.slots.len() - n,
        {
            assert(self@.slots[n as int] == node_view(self.slots@[n as int]));
            if let Some(held) = &self.slots[n] {
                if same_text(held.as_str(), node) {
                    return false;
                }
            }
            n = n + 1;
        }
        true
    }

    /// The device behind a node to claim, from its `uevent` text: one that
    /// cannot be identified is looked at again, one of another vendor left
    /// alone.
    pub fn examine(&mut self, node: &str, content: &str) -> (identity: Option<HidIdentity>)
        requires
            old(self).wf(),
        ensures
            final(self).wf(),
            match uevent_identity(content@) {
                Some(id) if id.vendor == VALVE_VENDOR_ID => {
                    identity_view(identity) == Some(id) && final(self)@ == old(self)@
                },
                Some(id) => identity is None && final(self)@ == old(self)@.with_ignored(node@),
                None => identity is None && final(self)@ == old(self)@,
            },
    {
        match parse_uevent(content) {
            Some(identity) => {
                if identity.vendor != VALVE_VENDOR_ID {
                    self.ignore(node);
                    None
                } else {
                    Some(identity)
                }
            },
            None => None,
        }
    }

    fn free(&self) -> (slot: Option<u8>)
        requires
            self.wf(),
        ensures
            slot_number(slot) == free_slot(self@.slots),
            slot matches Some(n) ==> n < MAX_HID_PASSTHROUGH,
    {
        let ghost p = |s: Option<Seq<char>>| s is None;
        let mut n: usize = 0;
        while n < self.slots.len()
            invariant
                n <= self.slots.len(),
                self.slots@.len() == MAX_HID_PASSTHROUGH,
                p == (|s: Option<Seq<char>>| s is None),
                forall|i: int| 0 <= i < n ==> !p(#[trigger] self@.slots[i]),
            decreases self.slots.len() - n,
        {
            assert(self@.slots[n as int] == node_view(self.slots@[n as int]));
            if self.slots[n].is_none() {
                proof {
                    lemma_first_where_at(self@.slots, p, n as int);
                }
                return Some(n as u8);
            }
            n = n + 1;
        }
        proof {
            lemma_first_where_at(self@.slots, p, n as int);
        }
        None
    }

    /// Claims a device that was tried to open. One that cannot be opened or
    /// described, or whose interface is not the vendor's, is left alone; one
    /// for which there is no slot or no shared file is tried again.
    pub fn claim(
        &mut self,
        shared: &mut SharedGamepads,
        node: &str,
        identity: &HidIdentity,
        opened: Opened,
    ) -> (claim: HidClaim)
        requires
            old(self).wf(),
            old(shared).wf(),
        ensures
            final(self).wf(),
            final(shared).wf(),
            match opened {
                Opened::Ready { report_descriptor, shared: file } => {
                    if !vendor_descriptor(report_descriptor@) {
                        &&& claim is Refused
                        &&& final(self)@ == old(self)@.with_ignored(node@)
                        &&& final(shared)@ == old(shared)@
                    } else {
                        match free_slot(old(self)@.slots) {
                            Some(hid) if file => {
                                &&& claim matches HidClaim::Claimed(n, event)
                                &&& n == hid
                                &&& event@ == (InputView::HidPassthroughConnected {
                                    hid: n,
                                    descriptor: HidDescriptorView {
                                        name: identity.name@,
                                        phys: identity.phys@,
                                        uniq: identity.uniq@,
                                        bus_type: identity.bus_type,
                                        vendor: identity.vendor,
                                        product: identity.product,
                                        report_descriptor: report_descriptor@,
                                    },
                                })
                                &&& final(self)@ == old(self)@.claimed(
                                    hid,
                                    node@,
                                    identity.vendor,
                                    identity.product,
                                )
                                &&& final(shared)@ == old(shared)@.with_claimed(
                                    identity.vendor,
                                    identity.product,
                                )
                            },
                            _ => {
                                &&& claim is Refused
                                &&& final(self)@ == old(self)@
                                &&& final(shared)@ == old(shared)@
                            },
                        }
                    }
                },
                _ => {
                    &&& claim is Refused
                    &&& final(self)@ == old(self)@.with_ignored(node@)
                    &&& final(shared)@ == old(shared)@
                },
            },
    {
        match opened {
            Opened::Ready { report_descriptor, shared: file } => {
                if !is_vendor_interface(report_descriptor.as_slice()) {
                    self.ignore(node);
                    return HidClaim::Refused;
                }
                let slot = self.free();
                proof {
                    lemma_first_where(self@.slots, |s: Option<Seq<char>>| s is None);
                }
                if !file {
                    return HidClaim::Refused;
                }
                if let Some(hid) = slot {
                    let at: usize = hid as usize;
                    self.slots.set(at, Some(copy_text(node)));
                    self.idents.set(at, Some((identity.vendor, identity.product)));
                    assert(self@.slots =~= old(self)@.slots.update(hid as int, Some(node@)));
                    shared.mark_claimed(identity.vendor, identity.product);
                    let descriptor = HidDeviceDescriptor {
                        name: identity.name.clone(),
                        phys: identity.phys.clone(),
                        uniq: identity.uniq.clone(),
                        bus_type: identity.bus_type,
                        vendor: identity.vendor,
                        product: identity.product,
                        report_descriptor,
                    };
                    HidClaim::Claimed(hid, InputEvent::HidPassthroughConnected { hid, descriptor })
                } else {
                    HidClaim::Refused
                }
            },
            _ => {
                self.ignore(node);
                HidClaim::Refused
            },
        }
    }

    /// Whether a slot holds a device that answers requests.
    pub fn serves(&self, hid: u8) -> (r: bool)
        ensures
            r == self@.serves(hid),
    {
        (hid as usize) < self.idents.len() && self.idents[hid as usize].is_some()
    }

    /// What to do for a request of the host.
    pub fn handle(&self, request: HidHostRequest) -> (action: HidAction)
        ensures
            action@ == self@.action(request),
    {
        match request {
            HidHostRequest::Output { hid, data } => {
                if self.serves(hid) {
                    HidAction::Write { hid, data }
                } else {
                    HidAction::Skip
                }
            },
            HidHostRequest::GetReport { hid, request, report_number, report_type } => {
                if self.serves(hid) {
                    HidAction::GetReport {
                        hid,
                        request,
                        code: get_report_ioc(report_type, HID_MAX_DESCRIPTOR_SIZE),
                        buffer: make_report_buffer(report_number),
                    }
                } else {
                    HidAction::Answer(get_reply(hid, request, -1, Vec::new()))
                }
            },
            HidHostRequest::SetReport { hid, request, report_number, report_type, data } => {
                if self.serves(hid) && data.len() > 0 {
                    HidAction::SetReport {
                        hid,
                        request,
                        code: set_report_ioc(report_type, data.len()),
                        data,
                    }
                } else {
                    HidAction::Answer(set_reply(hid, request, true))
                }
            },
        }
    }
}

fn make_report_buffer(report_number: u8) -> (buffer: Vec<u8>)
    ensures
        buffer@ == report_buffer(report_number),
{
    let mut buffer: Vec<u8> = vec![0u8; HID_MAX_DESCRIPTOR_SIZE];
    buffer.set(0, report_number);
    assert(buffer@ =~= report_buffer(report_number));
    buffer
}

/// The answer to a request for a report, from what the ioctl returned and
/// left in the buffer: a negative value is a failure, any other the length
/// of the report.
pub fn get_reply(hid: u8, request: u32, returned: i32, buffer: Vec<u8>) -> (reply: InputEvent)
    ensures
        reply@ == (if returned < 0 {
            reply_view(hid, request, HidReplyKind::GetReport, true, seq![])
        } else if returned < buffer@.len() {
            reply_view(hid, request, HidReplyKind::GetReport, false, buffer@.take(returned as int))
        } else {
            reply_view(hid, request, HidReplyKind::GetReport, false, buffer@)
        }),
{
    let mut data = buffer;
    let err = returned < 0;
    if err {
        data = Vec::new();
    } else if (returned as usize) < data.len() {
        data.truncate(returned as usize);
    }
    InputEvent::HidPassthroughReply { hid, request, kind: HidReplyKind::GetReport, err, data }
}

/// The answer to a request to write a report.
pub fn set_reply(hid: u8, request: u32, failed: bool) -> (reply: InputEvent)
    ensures
        reply@ == reply_view(hid, request, HidReplyKind::SetReport, failed, seq![]),
{
    InputEvent::HidPassthroughReply {
        hid,
        request,
        kind: HidReplyKind::SetReport,
        err: failed,
        data: Vec::new(),
    }
}

/// What a reader does with what a read of the device gave: bytes are a
/// report to forward; none, or a failure, end it.
pub fn read_step(hid: u8, read: Option<&[u8]>) -> (event: Option<InputEvent>)
    ensures
        match read {
            Some(data) if data@.len() > 0 => {
                &&& event matches Some(e)
                &&& e@ == (InputView::HidPassthroughReport { hid, data: data@ })
            },
            _ => event is None,
        },
{
    match read {
        Some(data) if data.len() > 0 => Some(
            InputEvent::HidPassthroughReport { hid, data: vstd::slice::slice_to_vec(data) },
        ),
        _ => None,
    }
}

/// There is a slot for each device, and one that answers requests has its
/// slot.
pub proof fn law_served_device_has_slot(registry: &HidPassthrough)
    requires
        registry.wf(),
    ensures
        registry@.slots.len() == MAX_HID_PASSTHROUGH,
        registry@.idents.len() == MAX_HID_PASSTHROUGH,
        forall|i: int|
            0 <= i < MAX_HID_PASSTHROUGH && (#[trigger] registry@.idents[i]) is Some
                ==> registry@.slots[i] is Some,
{
}

/// Claiming a device keeps every device in a slot from being emulated.
pub proof fn law_claim_covers(
    r: HidRegistryView,
    shared: SharedView,
    hid: int,
    node: Seq<char>,
    vendor: u16,
    product: u16,
)
    requires
        r.covered(shared),
        0 <= hid < r.idents.len(),
    ensures
        r.claimed(hid, node, vendor, product).covered(shared.with_claimed(vendor, product)),
{
    let after = r.claimed(hid, node, vendor, product);
    assert forall|i: int, v: u16, p: u16|
        0 <= i < after.idents.len() && #[trigger] after.idents[i] == Some((v, p)) implies shared.with_claimed(
        vendor,
        product,
    ).claims.contains(#[trigger] usb_id(v, p)) by {
        if i != hid {
            assert(r.idents[i] == Some((v, p)));
        }
    }
}

/// Releasing a slot keeps every device in another slot from being emulated,
/// and frees one of whose kind it was the last.
pub proof fn law_release_clears_only_last(
    r: HidRegistryView,
    shared: SharedView,
    hid: u8,
    node: Seq<char>,
    vendor: u16,
    product: u16,
)
    requires
        r.covered(shared),
        0 <= hid < r.idents.len(),
        r.idents[hid as int] == Some((vendor, product)),
    ensures
        ({
            let (after, freed) = r.released(shared, hid, node);
            &&& after.covered(freed)
            &&& freed.claims.contains(usb_id(vendor, product)) == after.idents.contains(
                Some((vendor, product)),
            )
        }),
{
    let (after, freed) = r.released(shared, hid, node);
    lemma_usb_id(vendor, product);
    assert(shared.claims.contains(usb_id(vendor, product)));
    assert forall|i: int, v: u16, p: u16|
        0 <= i < after.idents.len() && #[trigger] after.idents[i] == Some(
            (v, p),
        ) implies freed.claims.contains(#[trigger] usb_id(v, p)) by {
        lemma_usb_id(v, p);
        assert(r.idents[i] == Some((v, p)));
        assert(after.idents.contains(Some((v, p))));
    }
}

/// Every request that asks for an answer gets exactly one, at once or with
/// the outcome of the device, and for the slot and number it named.
pub proof fn law_requests_answered(r: HidRegistryView, request: HidHostRequest)
    ensures
        match request {
            HidHostRequest::Output { .. } => !(r.action(request) is Answer),
            HidHostRequest::GetReport { hid, request: n, .. } => match r.action(request) {
                HidActionView::GetReport { hid: h, request: m, .. } => h == hid && m == n,
                HidActionView::Answer(reply) => reply == reply_view(
                    hid,
                    n,
                    HidReplyKind::GetReport,
                    true,
                    seq![],
                ),
                _ => false,
            },
            HidHostRequest::SetReport { hid, request: n, .. } => match r.action(request) {
                HidActionView::SetReport { hid: h, request: m, .. } => h == hid && m == n,
                HidActionView::Answer(reply) => reply == reply_view(
                    hid,
                    n,
                    HidReplyKind::SetReport,
                    true,
                    seq![],
                ),
                _ => false,
            },
        },
{
}

} // verus!
