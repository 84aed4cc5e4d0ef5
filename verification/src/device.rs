//! The device transport: discovery of the two HID sub-interfaces of the
//! supported dock, and the calls that push reports to it.
//!
//! Everything the discovery *decides* — which enumerated interfaces match,
//! whether the match count is right, which descriptor marks which role — is
//! verified over plain values.  Only the calls into `hidapi` stand behind
//! trusted wrappers.

use crate::bitmap::Bitmap;
use crate::transport::DeviceEvent;
use crate::transport::create_report;
use crate::transport::split_for_report;
use crate::transport::brightness_report;
use crate::transport::return_to_ui_report;
use crate::transport::parse_event;
use vstd::prelude::*;

verus! {

#[verifier::external_type_specification]
#[verifier::external_body]
pub struct ExHidApi(hidapi::HidApi);

#[verifier::external_type_specification]
#[verifier::external_body]
pub struct ExHidDevice(hidapi::HidDevice);

#[verifier::external_type_specification]
#[verifier::external_body]
pub struct ExDeviceInfo(hidapi::DeviceInfo);

#[verifier::external_type_specification]
#[verifier::external_body]
pub struct ExHidError(hidapi::HidError);

/// Relies on hidapi::HidApi::new: initialises the library and enumerates
/// the connected HID interfaces.
#[verifier::external_body]
fn hid_api_new() -> (r: Result<hidapi::HidApi, hidapi::HidError>) {
    hidapi::HidApi::new()
}

/// Relies on hidapi::HidApi::device_list: one entry per enumerated
/// interface, in enumeration order.
#[verifier::external_body]
fn hid_device_list(api: &hidapi::HidApi) -> (r: Vec<hidapi::DeviceInfo>) {
    api.device_list().cloned().collect()
}

/// Relies on hidapi::DeviceInfo::vendor_id.
#[verifier::external_body]
fn info_vendor_id(d: &hidapi::DeviceInfo) -> u16 {
    d.vendor_id()
}

/// Relies on hidapi::DeviceInfo::product_id.
#[verifier::external_body]
fn info_product_id(d: &hidapi::DeviceInfo) -> u16 {
    d.product_id()
}

/// Relies on hidapi::DeviceInfo::interface_number.
#[verifier::external_body]
fn info_interface_number(d: &hidapi::DeviceInfo) -> i32 {
    d.interface_number()
}

/// Relies on hidapi::DeviceInfo::path: the platform path, as its bytes.
#[verifier::external_body]
fn info_path_bytes(d: &hidapi::DeviceInfo) -> Vec<u8> {
    d.path().to_bytes().to_vec()
}

/// Relies on hidapi::DeviceInfo::open_device.
#[verifier::external_body]
fn hid_open_device(api: &hidapi::HidApi, d: &hidapi::DeviceInfo) -> (r: Result<
    hidapi::HidDevice,
    hidapi::HidError,
>) {
    d.open_device(api)
}

/// Relies on hidapi::HidDevice::get_report_descriptor: fills a prefix of
/// the buffer and returns that prefix.
#[verifier::external_body]
fn hid_report_descriptor(dev: &hidapi::HidDevice) -> (r: Result<Vec<u8>, hidapi::HidError>)
    ensures
        r matches Ok(v) ==> v@.len() <= 4096,
{
    let mut buf = [0u8; 4096];
    match dev.get_report_descriptor(&mut buf) {
        Ok(sz) => Ok(buf[..sz].to_vec()),
        Err(e) => Err(e),
    }
}

/// Relies on hidapi::HidDevice::send_feature_report.
#[verifier::external_body]
fn hid_send_feature_report(dev: &hidapi::HidDevice, data: &Vec<u8>) -> (r: Result<
    (),
    hidapi::HidError,
>) {
    dev.send_feature_report(data.as_slice())
}

/// Relies on hidapi::HidDevice::write.
#[verifier::external_body]
fn hid_write(dev: &hidapi::HidDevice, data: &Vec<u8>) -> (r: Result<usize, hidapi::HidError>) {
    dev.write(data.as_slice())
}

/// Relies on hidapi::HidDevice::set_blocking_mode.
#[verifier::external_body]
fn hid_set_blocking_mode(dev: &hidapi::HidDevice, blocking: bool) -> (r: Result<
    (),
    hidapi::HidError,
>) {
    dev.set_blocking_mode(blocking)
}

/// Relies on hidapi::HidDevice::read: fills a prefix of the buffer and
/// returns its length; in non-blocking mode an empty read returns zero.
#[verifier::external_body]
fn hid_read_64(dev: &hidapi::HidDevice) -> (r: Result<(usize, [u8; 64]), hidapi::HidError>)
    ensures
        r matches Ok(n_buf) ==> n_buf.0 <= 64,
{
    let mut buf = [0u8; 64];
    match dev.read(&mut buf) {
        Ok(n) => Ok((n, buf)),
        Err(e) => Err(e),
    }
}

/// Everything that can go wrong talking to the dock: discovery failures,
/// validation failures, and I/O failures on an open handle.
#[derive(Clone, Copy, PartialEq, Eq, Structural, Debug)]
pub enum DeviceError {
    ApiUnavailable,
    NoDevices,
    TooFewDevices,
    TooManyDevices,
    OpenFailed,
    DescriptorFailed,
    NoOledDevice,
    NoInfoDevice,
    BrightnessTooLow,
    BrightnessTooHigh,
    Io,
}

/// Vendor id of the supported manufacturer.
pub const VENDOR_ID: u16 = 0x1038;

/// USB interface number that carries both roles.
pub const TARGET_INTERFACE: i32 = 4;

/// Descriptor discriminant byte of the OLED role.
pub const OLED_DESCRIPTOR_BYTE: u8 = 0xc0;

/// Descriptor discriminant byte of the info role.
pub const INFO_DESCRIPTOR_BYTE: u8 = 0x00;

/// The known product ids: wired, wired console, wireless, and wireless
/// console SKUs of the supported headset dock.
pub open spec fn is_supported_product(pid: u16) -> bool {
    pid == 0x12cb || pid == 0x12cd || pid == 0x12e0 || pid == 0x12e5
}

/// The identifying fields of one enumerated HID interface.
#[derive(Clone, Debug)]
pub struct HidCandidate {
    pub vendor_id: u16,
    pub product_id: u16,
    pub interface_number: i32,
    pub path: Vec<u8>,
}

/// Whether a candidate is one of the dock's two sub-interfaces: supported
/// vendor and product, on the one interface number that carries them.
pub open spec fn matches_filter_spec(c: HidCandidate) -> bool {
    &&& c.vendor_id == VENDOR_ID
    &&& is_supported_product(c.product_id)
    &&& c.interface_number == TARGET_INTERFACE
}

/// How many entries of a device list pass the discovery filter.
pub open spec fn match_count(s: Seq<HidCandidate>) -> nat
    decreases s.len(),
{
    if s.len() == 0 {
        0
    } else {
        match_count(s.drop_last()) + if matches_filter_spec(s.last()) {
            1nat
        } else {
            0nat
        }
    }
}

/// Whether one candidate passes the discovery filter.
pub fn matches_filter(c: &HidCandidate) -> (r: bool)
    ensures
        r == matches_filter_spec(*c),
{
    c.vendor_id == VENDOR_ID
        && (c.product_id == 0x12cb || c.product_id == 0x12cd || c.product_id == 0x12e0
            || c.product_id == 0x12e5)
        && c.interface_number == TARGET_INTERFACE
}

/// Picks the two matching entries of a device list, in order, or says why
/// that cannot be done: exactly two sub-interfaces are expected, one for
/// OLED drawing and one for status.
pub fn select_pair(list: &Vec<HidCandidate>) -> (r: Result<(usize, usize), DeviceError>)
    ensures
        match r {
            Ok(pair) => {
                &&& pair.0 < pair.1 < list@.len()
                &&& matches_filter_spec(list@[pair.0 as int])
                &&& matches_filter_spec(list@[pair.1 as int])
                &&& forall|k: int|
                    0 <= k < list@.len() && k != pair.0 && k != pair.1
                        ==> !matches_filter_spec(list@[k])
            },
            Err(DeviceError::NoDevices) => match_count(list@) == 0,
            Err(DeviceError::TooFewDevices) => match_count(list@) == 1,
            Err(DeviceError::TooManyDevices) => match_count(list@) >= 3,
            Err(_) => false,
        },
{
    let mut first: Option<usize> = None;
    let mut second: Option<usize> = None;
    let mut count: usize = 0;
    let mut i: usize = 0;
    while i < list.len()
        invariant
            i <= list@.len(),
            count == match_count(list@.take(i as int)),
            count <= i,
            count == 0 ==> first is None && second is None,
            count == 1 ==> second is None,
            count >= 1 ==> (first matches Some(a) && a < i && matches_filter_spec(list@[a as int])),
            count >= 2 ==> (first matches Some(a) && second matches Some(b) && a < b && b < i
                && matches_filter_spec(list@[b as int])),
            forall|k: int|
                0 <= k < i && matches_filter_spec(list@[k])
                    ==> (first == Some(k as usize) || second == Some(k as usize) || count > 2),
        decreases list@.len() - i,
    {
        proof {
            assert(list@.take(i + 1).drop_last() =~= list@.take(i as int));
            assert(list@.take(i + 1).last() == list@[i as int]);
        }
        if matches_filter(&list[i]) {
            if count == 0 {
                first = Some(i);
            } else if count == 1 {
                second = Some(i);
            }
            count += 1;
        }
        i += 1;
    }
    proof {
        assert(list@.take(list@.len() as int) =~= list@);
    }
    if count == 0 {
        Err(DeviceError::NoDevices)
    } else if count == 1 {
        Err(DeviceError::TooFewDevices)
    } else if count > 2 {
        Err(DeviceError::TooManyDevices)
    } else {
        match (first, second) {
            (Some(a), Some(b)) => Ok((a, b)),
            _ => Err(DeviceError::NoDevices),
        }
    }
}

/// Decides which of the two opened sub-devices plays which role, from the
/// second byte of each one's report descriptor: `0xc0` marks the OLED
/// device and `0x00` the info device.  The OLED device is looked for
/// first, so a pair of OLED-marked descriptors fails on the info side.
pub fn assign_roles(d0: u8, d1: u8) -> (r: Result<(usize, usize), DeviceError>)
    ensures
        match r {
            Ok(roles) => {
                let oled_byte = if roles.0 == 0 { d0 } else { d1 };
                let info_byte = if roles.1 == 0 { d0 } else { d1 };
                &&& (roles.0 == 0 && roles.1 == 1) || (roles.0 == 1 && roles.1 == 0)
                &&& oled_byte == OLED_DESCRIPTOR_BYTE
                &&& info_byte == INFO_DESCRIPTOR_BYTE
            },
            Err(DeviceError::NoOledDevice) => d0 != OLED_DESCRIPTOR_BYTE && d1 != OLED_DESCRIPTOR_BYTE,
            Err(DeviceError::NoInfoDevice) => {
                ||| d0 == OLED_DESCRIPTOR_BYTE && d1 != INFO_DESCRIPTOR_BYTE
                ||| d1 == OLED_DESCRIPTOR_BYTE && d0 != OLED_DESCRIPTOR_BYTE && d0
                    != INFO_DESCRIPTOR_BYTE
            },
            Err(_) => false,
        },
{
    if d0 == OLED_DESCRIPTOR_BYTE {
        if d1 == INFO_DESCRIPTOR_BYTE {
            Ok((0, 1))
        } else {
            Err(DeviceError::NoInfoDevice)
        }
    } else if d1 == OLED_DESCRIPTOR_BYTE {
        if d0 == INFO_DESCRIPTOR_BYTE {
            Ok((1, 0))
        } else {
            Err(DeviceError::NoInfoDevice)
        }
    } else {
        Err(DeviceError::NoOledDevice)
    }
}

/// Checks a requested brightness: the device takes the inclusive 1 to 10
/// range and nothing else; out-of-range values are rejected, not clamped.
pub fn validate_brightness(value: u8) -> (r: Result<(), DeviceError>)
    ensures
        r == (if value < 1 {
            Err::<(), DeviceError>(DeviceError::BrightnessTooLow)
        } else if value > 10 {
            Err::<(), DeviceError>(DeviceError::BrightnessTooHigh)
        } else {
            Ok::<(), DeviceError>(())
        }),
{
    if value < 1 {
        Err(DeviceError::BrightnessTooLow)
    } else if value > 10 {
        Err(DeviceError::BrightnessTooHigh)
    } else {
        Ok(())
    }
}

/// Byte-for-byte equality of two paths.
pub fn paths_equal(a: &Vec<u8>, b: &Vec<u8>) -> (r: bool)
    ensures
        r <==> a@ =~= b@,
{
    if a.len() != b.len() {
        return false;
    }
    let mut i: usize = 0;
    while i < a.len()
        invariant
            a@.len() == b@.len(),
            i <= a@.len(),
            forall|k: int| 0 <= k < i ==> a@[k] == b@[k],
        decreases a@.len() - i,
    {
        if a[i] != b[i] {
            return false;
        }
        i += 1;
    }
    true
}

/// An open connection to the dock: the OLED sub-device that takes draw
/// reports, the info sub-device that yields status reports, and the fixed
/// panel size of the supported product.
pub struct Device {
    oled_dev: hidapi::HidDevice,
    info_dev: hidapi::HidDevice,
    pub width: usize,
    pub height: usize,
}

/// Upper bound on how many pending status reports one `get_events` call
/// drains; whatever is left is picked up by the next call.
pub const EVENT_DRAIN_LIMIT: usize = 64;

impl Device {
    /// The panel size is the one the supported product has.
    pub closed spec fn wf(self) -> bool {
        self.width == crate::SCREEN_WIDTH && self.height == crate::SCREEN_HEIGHT
    }

    /// The panel width, in pixels.
    pub fn screen_width(&self) -> (r: usize)
        requires
            self.wf(),
        ensures
            r == crate::SCREEN_WIDTH,
    {
        self.width
    }

    /// The panel height, in pixels.
    pub fn screen_height(&self) -> (r: usize)
        requires
            self.wf(),
        ensures
            r == crate::SCREEN_HEIGHT,
    {
        self.height
    }

    /// Connects to the dock: enumerate, filter to the two expected
    /// sub-interfaces, and assign the OLED and info roles.  When both
    /// entries share one platform path the same path is opened twice;
    /// otherwise the roles are told apart by the report descriptors.
    pub fn connect() -> (r: Result<Device, DeviceError>)
        ensures
            r matches Ok(d) ==> d.wf(),
    {
        let api = match hid_api_new() {
            Ok(a) => a,
            Err(_) => { return Err(DeviceError::ApiUnavailable); },
        };
        let infos = hid_device_list(&api);
        let mut candidates: Vec<HidCandidate> = Vec::new();
        let mut i: usize = 0;
        while i < infos.len()
            invariant
                candidates@.len() == i,
                i <= infos@.len(),
            decreases infos@.len() - i,
        {
            candidates.push(
                HidCandidate {
                    vendor_id: info_vendor_id(&infos[i]),
                    product_id: info_product_id(&infos[i]),
                    interface_number: info_interface_number(&infos[i]),
                    path: info_path_bytes(&infos[i]),
                },
            );
            i += 1;
        }
        let (a, b) = match select_pair(&candidates) {
            Ok(pair) => pair,
            Err(e) => { return Err(e); },
        };
        let (oled_dev, info_dev) = if paths_equal(&candidates[a].path, &candidates[b].path) {
            let d0 = match hid_open_device(&api, &infos[a]) {
                Ok(d) => d,
                Err(_) => { return Err(DeviceError::OpenFailed); },
            };
            let d1 = match hid_open_device(&api, &infos[a]) {
                Ok(d) => d,
                Err(_) => { return Err(DeviceError::OpenFailed); },
            };
            (d0, d1)
        } else {
            let d0 = match hid_open_device(&api, &infos[a]) {
                Ok(d) => d,
                Err(_) => { return Err(DeviceError::OpenFailed); },
            };
            let d1 = match hid_open_device(&api, &infos[b]) {
                Ok(d) => d,
                Err(_) => { return Err(DeviceError::OpenFailed); },
            };
            let desc0 = match hid_report_descriptor(&d0) {
                Ok(v) => v,
                Err(_) => { return Err(DeviceError::DescriptorFailed); },
            };
            let desc1 = match hid_report_descriptor(&d1) {
                Ok(v) => v,
                Err(_) => { return Err(DeviceError::DescriptorFailed); },
            };
            if desc0.len() < 2 || desc1.len() < 2 {
                return Err(DeviceError::DescriptorFailed);
            }
            let (oled_idx, _info_idx) = match assign_roles(desc0[1], desc1[1]) {
                Ok(roles) => roles,
                Err(e) => { return Err(e); },
            };
            if oled_idx == 0 {
                (d0, d1)
            } else {
                (d1, d0)
            }
        };
        Ok(Device { oled_dev, info_dev, width: crate::SCREEN_WIDTH, height: crate::SCREEN_HEIGHT })
    }

    /// Re-runs `connect` and replaces this handle on success; on failure
    /// the old handle is kept, so the caller can simply retry later.
    pub fn reconnect(&mut self) -> (r: Result<(), DeviceError>)
        requires
            old(self).wf(),
        ensures
            final(self).wf(),
    {
        match Self::connect() {
            Ok(d) => {
                *self = d;
                Ok(())
            },
            Err(e) => Err(e),
        }
    }

    /// Draws a bitmap at a signed screen offset: clip to the screen, split
    /// into report-sized chunks, encode each chunk per the wire format, and
    /// send the reports left to right.  The first failed send aborts the
    /// rest.  Offsets that would start past the bitmap's own extent are not
    /// accepted (the peer would underflow there).
    pub fn draw(&self, bm: &Bitmap, x: isize, y: isize) -> (r: Result<(), DeviceError>)
        requires
            self.wf(),
            bm@.wf(),
            x >= -(bm@.w as int),
            y >= -(bm@.h as int),
        ensures
            r is Ok || r == Err::<(), DeviceError>(DeviceError::Io),
    {
        let chunks = split_for_report(bm, x, y, self.width, self.height);
        let mut i: usize = 0;
        while i < chunks.len()
            invariant
                self.wf(),
                bm@.wf(),
                forall|k: int| 0 <= k < chunks@.len() ==> (#[trigger] chunks@[k]).wf(bm@),
                i <= chunks@.len(),
            decreases chunks@.len() - i,
        {
            let report = create_report(bm, &chunks[i]);
            match hid_send_feature_report(&self.oled_dev, &report) {
                Ok(_) => {},
                Err(_) => { return Err(DeviceError::Io); },
            }
            i += 1;
        }
        Ok(())
    }

    /// Sets the screen brightness.  Values outside the inclusive 1 to 10
    /// range are rejected, never clamped.
    pub fn set_brightness(&self, value: u8) -> (r: Result<(), DeviceError>)
        requires
            self.wf(),
        ensures
            value < 1 ==> r == Err::<(), DeviceError>(DeviceError::BrightnessTooLow),
            value > 10 ==> r == Err::<(), DeviceError>(DeviceError::BrightnessTooHigh),
            1 <= value <= 10 ==> (r is Ok || r == Err::<(), DeviceError>(DeviceError::Io)),
    {
        match validate_brightness(value) {
            Ok(_) => {},
            Err(e) => { return Err(e); },
        }
        let report = brightness_report(value);
        match hid_write(&self.oled_dev, &report) {
            Ok(_) => Ok(()),
            Err(_) => Err(DeviceError::Io),
        }
    }

    /// Tells the firmware to resume its native UI; used on graceful
    /// shutdown only.
    pub fn return_to_ui(&self) -> (r: Result<(), DeviceError>)
        requires
            self.wf(),
        ensures
            r is Ok || r == Err::<(), DeviceError>(DeviceError::Io),
    {
        let report = return_to_ui_report();
        match hid_write(&self.oled_dev, &report) {
            Ok(_) => Ok(()),
            Err(_) => Err(DeviceError::Io),
        }
    }

    /// Blocks until the info sub-device yields one raw report and decodes
    /// it; unrecognised reports come back as `None`.
    pub fn poll_event(&self) -> (r: Result<Option<DeviceEvent>, DeviceError>)
        requires
            self.wf(),
        ensures
            r is Ok || r == Err::<Option<DeviceEvent>, DeviceError>(DeviceError::Io),
    {
        match hid_set_blocking_mode(&self.info_dev, true) {
            Ok(_) => {},
            Err(_) => { return Err(DeviceError::Io); },
        }
        let (_, buf) = match hid_read_64(&self.info_dev) {
            Ok(nb) => nb,
            Err(_) => { return Err(DeviceError::Io); },
        };
        Ok(parse_event(&buf))
    }

    /// Drains pending status reports without blocking and decodes each
    /// recognised one, oldest first.  At most `EVENT_DRAIN_LIMIT` reports
    /// are taken per call; a later call picks up the rest.
    pub fn get_events(&self) -> (r: Result<Vec<DeviceEvent>, DeviceError>)
        requires
            self.wf(),
        ensures
            r is Ok || r == Err::<Vec<DeviceEvent>, DeviceError>(DeviceError::Io),
    {
        match hid_set_blocking_mode(&self.info_dev, false) {
            Ok(_) => {},
            Err(_) => { return Err(DeviceError::Io); },
        }
        let mut events: Vec<DeviceEvent> = Vec::new();
        let mut budget: usize = EVENT_DRAIN_LIMIT;
        while budget > 0
            invariant
                self.wf(),
            decreases budget,
        {
            let (n, buf) = match hid_read_64(&self.info_dev) {
                Ok(nb) => nb,
                Err(_) => { return Err(DeviceError::Io); },
            };
            if n == 0 {
                break;
            }
            match parse_event(&buf) {
                Some(ev) => events.push(ev),
                None => {},
            }
            budget -= 1;
        }
        Ok(events)
    }
}

} // verus!
