use vstd::prelude::*;

use crate::report::KeyboardReport;

verus! {

/// GATT service: Device Information.
pub const DEVICE_INFORMATION: u16 = 0x180a;
/// GATT service: Battery.
pub const BATTERY_SERVICE: u16 = 0x180f;
/// GATT service: Human Interface Device.
pub const HID_SERVICE: u16 = 0x1812;

/// GATT characteristic: battery level.
pub const BATTERY_LEVEL: u16 = 0x2a19;
/// GATT characteristic: model number string.
pub const MODEL_NUMBER: u16 = 0x2a24;
/// GATT characteristic: serial number string.
pub const SERIAL_NUMBER: u16 = 0x2a25;
/// GATT characteristic: firmware revision string.
pub const FIRMWARE_REVISION: u16 = 0x2a26;
/// GATT characteristic: hardware revision string.
pub const HARDWARE_REVISION: u16 = 0x2a27;
/// GATT characteristic: software revision string.
pub const SOFTWARE_REVISION: u16 = 0x2a28;
/// GATT characteristic: manufacturer name string.
pub const MANUFACTURER_NAME: u16 = 0x2a29;
/// GATT characteristic: PnP ID record.
pub const PNP_ID: u16 = 0x2a50;

/// GATT characteristic: HID information.
pub const HID_INFO: u16 = 0x2a4a;
/// GATT characteristic: HID report map.
pub const REPORT_MAP: u16 = 0x2a4b;
/// GATT characteristic: HID control point.
pub const HID_CONTROL_POINT: u16 = 0x2a4c;
/// GATT characteristic: HID report.
pub const HID_REPORT: u16 = 0x2a4d;
/// GATT characteristic: HID protocol mode.
pub const PROTOCOL_MODE: u16 = 0x2a4e;
/// GATT descriptor: report reference.
pub const REPORT_REFERENCE: u16 = 0x2908;

/// Report type tag of an input report in a report reference.
pub const INPUT_REPORT: u8 = 1;
/// Report type tag of an output report in a report reference.
pub const OUTPUT_REPORT: u8 = 2;

/// Who assigned the vendor id of a PnP ID record.
#[derive(Debug, Clone, Copy, PartialEq, Eq, Structural)]
pub enum VidSource {
    BluetoothSIG,
    UsbIF,
}

impl VidSource {
    /// The byte that stands for the source in a PnP ID record.
    pub open spec fn code_spec(self) -> u8 {
        match self {
            VidSource::BluetoothSIG => 1,
            VidSource::UsbIF => 2,
        }
    }

    /// The byte that stands for the source in a PnP ID record.
    pub fn code(self) -> (r: u8)
        ensures
            r == self.code_spec(),
    {
        match self {
            VidSource::BluetoothSIG => 1,
            VidSource::UsbIF => 2,
        }
    }
}

/// The two bytes of `v`, least significant first.
pub open spec fn le_bytes(v: u16) -> Seq<u8> {
    seq![(v % 256) as u8, (v / 256) as u8]
}

/// The PnP ID record of the Device Information service.
#[derive(Debug, Clone, Copy, PartialEq, Eq, Structural)]
pub struct PnPID {
    pub vid_source: VidSource,
    pub vendor_id: u16,
    pub product_id: u16,
    pub product_version: u16,
}

impl PnPID {
    /// The record's 7 bytes: the source, then vendor id, product id and
    /// product version, each least significant byte first.
    pub open spec fn bytes_spec(self) -> Seq<u8> {
        seq![self.vid_source.code_spec()] + le_bytes(self.vendor_id) + le_bytes(self.product_id)
            + le_bytes(self.product_version)
    }

    /// The record as the characteristic's value.
    pub fn to_bytes(&self) -> (r: [u8; 7])
        ensures
            r@ == self.bytes_spec(),
    {
        let r = [
            self.vid_source.code(),
            (self.vendor_id % 256) as u8,
            (self.vendor_id / 256) as u8,
            (self.product_id % 256) as u8,
            (self.product_id / 256) as u8,
            (self.product_version % 256) as u8,
            (self.product_version / 256) as u8,
        ];
        assert(r@ =~= self.bytes_spec());
        r
    }
}

/// The optional strings of the Device Information service.
#[derive(Debug, Clone, Copy)]
pub struct DeviceInformation {
    pub manufacturer_name: Option<&'static str>,
    pub model_number: Option<&'static str>,
    pub serial_number: Option<&'static str>,
    pub hw_rev: Option<&'static str>,
    pub fw_rev: Option<&'static str>,
    pub sw_rev: Option<&'static str>,
}

/// The characteristic for `val` under `uuid`, if a value is given.
pub open spec fn opt_characteristic(uuid: u16, val: Option<&'static str>) -> Seq<
    (u16, &'static str),
> {
    match val {
        Some(v) => seq![(uuid, v)],
        None => seq![],
    }
}

impl DeviceInformation {
    /// The string characteristics to register, in order: one for each
    /// string that is given.
    pub open spec fn characteristics_spec(&self) -> Seq<(u16, &'static str)> {
        opt_characteristic(MANUFACTURER_NAME, self.manufacturer_name) + opt_characteristic(
            MODEL_NUMBER,
            self.model_number,
        ) + opt_characteristic(SERIAL_NUMBER, self.serial_number) + opt_characteristic(
            HARDWARE_REVISION,
            self.hw_rev,
        ) + opt_characteristic(FIRMWARE_REVISION, self.fw_rev) + opt_characteristic(
            SOFTWARE_REVISION,
            self.sw_rev,
        )
    }

    /// Information with no string given.
    pub fn empty() -> (r: DeviceInformation)
        ensures
            r.manufacturer_name is None,
            r.model_number is None,
            r.serial_number is None,
            r.hw_rev is None,
            r.fw_rev is None,
            r.sw_rev is None,
    {
        DeviceInformation {
            manufacturer_name: None,
            model_number: None,
            serial_number: None,
            hw_rev: None,
            fw_rev: None,
            sw_rev: None,
        }
    }

    /// The string characteristics to register, as (UUID, value) pairs.
    pub fn characteristics(&self) -> (r: Vec<(u16, &'static str)>)
        ensures
            r@ == self.characteristics_spec(),
    {
        let mut r: Vec<(u16, &'static str)> = Vec::new();
        add_opt_str_characteristic(&mut r, MANUFACTURER_NAME, self.manufacturer_name);
        add_opt_str_characteristic(&mut r, MODEL_NUMBER, self.model_number);
        add_opt_str_characteristic(&mut r, SERIAL_NUMBER, self.serial_number);
        add_opt_str_characteristic(&mut r, HARDWARE_REVISION, self.hw_rev);
        add_opt_str_characteristic(&mut r, FIRMWARE_REVISION, self.fw_rev);
        add_opt_str_characteristic(&mut r, SOFTWARE_REVISION, self.sw_rev);
        assert(r@ =~= self.characteristics_spec());
        r
    }
}

/// Appends the characteristic for `val` under `uuid`, if a value is given.
pub fn add_opt_str_characteristic(
    list: &mut Vec<(u16, &'static str)>,
    uuid: u16,
    val: Option<&'static str>,
)
    ensures
        final(list)@ == old(list)@ + opt_characteristic(uuid, val),
{
    match val {
        Some(v) => {
            list.push((uuid, v));
            assert(final(list)@ =~= old(list)@ + seq![(uuid, v)]);
        },
        None => {
            assert(old(list)@ + opt_characteristic(uuid, val) =~= old(list)@);
        },
    }
}

/// Value of the HID information characteristic: HID version 1.11, no
/// country code, remote wake supported.
pub fn hid_info() -> (r: [u8; 4])
    ensures
        r@ == seq![0x11u8, 0x01u8, 0x00u8, 0x01u8],
{
    let r = [0x11u8, 0x01u8, 0x00u8, 0x01u8];
    assert(r@ =~= seq![0x11u8, 0x01u8, 0x00u8, 0x01u8]);
    r
}

/// Value of a report reference descriptor: report ID, then report type.
pub fn report_reference(id: u8, kind: u8) -> (r: [u8; 2])
    ensures
        r@ == seq![id, kind],
{
    let r = [id, kind];
    assert(r@ =~= seq![id, kind]);
    r
}

/// The notification that announces `keycode`: modifier and reserved byte
/// zero, the key in the first slot.
pub open spec fn key_payload(keycode: u8) -> Seq<u8> {
    seq![0u8, 0u8, keycode, 0u8, 0u8, 0u8, 0u8, 0u8]
}

/// The all-zero notification that releases every key.
pub open spec fn release_payload() -> Seq<u8> {
    seq![0u8, 0u8, 0u8, 0u8, 0u8, 0u8, 0u8, 0u8]
}

/// The notification that the output-report handler sends when the host
/// writes 1 as the first byte: a fixed debug key.
pub open spec fn debug_payload() -> Seq<u8> {
    key_payload(0x0e)
}

/// Attribute handles of the HID service, as the GATT table gave them.
#[derive(Debug, Clone, Copy)]
pub struct HidService {
    pub hid_info: u16,
    pub report_map: u16,
    pub hid_control: u16,
    pub protocol_mode: u16,
    pub input_keyboard: u16,
    pub input_keyboard_cccd: u16,
    pub input_keyboard_descriptor: u16,
    pub output_keyboard: u16,
    pub output_keyboard_descriptor: u16,
    pub input_media_keys: u16,
    pub input_media_keys_cccd: u16,
    pub input_media_keys_descriptor: u16,
}

impl HidService {
    /// What a host write to `handle` with `data` makes the service notify on
    /// the keyboard input report, if anything: only a write to the output
    /// report does, with the debug key when the first byte is 1 and the
    /// release for any other first byte; an empty write is ignored.
    pub open spec fn on_write_spec(&self, handle: u16, data: Seq<u8>) -> Option<Seq<u8>> {
        if handle == self.input_keyboard_cccd || handle != self.output_keyboard || data.len() == 0 {
            None
        } else if data[0] == 1 {
            Some(debug_payload())
        } else {
            Some(release_payload())
        }
    }

    /// The notification to send on the keyboard input report after a host
    /// write, if any.
    pub fn on_write(&self, handle: u16, data: &[u8]) -> (r: Option<[u8; 8]>)
        ensures
            r matches Some(v) ==> self.on_write_spec(handle, data@) == Some(v@),
            r is None <==> self.on_write_spec(handle, data@) is None,
    {
        if handle == self.input_keyboard_cccd {
            None
        } else if handle == self.output_keyboard {
            if data.len() == 0 {
                None
            } else if data[0] == 1 {
                let v = [0u8, 0u8, 0x0eu8, 0u8, 0u8, 0u8, 0u8, 0u8];
                assert(v@ =~= debug_payload());
                Some(v)
            } else {
                let v = [0u8; 8];
                assert(v@ =~= release_payload());
                Some(v)
            }
        } else {
            None
        }
    }

    /// The two notifications that send `keycode` as a down/up pulse.
    pub fn send_key(&self, keycode: u8) -> (r: [[u8; 8]; 2])
        ensures
            r[0]@ == key_payload(keycode),
            r[1]@ == release_payload(),
    {
        key_notifications(keycode)
    }
}

/// The two notifications that send `keycode` as a down/up pulse.
pub fn key_notifications(keycode: u8) -> (r: [[u8; 8]; 2])
    ensures
        r[0]@ == key_payload(keycode),
        r[1]@ == release_payload(),
{
    let down = [0u8, 0u8, keycode, 0u8, 0u8, 0u8, 0u8, 0u8];
    let up = [0u8; 8];
    assert(down@ =~= key_payload(keycode));
    assert(up@ =~= release_payload());
    [down, up]
}

/// The two notifications that carry a queued report over BLE: its first key
/// down, then every key up.
pub fn report_notifications(report: &KeyboardReport) -> (r: [[u8; 8]; 2])
    ensures
        r[0]@ == key_payload(report.keycodes@[0]),
        r[1]@ == release_payload(),
{
    key_notifications(report.keycodes[0])
}

/// The notifications that carry a run of queued reports, oldest first.
pub open spec fn notification_stream(reports: Seq<KeyboardReport>) -> Seq<Seq<u8>>
    decreases reports.len(),
{
    if reports.len() == 0 {
        seq![]
    } else {
        seq![key_payload(reports[0].keycodes@[0]), release_payload()] + notification_stream(
            reports.drop_first(),
        )
    }
}

/// Down/up pulses over BLE: for a run of reports the input characteristic
/// gets, per report, its key-down notification and then the release, so
/// two key-down notifications never follow each other and the last
/// notification of a run releases every key.
pub proof fn notification_pulse_law(reports: Seq<KeyboardReport>)
    ensures
        notification_stream(reports).len() == 2 * reports.len(),
        forall|i: int|
            0 <= i < notification_stream(reports).len() ==> #[trigger] notification_stream(reports)[i]
                == if i % 2 == 0 {
                key_payload(reports[i / 2].keycodes@[0])
            } else {
                release_payload()
            },
        forall|i: int|
            0 <= i < notification_stream(reports).len() - 1 ==> #[trigger] notification_stream(reports)[i]
                == release_payload() || notification_stream(reports)[i + 1] == release_payload(),
        reports.len() > 0 ==> notification_stream(reports).last() == release_payload(),
    decreases reports.len(),
{
    if reports.len() > 0 {
        let rest = reports.drop_first();
        notification_pulse_law(rest);
        let s = notification_stream(reports);
        let head = seq![key_payload(reports[0].keycodes@[0]), release_payload()];
        let tail = notification_stream(rest);
        assert(s == head + tail);
        assert forall|i: int| 0 <= i < s.len() implies #[trigger] s[i] == if i % 2 == 0 {
            key_payload(reports[i / 2].keycodes@[0])
        } else {
            release_payload()
        } by {
            if i >= 2 {
                assert(s[i] == tail[i - 2]);
                assert(rest[(i - 2) / 2] == reports[i / 2]);
            }
        }
        assert forall|i: int| 0 <= i < s.len() - 1 implies #[trigger] s[i] == release_payload() || s[i
            + 1] == release_payload() by {
            if i % 2 == 0 {
                assert(s[i + 1] == release_payload());
            } else {
                assert(s[i] == release_payload());
            }
        }
        assert(s.last() == s[s.len() - 1]);
    }
}

} // verus!
