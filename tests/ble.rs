use keyboard_fw::ble::{
    hid_info, key_notifications, report_notifications, report_reference, DeviceInformation, HidService,
    PnPID, VidSource, FIRMWARE_REVISION, MANUFACTURER_NAME, MODEL_NUMBER, SERIAL_NUMBER,
};
use keyboard_fw::report::KeyboardReport;

fn service() -> HidService {
    HidService {
        hid_info: 10,
        report_map: 12,
        hid_control: 14,
        protocol_mode: 16,
        input_keyboard: 18,
        input_keyboard_cccd: 19,
        input_keyboard_descriptor: 20,
        output_keyboard: 22,
        output_keyboard_descriptor: 23,
        input_media_keys: 25,
        input_media_keys_cccd: 26,
        input_media_keys_descriptor: 27,
    }
}

#[test]
fn pnp_id_bytes_are_little_endian() {
    let id = PnPID { vid_source: VidSource::UsbIF, vendor_id: 0xDEAD, product_id: 0xBEEF, product_version: 0x0102 };
    assert_eq!(id.to_bytes(), [2, 0xAD, 0xDE, 0xEF, 0xBE, 0x02, 0x01]);
    assert_eq!(VidSource::BluetoothSIG.code(), 1);
}

#[test]
fn only_given_strings_become_characteristics() {
    let mut info = DeviceInformation::empty();
    assert!(info.characteristics().is_empty());
    info.manufacturer_name = Some("Embassy");
    info.model_number = Some("M1234");
    info.serial_number = Some("123456");
    info.fw_rev = Some("1.0");
    assert_eq!(
        info.characteristics(),
        vec![
            (MANUFACTURER_NAME, "Embassy"),
            (MODEL_NUMBER, "M1234"),
            (SERIAL_NUMBER, "123456"),
            (FIRMWARE_REVISION, "1.0"),
        ]
    );
}

#[test]
fn output_report_write_notifies_debug_key_or_release() {
    let s = service();
    assert_eq!(s.on_write(22, &[1]), Some([0, 0, 0x0e, 0, 0, 0, 0, 0]));
    assert_eq!(s.on_write(22, &[2]), Some([0; 8]));
    assert_eq!(s.on_write(22, &[]), None);
    assert_eq!(s.on_write(19, &[1]), None);
    assert_eq!(s.on_write(26, &[1]), None);
    assert_eq!(s.on_write(99, &[1]), None);
}

#[test]
fn key_is_sent_as_down_then_up() {
    let s = service();
    let n = s.send_key(0x14);
    assert_eq!(n[0], [0, 0, 0x14, 0, 0, 0, 0, 0]);
    assert_eq!(n[1], [0; 8]);
    assert_eq!(key_notifications(0x04), [[0, 0, 0x04, 0, 0, 0, 0, 0], [0; 8]]);
    let r = report_notifications(&KeyboardReport::key(0x2c));
    assert_eq!(r[0], [0, 0, 0x2c, 0, 0, 0, 0, 0]);
    assert_eq!(r[1], [0; 8]);
}

#[test]
fn fixed_values() {
    assert_eq!(hid_info(), [0x11, 0x01, 0x00, 0x01]);
    assert_eq!(report_reference(1, 2), [1, 2]);
}
