use keyboard_fw::descriptor::{encode_items, report_map, END_COLLECTION, USAGE, USAGE_PAGE};

#[test]
fn items_get_their_length_in_the_tag() {
    let bytes = encode_items(&[(USAGE_PAGE, 1, 0x01, 0), (USAGE, 2, 0x23, 0x02), (END_COLLECTION, 0, 0x55, 0x66)]);
    assert_eq!(bytes, vec![0x05, 0x01, 0x0a, 0x23, 0x02, 0xc0]);
    assert!(encode_items(&[]).is_empty());
}

#[test]
fn report_map_bytes() {
    let expected: Vec<u8> = vec![0x05, 0x01, 0x09, 0x06, 0xa1, 0x01, 0x85, 0x01, 0x05, 0x07, 0x19, 0xe0, 0x29, 0xe7, 0x15, 0x00, 0x25, 0x01, 0x75, 0x01, 0x95, 0x08, 0x81, 0x02, 0x95, 0x01, 0x75, 0x08, 0x81, 0x01, 0x95, 0x05, 0x75, 0x01, 0x05, 0x08, 0x19, 0x01, 0x29, 0x05, 0x91, 0x02, 0x95, 0x01, 0x75, 0x03, 0x91, 0x01, 0x95, 0x06, 0x75, 0x08, 0x15, 0x00, 0x25, 0x65, 0x05, 0x07, 0x19, 0x00, 0x29, 0x65, 0x81, 0x00, 0xc0, 0x05, 0x0c, 0x09, 0x01, 0xa1, 0x01, 0x85, 0x02, 0x05, 0x0c, 0x15, 0x00, 0x25, 0x01, 0x75, 0x01, 0x95, 0x10, 0x09, 0xb5, 0x09, 0xb6, 0x09, 0xb7, 0x09, 0xcd, 0x09, 0xe2, 0x09, 0xe9, 0x09, 0xea, 0x0a, 0x23, 0x02, 0x0a, 0x94, 0x01, 0x0a, 0x92, 0x01, 0x0a, 0x2a, 0x02, 0x0a, 0x21, 0x02, 0x0a, 0x26, 0x02, 0x0a, 0x24, 0x02, 0x0a, 0x83, 0x01, 0x0a, 0x8a, 0x01, 0x81, 0x02, 0xc0];
    let map = report_map();
    assert_eq!(map.len(), 127);
    assert_eq!(map, expected);
}
