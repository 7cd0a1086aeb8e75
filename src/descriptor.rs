use vstd::prelude::*;

verus! {

// Main items.
pub const HIDINPUT: u8 = 0x80;
pub const HIDOUTPUT: u8 = 0x90;
pub const FEATURE: u8 = 0xb0;
pub const COLLECTION: u8 = 0xa0;
pub const END_COLLECTION: u8 = 0xc0;

// Global items.
pub const USAGE_PAGE: u8 = 0x04;
pub const LOGICAL_MINIMUM: u8 = 0x14;
pub const LOGICAL_MAXIMUM: u8 = 0x24;
pub const PHYSICAL_MINIMUM: u8 = 0x34;
pub const PHYSICAL_MAXIMUM: u8 = 0x44;
pub const UNIT_EXPONENT: u8 = 0x54;
pub const UNIT: u8 = 0x64;
/// Size of a report field, in bits.
pub const REPORT_SIZE: u8 = 0x74;
pub const REPORT_ID: u8 = 0x84;
/// Number of report fields.
pub const REPORT_COUNT: u8 = 0x94;
pub const PUSH: u8 = 0xa4;
pub const POP: u8 = 0xb4;

// Local items.
pub const USAGE: u8 = 0x08;
pub const USAGE_MINIMUM: u8 = 0x18;
pub const USAGE_MAXIMUM: u8 = 0x28;
pub const DESIGNATOR_INDEX: u8 = 0x38;
pub const DESIGNATOR_MINIMUM: u8 = 0x48;
pub const DESIGNATOR_MAXIMUM: u8 = 0x58;
pub const STRING_INDEX: u8 = 0x78;
pub const STRING_MINIMUM: u8 = 0x88;
pub const STRING_MAXIMUM: u8 = 0x98;
pub const DELIMITER: u8 = 0xa8;

/// Report ID of the keyboard report.
pub const KEYBOARD_ID: u8 = 0x01;
/// Report ID of the media-key report.
pub const MEDIA_KEYS_ID: u8 = 0x02;

/// A short descriptor item: (tag, number of data bytes, first data byte,
/// second data byte). Data bytes past the number are not part of the item.
pub type HidItem = (u8, u8, u8, u8);

/// Whether an item has at most two data bytes.
pub open spec fn item_ok(item: HidItem) -> bool {
    item.1 <= 2
}

/// The bytes of one item: the tag with the data length in its low bits,
/// then the data.
pub open spec fn item_bytes(item: HidItem) -> Seq<u8> {
    seq![item.0 | item.1] + seq![item.2, item.3].take(item.1 as int)
}

/// The bytes of a list of items, in order.
pub open spec fn encode_spec(items: Seq<HidItem>) -> Seq<u8>
    decreases items.len(),
{
    if items.len() == 0 {
        seq![]
    } else {
        encode_spec(items.drop_last()) + item_bytes(items.last())
    }
}

/// Encodes a list of short items into descriptor bytes.
pub fn encode_items(items: &[HidItem]) -> (r: Vec<u8>)
    requires
        forall|i: int| 0 <= i < items@.len() ==> item_ok(#[trigger] items@[i]),
    ensures
        r@ == encode_spec(items@),
{
    let mut r: Vec<u8> = Vec::new();
    let mut i: usize = 0;
    while i < items.len()
        invariant
            0 <= i <= items@.len(),
            forall|j: int| 0 <= j < items@.len() ==> item_ok(#[trigger] items@[j]),
            r@ == encode_spec(items@.subrange(0, i as int)),
        decreases items@.len() - i,
    {
        let (tag, n, a, b) = items[i];
        let ghost r0 = r@;
        r.push(tag | n);
        if n >= 1 {
            r.push(a);
        }
        if n >= 2 {
            r.push(b);
        }
        assert(items@.subrange(0, i + 1).drop_last() =~= items@.subrange(0, i as int));
        assert(items@.subrange(0, i + 1).last() == items@[i as int]);
        assert(r@ =~= r0 + item_bytes(items@[i as int]));
        i = i + 1;
    }
    assert(items@.subrange(0, items@.len() as int) =~= items@);
    r
}

/// The items of the report map: a boot keyboard under report ID 1 (modifier
/// bits, a reserved byte, five LED outputs with padding, six key slots) and
/// a 16-bit media-key bitmap under report ID 2.
pub open spec fn report_map_items() -> Seq<HidItem> {
    seq![
        (USAGE_PAGE, 1u8, 0x01u8, 0u8),
        (USAGE, 1u8, 0x06u8, 0u8),
        (COLLECTION, 1u8, 0x01u8, 0u8),
        (REPORT_ID, 1u8, KEYBOARD_ID, 0u8),
        (USAGE_PAGE, 1u8, 0x07u8, 0u8),
        (USAGE_MINIMUM, 1u8, 0xE0u8, 0u8),
        (USAGE_MAXIMUM, 1u8, 0xE7u8, 0u8),
        (LOGICAL_MINIMUM, 1u8, 0x00u8, 0u8),
        (LOGICAL_MAXIMUM, 1u8, 0x01u8, 0u8),
        (REPORT_SIZE, 1u8, 0x01u8, 0u8),
        (REPORT_COUNT, 1u8, 0x08u8, 0u8),
        (HIDINPUT, 1u8, 0x02u8, 0u8),
        (REPORT_COUNT, 1u8, 0x01u8, 0u8),
        (REPORT_SIZE, 1u8, 0x08u8, 0u8),
        (HIDINPUT, 1u8, 0x01u8, 0u8),
        (REPORT_COUNT, 1u8, 0x05u8, 0u8),
        (REPORT_SIZE, 1u8, 0x01u8, 0u8),
        (USAGE_PAGE, 1u8, 0x08u8, 0u8),
        (USAGE_MINIMUM, 1u8, 0x01u8, 0u8),
        (USAGE_MAXIMUM, 1u8, 0x05u8, 0u8),
        (HIDOUTPUT, 1u8, 0x02u8, 0u8),
        (REPORT_COUNT, 1u8, 0x01u8, 0u8),
        (REPORT_SIZE, 1u8, 0x03u8, 0u8),
        (HIDOUTPUT, 1u8, 0x01u8, 0u8),
        (REPORT_COUNT, 1u8, 0x06u8, 0u8),
        (REPORT_SIZE, 1u8, 0x08u8, 0u8),
        (LOGICAL_MINIMUM, 1u8, 0x00u8, 0u8),
        (LOGICAL_MAXIMUM, 1u8, 0x65u8, 0u8),
        (USAGE_PAGE, 1u8, 0x07u8, 0u8),
        (USAGE_MINIMUM, 1u8, 0x00u8, 0u8),
        (USAGE_MAXIMUM, 1u8, 0x65u8, 0u8),
        (HIDINPUT, 1u8, 0x00u8, 0u8),
        (END_COLLECTION, 0u8, 0u8, 0u8),
        (USAGE_PAGE, 1u8, 0x0Cu8, 0u8),
        (USAGE, 1u8, 0x01u8, 0u8),
        (COLLECTION, 1u8, 0x01u8, 0u8),
        (REPORT_ID, 1u8, MEDIA_KEYS_ID, 0u8),
        (USAGE_PAGE, 1u8, 0x0Cu8, 0u8),
        (LOGICAL_MINIMUM, 1u8, 0x00u8, 0u8),
        (LOGICAL_MAXIMUM, 1u8, 0x01u8, 0u8),
        (REPORT_SIZE, 1u8, 0x01u8, 0u8),
        (REPORT_COUNT, 1u8, 0x10u8, 0u8),
        (USAGE, 1u8, 0xB5u8, 0u8),
        (USAGE, 1u8, 0xB6u8, 0u8),
        (USAGE, 1u8, 0xB7u8, 0u8),
        (USAGE, 1u8, 0xCDu8, 0u8),
        (USAGE, 1u8, 0xE2u8, 0u8),
        (USAGE, 1u8, 0xE9u8, 0u8),
        (USAGE, 1u8, 0xEAu8, 0u8),
        (USAGE, 2u8, 0x23u8, 0x02u8),
        (USAGE, 2u8, 0x94u8, 0x01u8),
        (USAGE, 2u8, 0x92u8, 0x01u8),
        (USAGE, 2u8, 0x2Au8, 0x02u8),
        (USAGE, 2u8, 0x21u8, 0x02u8),
        (USAGE, 2u8, 0x26u8, 0x02u8),
        (USAGE, 2u8, 0x24u8, 0x02u8),
        (USAGE, 2u8, 0x83u8, 0x01u8),
        (USAGE, 2u8, 0x8Au8, 0x01u8),
        (HIDINPUT, 1u8, 0x02u8, 0u8),
        (END_COLLECTION, 0u8, 0u8, 0u8),
    ]
}

/// The report map bytes, shared by the USB and the BLE transport.
pub fn report_map() -> (r: Vec<u8>)
    ensures
        r@ == encode_spec(report_map_items()),
{
    let items: [HidItem; 60] = [
        (USAGE_PAGE, 1u8, 0x01u8, 0u8),
        (USAGE, 1u8, 0x06u8, 0u8),
        (COLLECTION, 1u8, 0x01u8, 0u8),
        (REPORT_ID, 1u8, KEYBOARD_ID, 0u8),
        (USAGE_PAGE, 1u8, 0x07u8, 0u8),
        (USAGE_MINIMUM, 1u8, 0xE0u8, 0u8),
        (USAGE_MAXIMUM, 1u8, 0xE7u8, 0u8),
        (LOGICAL_MINIMUM, 1u8, 0x00u8, 0u8),
        (LOGICAL_MAXIMUM, 1u8, 0x01u8, 0u8),
        (REPORT_SIZE, 1u8, 0x01u8, 0u8),
        (REPORT_COUNT, 1u8, 0x08u8, 0u8),
        (HIDINPUT, 1u8, 0x02u8, 0u8),
        (REPORT_COUNT, 1u8, 0x01u8, 0u8),
        (REPORT_SIZE, 1u8, 0x08u8, 0u8),
        (HIDINPUT, 1u8, 0x01u8, 0u8),
        (REPORT_COUNT, 1u8, 0x05u8, 0u8),
        (REPORT_SIZE, 1u8, 0x01u8, 0u8),
        (USAGE_PAGE, 1u8, 0x08u8, 0u8),
        (USAGE_MINIMUM, 1u8, 0x01u8, 0u8),
        (USAGE_MAXIMUM, 1u8, 0x05u8, 0u8),
        (HIDOUTPUT, 1u8, 0x02u8, 0u8),
        (REPORT_COUNT, 1u8, 0x01u8, 0u8),
        (REPORT_SIZE, 1u8, 0x03u8, 0u8),
        (HIDOUTPUT, 1u8, 0x01u8, 0u8),
        (REPORT_COUNT, 1u8, 0x06u8, 0u8),
        (REPORT_SIZE, 1u8, 0x08u8, 0u8),
        (LOGICAL_MINIMUM, 1u8, 0x00u8, 0u8),
        (LOGICAL_MAXIMUM, 1u8, 0x65u8, 0u8),
        (USAGE_PAGE, 1u8, 0x07u8, 0u8),
        (USAGE_MINIMUM, 1u8, 0x00u8, 0u8),
        (USAGE_MAXIMUM, 1u8, 0x65u8, 0u8),
        (HIDINPUT, 1u8, 0x00u8, 0u8),
        (END_COLLECTION, 0u8, 0u8, 0u8),
        (USAGE_PAGE, 1u8, 0x0Cu8, 0u8),
        (USAGE, 1u8, 0x01u8, 0u8),
        (COLLECTION, 1u8, 0x01u8, 0u8),
        (REPORT_ID, 1u8, MEDIA_KEYS_ID, 0u8),
        (USAGE_PAGE, 1u8, 0x0Cu8, 0u8),
        (LOGICAL_MINIMUM, 1u8, 0x00u8, 0u8),
        (LOGICAL_MAXIMUM, 1u8, 0x01u8, 0u8),
        (REPORT_SIZE, 1u8, 0x01u8, 0u8),
        (REPORT_COUNT, 1u8, 0x10u8, 0u8),
        (USAGE, 1u8, 0xB5u8, 0u8),
        (USAGE, 1u8, 0xB6u8, 0u8),
        (USAGE, 1u8, 0xB7u8, 0u8),
        (USAGE, 1u8, 0xCDu8, 0u8),
        (USAGE, 1u8, 0xE2u8, 0u8),
        (USAGE, 1u8, 0xE9u8, 0u8),
        (USAGE, 1u8, 0xEAu8, 0u8),
        (USAGE, 2u8, 0x23u8, 0x02u8),
        (USAGE, 2u8, 0x94u8, 0x01u8),
        (USAGE, 2u8, 0x92u8, 0x01u8),
        (USAGE, 2u8, 0x2Au8, 0x02u8),
        (USAGE, 2u8, 0x21u8, 0x02u8),
        (USAGE, 2u8, 0x26u8, 0x02u8),
        (USAGE, 2u8, 0x24u8, 0x02u8),
        (USAGE, 2u8, 0x83u8, 0x01u8),
        (USAGE, 2u8, 0x8Au8, 0x01u8),
        (HIDINPUT, 1u8, 0x02u8, 0u8),
        (END_COLLECTION, 0u8, 0u8, 0u8),
    ];
    assert(items@ =~= report_map_items());
    encode_items(&items)
}

} // verus!
