use vstd::prelude::*;

verus! {

/// Number of key slots in a boot-keyboard report.
pub const KEY_SLOTS: usize = 6;

/// An 8-byte boot-keyboard input report: modifier bits, a reserved byte and
/// six key usage slots.
#[derive(Debug, Clone, Copy)]
pub struct KeyboardReport {
    pub modifier: u8,
    pub reserved: u8,
    pub keycodes: [u8; 6],
}

/// The report that announces a single key: its usage in the first slot,
/// everything else zero.
pub open spec fn key_report_spec(code: u8) -> KeyboardReport {
    KeyboardReport { modifier: 0, reserved: 0, keycodes: [code, 0, 0, 0, 0, 0] }
}

/// The all-zero report: no modifier, no key.
pub open spec fn zero_report_spec() -> KeyboardReport {
    KeyboardReport { modifier: 0, reserved: 0, keycodes: [0, 0, 0, 0, 0, 0] }
}

impl KeyboardReport {
    /// True when every byte of the report is zero.
    pub open spec fn is_zero_spec(self) -> bool {
        &&& self.modifier == 0
        &&& self.reserved == 0
        &&& forall|i: int| 0 <= i < 6 ==> #[trigger] self.keycodes@[i] == 0
    }

    /// The bytes of the report as they go over the wire.
    pub open spec fn bytes_spec(self) -> Seq<u8> {
        seq![self.modifier, self.reserved] + self.keycodes@
    }

    /// A report announcing the key with usage `code`.
    pub fn key(code: u8) -> (r: KeyboardReport)
        ensures
            r == key_report_spec(code),
    {
        KeyboardReport { modifier: 0, reserved: 0, keycodes: [code, 0, 0, 0, 0, 0] }
    }

    /// The all-zero report, which tells the host that every key is up.
    pub fn zero() -> (r: KeyboardReport)
        ensures
            r == zero_report_spec(),
            r.is_zero_spec(),
    {
        KeyboardReport { modifier: 0, reserved: 0, keycodes: [0, 0, 0, 0, 0, 0] }
    }

    /// Whether every byte of the report is zero.
    pub fn is_zero(&self) -> (r: bool)
        ensures
            r == self.is_zero_spec(),
    {
        let mut i: usize = 0;
        while i < KEY_SLOTS
            invariant
                0 <= i <= 6,
                forall|j: int| 0 <= j < i ==> self.keycodes@[j] == 0,
            decreases 6 - i,
        {
            if self.keycodes[i] != 0 {
                return false;
            }
            i = i + 1;
        }
        self.modifier == 0 && self.reserved == 0
    }

    /// The report as 8 bytes: modifier, reserved, then the six key slots.
    pub fn to_bytes(&self) -> (r: [u8; 8])
        ensures
            r@ == self.bytes_spec(),
    {
        let k = self.keycodes;
        let r = [self.modifier, self.reserved, k[0], k[1], k[2], k[3], k[4], k[5]];
        assert(r@ =~= self.bytes_spec());
        r
    }

    /// The report as the USB transport writes it: the report ID, then the
    /// 8 report bytes.
    pub fn to_bytes_with_id(&self, id: u8) -> (r: [u8; 9])
        ensures
            r@ == seq![id] + self.bytes_spec(),
    {
        let k = self.keycodes;
        let r = [id, self.modifier, self.reserved, k[0], k[1], k[2], k[3], k[4], k[5]];
        assert(r@ =~= seq![id] + self.bytes_spec());
        r
    }
}

impl PartialEq for KeyboardReport {
    fn eq(&self, o: &KeyboardReport) -> (r: bool) {
        let mut i: usize = 0;
        while i < KEY_SLOTS
            invariant
                0 <= i <= 6,
                forall|j: int| 0 <= j < i ==> self.keycodes@[j] == o.keycodes@[j],
            decreases 6 - i,
        {
            if self.keycodes[i] != o.keycodes[i] {
                return false;
            }
            i = i + 1;
        }
        assert(self.keycodes@ =~= o.keycodes@);
        self.modifier == o.modifier && self.reserved == o.reserved
    }
}

impl vstd::std_specs::cmp::PartialEqSpecImpl for KeyboardReport {
    open spec fn obeys_eq_spec() -> bool {
        true
    }

    open spec fn eq_spec(&self, o: &KeyboardReport) -> bool {
        &&& self.modifier == o.modifier
        &&& self.reserved == o.reserved
        &&& self.keycodes@ == o.keycodes@
    }
}

} // verus!
