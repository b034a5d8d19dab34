//! The report encoder: a 21-byte dual-format HID keyboard report.
//!
//! Byte layout: byte 0 is the modifier bitmask, byte 1 is reserved (always
//! zero), bytes 2..8 are the 6-slot boot-protocol scancode array, and bytes
//! 8..21 are a 104-bit bitmap with one bit per ordinary key usage.

use vstd::prelude::*;

verus! {

/// Total length of a report in bytes.
pub const REPORT_LEN: usize = 21;

/// First byte of the boot-protocol scancode array.
pub const BOOT_START: usize = 2;

/// One past the last byte of the boot-protocol scancode array.
pub const BOOT_END: usize = 8;

/// First byte of the rollover bitmap.
pub const BITMAP_START: usize = 8;

/// The "no key" sentinel usage; incorporating it changes nothing.
pub const KC_NO: u8 = 0x00;

/// Roll-over error usage: more keys are down than the boot array can hold.
pub const KC_ERROR_ROLL_OVER: u8 = 0x01;

/// Power-on self-test failure error usage.
pub const KC_POST_FAIL: u8 = 0x02;

/// Undefined error usage.
pub const KC_ERROR_UNDEFINED: u8 = 0x03;

/// First usage of the contiguous modifier range (left ctrl).
pub const MOD_FIRST: u8 = 0xE0;

/// Last usage of the contiguous modifier range (right gui).
pub const MOD_LAST: u8 = 0xE7;

/// Lowest usage value that owns a bitmap bit; values below it are the
/// sentinel and the global-error codes, a reserved band with no bit.
pub const BITMAP_LOW: u8 = 4;

/// Usage values at or above the bitmap capacity own no bitmap bit.
pub const BITMAP_CAPACITY: u8 = 104;

/// The four disjoint categories a key-code value falls in.
///
/// `GlobalError` and `Ordinary` carry the raw usage value; `Modifier`
/// carries the code's offset from the start of the modifier range, which
/// is also its bit position inside the modifier byte.
#[derive(Clone, Copy, Debug, PartialEq, Eq, Structural)]
pub enum KeyCategory {
    NoKey,
    GlobalError(u8),
    Modifier(u8),
    Ordinary(u8),
}

/// Category of a key-code value: the sentinel, one of the three
/// global-error codes, one of the eight modifiers, or an ordinary key.
pub open spec fn spec_classify(code: u8) -> KeyCategory {
    if code == KC_NO {
        KeyCategory::NoKey
    } else if code <= KC_ERROR_UNDEFINED {
        KeyCategory::GlobalError(code)
    } else if MOD_FIRST <= code <= MOD_LAST {
        KeyCategory::Modifier((code - MOD_FIRST) as u8)
    } else {
        KeyCategory::Ordinary(code)
    }
}

/// Classify one key-code value into its category.
pub fn classify(code: u8) -> (c: KeyCategory)
    ensures
        c == spec_classify(code),
{
    if code == KC_NO {
        KeyCategory::NoKey
    } else if code <= KC_ERROR_UNDEFINED {
        KeyCategory::GlobalError(code)
    } else if MOD_FIRST <= code && code <= MOD_LAST {
        KeyCategory::Modifier(code - MOD_FIRST)
    } else {
        KeyCategory::Ordinary(code)
    }
}

/// The bytes of a freshly created report: all zero.
pub open spec fn empty_report_bytes() -> Seq<u8> {
    Seq::new(REPORT_LEN as nat, |i: int| 0u8)
}

/// The report with its whole boot array overwritten by one value and every
/// other byte kept.
pub open spec fn boot_filled(r: Seq<u8>, v: u8) -> Seq<u8> {
    Seq::new(r.len(), |i: int| if BOOT_START <= i < BOOT_END { v } else { r[i] })
}

/// Index of the first zero byte of the boot array at or after `i`, or
/// `BOOT_END` if every slot from `i` on is taken.
pub open spec fn first_free_boot_slot_from(r: Seq<u8>, i: int) -> int
    decreases BOOT_END - i,
{
    if i < BOOT_START || i >= BOOT_END {
        BOOT_END as int
    } else if r[i] == 0 {
        i
    } else {
        first_free_boot_slot_from(r, i + 1)
    }
}

/// Index of the leftmost empty boot slot, or `BOOT_END` if the array is full.
pub open spec fn first_free_boot_slot(r: Seq<u8>) -> int {
    first_free_boot_slot_from(r, BOOT_START as int)
}

/// Whether a usage value owns a bit in the rollover bitmap.
pub open spec fn in_bitmap_range(code: u8) -> bool {
    BITMAP_LOW <= code < BITMAP_CAPACITY
}

/// Bit position of an in-range usage value inside the bitmap: its offset
/// from the low bound of the bitmap's usage range.
pub open spec fn bitmap_pos(code: u8) -> int {
    code - BITMAP_LOW
}

/// Index, within the whole report, of the bitmap byte holding the bit of an
/// in-range usage value.
pub open spec fn bitmap_byte_index(code: u8) -> int {
    BITMAP_START + bitmap_pos(code) / 8
}

/// Single-bit mask selecting, within its bitmap byte, the bit of an
/// in-range usage value.
pub open spec fn bitmap_mask(code: u8) -> u8 {
    1u8 << ((bitmap_pos(code) % 8) as u8)
}

/// Whether the bitmap bit of an in-range usage value is set in the report.
pub open spec fn bitmap_bit_set(r: Seq<u8>, code: u8) -> bool {
    r[bitmap_byte_index(code)] & bitmap_mask(code) != 0
}

/// The report bytes after incorporating one key code:
/// the sentinel changes nothing; a global-error code overwrites the whole
/// boot array with its value; a modifier ors its bit into byte 0; an
/// ordinary code takes the leftmost empty boot slot (or, with the array
/// full, floods it with the roll-over code) and, when its value is in the
/// bitmap's usage range, also sets its bitmap bit.
pub open spec fn apply_code(r: Seq<u8>, code: u8) -> Seq<u8> {
    match spec_classify(code) {
        KeyCategory::NoKey => r,
        KeyCategory::GlobalError(v) => boot_filled(r, v),
        KeyCategory::Modifier(off) => r.update(0, r[0] | (1u8 << off)),
        KeyCategory::Ordinary(v) => {
            let slot = first_free_boot_slot(r);
            let after_boot = if slot < BOOT_END {
                r.update(slot, v)
            } else {
                boot_filled(r, KC_ERROR_ROLL_OVER)
            };
            if in_bitmap_range(v) {
                let bi = bitmap_byte_index(v);
                after_boot.update(bi, after_boot[bi] | bitmap_mask(v))
            } else {
                after_boot
            }
        },
    }
}

/// The report bytes after incorporating a sequence of key codes, in order,
/// into a given report.
pub open spec fn apply_codes(r: Seq<u8>, codes: Seq<u8>) -> Seq<u8>
    decreases codes.len(),
{
    if codes.len() == 0 {
        r
    } else {
        apply_code(apply_codes(r, codes.drop_last()), codes.last())
    }
}

/// The report bytes after incorporating a whole pressed-set, in press order,
/// starting from the empty report.
pub open spec fn build_report_bytes(codes: Seq<u8>) -> Seq<u8> {
    apply_codes(empty_report_bytes(), codes)
}

/// The bytes of the fixed-format report descriptor, a protocol artifact the
/// host reads at enumeration time: a report identifier, an 8-bit variable
/// modifier field over the modifier usage range, 56 constant padding bits
/// covering the reserved byte and the boot array, and a 104-bit variable
/// field over the ordinary usage range. It is reproduced byte-for-byte, not
/// computed.
pub open spec fn spec_report_descriptor() -> Seq<u8> {
    seq![
        0x05u8, 0x01, // Usage Page (Generic Desktop)
        0x09, 0x06, // Usage (Keyboard)
        0xA1, 0x01, // Collection (Application)
        0x85, 0x04, //   Report ID (4)
        0x75, 0x01, //   Report Size (1)
        0x95, 0x08, //   Report Count (8)
        0x05, 0x07, //   Usage Page (Key Codes)
        0x19, 0xE0, //   Usage Minimum (224)
        0x29, 0xE7, //   Usage Maximum (231)
        0x15, 0x00, //   Logical Minimum (0)
        0x25, 0x01, //   Logical Maximum (1)
        0x81, 0x02, //   Input (Data, Variable, Absolute): the modifier byte
        0x95, 0x38, //   Report Count (56)
        0x75, 0x01, //   Report Size (1)
        0x81, 0x01, //   Input (Constant): reserved byte and boot array
        0x95, 0x68, //   Report Count (104)
        0x75, 0x01, //   Report Size (1)
        0x15, 0x00, //   Logical Minimum (0)
        0x25, 0x01, //   Logical Maximum (1)
        0x05, 0x07, //   Usage Page (Key Codes)
        0x19, 0x00, //   Usage Minimum (0)
        0x29, 0x68, //   Usage Maximum (104)
        0x81, 0x02, //   Input (Data, Variable, Absolute): the bitmap
        0xC0, // End Collection
    ]
}

/// The report descriptor as bytes for the transport to hand to the host.
pub fn report_descriptor() -> (r: Vec<u8>)
    ensures
        r@ == spec_report_descriptor(),
{
    let r: Vec<u8> = vec![
        0x05, 0x01, 0x09, 0x06, 0xA1, 0x01, 0x85, 0x04, 0x75, 0x01, 0x95, 0x08, 0x05, 0x07, 0x19,
        0xE0, 0x29, 0xE7, 0x15, 0x00, 0x25, 0x01, 0x81, 0x02, 0x95, 0x38, 0x75, 0x01, 0x81, 0x01,
        0x95, 0x68, 0x75, 0x01, 0x15, 0x00, 0x25, 0x01, 0x05, 0x07, 0x19, 0x00, 0x29, 0x68, 0x81,
        0x02, 0xC0,
    ];
    proof {
        assert(r@ =~= spec_report_descriptor());
    }
    r
}

/// One 21-byte dual-format report, built from scratch each scan cycle.
pub struct NKROReport {
    bytes: Vec<u8>,
}

impl Default for NKROReport {
    /// A fresh, empty report, as `new` gives it.
    fn default() -> (r: Self)
        ensures
            r.wf(),
            r@ == empty_report_bytes(),
    {
        NKROReport::new()
    }
}

impl View for NKROReport {
    type V = Seq<u8>;

    closed spec fn view(&self) -> Seq<u8> {
        self.bytes@
    }
}

impl NKROReport {
    /// Structural invariant: the buffer never changes size.
    pub open spec fn wf(&self) -> bool {
        self@.len() == REPORT_LEN
    }

    /// A fresh, empty report: 21 zero bytes.
    pub fn new() -> (r: Self)
        ensures
            r.wf(),
            r@ == empty_report_bytes(),
    {
        let mut bytes: Vec<u8> = Vec::new();
        let mut i: usize = 0;
        while i < REPORT_LEN
            invariant
                i <= REPORT_LEN,
                bytes@.len() == i,
                forall|j: int| 0 <= j < i ==> bytes@[j] == 0u8,
            decreases REPORT_LEN - i,
        {
            bytes.push(0u8);
            i = i + 1;
        }
        let r = NKROReport { bytes };
        proof {
            assert(r@ =~= empty_report_bytes());
        }
        r
    }

    /// The report as a byte slice, for the transport to send.
    pub fn as_bytes(&self) -> (r: &[u8])
        ensures
            r@ == self@,
    {
        self.bytes.as_slice()
    }

    /// Overwrite every slot of the boot array with one value, leaving the
    /// modifier byte, the reserved byte and the bitmap as they are.
    fn set_all(&mut self, v: u8)
        requires
            old(self).wf(),
        ensures
            final(self).wf(),
            final(self)@ == boot_filled(old(self)@, v),
    {
        let mut i: usize = BOOT_START;
        while i < BOOT_END
            invariant
                old(self).wf(),
                self.wf(),
                BOOT_START <= i <= BOOT_END,
                forall|j: int| BOOT_START <= j < i ==> self@[j] == v,
                forall|j: int| 0 <= j < BOOT_START ==> self@[j] == old(self)@[j],
                forall|j: int| i <= j < REPORT_LEN ==> self@[j] == old(self)@[j],
            decreases BOOT_END - i,
        {
            self.bytes.set(i, v);
            i = i + 1;
        }
        proof {
            assert(self@ =~= boot_filled(old(self)@, v));
        }
    }

    /// The leftmost empty boot slot, or `BOOT_END` if the array is full.
    fn first_free_slot(&self) -> (slot: usize)
        requires
            self.wf(),
        ensures
            slot == first_free_boot_slot(self@),
            BOOT_START <= slot <= BOOT_END,
    {
        let mut i: usize = BOOT_START;
        while i < BOOT_END
            invariant
                self.wf(),
                BOOT_START <= i <= BOOT_END,
                first_free_boot_slot(self@) == first_free_boot_slot_from(self@, i as int),
            decreases BOOT_END - i,
        {
            if self.bytes[i] == 0 {
                return i;
            }
            i = i + 1;
        }
        i
    }

    /// Incorporate one key code into the report.
    ///
    /// The sentinel changes nothing; a global-error code floods the boot
    /// array with its value; a modifier sets its bit in byte 0; an ordinary
    /// code takes the leftmost empty boot slot (or floods the array with the
    /// roll-over code when it is full) and, for a value inside the bitmap's
    /// usage range, also sets that value's bitmap bit.
    pub fn pressed(&mut self, code: u8)
        requires
            old(self).wf(),
        ensures
            final(self).wf(),
            final(self)@ == apply_code(old(self)@, code),
    {
        match classify(code) {
            KeyCategory::NoKey => {},
            KeyCategory::GlobalError(v) => {
                self.set_all(v);
            },
            KeyCategory::Modifier(off) => {
                let b0 = self.bytes[0];
                assert(off < 8) by {
                    assert(spec_classify(code) == KeyCategory::Modifier(off));
                };
                self.bytes.set(0, b0 | (1u8 << off));
            },
            KeyCategory::Ordinary(v) => {
                let slot = self.first_free_slot();
                if slot < BOOT_END {
                    self.bytes.set(slot, v);
                } else {
                    self.set_all(KC_ERROR_ROLL_OVER);
                }
                if BITMAP_LOW <= v && v < BITMAP_CAPACITY {
                    let pos = v - BITMAP_LOW;
                    let idx = BITMAP_START + (pos / 8) as usize;
                    let mask = 1u8 << (pos % 8);
                    assert(idx == bitmap_byte_index(v));
                    assert(mask == bitmap_mask(v));
                    let b = self.bytes[idx];
                    self.bytes.set(idx, b | mask);
                }
                proof {
                    assert(self@ =~= apply_code(old(self)@, code));
                }
            },
        }
    }

    /// Build a full report from a pressed-set, incorporating every code in
    /// press order into a fresh empty report.
    pub fn from_codes(codes: &Vec<u8>) -> (r: Self)
        ensures
            r.wf(),
            r@ == build_report_bytes(codes@),
    {
        let mut r = NKROReport::new();
        let mut i: usize = 0;
        while i < codes.len()
            invariant
                i <= codes.len(),
                r.wf(),
                r@ == build_report_bytes(codes@.subrange(0, i as int)),
            decreases codes.len() - i,
        {
            let ghost pre = codes@.subrange(0, i as int);
            r.pressed(codes[i]);
            proof {
                assert(codes@.subrange(0, i + 1 as int).drop_last() =~= pre);
            }
            i = i + 1;
        }
        proof {
            assert(codes@.subrange(0, codes@.len() as int) =~= codes@);
        }
        r
    }
}

} // verus!
