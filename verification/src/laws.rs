//! The laws of the report encoding, stated and proved over the spec model.
//!
//! Each proof function here is a public statement about `apply_code`,
//! `apply_codes` and `build_report_bytes`, the functions that the report
//! encoder's contracts speak of.

use vstd::prelude::*;
use crate::hid::{
    apply_code, apply_codes, bitmap_bit_set, bitmap_byte_index, bitmap_mask, bitmap_pos,
    boot_filled, build_report_bytes, empty_report_bytes, first_free_boot_slot,
    first_free_boot_slot_from, in_bitmap_range, spec_classify, KeyCategory, BITMAP_START,
    BOOT_END, BOOT_START, KC_ERROR_ROLL_OVER, MOD_FIRST, REPORT_LEN,
};

verus! {

/// Or-ing a one-bit mask into a byte sets exactly that bit: afterwards a bit
/// is set iff it was set before or it is the or-ed bit.
proof fn lemma_u8_or_bit(b: u8, k: u8, j: u8)
    by (bit_vector)
    requires
        k < 8,
        j < 8,
    ensures
        ((b | (1u8 << k)) & (1u8 << j) != 0) <==> (b & (1u8 << j) != 0 || j == k),
{
}

/// The boot-slot search never leaves the boot array: from any start index it
/// answers an index between that start (or the array's start) and its end.
proof fn lemma_first_free_range(r: Seq<u8>, i: int)
    ensures
        BOOT_START <= first_free_boot_slot_from(r, i) <= BOOT_END,
        BOOT_START <= i <= BOOT_END ==> first_free_boot_slot_from(r, i) >= i,
    decreases BOOT_END - i,
{
    if BOOT_START <= i < BOOT_END && r[i] != 0 {
        lemma_first_free_range(r, i + 1);
    }
}

/// Incorporating any key code never changes the report's length.
pub proof fn lemma_apply_code_len(r: Seq<u8>, code: u8)
    requires
        r.len() == REPORT_LEN,
    ensures
        apply_code(r, code).len() == REPORT_LEN,
{
    lemma_first_free_range(r, BOOT_START as int);
}

/// Incorporating any sequence of key codes never changes the report's length.
pub proof fn lemma_apply_codes_len(r: Seq<u8>, codes: Seq<u8>)
    requires
        r.len() == REPORT_LEN,
    ensures
        apply_codes(r, codes).len() == REPORT_LEN,
    decreases codes.len(),
{
    if codes.len() > 0 {
        lemma_apply_codes_len(r, codes.drop_last());
        lemma_apply_code_len(apply_codes(r, codes.drop_last()), codes.last());
    }
}

/// A global-error code, incorporated at any point of a build, overwrites all
/// six boot slots with its value — whatever they held — and leaves the
/// modifier byte, the reserved byte and the whole bitmap untouched.
pub proof fn lemma_global_error_floods_boot(r: Seq<u8>, code: u8)
    requires
        r.len() == REPORT_LEN,
        spec_classify(code) is GlobalError,
    ensures
        apply_code(r, code).len() == REPORT_LEN,
        forall|i: int| BOOT_START <= i < BOOT_END ==> apply_code(r, code)[i] == code,
        forall|i: int| 0 <= i < BOOT_START ==> apply_code(r, code)[i] == r[i],
        forall|i: int| BOOT_END <= i < REPORT_LEN ==> apply_code(r, code)[i] == r[i],
{
}

/// A modifier code leaves every byte but the modifier byte unchanged, and in
/// the modifier byte sets exactly the bit at the code's offset in the
/// modifier range, keeping every other bit as it was.
pub proof fn lemma_modifier_sets_exactly_its_bit(r: Seq<u8>, code: u8)
    requires
        r.len() == REPORT_LEN,
        spec_classify(code) is Modifier,
    ensures
        apply_code(r, code).len() == REPORT_LEN,
        forall|i: int| 1 <= i < REPORT_LEN ==> apply_code(r, code)[i] == r[i],
        forall|j: u8|
            j < 8
                ==> ((apply_code(r, code)[0] & (1u8 << j) != 0) <==> (r[0] & (1u8 << j) != 0
                || j == code - MOD_FIRST)),
{
    let off = (code - MOD_FIRST) as u8;
    assert forall|j: u8| j < 8 implies ((apply_code(r, code)[0] & (1u8 << j) != 0) <==> (r[0] & (
    1u8 << j) != 0 || j == code - MOD_FIRST)) by {
        lemma_u8_or_bit(r[0], off, j);
    }
}

/// A modifier key alone: from the empty report, exactly one bit of byte 0 —
/// the bit at the code's offset in the modifier range — is set, and no other
/// byte changes.
pub proof fn lemma_modifier_alone(code: u8)
    requires
        spec_classify(code) is Modifier,
    ensures
        apply_code(empty_report_bytes(), code).len() == REPORT_LEN,
        forall|j: u8|
            j < 8
                ==> ((apply_code(empty_report_bytes(), code)[0] & (1u8 << j) != 0) <==> j == code
                - MOD_FIRST),
        forall|i: int|
            1 <= i < REPORT_LEN ==> apply_code(empty_report_bytes(), code)[i] == 0,
{
    lemma_modifier_sets_exactly_its_bit(empty_report_bytes(), code);
    assert forall|j: u8| j < 8 implies !(empty_report_bytes()[0] & (1u8 << j) != 0) by {
        assert(0u8 & (1u8 << j) == 0) by (bit_vector);
    }
}

/// A key-code value outside the bitmap's usage range — below its low bound
/// or at or above its capacity — leaves the whole bitmap region untouched,
/// whatever its category.
pub proof fn lemma_out_of_range_leaves_bitmap(r: Seq<u8>, code: u8)
    requires
        r.len() == REPORT_LEN,
        !in_bitmap_range(code),
    ensures
        apply_code(r, code).len() == REPORT_LEN,
        forall|i: int| BITMAP_START <= i < REPORT_LEN ==> apply_code(r, code)[i] == r[i],
{
    lemma_first_free_range(r, BOOT_START as int);
}

/// Key-code values outside the bitmap's usage range never set any bitmap
/// bit, regardless of how many times they are applied: a whole sequence of
/// such codes leaves the bitmap region exactly as it was.
pub proof fn lemma_out_of_range_never_sets_bitmap(r: Seq<u8>, codes: Seq<u8>)
    requires
        r.len() == REPORT_LEN,
        forall|k: int| 0 <= k < codes.len() ==> !in_bitmap_range(codes[k]),
    ensures
        apply_codes(r, codes).len() == REPORT_LEN,
        forall|i: int| BITMAP_START <= i < REPORT_LEN ==> apply_codes(r, codes)[i] == r[i],
    decreases codes.len(),
{
    if codes.len() > 0 {
        lemma_out_of_range_never_sets_bitmap(r, codes.drop_last());
        lemma_out_of_range_leaves_bitmap(apply_codes(r, codes.drop_last()), codes.last());
    }
}

/// The boot-slot search skips over taken slots: with every slot in `[a, b)`
/// taken, the search from `a` and the search from `b` agree.
proof fn lemma_first_free_skip(r: Seq<u8>, a: int, b: int)
    requires
        BOOT_START <= a <= b <= BOOT_END,
        forall|j: int| a <= j < b ==> r[j] != 0,
    ensures
        first_free_boot_slot_from(r, a) == first_free_boot_slot_from(r, b),
    decreases b - a,
{
    if a < b {
        lemma_first_free_skip(r, a + 1, b);
    }
}

/// The bitmap byte of an in-range usage value lies inside the bitmap region,
/// and its bit position inside that byte is a valid shift amount.
proof fn lemma_bitmap_byte_index_range(v: u8)
    requires
        in_bitmap_range(v),
    ensures
        BITMAP_START <= bitmap_byte_index(v) < REPORT_LEN,
        0 <= bitmap_pos(v) % 8 < 8,
{
}

/// Or-ing an in-range value's mask into its bitmap byte sets that value's bit.
proof fn lemma_bitmap_or_sets(r: Seq<u8>, v: u8)
    requires
        r.len() == REPORT_LEN,
        in_bitmap_range(v),
    ensures
        bitmap_bit_set(
            r.update(bitmap_byte_index(v), r[bitmap_byte_index(v)] | bitmap_mask(v)),
            v,
        ),
{
    lemma_bitmap_byte_index_range(v);
    let k = (bitmap_pos(v) % 8) as u8;
    lemma_u8_or_bit(r[bitmap_byte_index(v)], k, k);
}

/// Or-ing one in-range value's mask into its bitmap byte keeps every other
/// value's already-set bit set.
proof fn lemma_bitmap_or_preserves(r: Seq<u8>, v: u8, w: u8)
    requires
        r.len() == REPORT_LEN,
        in_bitmap_range(v),
        in_bitmap_range(w),
        bitmap_bit_set(r, w),
    ensures
        bitmap_bit_set(
            r.update(bitmap_byte_index(v), r[bitmap_byte_index(v)] | bitmap_mask(v)),
            w,
        ),
{
    lemma_bitmap_byte_index_range(v);
    lemma_bitmap_byte_index_range(w);
    if bitmap_byte_index(v) == bitmap_byte_index(w) {
        lemma_u8_or_bit(
            r[bitmap_byte_index(v)],
            (bitmap_pos(v) % 8) as u8,
            (bitmap_pos(w) % 8) as u8,
        );
    }
}

/// The boot-array and bitmap law for all-ordinary pressed-sets.
///
/// Building a report from ordinary keys alone gives: with at most six keys,
/// boot slots holding the key values in press order, zero-padded on the
/// right; with more than six keys, every boot slot holding the roll-over
/// code; in either case a set bitmap bit for every key whose value is in the
/// bitmap's usage range, and zero modifier and reserved bytes.
pub proof fn lemma_ordinary_pressed_set(codes: Seq<u8>)
    requires
        forall|k: int| 0 <= k < codes.len() ==> spec_classify(codes[k]) is Ordinary,
    ensures
        build_report_bytes(codes).len() == REPORT_LEN,
        build_report_bytes(codes)[0] == 0,
        build_report_bytes(codes)[1] == 0,
        codes.len() <= 6 ==> forall|k: int|
            0 <= k < codes.len() ==> build_report_bytes(codes)[BOOT_START + k] == codes[k],
        codes.len() <= 6 ==> forall|i: int|
            BOOT_START + codes.len() <= i < BOOT_END ==> build_report_bytes(codes)[i] == 0,
        codes.len() > 6 ==> forall|i: int|
            BOOT_START <= i < BOOT_END ==> build_report_bytes(codes)[i] == KC_ERROR_ROLL_OVER,
        forall|k: int|
            0 <= k < codes.len() && in_bitmap_range(codes[k]) ==> bitmap_bit_set(
                build_report_bytes(codes),
                codes[k],
            ),
    decreases codes.len(),
{
    if codes.len() == 0 {
        assert(build_report_bytes(codes) == empty_report_bytes());
    } else {
        let pre = codes.drop_last();
        let c = codes.last();
        let n = pre.len() as int;
        lemma_ordinary_pressed_set(pre);
        let rp = build_report_bytes(pre);
        let r = build_report_bytes(codes);
        assert(r == apply_code(rp, c));
        assert(spec_classify(c) is Ordinary);
        assert(c != 0);

        // Every taken boot slot holds a nonzero byte, so the slot search
        // lands on the leftmost untouched slot, or past the array.
        let slot = first_free_boot_slot(rp);
        if n <= 5 {
            assert forall|j: int| BOOT_START <= j < BOOT_START + n implies rp[j] != 0 by {
                let k = j - BOOT_START;
                assert(pre[k] == codes[k]);
                assert(spec_classify(pre[k]) is Ordinary);
                assert(rp[j] == pre[k]);
            }
            lemma_first_free_skip(rp, BOOT_START as int, BOOT_START + n);
            assert(rp[BOOT_START + n] == 0);
            assert(slot == BOOT_START + n);
        } else {
            assert forall|j: int| BOOT_START <= j < BOOT_END implies rp[j] != 0 by {
                if n == 6 {
                    let k = j - BOOT_START;
                    assert(pre[k] == codes[k]);
                    assert(spec_classify(pre[k]) is Ordinary);
                    assert(rp[j] == pre[k]);
                } else {
                    assert(rp[j] == KC_ERROR_ROLL_OVER);
                }
            }
            lemma_first_free_skip(rp, BOOT_START as int, BOOT_END as int);
            assert(slot == BOOT_END);
        }

        let after_boot = if slot < BOOT_END {
            rp.update(slot, c)
        } else {
            boot_filled(rp, KC_ERROR_ROLL_OVER)
        };
        assert(forall|i: int| BITMAP_START <= i < REPORT_LEN ==> after_boot[i] == rp[i]);
        if in_bitmap_range(c) {
            lemma_bitmap_byte_index_range(c);
        }
        // The bitmap step touches no byte below the bitmap region.
        assert(forall|i: int| 0 <= i < BITMAP_START ==> r[i] == after_boot[i]);

        // The boot region after this key: in-order values while slots last,
        // the roll-over flood once they run out.
        if n <= 5 {
            assert forall|k: int| 0 <= k < codes.len() implies r[BOOT_START + k] == codes[k] by {
                if k < n {
                    assert(pre[k] == codes[k]);
                    assert(rp[BOOT_START + k] == pre[k]);
                } else {
                    assert(after_boot[BOOT_START + n] == c);
                }
            }
            assert forall|i: int|
                BOOT_START + codes.len() <= i < BOOT_END implies r[i] == 0 by {
                assert(rp[i] == 0);
            }
        } else {
            assert(forall|i: int| BOOT_START <= i < BOOT_END ==> after_boot[i] == KC_ERROR_ROLL_OVER);
        }

        // The bitmap step: already-set bits stay set, the new key's bit is set.
        assert forall|k: int|
            0 <= k < codes.len() && in_bitmap_range(codes[k]) implies bitmap_bit_set(
            r,
            codes[k],
        ) by {
            if k < n {
                assert(pre[k] == codes[k]);
                assert(bitmap_bit_set(rp, pre[k]));
                lemma_bitmap_byte_index_range(codes[k]);
                assert(bitmap_bit_set(after_boot, codes[k]));
                if in_bitmap_range(c) {
                    lemma_bitmap_or_preserves(after_boot, c, codes[k]);
                }
            } else {
                lemma_bitmap_or_sets(after_boot, c);
            }
        }
    }
}

/// The reserved byte stays zero through any build: no key category ever
/// writes byte 1.
pub proof fn lemma_reserved_byte_stays_zero(codes: Seq<u8>)
    ensures
        build_report_bytes(codes).len() == REPORT_LEN,
        build_report_bytes(codes)[1] == 0,
    decreases codes.len(),
{
    if codes.len() > 0 {
        lemma_reserved_byte_stays_zero(codes.drop_last());
        let rp = build_report_bytes(codes.drop_last());
        let c = codes.last();
        lemma_apply_code_len(rp, c);
        lemma_first_free_range(rp, BOOT_START as int);
        if in_bitmap_range(c) {
            lemma_bitmap_byte_index_range(c);
        }
    }
}

/// Two independent builds of the same pressed-set, in the same press order,
/// give byte-identical reports: the report is a function of the code
/// sequence alone.
pub proof fn lemma_build_deterministic(codes: Seq<u8>, r1: Seq<u8>, r2: Seq<u8>)
    requires
        r1 == build_report_bytes(codes),
        r2 == build_report_bytes(codes),
    ensures
        r1 == r2,
{
}

} // verus!

