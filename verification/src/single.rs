//! Single-precision values as bit patterns.
use vstd::prelude::*;

verus! {

/// Whether a bit pattern is no number: all exponent bits set, and a fraction.
pub open spec fn is_nan(bits: u32) -> bool {
    bits % 0x8000_0000 > 0x7F80_0000
}

/// Whether a bit pattern is a zero of either sign.
pub open spec fn is_zero(bits: u32) -> bool {
    bits % 0x8000_0000 == 0
}

/// Whether two bit patterns compare equal as numbers: no number equals nothing,
/// and the two zeros are equal.
pub open spec fn numbers_equal(a: u32, b: u32) -> bool {
    &&& !is_nan(a)
    &&& !is_nan(b)
    &&& a == b || is_zero(a) && is_zero(b)
}

/// Whether two rows of bit patterns compare equal, number by number.
pub open spec fn rows_equal(a: Seq<u32>, b: Seq<u32>) -> bool {
    &&& a.len() == b.len()
    &&& forall|i: int| 0 <= i < a.len() ==> numbers_equal(#[trigger] a[i], b[i])
}

/// Compares two bit patterns as numbers.
pub fn same_number(a: u32, b: u32) -> (r: bool)
    ensures
        r == numbers_equal(a, b),
{
    let a_magnitude: u32 = a % 0x8000_0000;
    let b_magnitude: u32 = b % 0x8000_0000;
    a_magnitude <= 0x7F80_0000 && b_magnitude <= 0x7F80_0000 && (a == b || (a_magnitude == 0
        && b_magnitude == 0))
}

/// Compares two rows of bit patterns, number by number.
pub fn same_numbers(a: &Vec<u32>, b: &Vec<u32>) -> (r: bool)
    ensures
        r == rows_equal(a@, b@),
{
    if a.len() != b.len() {
        return false;
    }
    let mut i: usize = 0;
    while i < a.len()
        invariant
            i <= a@.len() == b@.len(),
            forall|j: int| 0 <= j < i ==> numbers_equal(#[trigger] a@[j], b@[j]),
        decreases a@.len() - i,
    {
        if !same_number(a[i], b[i]) {
            assert(!numbers_equal(a@[i as int], b@[i as int]));
            return false;
        }
        i = i + 1;
    }
    true
}

/// Every number equals itself, and only what is no number does not.
pub proof fn lemma_equal_to_itself(bits: u32)
    ensures
        numbers_equal(bits, bits) == !is_nan(bits),
{
}

/// A bit pattern is no number exactly if its eight exponent bits are all set and its
/// fraction is not zero; the sign bit does not matter.
pub proof fn lemma_nan_by_fields(bits: u32)
    ensures
        is_nan(bits) <==> (bits / 0x80_0000) % 256 == 255 && bits % 0x80_0000 != 0,
        is_zero(bits) <==> bits == 0 || bits == 0x8000_0000,
{
}

/// Comparing as numbers does not depend on the order, and carries over.
pub proof fn lemma_equal_is_symmetric(a: u32, b: u32, c: u32)
    ensures
        numbers_equal(a, b) <==> numbers_equal(b, a),
        numbers_equal(a, b) && numbers_equal(b, c) ==> numbers_equal(a, c),
        numbers_equal(0, 0x8000_0000),
        a != b && a % 0x8000_0000 != 0 ==> !numbers_equal(a, b),
{
}

/// Rows of different lengths never compare equal, and one pair that does not is enough
/// to tell two rows apart.
pub proof fn lemma_rows_differ_somewhere(a: Seq<u32>, b: Seq<u32>, i: int)
    ensures
        a.len() != b.len() ==> !rows_equal(a, b),
        0 <= i < a.len() && !numbers_equal(a[i], b[i]) ==> !rows_equal(a, b),
        a.len() == 0 && b.len() == 0 ==> rows_equal(a, b),
        rows_equal(a, b) <==> rows_equal(b, a),
{
    if rows_equal(a, b) {
        assert forall|j: int| 0 <= j < b.len() implies numbers_equal(#[trigger] b[j], a[j]) by {
            assert(numbers_equal(a[j], b[j]));
        }
    }
    if rows_equal(b, a) {
        assert forall|j: int| 0 <= j < a.len() implies numbers_equal(#[trigger] a[j], b[j]) by {
            assert(numbers_equal(b[j], a[j]));
        }
    }
}

/// Numbers compare equal by value: a pattern that is no number equals nothing, the two
/// zeros are one number, and apart from that only the same pattern is the same number.
pub proof fn lemma_numbers_compare_by_value(a: u32, b: u32, r: bool)
    requires
        call_ensures(same_number, (a, b), r),
    ensures
        r ==> a == b || (a % 0x8000_0000 == 0 && b % 0x8000_0000 == 0),
        a == b ==> (r <==> !((a / 0x80_0000) % 256 == 255 && a % 0x80_0000 != 0)),
        a % 0x8000_0000 == 0 && b % 0x8000_0000 == 0 ==> r,
{
}

/// Rows compare equal exactly if they are as long and equal number by number.
pub proof fn lemma_rows_compare_by_value(a: &Vec<u32>, b: &Vec<u32>, r: bool, x: bool, i: int)
    requires
        call_ensures(same_numbers, (a, b), r),
        0 <= i < a@.len(),
        i < b@.len(),
        call_ensures(same_number, (a@[i], b@[i]), x),
    ensures
        a@.len() != b@.len() ==> !r,
        !x ==> !r,
        a@.len() == 1 && b@.len() == 1 ==> r == x,
{
}

} // verus!
