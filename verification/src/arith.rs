//! Saturating arithmetic on ticks and counters.
use vstd::prelude::*;

verus! {

/// The `i64` nearest to `value`.
pub open spec fn nearest_i64(value: int) -> int {
    if value < i64::MIN {
        i64::MIN as int
    } else if value > i64::MAX {
        i64::MAX as int
    } else {
        value
    }
}

/// The `u64` nearest to `value`.
pub open spec fn nearest_u64(value: int) -> int {
    if value < 0 {
        0
    } else if value > u64::MAX {
        u64::MAX as int
    } else {
        value
    }
}

/// The larger of two numbers.
pub open spec fn larger(left: int, right: int) -> int {
    if left >= right {
        left
    } else {
        right
    }
}

/// The smaller of two numbers.
pub open spec fn smaller(left: int, right: int) -> int {
    if left <= right {
        left
    } else {
        right
    }
}

pub fn saturating_add_ticks(left: i64, right: i64) -> (sum: i64)
    ensures
        sum == nearest_i64(left + right),
{
    match left.checked_add(right) {
        Some(sum) => sum,
        None => if right < 0 {
            i64::MIN
        } else {
            i64::MAX
        },
    }
}

pub fn saturating_sub_ticks(left: i64, right: i64) -> (difference: i64)
    ensures
        difference == nearest_i64(left - right),
{
    match left.checked_sub(right) {
        Some(difference) => difference,
        None => if right < 0 {
            i64::MAX
        } else {
            i64::MIN
        },
    }
}

pub fn saturating_mul_u64(left: u64, right: u64) -> (product: u64)
    ensures
        product == nearest_u64(left * right),
{
    match left.checked_mul(right) {
        Some(product) => {
            assert(0 <= left * right) by (nonlinear_arith);
            product
        },
        None => {
            assert(left * right > u64::MAX) by {
                assert(0 <= left * right) by (nonlinear_arith);
            }
            u64::MAX
        },
    }
}

pub fn max_i64(left: i64, right: i64) -> (larger_one: i64)
    ensures
        larger_one == larger(left as int, right as int),
{
    if left >= right {
        left
    } else {
        right
    }
}

pub fn max_usize(left: usize, right: usize) -> (larger_one: usize)
    ensures
        larger_one == larger(left as int, right as int),
{
    if left >= right {
        left
    } else {
        right
    }
}

pub fn max_u64(left: u64, right: u64) -> (larger_one: u64)
    ensures
        larger_one == larger(left as int, right as int),
{
    if left >= right {
        left
    } else {
        right
    }
}

/// Saturation keeps what the type can hold and takes anything else to the nearer end of its range.
pub proof fn law_saturation_is_nearest(value: int)
    ensures
        i64::MIN <= value <= i64::MAX ==> nearest_i64(value) == value,
        value > i64::MAX ==> nearest_i64(value) == i64::MAX,
        value < i64::MIN ==> nearest_i64(value) == i64::MIN,
        0 <= value <= u64::MAX ==> nearest_u64(value) == value,
        value > u64::MAX ==> nearest_u64(value) == u64::MAX,
        value < 0 ==> nearest_u64(value) == 0,
{
}

/// Of two numbers one is the larger and the other one the smaller.
pub proof fn law_larger_and_smaller(left: int, right: int)
    ensures
        larger(left, right) == left || larger(left, right) == right,
        larger(left, right) >= left && larger(left, right) >= right,
        smaller(left, right) == left || smaller(left, right) == right,
        smaller(left, right) <= left && smaller(left, right) <= right,
{
}

} // verus!
