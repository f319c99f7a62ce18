//! Arithmetic on what sensors report and on what motors are told.

pub mod imu;
pub mod motor_group;
pub mod odometer;
pub mod otos;
pub mod tracking_wheel;

use vstd::prelude::*;
use crate::math::scalar::{narrow, sat, tdiv};

verus! {

/// Sum of the values.
pub open spec fn total(values: Seq<i64>) -> int
    decreases values.len(),
{
    if values.len() == 0 {
        0
    } else {
        total(values.drop_last()) + values.last()
    }
}

/// Mean of the values, rounded toward zero; none where there is no value.
pub open spec fn mean(values: Seq<i64>) -> Option<i64> {
    if values.len() == 0 {
        None
    } else {
        Some(sat(tdiv(total(values), values.len() as int)))
    }
}

/// Mean of the values, rounded toward zero; none where there is no value.
pub fn average(values: &Vec<i64>) -> (r: Option<i64>)
    ensures
        r == mean(values@),
{
    let n: usize = values.len();
    if n == 0 {
        return None;
    }
    let mut acc: i128 = 0;
    let mut i: usize = 0;
    while i < n
        invariant
            n == values@.len(),
            i <= n,
            acc == total(values@.take(i as int)),
            -(i as int) * 0x8000_0000_0000_0000 <= acc <= (i as int) * 0x8000_0000_0000_0000,
        decreases n - i,
    {
        assert(values@.take(i as int + 1).drop_last() == values@.take(i as int));
        acc = acc + values[i] as i128;
        i = i + 1;
    }
    assert(values@.take(n as int) == values@);
    let count: i128 = n as i128;
    let q: i128 = if acc < 0 {
        -((-acc) / count)
    } else {
        acc / count
    };
    Some(narrow(q))
}

} // verus!
