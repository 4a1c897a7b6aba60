//! Assorted one-function lessons: options instead of null, panics,
//! writing and running tests, and returning values.

use vstd::prelude::*;

verus! {

/// Options in place of null: an absent number contributes nothing to a
/// sum.
pub fn enumerate() {
    let x: i8 = 5;
    let y: Option<i8> = Some(5);
    let sum: i8 = x + match y {
        Some(v) => v,
        None => 0,
    };
    assert(sum == 10);
}

/// Unrecoverable failures stop the program; this library never takes
/// that road, so there is nothing left to run here.
pub fn panic() {
}

/// Tests live in their own files and assert expected values; the
/// functions they exercise are in the modules around this one.
pub fn writing_tests() {
}

/// Running tests is the harness's business; nothing to compute here.
pub fn how_to_run() {
}

/// Returns five.
pub fn return_five() -> (r: i32)
    ensures
        r == 5,
{
    5
}

/// Adds one to its argument.
pub fn plus_one(x: i32) -> (r: i32)
    requires
        x < i32::MAX,
    ensures
        r == x + 1,
{
    let wa = x + 1;
    wa
}

} // verus!
