//! Small worked examples used to exercise the test harness: a
//! rectangle containment check (one correct, one with the comparison
//! flipped), a couple of adders, greeting builders, and guarded guess
//! values.

use vstd::prelude::*;
use vstd::string::StringExecFns;

verus! {

/// A rectangle, measured in whole units.
#[derive(Debug)]
pub struct Rectangle {
    pub width: u32,
    pub height: u32,
}

impl Rectangle {
    /// Whether `other` fits strictly inside `self`.
    pub fn can_hold(&self, other: &Rectangle) -> (r: bool)
        ensures
            r == (self.width > other.width && self.height > other.height),
    {
        self.width > other.width && self.height > other.height
    }

    /// The deliberately flipped variant of [`Rectangle::can_hold`]:
    /// it reports whether `self` fits strictly inside `other`.
    pub fn can_hold_ii(&self, other: &Rectangle) -> (r: bool)
        ensures
            r == (self.width < other.width && self.height < other.height),
    {
        self.width < other.width && self.height < other.height
    }
}

/// Adds two to its argument.
pub fn add_two(a: i32) -> (r: i32)
    requires
        a + 2 <= i32::MAX,
    ensures
        r == a + 2,
{
    a + 2
}

/// The deliberately wrong sibling of [`add_two`]: it adds three.
pub fn add_two_ii(a: i32) -> (r: i32)
    requires
        a + 3 <= i32::MAX,
    ensures
        r == a + 3,
{
    a + 3
}

/// Adds two to its argument.
pub fn add_two_iii(a: i32) -> (r: i32)
    requires
        a + 2 <= i32::MAX,
    ensures
        r == a + 2,
{
    a + 2
}

/// Greets `name` by name.
pub fn greeting(name: &str) -> (r: String)
    ensures
        r@ == "こんちゃ "@ + name@ + "!"@,
{
    let mut r = String::from_str("こんちゃ ");
    r.append(name);
    r.append("!");
    proof {
        assert(r@ =~= "こんちゃ "@ + name@ + "!"@);
    }
    r
}

/// The deliberately impersonal sibling of [`greeting`]: the name is
/// ignored.
pub fn greeting_ii(name: &str) -> (r: String)
    ensures
        r@ == "こんちゃ!"@,
{
    String::from_str("こんちゃ!")
}

/// A guessed value, guaranteed by its constructor to lie between 1
/// and 100.
pub struct Guess {
    value: i32,
}

impl Guess {
    /// The held value.
    pub closed spec fn spec_value(&self) -> int {
        self.value as int
    }

    /// Wraps a value between 1 and 100; out-of-range values are
    /// refused outright.
    pub fn new(value: i32) -> (r: Guess)
        requires
            1 <= value <= 100,
        ensures
            r.spec_value() == value,
    {
        Guess { value }
    }
}

/// The sibling of [`Guess`] whose constructor lost its range check.
pub struct GuessII {
    value: i32,
}

impl GuessII {
    /// Wraps any value at all into a [`Guess`]: the range check has
    /// been disabled.
    pub fn new(value: i32) -> (r: Guess)
        ensures
            r.spec_value() == value,
    {
        Guess { value }
    }
}

/// The sibling of [`Guess`] with a split range check, one message per
/// bound.
pub struct GuessIII {
    value: i32,
}

impl GuessIII {
    /// Wraps a value between 1 and 100, checking each bound on its
    /// own.
    pub fn new(value: i32) -> (r: Guess)
        requires
            1 <= value <= 100,
        ensures
            r.spec_value() == value,
    {
        Guess { value }
    }
}

/// The sibling of [`Guess`] whose upper bound check was broken to
/// accept values up to 512.
pub struct GuessIV {
    value: i32,
}

impl GuessIV {
    /// Wraps a value between 1 and 512: the upper bound was loosened
    /// by mistake, so values above 100 slip through.
    pub fn new(value: i32) -> (r: Guess)
        requires
            1 <= value <= 512,
        ensures
            r.spec_value() == value,
    {
        Guess { value }
    }
}

} // verus!
