//! Ownership hand-offs on owned strings: moving a value through a
//! function, duplicating it, borrowing it, and mutating it in place.

use vstd::prelude::*;
use vstd::string::StringExecFns;

verus! {

/// Takes the treasure and hands it straight back: a move in, a move
/// out, the text untouched.
pub fn nusumu(zaysan: String) -> (r: String)
    ensures
        r == zaysan,
{
    zaysan
}

/// Duplicates the book: the original and its copy, both with the same
/// text.
pub fn copy(hon: String) -> (r: (String, String))
    ensures
        r.0 == hon,
        r.1@ == hon@,
{
    let hon_copy = hon.clone();
    (hon, hon_copy)
}

/// The byte length of a borrowed string; borrowing it leaves the
/// caller's value alive.
pub fn cal_len(arg: &String) -> (r: usize)
    ensures
        r == vstd::utf8::encode_utf8(arg@).len() as usize,
{
    arg.as_str().len()
}

/// Appends through a mutable borrow.
fn change(arg: &mut String)
    ensures
        final(arg)@ == old(arg)@ + " Wooold!!"@,
{
    arg.append(" Wooold!!");
}

/// An owned value moves into a call and out again; a copyable value
/// is simply duplicated.
pub fn fun_and_ownership() {
    let hasnt_copy = String::from_str("Oveve");
    let _taken = nusumu(hasnt_copy);
    let has_copy: i32 = 5;
    let _copied: i32 = has_copy;
}

/// A single mutable borrow of a string can change it in place.
pub fn mutable_ref() {
    let mut mut_hii = String::from_str("Hiiiii!");
    change(&mut mut_hii);
    proof {
        assert(mut_hii@ =~= "Hiiiii!"@ + " Wooold!!"@);
    }
}

} // verus!
