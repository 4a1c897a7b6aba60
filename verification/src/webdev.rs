//! A restaurant front-of-house walkthrough: paths, visibility, and a
//! breakfast order.

use vstd::prelude::*;
use vstd::string::StringExecFns;

verus! {

/// Draws the site icon. Nothing to compute yet.
pub fn show_icon() {
}

/// Visits the front end, drawing the icon through an absolute and a
/// relative path.
pub fn browse() {
    show_icon();
    show_icon();
}

/// A breakfast order: the toast may be chosen, the seasonal fruit is
/// the kitchen's pick.
pub struct Breakfast {
    pub toast: String,
    seasonal_fruit: String,
}

impl Breakfast {
    /// The chosen toast.
    pub closed spec fn spec_toast(&self) -> Seq<char> {
        self.toast@
    }

    /// The kitchen's fruit pick, which a customer can see but never
    /// change.
    pub closed spec fn spec_seasonal_fruit(&self) -> Seq<char> {
        self.seasonal_fruit@
    }

    /// The summer menu: any toast, always peaches.
    pub fn summer(toast: &str) -> (r: Breakfast)
        ensures
            r.spec_toast() == toast@,
            r.spec_seasonal_fruit() == "peaches"@,
    {
        Breakfast { toast: String::from_str(toast), seasonal_fruit: String::from_str("peaches") }
    }
}

/// A starter: soup or salad.
pub enum Appetizer {
    Soup,
    Salad,
}

/// Orders one of each starter.
pub fn eat_at_restaurant_ii() {
    let _order1 = Appetizer::Soup;
    let _order2 = Appetizer::Salad;
}

/// Puts a party on the waiting list.
pub fn add_to_waitlist() {
}

/// Joins the waiting list three times over.
pub fn eat_at_restaurant_iii() {
    add_to_waitlist();
    add_to_waitlist();
    add_to_waitlist();
}

/// Puts a party on the waiting list, reached by a relative path.
pub fn add_to_waitlist_ii() {
}

/// Joins the waiting list through the relative-path module.
pub fn eat_at_restaurant_iv() {
    add_to_waitlist_ii();
}

/// Joins the waiting list through the re-exported module.
pub fn eat_at_restaurant_v() {
    add_to_waitlist();
}

/// Joins the waiting list through the out-of-line module.
pub fn eat_at_restaurant() {
    add_to_waitlist();
}

} // verus!
