use tutorial_core::lessons::{enumerate, how_to_run, plus_one, return_five, writing_tests};
use tutorial_core::ownership::{cal_len, copy, fun_and_ownership, mutable_ref, nusumu};
use tutorial_core::webdev::{
    add_to_waitlist, add_to_waitlist_ii, browse, eat_at_restaurant, eat_at_restaurant_ii,
    eat_at_restaurant_iii, eat_at_restaurant_iv, eat_at_restaurant_v, show_icon, Appetizer,
    Breakfast,
};

#[test]
fn return_five_returns_five() {
    assert_eq!(5, return_five());
}

#[test]
fn plus_one_adds_one() {
    assert_eq!(17, plus_one(16));
}

#[test]
fn one_function_lessons_run() {
    enumerate();
    tutorial_core::lessons::panic();
    writing_tests();
    how_to_run();
}

#[test]
fn nusumu_moves_the_value_through() {
    let zaysan = String::from("たいせつな財産");
    assert_eq!(nusumu(zaysan), "たいせつな財産");
}

#[test]
fn copy_returns_original_and_duplicate() {
    let (original, duplicate) = copy(String::from("岩倉具視入門書"));
    assert_eq!(original, duplicate);
    assert_eq!(original, "岩倉具視入門書");
}

#[test]
fn cal_len_counts_bytes() {
    assert_eq!(7, cal_len(&String::from("Hiiiii!")));
    assert_eq!(4, cal_len(&String::from("Hola")));
    assert_eq!(24, cal_len(&String::from("Здравствуйте")));
}

#[test]
fn ownership_walkthroughs_run() {
    fun_and_ownership();
    mutable_ref();
}

#[test]
fn summer_breakfast_has_peaches_and_chosen_toast() {
    let mut meal = Breakfast::summer("Rye");
    assert_eq!(meal.toast, "Rye");
    meal.toast = String::from("Wheat");
    assert_eq!(meal.toast, "Wheat");
}

#[test]
fn appetizers_can_be_ordered() {
    let order1 = Appetizer::Soup;
    let order2 = Appetizer::Salad;
    assert!(matches!(order1, Appetizer::Soup));
    assert!(matches!(order2, Appetizer::Salad));
}

#[test]
fn restaurant_walkthroughs_run() {
    show_icon();
    browse();
    add_to_waitlist();
    add_to_waitlist_ii();
    eat_at_restaurant();
    eat_at_restaurant_ii();
    eat_at_restaurant_iii();
    eat_at_restaurant_iv();
    eat_at_restaurant_v();
}
