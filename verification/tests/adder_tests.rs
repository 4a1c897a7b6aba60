use tutorial_core::adder::{add_two, add_two_iii, greeting, Rectangle};

#[test]
fn larger_can_hold_smaller() {
    let larger = Rectangle { width: 8, height: 7 };
    let smaller = Rectangle { width: 5, height: 1 };
    assert!(larger.can_hold(&smaller));
}

#[test]
fn smaller_cannot_hold_larger() {
    let larger = Rectangle { width: 8, height: 7 };
    let smaller = Rectangle { width: 5, height: 1 };
    assert!(!smaller.can_hold(&larger));
}

#[test]
fn lib_it_adds_two() {
    assert_eq!(4, add_two(2));
}

#[test]
fn greeting_contains_name() {
    let result = greeting("もるか");
    assert!(result.contains("もるか"));
}

#[test]
fn it_works_ii() -> Result<(), String> {
    if true {
        Ok(())
    } else {
        Err(String::from("Error!!!"))
    }
}

#[test]
fn add_two_and_two() {
    assert_eq!(4, add_two_iii(2));
}

#[test]
fn add_three_and_two() {
    assert_eq!(5, add_two_iii(3));
}

#[test]
fn one_hundred() {
    assert_eq!(102, add_two_iii(100));
}

#[test]
fn integration_test_it_adds_two() {
    assert_eq!(4, add_two(2));
}

#[test]
fn greeting_exact_text() {
    assert_eq!("こんちゃ Ferris!", greeting("Ferris"));
}

#[test]
fn greeting_ii_ignores_name() {
    assert_eq!("こんちゃ!", tutorial_core::adder::greeting_ii("もるか"));
}

#[test]
fn guesses_can_be_built_in_range() {
    let _in_range = tutorial_core::adder::Guess::new(50);
    let _unchecked = tutorial_core::adder::GuessII::new(256);
    let _split_check = tutorial_core::adder::GuessIII::new(100);
    let _loosened = tutorial_core::adder::GuessIV::new(512);
}

#[test]
fn can_hold_ii_is_flipped() {
    let larger = Rectangle { width: 8, height: 7 };
    let smaller = Rectangle { width: 5, height: 1 };
    assert!(smaller.can_hold_ii(&larger));
    assert!(!larger.can_hold_ii(&smaller));
}

#[test]
fn add_two_ii_adds_three() {
    assert_eq!(5, tutorial_core::adder::add_two_ii(2));
}
