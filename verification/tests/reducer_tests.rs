use tutorial_core::errors::EmptyInputError;
use tutorial_core::reducer::{largest, largest_ref};

#[test]
fn largest_of_numbers() {
    assert_eq!(largest(&[86, 32, 64, 12, 0]), Ok(86));
}

#[test]
fn largest_of_characters() {
    assert_eq!(largest(&['x', 'y', 'z', 'a', 'b', 'c']), Ok('z'));
}

#[test]
fn largest_is_permutation_invariant() {
    assert_eq!(largest(&[12, 86, 0, 64, 32]), Ok(86));
    assert_eq!(largest(&[0, 12, 32, 64, 86]), Ok(86));
    assert_eq!(largest(&[86, 64, 32, 12, 0]), Ok(86));
}

#[test]
fn largest_handles_duplicated_maximum() {
    assert_eq!(largest(&[3, 7, 7, 2]), Ok(7));
}

#[test]
fn largest_of_empty_input_is_refused() {
    let empty: [i32; 0] = [];
    assert_eq!(largest(&empty), Err(EmptyInputError));
    assert_eq!(largest_ref(&empty), Err(EmptyInputError));
}

#[test]
fn largest_ref_borrows_the_winner() {
    let words = [String::from("pear"), String::from("apple"), String::from("fig")];
    let winner = largest_ref(&words).unwrap();
    assert_eq!(winner, "pear");
    assert_eq!(words.len(), 3);
}

#[test]
fn largest_of_negative_numbers() {
    assert_eq!(largest(&[-5, -2, -9]), Ok(-2));
}
