use balance_puzzle::balance::{compare_results, weigh, Balance, ResultComparison};
use balance_puzzle::mass::{setup_masses_with_odd, Mass, MassStatus, WeightClass};

fn mass(name: char, class: WeightClass) -> Mass {
    Mass { name, class, status: MassStatus::Unknown }
}

#[test]
fn weigh_two_empty_groups_is_balanced() {
    let left: Vec<Mass> = Vec::new();
    let right: Vec<Mass> = Vec::new();
    assert_eq!(weigh(&left, &right), Balance::Balanced);
}

#[test]
fn weigh_no_odd_on_either_side_is_balanced() {
    let left = vec![mass('A', WeightClass::Normal), mass('B', WeightClass::Normal)];
    let right = vec![mass('C', WeightClass::Normal), mass('D', WeightClass::Normal)];
    assert_eq!(weigh(&left, &right), Balance::Balanced);
}

#[test]
fn weigh_odd_on_left_only_is_left_heavy() {
    let left = vec![mass('A', WeightClass::Odd), mass('B', WeightClass::Normal)];
    let right = vec![mass('C', WeightClass::Normal), mass('D', WeightClass::Normal)];
    assert_eq!(weigh(&left, &right), Balance::LeftHeavy);
}

#[test]
fn weigh_odd_on_right_only_is_right_heavy() {
    let left = vec![mass('A', WeightClass::Normal), mass('B', WeightClass::Normal)];
    let right = vec![mass('C', WeightClass::Odd), mass('D', WeightClass::Normal)];
    assert_eq!(weigh(&left, &right), Balance::RightHeavy);
}

#[test]
fn weigh_equal_odd_counts_is_balanced() {
    // the evaluator compares units of oddness only, whatever the sizes
    let left = vec![mass('A', WeightClass::Odd)];
    let right = vec![
        mass('B', WeightClass::Odd),
        mass('C', WeightClass::Normal),
        mass('D', WeightClass::Normal),
    ];
    assert_eq!(weigh(&left, &right), Balance::Balanced);
}

#[test]
fn weigh_any_registry_group_against_empty() {
    for k in 0..12 {
        let masses = setup_masses_with_odd(k);
        let empty: Vec<Mass> = Vec::new();
        assert_eq!(weigh(&masses, &empty), Balance::LeftHeavy);
        assert_eq!(weigh(&empty, &masses), Balance::RightHeavy);
    }
}

#[test]
fn compare_second_balanced_dominates() {
    for x in [Balance::Balanced, Balance::LeftHeavy, Balance::RightHeavy] {
        assert!(matches!(
            compare_results(&x, &Balance::Balanced),
            ResultComparison::Balanced
        ));
    }
}

#[test]
fn compare_same_direction_is_same() {
    assert!(matches!(
        compare_results(&Balance::LeftHeavy, &Balance::LeftHeavy),
        ResultComparison::Same
    ));
    assert!(matches!(
        compare_results(&Balance::RightHeavy, &Balance::RightHeavy),
        ResultComparison::Same
    ));
}

#[test]
fn compare_reversed_direction_is_opposite() {
    assert!(matches!(
        compare_results(&Balance::LeftHeavy, &Balance::RightHeavy),
        ResultComparison::Opposite
    ));
    assert!(matches!(
        compare_results(&Balance::RightHeavy, &Balance::LeftHeavy),
        ResultComparison::Opposite
    ));
}

#[test]
fn compare_balanced_first_against_direction_is_opposite() {
    // a balanced first outcome never equals a directional second one
    assert!(matches!(
        compare_results(&Balance::Balanced, &Balance::LeftHeavy),
        ResultComparison::Opposite
    ));
}
