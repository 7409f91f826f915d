use balance_puzzle::balance::Balance;
use balance_puzzle::deduce::{confirmed_count, partition_for_weighing, Deduction};
use balance_puzzle::mass::{setup_masses_with_odd, MassStatus};

#[test]
fn fresh_session_has_three_weighings() {
    let d = Deduction::new(setup_masses_with_odd(4));
    assert_eq!(d.weighings_left, 3);
    assert!(d.solved.is_none());
    assert!(!d.lucky);
    assert!(!d.finished());
    assert_eq!(confirmed_count(&d.masses), 0);
}

#[test]
fn balanced_group_is_confirmed_normal() {
    let mut d = Deduction::new(setup_masses_with_odd(5));
    let (outcome, weighed, left_out) = d.step(2, 0);
    assert_eq!(outcome, Balance::Balanced);
    assert_eq!(weighed, vec![0, 1]);
    assert_eq!(left_out, (2..12).collect::<Vec<usize>>());
    assert_eq!(confirmed_count(&d.masses), 2);
    assert_eq!(d.masses[0].status, MassStatus::ConfirmedNormal);
    assert_eq!(d.masses[1].status, MassStatus::ConfirmedNormal);
    assert_eq!(d.masses[2].status, MassStatus::Unknown);
    assert_eq!(d.weighings_left, 2);
    assert!(d.solved.is_none());
}

#[test]
fn reconfirming_a_confirmed_group_changes_nothing() {
    // set semantics: a balanced weighing of already-confirmed masses
    // leaves the confirmed count exactly where it was
    let mut d = Deduction::new(setup_masses_with_odd(5));
    d.step(2, 0);
    assert_eq!(confirmed_count(&d.masses), 2);
    let (outcome, weighed, _) = d.step(2, 2);
    assert_eq!(outcome, Balance::Balanced);
    assert_eq!(weighed, vec![0, 1]);
    assert_eq!(confirmed_count(&d.masses), 2);
}

#[test]
fn unbalanced_group_confirms_the_left_out_masses() {
    let mut d = Deduction::new(setup_masses_with_odd(0));
    let (outcome, weighed, left_out) = d.step(2, 0);
    assert_eq!(outcome, Balance::LeftHeavy);
    assert_eq!(weighed, vec![0, 1]);
    assert_eq!(confirmed_count(&d.masses), 10);
    for i in left_out {
        assert_eq!(d.masses[i].status, MassStatus::ConfirmedNormal);
    }
    assert_eq!(d.masses[0].status, MassStatus::Unknown);
    assert_eq!(d.masses[1].status, MassStatus::Unknown);
    assert!(d.solved.is_none());
}

#[test]
fn lucky_pair_shortcut_names_the_odd_mass() {
    let mut d = Deduction::new(setup_masses_with_odd(0));
    d.step(2, 0);
    assert_eq!(confirmed_count(&d.masses), 10);
    // a pair of one confirmed and one suspect mass, unbalanced: the
    // suspect is the odd one, found before eleven confirmations
    let (outcome, weighed, _) = d.step(2, 1);
    assert_eq!(outcome, Balance::LeftHeavy);
    assert_eq!(weighed, vec![2, 0]);
    assert_eq!(d.solved, Some('A'));
    assert!(d.lucky);
    assert_eq!(confirmed_count(&d.masses), 10);
    assert!(d.finished());
}

#[test]
fn eleven_confirmations_isolate_the_odd_mass() {
    let mut d = Deduction::new(setup_masses_with_odd(11));
    let (outcome, _, _) = d.step(10, 0);
    assert_eq!(outcome, Balance::Balanced);
    assert_eq!(confirmed_count(&d.masses), 10);
    assert!(d.solved.is_none());
    let (outcome, weighed, _) = d.step(2, 1);
    assert_eq!(outcome, Balance::Balanced);
    assert_eq!(weighed, vec![0, 10]);
    assert_eq!(confirmed_count(&d.masses), 11);
    assert_eq!(d.solved, Some('L'));
    assert!(!d.lucky);
    assert!(d.finished());
}

#[test]
fn exhausted_weighings_finish_the_session_unsolved() {
    let mut d = Deduction::new(setup_masses_with_odd(11));
    d.step(2, 0);
    d.step(2, 2);
    assert!(!d.finished());
    d.step(2, 2);
    assert_eq!(d.weighings_left, 0);
    assert!(d.solved.is_none());
    assert!(d.finished());
}

#[test]
fn partition_prefers_confirmed_masses_in_order() {
    let mut d = Deduction::new(setup_masses_with_odd(0));
    d.step(2, 0);
    // confirmed: positions 2 through 11; unknown: 0 and 1
    let (weighed, left_out) = partition_for_weighing(&d.masses, 4, 2);
    assert_eq!(weighed, vec![2, 3, 0, 1]);
    assert_eq!(left_out, (4..12).collect::<Vec<usize>>());
}

#[test]
fn partition_of_a_fresh_registry_takes_the_first_masses() {
    let masses = setup_masses_with_odd(7);
    let (weighed, left_out) = partition_for_weighing(&masses, 6, 0);
    assert_eq!(weighed, (0..6).collect::<Vec<usize>>());
    assert_eq!(left_out, (6..12).collect::<Vec<usize>>());
}
