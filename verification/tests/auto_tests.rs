use balance_puzzle::auto::{auto_guess, ez_measure};
use balance_puzzle::balance::Balance;
use balance_puzzle::game::{auto_solve, GameResult};
use balance_puzzle::mass::{setup_masses, setup_masses_with_odd};

const LABELS: [char; 12] = ['A', 'B', 'C', 'D', 'E', 'F', 'G', 'H', 'I', 'J', 'K', 'L'];

#[test]
fn decision_tree_names_every_hidden_placement() {
    // round trip: ground truth -> decision tree -> the same label
    for k in 0..12 {
        let masses = setup_masses_with_odd(k);
        let (guess, _log) = auto_guess(&masses);
        assert_eq!(guess, LABELS[k]);
    }
}

#[test]
fn decision_tree_is_deterministic() {
    for k in 0..12 {
        let masses = setup_masses_with_odd(k);
        let (first, first_log) = auto_guess(&masses);
        let (second, second_log) = auto_guess(&masses);
        assert_eq!(first, second);
        assert_eq!(first_log.len(), second_log.len());
        for (a, b) in first_log.iter().zip(second_log.iter()) {
            assert_eq!(a.left, b.left);
            assert_eq!(a.right, b.right);
            assert_eq!(a.outcome, b.outcome);
        }
    }
}

#[test]
fn auto_session_always_wins() {
    for k in 0..12 {
        let masses = setup_masses_with_odd(k);
        let (_log, guess, verdict) = auto_solve(&masses);
        assert_eq!(guess, LABELS[k]);
        assert_eq!(verdict, GameResult::Win);
    }
}

#[test]
fn auto_session_on_random_registry_wins() {
    let masses = setup_masses();
    let (_log, _guess, verdict) = auto_solve(&masses);
    assert_eq!(verdict, GameResult::Win);
}

#[test]
fn scenario_odd_f_three_right_heavy_weighings() {
    let masses = setup_masses_with_odd(5);
    assert_eq!(ez_measure(&masses, "ABCD", "EFGH"), Balance::RightHeavy);
    assert_eq!(ez_measure(&masses, "ABE", "CDF"), Balance::RightHeavy);
    assert_eq!(ez_measure(&masses, "ED", "FB"), Balance::RightHeavy);
    let (guess, log) = auto_guess(&masses);
    assert_eq!(guess, 'F');
    assert_eq!(log.len(), 3);
    assert_eq!(log[0].left, "ABCD");
    assert_eq!(log[0].right, "EFGH");
    assert_eq!(log[0].outcome, Balance::RightHeavy);
    assert_eq!(log[1].left, "ABE");
    assert_eq!(log[1].right, "CDF");
    assert_eq!(log[1].outcome, Balance::RightHeavy);
    assert_eq!(log[2].left, "ED");
    assert_eq!(log[2].right, "FB");
    assert_eq!(log[2].outcome, Balance::RightHeavy);
}

#[test]
fn scenario_odd_l_two_balanced_weighings_suffice() {
    let masses = setup_masses_with_odd(11);
    assert_eq!(ez_measure(&masses, "ABCD", "EFGH"), Balance::Balanced);
    assert_eq!(ez_measure(&masses, "IJ", "KA"), Balance::Balanced);
    let (guess, log) = auto_guess(&masses);
    assert_eq!(guess, 'L');
    assert_eq!(log.len(), 2);
    assert_eq!(log[0].outcome, Balance::Balanced);
    assert_eq!(log[1].left, "IJ");
    assert_eq!(log[1].right, "KA");
    assert_eq!(log[1].outcome, Balance::Balanced);
}

#[test]
fn measured_outcomes_track_the_odd_side() {
    let masses = setup_masses_with_odd(0);
    assert_eq!(ez_measure(&masses, "ABCD", "EFGH"), Balance::LeftHeavy);
    assert_eq!(ez_measure(&masses, "EFGH", "ABCD"), Balance::RightHeavy);
    assert_eq!(ez_measure(&masses, "IJKL", "EFGH"), Balance::Balanced);
}
