use balance_puzzle::balance::Balance;
use balance_puzzle::game::{manual_solve, solve, GameResult, ManualScript, SolveMethod, WeighingChoice};
use balance_puzzle::mass::setup_masses_with_odd;

fn script(w1: (&str, &str), w2: (&str, &str), w3: (&str, &str), guess: &str) -> ManualScript {
    ManualScript {
        weighings: vec![
            WeighingChoice { left: w1.0.to_string(), right: w1.1.to_string() },
            WeighingChoice { left: w2.0.to_string(), right: w2.1.to_string() },
            WeighingChoice { left: w3.0.to_string(), right: w3.1.to_string() },
        ],
        guess: guess.to_string(),
    }
}

#[test]
fn manual_session_reports_each_outcome() {
    let masses = setup_masses_with_odd(5);
    let s = script(("ABCD", "EFGH"), ("ABE", "CDF"), ("ED", "FB"), "f");
    let (outcomes, verdict) = manual_solve(&masses, &s);
    assert_eq!(
        outcomes,
        vec![Balance::RightHeavy, Balance::RightHeavy, Balance::RightHeavy]
    );
    assert_eq!(verdict, GameResult::Win);
}

#[test]
fn manual_session_wrong_guess_loses() {
    let masses = setup_masses_with_odd(5);
    let s = script(("ABCD", "EFGH"), ("ABE", "CDF"), ("ED", "FB"), "a");
    let (_, verdict) = manual_solve(&masses, &s);
    assert_eq!(verdict, GameResult::Lose);
}

#[test]
fn manual_guess_is_case_insensitive() {
    let masses = setup_masses_with_odd(0);
    let s = script(("A", "B"), ("", ""), ("AB", "CD"), "a");
    let (outcomes, verdict) = manual_solve(&masses, &s);
    assert_eq!(
        outcomes,
        vec![Balance::LeftHeavy, Balance::Balanced, Balance::LeftHeavy]
    );
    assert_eq!(verdict, GameResult::Win);
}

#[test]
fn solve_dispatches_to_manual() {
    let masses = setup_masses_with_odd(2);
    let winning = SolveMethod::Manual(script(("", ""), ("", ""), ("", ""), "C"));
    assert_eq!(solve(&winning, &masses), GameResult::Win);
    let losing = SolveMethod::Manual(script(("", ""), ("", ""), ("", ""), "D"));
    assert_eq!(solve(&losing, &masses), GameResult::Lose);
}

#[test]
fn solve_dispatches_to_auto() {
    for k in 0..12 {
        let masses = setup_masses_with_odd(k);
        assert_eq!(solve(&SolveMethod::Auto, &masses), GameResult::Win);
    }
}
