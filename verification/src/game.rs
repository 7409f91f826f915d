//! Whole solve sessions: the scripted manual loop, the automatic solver,
//! and the dispatcher between the two.

use vstd::prelude::*;

use crate::auto::{auto_guess, ez_measure, log_matches, measure_spec, planned_weighings, WeighingRecord};
use crate::balance::Balance;
use crate::mass::{label_of, odd_at, Mass};
use crate::select::{answer_spec, check_guess, get_answer, lemma_answer_odd_at, unicode_upper};

verus! {

use vstd::string::StrSliceExecFns;

/// Verdict of one solve session.
#[derive(Clone, Copy, Debug, PartialEq, Eq, Structural)]
pub enum GameResult {
    Win,
    Lose,
}

/// The label strings a player puts on the two pans for one weighing.
pub struct WeighingChoice {
    pub left: String,
    pub right: String,
}

/// A full manual session written down in advance: three weighing choices
/// and the final guess for the odd mass.
pub struct ManualScript {
    pub weighings: Vec<WeighingChoice>,
    pub guess: String,
}

/// How a session is solved: by a scripted manual player or by the fixed
/// decision tree.
pub enum SolveMethod {
    Manual(ManualScript),
    Auto,
}

/// Play a manual session: perform the script's three weighings, then
/// compare the scripted guess case-insensitively against the answer.
/// Returns the three outcomes, for display, and the verdict.
pub fn manual_solve(masses: &Vec<Mass>, script: &ManualScript) -> (r: (Vec<Balance>, GameResult))
    requires
        script.weighings@.len() == 3,
    ensures
        r.0@.len() == 3,
        forall|i: int|
            0 <= i < 3 ==> r.0@[i] == measure_spec(
                masses@,
                script.weighings@[i].left@,
                script.weighings@[i].right@,
            ),
        (r.1 == GameResult::Win) <==> unicode_upper(script.guess@) == answer_spec(masses@),
{
    let mut outcomes: Vec<Balance> = Vec::new();
    let mut measurements: usize = 3;
    while measurements > 0
        invariant
            measurements <= 3,
            script.weighings@.len() == 3,
            outcomes@.len() == 3 - measurements,
            forall|i: int|
                0 <= i < outcomes@.len() ==> outcomes@[i] == measure_spec(
                    masses@,
                    script.weighings@[i].left@,
                    script.weighings@[i].right@,
                ),
        decreases measurements,
    {
        let idx = 3 - measurements;
        let choice = &script.weighings[idx];
        let outcome = ez_measure(masses, choice.left.as_str(), choice.right.as_str());
        outcomes.push(outcome);
        measurements -= 1;
    }
    if check_guess(masses, script.guess.as_str()) {
        (outcomes, GameResult::Win)
    } else {
        (outcomes, GameResult::Lose)
    }
}

/// Play an automatic session: run the decision tree on the registry and
/// hold its guess against the registry's answer. On a well-formed
/// registry the tree names the odd mass, so the session is always won.
/// Returns the weighings performed — exactly the planned ones for the
/// odd mass's position — with the guessed label and the verdict.
pub fn auto_solve(masses: &Vec<Mass>) -> (r: (Vec<WeighingRecord>, char, GameResult))
    requires
        exists|k: int| odd_at(masses@, k),
    ensures
        forall|k: int| odd_at(masses@, k) ==> r.1 == label_of(k),
        forall|k: int| odd_at(masses@, k) ==> log_matches(r.0@, planned_weighings(k)),
        r.2 == GameResult::Win,
        1 <= r.0@.len() <= 3,
        forall|i: int|
            0 <= i < r.0@.len() ==> (#[trigger] r.0@[i]).outcome == measure_spec(
                masses@,
                r.0@[i].left@,
                r.0@[i].right@,
            ),
{
    let (final_result, log) = auto_guess(masses);
    let answer = get_answer(masses);
    proof {
        let k = choose|k: int| odd_at(masses@, k);
        lemma_answer_odd_at(masses@, k);
    }
    if answer.as_str().unicode_len() == 1 && final_result == answer.as_str().get_char(0) {
        (log, final_result, GameResult::Win)
    } else {
        (log, final_result, GameResult::Lose)
    }
}

/// Solve one session with the chosen method.
pub fn solve(method: &SolveMethod, masses: &Vec<Mass>) -> (r: GameResult)
    requires
        method matches SolveMethod::Manual(script) ==> script.weighings@.len() == 3,
        method is Auto ==> exists|k: int| odd_at(masses@, k),
    ensures
        method matches SolveMethod::Manual(script) ==> ((r == GameResult::Win) <==> unicode_upper(
            script.guess@,
        ) == answer_spec(masses@)),
        method is Auto ==> r == GameResult::Win,
{
    match method {
        SolveMethod::Manual(script) => manual_solve(masses, script).1,
        SolveMethod::Auto => auto_solve(masses).2,
    }
}

} // verus!
