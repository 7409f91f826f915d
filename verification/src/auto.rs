//! The fixed three-weighing decision tree over the labels 'A' through
//! 'L'. Whatever position the odd mass hides in, the tree performs the
//! planned weighings for that position and its guess names exactly that
//! mass.

use vstd::prelude::*;

use crate::balance::{weigh, weigh_spec, compare_results, compare_spec, Balance, ResultComparison};
use crate::mass::{label_of, lemma_label_of, odd_at, Mass};
use crate::select::{
    ascii_seq, find_idx, is_unicode_letter, lemma_find_idx, select_core_spec, select_masses,
    select_spec, unicode_upper, upper_seq,
};

verus! {

/// Outcome of weighing the two groups that a pair of selection strings
/// picks out of a registry.
pub open spec fn measure_spec(masses: Seq<Mass>, left: Seq<char>, right: Seq<char>) -> Balance {
    weigh_spec(select_spec(masses, left), select_spec(masses, right))
}

/// A sequence that avoids `c` at every position does not contain it.
proof fn lemma_not_contains(s: Seq<char>, c: char)
    requires
        forall|i: int| 0 <= i < s.len() ==> (#[trigger] s[i]) != c,
    ensures
        !s.contains(c),
{
}

/// Membership in a sequence, read off its last element and the rest.
proof fn lemma_contains_step(s: Seq<char>, c: char)
    requires
        s.len() > 0,
    ensures
        s.contains(c) <==> (s.drop_last().contains(c) || s.last() == c),
{
    if s.contains(c) {
        let w = choose|w: int| 0 <= w < s.len() && (#[trigger] s[w]) == c;
        if w < s.len() - 1 {
            assert(s.drop_last()[w] == c);
        }
    }
    if s.drop_last().contains(c) {
        let w = choose|w: int| 0 <= w < s.drop_last().len() && (#[trigger] s.drop_last()[w]) == c;
        assert(s[w] == c);
    }
    if s.last() == c {
        assert(s[s.len() - 1] == c);
    }
}

/// On a registry with the odd mass at `k`, an uppercased selection picks
/// the odd mass exactly once when its label occurs in the selection, and
/// never otherwise: repeated occurrences are dropped.
proof fn lemma_select_units(s: Seq<Mass>, k: int, up: Seq<char>)
    requires
        odd_at(s, k),
    ensures
        crate::balance::odd_units(select_core_spec(s, up)) == (if up.contains(label_of(k)) {
            1int
        } else {
            0int
        }),
    decreases up.len(),
{
    lemma_label_of(k);
    if up.len() > 0 {
        lemma_select_units(s, k, up.drop_last());
        let pre = select_core_spec(s, up.drop_last());
        let c = up.last();
        lemma_find_idx(s, c);
        lemma_contains_step(up, label_of(k));
        let f = find_idx(s, c);
        if is_unicode_letter(c) && f >= 0 && !up.drop_last().contains(c) {
            assert(select_core_spec(s, up).drop_last() =~= pre);
            assert(select_core_spec(s, up).last() == s[f]);
            // the picked mass is odd exactly when its label is the odd one's
            if f != k {
                lemma_label_of(f);
            }
        } else {
            // the odd mass's label is an ASCII letter and is always found,
            // so on that label only the duplicate guard can fail
            if c == label_of(k) {
                assert(s[k].name == c);
            }
        }
    }
}

/// Outcomes of the six weighings the decision tree can perform, for every
/// position `k` the odd mass may hide in.
proof fn lemma_measure_table(s: Seq<Mass>, k: int)
    requires
        odd_at(s, k),
    ensures
        measure_spec(s, "ABCD"@, "EFGH"@) == (if k < 4 {
            Balance::LeftHeavy
        } else if k < 8 {
            Balance::RightHeavy
        } else {
            Balance::Balanced
        }),
        measure_spec(s, "IJ"@, "KA"@) == (if k == 8 || k == 9 {
            Balance::LeftHeavy
        } else if k == 10 || k == 0 {
            Balance::RightHeavy
        } else {
            Balance::Balanced
        }),
        measure_spec(s, "JK"@, "AB"@) == (if k == 9 || k == 10 {
            Balance::LeftHeavy
        } else if k == 0 || k == 1 {
            Balance::RightHeavy
        } else {
            Balance::Balanced
        }),
        measure_spec(s, "ABE"@, "CDF"@) == (if k == 0 || k == 1 || k == 4 {
            Balance::LeftHeavy
        } else if k == 2 || k == 3 || k == 5 {
            Balance::RightHeavy
        } else {
            Balance::Balanced
        }),
        measure_spec(s, "G"@, "I"@) == (if k == 6 {
            Balance::LeftHeavy
        } else if k == 8 {
            Balance::RightHeavy
        } else {
            Balance::Balanced
        }),
        measure_spec(s, "ED"@, "FB"@) == (if k == 4 || k == 3 {
            Balance::LeftHeavy
        } else if k == 5 || k == 1 {
            Balance::RightHeavy
        } else {
            Balance::Balanced
        }),
{
    lemma_label_of(k);
    let c = label_of(k);
    reveal_strlit("ABCD");
    reveal_strlit("EFGH");
    reveal_strlit("IJ");
    reveal_strlit("KA");
    reveal_strlit("JK");
    reveal_strlit("AB");
    reveal_strlit("ABE");
    reveal_strlit("CDF");
    reveal_strlit("G");
    reveal_strlit("I");
    reveal_strlit("ED");
    reveal_strlit("FB");
    assert(ascii_seq("ABCD"@) && unicode_upper("ABCD"@) =~= "ABCD"@);
    assert(ascii_seq("EFGH"@) && unicode_upper("EFGH"@) =~= "EFGH"@);
    assert(ascii_seq("IJ"@) && unicode_upper("IJ"@) =~= "IJ"@);
    assert(ascii_seq("KA"@) && unicode_upper("KA"@) =~= "KA"@);
    assert(ascii_seq("JK"@) && unicode_upper("JK"@) =~= "JK"@);
    assert(ascii_seq("AB"@) && unicode_upper("AB"@) =~= "AB"@);
    assert(ascii_seq("ABE"@) && unicode_upper("ABE"@) =~= "ABE"@);
    assert(ascii_seq("CDF"@) && unicode_upper("CDF"@) =~= "CDF"@);
    assert(ascii_seq("G"@) && unicode_upper("G"@) =~= "G"@);
    assert(ascii_seq("I"@) && unicode_upper("I"@) =~= "I"@);
    assert(ascii_seq("ED"@) && unicode_upper("ED"@) =~= "ED"@);
    assert(ascii_seq("FB"@) && unicode_upper("FB"@) =~= "FB"@);
    lemma_select_units(s, k, "ABCD"@);
    lemma_select_units(s, k, "EFGH"@);
    lemma_select_units(s, k, "IJ"@);
    lemma_select_units(s, k, "KA"@);
    lemma_select_units(s, k, "JK"@);
    lemma_select_units(s, k, "AB"@);
    lemma_select_units(s, k, "ABE"@);
    lemma_select_units(s, k, "CDF"@);
    lemma_select_units(s, k, "G"@);
    lemma_select_units(s, k, "I"@);
    lemma_select_units(s, k, "ED"@);
    lemma_select_units(s, k, "FB"@);
    assert("ABCD"@.contains(c) == (0 <= k < 4)) by {
        if 0 <= k < 4 {
            assert("ABCD"@[k] == c);
        } else {
            lemma_not_contains("ABCD"@, c);
        }
    }
    assert("EFGH"@.contains(c) == (4 <= k < 8)) by {
        if 4 <= k < 8 {
            assert("EFGH"@[k - 4] == c);
        } else {
            lemma_not_contains("EFGH"@, c);
        }
    }
    assert("IJ"@.contains(c) == (k == 8 || k == 9)) by {
        if k == 8 || k == 9 {
            assert("IJ"@[k - 8] == c);
        } else {
            lemma_not_contains("IJ"@, c);
        }
    }
    assert("KA"@.contains(c) == (k == 10 || k == 0)) by {
        if k == 10 {
            assert("KA"@[0] == c);
        } else if k == 0 {
            assert("KA"@[1] == c);
        } else {
            lemma_not_contains("KA"@, c);
        }
    }
    assert("JK"@.contains(c) == (k == 9 || k == 10)) by {
        if k == 9 || k == 10 {
            assert("JK"@[k - 9] == c);
        } else {
            lemma_not_contains("JK"@, c);
        }
    }
    assert("AB"@.contains(c) == (k == 0 || k == 1)) by {
        if k == 0 || k == 1 {
            assert("AB"@[k] == c);
        } else {
            lemma_not_contains("AB"@, c);
        }
    }
    assert("ABE"@.contains(c) == (k == 0 || k == 1 || k == 4)) by {
        if k == 0 || k == 1 {
            assert("ABE"@[k] == c);
        } else if k == 4 {
            assert("ABE"@[2] == c);
        } else {
            lemma_not_contains("ABE"@, c);
        }
    }
    assert("CDF"@.contains(c) == (k == 2 || k == 3 || k == 5)) by {
        if k == 2 || k == 3 {
            assert("CDF"@[k - 2] == c);
        } else if k == 5 {
            assert("CDF"@[2] == c);
        } else {
            lemma_not_contains("CDF"@, c);
        }
    }
    assert("G"@.contains(c) == (k == 6)) by {
        if k == 6 {
            assert("G"@[0] == c);
        } else {
            lemma_not_contains("G"@, c);
        }
    }
    assert("I"@.contains(c) == (k == 8)) by {
        if k == 8 {
            assert("I"@[0] == c);
        } else {
            lemma_not_contains("I"@, c);
        }
    }
    assert("ED"@.contains(c) == (k == 4 || k == 3)) by {
        if k == 4 {
            assert("ED"@[0] == c);
        } else if k == 3 {
            assert("ED"@[1] == c);
        } else {
            lemma_not_contains("ED"@, c);
        }
    }
    assert("FB"@.contains(c) == (k == 5 || k == 1)) by {
        if k == 5 {
            assert("FB"@[0] == c);
        } else if k == 1 {
            assert("FB"@[1] == c);
        } else {
            lemma_not_contains("FB"@, c);
        }
    }
}

/// One weighing the decision tree performed: the two selection strings
/// and the outcome, kept so that a caller can display the steps.
pub struct WeighingRecord {
    pub left: String,
    pub right: String,
    pub outcome: Balance,
}

/// The weighings the decision tree performs when the odd mass sits at
/// position `k`: the selection strings and the outcome of each step, in
/// order. Two weighings suffice for position 11 ('L'); every other
/// position takes three.
pub open spec fn planned_weighings(k: int) -> Seq<(Seq<char>, Seq<char>, Balance)> {
    if 8 <= k {
        if k == 11 {
            seq![("ABCD"@, "EFGH"@, Balance::Balanced), ("IJ"@, "KA"@, Balance::Balanced)]
        } else {
            seq![
                ("ABCD"@, "EFGH"@, Balance::Balanced),
                (
                    "IJ"@,
                    "KA"@,
                    if k == 10 {
                        Balance::RightHeavy
                    } else {
                        Balance::LeftHeavy
                    },
                ),
                (
                    "JK"@,
                    "AB"@,
                    if k == 8 {
                        Balance::Balanced
                    } else {
                        Balance::LeftHeavy
                    },
                ),
            ]
        }
    } else {
        let first = (
            "ABCD"@,
            "EFGH"@,
            if k < 4 {
                Balance::LeftHeavy
            } else {
                Balance::RightHeavy
            },
        );
        if k == 6 || k == 7 {
            seq![
                first,
                ("ABE"@, "CDF"@, Balance::Balanced),
                (
                    "G"@,
                    "I"@,
                    if k == 6 {
                        Balance::LeftHeavy
                    } else {
                        Balance::Balanced
                    },
                ),
            ]
        } else {
            seq![
                first,
                (
                    "ABE"@,
                    "CDF"@,
                    if k == 0 || k == 1 || k == 4 {
                        Balance::LeftHeavy
                    } else {
                        Balance::RightHeavy
                    },
                ),
                (
                    "ED"@,
                    "FB"@,
                    if k == 3 || k == 4 {
                        Balance::LeftHeavy
                    } else if k == 1 || k == 5 {
                        Balance::RightHeavy
                    } else {
                        Balance::Balanced
                    },
                ),
            ]
        }
    }
}

/// Whether a log of weighings follows a plan: the same number of steps,
/// and at each step the same selection strings and the same outcome.
pub open spec fn log_matches(
    log: Seq<WeighingRecord>,
    plan: Seq<(Seq<char>, Seq<char>, Balance)>,
) -> bool {
    &&& log.len() == plan.len()
    &&& forall|i: int|
        0 <= i < log.len() ==> (#[trigger] log[i]).left@ == plan[i].0 && log[i].right@ == plan[i].1
            && log[i].outcome == plan[i].2
}

/// Select the two groups a pair of label strings names and weigh them.
pub fn ez_measure(masses: &Vec<Mass>, left: &str, right: &str) -> (r: Balance)
    ensures
        r == measure_spec(masses@, left@, right@),
{
    let left_side = select_masses(masses, left);
    let right_side = select_masses(masses, right);
    weigh(&left_side, &right_side)
}

/// Select the two groups, weigh them, and note the weighing down.
fn measure_logged(masses: &Vec<Mass>, left: &str, right: &str, log: &mut Vec<WeighingRecord>) -> (r:
    Balance)
    ensures
        r == measure_spec(masses@, left@, right@),
        final(log)@.len() == old(log)@.len() + 1,
        forall|i: int| 0 <= i < old(log)@.len() ==> (#[trigger] final(log)@[i]) == old(log)@[i],
        final(log)@.last().left@ == left@,
        final(log)@.last().right@ == right@,
        final(log)@.last().outcome == r,
{
    let outcome = ez_measure(masses, left, right);
    log.push(WeighingRecord { left: left.to_owned(), right: right.to_owned(), outcome });
    outcome
}

/// Run the fixed decision tree: up to three predetermined weighings whose
/// outcomes, composed through the comparator, single out one label. On a
/// well-formed registry the guess is exactly the odd mass's label, and
/// the weighings performed — which come back with the guess — are
/// exactly the planned ones for that placement.
///
/// In the all-balanced branch the comparator result for the pair J, K is
/// read as: a repeated direction names J, a reversed one names K. The
/// contract proves this convention right for these weighings.
pub fn auto_guess(masses: &Vec<Mass>) -> (r: (char, Vec<WeighingRecord>))
    ensures
        forall|k: int| odd_at(masses@, k) ==> r.0 == label_of(k),
        forall|k: int| odd_at(masses@, k) ==> log_matches(r.1@, planned_weighings(k)),
        1 <= r.1@.len() <= 3,
        forall|i: int|
            0 <= i < r.1@.len() ==> (#[trigger] r.1@[i]).outcome == measure_spec(
                masses@,
                r.1@[i].left@,
                r.1@[i].right@,
            ),
{
    let mut log: Vec<WeighingRecord> = Vec::new();
    let c = auto_guess_steps(masses, &mut log);
    (c, log)
}

/// The decision tree proper, writing each weighing into the log.
fn auto_guess_steps(masses: &Vec<Mass>, log: &mut Vec<WeighingRecord>) -> (c: char)
    requires
        old(log)@.len() == 0,
    ensures
        forall|k: int| odd_at(masses@, k) ==> c == label_of(k),
        forall|k: int| odd_at(masses@, k) ==> log_matches(final(log)@, planned_weighings(k)),
        1 <= final(log)@.len() <= 3,
        forall|i: int|
            0 <= i < final(log)@.len() ==> (#[trigger] final(log)@[i]).outcome == measure_spec(
                masses@,
                final(log)@[i].left@,
                final(log)@[i].right@,
            ),
{
    let result_1 = measure_logged(masses, "ABCD", "EFGH", log);
    match result_1 {
        Balance::Balanced => {
            // the odd mass is among I, J, K, L
            let result_2 = measure_logged(masses, "IJ", "KA", log);
            match result_2 {
                Balance::Balanced => {
                    proof {
                        assert(log@.len() == 2);
                        assert(log@[0].left@ == "ABCD"@ && log@[0].right@ == "EFGH"@ && log@[0].outcome
                            == result_1);
                        assert(log@[1].left@ == "IJ"@ && log@[1].right@ == "KA"@ && log@[1].outcome
                            == result_2);
                        assert forall|k: int| odd_at(masses@, k) implies 'L' == label_of(k)
                            && log_matches(log@, planned_weighings(k)) by {
                            lemma_measure_table(masses@, k);
                            lemma_label_of(k);
                        }
                    }
                    'L'
                },
                _ => {
                    let result_3 = measure_logged(masses, "JK", "AB", log);
                    let comparison = compare_results(&result_2, &result_3);
                    proof {
                        assert(log@.len() == 3);
                        assert(log@[0].left@ == "ABCD"@ && log@[0].right@ == "EFGH"@ && log@[0].outcome
                            == result_1);
                        assert(log@[1].left@ == "IJ"@ && log@[1].right@ == "KA"@ && log@[1].outcome
                            == result_2);
                        assert(log@[2].left@ == "JK"@ && log@[2].right@ == "AB"@ && log@[2].outcome
                            == result_3);
                        assert forall|k: int| odd_at(masses@, k) implies (comparison
                            == ResultComparison::Balanced ==> 'I' == label_of(k)) && (comparison
                            == ResultComparison::Same ==> 'J' == label_of(k)) && (comparison
                            == ResultComparison::Opposite ==> 'K' == label_of(k)) && log_matches(
                            log@,
                            planned_weighings(k),
                        ) by {
                            lemma_measure_table(masses@, k);
                            lemma_label_of(k);
                        }
                    }
                    match comparison {
                        ResultComparison::Balanced => 'I',
                        ResultComparison::Same => 'J',
                        ResultComparison::Opposite => 'K',
                    }
                },
            }
        },
        _ => {
            // the odd mass is among A through H
            let result_2 = measure_logged(masses, "ABE", "CDF", log);
            match result_2 {
                Balance::Balanced => {
                    // the odd mass is G or H; I is known normal
                    let result_3 = measure_logged(masses, "G", "I", log);
                    proof {
                        assert(log@.len() == 3);
                        assert(log@[0].left@ == "ABCD"@ && log@[0].right@ == "EFGH"@ && log@[0].outcome
                            == result_1);
                        assert(log@[1].left@ == "ABE"@ && log@[1].right@ == "CDF"@ && log@[1].outcome
                            == result_2);
                        assert(log@[2].left@ == "G"@ && log@[2].right@ == "I"@ && log@[2].outcome
                            == result_3);
                        assert forall|k: int| odd_at(masses@, k) implies (result_3
                            == Balance::Balanced ==> 'H' == label_of(k)) && (result_3
                            != Balance::Balanced ==> 'G' == label_of(k)) && log_matches(
                            log@,
                            planned_weighings(k),
                        ) by {
                            lemma_measure_table(masses@, k);
                            lemma_label_of(k);
                        }
                    }
                    match result_3 {
                        Balance::Balanced => 'H',
                        _ => 'G',
                    }
                },
                _ => {
                    let result_3 = measure_logged(masses, "ED", "FB", log);
                    let comparisons = (
                        compare_results(&result_1, &result_2),
                        compare_results(&result_2, &result_3),
                    );
                    proof {
                        assert(log@.len() == 3);
                        assert(log@[0].left@ == "ABCD"@ && log@[0].right@ == "EFGH"@ && log@[0].outcome
                            == result_1);
                        assert(log@[1].left@ == "ABE"@ && log@[1].right@ == "CDF"@ && log@[1].outcome
                            == result_2);
                        assert(log@[2].left@ == "ED"@ && log@[2].right@ == "FB"@ && log@[2].outcome
                            == result_3);
                        assert forall|k: int| odd_at(masses@, k) implies (comparisons == (
                            ResultComparison::Same,
                            ResultComparison::Balanced,
                        ) ==> 'A' == label_of(k)) && (comparisons == (
                            ResultComparison::Same,
                            ResultComparison::Same,
                        ) ==> 'F' == label_of(k)) && (comparisons == (
                            ResultComparison::Same,
                            ResultComparison::Opposite,
                        ) ==> 'B' == label_of(k)) && (comparisons == (
                            ResultComparison::Opposite,
                            ResultComparison::Balanced,
                        ) ==> 'C' == label_of(k)) && (comparisons == (
                            ResultComparison::Opposite,
                            ResultComparison::Same,
                        ) ==> 'E' == label_of(k)) && (comparisons == (
                            ResultComparison::Opposite,
                            ResultComparison::Opposite,
                        ) ==> 'D' == label_of(k)) && log_matches(log@, planned_weighings(k)) by {
                            lemma_measure_table(masses@, k);
                            lemma_label_of(k);
                        }
                    }
                    match comparisons {
                        (ResultComparison::Same, ResultComparison::Balanced) => 'A',
                        (ResultComparison::Same, ResultComparison::Same) => 'F',
                        (ResultComparison::Same, ResultComparison::Opposite) => 'B',
                        (ResultComparison::Opposite, ResultComparison::Balanced) => 'C',
                        (ResultComparison::Opposite, ResultComparison::Same) => 'E',
                        (ResultComparison::Opposite, ResultComparison::Opposite) => 'D',
                        _ => {
                            // a balanced first comparison would need a balanced
                            // second weighing, which this branch has ruled out
                            vstd::pervasive::unreached()
                        },
                    }
                },
            }
        },
    }
}

} // verus!
