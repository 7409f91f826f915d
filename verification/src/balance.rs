//! The balance evaluator and the outcome comparator.

use vstd::prelude::*;

use crate::mass::{Mass, WeightClass};

verus! {

/// Outcome of one weighing.
#[derive(Clone, Copy, Debug, PartialEq, Eq, Structural)]
pub enum Balance {
    Balanced,
    LeftHeavy,
    RightHeavy,
}

/// How two historical outcomes relate: same direction, opposite
/// direction, or the second one balanced.
#[derive(Clone, Copy, Debug, PartialEq, Eq, Structural)]
pub enum ResultComparison {
    Same,
    Opposite,
    Balanced,
}

/// Units of oddness a single mass adds to its side of the scale: one for
/// the odd mass, none for a normal one.
pub open spec fn unit(m: Mass) -> int {
    if m.class == WeightClass::Odd {
        1
    } else {
        0
    }
}

/// Total units of oddness in a group.
pub open spec fn odd_units(s: Seq<Mass>) -> int
    decreases s.len(),
{
    if s.len() == 0 {
        0
    } else {
        odd_units(s.drop_last()) + unit(s.last())
    }
}

/// The balance rule: the side holding more units of oddness sinks; equal
/// units balance the scale.
pub open spec fn weigh_spec(l: Seq<Mass>, r: Seq<Mass>) -> Balance {
    if odd_units(l) > odd_units(r) {
        Balance::LeftHeavy
    } else if odd_units(l) < odd_units(r) {
        Balance::RightHeavy
    } else {
        Balance::Balanced
    }
}

/// The comparator rule: a balanced second outcome dominates; otherwise
/// equal outcomes are `Same` and unequal ones `Opposite`.
pub open spec fn compare_spec(first: Balance, second: Balance) -> ResultComparison {
    if second == Balance::Balanced {
        ResultComparison::Balanced
    } else if first == second {
        ResultComparison::Same
    } else {
        ResultComparison::Opposite
    }
}

/// Sum the units of oddness of a group.
fn sum_units(masses: &Vec<Mass>) -> (sum: usize)
    ensures
        sum == odd_units(masses@),
{
    let mut sum: usize = 0;
    let mut i: usize = 0;
    while i < masses.len()
        invariant
            i <= masses@.len(),
            sum <= i,
            sum == odd_units(masses@.take(i as int)),
        decreases masses@.len() - i,
    {
        proof {
            assert(masses@.take(i + 1).drop_last() =~= masses@.take(i as int));
            assert(masses@.take(i + 1).last() == masses@[i as int]);
        }
        if masses[i].class == WeightClass::Odd {
            sum = sum + 1;
        }
        i += 1;
    }
    proof {
        assert(masses@.take(masses@.len() as int) =~= masses@);
    }
    sum
}

/// Weigh two groups of masses against each other.
pub fn weigh(left: &Vec<Mass>, right: &Vec<Mass>) -> (r: Balance)
    ensures
        r == weigh_spec(left@, right@),
{
    let left_weight = sum_units(left);
    let right_weight = sum_units(right);
    if left_weight > right_weight {
        Balance::LeftHeavy
    } else if left_weight < right_weight {
        Balance::RightHeavy
    } else {
        Balance::Balanced
    }
}

/// Classify the relationship between two weighing outcomes.
pub fn compare_results(first: &Balance, second: &Balance) -> (r: ResultComparison)
    ensures
        r == compare_spec(*first, *second),
{
    if *second == Balance::Balanced {
        ResultComparison::Balanced
    } else if *first == *second {
        ResultComparison::Same
    } else {
        ResultComparison::Opposite
    }
}

/// A group of exclusively normal masses carries no unit of oddness.
pub proof fn lemma_odd_units_all_normal(s: Seq<Mass>)
    requires
        forall|i: int| 0 <= i < s.len() ==> (#[trigger] s[i]).class == WeightClass::Normal,
    ensures
        odd_units(s) == 0,
    decreases s.len(),
{
    if s.len() > 0 {
        lemma_odd_units_all_normal(s.drop_last());
    }
}

/// The units of oddness of a group lie between zero and its size.
pub proof fn lemma_odd_units_bounds(s: Seq<Mass>)
    ensures
        0 <= odd_units(s) <= s.len(),
    decreases s.len(),
{
    if s.len() > 0 {
        lemma_odd_units_bounds(s.drop_last());
    }
}

/// A group holding an odd mass carries at least one unit of oddness.
pub proof fn lemma_odd_units_has_odd(s: Seq<Mass>, w: int)
    requires
        0 <= w < s.len(),
        s[w].class == WeightClass::Odd,
    ensures
        odd_units(s) >= 1,
    decreases s.len(),
{
    lemma_odd_units_bounds(s.drop_last());
    if w < s.len() - 1 {
        lemma_odd_units_has_odd(s.drop_last(), w);
    }
}

/// The balance evaluator law: a weighing balances exactly when the two
/// groups hold equally many units of oddness; two groups without any odd
/// mass balance; a group holding the only odd mass sinks.
pub proof fn lemma_weigh_characterisation(l: Seq<Mass>, r: Seq<Mass>)
    ensures
        (weigh_spec(l, r) == Balance::Balanced) <==> (odd_units(l) == odd_units(r)),
        (weigh_spec(l, r) == Balance::LeftHeavy) <==> (odd_units(l) > odd_units(r)),
        (weigh_spec(l, r) == Balance::RightHeavy) <==> (odd_units(l) < odd_units(r)),
        (forall|i: int| 0 <= i < l.len() ==> (#[trigger] l[i]).class == WeightClass::Normal)
            && (forall|i: int| 0 <= i < r.len() ==> (#[trigger] r[i]).class == WeightClass::Normal)
            ==> weigh_spec(l, r) == Balance::Balanced,
        (exists|i: int| 0 <= i < l.len() && (#[trigger] l[i]).class == WeightClass::Odd)
            && (forall|i: int| 0 <= i < r.len() ==> (#[trigger] r[i]).class == WeightClass::Normal)
            ==> weigh_spec(l, r) == Balance::LeftHeavy,
        (exists|i: int| 0 <= i < r.len() && (#[trigger] r[i]).class == WeightClass::Odd)
            && (forall|i: int| 0 <= i < l.len() ==> (#[trigger] l[i]).class == WeightClass::Normal)
            ==> weigh_spec(l, r) == Balance::RightHeavy,
{
    if forall|i: int| 0 <= i < l.len() ==> (#[trigger] l[i]).class == WeightClass::Normal {
        lemma_odd_units_all_normal(l);
    }
    if forall|i: int| 0 <= i < r.len() ==> (#[trigger] r[i]).class == WeightClass::Normal {
        lemma_odd_units_all_normal(r);
    }
    if exists|i: int| 0 <= i < l.len() && (#[trigger] l[i]).class == WeightClass::Odd {
        let w = choose|i: int| 0 <= i < l.len() && (#[trigger] l[i]).class == WeightClass::Odd;
        lemma_odd_units_has_odd(l, w);
    }
    if exists|i: int| 0 <= i < r.len() && (#[trigger] r[i]).class == WeightClass::Odd {
        let w = choose|i: int| 0 <= i < r.len() && (#[trigger] r[i]).class == WeightClass::Odd;
        lemma_odd_units_has_odd(r, w);
    }
}

/// The comparator law: a balanced second outcome always classifies as
/// `Balanced`, a repeated direction as `Same`, a reversed one as `Opposite`.
pub proof fn lemma_compare_rules(x: Balance)
    ensures
        compare_spec(x, Balance::Balanced) == ResultComparison::Balanced,
        compare_spec(Balance::LeftHeavy, Balance::LeftHeavy) == ResultComparison::Same,
        compare_spec(Balance::RightHeavy, Balance::RightHeavy) == ResultComparison::Same,
        compare_spec(Balance::LeftHeavy, Balance::RightHeavy) == ResultComparison::Opposite,
        compare_spec(Balance::RightHeavy, Balance::LeftHeavy) == ResultComparison::Opposite,
{
}

} // verus!
