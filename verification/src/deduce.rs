//! The iterative deduction variant: repeatedly weigh a chosen group
//! against nothing, ruling masses out until the odd one is isolated or
//! the weighings run out. Confirmations are monotone: a status moves from
//! `Unknown` to `ConfirmedNormal` and never back.

use vstd::prelude::*;

use crate::balance::{
    lemma_odd_units_all_normal, lemma_odd_units_bounds, lemma_odd_units_has_odd, odd_units, weigh,
    weigh_spec, Balance,
};
use crate::mass::{label_of, odd_at, Mass, MassStatus, WeightClass};

verus! {

use vstd::pervasive::VecAdditionalExecFns;

/// The indices of the confirmed-normal masses, as a set.
pub open spec fn confirmed_set(s: Seq<Mass>) -> Set<int> {
    Set::new(|i: int| 0 <= i < s.len() && s[i].status == MassStatus::ConfirmedNormal)
}

/// How many masses of the registry are confirmed normal.
pub open spec fn confirmed_count_spec(s: Seq<Mass>) -> int
    decreases s.len(),
{
    if s.len() == 0 {
        0
    } else {
        confirmed_count_spec(s.drop_last()) + if s.last().status == MassStatus::ConfirmedNormal {
            1int
        } else {
            0int
        }
    }
}

/// Only genuinely normal masses are confirmed: the deduction never rules
/// out the odd mass itself.
pub open spec fn sound(s: Seq<Mass>) -> bool {
    forall|i: int|
        0 <= i < s.len() && (#[trigger] s[i]).status == MassStatus::ConfirmedNormal ==> s[i].class
            == WeightClass::Normal
}

/// The mass `m` with its status raised to confirmed normal.
pub open spec fn confirm(m: Mass) -> Mass {
    Mass { status: MassStatus::ConfirmedNormal, ..m }
}

/// The registry `s` with the mass at `i` confirmed normal.
pub open spec fn mark_spec(s: Seq<Mass>, i: int) -> Seq<Mass> {
    s.update(i, confirm(s[i]))
}

/// Confirming a mass twice is the same as confirming it once, and the
/// confirmed set grows by exactly that one position: set semantics, no
/// duplicate growth.
pub proof fn lemma_mark_idempotent(s: Seq<Mass>, i: int)
    requires
        0 <= i < s.len(),
    ensures
        mark_spec(mark_spec(s, i), i) =~= mark_spec(s, i),
        confirmed_set(mark_spec(s, i)) =~= confirmed_set(s).insert(i),
{
}

/// The confirmed count lies between zero and the registry's size.
pub proof fn lemma_count_bounds(s: Seq<Mass>)
    ensures
        0 <= confirmed_count_spec(s) <= s.len(),
    decreases s.len(),
{
    if s.len() > 0 {
        lemma_count_bounds(s.drop_last());
    }
}

/// A registry with an unconfirmed mass is short of a full count.
proof fn lemma_count_one_unknown(s: Seq<Mass>, i: int)
    requires
        0 <= i < s.len(),
        s[i].status != MassStatus::ConfirmedNormal,
    ensures
        confirmed_count_spec(s) <= s.len() - 1,
    decreases s.len(),
{
    lemma_count_bounds(s.drop_last());
    if i < s.len() - 1 {
        lemma_count_one_unknown(s.drop_last(), i);
    }
}

/// A registry with two unconfirmed masses is short of the count by two;
/// so a count of eleven out of twelve leaves a unique unconfirmed mass.
pub proof fn lemma_count_two_unknown(s: Seq<Mass>, i: int, j: int)
    requires
        0 <= i < j < s.len(),
        s[i].status != MassStatus::ConfirmedNormal,
        s[j].status != MassStatus::ConfirmedNormal,
    ensures
        confirmed_count_spec(s) <= s.len() - 2,
    decreases s.len(),
{
    if j == s.len() - 1 {
        lemma_count_one_unknown(s.drop_last(), i);
    } else {
        lemma_count_two_unknown(s.drop_last(), i, j);
    }
}

/// Count the confirmed-normal masses of the registry.
pub fn confirmed_count(masses: &Vec<Mass>) -> (n: usize)
    ensures
        n == confirmed_count_spec(masses@),
{
    let mut n: usize = 0;
    let mut i: usize = 0;
    while i < masses.len()
        invariant
            i <= masses@.len(),
            n <= i,
            n == confirmed_count_spec(masses@.take(i as int)),
        decreases masses@.len() - i,
    {
        proof {
            assert(masses@.take(i + 1).drop_last() =~= masses@.take(i as int));
            assert(masses@.take(i + 1).last() == masses@[i as int]);
        }
        if masses[i].status == MassStatus::ConfirmedNormal {
            n = n + 1;
        }
        i += 1;
    }
    proof {
        assert(masses@.take(masses@.len() as int) =~= masses@);
    }
    n
}

/// Position of the first mass not yet confirmed normal, if any.
pub fn find_unknown(masses: &Vec<Mass>) -> (r: Option<usize>)
    ensures
        match r {
            Some(u) => u < masses@.len() && masses@[u as int].status == MassStatus::Unknown,
            None => forall|i: int|
                0 <= i < masses@.len() ==> (#[trigger] masses@[i]).status
                    == MassStatus::ConfirmedNormal,
        },
{
    let mut i: usize = 0;
    while i < masses.len()
        invariant
            i <= masses@.len(),
            forall|j: int|
                0 <= j < i ==> (#[trigger] masses@[j]).status == MassStatus::ConfirmedNormal,
        decreases masses@.len() - i,
    {
        if masses[i].status == MassStatus::Unknown {
            return Some(i);
        }
        i += 1;
    }
    None
}


/// Whether some position in the list is `i`.
pub open spec fn has_index(idxs: Seq<usize>, i: int) -> bool {
    exists|a: int| 0 <= a < idxs.len() && (#[trigger] idxs[a]) as int == i
}

/// Appending a position to a list adds exactly that position to the
/// list's membership.
proof fn lemma_has_index_push(idxs: Seq<usize>, x: usize, i: int)
    ensures
        has_index(idxs.push(x), i) <==> (has_index(idxs, i) || x as int == i),
{
    let pushed = idxs.push(x);
    if has_index(pushed, i) {
        let w = choose|w: int| 0 <= w < pushed.len() && (#[trigger] pushed[w]) as int == i;
        if w < idxs.len() {
            assert(idxs[w] as int == i);
        }
    }
    if has_index(idxs, i) {
        let w = choose|w: int| 0 <= w < idxs.len() && (#[trigger] idxs[w]) as int == i;
        assert(pushed[w] as int == i);
    }
    if x as int == i {
        assert(pushed[idxs.len() as int] as int == i);
    }
}

/// Confirm every mass whose position is listed; every other mass keeps
/// its status, and no name or class changes.
fn mark_all(masses: &mut Vec<Mass>, idxs: &Vec<usize>)
    requires
        forall|a: int| 0 <= a < idxs@.len() ==> (#[trigger] idxs@[a]) < old(masses)@.len(),
    ensures
        final(masses)@.len() == old(masses)@.len(),
        forall|i: int|
            0 <= i < old(masses)@.len() ==> (#[trigger] final(masses)@[i]).name
                == old(masses)@[i].name && final(masses)@[i].class == old(masses)@[i].class,
        forall|i: int|
            0 <= i < old(masses)@.len() ==> (#[trigger] final(masses)@[i]).status == (
            if has_index(idxs@, i) {
                MassStatus::ConfirmedNormal
            } else {
                old(masses)@[i].status
            }),
{
    let ghost orig = masses@;
    let mut a: usize = 0;
    while a < idxs.len()
        invariant
            a <= idxs@.len(),
            forall|b: int| 0 <= b < idxs@.len() ==> (#[trigger] idxs@[b]) < orig.len(),
            masses@.len() == orig.len(),
            forall|i: int|
                0 <= i < orig.len() ==> (#[trigger] masses@[i]).name == orig[i].name
                    && masses@[i].class == orig[i].class,
            forall|i: int|
                0 <= i < orig.len() ==> (#[trigger] masses@[i]).status == (
                if has_index(idxs@.take(a as int), i) {
                    MassStatus::ConfirmedNormal
                } else {
                    orig[i].status
                }),
        decreases idxs@.len() - a,
    {
        let i = idxs[a];
        let m = masses[i];
        masses.set(i, Mass { name: m.name, class: m.class, status: MassStatus::ConfirmedNormal });
        proof {
            assert(idxs@.take(a + 1) =~= idxs@.take(a as int).push(idxs@[a as int]));
            assert forall|i2: int| #![trigger orig[i2]] 0 <= i2 < orig.len() implies (has_index(
                idxs@.take(a + 1),
                i2,
            ) <==> (has_index(idxs@.take(a as int), i2) || i2 == i as int)) by {
                lemma_has_index_push(idxs@.take(a as int), idxs@[a as int], i2);
            }
        }
        a += 1;
    }
    proof {
        assert(idxs@.take(idxs@.len() as int) =~= idxs@);
    }
}

/// Whether some position in the list is `x`.
fn list_contains(idxs: &Vec<usize>, x: usize) -> (r: bool)
    ensures
        r == has_index(idxs@, x as int),
{
    let mut a: usize = 0;
    while a < idxs.len()
        invariant
            a <= idxs@.len(),
            forall|b: int| 0 <= b < a ==> (#[trigger] idxs@[b]) != x,
        decreases idxs@.len() - a,
    {
        if idxs[a] == x {
            assert(idxs@[a as int] as int == x as int);
            return true;
        }
        a += 1;
    }
    false
}

/// Split the registry positions for one weighing: the weighed group takes
/// the first `from_confirmed` confirmed-normal masses and then the first
/// unconfirmed ones up to `group_size`; every other position is left out,
/// in registry order. The registry itself is not touched.
pub fn partition_for_weighing(masses: &Vec<Mass>, group_size: usize, from_confirmed: usize) -> (r:
    (Vec<usize>, Vec<usize>))
    requires
        from_confirmed <= group_size,
        group_size <= masses@.len(),
        from_confirmed <= confirmed_count_spec(masses@),
        group_size - from_confirmed <= masses@.len() - confirmed_count_spec(masses@),
    ensures
        r.0@.len() == group_size,
        forall|a: int, b: int| 0 <= a < b < from_confirmed ==> r.0@[a] < r.0@[b],
        forall|a: int|
            0 <= a < from_confirmed ==> (#[trigger] r.0@[a]) < masses@.len()
                && masses@[r.0@[a] as int].status == MassStatus::ConfirmedNormal,
        forall|a: int, b: int| from_confirmed <= a < b < group_size ==> r.0@[a] < r.0@[b],
        forall|a: int|
            from_confirmed <= a < group_size ==> (#[trigger] r.0@[a]) < masses@.len()
                && masses@[r.0@[a] as int].status == MassStatus::Unknown,
        forall|a: int, i: int|
            #![trigger r.0@[a], masses@[i]]
            0 <= a < from_confirmed && 0 <= i < r.0@[a] as int && masses@[i].status
                == MassStatus::ConfirmedNormal ==> has_index(
                r.0@.subrange(0, from_confirmed as int),
                i,
            ),
        forall|a: int, i: int|
            #![trigger r.0@[a], masses@[i]]
            from_confirmed <= a < group_size && 0 <= i < r.0@[a] as int && masses@[i].status
                == MassStatus::Unknown ==> has_index(
                r.0@.subrange(from_confirmed as int, group_size as int),
                i,
            ),
        forall|a: int, b: int| 0 <= a < b < r.1@.len() ==> r.1@[a] < r.1@[b],
        forall|a: int| 0 <= a < r.1@.len() ==> (#[trigger] r.1@[a]) < masses@.len(),
        forall|i: int|
            0 <= i < masses@.len() ==> ((#[trigger] has_index(r.0@, i)) <==> !has_index(r.1@, i)),
{
    let n = masses.len();
    let mut weighed: Vec<usize> = Vec::new();

    // first the requested number of confirmed-normal masses
    let mut i: usize = 0;
    while i < n && weighed.len() < from_confirmed
        invariant
            i <= n,
            n == masses@.len(),
            from_confirmed <= confirmed_count_spec(masses@),
            weighed@.len() <= from_confirmed,
            confirmed_count_spec(masses@.take(i as int)) == weighed@.len(),
            forall|a: int, b: int| 0 <= a < b < weighed@.len() ==> weighed@[a] < weighed@[b],
            forall|a: int|
                0 <= a < weighed@.len() ==> (#[trigger] weighed@[a]) < i
                    && masses@[weighed@[a] as int].status == MassStatus::ConfirmedNormal,
            forall|j: int|
                0 <= j < i && (#[trigger] masses@[j]).status == MassStatus::ConfirmedNormal
                    ==> has_index(weighed@, j),
        decreases n - i,
    {
        proof {
            assert(masses@.take(i + 1).drop_last() =~= masses@.take(i as int));
            assert(masses@.take(i + 1).last() == masses@[i as int]);
        }
        if masses[i].status == MassStatus::ConfirmedNormal {
            let ghost before = weighed@;
            weighed.push(i);
            proof {
                assert forall|j: int|
                    #![trigger masses@[j]]
                    0 <= j < i + 1 && masses@[j].status == MassStatus::ConfirmedNormal implies
                    has_index(weighed@, j) by {
                    lemma_has_index_push(before, i, j);
                }
            }
        }
        i += 1;
    }
    proof {
        if weighed@.len() < from_confirmed {
            assert(i == n);
            assert(masses@.take(n as int) =~= masses@);
            assert(false);
        }
    }

    // then unconfirmed masses until the group is full
    let ghost confirmed_part = weighed@;
    let ghost confirmed_cut = i as int;
    proof {
        // the confirmed picks are exactly the confirmed positions of the
        // registry prefix that the first pass walked
        assert(forall|a: int|
            0 <= a < from_confirmed ==> (#[trigger] confirmed_part[a]) < confirmed_cut);
        assert(forall|j: int|
            0 <= j < confirmed_cut && (#[trigger] masses@[j]).status
                == MassStatus::ConfirmedNormal ==> has_index(confirmed_part, j));
    }
    let mut i2: usize = 0;
    while i2 < n && weighed.len() < group_size
        invariant
            i2 <= n,
            n == masses@.len(),
            from_confirmed <= group_size,
            group_size - from_confirmed <= masses@.len() - confirmed_count_spec(masses@),
            confirmed_part.len() == from_confirmed,
            forall|a: int, b: int|
                0 <= a < b < from_confirmed ==> confirmed_part[a] < confirmed_part[b],
            forall|a: int|
                0 <= a < from_confirmed ==> (#[trigger] confirmed_part[a]) < n
                    && masses@[confirmed_part[a] as int].status == MassStatus::ConfirmedNormal,
            from_confirmed <= weighed@.len() <= group_size,
            weighed@.subrange(0, from_confirmed as int) =~= confirmed_part,
            weighed@.len() - from_confirmed >= i2 - confirmed_count_spec(masses@.take(i2 as int)),
            forall|a: int, b: int|
                from_confirmed <= a < b < weighed@.len() ==> weighed@[a] < weighed@[b],
            forall|a: int|
                from_confirmed <= a < weighed@.len() ==> (#[trigger] weighed@[a]) < i2
                    && masses@[weighed@[a] as int].status == MassStatus::Unknown,
            forall|j: int|
                0 <= j < i2 && (#[trigger] masses@[j]).status == MassStatus::Unknown ==> has_index(
                    weighed@.subrange(from_confirmed as int, weighed@.len() as int),
                    j,
                ),
        decreases n - i2,
    {
        proof {
            assert(masses@.take(i2 + 1).drop_last() =~= masses@.take(i2 as int));
            assert(masses@.take(i2 + 1).last() == masses@[i2 as int]);
        }
        if masses[i2].status == MassStatus::Unknown && weighed.len() < group_size {
            let ghost before = weighed@;
            weighed.push(i2);
            proof {
                assert(weighed@.subrange(0, from_confirmed as int) =~= before.subrange(
                    0,
                    from_confirmed as int,
                ));
                let tail = before.subrange(from_confirmed as int, before.len() as int);
                let tail2 = weighed@.subrange(from_confirmed as int, weighed@.len() as int);
                assert(tail2 =~= tail.push(i2));
                assert forall|j: int|
                    #![trigger masses@[j]]
                    0 <= j < i2 + 1 && masses@[j].status == MassStatus::Unknown implies has_index(
                    tail2,
                    j,
                ) by {
                    lemma_has_index_push(tail, i2, j);
                }
            }
        }
        i2 += 1;
    }
    proof {
        lemma_count_bounds(masses@);
        if weighed@.len() < group_size {
            assert(i2 == n);
            assert(masses@.take(n as int) =~= masses@);
            assert(false);
        }
        assert forall|a: int| 0 <= a < from_confirmed implies (#[trigger] weighed@[a])
            == confirmed_part[a] by {
            assert(weighed@.subrange(0, from_confirmed as int)[a] == confirmed_part[a]);
        }
        assert forall|a: int, j: int|
            #![trigger weighed@[a], masses@[j]]
            0 <= a < from_confirmed && 0 <= j < weighed@[a] as int && masses@[j].status
                == MassStatus::ConfirmedNormal implies has_index(
            weighed@.subrange(0, from_confirmed as int),
            j,
        ) by {
            assert(weighed@[a] == confirmed_part[a]);
            assert(has_index(confirmed_part, j));
            assert(weighed@.subrange(0, from_confirmed as int) =~= confirmed_part);
        }
        assert forall|a: int, j: int|
            #![trigger weighed@[a], masses@[j]]
            from_confirmed <= a < group_size && 0 <= j < weighed@[a] as int && masses@[j].status
                == MassStatus::Unknown implies has_index(
            weighed@.subrange(from_confirmed as int, group_size as int),
            j,
        ) by {
            assert(weighed@[a] < i2);
        }
    }

    // everything not selected is left out, in registry order
    let mut left_out: Vec<usize> = Vec::new();
    let mut i3: usize = 0;
    while i3 < n
        invariant
            i3 <= n,
            n == masses@.len(),
            forall|a: int, b: int| 0 <= a < b < left_out@.len() ==> left_out@[a] < left_out@[b],
            forall|a: int| 0 <= a < left_out@.len() ==> (#[trigger] left_out@[a]) < i3,
            forall|j: int|
                0 <= j < i3 ==> ((#[trigger] has_index(weighed@, j)) <==> !has_index(
                    left_out@,
                    j,
                )),
        decreases n - i3,
    {
        let ghost before = left_out@;
        if !list_contains(&weighed, i3) {
            left_out.push(i3);
        }
        proof {
            assert forall|j: int| #![trigger has_index(weighed@, j)] 0 <= j < i3 + 1 implies (
            has_index(weighed@, j) <==> !has_index(left_out@, j)) by {
                if left_out@.len() > before.len() {
                    lemma_has_index_push(before, i3, j);
                }
            }
        }
        i3 += 1;
    }
    (weighed, left_out)
}

/// Collect the masses at the listed positions, in list order.
fn gather(masses: &Vec<Mass>, idxs: &Vec<usize>) -> (group: Vec<Mass>)
    requires
        forall|a: int| 0 <= a < idxs@.len() ==> (#[trigger] idxs@[a]) < masses@.len(),
    ensures
        group@.len() == idxs@.len(),
        forall|a: int| 0 <= a < idxs@.len() ==> (#[trigger] group@[a]) == masses@[idxs@[a] as int],
{
    let mut group: Vec<Mass> = Vec::new();
    let mut a: usize = 0;
    while a < idxs.len()
        invariant
            a <= idxs@.len(),
            forall|b: int| 0 <= b < idxs@.len() ==> (#[trigger] idxs@[b]) < masses@.len(),
            group@.len() == a,
            forall|b: int| 0 <= b < a ==> (#[trigger] group@[b]) == masses@[idxs@[b] as int],
        decreases idxs@.len() - a,
    {
        group.push(masses[idxs[a]]);
        a += 1;
    }
    group
}

/// State of one iterative deduction session: the registry, how many
/// weighings remain, the label of the odd mass once isolated, and whether
/// the finish was the lucky two-mass shortcut.
pub struct Deduction {
    pub masses: Vec<Mass>,
    pub weighings_left: u32,
    pub solved: Option<char>,
    pub lucky: bool,
}

impl Deduction {
    /// The session invariant: the registry is well-formed with a single
    /// odd mass, only genuinely normal masses are ever confirmed, and a
    /// solved session names the odd mass's label.
    pub open spec fn inv(self) -> bool {
        &&& exists|k: int| odd_at(self.masses@, k)
        &&& sound(self.masses@)
        &&& (self.solved matches Some(c) ==> forall|k: int|
            odd_at(self.masses@, k) ==> c == label_of(k))
    }

    /// Start a session on a fresh registry: three weighings, nothing
    /// solved yet.
    pub fn new(masses: Vec<Mass>) -> (d: Deduction)
        requires
            exists|k: int| odd_at(masses@, k),
            sound(masses@),
        ensures
            d.masses == masses,
            d.weighings_left == 3,
            d.solved is None,
            !d.lucky,
            d.inv(),
    {
        Deduction { masses, weighings_left: 3, solved: None, lucky: false }
    }

    /// Whether the session is over: the odd mass was isolated or the
    /// weighings ran out.
    pub fn finished(&self) -> (r: bool)
        ensures
            r == (self.solved is Some || self.weighings_left == 0),
    {
        match self.solved {
            Some(_) => true,
            None => self.weighings_left == 0,
        }
    }

    /// One deduction round. The chosen group is split off by
    /// `partition_for_weighing` and weighed as a whole for containing the
    /// odd mass. A balanced outcome confirms the whole weighed group; an
    /// unbalanced one confirms the left-out group instead, or, when the
    /// group was a pair with exactly one confirmed member, immediately
    /// names the other member as the odd mass (the lucky shortcut, which
    /// confirms nothing). Reaching eleven confirmations isolates the odd
    /// mass by elimination. Returns the outcome and the two position
    /// lists, weighed and left out.
    #[verifier::rlimit(30)]
    pub fn step(&mut self, group_size: usize, from_confirmed: usize) -> (r: (
        Balance,
        Vec<usize>,
        Vec<usize>,
    ))
        requires
            old(self).inv(),
            old(self).solved is None,
            !old(self).lucky,
            old(self).weighings_left > 0,
            2 <= group_size <= 12,
            group_size % 2 == 0,
            from_confirmed <= group_size,
            from_confirmed <= confirmed_count_spec(old(self).masses@),
            group_size - from_confirmed <= old(self).masses@.len() - confirmed_count_spec(
                old(self).masses@,
            ),
        ensures
            final(self).inv(),
            final(self).weighings_left == old(self).weighings_left - 1,
            final(self).masses@.len() == old(self).masses@.len(),
            forall|i: int|
                0 <= i < old(self).masses@.len() ==> (#[trigger] final(self).masses@[i]).name
                    == old(self).masses@[i].name && final(self).masses@[i].class
                    == old(self).masses@[i].class,
            forall|i: int|
                0 <= i < old(self).masses@.len() && (#[trigger] old(self).masses@[i]).status
                    == MassStatus::ConfirmedNormal ==> final(self).masses@[i].status
                    == MassStatus::ConfirmedNormal,
            r.1@.len() == group_size,
            forall|a: int, b: int| 0 <= a < b < from_confirmed ==> r.1@[a] < r.1@[b],
            forall|a: int|
                0 <= a < from_confirmed ==> (#[trigger] r.1@[a]) < old(self).masses@.len()
                    && old(self).masses@[r.1@[a] as int].status == MassStatus::ConfirmedNormal,
            forall|a: int, b: int| from_confirmed <= a < b < group_size ==> r.1@[a] < r.1@[b],
            forall|a: int|
                from_confirmed <= a < group_size ==> (#[trigger] r.1@[a]) < old(
                    self,
                ).masses@.len() && old(self).masses@[r.1@[a] as int].status == MassStatus::Unknown,
            forall|a: int, b: int| 0 <= a < b < r.2@.len() ==> r.2@[a] < r.2@[b],
            forall|a: int|
                0 <= a < r.2@.len() ==> (#[trigger] r.2@[a]) < old(self).masses@.len(),
            forall|i: int|
                0 <= i < old(self).masses@.len() ==> ((#[trigger] has_index(r.1@, i))
                    <==> !has_index(r.2@, i)),
            forall|k: int|
                #![trigger has_index(r.1@, k)]
                odd_at(old(self).masses@, k) ==> (r.0 == Balance::Balanced <==> !has_index(
                    r.1@,
                    k,
                )),
            r.0 == Balance::Balanced ==> forall|i: int|
                0 <= i < old(self).masses@.len() ==> (#[trigger] final(self).masses@[i]).status
                    == (if has_index(r.1@, i) {
                    MassStatus::ConfirmedNormal
                } else {
                    old(self).masses@[i].status
                }),
            r.0 != Balance::Balanced && !(group_size == 2 && from_confirmed == 1) ==> forall|i: int|
                0 <= i < old(self).masses@.len() ==> (#[trigger] final(self).masses@[i]).status
                    == (if has_index(r.2@, i) {
                    MassStatus::ConfirmedNormal
                } else {
                    old(self).masses@[i].status
                }),
            r.0 != Balance::Balanced && group_size == 2 && from_confirmed == 1
                ==> final(self).masses@ == old(self).masses@,
            (final(self).solved is Some <==> ((r.0 != Balance::Balanced && group_size == 2
                && from_confirmed == 1) || confirmed_count_spec(final(self).masses@) == 11)),
            final(self).lucky == (final(self).solved is Some
                && confirmed_count_spec(final(self).masses@) < 11),
    {
        let ghost old_masses = self.masses@;
        let ghost k = choose|k: int| odd_at(old_masses, k);
        proof {
            assert(old_masses.len() == 12);
        }
        let (weighed_idx, left_out_idx) = partition_for_weighing(
            &self.masses,
            group_size,
            from_confirmed,
        );
        let group = gather(&self.masses, &weighed_idx);
        let empty_pan: Vec<Mass> = Vec::new();
        let outcome = weigh(&group, &empty_pan);
        self.weighings_left = self.weighings_left - 1;

        proof {
            lemma_count_bounds(old_masses);
            assert forall|k2: int| odd_at(old_masses, k2) implies (outcome == Balance::Balanced
                <==> !has_index(weighed_idx@, k2)) by {
                lemma_outcome_meaning(old_masses, group@, weighed_idx@, k2, outcome);
            }
            // the odd position is unique, so the quantified reading of the
            // outcome agrees with the witness's
            assert(outcome == Balance::Balanced <==> !has_index(weighed_idx@, k));
            if !has_index(weighed_idx@, k) {
                assert forall|k2: int| odd_at(old_masses, k2) implies !has_index(
                    weighed_idx@,
                    k2,
                ) by {
                    assert(old_masses[k2].class == WeightClass::Odd);
                    assert(k2 == k);
                }
            }
        }

        if outcome == Balance::Balanced {
            mark_all(&mut self.masses, &weighed_idx);
            proof {
                lemma_shape_keeps_odd_at(old_masses, self.masses@, k);
            }
            self.check_isolated();
        } else if group_size == 2 && from_confirmed == 1 {
            // the pair held the odd mass, and its confirmed member is
            // known normal: the other member is the odd one
            let other = weighed_idx[1];
            let label = self.masses[other].name;
            proof {
                // the odd position is in the weighed pair but cannot be
                // the confirmed first member
                let a = choose|a: int|
                    0 <= a < weighed_idx@.len() && (#[trigger] weighed_idx@[a]) as int == k;
                if a == 0 {
                    assert(old_masses[weighed_idx@[0] as int].status
                        == MassStatus::ConfirmedNormal);
                    assert(false);
                }
                assert(weighed_idx@[1] as int == k);
            }
            let already = confirmed_count(&self.masses);
            self.solved = Some(label);
            self.lucky = already < 11;
        } else {
            proof {
                // the odd mass sits in the weighed group, so the left-out
                // group is entirely normal
                assert(has_index(weighed_idx@, k));
            }
            mark_all(&mut self.masses, &left_out_idx);
            proof {
                lemma_shape_keeps_odd_at(old_masses, self.masses@, k);
            }
            self.check_isolated();
        }
        (outcome, weighed_idx, left_out_idx)
    }

    /// After a round of confirmations: when eleven masses are confirmed,
    /// the remaining one is the odd mass by elimination.
    fn check_isolated(&mut self)
        requires
            old(self).inv(),
            old(self).solved is None,
            !old(self).lucky,
        ensures
            final(self).masses == old(self).masses,
            final(self).weighings_left == old(self).weighings_left,
            final(self).inv(),
            (final(self).solved is Some <==> confirmed_count_spec(final(self).masses@) == 11),
            !final(self).lucky,
    {
        let ghost k = choose|k: int| odd_at(self.masses@, k);
        let count = confirmed_count(&self.masses);
        if count == 11 {
            match find_unknown(&self.masses) {
                Some(u) => {
                    proof {
                        // the odd mass is never confirmed, so it is the
                        // unique unconfirmed position
                        assert(self.masses@[k].status != MassStatus::ConfirmedNormal);
                        if (u as int) != k {
                            if (u as int) < k {
                                lemma_count_two_unknown(self.masses@, u as int, k);
                            } else {
                                lemma_count_two_unknown(self.masses@, k, u as int);
                            }
                            assert(false);
                        }
                    }
                    let label = self.masses[u].name;
                    self.solved = Some(label);
                },
                None => {
                    proof {
                        assert(self.masses@[k].status == MassStatus::ConfirmedNormal);
                        assert(false);
                    }
                },
            }
        }
    }
}

/// A weighing against the empty pan balances exactly when the weighed
/// group misses the odd mass.
proof fn lemma_outcome_meaning(
    s: Seq<Mass>,
    group: Seq<Mass>,
    idxs: Seq<usize>,
    k: int,
    outcome: Balance,
)
    requires
        odd_at(s, k),
        group.len() == idxs.len(),
        forall|a: int| 0 <= a < idxs.len() ==> (#[trigger] idxs[a]) < s.len(),
        forall|a: int| 0 <= a < idxs.len() ==> (#[trigger] group[a]) == s[idxs[a] as int],
        outcome == weigh_spec(group, Seq::<Mass>::empty()),
    ensures
        outcome == Balance::Balanced <==> !has_index(idxs, k),
{
    assert(odd_units(Seq::<Mass>::empty()) == 0);
    lemma_odd_units_bounds(group);
    if has_index(idxs, k) {
        let a = choose|a: int| 0 <= a < idxs.len() && (#[trigger] idxs[a]) as int == k;
        assert(group[a].class == WeightClass::Odd);
        lemma_odd_units_has_odd(group, a);
    } else {
        assert forall|a: int| 0 <= a < group.len() implies (#[trigger] group[a]).class
            == WeightClass::Normal by {
            assert(idxs[a] as int != k);
        }
        lemma_odd_units_all_normal(group);
    }
}

/// A registry keeps its well-formedness when names and classes keep
/// their values, whatever happens to the statuses.
proof fn lemma_shape_keeps_odd_at(before: Seq<Mass>, after: Seq<Mass>, k: int)
    requires
        odd_at(before, k),
        after.len() == before.len(),
        forall|i: int|
            0 <= i < before.len() ==> (#[trigger] after[i]).name == before[i].name
                && after[i].class == before[i].class,
    ensures
        odd_at(after, k),
{
}

} // verus!
