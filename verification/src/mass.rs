//! The mass registry: twelve labelled masses, one of them secretly odd.

use vstd::prelude::*;

verus! {

use vstd::pervasive::VecAdditionalExecFns;

/// The ground-truth weight class of a mass. Exactly one mass of a
/// well-formed registry is `Odd`; every other mass is `Normal`.
#[derive(Clone, Copy, Debug, PartialEq, Eq, Structural)]
pub enum WeightClass {
    Normal,
    Odd,
}

/// What the solver has deduced about a mass so far. A status starts as
/// `Unknown` and may only ever move to `ConfirmedNormal`, never back.
#[derive(Clone, Copy, Debug, PartialEq, Eq, Structural)]
pub enum MassStatus {
    Unknown,
    ConfirmedNormal,
}

/// One mass on the table: a single-letter label, the hidden weight class,
/// and the deduction status.
#[derive(Clone, Copy, Debug)]
pub struct Mass {
    pub name: char,
    pub class: WeightClass,
    pub status: MassStatus,
}

/// Label of the registry position `i`: 'A' for 0 up to 'L' for 11.
pub open spec fn label_of(i: int) -> char {
    (65 + i) as char
}

/// A well-formed registry whose odd mass sits at position `k`: twelve
/// masses labelled 'A' through 'L' in order, the mass at `k` odd, every
/// other mass normal. Deduction statuses are left unconstrained.
pub open spec fn odd_at(s: Seq<Mass>, k: int) -> bool {
    &&& s.len() == 12
    &&& 0 <= k < 12
    &&& forall|i: int| 0 <= i < 12 ==> (#[trigger] s[i]).name == label_of(i)
    &&& s[k].class == WeightClass::Odd
    &&& forall|i: int| 0 <= i < 12 && i != k ==> (#[trigger] s[i]).class == WeightClass::Normal
}

/// The label characters sit at code points 65 ('A') through 76 ('L'),
/// so distinct positions carry distinct labels.
pub proof fn lemma_label_of(i: int)
    requires
        0 <= i < 12,
    ensures
        label_of(i) as int == 65 + i,
{
}

/// Label of the registry position `i`, as executable code.
pub fn mass_label(i: usize) -> (c: char)
    requires
        i < 12,
    ensures
        c == label_of(i as int),
{
    let b: u8 = 65 + i as u8;
    b as char
}

/// Relies on rand::Rng::gen_range on the range `0..bound`: the value
/// drawn lies in that range. Nothing else is promised of it.
#[verifier::external_body]
fn random_index(bound: usize) -> (r: usize)
    requires
        bound > 0,
    ensures
        r < bound,
{
    rand::Rng::gen_range(&mut rand::thread_rng(), 0..bound)
}

/// Build a fresh registry whose odd mass sits at position `k`: all
/// twelve masses unknown, the one at `k` odd, the others normal.
pub fn setup_masses_with_odd(k: usize) -> (r: Vec<Mass>)
    requires
        k < 12,
    ensures
        odd_at(r@, k as int),
        forall|i: int| 0 <= i < 12 ==> (#[trigger] r@[i]).status == MassStatus::Unknown,
{
    let mut masses: Vec<Mass> = Vec::new();
    let mut i: usize = 0;
    while i < 12
        invariant
            i <= 12,
            masses@.len() == i,
            forall|j: int| 0 <= j < i ==> (#[trigger] masses@[j]).name == label_of(j),
            forall|j: int| 0 <= j < i ==> (#[trigger] masses@[j]).class == WeightClass::Normal,
            forall|j: int| 0 <= j < i ==> (#[trigger] masses@[j]).status == MassStatus::Unknown,
        decreases 12 - i,
    {
        let name = mass_label(i);
        masses.push(Mass { name, class: WeightClass::Normal, status: MassStatus::Unknown });
        i += 1;
    }
    let picked = masses[k];
    masses.set(k, Mass { name: picked.name, class: WeightClass::Odd, status: picked.status });
    masses
}

/// Build a fresh registry with the odd mass at a randomly drawn position.
pub fn setup_masses() -> (r: Vec<Mass>)
    ensures
        exists|k: int| odd_at(r@, k),
        forall|i: int| 0 <= i < 12 ==> (#[trigger] r@[i]).status == MassStatus::Unknown,
{
    let k = random_index(12);
    let masses = setup_masses_with_odd(k);
    proof {
        assert(odd_at(masses@, k as int));
    }
    masses
}

} // verus!
