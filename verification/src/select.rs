//! Turning free-form label text into weighing groups, and reading labels
//! back out of a registry. Label matching folds case per Unicode;
//! characters that are not letters, that name no mass, or that repeat an
//! already selected label are silently dropped.

use vstd::prelude::*;

use crate::mass::{Mass, WeightClass};

verus! {

use vstd::string::StrSliceExecFns;

/// Whether every character of the sequence is ASCII (code point
/// below 128).
pub open spec fn ascii_seq(s: Seq<char>) -> bool {
    forall|i: int| 0 <= i < s.len() ==> ((#[trigger] s[i]) as int) < 128
}

/// Uppercase an ASCII letter (code points 97 'a' through 122 'z');
/// any other character is returned unchanged.
pub open spec fn upper_char(c: char) -> char {
    if 97 <= c as int && c as int <= 122 {
        (c as int - 32) as char
    } else {
        c
    }
}

/// Per-character ASCII uppercasing of a whole sequence.
pub open spec fn upper_seq(s: Seq<char>) -> Seq<char> {
    s.map(|i: int, c: char| upper_char(c))
}

/// Whether `c` is an ASCII letter.
pub open spec fn is_letter(c: char) -> bool {
    (65 <= c as int && c as int <= 90) || (97 <= c as int && c as int <= 122)
}

/// Whether a character beyond ASCII has the Unicode `Alphabetic`
/// property. Named, not stated: only `char::is_alphabetic` computes it.
pub uninterp spec fn alphabetic_beyond_ascii(c: char) -> bool;

/// Whether `c` is a letter as `char::is_alphabetic` sees it: within
/// ASCII exactly the letters A-Z and a-z, beyond ASCII the named
/// Unicode property.
pub open spec fn is_unicode_letter(c: char) -> bool {
    if (c as int) < 128 {
        is_letter(c)
    } else {
        alphabetic_beyond_ascii(c)
    }
}

/// Relies on char::is_alphabetic: an ASCII character is alphabetic
/// exactly when it is an ASCII letter; beyond ASCII it holds the
/// Unicode `Alphabetic` property, named above.
pub assume_specification[ char::is_alphabetic ](c: char) -> (r: bool)
    ensures
        r == is_unicode_letter(c),
        (c as int) >= 128 ==> r == alphabetic_beyond_ascii(c),
;

/// What `str::to_uppercase` returns on a string that is not wholly
/// ASCII. Named, not stated: the result depends on the characters alone.
pub uninterp spec fn upper_beyond_ascii(s: Seq<char>) -> Seq<char>;

/// The Unicode uppercasing of a string, as `str::to_uppercase` computes
/// it: a wholly ASCII string is uppercased character by character.
pub open spec fn unicode_upper(s: Seq<char>) -> Seq<char> {
    if ascii_seq(s) {
        upper_seq(s)
    } else {
        upper_beyond_ascii(s)
    }
}

/// Relies on str::to_uppercase: the result depends on the characters
/// alone, and an all-ASCII string maps to its per-character ASCII
/// uppercase form.
#[verifier::external_body]
fn to_uppercase_str(s: &str) -> (r: String)
    ensures
        r@ == unicode_upper(s@),
        !ascii_seq(s@) ==> r@ == upper_beyond_ascii(s@),
{
    s.to_uppercase()
}

/// Position of the first mass named `c`, or -1 when no mass carries
/// that name.
pub open spec fn find_idx(s: Seq<Mass>, c: char) -> int
    decreases s.len(),
{
    if s.len() == 0 {
        -1
    } else if s[0].name == c {
        0
    } else {
        let rest = find_idx(s.drop_first(), c);
        if rest < 0 {
            -1
        } else {
            rest + 1
        }
    }
}

/// `find_idx` returns the position of the first mass with the given
/// name, and -1 exactly when the name occurs nowhere.
pub proof fn lemma_find_idx(s: Seq<Mass>, c: char)
    ensures
        -1 <= find_idx(s, c) < s.len(),
        find_idx(s, c) >= 0 ==> s[find_idx(s, c)].name == c,
        forall|j: int| 0 <= j < s.len() && (#[trigger] s[j]).name == c ==> 0 <= find_idx(s, c) <= j,
    decreases s.len(),
{
    if s.len() > 0 && s[0].name != c {
        lemma_find_idx(s.drop_first(), c);
        assert(forall|j: int| 1 <= j < s.len() ==> (#[trigger] s[j]).name == s.drop_first()[j - 1].name);
    }
}

/// The group an already-uppercased selection picks: each character in
/// turn that is a letter, names some mass, and has not occurred earlier
/// in the selection adds the first mass of that name to the group.
/// Repeated labels are dropped, so the group holds at most one mass per
/// label, in order of first occurrence.
pub open spec fn select_core_spec(masses: Seq<Mass>, up: Seq<char>) -> Seq<Mass>
    decreases up.len(),
{
    if up.len() == 0 {
        Seq::empty()
    } else {
        let pre = select_core_spec(masses, up.drop_last());
        let c = up.last();
        if is_unicode_letter(c) && find_idx(masses, c) >= 0 && !up.drop_last().contains(c) {
            pre.push(masses[find_idx(masses, c)])
        } else {
            pre
        }
    }
}

/// The group a raw selection string picks: the string is uppercased per
/// Unicode, then read label by label.
pub open spec fn select_spec(masses: Seq<Mass>, sel: Seq<char>) -> Seq<Mass> {
    select_core_spec(masses, unicode_upper(sel))
}

/// The names of the masses of a group, in group order.
pub open spec fn names_spec(s: Seq<Mass>) -> Seq<char> {
    s.map(|i: int, m: Mass| m.name)
}

/// The names of the odd masses of a group, in group order. On a
/// well-formed registry this is the one-character answer to the puzzle.
pub open spec fn answer_spec(s: Seq<Mass>) -> Seq<char>
    decreases s.len(),
{
    if s.len() == 0 {
        Seq::empty()
    } else if s.last().class == WeightClass::Odd {
        answer_spec(s.drop_last()).push(s.last().name)
    } else {
        answer_spec(s.drop_last())
    }
}

/// On a prefix of a well-formed registry, the answer holds the odd
/// mass's label once the prefix reaches past it, and nothing before.
proof fn lemma_answer_prefix(s: Seq<Mass>, k: int, m: int)
    requires
        crate::mass::odd_at(s, k),
        0 <= m <= 12,
    ensures
        answer_spec(s.take(m)) =~= if k < m {
            seq![s[k].name]
        } else {
            Seq::<char>::empty()
        },
    decreases m,
{
    if m > 0 {
        lemma_answer_prefix(s, k, m - 1);
        assert(s.take(m).drop_last() =~= s.take(m - 1));
        assert(s.take(m).last() == s[m - 1]);
    }
}

/// On a well-formed registry the answer is exactly the odd mass's label.
pub proof fn lemma_answer_odd_at(s: Seq<Mass>, k: int)
    requires
        crate::mass::odd_at(s, k),
    ensures
        answer_spec(s) =~= seq![crate::mass::label_of(k)],
{
    lemma_answer_prefix(s, k, 12);
    assert(s.take(12) =~= s);
}

/// Find the position of the first mass named `c`, scanning in order.
pub fn find_mass(masses: &Vec<Mass>, c: char) -> (r: Option<usize>)
    ensures
        match r {
            Some(j) => j == find_idx(masses@, c) && j < masses@.len(),
            None => find_idx(masses@, c) == -1,
        },
{
    proof {
        lemma_find_idx(masses@, c);
    }
    let mut i: usize = 0;
    while i < masses.len()
        invariant
            i <= masses@.len(),
            forall|j: int| 0 <= j < i ==> (#[trigger] masses@[j]).name != c,
            -1 <= find_idx(masses@, c) < masses@.len(),
            find_idx(masses@, c) >= 0 ==> masses@[find_idx(masses@, c)].name == c,
            forall|j: int|
                0 <= j < masses@.len() && (#[trigger] masses@[j]).name == c
                    ==> 0 <= find_idx(masses@, c) <= j,
        decreases masses@.len() - i,
    {
        if masses[i].name == c {
            return Some(i);
        }
        i += 1;
    }
    None
}

/// Whether `c` occurs among the first `i` characters of the string.
fn occurs_before(s: &str, i: usize, c: char) -> (r: bool)
    requires
        i <= s@.len(),
    ensures
        r == s@.take(i as int).contains(c),
{
    let mut j: usize = 0;
    while j < i
        invariant
            j <= i <= s@.len(),
            forall|jj: int| 0 <= jj < j ==> (#[trigger] s@[jj]) != c,
        decreases i - j,
    {
        if s.get_char(j) == c {
            proof {
                assert(s@.take(i as int)[j as int] == c);
            }
            return true;
        }
        j += 1;
    }
    proof {
        assert forall|jj: int| 0 <= jj < i implies (#[trigger] s@.take(i as int)[jj]) != c by {
            assert(s@[jj] != c);
        }
    }
    false
}

/// Pick the group an already-uppercased selection describes: non-letter
/// characters, unknown labels and repeated labels are dropped.
pub fn select_uppercased(masses: &Vec<Mass>, upper: &str) -> (out: Vec<Mass>)
    ensures
        out@ == select_core_spec(masses@, upper@),
{
    let mut out: Vec<Mass> = Vec::new();
    let n = upper.unicode_len();
    let mut i: usize = 0;
    while i < n
        invariant
            n == upper@.len(),
            i <= n,
            out@ == select_core_spec(masses@, upper@.take(i as int)),
        decreases n - i,
    {
        proof {
            assert(upper@.take(i + 1).drop_last() =~= upper@.take(i as int));
            assert(upper@.take(i + 1).last() == upper@[i as int]);
        }
        let c = upper.get_char(i);
        if c.is_alphabetic() && !occurs_before(upper, i, c) {
            if let Some(j) = find_mass(masses, c) {
                out.push(masses[j]);
            }
        }
        i += 1;
    }
    proof {
        assert(upper@.take(n as int) =~= upper@);
    }
    out
}

/// Pick the group a selection string describes: case folds per Unicode;
/// non-letter characters, unknown labels and repeated labels are
/// silently dropped, so the group holds at most one mass per label.
pub fn select_masses(masses: &Vec<Mass>, selection: &str) -> (out: Vec<Mass>)
    ensures
        out@ == select_spec(masses@, selection@),
{
    let upper = to_uppercase_str(selection);
    select_uppercased(masses, upper.as_str())
}

/// Relies on String::push: it appends exactly the one character.
#[verifier::external_body]
fn push_char(s: &mut String, c: char)
    ensures
        final(s)@ == old(s)@.push(c),
{
    s.push(c)
}

/// The names of a group's masses, joined into one string.
pub fn get_mass_names(masses: &Vec<Mass>) -> (names: String)
    ensures
        names@ == names_spec(masses@),
{
    let mut names = String::new();
    let mut i: usize = 0;
    while i < masses.len()
        invariant
            i <= masses@.len(),
            names@ == names_spec(masses@.take(i as int)),
        decreases masses@.len() - i,
    {
        push_char(&mut names, masses[i].name);
        proof {
            assert(names_spec(masses@.take(i + 1)) =~= names_spec(masses@.take(i as int)).push(
                masses@[i as int].name,
            ));
        }
        i += 1;
    }
    proof {
        assert(masses@.take(masses@.len() as int) =~= masses@);
    }
    names
}

/// The names of the odd masses of a group, joined into one string. On a
/// well-formed registry this is the single label of the odd mass.
pub fn get_answer(masses: &Vec<Mass>) -> (answer: String)
    ensures
        answer@ == answer_spec(masses@),
{
    let mut answer = String::new();
    let mut i: usize = 0;
    while i < masses.len()
        invariant
            i <= masses@.len(),
            answer@ == answer_spec(masses@.take(i as int)),
        decreases masses@.len() - i,
    {
        proof {
            assert(masses@.take(i + 1).drop_last() =~= masses@.take(i as int));
            assert(masses@.take(i + 1).last() == masses@[i as int]);
        }
        if masses[i].class == WeightClass::Odd {
            push_char(&mut answer, masses[i].name);
        }
        i += 1;
    }
    proof {
        assert(masses@.take(masses@.len() as int) =~= masses@);
    }
    answer
}

/// Whether a guessed label names the odd mass: the guess is uppercased
/// per Unicode and compared against the registry's answer string.
pub fn check_guess(masses: &Vec<Mass>, guess: &str) -> (r: bool)
    ensures
        r == (unicode_upper(guess@) == answer_spec(masses@)),
{
    let upper = to_uppercase_str(guess);
    let answer = get_answer(masses);
    upper == answer
}

} // verus!
