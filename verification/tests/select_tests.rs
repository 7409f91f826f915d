use balance_puzzle::mass::{setup_masses, setup_masses_with_odd, MassStatus, WeightClass};
use balance_puzzle::select::{check_guess, get_answer, get_mass_names, select_masses};

#[test]
fn registry_has_twelve_labelled_masses() {
    let masses = setup_masses_with_odd(0);
    assert_eq!(masses.len(), 12);
    assert_eq!(get_mass_names(&masses), "ABCDEFGHIJKL");
    for m in &masses {
        assert!(matches!(m.status, MassStatus::Unknown));
    }
}

#[test]
fn random_registry_is_well_formed() {
    let masses = setup_masses();
    assert_eq!(get_mass_names(&masses), "ABCDEFGHIJKL");
    let odd_count = masses
        .iter()
        .filter(|m| matches!(m.class, WeightClass::Odd))
        .count();
    assert_eq!(odd_count, 1);
    for m in &masses {
        assert!(matches!(m.status, MassStatus::Unknown));
    }
}

#[test]
fn select_is_case_insensitive_and_drops_noise() {
    let masses = setup_masses_with_odd(3);
    let picked = select_masses(&masses, "a, b! c9Z d");
    assert_eq!(get_mass_names(&picked), "ABCD");
}

#[test]
fn select_unknown_labels_are_dropped() {
    let masses = setup_masses_with_odd(3);
    let picked = select_masses(&masses, "XYZ");
    assert_eq!(picked.len(), 0);
}

#[test]
fn select_drops_duplicate_labels() {
    // a repeated label, whatever its case, picks its mass only once,
    // at its first occurrence
    let masses = setup_masses_with_odd(3);
    let picked = select_masses(&masses, "CAAbca");
    assert_eq!(get_mass_names(&picked), "CAB");
    let picked = select_masses(&masses, "AA");
    assert_eq!(get_mass_names(&picked), "A");
}

#[test]
fn select_folds_case_per_unicode() {
    // U+0131, the dotless i, uppercases to the ASCII letter I
    let masses = setup_masses_with_odd(3);
    let picked = select_masses(&masses, "\u{131}");
    assert_eq!(get_mass_names(&picked), "I");
}

#[test]
fn select_empty_string_picks_nothing() {
    let masses = setup_masses_with_odd(3);
    let picked = select_masses(&masses, "");
    assert_eq!(picked.len(), 0);
}

#[test]
fn answer_names_the_odd_mass() {
    let masses = setup_masses_with_odd(5);
    assert_eq!(get_answer(&masses), "F");
    let masses = setup_masses_with_odd(11);
    assert_eq!(get_answer(&masses), "L");
}

#[test]
fn guess_folds_case_per_unicode() {
    // the dotless i uppercases to I, so it names the mass I
    let masses = setup_masses_with_odd(8);
    assert!(check_guess(&masses, "\u{131}"));
    assert!(check_guess(&masses, "i"));
}

#[test]
fn guess_matches_case_insensitively() {
    let masses = setup_masses_with_odd(5);
    assert!(check_guess(&masses, "F"));
    assert!(check_guess(&masses, "f"));
    assert!(!check_guess(&masses, "g"));
    assert!(!check_guess(&masses, ""));
    assert!(!check_guess(&masses, "ff"));
}
