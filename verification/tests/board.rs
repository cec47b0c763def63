use arieltune::board::{classify, is_asrock_version, Compat, Gate, WriteClass};

#[test]
fn verified_versions() {
    assert_eq!(classify("ASRock BC-250", "", "P5.00"), Compat::Verified);
    assert_eq!(classify("BC-250", "", "P3.00"), Compat::Verified);
    // modded builds report the same base version string
    assert_eq!(classify("BC-250", "", "P5.00_clv"), Compat::Verified);
}

#[test]
fn probable_vs_unknown() {
    assert_eq!(classify("BC-250", "", "P7.02"), Compat::ProbableAsrock);
    assert_eq!(classify("BC-250", "", "P10.00"), Compat::ProbableAsrock);
    assert_eq!(classify("BC-250", "", "N33_L1.05"), Compat::UnknownBios);
    assert_eq!(classify("BC-250", "", ""), Compat::UnknownBios);
}

#[test]
fn non_bc250_is_refused() {
    assert_eq!(
        classify("MZ73-LM0-000", "MZ73-LM0-000", "R07_F33"),
        Compat::NotBc250
    );
    assert_eq!(classify("X570 Taichi", "", "P5.00"), Compat::NotBc250);
}

#[test]
fn board_name_fallback() {
    assert_eq!(
        classify("To be filled by O.E.M.", "BC-250", "P5.00"),
        Compat::Verified
    );
}

#[test]
fn asrock_version_parser() {
    assert!(is_asrock_version("P5.00"));
    assert!(is_asrock_version("P10.2"));
    assert!(!is_asrock_version("R07_F33"));
    assert!(!is_asrock_version("5.00"));
    assert!(!is_asrock_version("P.00"));
}

#[test]
fn gate_matrix() {
    assert!(matches!(
        Compat::Verified.gate(WriteClass::FlashClass),
        Gate::Allow
    ));
    assert!(matches!(
        Compat::ProbableAsrock.gate(WriteClass::EfiVar),
        Gate::Allow
    ));
    assert!(matches!(
        Compat::ProbableAsrock.gate(WriteClass::FlashClass),
        Gate::Warn(_)
    ));
    assert!(matches!(
        Compat::UnknownBios.gate(WriteClass::FlashClass),
        Gate::RequireForce(_)
    ));
    assert!(matches!(
        Compat::NotBc250.gate(WriteClass::EfiVar),
        Gate::Refuse(_)
    ));
}
