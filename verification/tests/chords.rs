use rameau::chords::chord::{Cadence, Quality, RomanNumeral};
use rameau::chords::grammar::Progression;

#[test]
fn labels_of_numerals() {
    // The chords the diatonic realisation gives in G major and A minor.
    let v7 = RomanNumeral::new(4, Quality::DominantSeventh);
    assert_eq!(v7.label(), "V7");
    assert_eq!(RomanNumeral::new(1, Quality::Minor).inv(1).label(), "ii6");
    assert_eq!(RomanNumeral::new(6, Quality::Diminished).label(), "vii°");
    // A minor's leading-tone chord stands on a raised root, written plain.
    assert_eq!(RomanNumeral::new(6, Quality::Diminished).altered(1).label(), "vii°");
    assert_eq!(RomanNumeral::new(1, Quality::Major).altered(-1).label(), "♭II");
}

#[test]
fn labels_mark_quality_and_inversion() {
    assert_eq!(RomanNumeral::new(4, Quality::DominantSeventh).inv(1).label(), "V765");
    assert_eq!(RomanNumeral::new(4, Quality::DominantSeventh).inv(2).label(), "V743");
    assert_eq!(RomanNumeral::new(4, Quality::DominantSeventh).inv(3).label(), "V742");
    assert_eq!(RomanNumeral::new(0, Quality::Major).inv(2).label(), "I64");
    assert_eq!(RomanNumeral::new(6, Quality::DiminishedSeventh).altered(1).label(), "vii°7");
    assert_eq!(RomanNumeral::new(6, Quality::HalfDiminishedSeventh).label(), "viiø7");
    assert_eq!(RomanNumeral::new(2, Quality::Augmented).label(), "III+");
    assert_eq!(RomanNumeral::new(3, Quality::Major).altered(1).label(), "♯IV");
    assert_eq!(RomanNumeral::new(1, Quality::MinorSeventh).label(), "ii7");
    assert_eq!(RomanNumeral::new(3, Quality::MajorSeventh).label(), "IV7");
}

#[test]
fn qualities() {
    assert_eq!(Quality::Major.intervals(), &[0, 4, 7]);
    assert_eq!(Quality::DiminishedSeventh.intervals(), &[0, 3, 6, 9]);
    assert!(Quality::DominantSeventh.has_seventh());
    assert!(!Quality::Augmented.has_seventh());
    assert_eq!(Quality::from_stack(3, 7), Quality::Minor);
    assert_eq!(Quality::from_stack(3, 6), Quality::Diminished);
    assert_eq!(Quality::from_stack(4, 8), Quality::Augmented);
    assert_eq!(Quality::from_stack(4, 7), Quality::Major);
    assert_eq!(Quality::from_stack(5, 7), Quality::Major);
    assert!(Quality::HalfDiminishedSeventh.is_minorish());
    assert!(!Quality::DominantSeventh.is_minorish());
}

#[test]
fn functions_of_numerals() {
    assert!(RomanNumeral::new(4, Quality::Major).is_dominant());
    assert!(RomanNumeral::new(6, Quality::Diminished).is_dominant());
    assert!(!RomanNumeral::new(6, Quality::Major).altered(-1).is_dominant());
    assert!(RomanNumeral::new(0, Quality::Major).inv(1).is_tonic());
    assert!(!RomanNumeral::new(5, Quality::Minor).is_tonic());
    assert_eq!(RomanNumeral::subtonic(), RomanNumeral::new(6, Quality::Major));
    assert_eq!(RomanNumeral::subtonic().label(), "VII");
    assert!(Cadence::Plagal.closes());
    assert!(!Cadence::Half.closes());
}

#[test]
fn progression_labels_are_joined_with_spaces() {
    // The Canon realised in G major.
    let canon = Progression {
        chords: vec![
            RomanNumeral::new(0, Quality::Major),
            RomanNumeral::new(4, Quality::Major),
            RomanNumeral::new(5, Quality::Minor),
            RomanNumeral::new(2, Quality::Minor),
            RomanNumeral::new(3, Quality::Major),
            RomanNumeral::new(0, Quality::Major),
            RomanNumeral::new(3, Quality::Major),
            RomanNumeral::new(4, Quality::Major),
        ],
        source: "canon".into(),
    };
    assert_eq!(canon.labels(), "I V vi iii IV I IV V");
    let empty = Progression { chords: vec![], source: "grammar".into() };
    assert_eq!(empty.labels(), "");
}
