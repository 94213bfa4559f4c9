use rameau::midi::program::{
    ACOUSTIC_GRAND_PIANO, ACOUSTIC_GUITAR_NYLON, BASS, BRASS, CHROMATIC_PERCUSSION,
    DISTORTION_GUITAR, ENSEMBLE, ETHNIC, FLUTE, FX, GUITAR, GUNSHOT, LEAD, MidiProgram, OCARINA,
    ORGAN, PAD, PERCUSSIVE, PIANO, PICCOLO, PIPE, REED, SOUND_EFFECTS, STRINGS,
};

#[test]
fn test_individual_constants() {
    assert_eq!(ACOUSTIC_GRAND_PIANO().0, 0);
    assert_eq!(FLUTE().0, 73);
    assert_eq!(GUNSHOT().0, 127);
}

#[test]
fn test_group_arrays() {
    // Guitar group should contain exactly 8 instruments
    assert_eq!(GUITAR().len(), 8);
    assert!(GUITAR().contains(&ACOUSTIC_GUITAR_NYLON()));
    assert!(GUITAR().contains(&DISTORTION_GUITAR()));

    // Pipe group should contain 8 instruments
    assert_eq!(PIPE().len(), 8);
    assert!(PIPE().contains(&PICCOLO()));
    assert!(PIPE().contains(&OCARINA()));
}

#[test]
fn test_get_name() {
    assert_eq!(ACOUSTIC_GRAND_PIANO().get_name(), "Acoustic Grand Piano");
    assert_eq!(FLUTE().get_name(), "Flute");
    assert_eq!(GUNSHOT().get_name(), "Gunshot");

    // Unknown values
    assert_eq!(MidiProgram(200).get_name(), "Unknown");
}

#[test]
fn test_from_u8() {
    let p: MidiProgram = 24u8.into();
    assert_eq!(p, ACOUSTIC_GUITAR_NYLON());

    let p: MidiProgram = 72u8.into();
    assert_eq!(p, PICCOLO());
}

#[test]
fn test_all_programs_are_unique() {
    // Collect all program numbers from the full GM1 set
    let mut seen = [false; 128];

    let all_groups: Vec<[MidiProgram; 8]> = vec![
        PIANO(),
        CHROMATIC_PERCUSSION(),
        ORGAN(),
        GUITAR(),
        BASS(),
        STRINGS(),
        ENSEMBLE(),
        BRASS(),
        REED(),
        PIPE(),
        LEAD(),
        PAD(),
        FX(),
        ETHNIC(),
        PERCUSSIVE(),
        SOUND_EFFECTS(),
    ];

    for group in &all_groups {
        for inst in group {
            let n = inst.0 as usize;
            assert!(n < 128, "Program out of range: {}", n);
            assert!(!seen[n], "Duplicate program number: {}", n);
            seen[n] = true;
        }
    }
    // Ensure all 128 programs are present
    assert!(seen[0..128].iter().all(|&x| x));
}

#[test]
fn display_number_is_one_based() {
    assert_eq!(ACOUSTIC_GRAND_PIANO().display_number(), 1);
    assert_eq!(GUNSHOT().display_number(), 128);
    assert_eq!(FLUTE().index(), 73);
    assert_eq!(MidiProgram::from_u8(5), MidiProgram(5));
}
