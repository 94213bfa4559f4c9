use rameau::kern::Tie;
use rameau::kern::token::{Parsed, parse_token, try_parse_token};

/// The duration of a note in crotchets, as the reader of a score computes
/// it from the duration field and the dots.
fn quarters(p: &Parsed) -> f64 {
    if p.grace {
        return 0.0;
    }
    let recip: String = p.recip.iter().collect();
    let base = if let Some((a, b)) = recip.split_once('%') {
        let a: f64 = a.parse().unwrap();
        let b: f64 = b.parse().unwrap();
        4.0 * b / a
    } else if recip == "0" {
        8.0
    } else if recip == "00" {
        16.0
    } else if recip == "000" {
        32.0
    } else {
        4.0 / recip.parse::<f64>().unwrap()
    };
    let mut total = base;
    let mut add = base;
    for _ in 0..p.dots {
        add /= 2.0;
        total += add;
    }
    total
}

#[test]
fn pitches_and_durations() {
    let n = parse_token("8g/L").remove(0);
    assert_eq!(n.midi, Some(67));
    assert_eq!(quarters(&n), 0.5);
    assert_eq!(parse_token("16cc#X\\JJ")[0].midi, Some(73));
    assert_eq!(parse_token("4B-")[0].midi, Some(58));
    assert_eq!(parse_token("2.r")[0].midi, None);
    assert_eq!(quarters(&parse_token("2.r")[0]), 3.0);
    assert_eq!(quarters(&parse_token("8..a")[0]), 0.875);
    assert_eq!(quarters(&parse_token("0CC")[0]), 8.0);
    assert_eq!(parse_token("0CC")[0].midi, Some(36));
    assert_eq!(quarters(&parse_token("12e")[0]), 4.0 / 12.0);
    assert_eq!(quarters(&parse_token("(16g/LL")[0]), 0.25);
    assert!(parse_token(".").is_empty());
    assert!(parse_token("*").is_empty());
}

#[test]
fn ties_chords_ornaments() {
    let n = parse_token("[8dd\\J")[0].clone();
    assert_eq!(n.tie, Tie::Start);
    let n = parse_token("8dd\\L]")[0].clone();
    assert_eq!(n.tie, Tie::End);
    let chord = parse_token("4g 4dd");
    assert_eq!(chord.len(), 2);
    assert_eq!(chord[1].midi, Some(74));
    let t = parse_token("4gT")[0].clone();
    assert_eq!(t.ornaments, vec!['T']);
    let g = parse_token("8qcc")[0].clone();
    assert!(g.grace);
    assert_eq!(quarters(&g), 0.0);
}

#[test]
fn the_duration_field_is_kept_as_written() {
    let n = parse_token("3%2..c").remove(0);
    assert_eq!(n.recip, vec!['3', '%', '2']);
    assert_eq!(n.dots, 2);
    assert_eq!(n.midi, Some(60));
    assert!((quarters(&n) - 14.0 / 3.0).abs() < 1e-12);
}

#[test]
fn fields_that_name_no_duration_drop_the_note() {
    assert!(parse_token("0000c").is_empty());
    assert!(parse_token("0%2c").is_empty());
    assert!(parse_token("3%c").is_empty());
    assert!(parse_token("%2c").is_empty());
    assert!(parse_token("3%2%1c").is_empty());
    assert!(parse_token("c").is_empty());
    // A grace note needs no duration field.
    assert_eq!(parse_token("qc")[0].midi, Some(60));
    // The maxima, long and breve.
    assert_eq!(quarters(&parse_token("000c")[0]), 32.0);
    assert_eq!(quarters(&parse_token("00c")[0]), 16.0);
}

#[test]
fn octaves_accidentals_and_naturals() {
    assert_eq!(parse_token("4c")[0].midi, Some(60));
    assert_eq!(parse_token("4ccc")[0].midi, Some(84));
    assert_eq!(parse_token("4C")[0].midi, Some(48));
    assert_eq!(parse_token("4CCC")[0].midi, Some(24));
    assert_eq!(parse_token("4b")[0].midi, Some(71));
    assert_eq!(parse_token("4f##")[0].midi, Some(67));
    assert_eq!(parse_token("4e--")[0].midi, Some(62));
    assert_eq!(parse_token("4f#n")[0].midi, Some(65));
}

#[test]
fn malformed_notes_are_skipped_in_a_chord() {
    // Two different letters, a piece without a pitch, an empty piece.
    let chord = parse_token("4cd 8 4e  2g_");
    assert_eq!(chord.len(), 2);
    assert_eq!(chord[0].midi, Some(64));
    assert_eq!(chord[1].midi, Some(67));
    assert_eq!(chord[1].tie, Tie::Continue);
    // A rest needs no letter.
    assert_eq!(parse_token("4r")[0].midi, None);
}

#[test]
fn digits_after_the_pitch_do_not_extend_the_duration() {
    let n = parse_token("4c8").remove(0);
    assert_eq!(n.recip, vec!['4']);
    assert_eq!(quarters(&n), 1.0);
}

#[test]
fn checked_reading_agrees_on_ordinary_tokens() {
    for t in ["4c", "8.G#", "[4ee-", "4g 4dd", ".", "", "16CCC##", "4r"] {
        assert_eq!(try_parse_token(t), Some(parse_token(t)));
    }
    // A pitch far above the keyboard still reads when it fits 32 bits.
    let high = format!("4{}", "c".repeat(1000));
    let notes = try_parse_token(&high).unwrap();
    assert_eq!(notes[0].midi, Some(60 + 12 * 999));
}
