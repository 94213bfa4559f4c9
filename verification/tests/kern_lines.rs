use rameau::kern::layout::{Respined, SpineOp, manipulates, measure_number, next_measure, respine, spine_op};
use rameau::kern::lines::{
    LineKind, Reference, Tandem, content, exclusive_columns, is_kern, line_kind, reference,
    split_fields, tandem,
};

#[test]
fn line_kinds() {
    assert_eq!(line_kind(content("\r\r")), LineKind::Blank);
    assert_eq!(line_kind(content("!!!OTL: A tune\r")), LineKind::Reference);
    assert_eq!(line_kind("!! global comment"), LineKind::Comment);
    assert_eq!(line_kind("!"), LineKind::Comment);
    assert_eq!(line_kind("**kern\t**dynam"), LineKind::Exclusive);
    assert_eq!(line_kind("*M4/4"), LineKind::Interpretation);
    assert_eq!(line_kind("=12"), LineKind::Barline);
    assert_eq!(line_kind("4c\t8e"), LineKind::Data);
    assert_eq!(content("4c\r\r"), "4c");
    assert_eq!(content("a\rb"), "a\rb");
}

#[test]
fn fields_split_on_tabs() {
    assert_eq!(split_fields("4c\t8e\t."), vec!["4c", "8e", "."]);
    assert_eq!(split_fields("a\t\tb"), vec!["a", "", "b"]);
    assert_eq!(split_fields("solo"), vec!["solo"]);
    assert_eq!(split_fields(""), vec![""]);
}

#[test]
fn exclusive_line_numbers_the_kern_spines() {
    let fields = split_fields("**kern\t**dynam\t**kern\t**kern");
    assert_eq!(exclusive_columns(&fields), vec![Some(0), None, Some(1), Some(2)]);
    assert!(is_kern("**kern"));
    assert!(!is_kern("**ker"));
}

#[test]
fn reference_records() {
    assert_eq!(reference("OTL: A tune "), Some((Reference::Title, "A tune")));
    assert_eq!(reference(" COM :someone: else"), Some((Reference::Composer, "someone: else")));
    assert_eq!(reference("OTL:   "), None);
    assert_eq!(reference("AGN: dance"), None);
    assert_eq!(reference("OTL no colon"), None);
}

#[test]
fn tandem_interpretations() {
    assert_eq!(tandem("*MM120"), (Tandem::Tempo, 3));
    assert_eq!(tandem("*M3/4"), (Tandem::Meter, 2));
    assert_eq!(tandem("*I\"Bass"), (Tandem::Instrument, 3));
    assert_eq!(tandem("*part2"), (Tandem::Part, 5));
    assert_eq!(tandem("*k[f#]"), (Tandem::Other, 0));
}

#[test]
fn spine_operations() {
    assert_eq!(spine_op("*^"), SpineOp::Split);
    assert_eq!(spine_op("*v"), SpineOp::Join);
    assert_eq!(spine_op("*-"), SpineOp::End);
    assert_eq!(spine_op("*"), SpineOp::Keep);
    assert_eq!(spine_op("*^^"), SpineOp::Keep);
    assert!(manipulates(&["*", "*v"]));
    assert!(!manipulates(&["*", "*M4/4"]));
}

fn col(first: usize, last: usize, voice: Option<usize>, split: bool) -> Respined {
    Respined { first, last, voice, split }
}

#[test]
fn a_split_makes_a_new_voice_for_the_same_spine() {
    // Two voiced columns and a non-kern one; the second splits.
    let out = respine(&[Some(0), Some(1), None], &["*", "*^", "*"], 2);
    assert_eq!(
        out,
        vec![
            col(0, 0, Some(0), false),
            col(1, 1, Some(1), false),
            col(1, 1, Some(2), true),
            col(2, 2, None, false),
        ]
    );
    // Splitting a column that feeds no voice makes none.
    let out = respine(&[None], &["*^"], 4);
    assert_eq!(out, vec![col(0, 0, None, false), col(0, 0, None, true)]);
}

#[test]
fn a_run_of_joins_becomes_its_first_column() {
    let out = respine(&[Some(0), Some(1), Some(2), Some(3)], &["*v", "*v", "*v", "*"], 4);
    assert_eq!(out, vec![col(0, 2, Some(0), false), col(3, 3, Some(3), false)]);
    // Two runs separated by a plain field stay apart.
    let out = respine(&[Some(0), Some(1), Some(2), Some(3), Some(4)], &["*v", "*v", "*", "*v", "*v"], 5);
    assert_eq!(
        out,
        vec![col(0, 1, Some(0), false), col(2, 2, Some(2), false), col(3, 4, Some(3), false)]
    );
}

#[test]
fn ended_and_unlisted_columns_are_dropped() {
    let out = respine(&[Some(0), Some(1), Some(2)], &["*-", "*"], 3);
    assert_eq!(out, vec![col(1, 1, Some(1), false)]);
    // Fields past the last column are ignored.
    let out = respine(&[Some(0)], &["*", "*^", "*^"], 1);
    assert_eq!(out, vec![col(0, 0, Some(0), false)]);
}

#[test]
fn barline_numbers() {
    assert_eq!(measure_number("=12"), Some(12));
    assert_eq!(measure_number("==3:|!"), Some(3));
    assert_eq!(measure_number("="), None);
    assert_eq!(measure_number("=||"), None);
    assert_eq!(measure_number("=4294967295"), Some(u32::MAX));
    assert_eq!(measure_number("=4294967296"), None);
    assert_eq!(measure_number("=007a"), Some(7));
    assert_eq!(next_measure(4, "=9", true), 9);
    assert_eq!(next_measure(4, "=", true), 5);
    assert_eq!(next_measure(0, "=", false), 0);
}

/// A note as the test reader keeps it.
struct Timed {
    onset: f64,
    measure: u32,
}

/// A voice as the test reader keeps it.
struct Strand {
    spine: usize,
    notes: Vec<Timed>,
}

/// A column as the test reader keeps it.
#[derive(Clone)]
struct Column {
    voice: Option<usize>,
    cursor: f64,
    measure: u32,
}

/// Reads a file with the library's line, layout and barline rules and the
/// token reader, keeping time in crotchets.
fn read(text: &str) -> Vec<Strand> {
    let mut voices: Vec<Strand> = Vec::new();
    let mut columns: Vec<Column> = Vec::new();
    let mut started = false;
    for raw in text.lines() {
        let line = content(raw);
        let kind = line_kind(line);
        if kind == LineKind::Exclusive && !started {
            started = true;
            for (i, v) in exclusive_columns(&split_fields(line)).into_iter().enumerate() {
                if v.is_some() {
                    voices.push(Strand { spine: i, notes: Vec::new() });
                }
                columns.push(Column { voice: v, cursor: 0.0, measure: 0 });
            }
            continue;
        }
        if !started {
            continue;
        }
        let fields = split_fields(line);
        match kind {
            LineKind::Interpretation if manipulates(&fields) => {
                let old: Vec<Option<usize>> = columns.iter().map(|c| c.voice).collect();
                let mut next = Vec::new();
                for r in respine(&old, &fields, voices.len()) {
                    let mut col = columns[r.first].clone();
                    for other in &columns[r.first + 1..=r.last] {
                        if other.cursor > col.cursor {
                            col.cursor = other.cursor;
                        }
                    }
                    if r.split {
                        if r.voice.is_some() {
                            let spine = voices[col.voice.unwrap()].spine;
                            voices.push(Strand { spine, notes: Vec::new() });
                        }
                        col.voice = r.voice;
                    }
                    next.push(col);
                }
                columns = next;
            }
            LineKind::Barline => {
                for (i, f) in fields.iter().enumerate() {
                    if let Some(col) = columns.get_mut(i) {
                        col.measure = next_measure(col.measure, f, col.cursor > 0.0);
                    }
                }
            }
            LineKind::Data => {
                for (i, f) in fields.iter().enumerate() {
                    let Some(col) = columns.get_mut(i) else { continue };
                    let Some(vi) = col.voice else { continue };
                    let mut advance: f64 = 0.0;
                    for p in rameau::kern::token::parse_token(f) {
                        let recip: String = p.recip.iter().collect();
                        let d = 4.0 / recip.parse::<f64>().unwrap();
                        advance = advance.max(d);
                        voices[vi].notes.push(Timed { onset: col.cursor, measure: col.measure });
                    }
                    col.cursor += advance;
                }
            }
            _ => {}
        }
    }
    voices
}

#[test]
fn follows_splits_and_merges() {
    let text = "**kern\n*M4/4\n=1\n*^\n4c\t4e\n4d\t4f\n*v\t*v\n2g\n=2\n1c\n*-\n";
    let s = read(text);
    assert_eq!(s.len(), 2);
    assert_eq!(s[0].notes.len(), 4);
    assert_eq!(s[1].notes.len(), 2);
    assert_eq!(s[0].notes[2].onset, 2.0);
    assert_eq!(s[0].notes[3].measure, 2);
    assert_eq!(s[1].spine, 0);
}

#[test]
fn no_two_columns_feed_one_voice() {
    let old = [Some(0), None, Some(1), Some(2), Some(3)];
    let out = respine(&old, &["*^", "*^", "*v", "*v", "*^"], 4);
    let voices: Vec<usize> = out.iter().filter_map(|r| r.voice).collect();
    assert_eq!(voices, vec![0, 4, 1, 3, 5]);
    for (i, a) in voices.iter().enumerate() {
        assert!(voices[i + 1..].iter().all(|b| b != a));
    }
}
