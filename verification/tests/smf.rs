use rameau::midi::error::MidiError;
use rameau::midi::event::MidiEvent;
use rameau::midi::smf::{Division, Format, MetaEvent, Reader, Smf, TrackEventKind};

/// A file with one header and the given track bodies.
fn file(format: u16, division: u16, tracks: &[Vec<u8>]) -> Vec<u8> {
    let mut bytes = b"MThd".to_vec();
    bytes.extend_from_slice(&6u32.to_be_bytes());
    bytes.extend_from_slice(&format.to_be_bytes());
    bytes.extend_from_slice(&(tracks.len() as u16).to_be_bytes());
    bytes.extend_from_slice(&division.to_be_bytes());
    for t in tracks {
        bytes.extend_from_slice(b"MTrk");
        bytes.extend_from_slice(&(t.len() as u32).to_be_bytes());
        bytes.extend_from_slice(t);
    }
    bytes
}

#[test]
fn parses_minimal_format0_file() {
    // MThd: format 0, 1 track, 96 ticks/quarter.
    let mut bytes = vec![b'M', b'T', b'h', b'd', 0, 0, 0, 6, 0, 0, 0, 1, 0, 96];
    // One track: note on, note off (running status), end of track.
    let track = vec![
        0x00, 0x90, 0x3c, 0x40, // dt 0: note on C4 vel 64
        0x60, 0x3c, 0x00, // dt 96: running status -> note on C4 vel 0
        0x00, 0xFF, 0x2F, 0x00, // dt 0: end of track
    ];
    bytes.extend_from_slice(b"MTrk");
    bytes.extend_from_slice(&(track.len() as u32).to_be_bytes());
    bytes.extend_from_slice(&track);

    let smf = Smf::parse(&bytes).unwrap();
    assert_eq!(smf.format, Format::Single);
    assert_eq!(smf.division, Division::TicksPerQuarter(96));
    assert_eq!(smf.tracks.len(), 1);

    let events: Vec<_> = smf.tracks[0].midi_events();
    assert_eq!(
        events,
        vec![
            (0, MidiEvent::NoteOn { channel: 0, key: 60, vel: 64 }),
            (96, MidiEvent::NoteOn { channel: 0, key: 60, vel: 0 }),
        ]
    );
}

#[test]
fn rejects_bad_magic() {
    assert!(matches!(
        Smf::parse(b"not a midi file at all"),
        Err(MidiError::InvalidHeader)
    ));
}

#[test]
fn vlq_decodes_multibyte() {
    // 0x81 0x00 == 128
    let mut r = Reader::new(&[0x81, 0x00]);
    assert_eq!(r.vlq().unwrap(), 128);
}

#[test]
fn vlq_rejects_five_bytes_and_reports_eof() {
    let mut r = Reader::new(&[0x81, 0x81, 0x81, 0x81, 0x00]);
    assert_eq!(r.vlq(), Err(MidiError::InvalidVarLen));
    let mut r = Reader::new(&[0x81]);
    assert_eq!(r.vlq(), Err(MidiError::UnexpectedEof));
    let mut r = Reader::new(&[0xFF, 0xFF, 0xFF, 0x7F]);
    assert_eq!(r.vlq(), Ok(0x0FFF_FFFF));
}

#[test]
fn reader_reads_big_endian_fields() {
    let mut r = Reader::new(&[0x12, 0x34, 0x56, 0x78, 0x9A, 0xBC, 0xDE]);
    assert_eq!(r.u16(), Ok(0x1234));
    assert_eq!(r.u32(), Ok(0x5678_9ABC));
    assert_eq!(r.remaining(), 1);
    assert_eq!(r.u8(), Ok(0xDE));
    assert!(r.is_empty());
    assert_eq!(r.u8(), Err(MidiError::UnexpectedEof));
}

#[test]
fn rejects_unknown_format_and_short_header() {
    let bytes = file(3, 96, &[]);
    assert_eq!(Smf::parse(&bytes), Err(MidiError::UnsupportedFormat(3)));
    let mut short = b"MThd".to_vec();
    short.extend_from_slice(&5u32.to_be_bytes());
    short.extend_from_slice(&[0, 0, 0, 0, 96]);
    assert_eq!(Smf::parse(&short), Err(MidiError::InvalidHeader));
    assert_eq!(Smf::parse(b"MTh"), Err(MidiError::UnexpectedEof));
}

#[test]
fn data_byte_without_status_is_an_error() {
    let bytes = file(0, 96, &[vec![0x00, 0x3c, 0x40]]);
    assert_eq!(Smf::parse(&bytes), Err(MidiError::RunningStatus));
}

#[test]
fn decodes_meta_events_and_smpte_division() {
    let track = vec![
        0x00, 0xFF, 0x51, 0x03, 0x07, 0xA1, 0x20, // tempo 500000
        0x00, 0xFF, 0x58, 0x04, 0x06, 0x03, 0x18, 0x08, // 6/8
        0x00, 0xFF, 0x59, 0x02, 0xFE, 0x01, // two flats, minor
        0x00, 0xFF, 0x03, 0x02, b'H', b'i', // track name
        0x0A, 0xC1, 0x05, // program change
        0x00, 0xE1, 0x00, 0x40, // pitch bend centre
        0x00, 0xFF, 0x2F, 0x00,
    ];
    // SMPTE: -25 fps, 40 ticks per frame.
    let bytes = file(1, 0xE728, &[track]);
    let smf = Smf::parse(&bytes).unwrap();
    assert_eq!(smf.format, Format::Parallel);
    assert_eq!(smf.division, Division::Smpte { fps: 25, ticks_per_frame: 40 });
    let kinds: Vec<&TrackEventKind> = smf.tracks[0].events.iter().map(|e| &e.kind).collect();
    assert_eq!(kinds[0], &TrackEventKind::Meta(MetaEvent::Tempo(500_000)));
    assert_eq!(
        kinds[1],
        &TrackEventKind::Meta(MetaEvent::TimeSignature {
            numerator: 6,
            denominator: 8,
            clocks_per_click: 24,
            thirty_seconds_per_quarter: 8,
        })
    );
    assert_eq!(
        kinds[2],
        &TrackEventKind::Meta(MetaEvent::KeySignature { sharps: -2, minor: true })
    );
    assert_eq!(kinds[3], &TrackEventKind::Meta(MetaEvent::TrackName("Hi".to_string())));
    assert_eq!(kinds[6], &TrackEventKind::Meta(MetaEvent::EndOfTrack));
    let events = smf.tracks[0].midi_events();
    assert_eq!(events.len(), 2);
    assert_eq!(events[1], (10, MidiEvent::PitchBend { channel: 1, value: 8192 }));
    match events[0].1 {
        MidiEvent::ProgramChange { channel, program } => {
            assert_eq!(channel, 1);
            assert_eq!(program.0, 5);
        }
        other => panic!("unexpected {:?}", other),
    }
}

#[test]
fn truncated_track_is_an_error() {
    let mut bytes = file(0, 96, &[vec![0x00, 0x90, 0x3c, 0x40]]);
    bytes.truncate(bytes.len() - 1);
    assert_eq!(Smf::parse(&bytes), Err(MidiError::UnexpectedEof));
}

#[test]
fn midi_ticks_never_go_down() {
    // Delta-times 5, 0, 300 (two-byte VLQ), then a meta event with delta 7
    // and a final note-off with delta 1.
    let track = vec![
        0x05, 0x90, 0x3c, 0x40, // dt 5
        0x00, 0x40, 0x40, // dt 0, running status
        0x82, 0x2C, 0x80, 0x3c, 0x00, // dt 300
        0x07, 0xFF, 0x01, 0x01, b'x', // dt 7: text
        0x01, 0x80, 0x40, 0x00, // dt 1
        0x00, 0xFF, 0x2F, 0x00,
    ];
    let smf = Smf::parse(&file(0, 96, &[track])).unwrap();
    let ticks: Vec<u64> = smf.tracks[0].midi_events().iter().map(|e| e.0).collect();
    assert_eq!(ticks, vec![5, 5, 305, 313]);
    assert!(ticks.windows(2).all(|w| w[0] <= w[1]));
}

#[test]
fn vlq_errors_leave_the_cursor_past_what_was_read() {
    let mut r = Reader::new(&[0x81, 0x81, 0x81, 0x81, 0x00, 0x05]);
    assert_eq!(r.vlq(), Err(MidiError::InvalidVarLen));
    assert_eq!(r.remaining(), 2);
    let mut r = Reader::new(&[0x81, 0x82]);
    assert_eq!(r.vlq(), Err(MidiError::UnexpectedEof));
    assert_eq!(r.remaining(), 0);
}

#[test]
fn checked_ticks_agree_with_midi_events() {
    let track = vec![0x05, 0x90, 0x3c, 0x40, 0x83, 0x60, 0x80, 0x3c, 0x00, 0x00, 0xFF, 0x2F, 0x00];
    let smf = Smf::parse(&file(0, 96, &[track])).unwrap();
    let t = &smf.tracks[0];
    assert_eq!(t.try_midi_events(), Some(t.midi_events()));
    assert_eq!(t.midi_events()[1].0, 5 + 480);
}
