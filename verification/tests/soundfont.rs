use std::num::{NonZeroU32, NonZeroU8};

use rameau::clip::Clip;
use rameau::convert::hydra::{SampleRegion, build_pdta};
use rameau::soundfont::error::Error;
use rameau::soundfont::generator::GeneratorType;
use rameau::soundfont::hydra::parse_zstr;
use rameau::soundfont::model::{
    Generator, GeneratorAmount, Instrument, Preset, Sample, SampleType, SoundFont, Version, Zone,
};

fn chunk(id: &[u8; 4], data: &[u8]) -> Vec<u8> {
    let mut out = id.to_vec();
    out.extend_from_slice(&(data.len() as u32).to_le_bytes());
    out.extend_from_slice(data);
    if data.len() % 2 == 1 {
        out.push(0);
    }
    out
}

fn list(kind: &[u8; 4], children: &[Vec<u8>]) -> Vec<u8> {
    let mut body = kind.to_vec();
    for c in children {
        body.extend_from_slice(c);
    }
    chunk(b"LIST", &body)
}

fn riff(children: &[Vec<u8>]) -> Vec<u8> {
    let mut body = b"sfbk".to_vec();
    for c in children {
        body.extend_from_slice(c);
    }
    chunk(b"RIFF", &body)
}

fn name20(s: &str) -> Vec<u8> {
    let mut v = s.as_bytes().to_vec();
    v.resize(20, 0);
    v
}

fn info() -> Vec<u8> {
    list(
        b"INFO",
        &[
            chunk(b"ifil", &[2, 0, 1, 0]),
            chunk(b"isng", b"EMU8000\0"),
            chunk(b"INAM", b"Test Bank \0\0"),
            chunk(b"ICMT", b"first\0"),
            chunk(b"ICMT", b"second\0"),
        ],
    )
}

/// A hydra with one preset, one instrument and one sample header of type
/// `sample_type` spanning `start..end` with loop `sl..el`.
fn pdta(sample_type: u16, start: u32, end: u32, sl: u32, el: u32) -> Vec<u8> {
    let mut phdr = name20("Lead");
    phdr.extend_from_slice(&5u16.to_le_bytes()); // program
    phdr.extend_from_slice(&1u16.to_le_bytes()); // bank
    phdr.extend_from_slice(&0u16.to_le_bytes()); // bag
    phdr.extend_from_slice(&[0u8; 12]);
    phdr.extend_from_slice(&name20("EOP"));
    phdr.extend_from_slice(&[0, 0, 0, 0]);
    phdr.extend_from_slice(&1u16.to_le_bytes());
    phdr.extend_from_slice(&[0u8; 12]);

    let pbag = [0u8, 0, 0, 0, 1, 0, 0, 0];
    let mut pgen = Vec::new();
    pgen.extend_from_slice(&41u16.to_le_bytes()); // Instrument 0
    pgen.extend_from_slice(&0u16.to_le_bytes());
    pgen.extend_from_slice(&[0u8; 4]);
    let pmod = [0u8; 10];

    let mut inst = name20("Inst");
    inst.extend_from_slice(&0u16.to_le_bytes());
    inst.extend_from_slice(&name20("EOI"));
    inst.extend_from_slice(&1u16.to_le_bytes());
    let ibag = [0u8, 0, 0, 0, 2, 0, 0, 0];
    let mut igen = Vec::new();
    igen.extend_from_slice(&43u16.to_le_bytes()); // KeyRange 36..=84
    igen.extend_from_slice(&[36, 84]);
    igen.extend_from_slice(&53u16.to_le_bytes()); // SampleID 0
    igen.extend_from_slice(&0u16.to_le_bytes());
    igen.extend_from_slice(&[0u8; 4]);
    let imod = [0u8; 10];

    let mut shdr = name20("Sine");
    for v in [start, end, sl, el, 22_050] {
        shdr.extend_from_slice(&v.to_le_bytes());
    }
    shdr.push(60);
    shdr.push(0xFB); // -5 cents
    shdr.extend_from_slice(&0u16.to_le_bytes());
    shdr.extend_from_slice(&sample_type.to_le_bytes());
    shdr.extend_from_slice(&name20("EOS"));
    shdr.extend_from_slice(&[0u8; 26]);

    list(
        b"pdta",
        &[
            chunk(b"phdr", &phdr),
            chunk(b"pbag", &pbag),
            chunk(b"pmod", &pmod),
            chunk(b"pgen", &pgen),
            chunk(b"inst", &inst),
            chunk(b"ibag", &ibag),
            chunk(b"imod", &imod),
            chunk(b"igen", &igen),
            chunk(b"shdr", &shdr),
        ],
    )
}

/// Eight frames of PCM, then a frame of loop tail.
fn pcm() -> Vec<u8> {
    let mut v = Vec::new();
    for s in [0i16, 100, -100, 200, -200, 300, -300, 400, 7] {
        v.extend_from_slice(&s.to_le_bytes());
    }
    v
}

fn sf2() -> Vec<u8> {
    riff(&[info(), list(b"sdta", &[chunk(b"smpl", &pcm())]), pdta(1, 1, 7, 3, 8)])
}

#[test]
fn loads_a_minimal_sf2() {
    let sf = SoundFont::from_bytes(&sf2()).expect("a well-formed bank");
    assert_eq!(sf.info.version, Version { major: 2, minor: 1 });
    assert_eq!(sf.info.engine.as_deref(), Some("EMU8000"));
    assert_eq!(sf.info.name.as_deref(), Some("Test Bank"));
    // A later record of the same id replaces an earlier one.
    assert_eq!(sf.info.comments.as_deref(), Some("second"));
    assert_eq!(sf.info.software, None);

    assert_eq!(sf.presets.len(), 1);
    let p = &sf.presets[0];
    assert_eq!((p.name.as_str(), p.program, p.bank), ("Lead", 5, 1));
    assert_eq!(
        p.zones,
        vec![Zone {
            generators: vec![Generator {
                kind: GeneratorType::INSTRUMENT,
                amount: GeneratorAmount::Word(0),
            }],
            modulators: vec![],
        }]
    );
    assert_eq!(sf.instruments.len(), 1);
    assert_eq!(sf.instruments[0].zones[0].generators.len(), 2);

    assert_eq!(sf.samples.len(), 1);
    let s = &sf.samples[0];
    assert_eq!(s.name, "Sine");
    // Frames 1..8: the loop end (8) lies past `end` (7), so it is included.
    assert_eq!(s.data(), &[100, -100, 200, -200, 300, -300, 400]);
    assert_eq!(s.sample_rate(), 22_050);
    assert_eq!((s.loop_start, s.loop_end), (2, 7));
    assert_eq!(s.original_key, 60);
    assert_eq!(s.correction, -5);
    assert_eq!(s.kind, SampleType::Mono);
}

fn format_message(r: Result<SoundFont, Error>) -> String {
    match r {
        Err(Error::Format(m)) => m,
        Err(other) => panic!("expected a format error, got {:?}", other),
        Ok(_) => panic!("expected a format error"),
    }
}

#[test]
fn rejects_files_that_are_not_soundfonts() {
    assert_eq!(format_message(SoundFont::from_bytes(b"RIFX\x04\0\0\0sfbk")), "missing RIFF header");
    assert_eq!(
        format_message(SoundFont::from_bytes(b"RIFF\x04\0\0\0WAVE")),
        "not a soundfont (form type is not 'sfbk')"
    );
    assert!(matches!(SoundFont::from_bytes(b"RIFF"), Err(Error::Io(_))));
}

#[test]
fn reports_each_missing_list() {
    let sdta = list(b"sdta", &[chunk(b"smpl", &pcm())]);
    let p = pdta(1, 1, 7, 3, 8);
    assert_eq!(format_message(SoundFont::from_bytes(&riff(&[sdta.clone(), p.clone()]))), "missing INFO list");
    assert_eq!(format_message(SoundFont::from_bytes(&riff(&[info(), p.clone()]))), "missing sdta list");
    assert_eq!(format_message(SoundFont::from_bytes(&riff(&[info(), sdta]))), "missing pdta list");
}

#[test]
fn reports_missing_and_malformed_hydra_chunks() {
    let sdta = list(b"sdta", &[chunk(b"smpl", &pcm())]);
    let no_phdr = list(b"pdta", &[chunk(b"pbag", &[0u8; 4])]);
    assert_eq!(
        format_message(SoundFont::from_bytes(&riff(&[info(), sdta.clone(), no_phdr]))),
        "missing 'phdr' chunk"
    );
    let bad_len = list(b"pdta", &[chunk(b"phdr", &[0u8; 37])]);
    assert_eq!(
        format_message(SoundFont::from_bytes(&riff(&[info(), sdta, bad_len]))),
        "hydra chunk length is not a multiple of the record size"
    );
}

#[test]
fn sample_outside_the_pool_is_an_error() {
    let bytes = riff(&[info(), list(b"sdta", &[chunk(b"smpl", &pcm())]), pdta(1, 1, 50, 3, 8)]);
    assert_eq!(format_message(SoundFont::from_bytes(&bytes)), "record offset out of range");
}

#[test]
fn zero_terminated_names_are_trimmed_and_lossy() {
    assert_eq!(parse_zstr(b"Piano   \0junk"), "Piano");
    assert_eq!(parse_zstr(b"Caf\xE9\0"), "Caf\u{FFFD}");
    assert_eq!(parse_zstr(b"no terminator  "), "no terminator");
}

fn encode(pcm: &[i16], rate: u32) -> Vec<u8> {
    let mut encoder = vorbis_rs::VorbisEncoderBuilder::new_with_serial(
        NonZeroU32::new(rate).unwrap(),
        NonZeroU8::new(1).unwrap(),
        Vec::new(),
        7,
    )
    .build()
    .unwrap();
    let samples: Vec<f32> = pcm.iter().map(|&s| s as f32 / 32768.0).collect();
    encoder.encode_audio_block([samples]).unwrap();
    encoder.finish().unwrap()
}

fn sine(n: usize) -> Vec<i16> {
    (0..n).map(|i| ((i as f32 * 0.05).sin() * 8_000.0) as i16).collect()
}

/// A bank written the `.sf3` way and read back: the model survives, and the
/// decoded audio has the frame count of what was encoded.
#[test]
fn sf3_round_trip_keeps_the_model_and_the_frame_count() {
    let audio = sine(3_000);
    let stream = encode(&audio, 22_050);
    let sf = SoundFont {
        info: Default::default(),
        presets: vec![Preset {
            name: "Lead".into(),
            program: 5,
            bank: 1,
            zones: vec![Zone {
                generators: vec![Generator {
                    kind: GeneratorType::INSTRUMENT,
                    amount: GeneratorAmount::Word(0),
                }],
                modulators: vec![],
            }],
            ..Default::default()
        }],
        instruments: vec![Instrument {
            name: "Inst".into(),
            zones: vec![Zone {
                generators: vec![Generator {
                    kind: GeneratorType::SAMPLE_ID,
                    amount: GeneratorAmount::Word(0),
                }],
                modulators: vec![],
            }],
        }],
        samples: vec![Sample {
            name: "Sine".into(),
            clip: Clip::new(audio.clone(), 22_050),
            loop_start: 100,
            loop_end: 2_900,
            original_key: 60,
            correction: 0,
            link: 0,
            kind: SampleType::Mono,
        }],
    };
    let regions =
        vec![SampleRegion { start: 0, end: stream.len() as u32, loop_start: 100, loop_end: 2_900 }];
    let p = build_pdta(&sf, &regions).unwrap();
    let bytes = riff(&[
        info(),
        list(b"sdta", &[chunk(b"smpl", &stream)]),
        list(
            b"pdta",
            &[
                chunk(b"phdr", &p.phdr),
                chunk(b"pbag", &p.pbag),
                chunk(b"pmod", &p.pmod),
                chunk(b"pgen", &p.pgen),
                chunk(b"inst", &p.inst),
                chunk(b"ibag", &p.ibag),
                chunk(b"imod", &p.imod),
                chunk(b"igen", &p.igen),
                chunk(b"shdr", &p.shdr),
            ],
        ),
    ]);
    let back = SoundFont::from_bytes(&bytes).expect("reload the written bank");
    assert_eq!(back.presets, sf.presets);
    assert_eq!(back.instruments, sf.instruments);
    let s = &back.samples[0];
    assert_eq!(s.data().len(), audio.len());
    assert_ne!(s.data(), &stream_as_pcm(&stream)[..], "the stream is decoded, not copied");
    assert_eq!((s.loop_start, s.loop_end, s.sample_rate()), (100, 2_900, 22_050));
    assert_eq!(s.kind, SampleType::Mono);
}

/// The raw bytes of a stream read as PCM, to tell decoded audio from a copy.
fn stream_as_pcm(stream: &[u8]) -> Vec<i16> {
    stream.chunks_exact(2).map(|b| i16::from_le_bytes([b[0], b[1]])).collect()
}

#[test]
fn an_undecodable_stream_is_a_vorbis_error() {
    let bytes = riff(&[
        info(),
        list(b"sdta", &[chunk(b"smpl", b"definitely not ogg")]),
        pdta(0x11, 0, 18, 0, 0),
    ]);
    assert!(matches!(SoundFont::from_bytes(&bytes), Err(Error::Vorbis(_))));
}
