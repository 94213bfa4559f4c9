use std::num::{NonZeroU32, NonZeroU8};

use rameau::clip::Clip;
use rameau::convert::error::Error;
use rameau::convert::write::assemble_sf3;
use rameau::soundfont::generator::GeneratorType;
use rameau::soundfont::model::{
    Generator, GeneratorAmount, Info, Instrument, Preset, Sample, SampleType, SoundFont, Version,
    Zone,
};

fn encode(pcm: &[i16], rate: u32) -> Vec<u8> {
    let mut encoder = vorbis_rs::VorbisEncoderBuilder::new_with_serial(
        NonZeroU32::new(rate).unwrap(),
        NonZeroU8::new(1).unwrap(),
        Vec::new(),
        11,
    )
    .build()
    .unwrap();
    let samples: Vec<f32> = pcm.iter().map(|&s| s as f32 / 32768.0).collect();
    encoder.encode_audio_block([samples]).unwrap();
    encoder.finish().unwrap()
}

fn ramp(n: usize) -> Vec<i16> {
    (0..n).map(|i| (((i % 200) as i32 - 100) * 60) as i16).collect()
}

fn sample(name: &str, audio: Vec<i16>, rate: u32, key: u8) -> Sample {
    let n = audio.len() as u32;
    Sample {
        name: name.into(),
        clip: Clip::new(audio, rate),
        loop_start: 8,
        loop_end: n - 8,
        original_key: key,
        correction: -3,
        link: 0,
        kind: SampleType::Mono,
    }
}

fn two_sample_bank(a: Vec<i16>, b: Vec<i16>) -> SoundFont {
    SoundFont {
        info: Info {
            name: Some("Written Bank".into()),
            engineers: Some("Somebody".into()),
            rom_version: Some(Version { major: 2, minor: 5 }),
            ..Default::default()
        },
        presets: vec![Preset {
            name: "Pad".into(),
            program: 3,
            bank: 0,
            zones: vec![Zone {
                generators: vec![Generator {
                    kind: GeneratorType::INSTRUMENT,
                    amount: GeneratorAmount::Word(0),
                }],
                modulators: vec![],
            }],
            ..Default::default()
        }],
        instruments: vec![Instrument {
            name: "PadInst".into(),
            zones: vec![
                Zone {
                    generators: vec![Generator {
                        kind: GeneratorType::SAMPLE_ID,
                        amount: GeneratorAmount::Word(0),
                    }],
                    modulators: vec![],
                },
                Zone {
                    generators: vec![Generator {
                        kind: GeneratorType::SAMPLE_ID,
                        amount: GeneratorAmount::Word(1),
                    }],
                    modulators: vec![],
                },
            ],
        }],
        samples: vec![sample("Low", a, 22_050, 48), sample("High", b, 44_100, 72)],
    }
}

#[test]
fn an_assembled_file_reads_back_as_the_bank_written() {
    let a = ramp(2_000);
    let b = ramp(3_000);
    let sa = encode(&a, 22_050);
    let sb = encode(&b, 44_100);
    let sf = two_sample_bank(a.clone(), b.clone());
    let bytes = assemble_sf3(&sf, &[sa.clone(), sb.clone()]).expect("the bank is written");
    let back = SoundFont::from_bytes(&bytes).expect("the written file loads");
    assert_eq!(back.info.version, Version { major: 3, minor: 1 });
    assert_eq!(back.info.name.as_deref(), Some("Written Bank"));
    assert_eq!(back.info.engineers.as_deref(), Some("Somebody"));
    assert_eq!(back.info.rom_version, Some(Version { major: 2, minor: 5 }));
    assert_eq!(back.info.comments, None);
    assert_eq!(back.presets, sf.presets);
    assert_eq!(back.instruments, sf.instruments);
    assert_eq!(back.samples.len(), 2);
    assert_eq!(back.samples[0].name, "Low");
    assert_eq!(back.samples[1].name, "High");
    assert_eq!(back.samples[0].data().len(), a.len());
    assert_eq!(back.samples[1].data().len(), b.len());
    assert_eq!(back.samples[0].sample_rate(), 22_050);
    assert_eq!(back.samples[1].sample_rate(), 44_100);
    assert_eq!((back.samples[1].loop_start, back.samples[1].loop_end), (8, 2_992));
    assert_eq!((back.samples[0].original_key, back.samples[0].correction), (48, -3));
    assert_eq!(back.samples[1].kind, SampleType::Mono);
}

#[test]
fn the_file_is_a_riff_bank_whose_length_covers_its_body() {
    let a = ramp(500);
    let sa = encode(&a, 22_050);
    let mut sf = two_sample_bank(a.clone(), a.clone());
    sf.samples.truncate(1);
    let bytes = assemble_sf3(&sf, &[sa.clone()]).unwrap();
    assert_eq!(&bytes[0..4], b"RIFF");
    let len = u32::from_le_bytes([bytes[4], bytes[5], bytes[6], bytes[7]]) as usize;
    assert_eq!(bytes.len(), 8 + len + len % 2);
    assert_eq!(&bytes[8..12], b"sfbk");
    assert_eq!(&bytes[12..16], b"LIST");
    assert_eq!(&bytes[20..24], b"INFO");
    assert_eq!(&bytes[24..28], b"ifil");
    assert_eq!(&bytes[28..32], &[4, 0, 0, 0]);
    assert_eq!(&bytes[32..36], &[3, 0, 1, 0]);
    // The pool is the stream itself, byte for byte.
    let at = bytes.windows(4).position(|w| w == b"smpl").unwrap();
    let pool_len =
        u32::from_le_bytes([bytes[at + 4], bytes[at + 5], bytes[at + 6], bytes[at + 7]]) as usize;
    assert_eq!(pool_len, sa.len());
    assert_eq!(&bytes[at + 8..at + 8 + pool_len], &sa[..]);
}

#[test]
fn an_empty_bank_is_written_and_reads_back_empty() {
    let bytes = assemble_sf3(&SoundFont::default(), &[]).unwrap();
    let back = SoundFont::from_bytes(&bytes).unwrap();
    assert!(back.presets.is_empty());
    assert!(back.instruments.is_empty());
    assert!(back.samples.is_empty());
    assert_eq!(back.info.version, Version { major: 3, minor: 1 });
}

#[test]
fn streams_that_do_not_match_the_samples_are_refused() {
    let a = ramp(500);
    let sf = two_sample_bank(a.clone(), a.clone());
    let one = encode(&a, 22_050);
    match assemble_sf3(&sf, &[one]) {
        Err(Error::TooLarge(what)) => assert_eq!(what, "sample regions do not match samples"),
        other => panic!("expected a mismatch, got {:?}", other.map(|v| v.len())),
    }
}

#[test]
fn a_preset_index_past_sixteen_bits_is_refused() {
    let zone = Zone {
        generators: vec![Generator { kind: GeneratorType::INSTRUMENT, amount: GeneratorAmount::Word(0) }],
        modulators: vec![],
    };
    let preset = Preset { name: "Many".into(), zones: vec![zone; 70_000], ..Default::default() };
    let sf = SoundFont { presets: vec![preset], ..Default::default() };
    match assemble_sf3(&sf, &[]) {
        Err(Error::TooLarge(_)) => {},
        other => panic!("expected an overflow, got {:?}", other.map(|v| v.len())),
    }
}
