use rameau::clip::Clip;
use rameau::convert::error::Error;
use rameau::convert::hydra::{SampleRegion, build_pdta, name20, raw_amount};
use rameau::soundfont::generator::GeneratorType;
use rameau::soundfont::hydra::{Bag, GenRecord, InstHeader, ModRecord, PresetHeader, records};
use rameau::soundfont::load;
use rameau::soundfont::model::{
    Generator, GeneratorAmount, Instrument, Modulator, Preset, Range, Sample, SampleType, SoundFont,
    Zone,
};

const PHDR_SIZE: usize = 38;
const INST_SIZE: usize = 22;
const BAG_SIZE: usize = 4;
const GEN_SIZE: usize = 4;
const SHDR_SIZE: usize = 46;

/// A bank with one preset (a global zone plus a real zone) and one
/// instrument, referencing one sample.
fn bank() -> SoundFont {
    SoundFont {
        info: Default::default(),
        presets: vec![Preset {
            name: "Piano".into(),
            program: 0,
            bank: 0,
            library: 0,
            genre: 0,
            morphology: 0,
            zones: vec![
                Zone {
                    // global zone: no Instrument generator
                    generators: vec![Generator {
                        kind: GeneratorType::INITIAL_ATTENUATION,
                        amount: GeneratorAmount::Short(50),
                    }],
                    modulators: vec![],
                },
                Zone {
                    generators: vec![
                        Generator {
                            kind: GeneratorType::KEY_RANGE,
                            amount: GeneratorAmount::Range(Range { low: 0, high: 127 }),
                        },
                        Generator {
                            kind: GeneratorType::INSTRUMENT,
                            amount: GeneratorAmount::Word(0),
                        },
                    ],
                    modulators: vec![],
                },
            ],
        }],
        instruments: vec![Instrument {
            name: "PianoInst".into(),
            zones: vec![Zone {
                generators: vec![Generator {
                    kind: GeneratorType::SAMPLE_ID,
                    amount: GeneratorAmount::Word(0),
                }],
                modulators: vec![],
            }],
        }],
        samples: vec![Sample {
            name: "A4".into(),
            clip: Clip::new(vec![0i16; 100], 44_100),
            loop_start: 10,
            loop_end: 90,
            original_key: 69,
            correction: 0,
            link: 0,
            kind: SampleType::Mono,
        }],
    }
}

fn regions() -> Vec<SampleRegion> {
    vec![SampleRegion { start: 0, end: 500, loop_start: 10, loop_end: 90 }]
}

#[test]
fn appends_terminal_sentinel_records() {
    let p = build_pdta(&bank(), &regions()).unwrap();
    // One preset + EOP, one instrument + EOI, one sample + EOS.
    assert_eq!(p.phdr.len(), 2 * PHDR_SIZE);
    assert_eq!(p.inst.len(), 2 * INST_SIZE);
    assert_eq!(p.shdr.len(), 2 * SHDR_SIZE);
    assert_eq!(&p.phdr[PHDR_SIZE..PHDR_SIZE + 3], b"EOP");
    assert_eq!(&p.inst[INST_SIZE..INST_SIZE + 3], b"EOI");
    assert_eq!(&p.shdr[SHDR_SIZE..SHDR_SIZE + 3], b"EOS");
}

#[test]
fn bag_chains_are_monotonic_and_terminated() {
    let p = build_pdta(&bank(), &regions()).unwrap();
    // Two preset zones + terminal bag.
    assert_eq!(p.pbag.len(), 3 * BAG_SIZE);
    // One instrument zone + terminal bag.
    assert_eq!(p.ibag.len(), 2 * BAG_SIZE);

    let gen_ndx = |bag: &[u8], i: usize| u16::from_le_bytes([bag[i * 4], bag[i * 4 + 1]]);
    assert_eq!(gen_ndx(&p.pbag, 0), 0); // global zone starts at 0
    assert_eq!(gen_ndx(&p.pbag, 1), 1); // after the global zone's 1 generator
    assert_eq!(gen_ndx(&p.pbag, 2), 3); // after the second zone's 2 generators
}

#[test]
fn generator_amounts_round_trip_by_variant() {
    let p = build_pdta(&bank(), &regions()).unwrap();
    // pgen: [attenuation=50] [keyrange 0..127] [instrument 0] + terminal.
    assert_eq!(p.pgen.len(), 4 * GEN_SIZE);

    let oper = |i: usize| u16::from_le_bytes([p.pgen[i * 4], p.pgen[i * 4 + 1]]);
    let amount = |i: usize| [p.pgen[i * 4 + 2], p.pgen[i * 4 + 3]];

    assert_eq!(oper(0), GeneratorType::INITIAL_ATTENUATION as u16);
    assert_eq!(i16::from_le_bytes(amount(0)), 50);

    assert_eq!(oper(1), GeneratorType::KEY_RANGE as u16);
    assert_eq!(amount(1), [0, 127]); // range: two raw bytes, not an i16

    assert_eq!(oper(2), GeneratorType::INSTRUMENT as u16);
    assert_eq!(u16::from_le_bytes(amount(2)), 0);
}

/// `.sf3` sample headers address the Vorbis pool by byte, while loop points
/// stay frame offsets relative to the sample, and the compressed bit is set.
#[test]
fn sample_headers_use_sf3_addressing() {
    let p = build_pdta(&bank(), &regions()).unwrap();
    let g = |at: usize| u32::from_le_bytes(p.shdr[at..at + 4].try_into().unwrap());

    assert_eq!(g(20), 0); // start: byte offset
    assert_eq!(g(24), 500); // end: byte offset
    assert_eq!(g(28), 10); // startloop: frames, sample-relative
    assert_eq!(g(32), 90); // endloop: frames, sample-relative
    assert_eq!(g(36), 44_100); // sample rate
    assert_eq!(p.shdr[40], 69); // original key

    let kind = u16::from_le_bytes([p.shdr[44], p.shdr[45]]);
    assert_eq!(kind, 1 | 0x10, "expected mono with the compressed bit set");
}

#[test]
fn names_are_truncated_to_twenty_bytes_and_nul_terminated() {
    let mut sf = bank();
    sf.presets[0].name = "A very long preset name indeed".into();
    let p = build_pdta(&sf, &regions()).unwrap();
    assert_eq!(&p.phdr[..19], b"A very long preset ");
    assert_eq!(p.phdr[19], 0, "the 20th byte must be the NUL terminator");
}

/// A multi-byte character straddling the 19-byte cut must not be split into
/// invalid UTF-8.
#[test]
fn truncation_respects_character_boundaries() {
    let mut sf = bank();
    // 18 ASCII bytes, then a 2-byte character crossing the boundary.
    sf.presets[0].name = format!("{}é", "x".repeat(18));
    let p = build_pdta(&sf, &regions()).unwrap();
    let name = &p.phdr[..20];
    let end = name.iter().position(|&b| b == 0).unwrap();
    std::str::from_utf8(&name[..end]).expect("truncated name must stay valid UTF-8");
    assert_eq!(end, 18, "the split character should be dropped entirely");
}

/// The reserved preset fields are part of the model and must survive.
#[test]
fn preserves_reserved_preset_fields() {
    let mut sf = bank();
    sf.presets[0].library = 0x1111_2222;
    sf.presets[0].genre = 0x3333_4444;
    sf.presets[0].morphology = 0x5555_6666;
    let p = build_pdta(&sf, &regions()).unwrap();

    let g = |at: usize| u32::from_le_bytes(p.phdr[at..at + 4].try_into().unwrap());
    assert_eq!(g(26), 0x1111_2222);
    assert_eq!(g(30), 0x3333_4444);
    assert_eq!(g(34), 0x5555_6666);
}

#[test]
fn mismatched_regions_are_refused() {
    let err = build_pdta(&bank(), &[]).err().expect("one region per sample is needed");
    assert!(matches!(err, Error::TooLarge("sample regions do not match samples")));
}

#[test]
fn raw_amounts_follow_the_variant() {
    assert_eq!(raw_amount(GeneratorAmount::Short(-2)), [0xFE, 0xFF]);
    assert_eq!(raw_amount(GeneratorAmount::Word(0x1234)), [0x34, 0x12]);
    assert_eq!(raw_amount(GeneratorAmount::Range(Range { low: 3, high: 9 })), [3, 9]);
    let mut short = [0u8; 20];
    short[..3].copy_from_slice(b"EOP");
    assert_eq!(name20("EOP"), short);
}

/// What the writer stores, the loader reads back: presets, instruments,
/// zones, generators and modulators all survive.
#[test]
fn written_arrays_read_back_as_the_model() {
    let mut sf = bank();
    sf.instruments[0].zones[0].modulators.push(Modulator {
        source: 0x0502,
        destination: GeneratorType::INITIAL_ATTENUATION,
        amount: -960,
        amount_source: 0,
        transform: 0,
    });
    let p = build_pdta(&sf, &regions()).unwrap();

    let phdr = records::<PresetHeader>(&p.phdr, 38).unwrap();
    let pbag = records::<Bag>(&p.pbag, 4).unwrap();
    let pmod = records::<ModRecord>(&p.pmod, 10).unwrap();
    let pgen = records::<GenRecord>(&p.pgen, 4).unwrap();
    let presets = load::build_presets(&phdr, &pbag, &pgen, &pmod).unwrap();
    assert_eq!(presets, sf.presets);

    let inst = records::<InstHeader>(&p.inst, 22).unwrap();
    let ibag = records::<Bag>(&p.ibag, 4).unwrap();
    let imod = records::<ModRecord>(&p.imod, 10).unwrap();
    let igen = records::<GenRecord>(&p.igen, 4).unwrap();
    let instruments = load::build_instruments(&inst, &ibag, &igen, &imod).unwrap();
    assert_eq!(instruments, sf.instruments);
}

#[test]
fn short_names_read_back_unchanged() {
    for name in ["Piano", "Grand Piano 1", "Flûte à bec", "", "nineteen bytes long"] {
        let field = rameau::convert::hydra::name20(name);
        assert_eq!(rameau::soundfont::hydra::parse_zstr(&field), name);
    }
    // Trailing white space is not kept.
    let field = rameau::convert::hydra::name20("Oboe  ");
    assert_eq!(rameau::soundfont::hydra::parse_zstr(&field), "Oboe");
}
