use rameau::clip::Clip;
use rameau::midi::event::MidiEvent;
use rameau::midi::program::MidiProgram;
use rameau::soundfont::generator::GeneratorType as G;
use rameau::soundfont::model::{
    Generator, GeneratorAmount, Instrument, Preset, Range, Sample, SampleType, SoundFont, Zone,
};
use rameau::synth::gens::{Gens, index_of, range_of, zone_matches};
use rameau::synth::machine::{Action, ChannelState, Synthesizer, build_resolved};
use rameau::synth::voice::is_playable;

fn gen(kind: G, amount: GeneratorAmount) -> Generator {
    Generator { kind, amount }
}

fn zone(generators: Vec<Generator>) -> Zone {
    Zone { generators, modulators: vec![] }
}

/// A tiny one-preset SoundFont: a looped sine across the keyboard, key 60.
fn test_soundfont() -> SoundFont {
    let data: Vec<i16> = (0..100).map(|i| ((i as f32 * 0.2).sin() * 10_000.0) as i16).collect();
    let sample = Sample {
        name: "sine".into(),
        clip: Clip::new(data, 44_100),
        loop_start: 10,
        loop_end: 90,
        original_key: 60,
        correction: 0,
        link: 0,
        kind: SampleType::Mono,
    };
    let inst = Instrument {
        name: "inst".into(),
        zones: vec![zone(vec![
            gen(G::SAMPLE_MODES, GeneratorAmount::Short(1)),
            gen(G::SAMPLE_ID, GeneratorAmount::Word(0)),
        ])],
    };
    let preset = Preset {
        name: "preset".into(),
        program: 0,
        bank: 0,
        zones: vec![zone(vec![gen(G::INSTRUMENT, GeneratorAmount::Word(0))])],
        ..Default::default()
    };
    SoundFont {
        presets: vec![preset],
        instruments: vec![inst],
        samples: vec![sample],
        ..Default::default()
    }
}

fn handle(synth: &mut Synthesizer, event: MidiEvent) -> Vec<Action> {
    assert!(synth.can_handle(event));
    let mut actions = Vec::new();
    synth.handle(event, &mut actions);
    actions
}

fn stops(actions: &[Action]) -> Vec<u64> {
    actions
        .iter()
        .filter_map(|a| match a {
            Action::Stop { id } => Some(*id),
            _ => None,
        })
        .collect()
}

fn starts(actions: &[Action]) -> Vec<u64> {
    actions
        .iter()
        .filter_map(|a| match a {
            Action::Start { id, .. } => Some(*id),
            _ => None,
        })
        .collect()
}

#[test]
fn note_on_produces_sound_and_note_off_frees() {
    let mut synth = Synthesizer::new(test_soundfont(), 44_100);

    let on = handle(&mut synth, MidiEvent::NoteOn { channel: 0, key: 69, vel: 127 });
    assert_eq!(synth.active_voices(), 1);
    match &on[..] {
        [Action::Start { id, channel, key, vel, state, voice }] => {
            assert_eq!((*id, *channel, *key, *vel), (0, 0, 69, 127));
            assert_eq!(*state, ChannelState::default());
            assert_eq!(voice.sample_index, 0);
            assert_eq!(voice.root_key, 60);
            assert_eq!(voice.loop_region, Some((10, 90)), "sample mode 1 loops");
            assert_eq!(voice.exclusive_class, 0);
        }
        other => panic!("expected one start, got {} actions", other.len()),
    }

    let off = handle(&mut synth, MidiEvent::NoteOff { channel: 0, key: 69, vel: 0 });
    assert_eq!(synth.active_voices(), 0, "note-off forgets the voice");
    assert_eq!(stops(&off), vec![0]);
}

#[test]
fn velocity_zero_note_on_is_a_note_off() {
    let mut synth = Synthesizer::new(test_soundfont(), 44_100);
    handle(&mut synth, MidiEvent::NoteOn { channel: 3, key: 60, vel: 90 });
    let off = handle(&mut synth, MidiEvent::NoteOn { channel: 3, key: 60, vel: 0 });
    assert_eq!(stops(&off), vec![0]);
    assert_eq!(synth.active_voices(), 0);
}

#[test]
fn sustain_pedal_defers_note_off_until_release() {
    let mut synth = Synthesizer::new(test_soundfont(), 44_100);
    handle(&mut synth, MidiEvent::ControlChange { channel: 0, ctrl: 64, value: 127 });
    handle(&mut synth, MidiEvent::NoteOn { channel: 0, key: 60, vel: 100 });
    handle(&mut synth, MidiEvent::NoteOn { channel: 1, key: 60, vel: 100 });
    let off = handle(&mut synth, MidiEvent::NoteOff { channel: 0, key: 60, vel: 0 });
    assert!(off.is_empty(), "the pedal holds the note");
    assert_eq!(synth.active_voices(), 2);
    assert!(synth.voices()[0].held_by_pedal);
    let up = handle(&mut synth, MidiEvent::ControlChange { channel: 0, ctrl: 64, value: 0 });
    assert_eq!(stops(&up), vec![0]);
    assert_eq!(synth.active_voices(), 1, "the other channel's note still sounds");
}

#[test]
fn polyphony_steals_the_oldest_voice() {
    let mut synth = Synthesizer::new(test_soundfont(), 44_100);
    for n in 0..128u8 {
        handle(&mut synth, MidiEvent::NoteOn { channel: 0, key: n % 128, vel: 100 });
    }
    assert_eq!(synth.active_voices(), 128);
    let more = handle(&mut synth, MidiEvent::NoteOn { channel: 0, key: 1, vel: 100 });
    assert_eq!(stops(&more), vec![0], "the oldest voice is stolen");
    assert_eq!(starts(&more), vec![128]);
    assert_eq!(synth.active_voices(), 128);
}

#[test]
fn exclusive_class_cuts_voices_of_the_class() {
    let mut sf = test_soundfont();
    sf.instruments[0].zones[0]
        .generators
        .insert(0, gen(G::EXCLUSIVE_CLASS, GeneratorAmount::Short(3)));
    let mut synth = Synthesizer::new(sf, 44_100);
    handle(&mut synth, MidiEvent::NoteOn { channel: 0, key: 40, vel: 100 });
    let second = handle(&mut synth, MidiEvent::NoteOn { channel: 0, key: 42, vel: 100 });
    assert_eq!(stops(&second), vec![0]);
    assert_eq!(starts(&second), vec![1]);
    assert_eq!(synth.active_voices(), 1);
}

#[test]
fn controllers_update_their_channel_and_reset_clears_everything() {
    let mut synth = Synthesizer::new(test_soundfont(), 44_100);
    handle(&mut synth, MidiEvent::NoteOn { channel: 2, key: 60, vel: 100 });
    let vol = handle(&mut synth, MidiEvent::ControlChange { channel: 2, ctrl: 7, value: 50 });
    match &vol[..] {
        [Action::Update { id, state }] => {
            assert_eq!(*id, 0);
            assert_eq!(state.volume, 50);
        }
        _ => panic!("expected one update"),
    }
    let bend = handle(&mut synth, MidiEvent::PitchBend { channel: 2, value: 0 });
    assert!(matches!(&bend[..], [Action::Update { id: 0, state }] if state.bend == 0));
    let none = handle(&mut synth, MidiEvent::ControlChange { channel: 5, ctrl: 7, value: 1 });
    assert!(none.is_empty(), "no voice on that channel");
    let reset = handle(&mut synth, MidiEvent::SystemReset);
    assert_eq!(stops(&reset), vec![0]);
    assert_eq!(synth.active_voices(), 0);
}

#[test]
fn program_bank_and_drum_lookup_fall_back() {
    let mut sf = test_soundfont();
    // A second preset, program 7, bank 0.
    let mut p = sf.presets[0].clone();
    p.program = 7;
    sf.presets.push(p);
    let mut synth = Synthesizer::new(sf, 44_100);
    handle(&mut synth, MidiEvent::ProgramChange { channel: 0, program: MidiProgram(7) });
    handle(&mut synth, MidiEvent::ControlChange { channel: 0, ctrl: 0, value: 3 });
    // Bank 3 program 7 is missing: bank 0 program 7 plays.
    let on = handle(&mut synth, MidiEvent::NoteOn { channel: 0, key: 60, vel: 100 });
    assert_eq!(starts(&on), vec![0]);
    // The drum channel looks in bank 128, then falls back to bank 0.
    let drum = handle(&mut synth, MidiEvent::NoteOn { channel: 9, key: 36, vel: 100 });
    assert_eq!(starts(&drum), vec![1]);
}

#[test]
fn zones_outside_the_key_range_do_not_sound() {
    let mut sf = test_soundfont();
    sf.instruments[0].zones[0]
        .generators
        .insert(0, gen(G::KEY_RANGE, GeneratorAmount::Range(Range { low: 60, high: 72 })));
    let mut synth = Synthesizer::new(sf, 44_100);
    assert!(handle(&mut synth, MidiEvent::NoteOn { channel: 0, key: 59, vel: 100 }).is_empty());
    assert_eq!(starts(&handle(&mut synth, MidiEvent::NoteOn { channel: 0, key: 72, vel: 1 })), vec![0]);
}

#[test]
fn overflowing_merges_are_flagged() {
    let mut sf = test_soundfont();
    let big = gen(G::PAN, GeneratorAmount::Word(65_535));
    sf.presets[0].zones[0].generators = vec![big; 40_000];
    sf.presets[0].zones[0].generators.push(gen(G::INSTRUMENT, GeneratorAmount::Word(0)));
    let synth = Synthesizer::new(sf, 44_100);
    assert!(!synth.can_handle(MidiEvent::NoteOn { channel: 0, key: 60, vel: 100 }));
    assert!(synth.can_handle(MidiEvent::NoteOff { channel: 0, key: 60, vel: 100 }));
}

#[test]
fn generators_merge_by_layer() {
    let mut g = Gens::defaults();
    assert_eq!(g.get(G::INITIAL_FILTER_CUTOFF_FREQUENCY), 13_500);
    assert_eq!(g.get(G::ATTACK_VOLUME_ENVELOPE), -12_000);
    assert_eq!(g.get(G::SUSTAIN_VOLUME_ENVELOPE), 0);
    assert_eq!(g.get(G::SCALE_TUNING), 100);
    assert_eq!(g.get(G::OVERRIDING_ROOT_KEY), -1);
    assert_eq!(g.get(G::COUNT), 0);

    // Absolute: a later zone replaces; ranges are not scalars.
    g.apply_set(&zone(vec![
        gen(G::PAN, GeneratorAmount::Short(-100)),
        gen(G::KEY_RANGE, GeneratorAmount::Range(Range { low: 1, high: 2 })),
    ]));
    g.apply_set(&zone(vec![gen(G::PAN, GeneratorAmount::Short(250))]));
    assert_eq!(g.get(G::PAN), 250);
    // Relative: preset zones add.
    g.apply_add(&zone(vec![gen(G::PAN, GeneratorAmount::Short(-50)), gen(G::PAN, GeneratorAmount::Word(10))]));
    assert_eq!(g.get(G::PAN), 210);
    assert!(g.add_fits_with(&zone(vec![gen(G::PAN, GeneratorAmount::Word(1))])));
}

#[test]
fn ranges_and_indices_are_found_by_type() {
    let z = zone(vec![
        gen(G::KEY_RANGE, GeneratorAmount::Range(Range { low: 10, high: 20 })),
        gen(G::INSTRUMENT, GeneratorAmount::Range(Range { low: 0, high: 0 })),
        gen(G::INSTRUMENT, GeneratorAmount::Short(-1)),
        gen(G::SAMPLE_ID, GeneratorAmount::Word(4)),
    ]);
    assert_eq!(range_of(&z, G::KEY_RANGE), Some(Range { low: 10, high: 20 }));
    assert_eq!(range_of(&z, G::VELOCITY_RANGE), None);
    assert_eq!(index_of(&z, G::INSTRUMENT), Some(0xFFFF));
    assert_eq!(index_of(&z, G::SAMPLE_ID), Some(4));
    assert_eq!(index_of(&z, G::PAN), None);
    assert!(zone_matches(&z, 15, 0));
    assert!(!zone_matches(&z, 21, 64));
}

#[test]
fn rom_and_empty_samples_are_not_playable() {
    let sf = test_soundfont();
    let mut s = sf.samples[0].clone();
    assert!(is_playable(&s));
    s.kind = SampleType::RomMono;
    assert!(!is_playable(&s));
    s.kind = SampleType::Left;
    s.clip = Clip::new(vec![], 44_100);
    assert!(!is_playable(&s));
}

#[test]
fn loop_offsets_move_the_loop_and_clamp() {
    let sf = test_soundfont();
    let mut g = Gens::defaults();
    g.apply_set(&zone(vec![
        gen(G::SAMPLE_MODES, GeneratorAmount::Short(3)),
        gen(G::START_LOOP_ADDRESS_OFFSET, GeneratorAmount::Short(-20)),
        gen(G::END_LOOP_ADDRESS_COARSE_OFFSET, GeneratorAmount::Short(1)),
        gen(G::OVERRIDING_ROOT_KEY, GeneratorAmount::Short(62)),
    ]));
    let r = build_resolved(g, &sf.samples[0], 0);
    assert_eq!(r.loop_region, Some((0, 90 + 32_768)));
    assert_eq!(r.root_key, 62);
    let mut once = Gens::defaults();
    once.apply_set(&zone(vec![gen(G::SAMPLE_MODES, GeneratorAmount::Short(2))]));
    assert_eq!(build_resolved(once, &sf.samples[0], 0).loop_region, None);
}
