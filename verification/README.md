# rameau

SoundFont-based MIDI playback, with its file formats and its decisions
verified in Verus.

## Layout

- `src/` — the verified library.
  - `midi/` — MIDI events, General MIDI programs, and the Standard MIDI File
    parser (running status, variable-length quantities, meta events, tick
    times).
  - `soundfont/` — the SoundFont model and the `.sf2`/`.sf3` loader: the RIFF
    walk, the `INFO` list, the nine hydra arrays, zones, presets, instruments
    and samples (raw PCM, or Ogg/Vorbis decoded through `lewton`). RIFF reads
    go through the `riff` crate.
  - `convert/` — writing a bank back out as `.sf3`: the hydra arrays, the
    sample regions, the whole file; and the laws that what the writer lays
    out the loader reads back.
  - `synth/` — the synthesizer as a state machine: per-channel controller
    state, voice resolution through the generator hierarchy, sustain pedal,
    exclusive classes and voice stealing, each event answered with the start,
    update and stop actions a backend is to carry out.
  - `kern/` — reading `**kern` files: what kind each line is, its fields,
    the spines it declares, how spine splits, joins and ends rearrange the
    columns, barline numbers, reference records, and the data tokens.
  - `compose/`, `chords/` — the vocabulary of the composition engine: its
    phases, forms, roles, voice-entry order, chord qualities and labels. The
    engine itself (the composer, the forms' bar planning, the harmoniser, the
    annealer, the mutations, the conductor) is not here: it computes with
    floating-point weights, costs and onsets throughout, and it is built on
    the project's music-theory, shared-types and voice crates, which are not
    part of this source tree.
- `app/` — the program around it: the `sf2-to-sf3` command, file I/O, the
  Ogg/Vorbis encoder, the floating-point audio path (the software mixer, the
  envelopes, voice parameters), the timing of `**kern` scores (in
  floating-point crotchets), and the `serde` forms of the value types.
- `tests/` — tests of the library.
