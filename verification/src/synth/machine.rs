//! The synthesizer's decisions, as a state machine.
//!
//! [`Synthesizer`] is the MIDI brain, not the audio engine. It owns a
//! SoundFont and per-channel controller state, resolves each note-on through
//! the SoundFont generator hierarchy (preset zone → instrument → sample), and
//! turns every MIDI event into a list of [`Action`]s — start this voice,
//! update that one, stop another — for a playback backend to carry out. Each
//! voice it starts gets a fresh id by which later actions name it.

use vstd::prelude::*;

use crate::midi::event::MidiEvent;
use crate::soundfont::generator::GeneratorType;
use crate::soundfont::model::{
    Generator, Preset, PresetModel, Sample, SampleModel, SampleType, SoundFont, SoundFontModel,
    Zone, ZoneModel, presets_model, zones_model,
};
use crate::synth::gens::{
    Gens, add_fits, add_spec, defaults_spec, get_spec, index_of, index_spec, set_spec, zone_matches,
    zone_matches_spec,
};
use crate::synth::voice::is_rom;

verus! {

/// The MIDI channel reserved for percussion (channel 10, zero-based 9).
pub const DRUM_CHANNEL: u8 = 9;

/// The bank percussion presets live in for General MIDI banks.
pub const DRUM_BANK: u16 = 128;

/// Maximum simultaneously gated voices before the oldest is stolen.
pub const MAX_POLYPHONY: usize = 128;

/// Per-MIDI-channel controller and program state.
#[derive(Debug, Clone, Copy, PartialEq, Eq, Structural)]
pub struct ChannelState {
    pub bank: u16,
    pub program: u8,
    /// CC7, channel volume (0..=127).
    pub volume: u8,
    /// CC11, expression (0..=127).
    pub expression: u8,
    /// CC10, pan (0..=127, 64 = centre).
    pub pan: u8,
    /// 14-bit pitch bend (0..=16383, 8192 = centre).
    pub bend: u16,
    /// CC64, sustain pedal held.
    pub sustain: bool,
}

/// A channel before any controller has moved: bank and program 0, volume
/// 100, full expression, centred pan and bend, pedal up.
pub open spec fn default_channel() -> ChannelState {
    ChannelState {
        bank: 0,
        program: 0,
        volume: 100,
        expression: 127,
        pan: 64,
        bend: 8192,
        sustain: false,
    }
}

impl Default for ChannelState {
    fn default() -> (c: Self)
        ensures
            c == default_channel(),
    {
        ChannelState {
            bank: 0,
            program: 0,
            volume: 100,
            expression: 127,
            pan: 64,
            bend: 8192,
            sustain: false,
        }
    }
}

/// One gated voice the synthesizer is currently driving.
#[derive(Debug, Clone, Copy, PartialEq, Eq, Structural)]
pub struct Live {
    pub channel: u8,
    pub key: u8,
    pub exclusive_class: i32,
    /// Held down by the sustain pedal: a note-off is deferred until release.
    pub held_by_pedal: bool,
    /// The id the voice was started under.
    pub id: u64,
}

/// A resolved note-voice: the sample to play, the merged generators its
/// pitch, gain and pan follow from, and its integer parameters.
pub struct Resolved {
    pub sample_index: usize,
    pub exclusive_class: i32,
    /// The key the sample sounds at unshifted (after `OverridingRootKey`).
    pub root_key: u8,
    /// The loop, in sample frames, when the sample loops.
    pub loop_region: Option<(u32, u32)>,
    /// The merged generator values.
    pub gens: Gens,
}

/// A resolved voice as a value of the model.
pub ghost struct ResolvedModel {
    pub sample_index: usize,
    pub exclusive_class: i32,
    pub root_key: u8,
    pub loop_region: Option<(u32, u32)>,
    pub gens: Seq<i32>,
}

impl View for Resolved {
    type V = ResolvedModel;

    open spec fn view(&self) -> ResolvedModel {
        ResolvedModel {
            sample_index: self.sample_index,
            exclusive_class: self.exclusive_class,
            root_key: self.root_key,
            loop_region: self.loop_region,
            gens: self.gens@,
        }
    }
}

/// What the backend is to do.
pub enum Action {
    /// Start a voice for `key` on `channel`, under the channel state
    /// `state`; later actions name it by `id`.
    Start { id: u64, channel: u8, key: u8, vel: u8, state: ChannelState, voice: Resolved },
    /// Refresh voice `id` for the channel state `state`.
    Update { id: u64, state: ChannelState },
    /// Stop voice `id`.
    Stop { id: u64 },
}

/// An action as a value of the model.
pub ghost enum ActionModel {
    Start { id: u64, channel: u8, key: u8, vel: u8, state: ChannelState, voice: ResolvedModel },
    Update { id: u64, state: ChannelState },
    Stop { id: u64 },
}

impl View for Action {
    type V = ActionModel;

    open spec fn view(&self) -> ActionModel {
        match self {
            Action::Start { id, channel, key, vel, state, voice } => ActionModel::Start {
                id: *id,
                channel: *channel,
                key: *key,
                vel: *vel,
                state: *state,
                voice: voice@,
            },
            Action::Update { id, state } => ActionModel::Update { id: *id, state: *state },
            Action::Stop { id } => ActionModel::Stop { id: *id },
        }
    }
}

/// A list of actions as values of the model.
pub open spec fn actions_model(v: Seq<Action>) -> Seq<ActionModel> {
    v.map_values(|a: Action| a@)
}

/// The synthesizer's state as a value of the model.
pub ghost struct SynthModel {
    pub channels: Seq<ChannelState>,
    pub voices: Seq<Live>,
    pub next_id: u64,
}

/// The synthesizer's state is well formed: sixteen channels, and no more
/// voices than the polyphony allows.
pub open spec fn synth_wf(s: SynthModel) -> bool {
    s.channels.len() == 16 && s.voices.len() <= MAX_POLYPHONY
}

// ----- stopping voices ---------------------------------------------------------------

/// Whether voice `v` is one to stop: on `channel`, held by the pedal when
/// `held_only`, and of exclusive class `class` when one is given.
pub open spec fn stop_matches(v: Live, channel: u8, held_only: bool, class: Option<i32>) -> bool {
    &&& v.channel == channel
    &&& held_only ==> v.held_by_pedal
    &&& class matches Some(c) ==> v.exclusive_class == c
}

/// The voices of `vs` that stay, in order.
pub open spec fn kept_voices(vs: Seq<Live>, channel: u8, held_only: bool, class: Option<i32>) -> Seq<
    Live,
>
    decreases vs.len(),
{
    if vs.len() == 0 {
        seq![]
    } else if stop_matches(vs.last(), channel, held_only, class) {
        kept_voices(vs.drop_last(), channel, held_only, class)
    } else {
        kept_voices(vs.drop_last(), channel, held_only, class).push(vs.last())
    }
}

/// The stop actions for the voices of `vs` that go, in order.
pub open spec fn stopped_voices(vs: Seq<Live>, channel: u8, held_only: bool, class: Option<i32>) -> Seq<
    ActionModel,
>
    decreases vs.len(),
{
    if vs.len() == 0 {
        seq![]
    } else if stop_matches(vs.last(), channel, held_only, class) {
        stopped_voices(vs.drop_last(), channel, held_only, class).push(
            ActionModel::Stop { id: vs.last().id },
        )
    } else {
        stopped_voices(vs.drop_last(), channel, held_only, class)
    }
}

/// Stopping the matching voices: the others stay, in order, and each
/// matching one is stopped, in order.
pub open spec fn stop_where_spec(s: SynthModel, channel: u8, held_only: bool, class: Option<i32>) -> (
    SynthModel,
    Seq<ActionModel>,
) {
    (
        SynthModel { voices: kept_voices(s.voices, channel, held_only, class), ..s },
        stopped_voices(s.voices, channel, held_only, class),
    )
}

/// A voice after a note-off for `key` on `channel`: a matching voice not
/// yet held is held by the pedal when it is down.
pub open spec fn note_off_match(v: Live, channel: u8, key: u8) -> bool {
    v.channel == channel && v.key == key && !v.held_by_pedal
}

/// The voices that stay after a note-off.
pub open spec fn note_off_kept(vs: Seq<Live>, channel: u8, key: u8, sustained: bool) -> Seq<Live>
    decreases vs.len(),
{
    if vs.len() == 0 {
        seq![]
    } else {
        let rest = note_off_kept(vs.drop_last(), channel, key, sustained);
        let v = vs.last();
        if note_off_match(v, channel, key) {
            if sustained {
                rest.push(Live { held_by_pedal: true, ..v })
            } else {
                rest
            }
        } else {
            rest.push(v)
        }
    }
}

/// The stop actions of a note-off: none while the pedal is down.
pub open spec fn note_off_stopped(vs: Seq<Live>, channel: u8, key: u8, sustained: bool) -> Seq<
    ActionModel,
>
    decreases vs.len(),
{
    if vs.len() == 0 {
        seq![]
    } else {
        let rest = note_off_stopped(vs.drop_last(), channel, key, sustained);
        let v = vs.last();
        if note_off_match(v, channel, key) && !sustained {
            rest.push(ActionModel::Stop { id: v.id })
        } else {
            rest
        }
    }
}

/// Whether `channel`'s sustain pedal is down (no pedal on channels past the
/// sixteenth).
pub open spec fn sustained_spec(s: SynthModel, channel: u8) -> bool {
    channel < 16 && s.channels[channel as int].sustain
}

/// A note-off for `key` on `channel`: the matching voices stop, or are held
/// while the pedal is down.
pub open spec fn note_off_spec(s: SynthModel, channel: u8, key: u8) -> (SynthModel, Seq<ActionModel>) {
    let sus = sustained_spec(s, channel);
    (
        SynthModel { voices: note_off_kept(s.voices, channel, key, sus), ..s },
        note_off_stopped(s.voices, channel, key, sus),
    )
}

/// The update actions that push the state `state` to every voice on
/// `channel`, in order.
pub open spec fn updates(vs: Seq<Live>, channel: u8, state: ChannelState) -> Seq<ActionModel>
    decreases vs.len(),
{
    if vs.len() == 0 {
        seq![]
    } else {
        let rest = updates(vs.drop_last(), channel, state);
        if vs.last().channel == channel {
            rest.push(ActionModel::Update { id: vs.last().id, state })
        } else {
            rest
        }
    }
}

/// The state that rules `channel`: channels past the sixteenth wrap.
pub open spec fn chan_of(s: SynthModel, channel: u8) -> ChannelState {
    s.channels[(channel % 16) as int]
}

/// Pushing `channel`'s state to its voices.
pub open spec fn update_channel_spec(s: SynthModel, channel: u8) -> (SynthModel, Seq<ActionModel>) {
    (s, updates(s.voices, channel, chan_of(s, channel)))
}

/// `s` with channel `channel` set to `c`.
pub open spec fn with_channel(s: SynthModel, channel: u8, c: ChannelState) -> SynthModel {
    SynthModel { channels: s.channels.update(channel as int, c), ..s }
}

/// A control change: bank select, volume, pan, expression, the sustain
/// pedal, all sound/notes off and reset-all-controllers; other controllers
/// and channels past the sixteenth are ignored.
pub open spec fn control_change_spec(s: SynthModel, channel: u8, ctrl: u8, value: u8) -> (
    SynthModel,
    Seq<ActionModel>,
) {
    if channel >= 16 {
        (s, seq![])
    } else {
        let c = s.channels[channel as int];
        if ctrl == 0 {
            (with_channel(s, channel, ChannelState { bank: value as u16, ..c }), seq![])
        } else if ctrl == 7 {
            update_channel_spec(with_channel(s, channel, ChannelState { volume: value, ..c }), channel)
        } else if ctrl == 10 {
            update_channel_spec(with_channel(s, channel, ChannelState { pan: value, ..c }), channel)
        } else if ctrl == 11 {
            update_channel_spec(
                with_channel(s, channel, ChannelState { expression: value, ..c }),
                channel,
            )
        } else if ctrl == 64 {
            let down = value >= 64;
            let s1 = with_channel(s, channel, ChannelState { sustain: down, ..c });
            if down {
                (s1, seq![])
            } else {
                stop_where_spec(s1, channel, true, None)
            }
        } else if ctrl == 120 || ctrl == 123 {
            stop_where_spec(s, channel, false, None)
        } else if ctrl == 121 {
            update_channel_spec(
                with_channel(
                    s,
                    channel,
                    ChannelState { bank: c.bank, program: c.program, ..default_channel() },
                ),
                channel,
            )
        } else {
            (s, seq![])
        }
    }
}

/// The stop actions for every voice, in order.
pub open spec fn stop_all(vs: Seq<Live>) -> Seq<ActionModel> {
    vs.map_values(|v: Live| ActionModel::Stop { id: v.id })
}

/// A reset: every voice stops and every channel returns to its defaults.
pub open spec fn reset_spec(s: SynthModel) -> (SynthModel, Seq<ActionModel>) {
    (
        SynthModel {
            channels: Seq::new(16, |i: int| default_channel()),
            voices: seq![],
            next_id: s.next_id,
        },
        stop_all(s.voices),
    )
}

/// Making room for one more voice: at the polyphony limit the oldest voice
/// is stolen.
pub open spec fn make_room_spec(s: SynthModel) -> (SynthModel, Seq<ActionModel>) {
    if s.voices.len() < MAX_POLYPHONY {
        (s, seq![])
    } else {
        (SynthModel { voices: s.voices.drop_first(), ..s }, seq![ActionModel::Stop { id: s.voices[0].id }])
    }
}

/// The synthesizer: its SoundFont, render rate, channel states and gated
/// voices.
pub struct Synthesizer {
    soundfont: SoundFont,
    sample_rate: u32,
    channels: Vec<ChannelState>,
    voices: Vec<Live>,
    next_id: u64,
}

// ----- resolving a note-on -------------------------------------------------------------

/// The first preset at or after `i` with bank `bank` and program `program`.
pub open spec fn find_preset(ps: Seq<PresetModel>, bank: u16, program: u16, i: int) -> Option<int>
    decreases ps.len() - i,
{
    if i < 0 || i >= ps.len() {
        None
    } else if ps[i].bank == bank && ps[i].program == program {
        Some(i)
    } else {
        find_preset(ps, bank, program, i + 1)
    }
}

/// The preset a channel plays: the first with its bank and program, else
/// the first of bank 0 with its program, else the first of its bank with
/// program 0.
pub open spec fn lookup_spec(ps: Seq<PresetModel>, bank: u16, program: u16) -> Option<int> {
    match find_preset(ps, bank, program, 0) {
        Some(i) => Some(i),
        None => match find_preset(ps, 0, program, 0) {
            Some(i) => Some(i),
            None => find_preset(ps, bank, 0, 0),
        },
    }
}

/// A zone list's leading global zone (one without the `terminal`
/// generator), and the zones after it.
pub open spec fn split_global_spec(zs: Seq<ZoneModel>, terminal: GeneratorType) -> (
    Option<ZoneModel>,
    Seq<ZoneModel>,
) {
    if zs.len() > 0 && index_spec(zs[0].generators, terminal) is None {
        (Some(zs[0]), zs.drop_first())
    } else {
        (None, zs)
    }
}

/// The generators of an optional zone.
pub open spec fn opt_gens(z: Option<ZoneModel>) -> Seq<Generator> {
    match z {
        Some(z) => z.generators,
        None => seq![],
    }
}

/// The instrument-side merge: defaults, then the instrument's global zone,
/// then its local zone, each replacing.
pub open spec fn inst_merged(ig: Option<ZoneModel>, iz: ZoneModel) -> Seq<i32> {
    set_spec(set_spec(defaults_spec(), opt_gens(ig)), iz.generators)
}

/// The full merge: the instrument side, then the preset's global zone and
/// its local zone, each added.
pub open spec fn merged_spec(ig: Option<ZoneModel>, iz: ZoneModel, pg: Option<ZoneModel>, pz: ZoneModel) -> Seq<i32> {
    add_spec(add_spec(inst_merged(ig, iz), opt_gens(pg)), pz.generators)
}

/// Every sum of the preset-side merge fits an `i32`.
pub open spec fn merge_fits(ig: Option<ZoneModel>, iz: ZoneModel, pg: Option<ZoneModel>, pz: ZoneModel) -> bool {
    &&& add_fits(inst_merged(ig, iz), opt_gens(pg))
    &&& add_fits(add_spec(inst_merged(ig, iz), opt_gens(pg)), pz.generators)
}

/// The start of a loop in sample frames: the sample's loop point moved by
/// the fine and coarse (32768-frame) offsets, clamped at zero and taken to
/// 32 bits.
pub open spec fn loop_point(base: u32, fine: i32, coarse: i32) -> u32 {
    let x = base + fine + coarse * 32768;
    (if x < 0 {
        0
    } else {
        x
    }) as u32
}

/// A resolved voice: the sample `si` played with the merged generators `g`.
/// The root key is `OverridingRootKey` when set, else the sample's; the
/// loop, moved by the loop offsets, is kept when the sample mode loops and
/// it is not empty.
pub open spec fn resolved_of(g: Seq<i32>, s: SampleModel, si: usize) -> ResolvedModel {
    let root = get_spec(g, GeneratorType::OVERRIDING_ROOT_KEY);
    let ls = loop_point(
        s.loop_start,
        get_spec(g, GeneratorType::START_LOOP_ADDRESS_OFFSET),
        get_spec(g, GeneratorType::START_LOOP_ADDRESS_COARSE_OFFSET),
    );
    let le = loop_point(
        s.loop_end,
        get_spec(g, GeneratorType::END_LOOP_ADDRESS_OFFSET),
        get_spec(g, GeneratorType::END_LOOP_ADDRESS_COARSE_OFFSET),
    );
    let mode = get_spec(g, GeneratorType::SAMPLE_MODES) & 3i32;
    ResolvedModel {
        sample_index: si,
        exclusive_class: get_spec(g, GeneratorType::EXCLUSIVE_CLASS),
        root_key: if root >= 0 {
            root as u8
        } else {
            s.original_key
        },
        loop_region: if (mode == 1 || mode == 3) && le > ls {
            Some((ls, le))
        } else {
            None
        },
        gens: g,
    }
}

/// Whether instrument zone `iz` sounds for `key` and `vel`, and its sample
/// if so: it must admit them, name a sample the bank has, and that sample
/// must not be a ROM sample.
pub open spec fn inst_zone_sample(sf: SoundFontModel, iz: ZoneModel, key: u8, vel: u8) -> Option<int> {
    if !zone_matches_spec(iz.generators, key, vel) {
        None
    } else {
        match index_spec(iz.generators, GeneratorType::SAMPLE_ID) {
            None => None,
            Some(si) => if (si as int) < sf.samples.len() && !is_rom(sf.samples[si as int].kind) {
                Some(si as int)
            } else {
                None
            },
        }
    }
}

/// The voices the instrument zones `il` contribute under preset zone `pz`.
pub open spec fn inst_voices(
    sf: SoundFontModel,
    ig: Option<ZoneModel>,
    il: Seq<ZoneModel>,
    pg: Option<ZoneModel>,
    pz: ZoneModel,
    key: u8,
    vel: u8,
) -> Seq<ResolvedModel>
    decreases il.len(),
{
    if il.len() == 0 {
        seq![]
    } else {
        let rest = inst_voices(sf, ig, il.drop_last(), pg, pz, key, vel);
        match inst_zone_sample(sf, il.last(), key, vel) {
            Some(si) => rest.push(
                resolved_of(merged_spec(ig, il.last(), pg, pz), sf.samples[si], si as usize),
            ),
            None => rest,
        }
    }
}

/// Every merge the instrument zones `il` call for fits.
pub open spec fn inst_fits(
    sf: SoundFontModel,
    ig: Option<ZoneModel>,
    il: Seq<ZoneModel>,
    pg: Option<ZoneModel>,
    pz: ZoneModel,
    key: u8,
    vel: u8,
) -> bool
    decreases il.len(),
{
    if il.len() == 0 {
        true
    } else {
        &&& inst_fits(sf, ig, il.drop_last(), pg, pz, key, vel)
        &&& inst_zone_sample(sf, il.last(), key, vel) is Some ==> merge_fits(ig, il.last(), pg, pz)
    }
}

/// The instrument preset zone `pz` leads to, if it admits `key` and `vel`.
pub open spec fn preset_zone_instrument(sf: SoundFontModel, pz: ZoneModel, key: u8, vel: u8) -> Option<int> {
    if !zone_matches_spec(pz.generators, key, vel) {
        None
    } else {
        match index_spec(pz.generators, GeneratorType::INSTRUMENT) {
            None => None,
            Some(ii) => if (ii as int) < sf.instruments.len() {
                Some(ii as int)
            } else {
                None
            },
        }
    }
}

/// The voices the preset zones `pl` contribute.
pub open spec fn preset_voices(sf: SoundFontModel, pg: Option<ZoneModel>, pl: Seq<ZoneModel>, key: u8, vel: u8) -> Seq<
    ResolvedModel,
>
    decreases pl.len(),
{
    if pl.len() == 0 {
        seq![]
    } else {
        let rest = preset_voices(sf, pg, pl.drop_last(), key, vel);
        let pz = pl.last();
        match preset_zone_instrument(sf, pz, key, vel) {
            Some(ii) => {
                let (ig, il) = split_global_spec(sf.instruments[ii].zones, GeneratorType::SAMPLE_ID);
                rest + inst_voices(sf, ig, il, pg, pz, key, vel)
            },
            None => rest,
        }
    }
}

/// Every merge the preset zones `pl` call for fits.
pub open spec fn preset_fits(sf: SoundFontModel, pg: Option<ZoneModel>, pl: Seq<ZoneModel>, key: u8, vel: u8) -> bool
    decreases pl.len(),
{
    if pl.len() == 0 {
        true
    } else {
        let pz = pl.last();
        &&& preset_fits(sf, pg, pl.drop_last(), key, vel)
        &&& match preset_zone_instrument(sf, pz, key, vel) {
            Some(ii) => {
                let (ig, il) = split_global_spec(sf.instruments[ii].zones, GeneratorType::SAMPLE_ID);
                inst_fits(sf, ig, il, pg, pz, key, vel)
            },
            None => true,
        }
    }
}

/// The bank a channel's note-ons look in: percussion on the drum channel.
pub open spec fn bank_for(channel: u8, c: ChannelState) -> u16 {
    if channel == DRUM_CHANNEL {
        DRUM_BANK
    } else {
        c.bank
    }
}

/// The voices a note-on resolves to, one per matching sample zone of the
/// channel's preset, in zone order.
pub open spec fn resolve_spec(sf: SoundFontModel, c: ChannelState, channel: u8, key: u8, vel: u8) -> Seq<ResolvedModel> {
    match lookup_spec(sf.presets, bank_for(channel, c), c.program as u16) {
        None => seq![],
        Some(p) => {
            let (pg, pl) = split_global_spec(sf.presets[p].zones, GeneratorType::INSTRUMENT);
            preset_voices(sf, pg, pl, key, vel)
        },
    }
}

/// Every generator merge a note-on calls for fits an `i32`.
pub open spec fn resolve_fits(sf: SoundFontModel, c: ChannelState, channel: u8, key: u8, vel: u8) -> bool {
    match lookup_spec(sf.presets, bank_for(channel, c), c.program as u16) {
        None => true,
        Some(p) => {
            let (pg, pl) = split_global_spec(sf.presets[p].zones, GeneratorType::INSTRUMENT);
            preset_fits(sf, pg, pl, key, vel)
        },
    }
}

/// An optional zone as a value of the model.
pub open spec fn opt_zone(z: Option<&Zone>) -> Option<ZoneModel> {
    match z {
        Some(z) => Some(z@),
        None => None,
    }
}

/// Splits a zone list into its optional leading global zone and the rest.
pub fn split_global(zones: &[Zone], terminal: GeneratorType) -> (r: (Option<&Zone>, &[Zone]))
    ensures
        (opt_zone(r.0), zones_model(r.1@)) == split_global_spec(zones_model(zones@), terminal),
{
    if zones.len() > 0 && index_of(&zones[0], terminal).is_none() {
        let (_, rest) = zones.split_at(1);
        assert(zones_model(rest@) =~= zones_model(zones@).drop_first());
        (Some(&zones[0]), rest)
    } else {
        (None, zones)
    }
}

/// Merges the generator layers of one voice: instrument zones are
/// absolute, preset zones additive. `None` when a sum overflows an `i32`.
fn merge(ig: Option<&Zone>, iz: &Zone, pg: Option<&Zone>, pz: &Zone) -> (g: Option<Gens>)
    ensures
        g is Some <==> merge_fits(opt_zone(ig), iz@, opt_zone(pg), pz@),
        g matches Some(g) ==> g@ == merged_spec(opt_zone(ig), iz@, opt_zone(pg), pz@),
{
    let mut g = Gens::defaults();
    match ig {
        Some(zone) => g.apply_set(zone),
        None => {},
    }
    proof {
        assert(set_spec(defaults_spec(), seq![]) == defaults_spec());
        assert(add_spec(g@, seq![]) == g@);
    }
    g.apply_set(iz);
    match pg {
        Some(zone) => {
            if !g.add_fits_with(zone) {
                return None;
            }
            g.apply_add(zone);
        },
        None => {},
    }
    if !g.add_fits_with(pz) {
        return None;
    }
    g.apply_add(pz);
    Some(g)
}

/// A loop point moved by its offsets, clamped at zero, taken to 32 bits.
fn loop_point_of(base: u32, fine: i32, coarse: i32) -> (p: u32)
    ensures
        p == loop_point(base, fine, coarse),
{
    let x: i64 = base as i64 + fine as i64 + coarse as i64 * 32_768;
    let clamped: i64 = if x < 0 {
        0
    } else {
        x
    };
    clamped as u32
}

/// Builds [`Resolved`] from a fully merged generator set and its sample.
pub fn build_resolved(g: Gens, sample: &Sample, sample_index: usize) -> (r: Resolved)
    ensures
        r@ == resolved_of(g@, sample@, sample_index),
{
    let root = g.get(GeneratorType::OVERRIDING_ROOT_KEY);
    let root_key = if root >= 0 {
        root as u8
    } else {
        sample.original_key
    };
    // SampleModes: 1 and 3 loop; 0 and 2 play through once.
    let mode = g.get(GeneratorType::SAMPLE_MODES) & 0x3;
    let looping = mode == 1 || mode == 3;
    let loop_start = loop_point_of(
        sample.loop_start,
        g.get(GeneratorType::START_LOOP_ADDRESS_OFFSET),
        g.get(GeneratorType::START_LOOP_ADDRESS_COARSE_OFFSET),
    );
    let loop_end = loop_point_of(
        sample.loop_end,
        g.get(GeneratorType::END_LOOP_ADDRESS_OFFSET),
        g.get(GeneratorType::END_LOOP_ADDRESS_COARSE_OFFSET),
    );
    let loop_region = if looping && loop_end > loop_start {
        Some((loop_start, loop_end))
    } else {
        None
    };
    let exclusive_class = g.get(GeneratorType::EXCLUSIVE_CLASS);
    Resolved { sample_index, exclusive_class, root_key, loop_region, gens: g }
}

/// The views of a list of resolved voices.
pub open spec fn resolved_model(v: Seq<Resolved>) -> Seq<ResolvedModel> {
    v.map_values(|r: Resolved| r@)
}

/// The merges of a prefix of the instrument zones fit when all do.
proof fn lemma_inst_fits_prefix(
    sf: SoundFontModel,
    ig: Option<ZoneModel>,
    il: Seq<ZoneModel>,
    pg: Option<ZoneModel>,
    pz: ZoneModel,
    key: u8,
    vel: u8,
    n: int,
)
    requires
        0 <= n <= il.len(),
        inst_fits(sf, ig, il, pg, pz, key, vel),
    ensures
        inst_fits(sf, ig, il.take(n), pg, pz, key, vel),
    decreases il.len() - n,
{
    if n < il.len() {
        lemma_inst_fits_prefix(sf, ig, il.drop_last(), pg, pz, key, vel, n);
        assert(il.drop_last().take(n) =~= il.take(n));
    } else {
        assert(il.take(n) =~= il);
    }
}

/// The merges of a prefix of the preset zones fit when all do.
proof fn lemma_preset_fits_prefix(sf: SoundFontModel, pg: Option<ZoneModel>, pl: Seq<ZoneModel>, key: u8, vel: u8, n: int)
    requires
        0 <= n <= pl.len(),
        preset_fits(sf, pg, pl, key, vel),
    ensures
        preset_fits(sf, pg, pl.take(n), key, vel),
    decreases pl.len() - n,
{
    if n < pl.len() {
        lemma_preset_fits_prefix(sf, pg, pl.drop_last(), key, vel, n);
        assert(pl.drop_last().take(n) =~= pl.take(n));
    } else {
        assert(pl.take(n) =~= pl);
    }
}

/// A preset found is one of the list, with the bank and program sought.
proof fn lemma_find_preset(ps: Seq<PresetModel>, bank: u16, program: u16, i: int)
    ensures
        find_preset(ps, bank, program, i) matches Some(k) ==> i <= k < ps.len() && ps[k].bank == bank
            && ps[k].program == program,
    decreases ps.len() - i,
{
    if 0 <= i < ps.len() {
        lemma_find_preset(ps, bank, program, i + 1);
    }
}

/// The first preset of `presets` with bank `bank` and program `program`.
fn find_preset_index(presets: &[Preset], bank: u16, program: u16) -> (r: Option<usize>)
    ensures
        match find_preset(presets_model(presets@), bank, program, 0) {
            Some(i) => r == Some(i as usize),
            None => r is None,
        },
{
    let ghost ps = presets_model(presets@);
    let mut i: usize = 0;
    while i < presets.len()
        invariant
            ps == presets_model(presets@),
            i <= presets@.len(),
            find_preset(ps, bank, program, 0) == find_preset(ps, bank, program, i as int),
        decreases presets@.len() - i,
    {
        if presets[i].bank == bank && presets[i].program == program {
            return Some(i);
        }
        i = i + 1;
    }
    None
}

/// The id after `id`, wrapping at the end of the range.
pub open spec fn next_id_after(id: u64) -> u64 {
    if id == u64::MAX {
        0
    } else {
        (id + 1) as u64
    }
}

/// Starting one resolved voice for `key` on `channel`: voices of its
/// exclusive class on the channel are cut, room is made, and the voice
/// starts under the next id.
pub open spec fn start_one(s: SynthModel, channel: u8, key: u8, vel: u8, c: ChannelState, r: ResolvedModel) -> (
    SynthModel,
    Seq<ActionModel>,
) {
    let (s1, a1) = if r.exclusive_class != 0 {
        stop_where_spec(s, channel, false, Some(r.exclusive_class))
    } else {
        (s, seq![])
    };
    let (s2, a2) = make_room_spec(s1);
    let id = s2.next_id;
    (
        SynthModel {
            voices: s2.voices.push(
                Live { channel, key, exclusive_class: r.exclusive_class, held_by_pedal: false, id },
            ),
            next_id: next_id_after(id),
            ..s2
        },
        a1 + a2 + seq![ActionModel::Start { id, channel, key, vel, state: c, voice: r }],
    )
}

/// Starting the resolved voices `rs` in order.
pub open spec fn start_all(s: SynthModel, channel: u8, key: u8, vel: u8, c: ChannelState, rs: Seq<ResolvedModel>) -> (
    SynthModel,
    Seq<ActionModel>,
)
    decreases rs.len(),
{
    if rs.len() == 0 {
        (s, seq![])
    } else {
        let (s1, a1) = start_all(s, channel, key, vel, c, rs.drop_last());
        let (s2, a2) = start_one(s1, channel, key, vel, c, rs.last());
        (s2, a1 + a2)
    }
}

/// A note-on for `key` on `channel` at velocity `vel`: every voice it
/// resolves to starts, in order.
pub open spec fn note_on_spec(sf: SoundFontModel, s: SynthModel, channel: u8, key: u8, vel: u8) -> (
    SynthModel,
    Seq<ActionModel>,
) {
    let c = chan_of(s, channel);
    start_all(s, channel, key, vel, c, resolve_spec(sf, c, channel, key, vel))
}

/// What one MIDI event does: the state after it, and the actions for the
/// backend, in order.
pub open spec fn step(sf: SoundFontModel, s: SynthModel, e: MidiEvent) -> (SynthModel, Seq<ActionModel>) {
    match e {
        MidiEvent::NoteOn { channel, key, vel } => if vel > 0 {
            note_on_spec(sf, s, channel, key, vel)
        } else {
            note_off_spec(s, channel, key)
        },
        MidiEvent::NoteOff { channel, key, .. } => note_off_spec(s, channel, key),
        MidiEvent::ControlChange { channel, ctrl, value } => control_change_spec(s, channel, ctrl, value),
        MidiEvent::PitchBend { channel, value } => {
            let s1 = if channel < 16 {
                with_channel(s, channel, ChannelState { bend: value, ..s.channels[channel as int] })
            } else {
                s
            };
            update_channel_spec(s1, channel)
        },
        MidiEvent::ProgramChange { channel, program } => if channel < 16 {
            (with_channel(s, channel, ChannelState { program: program.0, ..s.channels[channel as int] }), seq![])
        } else {
            (s, seq![])
        },
        MidiEvent::ChannelPressure { .. } => (s, seq![]),
        MidiEvent::PolyphonicKeyPressure { .. } => (s, seq![]),
        MidiEvent::AllNotesOff { channel } => stop_where_spec(s, channel, false, None),
        MidiEvent::AllSoundOff { channel } => stop_where_spec(s, channel, false, None),
        MidiEvent::SystemReset => reset_spec(s),
    }
}

/// Whether an event can be handled without a generator sum overflowing:
/// only a note-on resolves voices.
pub open spec fn event_fits(sf: SoundFontModel, s: SynthModel, e: MidiEvent) -> bool {
    match e {
        MidiEvent::NoteOn { channel, key, vel } => vel > 0 ==> resolve_fits(
            sf,
            chan_of(s, channel),
            channel,
            key,
            vel,
        ),
        _ => true,
    }
}

impl Synthesizer {
    /// The state as a value of the model.
    pub closed spec fn model(&self) -> SynthModel {
        SynthModel { channels: self.channels@, voices: self.voices@, next_id: self.next_id }
    }

    /// The SoundFont it plays, as a value of the model.
    pub closed spec fn bank(&self) -> SoundFontModel {
        self.soundfont@
    }

    /// The render rate.
    pub closed spec fn rate(&self) -> u32 {
        self.sample_rate
    }

    /// Stops the voices matching `channel`, `held_only` and `class`.
    fn stop_where(&mut self, channel: u8, held_only: bool, class: Option<i32>, actions: &mut Vec<Action>)
        ensures
            ({
                let (s, a) = stop_where_spec(old(self).model(), channel, held_only, class);
                final(self).model() == s && actions_model(final(actions)@) == actions_model(
                    old(actions)@,
                ) + a
            }),
            final(self).bank() == old(self).bank(),
            final(self).rate() == old(self).rate(),
    {
        let ghost vs = self.voices@;
        let ghost a0 = actions_model(actions@);
        let mut kept: Vec<Live> = Vec::new();
        let mut i: usize = 0;
        while i < self.voices.len()
            invariant
                vs == self.voices@,
                i <= vs.len(),
                kept@ == kept_voices(vs.take(i as int), channel, held_only, class),
                actions_model(actions@) == a0 + stopped_voices(vs.take(i as int), channel, held_only, class),
            decreases vs.len() - i,
        {
            let v = self.voices[i];
            proof {
                assert(vs.take(i + 1).drop_last() =~= vs.take(i as int));
            }
            let hit = v.channel == channel && (!held_only || v.held_by_pedal) && match class {
                Some(c) => v.exclusive_class == c,
                None => true,
            };
            if hit {
                let ghost before = actions@;
                actions.push(Action::Stop { id: v.id });
                assert(actions_model(actions@) =~= actions_model(before).push(
                    ActionModel::Stop { id: v.id },
                ));
            } else {
                kept.push(v);
            }
            i = i + 1;
        }
        assert(vs.take(i as int) =~= vs);
        self.voices = kept;
    }

    /// Stops and forgets every voice on `channel`.
    fn stop_channel(&mut self, channel: u8, actions: &mut Vec<Action>)
        ensures
            ({
                let (s, a) = stop_where_spec(old(self).model(), channel, false, None);
                final(self).model() == s && actions_model(final(actions)@) == actions_model(
                    old(actions)@,
                ) + a
            }),
            final(self).bank() == old(self).bank(),
            final(self).rate() == old(self).rate(),
    {
        self.stop_where(channel, false, None, actions);
    }

    /// Releases voices held by the sustain pedal on `channel`.
    fn release_pedal(&mut self, channel: u8, actions: &mut Vec<Action>)
        ensures
            ({
                let (s, a) = stop_where_spec(old(self).model(), channel, true, None);
                final(self).model() == s && actions_model(final(actions)@) == actions_model(
                    old(actions)@,
                ) + a
            }),
            final(self).bank() == old(self).bank(),
            final(self).rate() == old(self).rate(),
    {
        self.stop_where(channel, true, None, actions);
    }

    /// Stops voices on `channel` sharing `class` (an exclusive-class
    /// cut-off).
    fn cut_exclusive(&mut self, channel: u8, class: i32, actions: &mut Vec<Action>)
        ensures
            ({
                let (s, a) = stop_where_spec(old(self).model(), channel, false, Some(class));
                final(self).model() == s && actions_model(final(actions)@) == actions_model(
                    old(actions)@,
                ) + a
            }),
            final(self).bank() == old(self).bank(),
            final(self).rate() == old(self).rate(),
    {
        self.stop_where(channel, false, Some(class), actions);
    }

    /// A note-off for `key` on `channel`: the voices playing it stop, or
    /// are held while the sustain pedal is down.
    fn note_off(&mut self, channel: u8, key: u8, actions: &mut Vec<Action>)
        requires
            old(self).model().channels.len() == 16,
        ensures
            ({
                let (s, a) = note_off_spec(old(self).model(), channel, key);
                final(self).model() == s && actions_model(final(actions)@) == actions_model(
                    old(actions)@,
                ) + a
            }),
            final(self).bank() == old(self).bank(),
            final(self).rate() == old(self).rate(),
    {
        let sustained = if (channel as usize) < self.channels.len() {
            self.channels[channel as usize].sustain
        } else {
            false
        };
        let ghost vs = self.voices@;
        let ghost a0 = actions_model(actions@);
        let mut kept: Vec<Live> = Vec::new();
        let mut i: usize = 0;
        while i < self.voices.len()
            invariant
                vs == self.voices@,
                i <= vs.len(),
                kept@ == note_off_kept(vs.take(i as int), channel, key, sustained),
                actions_model(actions@) == a0 + note_off_stopped(vs.take(i as int), channel, key, sustained),
            decreases vs.len() - i,
        {
            let v = self.voices[i];
            proof {
                assert(vs.take(i + 1).drop_last() =~= vs.take(i as int));
            }
            if v.channel == channel && v.key == key && !v.held_by_pedal {
                if sustained {
                    kept.push(Live { held_by_pedal: true, ..v });
                } else {
                    let ghost before = actions@;
                    actions.push(Action::Stop { id: v.id });
                    assert(actions_model(actions@) =~= actions_model(before).push(
                        ActionModel::Stop { id: v.id },
                    ));
                }
            } else {
                kept.push(v);
            }
            i = i + 1;
        }
        assert(vs.take(i as int) =~= vs);
        self.voices = kept;
    }

    /// Pushes the current channel state to every gated voice on `channel`.
    fn update_channel(&self, channel: u8, actions: &mut Vec<Action>)
        requires
            self.model().channels.len() == 16,
        ensures
            actions_model(final(actions)@) == actions_model(old(actions)@) + update_channel_spec(
                self.model(),
                channel,
            ).1,
    {
        let state = self.channels[(channel % 16) as usize];
        let ghost vs = self.voices@;
        let ghost a0 = actions_model(actions@);
        let mut i: usize = 0;
        while i < self.voices.len()
            invariant
                vs == self.voices@,
                i <= vs.len(),
                state == chan_of(self.model(), channel),
                actions_model(actions@) == a0 + updates(vs.take(i as int), channel, state),
            decreases vs.len() - i,
        {
            let v = self.voices[i];
            proof {
                assert(vs.take(i + 1).drop_last() =~= vs.take(i as int));
            }
            if v.channel == channel {
                let ghost before = actions@;
                actions.push(Action::Update { id: v.id, state });
                assert(actions_model(actions@) =~= actions_model(before).push(
                    ActionModel::Update { id: v.id, state },
                ));
            }
            i = i + 1;
        }
        assert(vs.take(i as int) =~= vs);
    }

    /// Steals the oldest voice if we are at the polyphony limit.
    fn make_room(&mut self, actions: &mut Vec<Action>)
        ensures
            ({
                let (s, a) = make_room_spec(old(self).model());
                final(self).model() == s && actions_model(final(actions)@) == actions_model(
                    old(actions)@,
                ) + a
            }),
            final(self).bank() == old(self).bank(),
            final(self).rate() == old(self).rate(),
    {
        if self.voices.len() < MAX_POLYPHONY {
            assert(actions_model(actions@) =~= actions_model(actions@) + seq![]);
            return;
        }
        let v = self.voices.remove(0);
        let ghost before = actions@;
        actions.push(Action::Stop { id: v.id });
        assert(actions_model(actions@) =~= actions_model(before) + seq![ActionModel::Stop { id: v.id }]);
        assert(self.voices@ =~= old(self).voices@.drop_first());
    }

    /// Handles a control change.
    fn control_change(&mut self, channel: u8, ctrl: u8, value: u8, actions: &mut Vec<Action>)
        requires
            old(self).model().channels.len() == 16,
        ensures
            ({
                let (s, a) = control_change_spec(old(self).model(), channel, ctrl, value);
                final(self).model() == s && actions_model(final(actions)@) == actions_model(
                    old(actions)@,
                ) + a
            }),
            final(self).bank() == old(self).bank(),
            final(self).rate() == old(self).rate(),
    {
        if channel >= 16 {
            assert(actions_model(actions@) =~= actions_model(actions@) + seq![]);
            return;
        }
        let ch = channel as usize;
        let c = self.channels[ch];
        if ctrl == 0 {
            // Bank select (MSB).
            self.channels.set(ch, ChannelState { bank: value as u16, ..c });
            assert(actions_model(actions@) =~= actions_model(actions@) + seq![]);
        } else if ctrl == 7 {
            self.channels.set(ch, ChannelState { volume: value, ..c });
            self.update_channel(channel, actions);
        } else if ctrl == 10 {
            self.channels.set(ch, ChannelState { pan: value, ..c });
            self.update_channel(channel, actions);
        } else if ctrl == 11 {
            self.channels.set(ch, ChannelState { expression: value, ..c });
            self.update_channel(channel, actions);
        } else if ctrl == 64 {
            let down = value >= 64;
            self.channels.set(ch, ChannelState { sustain: down, ..c });
            if !down {
                // Pedal up: release everything it was holding.
                self.release_pedal(channel, actions);
            } else {
                assert(actions_model(actions@) =~= actions_model(actions@) + seq![]);
            }
        } else if ctrl == 120 || ctrl == 123 {
            // All sound off / all notes off.
            self.stop_channel(channel, actions);
        } else if ctrl == 121 {
            // Reset controllers (keep bank/program).
            let d = ChannelState::default();
            self.channels.set(ch, ChannelState { bank: c.bank, program: c.program, ..d });
            self.update_channel(channel, actions);
        } else {
            assert(actions_model(actions@) =~= actions_model(actions@) + seq![]);
        }
    }

    /// Stops every voice immediately and resets controllers.
    pub fn reset(&mut self, actions: &mut Vec<Action>)
        ensures
            ({
                let (s, a) = reset_spec(old(self).model());
                final(self).model() == s && actions_model(final(actions)@) == actions_model(
                    old(actions)@,
                ) + a
            }),
            final(self).bank() == old(self).bank(),
            final(self).rate() == old(self).rate(),
    {
        let ghost vs = self.voices@;
        let ghost a0 = actions_model(actions@);
        let mut i: usize = 0;
        while i < self.voices.len()
            invariant
                vs == self.voices@,
                i <= vs.len(),
                actions_model(actions@) == a0 + stop_all(vs.take(i as int)),
            decreases vs.len() - i,
        {
            let id = self.voices[i].id;
            let ghost before = actions@;
            actions.push(Action::Stop { id });
            assert(actions_model(actions@) =~= actions_model(before).push(ActionModel::Stop { id }));
            assert(stop_all(vs.take(i + 1)) =~= stop_all(vs.take(i as int)).push(ActionModel::Stop { id }));
            i = i + 1;
        }
        assert(vs.take(i as int) =~= vs);
        self.voices = Vec::new();
        let mut channels: Vec<ChannelState> = Vec::new();
        let mut k: usize = 0;
        while k < 16
            invariant
                k <= 16,
                channels@ =~= Seq::new(k as nat, |j: int| default_channel()),
            decreases 16 - k,
        {
            channels.push(ChannelState::default());
            k = k + 1;
        }
        self.channels = channels;
    }

    /// Appends the voices the instrument zones `il` contribute under
    /// preset zone `pz`.
    fn instrument_voices(
        &self,
        ig: Option<&Zone>,
        il: &[Zone],
        pg: Option<&Zone>,
        pz: &Zone,
        key: u8,
        vel: u8,
        out: &mut Vec<Resolved>,
    ) -> (ok: bool)
        ensures
            ok == inst_fits(self.bank(), opt_zone(ig), zones_model(il@), opt_zone(pg), pz@, key, vel),
            ok ==> resolved_model(final(out)@) == resolved_model(old(out)@) + inst_voices(
                self.bank(),
                opt_zone(ig),
                zones_model(il@),
                opt_zone(pg),
                pz@,
                key,
                vel,
            ),
    {
        let ghost sf = self.bank();
        let ghost zs = zones_model(il@);
        let ghost o0 = resolved_model(out@);
        let mut i: usize = 0;
        while i < il.len()
            invariant
                sf == self.bank(),
                sf == self.soundfont@,
                zs == zones_model(il@),
                i <= il@.len(),
                inst_fits(sf, opt_zone(ig), zs.take(i as int), opt_zone(pg), pz@, key, vel),
                resolved_model(out@) == o0 + inst_voices(sf, opt_zone(ig), zs.take(i as int), opt_zone(pg), pz@, key, vel),
            decreases il@.len() - i,
        {
            let iz = &il[i];
            proof {
                assert(zs.take(i + 1).drop_last() =~= zs.take(i as int));
                assert(zs.take(i + 1).last() == iz@);
            }
            if zone_matches(iz, key, vel) {
                match index_of(iz, GeneratorType::SAMPLE_ID) {
                    Some(sample_idx) => {
                        let si = sample_idx as usize;
                        if si < self.soundfont.samples.len() {
                            let sample = &self.soundfont.samples[si];
                            let rom = match sample.kind {
                                SampleType::RomMono | SampleType::RomRight | SampleType::RomLeft
                                | SampleType::RomLinked => true,
                                _ => false,
                            };
                            proof {
                                assert(sf.samples[si as int] == sample@);
                            }
                            if !rom {
                                let g = match merge(ig, iz, pg, pz) {
                                    Some(g) => g,
                                    None => {
                                        proof {
                                            if inst_fits(sf, opt_zone(ig), zs, opt_zone(pg), pz@, key, vel) {
                                                lemma_inst_fits_prefix(sf, opt_zone(ig), zs, opt_zone(pg), pz@, key, vel, i + 1);
                                            }
                                        }
                                        return false;
                                    },
                                };
                                let r = build_resolved(g, sample, si);
                                let ghost before = out@;
                                out.push(r);
                                assert(resolved_model(out@) =~= resolved_model(before).push(r@));
                            }
                        }
                    },
                    None => {},
                }
            }
            i = i + 1;
        }
        assert(zs.take(i as int) =~= zs);
        true
    }

    /// Resolves a note-on into one [`Resolved`] per matching sample zone.
    /// `None` when one of the generator merges it calls for overflows.
    fn resolve_voices(&self, channel: u8, key: u8, vel: u8) -> (out: Option<Vec<Resolved>>)
        requires
            self.model().channels.len() == 16,
        ensures
            out is Some <==> resolve_fits(self.bank(), chan_of(self.model(), channel), channel, key, vel),
            out matches Some(v) ==> resolved_model(v@) == resolve_spec(
                self.bank(),
                chan_of(self.model(), channel),
                channel,
                key,
                vel,
            ),
    {
        let ghost sf = self.bank();
        let chan = self.channels[(channel % 16) as usize];
        let bank = if channel == DRUM_CHANNEL {
            DRUM_BANK
        } else {
            chan.bank
        };
        let program = chan.program as u16;
        let presets = self.soundfont.presets.as_slice();
        let n_presets = presets.len();
        let found = match find_preset_index(presets, bank, program) {
            Some(i) => Some(i),
            None => match find_preset_index(presets, 0, program) {
                Some(i) => Some(i),
                None => find_preset_index(presets, bank, 0),
            },
        };
        proof {
            assert(sf.presets == presets_model(presets@));
            lemma_find_preset(presets_model(presets@), bank, program, 0);
            lemma_find_preset(presets_model(presets@), 0, program, 0);
            lemma_find_preset(presets_model(presets@), bank, 0, 0);
        }
        if found.is_none() {
            return Some(Vec::new());
        }
        let preset_idx = found.unwrap();
        proof {
            let ps = presets_model(presets@);
            assert(ps.len() == presets@.len() && n_presets == presets@.len());
            assert(bank_for(channel, chan) == bank);
            match find_preset(ps, bank, program, 0) {
                Some(k) => {
                    assert(preset_idx as int == k);
                },
                None => {
                    match find_preset(ps, 0, program, 0) {
                        Some(k) => {
                            assert(preset_idx as int == k);
                        },
                        None => {
                            assert(find_preset(ps, bank, 0, 0) == Some(preset_idx as int));
                        },
                    }
                },
            }
            assert(lookup_spec(sf.presets, bank_for(channel, chan), chan.program as u16) == Some(
                preset_idx as int,
            ));
        }
        let preset = &presets[preset_idx];
        proof {
            assert(sf.presets[preset_idx as int] == preset@);
        }
        let zones = preset.zones.as_slice();
        let (preset_global, preset_local) = split_global(zones, GeneratorType::INSTRUMENT);
        let ghost pl = zones_model(preset_local@);
        let ghost pg = opt_zone(preset_global);
        assert(zones@ == preset.zones@);
        assert(sf.presets[preset_idx as int].zones == zones_model(preset.zones@));
        let mut out: Vec<Resolved> = Vec::new();
        let mut i: usize = 0;
        while i < preset_local.len()
            invariant
                sf == self.bank(),
                sf == self.soundfont@,
                pl == zones_model(preset_local@),
                pg == opt_zone(preset_global),
                i <= preset_local@.len(),
                self.model().channels.len() == 16,
                resolve_fits(sf, chan_of(self.model(), channel), channel, key, vel) == preset_fits(sf, pg, pl, key, vel),
                preset_fits(sf, pg, pl.take(i as int), key, vel),
                resolved_model(out@) == preset_voices(sf, pg, pl.take(i as int), key, vel),
            decreases preset_local@.len() - i,
        {
            let pz = &preset_local[i];
            proof {
                assert(pl.take(i + 1).drop_last() =~= pl.take(i as int));
                assert(pl.take(i + 1).last() == pz@);
            }
            if zone_matches(pz, key, vel) {
                match index_of(pz, GeneratorType::INSTRUMENT) {
                    Some(inst_idx) => {
                        let ii = inst_idx as usize;
                        if ii < self.soundfont.instruments.len() {
                            let inst = &self.soundfont.instruments[ii];
                            proof {
                                assert(sf.instruments[ii as int] == inst@);
                            }
                            let izones = inst.zones.as_slice();
                            let (inst_global, inst_local) = split_global(izones, GeneratorType::SAMPLE_ID);
                            assert(izones@ == inst.zones@);
                            assert(preset_zone_instrument(sf, pz@, key, vel) == Some(ii as int));
                            if !self.instrument_voices(inst_global, inst_local, preset_global, pz, key, vel, &mut out) {
                                proof {
                                    assert(!preset_fits(sf, pg, pl.take(i + 1), key, vel));
                                    if preset_fits(sf, pg, pl, key, vel) {
                                        lemma_preset_fits_prefix(sf, pg, pl, key, vel, i + 1);
                                    }
                                }
                                return None;
                            }
                        }
                    },
                    None => {},
                }
            }
            i = i + 1;
        }
        assert(pl.take(i as int) =~= pl);
        Some(out)
    }

    /// Creates a synthesizer that plays `soundfont`; `sample_rate` is the
    /// rate the backend renders at.
    pub fn new(soundfont: SoundFont, sample_rate: u32) -> (synth: Synthesizer)
        ensures
            synth.model() == (SynthModel {
                channels: Seq::new(16, |i: int| default_channel()),
                voices: seq![],
                next_id: 0,
            }),
            synth.bank() == soundfont@,
            synth.rate() == sample_rate,
    {
        let mut channels: Vec<ChannelState> = Vec::new();
        let mut k: usize = 0;
        while k < 16
            invariant
                k <= 16,
                channels@ =~= Seq::new(k as nat, |j: int| default_channel()),
            decreases 16 - k,
        {
            channels.push(ChannelState::default());
            k = k + 1;
        }
        Synthesizer { soundfont, sample_rate, channels, voices: Vec::new(), next_id: 0 }
    }

    /// The render sample rate in Hz.
    pub fn sample_rate(&self) -> (r: u32)
        ensures
            r == self.rate(),
    {
        self.sample_rate
    }

    /// Number of voices currently gated.
    pub fn active_voices(&self) -> (n: usize)
        ensures
            n == self.model().voices.len(),
    {
        self.voices.len()
    }

    /// The SoundFont this synthesizer plays.
    pub fn soundfont(&self) -> (sf: &SoundFont)
        ensures
            sf@ == self.bank(),
    {
        &self.soundfont
    }

    /// The gated voices, oldest first.
    pub fn voices(&self) -> (v: &[Live])
        ensures
            v@ == self.model().voices,
    {
        self.voices.as_slice()
    }

    /// Starts one resolved voice.
    fn start_voice(&mut self, channel: u8, key: u8, vel: u8, state: ChannelState, r: Resolved, actions: &mut Vec<Action>)
        requires
            old(self).model().channels.len() == 16,
        ensures
            ({
                let (s, a) = start_one(old(self).model(), channel, key, vel, state, r@);
                final(self).model() == s && actions_model(final(actions)@) == actions_model(
                    old(actions)@,
                ) + a
            }),
            final(self).bank() == old(self).bank(),
            final(self).rate() == old(self).rate(),
    {
        let ghost a0 = actions_model(actions@);
        // Exclusive class: cut other voices of the same class on this channel.
        if r.exclusive_class != 0 {
            self.cut_exclusive(channel, r.exclusive_class, actions);
        } else {
            assert(actions_model(actions@) =~= a0 + seq![]);
        }
        let ghost a1 = actions_model(actions@);
        self.make_room(actions);
        let id = self.next_id;
        let exclusive_class = r.exclusive_class;
        let ghost rm = r@;
        let ghost before = actions@;
        actions.push(Action::Start { id, channel, key, vel, state, voice: r });
        assert(actions_model(actions@) =~= actions_model(before).push(
            ActionModel::Start { id, channel, key, vel, state, voice: rm },
        ));
        self.voices.push(Live { channel, key, exclusive_class, held_by_pedal: false, id });
        self.next_id = if id == u64::MAX {
            0
        } else {
            id + 1
        };
        assert(actions_model(actions@) =~= a0 + (a1.skip(a0.len() as int)) + (actions_model(before).skip(a1.len() as int)) + seq![
            ActionModel::Start { id, channel, key, vel, state, voice: rm },
        ]);
    }

    /// A note-on: every voice it resolves to starts.
    fn note_on(&mut self, channel: u8, key: u8, vel: u8, actions: &mut Vec<Action>)
        requires
            old(self).model().channels.len() == 16,
            resolve_fits(old(self).bank(), chan_of(old(self).model(), channel), channel, key, vel),
        ensures
            ({
                let (s, a) = note_on_spec(old(self).bank(), old(self).model(), channel, key, vel);
                final(self).model() == s && actions_model(final(actions)@) == actions_model(
                    old(actions)@,
                ) + a
            }),
            final(self).bank() == old(self).bank(),
            final(self).rate() == old(self).rate(),
    {
        let mut resolved = match self.resolve_voices(channel, key, vel) {
            Some(v) => v,
            None => return,
        };
        let ghost rs = resolved_model(resolved@);
        let ghost s0 = self.model();
        let ghost a0 = actions_model(actions@);
        let ghost sf = self.bank();
        let state = self.channels[(channel % 16) as usize];
        let mut k: usize = 0;
        let n = resolved.len();
        assert(resolved_model(resolved@) =~= rs.skip(0));
        while resolved.len() > 0
            invariant
                n == rs.len(),
                k <= n,
                resolved_model(resolved@) == rs.skip(k as int),
                self.model().channels.len() == 16,
                self.bank() == sf,
                self.rate() == old(self).rate(),
                state == chan_of(s0, channel),
                ({
                    let (s, a) = start_all(s0, channel, key, vel, state, rs.take(k as int));
                    self.model() == s && actions_model(actions@) == a0 + a
                }),
            decreases n - k,
        {
            let ghost old_resolved = resolved@;
            assert(resolved_model(old_resolved).len() == old_resolved.len());
            assert(resolved_model(old_resolved)[0] == old_resolved[0]@);
            let r = resolved.remove(0);
            proof {
                assert(r@ == rs[k as int]);
                assert(rs.take(k + 1).drop_last() =~= rs.take(k as int));
                assert(resolved@ == old_resolved.remove(0));
                assert forall|j: int| 0 <= j < resolved@.len() implies #[trigger] resolved_model(resolved@)[j]
                    == rs.skip(k + 1)[j] by {
                    assert(resolved@[j] == old_resolved[j + 1]);
                    assert(resolved_model(old_resolved)[j + 1] == old_resolved[j + 1]@);
                }
                assert(resolved_model(resolved@) =~= rs.skip(k + 1));
            }
            let ghost before = actions_model(actions@);
            self.start_voice(channel, key, vel, state, r, actions);
            proof {
                let (s1, a1) = start_all(s0, channel, key, vel, state, rs.take(k as int));
                let (s2, a2) = start_one(s1, channel, key, vel, state, rs[k as int]);
                assert(a0 + a1 + a2 =~= a0 + (a1 + a2));
            }
            k = k + 1;
        }
        assert(rs.take(k as int) =~= rs);
    }

    /// Whether `event` can be handled: a note-on whose generator merges
    /// would overflow an `i32` cannot.
    pub fn can_handle(&self, event: MidiEvent) -> (b: bool)
        requires
            synth_wf(self.model()),
        ensures
            b == event_fits(self.bank(), self.model(), event),
    {
        match event {
            MidiEvent::NoteOn { channel, key, vel } => {
                if vel > 0 {
                    self.resolve_voices(channel, key, vel).is_some()
                } else {
                    true
                }
            },
            _ => true,
        }
    }

    /// Applies a single MIDI event, appending what the backend is to do to
    /// `actions`.
    pub fn handle(&mut self, event: MidiEvent, actions: &mut Vec<Action>)
        requires
            synth_wf(old(self).model()),
            event_fits(old(self).bank(), old(self).model(), event),
        ensures
            ({
                let (s, a) = step(old(self).bank(), old(self).model(), event);
                final(self).model() == s && actions_model(final(actions)@) == actions_model(
                    old(actions)@,
                ) + a
            }),
            final(self).bank() == old(self).bank(),
            final(self).rate() == old(self).rate(),
    {
        match event {
            MidiEvent::NoteOn { channel, key, vel } => {
                if vel > 0 {
                    self.note_on(channel, key, vel, actions);
                } else {
                    self.note_off(channel, key, actions);
                }
            },
            MidiEvent::NoteOff { channel, key, .. } => self.note_off(channel, key, actions),
            MidiEvent::ControlChange { channel, ctrl, value } => self.control_change(
                channel,
                ctrl,
                value,
                actions,
            ),
            MidiEvent::PitchBend { channel, value } => {
                if (channel as usize) < self.channels.len() {
                    let c = self.channels[channel as usize];
                    self.channels.set(channel as usize, ChannelState { bend: value, ..c });
                }
                self.update_channel(channel, actions);
            },
            MidiEvent::ProgramChange { channel, program } => {
                if (channel as usize) < self.channels.len() {
                    let c = self.channels[channel as usize];
                    self.channels.set(channel as usize, ChannelState { program: program.index(), ..c });
                }
                assert(actions_model(actions@) =~= actions_model(actions@) + seq![]);
            },
            MidiEvent::ChannelPressure { .. } | MidiEvent::PolyphonicKeyPressure { .. } => {
                assert(actions_model(actions@) =~= actions_model(actions@) + seq![]);
            },
            MidiEvent::AllNotesOff { channel } | MidiEvent::AllSoundOff { channel } => {
                self.stop_channel(channel, actions);
            },
            MidiEvent::SystemReset => self.reset(actions),
        }
    }
}

// ----- laws -------------------------------------------------------------------------------

/// Stopping voices never adds any.
pub proof fn lemma_kept_shrinks(vs: Seq<Live>, channel: u8, held_only: bool, class: Option<i32>)
    ensures
        kept_voices(vs, channel, held_only, class).len() <= vs.len(),
    decreases vs.len(),
{
    if vs.len() > 0 {
        lemma_kept_shrinks(vs.drop_last(), channel, held_only, class);
    }
}

/// A note-off never adds voices.
pub proof fn lemma_note_off_shrinks(vs: Seq<Live>, channel: u8, key: u8, sustained: bool)
    ensures
        note_off_kept(vs, channel, key, sustained).len() <= vs.len(),
    decreases vs.len(),
{
    if vs.len() > 0 {
        lemma_note_off_shrinks(vs.drop_last(), channel, key, sustained);
    }
}

/// Starting a voice keeps the state well formed: at the polyphony limit
/// the oldest voice makes room.
pub proof fn lemma_start_one_wf(s: SynthModel, channel: u8, key: u8, vel: u8, c: ChannelState, r: ResolvedModel)
    requires
        synth_wf(s),
    ensures
        synth_wf(start_one(s, channel, key, vel, c, r).0),
{
    lemma_kept_shrinks(s.voices, channel, false, Some(r.exclusive_class));
}

/// Starting several voices keeps the state well formed.
pub proof fn lemma_start_all_wf(s: SynthModel, channel: u8, key: u8, vel: u8, c: ChannelState, rs: Seq<ResolvedModel>)
    requires
        synth_wf(s),
    ensures
        synth_wf(start_all(s, channel, key, vel, c, rs).0),
    decreases rs.len(),
{
    if rs.len() > 0 {
        lemma_start_all_wf(s, channel, key, vel, c, rs.drop_last());
        lemma_start_one_wf(start_all(s, channel, key, vel, c, rs.drop_last()).0, channel, key, vel, c, rs.last());
    }
}

/// Every event keeps the state well formed: sixteen channels, and never
/// more voices gated than the polyphony allows.
pub proof fn lemma_step_wf(sf: SoundFontModel, s: SynthModel, e: MidiEvent)
    requires
        synth_wf(s),
    ensures
        synth_wf(step(sf, s, e).0),
{
    match e {
        MidiEvent::NoteOn { channel, key, vel } => {
            if vel > 0 {
                let c = chan_of(s, channel);
                lemma_start_all_wf(s, channel, key, vel, c, resolve_spec(sf, c, channel, key, vel));
            } else {
                lemma_note_off_shrinks(s.voices, channel, key, sustained_spec(s, channel));
            }
        },
        MidiEvent::NoteOff { channel, key, .. } => {
            lemma_note_off_shrinks(s.voices, channel, key, sustained_spec(s, channel));
        },
        MidiEvent::ControlChange { channel, ctrl, value } => {
            lemma_kept_shrinks(s.voices, channel, true, None);
            lemma_kept_shrinks(s.voices, channel, false, None);
        },
        MidiEvent::AllNotesOff { channel } => {
            lemma_kept_shrinks(s.voices, channel, false, None);
        },
        MidiEvent::AllSoundOff { channel } => {
            lemma_kept_shrinks(s.voices, channel, false, None);
        },
        _ => {},
    }
}

/// With the pedal up, a note-off releases every voice playing that key on
/// that channel: none that is not held by the pedal remains.
pub proof fn lemma_note_off_releases(vs: Seq<Live>, channel: u8, key: u8)
    ensures
        forall|i: int|
            0 <= i < note_off_kept(vs, channel, key, false).len() ==> !note_off_match(
                #[trigger] note_off_kept(vs, channel, key, false)[i],
                channel,
                key,
            ),
    decreases vs.len(),
{
    if vs.len() > 0 {
        lemma_note_off_releases(vs.drop_last(), channel, key);
        let k = note_off_kept(vs, channel, key, false);
        let prev = note_off_kept(vs.drop_last(), channel, key, false);
        assert forall|i: int| 0 <= i < k.len() implies !note_off_match(#[trigger] k[i], channel, key) by {
            if i < prev.len() {
                assert(k[i] == prev[i]);
            }
        }
    }
}

/// With the pedal down, a note-off stops nothing: every voice stays, and
/// those playing that key on that channel are held by the pedal.
pub proof fn lemma_note_off_sustained(vs: Seq<Live>, channel: u8, key: u8)
    ensures
        note_off_kept(vs, channel, key, true).len() == vs.len(),
        note_off_stopped(vs, channel, key, true) == Seq::<ActionModel>::empty(),
        forall|i: int|
            0 <= i < vs.len() ==> (#[trigger] note_off_kept(vs, channel, key, true)[i]).held_by_pedal
                == (vs[i].held_by_pedal || note_off_match(vs[i], channel, key)),
    decreases vs.len(),
{
    if vs.len() > 0 {
        lemma_note_off_sustained(vs.drop_last(), channel, key);
        assert(note_off_stopped(vs, channel, key, true) =~= Seq::<ActionModel>::empty());
    }
}

/// Lifting the pedal releases every voice it held on that channel.
pub proof fn lemma_pedal_release(vs: Seq<Live>, channel: u8)
    ensures
        forall|i: int|
            0 <= i < kept_voices(vs, channel, true, None).len() ==> {
                let v = #[trigger] kept_voices(vs, channel, true, None)[i];
                !(v.channel == channel && v.held_by_pedal)
            },
    decreases vs.len(),
{
    if vs.len() > 0 {
        lemma_pedal_release(vs.drop_last(), channel);
        let k = kept_voices(vs, channel, true, None);
        let prev = kept_voices(vs.drop_last(), channel, true, None);
        assert forall|i: int| 0 <= i < k.len() implies !((#[trigger] k[i]).channel == channel
            && k[i].held_by_pedal) by {
            if i < prev.len() {
                assert(k[i] == prev[i]);
            }
        }
    }
}

/// Every voice a stop names was gated.
pub proof fn lemma_stops_name_voices(vs: Seq<Live>, channel: u8, held_only: bool, class: Option<i32>)
    ensures
        forall|i: int|
            0 <= i < stopped_voices(vs, channel, held_only, class).len() ==> (#[trigger] stopped_voices(
                vs,
                channel,
                held_only,
                class,
            )[i] matches ActionModel::Stop { id } && exists|j: int| 0 <= j < vs.len() && vs[j].id == id),
    decreases vs.len(),
{
    if vs.len() > 0 {
        lemma_stops_name_voices(vs.drop_last(), channel, held_only, class);
        let st = stopped_voices(vs, channel, held_only, class);
        let prev = stopped_voices(vs.drop_last(), channel, held_only, class);
        assert forall|i: int| 0 <= i < st.len() implies (#[trigger] st[i] matches ActionModel::Stop { id }
            && exists|j: int| 0 <= j < vs.len() && vs[j].id == id) by {
            if i < prev.len() {
                assert(st[i] == prev[i]);
                let id = prev[i]->Stop_id;
                let j = choose|j: int| 0 <= j < vs.drop_last().len() && vs.drop_last()[j].id == id;
                assert(vs[j] == vs.drop_last()[j]);
            } else {
                assert(vs[vs.len() - 1] == vs.last());
            }
        }
    }
}

/// With the pedal up, a note-off keeps, in order, exactly the voices it
/// does not match, and stops each matching voice once, in order.
proof fn lemma_note_off_filters(vs: Seq<Live>, channel: u8, key: u8)
    ensures
        note_off_kept(vs, channel, key, false) == vs.filter(|v: Live| !note_off_match(v, channel, key)),
        note_off_stopped(vs, channel, key, false) == vs.filter(
            |v: Live| note_off_match(v, channel, key),
        ).map_values(|v: Live| ActionModel::Stop { id: v.id }),
    decreases vs.len(),
{
    reveal(Seq::filter);
    if vs.len() > 0 {
        lemma_note_off_filters(vs.drop_last(), channel, key);
        let f = vs.drop_last().filter(|v: Live| note_off_match(v, channel, key));
        let g = |v: Live| ActionModel::Stop { id: v.id };
        assert(f.push(vs.last()).map_values(g) =~= f.map_values(g).push(g(vs.last())));
    }
}

/// A note-on with velocity zero is a note-off, whatever the note-off's
/// velocity. With the pedal up it stops, once each and in order, every
/// voice on that channel and key that the pedal does not hold, and keeps
/// the others in order; with the pedal down it stops nothing and keeps
/// every voice, those on that key now held by the pedal.
pub proof fn lemma_note_off_law(sf: SoundFontModel, s: SynthModel, channel: u8, key: u8, vel: u8)
    ensures
        step(sf, s, MidiEvent::NoteOn { channel, key, vel: 0 }) == step(
            sf,
            s,
            MidiEvent::NoteOff { channel, key, vel },
        ),
        ({
            let (t, acts) = step(sf, s, MidiEvent::NoteOff { channel, key, vel });
            &&& t.channels == s.channels
            &&& !sustained_spec(s, channel) ==> {
                &&& t.voices == s.voices.filter(|v: Live| !note_off_match(v, channel, key))
                &&& acts == s.voices.filter(|v: Live| note_off_match(v, channel, key)).map_values(
                    |v: Live| ActionModel::Stop { id: v.id },
                )
            }
            &&& sustained_spec(s, channel) ==> {
                &&& acts == Seq::<ActionModel>::empty()
                &&& t.voices.len() == s.voices.len()
                &&& forall|i: int|
                    0 <= i < s.voices.len() ==> (#[trigger] t.voices[i]).held_by_pedal == (
                    s.voices[i].held_by_pedal || note_off_match(s.voices[i], channel, key))
            }
        }),
{
    lemma_note_off_filters(s.voices, channel, key);
    lemma_note_off_sustained(s.voices, channel, key);
}

/// Stopping the voices that a channel's pedal holds keeps, in order, every
/// other voice, and stops each held one once, in order.
proof fn lemma_held_filters(vs: Seq<Live>, channel: u8)
    ensures
        kept_voices(vs, channel, true, None) == vs.filter(
            |v: Live| !(v.channel == channel && v.held_by_pedal),
        ),
        stopped_voices(vs, channel, true, None) == vs.filter(
            |v: Live| v.channel == channel && v.held_by_pedal,
        ).map_values(|v: Live| ActionModel::Stop { id: v.id }),
    decreases vs.len(),
{
    reveal(Seq::filter);
    if vs.len() > 0 {
        lemma_held_filters(vs.drop_last(), channel);
        let f = vs.drop_last().filter(|v: Live| v.channel == channel && v.held_by_pedal);
        let g = |v: Live| ActionModel::Stop { id: v.id };
        assert(f.push(vs.last()).map_values(g) =~= f.map_values(g).push(g(vs.last())));
    }
}

/// Lifting a channel's sustain pedal (controller 64 below 64) stops exactly
/// the voices of that channel that the pedal holds, once each and in
/// order, and keeps every other voice, in order, among them the voices of
/// keys still pressed; the channel's pedal is then up and nothing else of
/// the channels changes.
pub proof fn lemma_pedal_up(sf: SoundFontModel, s: SynthModel, channel: u8, value: u8)
    requires
        channel < 16,
        value < 64,
        s.channels.len() == 16,
    ensures
        ({
            let (t, acts) = step(sf, s, MidiEvent::ControlChange { channel, ctrl: 64, value });
            &&& t.voices == s.voices.filter(|v: Live| !(v.channel == channel && v.held_by_pedal))
            &&& acts == s.voices.filter(|v: Live| v.channel == channel && v.held_by_pedal).map_values(
                |v: Live| ActionModel::Stop { id: v.id },
            )
            &&& t.channels.len() == 16
            &&& !t.channels[channel as int].sustain
            &&& forall|k: int| 0 <= k < 16 && k != channel ==> t.channels[k] == s.channels[k]
        }),
{
    lemma_held_filters(s.voices, channel);
}

/// Pressing a channel's sustain pedal (controller 64 at 64 or more) stops
/// nothing and keeps every voice.
pub proof fn lemma_pedal_down(sf: SoundFontModel, s: SynthModel, channel: u8, value: u8)
    requires
        channel < 16,
        value >= 64,
        s.channels.len() == 16,
    ensures
        ({
            let (t, acts) = step(sf, s, MidiEvent::ControlChange { channel, ctrl: 64, value });
            &&& t.voices == s.voices
            &&& acts == Seq::<ActionModel>::empty()
            &&& t.channels[channel as int].sustain
        }),
{
}

} // verus!
