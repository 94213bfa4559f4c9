//! Loading of `.sf2`/`.sf3` files into the abstract [`SoundFont`] model.
//!
//! Both formats share the same RIFF/hydra layout; they differ only in how the
//! sample audio is stored. In `.sf2` the `smpl` chunk is a single pool of raw
//! little-endian 16-bit PCM, and each sample header indexes into it by sample
//! frame. In `.sf3` the `smpl` chunk is a concatenation of independent
//! Ogg/Vorbis streams, and each sample header gives the *byte* range of its
//! stream. This module hides that distinction: every [`Sample`] comes out with
//! its audio decoded to PCM and its loop points rebased to its own data.

use vstd::prelude::*;

use crate::clip::Clip;
use crate::soundfont::container::{
    HydraModel, addressable, all_read, children, hydra_spec, id_at, info_spec, leaf, leaf_spec,
    list_children, positions, read_hydra, read_info, tag_eq,
};
use crate::soundfont::error::{Error, ErrorModel, format_error};
use crate::soundfont::riff_io::{RawChunk, chunk_header_ok, read_chunk, read_type};
use crate::soundfont::generator::{GeneratorType, generator_of};
use crate::soundfont::hydra::{
    Bag, GenModel, GenRecord, HydraRecord, InstHeader, InstHeaderModel, ModRecord, PresetHeader,
    PresetHeaderModel, SampleHeader, SampleHeaderModel, le16_at, le_i16, models,
};
use crate::soundfont::model::{
    Generator, Info, GeneratorAmount, InfoModel, Instrument, InstrumentModel, Modulator, Preset,
    PresetModel, Range, Sample, SampleModel, SampleType, SoundFont, SoundFontModel, Zone,
    ZoneModel, instruments_model, presets_model, sample_type_of, samples_model, zones_model,
};
use crate::soundfont::vorbis::{decode_vorbis, vorbis_packets, vorbis_pcm};

verus! {

// ----- zones -------------------------------------------------------------------

/// The message for a bag index past the bag array.
pub open spec fn msg_bag_range() -> Seq<char> {
    "bag index out of range"@
}

/// The message for a record range outside its array.
pub open spec fn msg_offset_range() -> Seq<char> {
    "record offset out of range"@
}

/// Interprets a raw generator amount according to its generator type: two
/// bytes for the range generators, an unsigned word for the index
/// generators, a signed word otherwise.
pub open spec fn gen_amount_spec(kind: GeneratorType, raw: Seq<u8>) -> GeneratorAmount {
    if kind == GeneratorType::KEY_RANGE || kind == GeneratorType::VELOCITY_RANGE {
        GeneratorAmount::Range(Range { low: raw[0], high: raw[1] })
    } else if kind == GeneratorType::INSTRUMENT || kind == GeneratorType::SAMPLE_ID {
        GeneratorAmount::Word(le16_at(raw, 0))
    } else {
        GeneratorAmount::Short(le16_at(raw, 0) as i16)
    }
}

/// Interprets a raw generator amount according to its generator type.
pub fn gen_amount(kind: GeneratorType, raw: [u8; 2]) -> (a: GeneratorAmount)
    ensures
        a == gen_amount_spec(kind, raw@),
{
    if kind == GeneratorType::KEY_RANGE || kind == GeneratorType::VELOCITY_RANGE {
        GeneratorAmount::Range(Range { low: raw[0], high: raw[1] })
    } else if kind == GeneratorType::INSTRUMENT || kind == GeneratorType::SAMPLE_ID {
        GeneratorAmount::Word((raw[0] as u16) + (raw[1] as u16) * 256)
    } else {
        GeneratorAmount::Short(((raw[0] as u16) + (raw[1] as u16) * 256) as i16)
    }
}

/// The generators of a run of generator records: records whose operator is
/// no known generator are dropped.
pub open spec fn gens_model(gs: Seq<GenModel>) -> Seq<Generator>
    decreases gs.len(),
{
    if gs.len() == 0 {
        seq![]
    } else {
        let rest = gens_model(gs.drop_last());
        match generator_of(gs.last().oper) {
            Some(kind) => rest.push(
                Generator { kind, amount: gen_amount_spec(kind, gs.last().amount) },
            ),
            None => rest,
        }
    }
}

/// The modulator of a modulator record. An unknown destination is preserved
/// as `UNUSED_END`.
pub open spec fn modulator_of(m: ModRecord) -> Modulator {
    Modulator {
        source: m.src,
        destination: match generator_of(m.dest) {
            Some(g) => g,
            None => GeneratorType::UNUSED_END,
        },
        amount: m.amount,
        amount_source: m.amt_src,
        transform: m.trans,
    }
}

/// The modulators of a run of modulator records.
pub open spec fn mods_model(ms: Seq<ModRecord>) -> Seq<Modulator> {
    ms.map_values(|m: ModRecord| modulator_of(m))
}

/// The zones of bags `b..to`: bag `i` runs from its own generator and
/// modulator indices up to those of bag `i + 1`.
pub open spec fn zones_spec(
    bags: Seq<Bag>,
    gens: Seq<GenModel>,
    mods: Seq<ModRecord>,
    b: int,
    to: int,
) -> Result<Seq<ZoneModel>, ErrorModel>
    decreases to - b,
{
    if b >= to {
        Ok(seq![])
    } else if b < 0 || b + 1 >= bags.len() {
        Err(ErrorModel::Format(msg_bag_range()))
    } else {
        let bag = bags[b];
        let next = bags[b + 1];
        if !(bag.gen_ndx <= next.gen_ndx <= gens.len()) || !(bag.mod_ndx <= next.mod_ndx
            <= mods.len()) {
            Err(ErrorModel::Format(msg_offset_range()))
        } else {
            let zone = ZoneModel {
                generators: gens_model(gens.subrange(bag.gen_ndx as int, next.gen_ndx as int)),
                modulators: mods_model(mods.subrange(bag.mod_ndx as int, next.mod_ndx as int)),
            };
            match zones_spec(bags, gens, mods, b + 1, to) {
                Ok(rest) => Ok(seq![zone] + rest),
                Err(e) => Err(e),
            }
        }
    }
}

/// The elements `from..to` of `data`.
pub fn slice<T>(data: &[T], from: usize, to: usize) -> (r: Result<&[T], Error>)
    ensures
        r is Ok <==> from <= to <= data@.len(),
        r matches Ok(s) ==> s@ == data@.subrange(from as int, to as int),
        r matches Err(e) ==> e@ == ErrorModel::Format(msg_offset_range()),
{
    if from <= to && to <= data.len() {
        Ok(&data[from..to])
    } else {
        Err(format_error("record offset out of range"))
    }
}

/// The generators of a run of generator records.
fn build_generators(gs: &[GenRecord]) -> (v: Vec<Generator>)
    ensures
        v@ == gens_model(models(gs@)),
{
    let mut out: Vec<Generator> = Vec::new();
    let mut i: usize = 0;
    while i < gs.len()
        invariant
            i <= gs@.len(),
            out@ == gens_model(models(gs@).take(i as int)),
        decreases gs@.len() - i,
    {
        proof {
            assert(models(gs@).take(i as int + 1).drop_last() =~= models(gs@).take(i as int));
        }
        let g = gs[i];
        match GeneratorType::from_u16(g.oper) {
            Some(kind) => {
                out.push(Generator { kind, amount: gen_amount(kind, g.amount) });
            },
            None => {},
        }
        i = i + 1;
    }
    proof {
        assert(models(gs@).take(i as int) =~= models(gs@));
    }
    out
}

/// The modulators of a run of modulator records.
fn build_modulators(ms: &[ModRecord]) -> (v: Vec<Modulator>)
    ensures
        v@ == mods_model(models(ms@)),
{
    let mut out: Vec<Modulator> = Vec::new();
    let mut i: usize = 0;
    while i < ms.len()
        invariant
            i <= ms@.len(),
            out@ =~= mods_model(models(ms@).take(i as int)),
        decreases ms@.len() - i,
    {
        let m = ms[i];
        let destination = match GeneratorType::from_u16(m.dest) {
            Some(g) => g,
            None => GeneratorType::UNUSED_END,
        };
        out.push(
            Modulator {
                source: m.src,
                destination,
                amount: m.amount,
                amount_source: m.amt_src,
                transform: m.trans,
            },
        );
        i = i + 1;
        proof {
            assert(mods_model(models(ms@).take(i as int)) =~= mods_model(models(ms@).take(i - 1)).push(
                modulator_of(m),
            ));
        }
    }
    proof {
        assert(models(ms@).take(i as int) =~= models(ms@));
    }
    out
}

/// Builds the list of zones for one preset/instrument, given the half-open
/// `[from, to)` range of bag records that belong to it.
pub fn build_zones(
    bags: &[Bag],
    gens: &[GenRecord],
    mods: &[ModRecord],
    from: usize,
    to: usize,
) -> (res: Result<Vec<Zone>, Error>)
    ensures
        match zones_spec(models(bags@), models(gens@), models(mods@), from as int, to as int) {
            Ok(zs) => res matches Ok(v) && zones_model(v@) == zs,
            Err(e) => res matches Err(x) && x@ == e,
        },
{
    let mut zones: Vec<Zone> = Vec::new();
    let mut b = from;
    while b < to
        invariant
            from <= b || to <= from,
            b >= from,
            zones_spec(models(bags@), models(gens@), models(mods@), from as int, to as int) == match zones_spec(
                models(bags@),
                models(gens@),
                models(mods@),
                b as int,
                to as int,
            ) {
                Ok(rest) => Ok(zones_model(zones@) + rest),
                Err(e) => Err(e),
            },
        decreases to - b,
    {
        if b >= bags.len() || b + 1 >= bags.len() {
            return Err(format_error("bag index out of range"));
        }
        let bag = bags[b];
        let next = bags[b + 1];
        let gen_slice = match slice(gens, bag.gen_ndx as usize, next.gen_ndx as usize) {
            Ok(s) => s,
            Err(e) => return Err(e),
        };
        let mod_slice = match slice(mods, bag.mod_ndx as usize, next.mod_ndx as usize) {
            Ok(s) => s,
            Err(e) => return Err(e),
        };
        let generators = build_generators(gen_slice);
        let modulators = build_modulators(mod_slice);
        let ghost prev = zones_model(zones@);
        let zone = Zone { generators, modulators };
        zones.push(zone);
        proof {
            assert(models(bags@)[b as int] == bag);
            assert(models(bags@)[b + 1] == next);
            assert(models(gen_slice@) =~= models(gens@).subrange(
                bag.gen_ndx as int,
                next.gen_ndx as int,
            ));
            assert(models(mod_slice@) =~= models(mods@).subrange(
                bag.mod_ndx as int,
                next.mod_ndx as int,
            ));
            assert(zones_model(zones@) =~= prev + seq![zone@]);
            match zones_spec(models(bags@), models(gens@), models(mods@), b + 1, to as int) {
                Ok(rest) => {
                    assert(prev + (seq![zone@] + rest) =~= prev + seq![zone@] + rest);
                },
                Err(_) => {},
            }
        }
        b = b + 1;
    }
    proof {
        assert(zones_model(zones@) + seq![] =~= zones_model(zones@));
    }
    Ok(zones)
}

// ----- presets and instruments ---------------------------------------------------

/// The presets of the `phdr` records from `i` on: each record's zones run up
/// to the next record's first bag; the final (`EOP`) record only bounds the
/// one before it and yields no preset.
pub open spec fn presets_from(
    phdr: Seq<PresetHeaderModel>,
    bags: Seq<Bag>,
    gens: Seq<GenModel>,
    mods: Seq<ModRecord>,
    i: int,
) -> Result<Seq<PresetModel>, ErrorModel>
    decreases phdr.len() - i,
{
    if i < 0 || i + 1 >= phdr.len() {
        Ok(seq![])
    } else {
        let h = phdr[i];
        match zones_spec(bags, gens, mods, h.bag as int, phdr[i + 1].bag as int) {
            Err(e) => Err(e),
            Ok(zones) => {
                let p = PresetModel {
                    name: h.name,
                    program: h.program,
                    bank: h.bank,
                    library: h.library,
                    genre: h.genre,
                    morphology: h.morphology,
                    zones,
                };
                match presets_from(phdr, bags, gens, mods, i + 1) {
                    Ok(rest) => Ok(seq![p] + rest),
                    Err(e) => Err(e),
                }
            },
        }
    }
}

/// The instruments of the `inst` records from `i` on (the final `EOI`
/// record only bounds the one before it).
pub open spec fn instruments_from(
    inst: Seq<InstHeaderModel>,
    bags: Seq<Bag>,
    gens: Seq<GenModel>,
    mods: Seq<ModRecord>,
    i: int,
) -> Result<Seq<InstrumentModel>, ErrorModel>
    decreases inst.len() - i,
{
    if i < 0 || i + 1 >= inst.len() {
        Ok(seq![])
    } else {
        let h = inst[i];
        match zones_spec(bags, gens, mods, h.bag as int, inst[i + 1].bag as int) {
            Err(e) => Err(e),
            Ok(zones) => {
                let p = InstrumentModel { name: h.name, zones };
                match instruments_from(inst, bags, gens, mods, i + 1) {
                    Ok(rest) => Ok(seq![p] + rest),
                    Err(e) => Err(e),
                }
            },
        }
    }
}

/// Builds the presets from the `phdr` records and the preset-side bag,
/// generator and modulator records.
pub fn build_presets(
    phdr: &[PresetHeader],
    pbag: &[Bag],
    pgen: &[GenRecord],
    pmod: &[ModRecord],
) -> (res: Result<Vec<Preset>, Error>)
    ensures
        match presets_from(models(phdr@), models(pbag@), models(pgen@), models(pmod@), 0) {
            Ok(ps) => res matches Ok(v) && presets_model(v@) == ps,
            Err(e) => res matches Err(x) && x@ == e,
        },
{
    let mut presets: Vec<Preset> = Vec::new();
    let mut i: usize = 0;
    while i < phdr.len() && phdr.len() - i > 1
        invariant
            i <= phdr@.len(),
            presets_from(models(phdr@), models(pbag@), models(pgen@), models(pmod@), 0) == match presets_from(
                models(phdr@),
                models(pbag@),
                models(pgen@),
                models(pmod@),
                i as int,
            ) {
                Ok(rest) => Ok(presets_model(presets@) + rest),
                Err(e) => Err(e),
            },
        decreases phdr@.len() - i,
    {
        let header = &phdr[i];
        let next = &phdr[i + 1];
        let zones = match build_zones(pbag, pgen, pmod, header.bag as usize, next.bag as usize) {
            Ok(z) => z,
            Err(e) => return Err(e),
        };
        let ghost prev = presets_model(presets@);
        let p = Preset {
            name: header.name.clone(),
            program: header.program,
            bank: header.bank,
            library: header.library,
            genre: header.genre,
            morphology: header.morphology,
            zones,
        };
        presets.push(p);
        proof {
            assert(presets_model(presets@) =~= prev + seq![p@]);
            match presets_from(models(phdr@), models(pbag@), models(pgen@), models(pmod@), i + 1) {
                Ok(rest) => {
                    assert(prev + (seq![p@] + rest) =~= prev + seq![p@] + rest);
                },
                Err(_) => {},
            }
        }
        i = i + 1;
    }
    proof {
        assert(presets_model(presets@) + seq![] =~= presets_model(presets@));
    }
    Ok(presets)
}

/// Builds the instruments from the `inst` records and the instrument-side
/// bag, generator and modulator records.
pub fn build_instruments(
    inst: &[InstHeader],
    ibag: &[Bag],
    igen: &[GenRecord],
    imod: &[ModRecord],
) -> (res: Result<Vec<Instrument>, Error>)
    ensures
        match instruments_from(models(inst@), models(ibag@), models(igen@), models(imod@), 0) {
            Ok(ps) => res matches Ok(v) && instruments_model(v@) == ps,
            Err(e) => res matches Err(x) && x@ == e,
        },
{
    let mut instruments: Vec<Instrument> = Vec::new();
    let mut i: usize = 0;
    while i < inst.len() && inst.len() - i > 1
        invariant
            i <= inst@.len(),
            instruments_from(models(inst@), models(ibag@), models(igen@), models(imod@), 0) == match instruments_from(
                models(inst@),
                models(ibag@),
                models(igen@),
                models(imod@),
                i as int,
            ) {
                Ok(rest) => Ok(instruments_model(instruments@) + rest),
                Err(e) => Err(e),
            },
        decreases inst@.len() - i,
    {
        let header = &inst[i];
        let next = &inst[i + 1];
        let zones = match build_zones(ibag, igen, imod, header.bag as usize, next.bag as usize) {
            Ok(z) => z,
            Err(e) => return Err(e),
        };
        let ghost prev = instruments_model(instruments@);
        let p = Instrument { name: header.name.clone(), zones };
        instruments.push(p);
        proof {
            assert(instruments_model(instruments@) =~= prev + seq![p@]);
            match instruments_from(models(inst@), models(ibag@), models(igen@), models(imod@), i + 1) {
                Ok(rest) => {
                    assert(prev + (seq![p@] + rest) =~= prev + seq![p@] + rest);
                },
                Err(_) => {},
            }
        }
        i = i + 1;
    }
    proof {
        assert(instruments_model(instruments@) + seq![] =~= instruments_model(instruments@));
    }
    Ok(instruments)
}

// ----- samples ---------------------------------------------------------------------

/// Bit in `sfSampleType` that marks an Ogg/Vorbis-compressed sample (`.sf3`).
pub const SAMPLE_TYPE_COMPRESSED: u16 = 0x10;

/// `a - b`, or `0` when `b` exceeds `a`.
pub open spec fn saturating_sub_spec(a: u32, b: u32) -> u32 {
    if a >= b {
        (a - b) as u32
    } else {
        0
    }
}

/// Little-endian 16-bit PCM: one sample per two bytes.
pub open spec fn pcm_of(bytes: Seq<u8>) -> Seq<i16> {
    Seq::new(bytes.len() / 2, |k: int| le16_at(bytes, 2 * k) as i16)
}

/// The larger of two values.
pub open spec fn max_u32(a: u32, b: u32) -> u32 {
    if a >= b {
        a
    } else {
        b
    }
}

/// The sample a sample header describes, with its audio taken from the
/// sample pool `smpl`.
///
/// A compressed (`.sf3`) sample is an independent Ogg/Vorbis stream at the
/// byte range `start..end`, decoded; its loop points are already relative to
/// it. An `.sf2` sample is raw PCM addressed by sample frame; since a
/// looping sample's loop may extend past `end`, it runs to the later of `end`
/// and the loop end, and its loop points are rebased to its start. The
/// compression flag is masked off the type.
pub open spec fn sample_spec(h: SampleHeaderModel, smpl: Seq<u8>) -> Result<SampleModel, ErrorModel> {
    let kind = sample_type_of(h.sample_type & 0xFFEF);
    if h.sample_type & SAMPLE_TYPE_COMPRESSED != 0 {
        if !(h.start <= h.end <= smpl.len()) {
            Err(ErrorModel::Format(msg_offset_range()))
        } else {
            match vorbis_packets(smpl.subrange(h.start as int, h.end as int)) {
                None => Err(ErrorModel::Vorbis),
                Some(p) => Ok(
                    SampleModel {
                        name: h.name,
                        data: vorbis_pcm(p),
                        sample_rate: h.sample_rate,
                        loop_start: h.start_loop,
                        loop_end: h.end_loop,
                        original_key: h.original_key,
                        correction: h.correction,
                        link: h.link,
                        kind,
                    },
                ),
            }
        }
    } else {
        let begin = 2 * h.start;
        let finish = 2 * max_u32(h.end, h.end_loop);
        if !(begin <= finish <= smpl.len()) {
            Err(ErrorModel::Format(msg_offset_range()))
        } else {
            Ok(
                SampleModel {
                    name: h.name,
                    data: pcm_of(smpl.subrange(begin, finish)),
                    sample_rate: h.sample_rate,
                    loop_start: saturating_sub_spec(h.start_loop, h.start),
                    loop_end: saturating_sub_spec(h.end_loop, h.start),
                    original_key: h.original_key,
                    correction: h.correction,
                    link: h.link,
                    kind,
                },
            )
        }
    }
}

/// The samples of the `shdr` records from `i` on; the final (`EOS`) record
/// is a sentinel and yields none.
pub open spec fn samples_from(headers: Seq<SampleHeaderModel>, smpl: Seq<u8>, i: int) -> Result<
    Seq<SampleModel>,
    ErrorModel,
>
    decreases headers.len() - i,
{
    if i < 0 || i + 1 >= headers.len() {
        Ok(seq![])
    } else {
        match sample_spec(headers[i], smpl) {
            Err(e) => Err(e),
            Ok(s) => match samples_from(headers, smpl, i + 1) {
                Ok(rest) => Ok(seq![s] + rest),
                Err(e) => Err(e),
            },
        }
    }
}

/// Decodes raw little-endian 16-bit PCM.
fn pcm_from_bytes(bytes: &[u8]) -> (pcm: Vec<i16>)
    ensures
        pcm@ == pcm_of(bytes@),
{
    let mut out: Vec<i16> = Vec::new();
    let mut k: usize = 0;
    while k < bytes.len() / 2
        invariant
            k <= bytes@.len() / 2,
            out@.len() == k,
            forall|j: int| 0 <= j < k ==> #[trigger] out@[j] == le16_at(bytes@, 2 * j) as i16,
        decreases bytes@.len() / 2 - k,
    {
        out.push(le_i16(bytes, 2 * k));
        k = k + 1;
    }
    proof {
        assert(out@ =~= pcm_of(bytes@));
    }
    out
}

/// Builds one sample from its header and the sample pool.
pub fn build_sample(header: &SampleHeader, smpl: &[u8]) -> (res: Result<Sample, Error>)
    ensures
        match sample_spec(header.model(), smpl@) {
            Ok(s) => res matches Ok(v) && v@ == s,
            Err(e) => res matches Err(x) && x@ == e,
        },
{
    let kind = SampleType::from_u16(header.sample_type & 0xFFEF);
    if header.sample_type & SAMPLE_TYPE_COMPRESSED != 0 {
        // `.sf3`: an independent Ogg/Vorbis stream delimited by byte
        // offsets; its loop points are already relative to the sample.
        let blob = match slice(smpl, header.start as usize, header.end as usize) {
            Ok(b) => b,
            Err(e) => return Err(e),
        };
        let pcm = match decode_vorbis(blob) {
            Ok(p) => p,
            Err(e) => return Err(Error::Vorbis(e)),
        };
        Ok(
            Sample {
                name: header.name.clone(),
                clip: Clip::new(pcm, header.sample_rate),
                loop_start: header.start_loop,
                loop_end: header.end_loop,
                original_key: header.original_key,
                correction: header.correction,
                link: header.link,
                kind,
            },
        )
    } else {
        // `.sf2`: raw i16 PCM addressed by sample frame. A looping sample's
        // loop may extend past `end`, so include up to the loop end.
        let last = if header.end >= header.end_loop {
            header.end
        } else {
            header.end_loop
        };
        let begin: u64 = header.start as u64 * 2;
        let finish: u64 = last as u64 * 2;
        if !(begin <= finish && finish <= smpl.len() as u64) {
            return Err(format_error("record offset out of range"));
        }
        let bytes = &smpl[begin as usize..finish as usize];
        let pcm = pcm_from_bytes(bytes);
        let loop_start = if header.start_loop >= header.start {
            header.start_loop - header.start
        } else {
            0
        };
        let loop_end = if header.end_loop >= header.start {
            header.end_loop - header.start
        } else {
            0
        };
        Ok(
            Sample {
                name: header.name.clone(),
                clip: Clip::new(pcm, header.sample_rate),
                loop_start,
                loop_end,
                original_key: header.original_key,
                correction: header.correction,
                link: header.link,
                kind,
            },
        )
    }
}

/// Builds the samples from the `shdr` records (the final one is the `EOS`
/// sentinel) and the sample pool.
pub fn build_samples(headers: &[SampleHeader], smpl: &[u8]) -> (res: Result<Vec<Sample>, Error>)
    ensures
        match samples_from(models(headers@), smpl@, 0) {
            Ok(ss) => res matches Ok(v) && samples_model(v@) == ss,
            Err(e) => res matches Err(x) && x@ == e,
        },
{
    let mut samples: Vec<Sample> = Vec::new();
    let mut i: usize = 0;
    while i < headers.len() && headers.len() - i > 1
        invariant
            i <= headers@.len(),
            samples_from(models(headers@), smpl@, 0) == match samples_from(models(headers@), smpl@, i as int) {
                Ok(rest) => Ok(samples_model(samples@) + rest),
                Err(e) => Err(e),
            },
        decreases headers@.len() - i,
    {
        let s = match build_sample(&headers[i], smpl) {
            Ok(s) => s,
            Err(e) => return Err(e),
        };
        let ghost prev = samples_model(samples@);
        samples.push(s);
        proof {
            assert(samples_model(samples@) =~= prev + seq![s@]);
            match samples_from(models(headers@), smpl@, i + 1) {
                Ok(rest) => {
                    assert(prev + (seq![s@] + rest) =~= prev + seq![s@] + rest);
                },
                Err(_) => {},
            }
        }
        i = i + 1;
    }
    proof {
        assert(samples_model(samples@) + seq![] =~= samples_model(samples@));
    }
    Ok(samples)
}

// ----- the whole file ------------------------------------------------------------------

/// The lists of a bank, by their offsets: the `INFO`, `sdta` and `pdta`
/// lists among the chunks at `ps` (for each, the last `LIST` of that type
/// counts); an I/O error when a `LIST` is too short to hold its type.
pub open spec fn lists_spec(bytes: Seq<u8>, ps: Seq<int>) -> Result<
    (Option<int>, Option<int>, Option<int>),
    ErrorModel,
>
    decreases ps.len(),
{
    if ps.len() == 0 {
        Ok((None, None, None))
    } else {
        match lists_spec(bytes, ps.drop_last()) {
            Err(e) => Err(e),
            Ok((info, sdta, pdta)) => {
                let q = ps.last();
                if id_at(bytes, q) != seq![0x4cu8, 0x49u8, 0x53u8, 0x54u8] {
                    // not a LIST
                    Ok((info, sdta, pdta))
                } else if q + 12 > bytes.len() {
                    Err(ErrorModel::Io)
                } else {
                    let t = bytes.subrange(q + 8, q + 12);
                    if t == seq![0x49u8, 0x4eu8, 0x46u8, 0x4fu8] {
                        // INFO
                        Ok((Some(q), sdta, pdta))
                    } else if t == seq![0x73u8, 0x64u8, 0x74u8, 0x61u8] {
                        // sdta
                        Ok((info, Some(q), pdta))
                    } else if t == seq![0x70u8, 0x64u8, 0x74u8, 0x61u8] {
                        // pdta
                        Ok((info, sdta, Some(q)))
                    } else {
                        Ok((info, sdta, pdta))
                    }
                }
            },
        }
    }
}

/// The bank assembled from its metadata, its hydra and its sample pool:
/// samples first, then instruments, then presets.
pub open spec fn assemble_spec(info: InfoModel, h: HydraModel, smpl: Seq<u8>) -> Result<
    SoundFontModel,
    ErrorModel,
> {
    match samples_from(h.shdr, smpl, 0) {
        Err(e) => Err(e),
        Ok(samples) => match instruments_from(h.inst, h.ibag, h.igen, h.imod, 0) {
            Err(e) => Err(e),
            Ok(instruments) => match presets_from(h.phdr, h.pbag, h.pgen, h.pmod, 0) {
                Err(e) => Err(e),
                Ok(presets) => Ok(SoundFontModel { info, presets, instruments, samples }),
            },
        },
    }
}

/// The bank whose `sdta` and `pdta` lists are at `sdta` and `pdta`: the
/// sample pool is the first `smpl` chunk of `sdta` (empty when there is
/// none), the hydra is read from `pdta`.
pub open spec fn body_spec(bytes: Seq<u8>, info: InfoModel, sdta: int, pdta: int) -> Result<
    SoundFontModel,
    ErrorModel,
> {
    match list_children(bytes, sdta) {
        None => Err(ErrorModel::Io),
        Some(sps) => match leaf_spec(bytes, sps, seq![0x73u8, 0x6du8, 0x70u8, 0x6cu8]) {
            Err(e) => Err(e),
            Ok(found) => {
                let smpl = match found {
                    Some(d) => d,
                    None => seq![],
                };
                match list_children(bytes, pdta) {
                    None => Err(ErrorModel::Io),
                    Some(pps) => match hydra_spec(bytes, pps) {
                        Err(e) => Err(e),
                        Ok(h) => assemble_spec(info, h, smpl),
                    },
                }
            },
        },
    }
}

/// A whole `.sf2`/`.sf3` file: a `RIFF` chunk of form `sfbk` whose
/// children hold an `INFO`, an `sdta` and a `pdta` list. The `INFO` list is
/// read before the other two are looked for.
pub open spec fn soundfont_spec(bytes: Seq<u8>) -> Result<SoundFontModel, ErrorModel> {
    if bytes.len() < 8 {
        Err(ErrorModel::Io)
    } else if id_at(bytes, 0) != seq![0x52u8, 0x49u8, 0x46u8, 0x46u8] {
        Err(ErrorModel::Format("missing RIFF header"@))
    } else if bytes.len() < 12 {
        Err(ErrorModel::Io)
    } else if bytes.subrange(8, 12) != seq![0x73u8, 0x66u8, 0x62u8, 0x6bu8] {
        Err(ErrorModel::Format("not a soundfont (form type is not 'sfbk')"@))
    } else {
        match list_children(bytes, 0) {
            None => Err(ErrorModel::Io),
            Some(ps) => match lists_spec(bytes, ps) {
                Err(e) => Err(e),
                Ok((info, sdta, pdta)) => match info {
                    None => Err(ErrorModel::Format("missing INFO list"@)),
                    Some(ip) => match list_children(bytes, ip) {
                        None => Err(ErrorModel::Io),
                        Some(ips) => match info_spec(bytes, ips) {
                            Err(e) => Err(e),
                            Ok(im) => match sdta {
                                None => Err(ErrorModel::Format("missing sdta list"@)),
                                Some(sp) => match pdta {
                                    None => Err(ErrorModel::Format("missing pdta list"@)),
                                    Some(pp) => body_spec(bytes, im, sp, pp),
                                },
                            },
                        },
                    },
                },
            },
        }
    }
}

/// The offset of an optional chunk.
pub open spec fn opt_pos(c: Option<RawChunk>) -> Option<int> {
    match c {
        Some(c) => Some(c.pos as int),
        None => None,
    }
}

/// An optional chunk, if present, was read from `bytes` at its offset.
pub open spec fn opt_read(bytes: Seq<u8>, c: Option<RawChunk>) -> bool {
    c matches Some(c) ==> chunk_header_ok(bytes, c.pos as int, c)
}

/// Once the lists up to `n` fail to read, so do all of them.
proof fn lemma_lists_err_sticks(bytes: Seq<u8>, ps: Seq<int>, n: int)
    requires
        0 <= n <= ps.len(),
        lists_spec(bytes, ps.take(n)) is Err,
    ensures
        lists_spec(bytes, ps) == lists_spec(bytes, ps.take(n)),
    decreases ps.len() - n,
{
    if n < ps.len() {
        assert(ps.take(n + 1).drop_last() =~= ps.take(n));
        lemma_lists_err_sticks(bytes, ps, n + 1);
    } else {
        assert(ps.take(n) =~= ps);
    }
}

/// Finds the `INFO`, `sdta` and `pdta` lists among the children of the
/// `RIFF` chunk.
fn find_lists(bytes: &[u8], kids: &Vec<RawChunk>) -> (res: Result<
    (Option<RawChunk>, Option<RawChunk>, Option<RawChunk>),
    Error,
>)
    requires
        all_read(bytes@, kids@),
    ensures
        match lists_spec(bytes@, positions(kids@)) {
            Err(e) => res matches Err(x) && x@ == e,
            Ok((a, b, c)) => res matches Ok((x, y, z)) && opt_pos(x) == a && opt_pos(y) == b
                && opt_pos(z) == c && opt_read(bytes@, x) && opt_read(bytes@, y) && opt_read(
                bytes@,
                z,
            ),
        },
{
    let ghost ps = positions(kids@);
    let mut info: Option<RawChunk> = None;
    let mut sdta: Option<RawChunk> = None;
    let mut pdta: Option<RawChunk> = None;
    let mut i: usize = 0;
    while i < kids.len()
        invariant
            i <= kids@.len(),
            ps == positions(kids@),
            all_read(bytes@, kids@),
            lists_spec(bytes@, ps.take(i as int)) == Ok::<
                (Option<int>, Option<int>, Option<int>),
                ErrorModel,
            >((opt_pos(info), opt_pos(sdta), opt_pos(pdta))),
            opt_read(bytes@, info),
            opt_read(bytes@, sdta),
            opt_read(bytes@, pdta),
        decreases kids@.len() - i,
    {
        let c = kids[i];
        assert(chunk_header_ok(bytes@, kids@[i as int].pos as int, kids@[i as int]));
        assert(ps.take(i + 1).drop_last() =~= ps.take(i as int));
        assert(ps.take(i + 1).last() == c.pos as int);
        if tag_eq(&c.id, 0x4c, 0x49, 0x53, 0x54) {
            let t = match read_type(bytes, &c) {
                Ok(t) => t,
                Err(e) => {
                    proof {
                        lemma_lists_err_sticks(bytes@, ps, i + 1);
                    }
                    return Err(Error::Io(e));
                },
            };
            if tag_eq(&t, 0x49, 0x4e, 0x46, 0x4f) {
                info = Some(c);
            } else if tag_eq(&t, 0x73, 0x64, 0x74, 0x61) {
                sdta = Some(c);
            } else if tag_eq(&t, 0x70, 0x64, 0x74, 0x61) {
                pdta = Some(c);
            }
        }
        i = i + 1;
    }
    assert(ps.take(i as int) =~= ps);
    Ok((info, sdta, pdta))
}

/// Reads the sample pool and the hydra and assembles the bank.
fn load_body(bytes: &[u8], info: Info, sdta: &RawChunk, pdta: &RawChunk) -> (res: Result<
    SoundFont,
    Error,
>)
    requires
        addressable(bytes@),
        chunk_header_ok(bytes@, sdta.pos as int, *sdta),
        chunk_header_ok(bytes@, pdta.pos as int, *pdta),
    ensures
        match body_spec(bytes@, info@, sdta.pos as int, pdta.pos as int) {
            Ok(m) => res matches Ok(sf) && sf@ == m,
            Err(e) => res matches Err(x) && x@ == e,
        },
{
    let smpl_tag: [u8; 4] = [0x73, 0x6d, 0x70, 0x6c];
    assert(smpl_tag@ =~= seq![0x73u8, 0x6du8, 0x70u8, 0x6cu8]);
    let smpl = match leaf(bytes, sdta, &smpl_tag) {
        Ok(Some(d)) => d,
        Ok(None) => Vec::new(),
        Err(e) => return Err(e),
    };
    let hydra = match read_hydra(bytes, pdta) {
        Ok(h) => h,
        Err(e) => return Err(e),
    };
    let samples = match build_samples(hydra.shdr.as_slice(), smpl.as_slice()) {
        Ok(v) => v,
        Err(e) => return Err(e),
    };
    let instruments = match build_instruments(
        hydra.inst.as_slice(),
        hydra.ibag.as_slice(),
        hydra.igen.as_slice(),
        hydra.imod.as_slice(),
    ) {
        Ok(v) => v,
        Err(e) => return Err(e),
    };
    let presets = match build_presets(
        hydra.phdr.as_slice(),
        hydra.pbag.as_slice(),
        hydra.pgen.as_slice(),
        hydra.pmod.as_slice(),
    ) {
        Ok(v) => v,
        Err(e) => return Err(e),
    };
    Ok(SoundFont { info, presets, instruments, samples })
}

impl SoundFont {
    /// Loads a SoundFont from an in-memory `.sf2`/`.sf3` image, decoding
    /// samples to PCM.
    ///
    /// Returns [`Error::Format`] if `bytes` is not a well-formed SoundFont,
    /// [`Error::Io`] if a chunk runs past the end of the data, or
    /// [`Error::Vorbis`] if a compressed sample cannot be decoded.
    pub fn from_bytes(bytes: &[u8]) -> (res: Result<SoundFont, Error>)
        requires
            addressable(bytes@),
        ensures
            match soundfont_spec(bytes@) {
                Ok(m) => res matches Ok(sf) && sf@ == m,
                Err(e) => res matches Err(x) && x@ == e,
            },
    {
        let riff = match read_chunk(bytes, 0) {
            Ok(c) => c,
            Err(e) => return Err(Error::Io(e)),
        };
        if !tag_eq(&riff.id, 0x52, 0x49, 0x46, 0x46) {
            return Err(format_error("missing RIFF header"));
        }
        let form = match read_type(bytes, &riff) {
            Ok(t) => t,
            Err(e) => return Err(Error::Io(e)),
        };
        if !tag_eq(&form, 0x73, 0x66, 0x62, 0x6b) {
            return Err(format_error("not a soundfont (form type is not 'sfbk')"));
        }
        let kids = match children(bytes, &riff) {
            Ok(k) => k,
            Err(e) => return Err(e),
        };
        let (info_list, sdta_list, pdta_list) = match find_lists(bytes, &kids) {
            Ok(t) => t,
            Err(e) => return Err(e),
        };
        let info = match info_list {
            Some(list) => match read_info(bytes, &list) {
                Ok(i) => i,
                Err(e) => return Err(e),
            },
            None => return Err(format_error("missing INFO list")),
        };
        let sdta = match sdta_list {
            Some(l) => l,
            None => return Err(format_error("missing sdta list")),
        };
        let pdta = match pdta_list {
            Some(l) => l,
            None => return Err(format_error("missing pdta list")),
        };
        load_body(bytes, info, &sdta, &pdta)
    }
}

} // verus!
