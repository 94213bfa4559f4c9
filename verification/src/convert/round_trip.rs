//! What the loader reads back from the arrays the writer produces.
//!
//! Conversion goes through the abstract model, so the laws here say which
//! parts of the model survive a write and a read: presets, instruments,
//! zones, generators, modulators and sample metadata all do, provided every
//! generator's amount has the variant its type calls for and no generator or
//! modulator destination is the `COUNT` sentinel. Names come back as the
//! loader reads the 20-byte field the writer stores.

use vstd::prelude::*;

use crate::convert::hydra::{
    all_gens, all_mods, bag_enc, bags_bytes, flat, gens_bytes, mods_bytes, gen_enc, lemma_flat_len, lemma_flat_push, le16_bytes,
    le32_bytes, mod_enc, raw_amount_spec, zeros, cut_at, name20_spec, phdr_enc,
    preset_zones, presets_arrays, presets_overflow, inst_enc, instrument_zones,
    instruments_arrays, instruments_overflow, SampleRegion, shdr_array, shdr_enc,
    SAMPLE_TYPE_COMPRESSED,
};
use crate::soundfont::generator::{GeneratorType, generator_code, lemma_code_round_trip};
use crate::soundfont::hydra::{
    Bag, GenModel, GenRecord, HydraRecord, InstHeader, InstHeaderModel, ModRecord, PresetHeader, PresetHeaderModel, SampleHeader, SampleHeaderModel, byte_at, le16_at,
    le32_at, name_at, nul_from, pair_at, record_at, records_spec, rest, zstr_spec,
};
use crate::text::{is_white, lossy_text, trim_end_spec};
use crate::soundfont::load::{
    gen_amount_spec, gens_model, instruments_from, modulator_of, mods_model, presets_from,
    sample_spec, samples_from, zones_spec,
};
use crate::soundfont::model::{
    Generator, GeneratorAmount, InstrumentModel, Modulator, PresetModel, SampleModel, SampleType,
    ZoneModel, sample_type_bits, sample_type_of,
};

verus! {

// ----- little-endian fields -------------------------------------------------------

/// Two bytes written by `le16_bytes` read back as the same word.
pub proof fn lemma_le16_read(d: Seq<u8>, at: int, v: u16)
    requires
        0 <= at,
        at + 2 <= d.len(),
        d.subrange(at, at + 2) == le16_bytes(v),
    ensures
        le16_at(d, at) == v,
{
    assert(d[at] == d.subrange(at, at + 2)[0]);
    assert(d[at + 1] == d.subrange(at, at + 2)[1]);
    let lo = (v % 256) as u8;
    let hi = (v / 256) as u8;
    assert(lo + hi * 256 == v);
}

/// Four bytes written by `le32_bytes` read back as the same word.
pub proof fn lemma_le32_read(d: Seq<u8>, at: int, v: u32)
    requires
        0 <= at,
        at + 4 <= d.len(),
        d.subrange(at, at + 4) == le32_bytes(v),
    ensures
        le32_at(d, at) == v,
{
    let s = d.subrange(at, at + 4);
    assert(d[at] == s[0]);
    assert(d[at + 1] == s[1]);
    assert(d[at + 2] == s[2]);
    assert(d[at + 3] == s[3]);
    let b0 = (v % 256) as u8;
    let b1 = ((v / 256) % 256) as u8;
    let b2 = ((v / 65536) % 256) as u8;
    let b3 = (v / 16777216) as u8;
    assert(b0 + b1 * 256 + b2 * 65536 + b3 * 16777216 == v) by {
        assert(v == (v % 256) + ((v / 256) % 256) * 256 + ((v / 65536) % 256) * 65536 + (v
            / 16777216) * 16777216) by (nonlinear_arith);
    }
}

/// A signed word stored through its unsigned bits reads back unchanged.
pub proof fn lemma_i16_bits(v: i16)
    ensures
        (v as u16) as i16 == v,
{
    assert((v as u16) as i16 == v) by (bit_vector);
}

// ----- records laid end to end ------------------------------------------------------

/// The `i`th record of `size` bytes of records laid end to end is the `i`th
/// record.
pub proof fn lemma_record_at_flat(encs: Seq<Seq<u8>>, size: int, i: int)
    requires
        size > 0,
        forall|j: int| 0 <= j < encs.len() ==> (#[trigger] encs[j]).len() == size,
        0 <= i < encs.len(),
    ensures
        record_at(flat(encs), size, i) == encs[i],
    decreases encs.len(),
{
    let n = encs.len() as int;
    let a = encs.drop_last();
    lemma_flat_len(a, size);
    assert(flat(encs) == flat(a) + encs.last());
    if i == n - 1 {
        assert(record_at(flat(encs), size, i) =~= encs.last());
    } else {
        lemma_record_at_flat(a, size, i);
        assert(i * size + size <= (n - 1) * size) by (nonlinear_arith)
            requires
                i + 1 <= n - 1,
                size > 0,
        ;
        assert(0 <= i * size) by (nonlinear_arith)
            requires
                i >= 0,
                size > 0,
        ;
        assert(record_at(flat(encs), size, i) =~= record_at(flat(a), size, i));
    }
}

/// Reading records laid end to end reads each record.
pub proof fn lemma_records_flat<T: HydraRecord>(encs: Seq<Seq<u8>>, size: int)
    requires
        size > 0,
        forall|j: int| 0 <= j < encs.len() ==> (#[trigger] encs[j]).len() == size,
    ensures
        records_spec::<T>(flat(encs), size) == encs.map_values(|e: Seq<u8>| T::of_bytes(e)),
        (flat(encs).len() as int) % size == 0,
{
    let n = encs.len() as int;
    lemma_flat_len(encs, size);
    vstd::arithmetic::div_mod::lemma_mod_multiples_basic(n, size);
    assert((flat(encs).len() as int) / size == n) by (nonlinear_arith)
        requires
            flat(encs).len() == n * size,
            size > 0,
    ;
    let r = records_spec::<T>(flat(encs), size);
    assert forall|i: int| 0 <= i < n implies #[trigger] r[i] == T::of_bytes(encs[i]) by {
        lemma_record_at_flat(encs, size, i);
    }
    assert(r =~= encs.map_values(|e: Seq<u8>| T::of_bytes(e)));
}

// ----- single records -------------------------------------------------------------------

/// A generator as its record reads back.
pub open spec fn gen_rec(g: Generator) -> GenModel {
    GenModel { oper: generator_code(g.kind), amount: raw_amount_spec(g.amount) }
}

/// A modulator as its record reads back.
pub open spec fn mod_rec(m: Modulator) -> ModRecord {
    ModRecord {
        src: m.source,
        dest: generator_code(m.destination),
        amount: m.amount,
        amt_src: m.amount_source,
        trans: m.transform,
    }
}

/// A bag written for counts `g` and `m` reads back as them.
pub proof fn lemma_bag_read(g: u16, m: u16)
    ensures
        <Bag as HydraRecord>::of_bytes(le16_bytes(g) + le16_bytes(m)) == (Bag { gen_ndx: g, mod_ndx: m }),
{
    let r = le16_bytes(g) + le16_bytes(m);
    assert(r.subrange(0, 2) =~= le16_bytes(g));
    assert(r.subrange(2, 4) =~= le16_bytes(m));
    lemma_le16_read(r, 0, g);
    lemma_le16_read(r, 2, m);
}

/// A generator record reads back as the generator's operator and raw amount.
pub proof fn lemma_gen_read(g: Generator)
    ensures
        <GenRecord as HydraRecord>::of_bytes(gen_enc(g)) == gen_rec(g),
{
    let r = gen_enc(g);
    assert(raw_amount_spec(g.amount).len() == 2);
    assert(r.subrange(0, 2) =~= le16_bytes(generator_code(g.kind)));
    lemma_le16_read(r, 0, generator_code(g.kind));
    assert(pair_at(r, 2) =~= raw_amount_spec(g.amount));
}

/// A modulator record reads back as the modulator's fields.
pub proof fn lemma_mod_read(m: Modulator)
    ensures
        <ModRecord as HydraRecord>::of_bytes(mod_enc(m)) == mod_rec(m),
{
    let r = mod_enc(m);
    assert(r.subrange(0, 2) =~= le16_bytes(m.source));
    assert(r.subrange(2, 4) =~= le16_bytes(generator_code(m.destination)));
    assert(r.subrange(4, 6) =~= le16_bytes(m.amount as u16));
    assert(r.subrange(6, 8) =~= le16_bytes(m.amount_source));
    assert(r.subrange(8, 10) =~= le16_bytes(m.transform));
    lemma_le16_read(r, 0, m.source);
    lemma_le16_read(r, 2, generator_code(m.destination));
    lemma_le16_read(r, 4, m.amount as u16);
    lemma_le16_read(r, 6, m.amount_source);
    lemma_le16_read(r, 8, m.transform);
    lemma_i16_bits(m.amount);
}

// ----- what survives ---------------------------------------------------------------------

/// An amount has the variant its generator type is read with: a range for
/// the key and velocity ranges, a word for the instrument and sample
/// indices, a signed word otherwise.
pub open spec fn amount_fits(kind: GeneratorType, a: GeneratorAmount) -> bool {
    let range = kind == GeneratorType::KEY_RANGE || kind == GeneratorType::VELOCITY_RANGE;
    let word = kind == GeneratorType::INSTRUMENT || kind == GeneratorType::SAMPLE_ID;
    match a {
        GeneratorAmount::Range(_) => range,
        GeneratorAmount::Word(_) => word,
        GeneratorAmount::Short(_) => !range && !word,
    }
}

/// A generator the loader reads back as written: a real generator type,
/// with an amount of its variant.
pub open spec fn writable_gen(g: Generator) -> bool {
    g.kind != GeneratorType::COUNT && amount_fits(g.kind, g.amount)
}

/// A zone the loader reads back as written: every generator writable and
/// no modulator aimed at the `COUNT` sentinel.
pub open spec fn writable_zone(z: ZoneModel) -> bool {
    &&& forall|k: int| 0 <= k < z.generators.len() ==> writable_gen(#[trigger] z.generators[k])
    &&& forall|k: int|
        0 <= k < z.modulators.len() ==> (#[trigger] z.modulators[k]).destination
            != GeneratorType::COUNT
}

/// Every zone of a run is writable.
pub open spec fn writable_zones(zs: Seq<ZoneModel>) -> bool {
    forall|i: int| 0 <= i < zs.len() ==> writable_zone(#[trigger] zs[i])
}

/// A writable generator's amount reads back as written.
pub proof fn lemma_amount_read(g: Generator)
    requires
        writable_gen(g),
    ensures
        gen_amount_spec(g.kind, raw_amount_spec(g.amount)) == g.amount,
{
    match g.amount {
        GeneratorAmount::Short(v) => {
            let r = le16_bytes(v as u16);
            assert(r.subrange(0, 2) =~= r);
            lemma_le16_read(r, 0, v as u16);
            lemma_i16_bits(v);
        },
        GeneratorAmount::Word(v) => {
            let r = le16_bytes(v);
            assert(r.subrange(0, 2) =~= r);
            lemma_le16_read(r, 0, v);
        },
        GeneratorAmount::Range(_) => {},
    }
}

/// Writable generators read back as themselves.
pub proof fn lemma_gens_model(gs: Seq<Generator>)
    requires
        forall|k: int| 0 <= k < gs.len() ==> writable_gen(#[trigger] gs[k]),
    ensures
        gens_model(gs.map_values(|g: Generator| gen_rec(g))) == gs,
    decreases gs.len(),
{
    let recs = gs.map_values(|g: Generator| gen_rec(g));
    if gs.len() > 0 {
        let g = gs.last();
        assert(writable_gen(gs[gs.len() - 1]));
        assert(recs.drop_last() =~= gs.drop_last().map_values(|g: Generator| gen_rec(g)));
        lemma_gens_model(gs.drop_last());
        lemma_code_round_trip(g.kind);
        lemma_amount_read(g);
        assert(recs.last() == gen_rec(g));
        assert(gs.drop_last().push(g) =~= gs);
    } else {
        assert(recs =~= Seq::<GenModel>::empty());
    }
}

/// Modulators aimed at real generators read back as themselves.
pub proof fn lemma_mods_model(ms: Seq<Modulator>)
    requires
        forall|k: int| 0 <= k < ms.len() ==> (#[trigger] ms[k]).destination != GeneratorType::COUNT,
    ensures
        mods_model(ms.map_values(|m: Modulator| mod_rec(m))) == ms,
{
    let out = mods_model(ms.map_values(|m: Modulator| mod_rec(m)));
    assert forall|k: int| 0 <= k < ms.len() implies #[trigger] out[k] == ms[k] by {
        lemma_code_round_trip(ms[k].destination);
        assert(modulator_of(mod_rec(ms[k])) == ms[k]);
    }
    assert(out =~= ms);
}

// ----- runs of zones ------------------------------------------------------------------------

/// The generators of two runs of zones are those of the first, then those
/// of the second.
pub proof fn lemma_all_gens_append(a: Seq<ZoneModel>, b: Seq<ZoneModel>)
    ensures
        all_gens(a + b) == all_gens(a) + all_gens(b),
    decreases b.len(),
{
    if b.len() == 0 {
        assert(a + b =~= a);
        assert(all_gens(a) + all_gens(b) =~= all_gens(a));
    } else {
        assert((a + b).drop_last() =~= a + b.drop_last());
        lemma_all_gens_append(a, b.drop_last());
        assert(all_gens(a) + all_gens(b) =~= all_gens(a) + all_gens(b.drop_last()) + b.last().generators);
    }
}

/// The modulators of two runs of zones are those of the first, then those
/// of the second.
pub proof fn lemma_all_mods_append(a: Seq<ZoneModel>, b: Seq<ZoneModel>)
    ensures
        all_mods(a + b) == all_mods(a) + all_mods(b),
    decreases b.len(),
{
    if b.len() == 0 {
        assert(a + b =~= a);
        assert(all_mods(a) + all_mods(b) =~= all_mods(a));
    } else {
        assert((a + b).drop_last() =~= a + b.drop_last());
        lemma_all_mods_append(a, b.drop_last());
        assert(all_mods(a) + all_mods(b) =~= all_mods(a) + all_mods(b.drop_last()) + b.last().modulators);
    }
}

/// Zone `i`'s generators and modulators sit in the runs of the whole list
/// right after those of the zones before it.
pub proof fn lemma_zone_slices(zs: Seq<ZoneModel>, i: int)
    requires
        0 <= i < zs.len(),
    ensures
        all_gens(zs.take(i + 1)) == all_gens(zs.take(i)) + zs[i].generators,
        all_mods(zs.take(i + 1)) == all_mods(zs.take(i)) + zs[i].modulators,
        all_gens(zs).subrange(all_gens(zs.take(i)).len() as int, all_gens(zs.take(i + 1)).len() as int)
            == zs[i].generators,
        all_mods(zs).subrange(all_mods(zs.take(i)).len() as int, all_mods(zs.take(i + 1)).len() as int)
            == zs[i].modulators,
        all_gens(zs.take(i + 1)).len() <= all_gens(zs).len(),
        all_mods(zs.take(i + 1)).len() <= all_mods(zs).len(),
{
    assert(zs.take(i + 1).drop_last() =~= zs.take(i));
    assert(zs.take(i + 1) + zs.skip(i + 1) =~= zs);
    lemma_all_gens_append(zs.take(i + 1), zs.skip(i + 1));
    lemma_all_mods_append(zs.take(i + 1), zs.skip(i + 1));
    assert(all_gens(zs).subrange(all_gens(zs.take(i)).len() as int, all_gens(zs.take(i + 1)).len() as int)
        =~= zs[i].generators);
    assert(all_mods(zs).subrange(all_mods(zs.take(i)).len() as int, all_mods(zs.take(i + 1)).len() as int)
        =~= zs[i].modulators);
}

/// The bags of a run of zones as the loader reads them, the terminal one
/// included.
pub open spec fn bags_read(zs: Seq<ZoneModel>) -> Seq<Bag> {
    Seq::new(
        zs.len() + 1,
        |i: int|
            Bag {
                gen_ndx: all_gens(zs.take(i)).len() as u16,
                mod_ndx: all_mods(zs.take(i)).len() as u16,
            },
    )
}

/// The generator records of a run of zones as the loader reads them.
pub open spec fn gens_read(zs: Seq<ZoneModel>) -> Seq<GenModel> {
    all_gens(zs).map_values(|g: Generator| gen_rec(g)).push(GenModel { oper: 0, amount: seq![0u8, 0u8] })
}

/// The modulator records of a run of zones as the loader reads them.
pub open spec fn mods_read(zs: Seq<ZoneModel>) -> Seq<ModRecord> {
    all_mods(zs).map_values(|m: Modulator| mod_rec(m)).push(
        ModRecord { src: 0, dest: 0, amount: 0, amt_src: 0, trans: 0 },
    )
}

/// The bag chain written for a run of zones never goes back, and its
/// terminal bag bounds all the generators and modulators.
pub proof fn lemma_bag_chain(zs: Seq<ZoneModel>, i: int)
    requires
        0 <= i < zs.len(),
        all_gens(zs).len() <= u16::MAX,
        all_mods(zs).len() <= u16::MAX,
    ensures
        bags_read(zs)[i].gen_ndx + zs[i].generators.len() == bags_read(zs)[i + 1].gen_ndx,
        bags_read(zs)[i].mod_ndx + zs[i].modulators.len() == bags_read(zs)[i + 1].mod_ndx,
        bags_read(zs)[zs.len() as int].gen_ndx == all_gens(zs).len(),
        bags_read(zs)[zs.len() as int].mod_ndx == all_mods(zs).len(),
{
    lemma_zone_slices(zs, i);
    assert(zs.take(zs.len() as int) =~= zs);
}

/// Reading the bag array written for a run of zones.
pub proof fn lemma_bags_array_read(zs: Seq<ZoneModel>)
    ensures
        records_spec::<Bag>(
            bags_bytes(zs) + le16_bytes(all_gens(zs).len() as u16) + le16_bytes(
                all_mods(zs).len() as u16,
            ),
            4,
        ) == bags_read(zs),
        (bags_bytes(zs) + le16_bytes(all_gens(zs).len() as u16) + le16_bytes(
            all_mods(zs).len() as u16,
        )).len() % 4 == 0,
{
    let n = zs.len() as int;
    let encs = Seq::new((n + 1) as nat, |i: int| bag_enc(zs, i));
    assert(encs.drop_last() =~= Seq::new(n as nat, |i: int| bag_enc(zs, i)));
    assert(zs.take(n) =~= zs);
    lemma_flat_push(encs.drop_last(), encs.last());
    assert(encs.drop_last().push(encs.last()) =~= encs);
    assert(bags_bytes(zs) + le16_bytes(all_gens(zs).len() as u16) + le16_bytes(all_mods(zs).len() as u16)
        =~= flat(encs));
    lemma_records_flat::<Bag>(encs, 4);
    let r = records_spec::<Bag>(flat(encs), 4);
    assert forall|i: int| 0 <= i <= n implies #[trigger] r[i] == bags_read(zs)[i] by {
        lemma_bag_read(all_gens(zs.take(i)).len() as u16, all_mods(zs.take(i)).len() as u16);
    }
    assert(r =~= bags_read(zs));
}

/// Reading the generator array written for a run of zones.
pub proof fn lemma_gens_array_read(zs: Seq<ZoneModel>)
    ensures
        records_spec::<GenRecord>(gens_bytes(zs) + zeros(4), 4) == gens_read(zs),
        (gens_bytes(zs) + zeros(4)).len() % 4 == 0,
{
    let g = all_gens(zs);
    let encs = g.map_values(|x: Generator| gen_enc(x)).push(zeros(4));
    lemma_flat_push(g.map_values(|x: Generator| gen_enc(x)), zeros(4));
    assert forall|j: int| 0 <= j < encs.len() implies (#[trigger] encs[j]).len() == 4 by {
        if j < g.len() {
            assert(encs[j] == gen_enc(g[j]));
            assert(raw_amount_spec(g[j].amount).len() == 2);
        }
    }
    lemma_records_flat::<GenRecord>(encs, 4);
    let r = records_spec::<GenRecord>(flat(encs), 4);
    assert forall|j: int| 0 <= j < encs.len() implies #[trigger] r[j] == gens_read(zs)[j] by {
        if j < g.len() {
            lemma_gen_read(g[j]);
        } else {
            assert(pair_at(zeros(4), 2) =~= seq![0u8, 0u8]);
        }
    }
    assert(r =~= gens_read(zs));
}

/// Reading the modulator array written for a run of zones.
pub proof fn lemma_mods_array_read(zs: Seq<ZoneModel>)
    ensures
        records_spec::<ModRecord>(mods_bytes(zs) + zeros(10), 10) == mods_read(zs),
        (mods_bytes(zs) + zeros(10)).len() % 10 == 0,
{
    let m = all_mods(zs);
    let encs = m.map_values(|x: Modulator| mod_enc(x)).push(zeros(10));
    lemma_flat_push(m.map_values(|x: Modulator| mod_enc(x)), zeros(10));
    assert forall|j: int| 0 <= j < encs.len() implies (#[trigger] encs[j]).len() == 10 by {
        if j < m.len() {
            assert(encs[j] == mod_enc(m[j]));
        }
    }
    lemma_records_flat::<ModRecord>(encs, 10);
    let r = records_spec::<ModRecord>(flat(encs), 10);
    assert forall|j: int| 0 <= j < encs.len() implies #[trigger] r[j] == mods_read(zs)[j] by {
        if j < m.len() {
            lemma_mod_read(m[j]);
        } else {
            let z = zeros(10);
            assert(le16_at(z, 0) == 0 && le16_at(z, 2) == 0 && le16_at(z, 4) == 0 && le16_at(z, 6)
                == 0 && le16_at(z, 8) == 0);
        }
    }
    assert(r =~= mods_read(zs));
}

/// The zones `b..to` of a run of writable zones read back from its arrays
/// as written.
pub proof fn lemma_zones_read(zs: Seq<ZoneModel>, b: int, to: int)
    requires
        0 <= b <= to <= zs.len(),
        writable_zones(zs),
        all_gens(zs).len() <= u16::MAX,
        all_mods(zs).len() <= u16::MAX,
    ensures
        zones_spec(bags_read(zs), gens_read(zs), mods_read(zs), b, to) == Ok::<
            Seq<ZoneModel>,
            crate::soundfont::error::ErrorModel,
        >(zs.subrange(b, to)),
    decreases to - b,
{
    if b < to {
        lemma_zone_slices(zs, b);
        lemma_zones_read(zs, b + 1, to);
        let lo_g = all_gens(zs.take(b)).len() as int;
        let hi_g = all_gens(zs.take(b + 1)).len() as int;
        let lo_m = all_mods(zs.take(b)).len() as int;
        let hi_m = all_mods(zs.take(b + 1)).len() as int;
        let bags = bags_read(zs);
        assert(bags[b].gen_ndx == lo_g && bags[b + 1].gen_ndx == hi_g);
        assert(bags[b].mod_ndx == lo_m && bags[b + 1].mod_ndx == hi_m);
        let z = zs[b];
        assert(writable_zone(z));
        assert(gens_read(zs).subrange(lo_g, hi_g) =~= z.generators.map_values(|g: Generator| gen_rec(g)));
        assert(mods_read(zs).subrange(lo_m, hi_m) =~= z.modulators.map_values(|m: Modulator| mod_rec(m)));
        lemma_gens_model(z.generators);
        lemma_mods_model(z.modulators);
        assert(seq![z] + zs.subrange(b + 1, to) =~= zs.subrange(b, to));
    } else {
        assert(zs.subrange(b, to) =~= Seq::<ZoneModel>::empty());
    }
}

// ----- names ---------------------------------------------------------------------------------

/// The cut for a name field never runs past its limit.
pub proof fn lemma_cut_at_bounds(b: Seq<u8>, e: int)
    ensures
        e >= 0 ==> 0 <= cut_at(b, e) <= e,
    decreases e,
{
    if e > 0 {
        lemma_cut_at_bounds(b, e - 1);
    }
}

/// A name field is twenty bytes long.
pub proof fn lemma_name20_len(b: Seq<u8>)
    ensures
        name20_spec(b).len() == 20,
{
    lemma_cut_at_bounds(b, if b.len() < 19 { b.len() as int } else { 19 });
}

/// A name field always ends in a NUL: at most nineteen bytes of the name
/// are kept.
pub proof fn lemma_name20_nul_terminated(b: Seq<u8>)
    ensures
        name20_spec(b)[19] == 0,
        cut_at(b, if b.len() < 19 { b.len() as int } else { 19 }) <= 19,
{
    lemma_cut_at_bounds(b, if b.len() < 19 { b.len() as int } else { 19 });
}

/// The bytes a name field keeps end on a character boundary, so a
/// multi-byte character is never split.
pub proof fn lemma_cut_on_boundary(b: Seq<u8>, e: int)
    requires
        vstd::utf8::valid_utf8(b),
        0 <= e,
    ensures
        vstd::utf8::is_char_boundary(b, cut_at(b, e)),
    decreases e,
{
    if e > 0 && !vstd::utf8::is_char_boundary(b, e) {
        lemma_cut_on_boundary(b, e - 1);
    }
}

/// A name as the loader reads back the field written for it.
pub open spec fn name_read(name: Seq<char>) -> Seq<char> {
    zstr_spec(name20_spec(vstd::utf8::encode_utf8(name)))
}

/// No byte of the UTF-8 encoding of a character other than NUL is zero.
proof fn lemma_scalar_bytes_nonzero(c: char)
    requires
        c != '\0',
    ensures
        forall|i: int|
            0 <= i < vstd::utf8::encode_scalar(c as u32).len() ==> #[trigger] vstd::utf8::encode_scalar(
                c as u32,
            )[i] != 0,
{
    let v = c as u32;
    assert(v != 0);
    assert(v <= 0x7F && v != 0 ==> vstd::utf8::leading_byte_width_1(v) != 0) by (bit_vector);
    assert(vstd::utf8::leading_byte_width_2(v) != 0) by (bit_vector);
    assert(vstd::utf8::leading_byte_width_3(v) != 0) by (bit_vector);
    assert(vstd::utf8::leading_byte_width_4(v) != 0) by (bit_vector);
    assert(vstd::utf8::last_continuation_byte(v) != 0) by (bit_vector);
    assert(vstd::utf8::second_last_continuation_byte(v) != 0) by (bit_vector);
    assert(vstd::utf8::third_last_continuation_byte(v) != 0) by (bit_vector);
}

/// Text without NUL characters encodes to bytes without zeros.
proof fn lemma_encode_nonzero(chars: Seq<char>)
    requires
        forall|i: int| 0 <= i < chars.len() ==> chars[i] != '\0',
    ensures
        forall|i: int|
            0 <= i < vstd::utf8::encode_utf8(chars).len() ==> #[trigger] vstd::utf8::encode_utf8(chars)[i]
                != 0,
    decreases chars.len(),
{
    if chars.len() > 0 {
        let rest_chars = chars.drop_first();
        lemma_encode_nonzero(rest_chars);
        lemma_scalar_bytes_nonzero(chars[0]);
        let head = vstd::utf8::encode_scalar(chars[0] as u32);
        let tail = vstd::utf8::encode_utf8(rest_chars);
        assert(vstd::utf8::encode_utf8(chars) == head + tail);
        assert forall|i: int| 0 <= i < (head + tail).len() implies #[trigger] (head + tail)[i] != 0 by {
            if i < head.len() {
                assert((head + tail)[i] == head[i]);
            } else {
                assert((head + tail)[i] == tail[i - head.len()]);
            }
        }
    }
}

/// The first zero at or after `i` is at `k` when none comes before it.
proof fn lemma_nul_at(d: Seq<u8>, i: int, k: int)
    requires
        0 <= i <= k < d.len(),
        d[k] == 0,
        forall|j: int| i <= j < k ==> d[j] != 0,
    ensures
        nul_from(d, i) == k,
    decreases k - i,
{
    if i < k {
        lemma_nul_at(d, i + 1, k);
    }
}

/// A name of at most nineteen bytes of UTF-8, with no NUL in it and no
/// white space at its end, reads back unchanged from the field written for
/// it.
pub proof fn lemma_name_reads_back(name: Seq<char>)
    requires
        vstd::utf8::encode_utf8(name).len() <= 19,
        forall|i: int| 0 <= i < name.len() ==> name[i] != '\0',
        name.len() == 0 || !is_white(name.last()),
    ensures
        name_read(name) == name,
{
    let b = vstd::utf8::encode_utf8(name);
    vstd::utf8::encode_utf8_valid_utf8(name);
    vstd::utf8::is_char_boundary_start_end_of_seq(b);
    assert(cut_at(b, b.len() as int) == b.len()) by {
        if b.len() > 0 {
            assert(vstd::utf8::is_char_boundary(b, b.len() as int));
        }
    }
    let f = name20_spec(b);
    assert(b.take(b.len() as int) =~= b);
    assert(f == b + zeros((20 - b.len()) as nat));
    lemma_encode_nonzero(name);
    assert(f[b.len() as int] == 0);
    assert forall|j: int| 0 <= j < b.len() implies f[j] != 0 by {
        assert(f[j] == b[j]);
    }
    lemma_nul_at(f, 0, b.len() as int);
    assert(f.take(b.len() as int) =~= b);
    vstd::utf8::encode_utf8_valid_utf8(name);
    vstd::utf8::encode_utf8_decode_utf8(name);
    assert(lossy_text(b) == name);
    assert(trim_end_spec(name) == name);
}

/// A name field at the start of a longer record reads as the name.
pub proof fn lemma_name_field(name: Seq<char>, tail: Seq<u8>)
    ensures
        name_at(name20_spec(vstd::utf8::encode_utf8(name)) + tail, 0, 20) == name_read(name),
{
    let f = name20_spec(vstd::utf8::encode_utf8(name));
    lemma_name20_len(vstd::utf8::encode_utf8(name));
    let r = f + tail;
    assert(rest(r, 0) =~= r);
    assert(r.take(20) =~= f);
}

// ----- presets ----------------------------------------------------------------------------------

/// A preset header as the loader reads it back: its fields, its name as
/// read back, and the bag its zones start at.
pub open spec fn phdr_model(p: PresetModel, bag: int) -> PresetHeaderModel {
    PresetHeaderModel {
        name: name_read(p.name),
        program: p.program,
        bank: p.bank,
        bag: bag as u16,
        library: p.library,
        genre: p.genre,
        morphology: p.morphology,
    }
}

/// A preset header record reads back as its model.
pub proof fn lemma_phdr_read(p: PresetModel, bag: int)
    ensures
        <PresetHeader as HydraRecord>::of_bytes(phdr_enc(p, bag)) == phdr_model(p, bag),
        phdr_enc(p, bag).len() == 38,
{
    let f = name20_spec(vstd::utf8::encode_utf8(p.name));
    lemma_name20_len(vstd::utf8::encode_utf8(p.name));
    let tail = le16_bytes(p.program) + le16_bytes(p.bank) + le16_bytes(bag as u16) + le32_bytes(
        p.library,
    ) + le32_bytes(p.genre) + le32_bytes(p.morphology);
    let r = phdr_enc(p, bag);
    assert(r =~= f + tail);
    lemma_name_field(p.name, tail);
    assert(r.subrange(20, 22) =~= le16_bytes(p.program));
    assert(r.subrange(22, 24) =~= le16_bytes(p.bank));
    assert(r.subrange(24, 26) =~= le16_bytes(bag as u16));
    assert(r.subrange(26, 30) =~= le32_bytes(p.library));
    assert(r.subrange(30, 34) =~= le32_bytes(p.genre));
    assert(r.subrange(34, 38) =~= le32_bytes(p.morphology));
    lemma_le16_read(r, 20, p.program);
    lemma_le16_read(r, 22, p.bank);
    lemma_le16_read(r, 24, bag as u16);
    lemma_le32_read(r, 26, p.library);
    lemma_le32_read(r, 30, p.genre);
    lemma_le32_read(r, 34, p.morphology);
}

/// The zones of two runs of presets are those of the first, then those of
/// the second.
pub proof fn lemma_preset_zones_append(a: Seq<PresetModel>, b: Seq<PresetModel>)
    ensures
        preset_zones(a + b) == preset_zones(a) + preset_zones(b),
    decreases b.len(),
{
    if b.len() == 0 {
        assert(a + b =~= a);
        assert(preset_zones(a) + preset_zones(b) =~= preset_zones(a));
    } else {
        assert((a + b).drop_last() =~= a + b.drop_last());
        lemma_preset_zones_append(a, b.drop_last());
        assert(preset_zones(a) + preset_zones(b) =~= preset_zones(a) + preset_zones(b.drop_last())
            + b.last().zones);
    }
}

/// Preset `i`'s zones sit in the run of all zones right after those of the
/// presets before it.
pub proof fn lemma_preset_slice(ps: Seq<PresetModel>, i: int)
    requires
        0 <= i < ps.len(),
    ensures
        preset_zones(ps.take(i + 1)) == preset_zones(ps.take(i)) + ps[i].zones,
        preset_zones(ps).subrange(
            preset_zones(ps.take(i)).len() as int,
            preset_zones(ps.take(i + 1)).len() as int,
        ) == ps[i].zones,
        preset_zones(ps.take(i + 1)).len() <= preset_zones(ps).len(),
{
    assert(ps.take(i + 1).drop_last() =~= ps.take(i));
    assert(ps.take(i + 1) + ps.skip(i + 1) =~= ps);
    lemma_preset_zones_append(ps.take(i + 1), ps.skip(i + 1));
    assert(preset_zones(ps).subrange(
        preset_zones(ps.take(i)).len() as int,
        preset_zones(ps.take(i + 1)).len() as int,
    ) =~= ps[i].zones);
}

/// When nothing overflows while writing the presets from `i` on, nothing
/// overflows at the end either.
pub proof fn lemma_presets_fit(ps: Seq<PresetModel>, i: int)
    requires
        0 <= i <= ps.len(),
        presets_overflow(ps, i) is None,
    ensures
        preset_zones(ps).len() <= u16::MAX,
        all_gens(preset_zones(ps)).len() <= u16::MAX,
        all_mods(preset_zones(ps)).len() <= u16::MAX,
    decreases ps.len() - i,
{
    if i < ps.len() {
        lemma_presets_fit(ps, i + 1);
    }
}

/// Every zone of every preset is writable.
pub open spec fn writable_presets(ps: Seq<PresetModel>) -> bool {
    forall|i: int| 0 <= i < ps.len() ==> writable_zones(#[trigger] ps[i].zones)
}

/// The zones of writable presets are writable.
pub proof fn lemma_preset_zones_writable(ps: Seq<PresetModel>)
    requires
        writable_presets(ps),
    ensures
        writable_zones(preset_zones(ps)),
    decreases ps.len(),
{
    if ps.len() > 0 {
        assert(writable_presets(ps.drop_last())) by {
            assert forall|i: int| 0 <= i < ps.drop_last().len() implies writable_zones(
                #[trigger] ps.drop_last()[i].zones,
            ) by {
                assert(ps.drop_last()[i] == ps[i]);
            }
        }
        lemma_preset_zones_writable(ps.drop_last());
        let a = preset_zones(ps.drop_last());
        let z = ps.last().zones;
        assert(writable_zones(z));
        assert forall|k: int| 0 <= k < (a + z).len() implies writable_zone(#[trigger] (a + z)[k]) by {
            if k < a.len() {
                assert((a + z)[k] == a[k]);
            } else {
                assert((a + z)[k] == z[k - a.len()]);
            }
        }
    }
}

/// A preset as the loader reads it back: every field as written, its name
/// as the name field reads.
pub open spec fn preset_read(p: PresetModel) -> PresetModel {
    PresetModel { name: name_read(p.name), ..p }
}

/// The preset headers the loader reads from a `phdr` array: one per
/// preset, then the terminal `EOP` header bounding the last one.
pub open spec fn phdr_read(ps: Seq<PresetModel>) -> Seq<PresetHeaderModel> {
    Seq::new(
        ps.len() + 1,
        |i: int|
            if i < ps.len() {
                phdr_model(ps[i], preset_zones(ps.take(i)).len() as int)
            } else {
                phdr_model(eop(), preset_zones(ps).len() as int)
            },
    )
}

/// The terminal preset: its name is `EOP` and its fields are zero.
pub open spec fn eop() -> PresetModel {
    PresetModel {
        name: "EOP"@,
        program: 0,
        bank: 0,
        library: 0,
        genre: 0,
        morphology: 0,
        zones: seq![],
    }
}

/// Reading the `phdr` array written for a run of presets.
pub proof fn lemma_phdr_array_read(ps: Seq<PresetModel>)
    ensures
        records_spec::<PresetHeader>(presets_arrays(ps).0, 38) == phdr_read(ps),
        presets_arrays(ps).0.len() % 38 == 0,
{
    let n = ps.len() as int;
    let total = preset_zones(ps).len() as int;
    let head = Seq::new(n as nat, |i: int| phdr_enc(ps[i], preset_zones(ps.take(i)).len() as int));
    let encs = head.push(phdr_enc(eop(), total));
    assert(le32_bytes(0) + le32_bytes(0) + le32_bytes(0) =~= zeros(12));
    assert(presets_arrays(ps).0 =~= flat(head) + phdr_enc(eop(), total));
    lemma_flat_push(head, phdr_enc(eop(), total));
    assert forall|j: int| 0 <= j < encs.len() implies (#[trigger] encs[j]).len() == 38 by {
        if j < n {
            lemma_phdr_read(ps[j], preset_zones(ps.take(j)).len() as int);
        } else {
            lemma_phdr_read(eop(), total);
        }
    }
    lemma_records_flat::<PresetHeader>(encs, 38);
    let r = records_spec::<PresetHeader>(flat(encs), 38);
    assert forall|j: int| 0 <= j <= n implies #[trigger] r[j] == phdr_read(ps)[j] by {
        if j < n {
            lemma_phdr_read(ps[j], preset_zones(ps.take(j)).len() as int);
        } else {
            lemma_phdr_read(eop(), total);
        }
    }
    assert(r =~= phdr_read(ps));
}

/// The presets from `i` on read back from the decoded arrays as written.
proof fn lemma_presets_from_read(ps: Seq<PresetModel>, i: int)
    requires
        0 <= i <= ps.len(),
        writable_presets(ps),
        preset_zones(ps).len() <= u16::MAX,
        all_gens(preset_zones(ps)).len() <= u16::MAX,
        all_mods(preset_zones(ps)).len() <= u16::MAX,
    ensures
        presets_from(
            phdr_read(ps),
            bags_read(preset_zones(ps)),
            gens_read(preset_zones(ps)),
            mods_read(preset_zones(ps)),
            i,
        ) == Ok::<Seq<PresetModel>, crate::soundfont::error::ErrorModel>(
            ps.skip(i).map_values(|p: PresetModel| preset_read(p)),
        ),
    decreases ps.len() - i,
{
    let zs = preset_zones(ps);
    if i < ps.len() {
        lemma_presets_from_read(ps, i + 1);
        lemma_preset_slice(ps, i);
        lemma_preset_zones_writable(ps);
        let lo = preset_zones(ps.take(i)).len() as int;
        let hi = preset_zones(ps.take(i + 1)).len() as int;
        assert(phdr_read(ps)[i].bag == lo);
        if i + 1 < ps.len() {
            assert(phdr_read(ps)[i + 1].bag == hi);
        } else {
            assert(ps.take(i + 1) =~= ps);
            assert(phdr_read(ps)[i + 1].bag == hi);
        }
        lemma_zones_read(zs, lo, hi);
        let p = ps[i];
        assert(ps.skip(i).map_values(|p: PresetModel| preset_read(p)) =~= seq![preset_read(p)] + ps.skip(
            i + 1,
        ).map_values(|p: PresetModel| preset_read(p)));
    } else {
        assert(ps.skip(i).map_values(|p: PresetModel| preset_read(p)) =~= Seq::<PresetModel>::empty());
    }
}

/// Writing presets and reading them back gives the same presets, but for
/// names, which come back as their name field reads: every preset's
/// program, bank, reserved fields and zones, with each zone's generators
/// and modulators in order, survive, provided nothing overflows the format
/// and every zone is writable.
pub proof fn lemma_presets_round_trip(ps: Seq<PresetModel>)
    requires
        presets_overflow(ps, 0) is None,
        writable_presets(ps),
    ensures
        ({
            let (phdr, pbag, pmod, pgen) = presets_arrays(ps);
            presets_from(
                records_spec::<PresetHeader>(phdr, 38),
                records_spec::<Bag>(pbag, 4),
                records_spec::<GenRecord>(pgen, 4),
                records_spec::<ModRecord>(pmod, 10),
                0,
            ) == Ok::<Seq<PresetModel>, crate::soundfont::error::ErrorModel>(
                ps.map_values(|p: PresetModel| preset_read(p)),
            )
        }),
{
    let zs = preset_zones(ps);
    lemma_presets_fit(ps, 0);
    lemma_phdr_array_read(ps);
    lemma_bags_array_read(zs);
    lemma_gens_array_read(zs);
    lemma_mods_array_read(zs);
    lemma_presets_from_read(ps, 0);
    assert(ps.skip(0) =~= ps);
}

// ----- instruments ------------------------------------------------------------------------------

/// An instrument header as the loader reads it back.
pub open spec fn inst_model(x: InstrumentModel, bag: int) -> InstHeaderModel {
    InstHeaderModel { name: name_read(x.name), bag: bag as u16 }
}

/// An instrument header record reads back as its model.
pub proof fn lemma_inst_read(x: InstrumentModel, bag: int)
    ensures
        <InstHeader as HydraRecord>::of_bytes(inst_enc(x, bag)) == inst_model(x, bag),
        inst_enc(x, bag).len() == 22,
{
    lemma_name20_len(vstd::utf8::encode_utf8(x.name));
    let r = inst_enc(x, bag);
    lemma_name_field(x.name, le16_bytes(bag as u16));
    assert(r.subrange(20, 22) =~= le16_bytes(bag as u16));
    lemma_le16_read(r, 20, bag as u16);
}

/// The zones of two runs of instruments are those of the first, then those
/// of the second.
pub proof fn lemma_instrument_zones_append(a: Seq<InstrumentModel>, b: Seq<InstrumentModel>)
    ensures
        instrument_zones(a + b) == instrument_zones(a) + instrument_zones(b),
    decreases b.len(),
{
    if b.len() == 0 {
        assert(a + b =~= a);
        assert(instrument_zones(a) + instrument_zones(b) =~= instrument_zones(a));
    } else {
        assert((a + b).drop_last() =~= a + b.drop_last());
        lemma_instrument_zones_append(a, b.drop_last());
        assert(instrument_zones(a) + instrument_zones(b) =~= instrument_zones(a) + instrument_zones(
            b.drop_last(),
        ) + b.last().zones);
    }
}

/// Instrument `i`'s zones sit in the run of all zones right after those of
/// the instruments before it.
pub proof fn lemma_instrument_slice(ins: Seq<InstrumentModel>, i: int)
    requires
        0 <= i < ins.len(),
    ensures
        instrument_zones(ins.take(i + 1)) == instrument_zones(ins.take(i)) + ins[i].zones,
        instrument_zones(ins).subrange(
            instrument_zones(ins.take(i)).len() as int,
            instrument_zones(ins.take(i + 1)).len() as int,
        ) == ins[i].zones,
        instrument_zones(ins.take(i + 1)).len() <= instrument_zones(ins).len(),
{
    assert(ins.take(i + 1).drop_last() =~= ins.take(i));
    assert(ins.take(i + 1) + ins.skip(i + 1) =~= ins);
    lemma_instrument_zones_append(ins.take(i + 1), ins.skip(i + 1));
    assert(instrument_zones(ins).subrange(
        instrument_zones(ins.take(i)).len() as int,
        instrument_zones(ins.take(i + 1)).len() as int,
    ) =~= ins[i].zones);
}

/// When nothing overflows while writing the instruments from `i` on,
/// nothing overflows at the end either.
pub proof fn lemma_instruments_fit(ins: Seq<InstrumentModel>, i: int)
    requires
        0 <= i <= ins.len(),
        instruments_overflow(ins, i) is None,
    ensures
        instrument_zones(ins).len() <= u16::MAX,
        all_gens(instrument_zones(ins)).len() <= u16::MAX,
        all_mods(instrument_zones(ins)).len() <= u16::MAX,
    decreases ins.len() - i,
{
    if i < ins.len() {
        lemma_instruments_fit(ins, i + 1);
    }
}

/// Every zone of every instrument is writable.
pub open spec fn writable_instruments(ins: Seq<InstrumentModel>) -> bool {
    forall|i: int| 0 <= i < ins.len() ==> writable_zones(#[trigger] ins[i].zones)
}

/// The zones of writable instruments are writable.
pub proof fn lemma_instrument_zones_writable(ins: Seq<InstrumentModel>)
    requires
        writable_instruments(ins),
    ensures
        writable_zones(instrument_zones(ins)),
    decreases ins.len(),
{
    if ins.len() > 0 {
        assert(writable_instruments(ins.drop_last())) by {
            assert forall|i: int| 0 <= i < ins.drop_last().len() implies writable_zones(
                #[trigger] ins.drop_last()[i].zones,
            ) by {
                assert(ins.drop_last()[i] == ins[i]);
            }
        }
        lemma_instrument_zones_writable(ins.drop_last());
        let a = instrument_zones(ins.drop_last());
        let z = ins.last().zones;
        assert(writable_zones(z));
        assert forall|k: int| 0 <= k < (a + z).len() implies writable_zone(#[trigger] (a + z)[k]) by {
            if k < a.len() {
                assert((a + z)[k] == a[k]);
            } else {
                assert((a + z)[k] == z[k - a.len()]);
            }
        }
    }
}

/// An instrument as the loader reads it back: its zones as written, its
/// name as the name field reads.
pub open spec fn instrument_read(x: InstrumentModel) -> InstrumentModel {
    InstrumentModel { name: name_read(x.name), zones: x.zones }
}

/// The terminal instrument: its name is `EOI`.
pub open spec fn eoi() -> InstrumentModel {
    InstrumentModel { name: "EOI"@, zones: seq![] }
}

/// The instrument headers the loader reads from an `inst` array.
pub open spec fn inst_read(ins: Seq<InstrumentModel>) -> Seq<InstHeaderModel> {
    Seq::new(
        ins.len() + 1,
        |i: int|
            if i < ins.len() {
                inst_model(ins[i], instrument_zones(ins.take(i)).len() as int)
            } else {
                inst_model(eoi(), instrument_zones(ins).len() as int)
            },
    )
}

/// Reading the `inst` array written for a run of instruments.
pub proof fn lemma_inst_array_read(ins: Seq<InstrumentModel>)
    ensures
        records_spec::<InstHeader>(instruments_arrays(ins).0, 22) == inst_read(ins),
        instruments_arrays(ins).0.len() % 22 == 0,
{
    let n = ins.len() as int;
    let total = instrument_zones(ins).len() as int;
    let head = Seq::new(
        n as nat,
        |i: int| inst_enc(ins[i], instrument_zones(ins.take(i)).len() as int),
    );
    let encs = head.push(inst_enc(eoi(), total));
    assert(instruments_arrays(ins).0 =~= flat(head) + inst_enc(eoi(), total));
    lemma_flat_push(head, inst_enc(eoi(), total));
    assert forall|j: int| 0 <= j < encs.len() implies (#[trigger] encs[j]).len() == 22 by {
        if j < n {
            lemma_inst_read(ins[j], instrument_zones(ins.take(j)).len() as int);
        } else {
            lemma_inst_read(eoi(), total);
        }
    }
    lemma_records_flat::<InstHeader>(encs, 22);
    let r = records_spec::<InstHeader>(flat(encs), 22);
    assert forall|j: int| 0 <= j <= n implies #[trigger] r[j] == inst_read(ins)[j] by {
        if j < n {
            lemma_inst_read(ins[j], instrument_zones(ins.take(j)).len() as int);
        } else {
            lemma_inst_read(eoi(), total);
        }
    }
    assert(r =~= inst_read(ins));
}

/// The instruments from `i` on read back from the decoded arrays as
/// written.
proof fn lemma_instruments_from_read(ins: Seq<InstrumentModel>, i: int)
    requires
        0 <= i <= ins.len(),
        writable_instruments(ins),
        instrument_zones(ins).len() <= u16::MAX,
        all_gens(instrument_zones(ins)).len() <= u16::MAX,
        all_mods(instrument_zones(ins)).len() <= u16::MAX,
    ensures
        instruments_from(
            inst_read(ins),
            bags_read(instrument_zones(ins)),
            gens_read(instrument_zones(ins)),
            mods_read(instrument_zones(ins)),
            i,
        ) == Ok::<Seq<InstrumentModel>, crate::soundfont::error::ErrorModel>(
            ins.skip(i).map_values(|x: InstrumentModel| instrument_read(x)),
        ),
    decreases ins.len() - i,
{
    let zs = instrument_zones(ins);
    if i < ins.len() {
        lemma_instruments_from_read(ins, i + 1);
        lemma_instrument_slice(ins, i);
        lemma_instrument_zones_writable(ins);
        let lo = instrument_zones(ins.take(i)).len() as int;
        let hi = instrument_zones(ins.take(i + 1)).len() as int;
        assert(inst_read(ins)[i].bag == lo);
        if i + 1 < ins.len() {
            assert(inst_read(ins)[i + 1].bag == hi);
        } else {
            assert(ins.take(i + 1) =~= ins);
            assert(inst_read(ins)[i + 1].bag == hi);
        }
        lemma_zones_read(zs, lo, hi);
        let x = ins[i];
        assert(ins.skip(i).map_values(|x: InstrumentModel| instrument_read(x)) =~= seq![
            instrument_read(x),
        ] + ins.skip(i + 1).map_values(|x: InstrumentModel| instrument_read(x)));
    } else {
        assert(ins.skip(i).map_values(|x: InstrumentModel| instrument_read(x))
            =~= Seq::<InstrumentModel>::empty());
    }
}

/// Writing instruments and reading them back gives the same instruments,
/// but for names, which come back as their name field reads: every zone,
/// with its generators and modulators in order, survives, provided nothing
/// overflows the format and every zone is writable.
pub proof fn lemma_instruments_round_trip(ins: Seq<InstrumentModel>)
    requires
        instruments_overflow(ins, 0) is None,
        writable_instruments(ins),
    ensures
        ({
            let (inst, ibag, imod, igen) = instruments_arrays(ins);
            instruments_from(
                records_spec::<InstHeader>(inst, 22),
                records_spec::<Bag>(ibag, 4),
                records_spec::<GenRecord>(igen, 4),
                records_spec::<ModRecord>(imod, 10),
                0,
            ) == Ok::<Seq<InstrumentModel>, crate::soundfont::error::ErrorModel>(
                ins.map_values(|x: InstrumentModel| instrument_read(x)),
            )
        }),
{
    let zs = instrument_zones(ins);
    lemma_instruments_fit(ins, 0);
    lemma_inst_array_read(ins);
    lemma_bags_array_read(zs);
    lemma_gens_array_read(zs);
    lemma_mods_array_read(zs);
    lemma_instruments_from_read(ins, 0);
    assert(ins.skip(0) =~= ins);
}

// ----- sample headers ------------------------------------------------------------------------------

/// A sample header as the loader reads it back: the sample's metadata, the
/// region's offsets and loop points, and its type with the compressed bit
/// set.
pub open spec fn shdr_model(x: SampleModel, r: SampleRegion) -> SampleHeaderModel {
    SampleHeaderModel {
        name: name_read(x.name),
        start: r.start,
        end: r.end,
        start_loop: r.loop_start,
        end_loop: r.loop_end,
        sample_rate: x.sample_rate,
        original_key: x.original_key,
        correction: x.correction,
        link: x.link,
        sample_type: sample_type_bits(x.kind) | SAMPLE_TYPE_COMPRESSED,
    }
}

/// A sample header record reads back as its model.
pub proof fn lemma_shdr_read(x: SampleModel, r: SampleRegion)
    ensures
        <SampleHeader as HydraRecord>::of_bytes(shdr_enc(x, r)) == shdr_model(x, r),
        shdr_enc(x, r).len() == 46,
{
    lemma_name20_len(vstd::utf8::encode_utf8(x.name));
    let b = shdr_enc(x, r);
    let t = sample_type_bits(x.kind) | SAMPLE_TYPE_COMPRESSED;
    let tail = le32_bytes(r.start) + le32_bytes(r.end) + le32_bytes(r.loop_start) + le32_bytes(
        r.loop_end,
    ) + le32_bytes(x.sample_rate) + seq![x.original_key, x.correction as u8] + le16_bytes(x.link)
        + le16_bytes(t);
    assert(b =~= name20_spec(vstd::utf8::encode_utf8(x.name)) + tail);
    lemma_name_field(x.name, tail);
    assert(b.subrange(20, 24) =~= le32_bytes(r.start));
    assert(b.subrange(24, 28) =~= le32_bytes(r.end));
    assert(b.subrange(28, 32) =~= le32_bytes(r.loop_start));
    assert(b.subrange(32, 36) =~= le32_bytes(r.loop_end));
    assert(b.subrange(36, 40) =~= le32_bytes(x.sample_rate));
    assert(b.subrange(42, 44) =~= le16_bytes(x.link));
    assert(b.subrange(44, 46) =~= le16_bytes(t));
    lemma_le32_read(b, 20, r.start);
    lemma_le32_read(b, 24, r.end);
    lemma_le32_read(b, 28, r.loop_start);
    lemma_le32_read(b, 32, r.loop_end);
    lemma_le32_read(b, 36, x.sample_rate);
    lemma_le16_read(b, 42, x.link);
    lemma_le16_read(b, 44, t);
    assert(byte_at(b, 40) == x.original_key);
    assert(byte_at(b, 41) == x.correction as u8);
    let c = x.correction;
    assert((c as u8) as i8 == c) by (bit_vector);
}

/// Reading the records of an `shdr` array: one per sample (the terminal
/// `EOS` record follows them).
pub proof fn lemma_shdr_array_read(ss: Seq<SampleModel>, rs: Seq<SampleRegion>)
    requires
        rs.len() == ss.len(),
    ensures
        records_spec::<SampleHeader>(shdr_array(ss, rs), 46).len() == ss.len() + 1,
        forall|i: int|
            0 <= i < ss.len() ==> #[trigger] records_spec::<SampleHeader>(shdr_array(ss, rs), 46)[i]
                == shdr_model(ss[i], rs[i]),
        shdr_array(ss, rs).len() % 46 == 0,
{
    let n = ss.len() as int;
    let head = Seq::new(n as nat, |i: int| shdr_enc(ss[i], rs[i]));
    let last = name20_spec(vstd::utf8::encode_utf8("EOS"@)) + zeros(26);
    lemma_name20_len(vstd::utf8::encode_utf8("EOS"@));
    let encs = head.push(last);
    assert(shdr_array(ss, rs) =~= flat(head) + last);
    lemma_flat_push(head, last);
    assert forall|j: int| 0 <= j < encs.len() implies (#[trigger] encs[j]).len() == 46 by {
        if j < n {
            lemma_shdr_read(ss[j], rs[j]);
        }
    }
    lemma_records_flat::<SampleHeader>(encs, 46);
    assert forall|i: int| 0 <= i < n implies #[trigger] records_spec::<SampleHeader>(
        shdr_array(ss, rs),
        46,
    )[i] == shdr_model(ss[i], rs[i]) by {
        lemma_shdr_read(ss[i], rs[i]);
    }
}

/// A sample read back from a header the writer stored: its metadata as
/// written and its loop points as the region gives them.
pub open spec fn sample_meta_read(out: SampleModel, x: SampleModel, r: SampleRegion) -> bool {
    &&& out.name == name_read(x.name)
    &&& out.sample_rate == x.sample_rate
    &&& out.loop_start == r.loop_start
    &&& out.loop_end == r.loop_end
    &&& out.original_key == x.original_key
    &&& out.correction == x.correction
    &&& out.link == x.link
    &&& out.kind == sample_type_of(sample_type_bits(x.kind) & 0xFFEF)
}

/// The samples from `i` on that a read of the written headers yields.
proof fn lemma_samples_from_read(ss: Seq<SampleModel>, rs: Seq<SampleRegion>, pool: Seq<u8>, i: int)
    requires
        rs.len() == ss.len(),
        0 <= i <= ss.len(),
    ensures
        samples_from(records_spec::<SampleHeader>(shdr_array(ss, rs), 46), pool, i) matches Ok(out)
            ==> out.len() == ss.len() - i && forall|j: int|
            0 <= j < out.len() ==> sample_meta_read(#[trigger] out[j], ss[i + j], rs[i + j]),
    decreases ss.len() - i,
{
    let hs = records_spec::<SampleHeader>(shdr_array(ss, rs), 46);
    lemma_shdr_array_read(ss, rs);
    if i < ss.len() {
        lemma_samples_from_read(ss, rs, pool, i + 1);
        let h = hs[i];
        assert(h == shdr_model(ss[i], rs[i]));
        let b = sample_type_bits(ss[i].kind);
        assert((b | 0x10u16) & 0x10u16 != 0 && ((b | 0x10u16) & 0xFFEFu16) == (b & 0xFFEFu16))
            by (bit_vector);
        match samples_from(hs, pool, i) {
            Ok(out) => {
                let s0 = sample_spec(h, pool)->Ok_0;
                let rest = samples_from(hs, pool, i + 1)->Ok_0;
                assert(out == seq![s0] + rest);
                assert forall|j: int| 0 <= j < out.len() implies sample_meta_read(
                    #[trigger] out[j],
                    ss[i + j],
                    rs[i + j],
                ) by {
                    if j > 0 {
                        assert(out[j] == rest[j - 1]);
                        assert(sample_meta_read(rest[j - 1], ss[i + 1 + (j - 1)], rs[i + 1 + (j - 1)]));
                    }
                }
            },
            Err(_) => {},
        }
    }
}

/// Writing sample headers and reading them back: when the read succeeds
/// (the loader decodes each compressed stream), there is one sample per
/// sample written, with its name as the name field reads, its rate, key,
/// correction and link as written, its loop points as the region gives
/// them, and its type as the stored word reads with the compressed bit
/// masked off.
pub proof fn lemma_samples_round_trip(ss: Seq<SampleModel>, rs: Seq<SampleRegion>, pool: Seq<u8>)
    requires
        rs.len() == ss.len(),
    ensures
        samples_from(records_spec::<SampleHeader>(shdr_array(ss, rs), 46), pool, 0) matches Ok(out)
            ==> out.len() == ss.len() && forall|j: int|
            0 <= j < out.len() ==> sample_meta_read(#[trigger] out[j], ss[j], rs[j]),
{
    lemma_samples_from_read(ss, rs, pool, 0);
}

/// A sample type whose word lacks the compressed bit, and that is not an
/// `Other` carrying one of the named words, reads back as itself once the
/// compressed bit is masked off.
pub proof fn lemma_kind_round_trip(kind: SampleType)
    requires
        sample_type_bits(kind) & 0x10 == 0,
        !(kind matches SampleType::Other(v) && (v == 1 || v == 2 || v == 4 || v == 8 || v == 0x8001
            || v == 0x8002 || v == 0x8004 || v == 0x8008)),
    ensures
        sample_type_of(sample_type_bits(kind) & 0xFFEF) == kind,
{
    let b = sample_type_bits(kind);
    assert(b & 0x10u16 == 0 ==> b & 0xFFEFu16 == b) by (bit_vector);
    crate::soundfont::model::lemma_sample_type_round_trip(kind);
}

} // verus!
