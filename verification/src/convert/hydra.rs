//! Serialising the abstract model back into the `pdta` record arrays.
//!
//! The loader reads these arrays into presets, instruments and zones, dropping
//! the format's bookkeeping as it goes: the index chains that delimit each
//! record's range, and the terminal sentinel record that bounds the last real
//! one. This module puts both back.
//!
//! Every array is a flat sequence of fixed-size little-endian records. A
//! preset header stores the index of its first bag; the *next* header's index
//! bounds it. A bag stores the index of its first generator and first
//! modulator; the next bag's indices bound it. That is why each array needs a
//! terminal record: without one, the last real record would have no end bound.

use vstd::prelude::*;

use crate::convert::error::{Error, too_large};
use crate::soundfont::generator::generator_code;
use crate::soundfont::model::{
    Generator, GeneratorAmount, Instrument, InstrumentModel, Modulator, Preset, PresetModel, Range,
    SampleModel, SampleType, SoundFont, Zone, ZoneModel, instruments_model, presets_model,
    sample_type_bits, samples_model, zones_model,
};

verus! {

// ----- little-endian fields ------------------------------------------------------

/// The two little-endian bytes of `v`.
pub open spec fn le16_bytes(v: u16) -> Seq<u8> {
    seq![(v % 256) as u8, (v / 256) as u8]
}

/// The four little-endian bytes of `v`.
pub open spec fn le32_bytes(v: u32) -> Seq<u8> {
    seq![
        (v % 256) as u8,
        ((v / 256) % 256) as u8,
        ((v / 65536) % 256) as u8,
        (v / 16777216) as u8,
    ]
}

/// `n` zero bytes.
pub open spec fn zeros(n: nat) -> Seq<u8> {
    Seq::new(n, |i: int| 0u8)
}

/// Appends the little-endian bytes of `v`.
pub(crate) fn put_u16(out: &mut Vec<u8>, v: u16)
    ensures
        final(out)@ == old(out)@ + le16_bytes(v),
{
    out.push((v % 256) as u8);
    out.push((v / 256) as u8);
    assert(final(out)@ =~= old(out)@ + le16_bytes(v));
}

/// Appends the little-endian bytes of `v`.
pub(crate) fn put_u32(out: &mut Vec<u8>, v: u32)
    ensures
        final(out)@ == old(out)@ + le32_bytes(v),
{
    out.push((v % 256) as u8);
    out.push(((v / 256) % 256) as u8);
    out.push(((v / 65536) % 256) as u8);
    out.push((v / 16777216) as u8);
    assert(final(out)@ =~= old(out)@ + le32_bytes(v));
}

/// Appends `n` zero bytes.
pub(crate) fn put_zeros(out: &mut Vec<u8>, n: usize)
    ensures
        final(out)@ == old(out)@ + zeros(n as nat),
{
    let mut k: usize = 0;
    while k < n
        invariant
            k <= n,
            out@ == old(out)@ + zeros(k as nat),
        decreases n - k,
    {
        out.push(0u8);
        k = k + 1;
        assert(out@ =~= old(out)@ + zeros(k as nat));
    }
}

/// Appends all of `bytes`.
pub(crate) fn put_bytes(out: &mut Vec<u8>, bytes: &[u8])
    ensures
        final(out)@ == old(out)@ + bytes@,
{
    let mut k: usize = 0;
    while k < bytes.len()
        invariant
            k <= bytes@.len(),
            out@ == old(out)@ + bytes@.take(k as int),
        decreases bytes@.len() - k,
    {
        out.push(bytes[k]);
        k = k + 1;
        assert(out@ =~= old(out)@ + bytes@.take(k as int));
    }
    assert(bytes@.take(k as int) =~= bytes@);
}

// ----- field encodings ------------------------------------------------------------

/// The raw two bytes of a generator amount, per its variant: a signed or
/// unsigned little-endian word, or the two bytes of a range.
pub open spec fn raw_amount_spec(a: GeneratorAmount) -> Seq<u8> {
    match a {
        GeneratorAmount::Short(v) => le16_bytes(v as u16),
        GeneratorAmount::Word(v) => le16_bytes(v),
        GeneratorAmount::Range(r) => seq![r.low, r.high],
    }
}

/// Encodes a generator amount back into its raw two bytes, per its variant.
pub fn raw_amount(amount: GeneratorAmount) -> (r: [u8; 2])
    ensures
        r@ == raw_amount_spec(amount),
{
    let r = match amount {
        GeneratorAmount::Short(v) => {
            let w = v as u16;
            [(w % 256) as u8, (w / 256) as u8]
        },
        GeneratorAmount::Word(v) => [(v % 256) as u8, (v / 256) as u8],
        GeneratorAmount::Range(Range { low, high }) => [low, high],
    };
    assert(r@ =~= raw_amount_spec(amount));
    r
}

/// The longest prefix of `b` up to `e` bytes that ends on a character
/// boundary.
pub open spec fn cut_at(b: Seq<u8>, e: int) -> int
    decreases e,
{
    if e <= 0 {
        0
    } else if vstd::utf8::is_char_boundary(b, e) {
        e
    } else {
        cut_at(b, e - 1)
    }
}

/// A fixed 20-byte name field for the UTF-8 bytes `b`: at most 19 of them,
/// cut on a character boundary, then zeroes.
pub open spec fn name20_spec(b: Seq<u8>) -> Seq<u8> {
    let end = cut_at(b, if b.len() < 19 { b.len() as int } else { 19 });
    b.take(end) + zeros((20 - end) as nat)
}

/// A fixed 20-byte name field: truncated if too long, always NUL-terminated,
/// zero-padded to the full width.
pub fn name20(name: &str) -> (out: [u8; 20])
    ensures
        out@ == name20_spec(vstd::utf8::encode_utf8(name@)),
{
    let bytes = name.as_bytes();
    let ghost b = vstd::utf8::encode_utf8(name@);
    let ghost limit: int = if b.len() < 19 { b.len() as int } else { 19 };
    // Truncate on a character boundary so multi-byte UTF-8 is never split.
    let mut end: usize = if bytes.len() < 19 {
        bytes.len()
    } else {
        19
    };
    while end > 0 && !name.is_char_boundary(end)
        invariant
            end <= bytes@.len(),
            end <= 19,
            bytes@ == b,
            b == vstd::utf8::encode_utf8(name@),
            cut_at(b, limit) == cut_at(b, end as int),
        decreases end,
    {
        end = end - 1;
    }
    let mut out = [0u8; 20];
    let mut i: usize = 0;
    while i < end
        invariant
            end <= bytes@.len(),
            end <= 19,
            i <= end,
            out@.len() == 20,
            forall|k: int| 0 <= k < i ==> out@[k] == bytes@[k],
            forall|k: int| i <= k < 20 ==> out@[k] == 0,
        decreases end - i,
    {
        out[i] = bytes[i];
        i = i + 1;
    }
    assert(out@ =~= name20_spec(b));
    out
}

/// Narrows a record count to the 16-bit index the format uses.
pub fn index(count: usize, what: &'static str) -> (r: Result<u16, Error>)
    ensures
        count <= u16::MAX ==> r == Ok::<u16, Error>(count as u16),
        count > u16::MAX ==> (r matches Err(e) && too_large(e, what@)),
{
    if count <= 65535 {
        Ok(count as u16)
    } else {
        Err(Error::TooLarge(what))
    }
}

// ----- record encodings ------------------------------------------------------------

/// The bytes of `s` laid end to end.
pub open spec fn flat(s: Seq<Seq<u8>>) -> Seq<u8>
    decreases s.len(),
{
    if s.len() == 0 {
        seq![]
    } else {
        flat(s.drop_last()) + s.last()
    }
}

/// Laying one more record at the end of `s`.
pub proof fn lemma_flat_push(s: Seq<Seq<u8>>, x: Seq<u8>)
    ensures
        flat(s.push(x)) == flat(s) + x,
{
    assert(s.push(x).drop_last() =~= s);
}

/// Records of `size` bytes laid end to end take `size` bytes each.
pub proof fn lemma_flat_len(s: Seq<Seq<u8>>, size: int)
    requires
        forall|i: int| 0 <= i < s.len() ==> (#[trigger] s[i]).len() == size,
    ensures
        flat(s).len() == s.len() * size,
    decreases s.len(),
{
    if s.len() > 0 {
        lemma_flat_len(s.drop_last(), size);
        assert((s.len() - 1) * size + size == s.len() * size) by (nonlinear_arith);
    }
}

/// The `pgen`/`igen` record of a generator: its operator, then its raw
/// amount.
pub open spec fn gen_enc(g: Generator) -> Seq<u8> {
    le16_bytes(generator_code(g.kind)) + raw_amount_spec(g.amount)
}

/// The `pmod`/`imod` record of a modulator.
pub open spec fn mod_enc(m: Modulator) -> Seq<u8> {
    le16_bytes(m.source) + le16_bytes(generator_code(m.destination)) + le16_bytes(m.amount as u16)
        + le16_bytes(m.amount_source) + le16_bytes(m.transform)
}

/// The generators of a run of zones, in file order.
pub open spec fn all_gens(zs: Seq<ZoneModel>) -> Seq<Generator>
    decreases zs.len(),
{
    if zs.len() == 0 {
        seq![]
    } else {
        all_gens(zs.drop_last()) + zs.last().generators
    }
}

/// The modulators of a run of zones, in file order.
pub open spec fn all_mods(zs: Seq<ZoneModel>) -> Seq<Modulator>
    decreases zs.len(),
{
    if zs.len() == 0 {
        seq![]
    } else {
        all_mods(zs.drop_last()) + zs.last().modulators
    }
}

/// The bag of zone `i`: the numbers of generators and modulators before it.
pub open spec fn bag_enc(zs: Seq<ZoneModel>, i: int) -> Seq<u8> {
    le16_bytes(all_gens(zs.take(i)).len() as u16) + le16_bytes(all_mods(zs.take(i)).len() as u16)
}

/// The generator records of a run of zones.
pub open spec fn gens_bytes(zs: Seq<ZoneModel>) -> Seq<u8> {
    flat(all_gens(zs).map_values(|g: Generator| gen_enc(g)))
}

/// The modulator records of a run of zones.
pub open spec fn mods_bytes(zs: Seq<ZoneModel>) -> Seq<u8> {
    flat(all_mods(zs).map_values(|m: Modulator| mod_enc(m)))
}

/// The bag records of a run of zones.
pub open spec fn bags_bytes(zs: Seq<ZoneModel>) -> Seq<u8> {
    flat(Seq::new(zs.len(), |i: int| bag_enc(zs, i)))
}

/// The first zone from `i` on whose bag cannot hold its generator or
/// modulator index, and which of the two overflowed (generators are
/// checked first).
pub open spec fn first_overflow(zs: Seq<ZoneModel>, i: int) -> Option<Seq<char>>
    decreases zs.len() - i,
{
    if i < 0 || i >= zs.len() {
        None
    } else if all_gens(zs.take(i)).len() > u16::MAX {
        Some("generators"@)
    } else if all_mods(zs.take(i)).len() > u16::MAX {
        Some("modulators"@)
    } else {
        first_overflow(zs, i + 1)
    }
}

/// Every generator record is four bytes long, every modulator record ten
/// and every bag record four.
pub proof fn lemma_record_sizes(zs: Seq<ZoneModel>)
    ensures
        gens_bytes(zs).len() == all_gens(zs).len() * 4,
        mods_bytes(zs).len() == all_mods(zs).len() * 10,
        bags_bytes(zs).len() == zs.len() * 4,
{
    let g = all_gens(zs).map_values(|g: Generator| gen_enc(g));
    let m = all_mods(zs).map_values(|m: Modulator| mod_enc(m));
    let b = Seq::new(zs.len(), |i: int| bag_enc(zs, i));
    assert forall|i: int| 0 <= i < g.len() implies (#[trigger] g[i]).len() == 4 by {
        let x = all_gens(zs)[i];
        assert(g[i] == gen_enc(x));
        match x.amount {
            GeneratorAmount::Short(_) => {},
            GeneratorAmount::Word(_) => {},
            GeneratorAmount::Range(_) => {},
        }
    }
    assert forall|i: int| 0 <= i < m.len() implies (#[trigger] m[i]).len() == 10 by {
        assert(m[i] == mod_enc(all_mods(zs)[i]));
    }
    assert forall|i: int| 0 <= i < b.len() implies (#[trigger] b[i]).len() == 4 by {
        assert(b[i] == bag_enc(zs, i));
    }
    lemma_flat_len(g, 4);
    lemma_flat_len(m, 10);
    lemma_flat_len(b, 4);
}

/// Accumulates the bag, generator and modulator arrays that the preset and
/// instrument hierarchies build identically.
pub struct Zones {
    pub bags: Vec<u8>,
    pub gens: Vec<u8>,
    pub mods: Vec<u8>,
    /// The zones appended so far.
    pub zones: Ghost<Seq<ZoneModel>>,
}

impl Zones {
    /// The three arrays hold exactly the records of the zones appended.
    pub open spec fn wf(&self) -> bool {
        &&& self.bags@ == bags_bytes(self.zones@)
        &&& self.gens@ == gens_bytes(self.zones@)
        &&& self.mods@ == mods_bytes(self.zones@)
    }

    /// No zone yet.
    pub fn new() -> (z: Zones)
        ensures
            z.wf(),
            z.zones@ == Seq::<ZoneModel>::empty(),
    {
        let z = Zones {
            bags: Vec::new(),
            gens: Vec::new(),
            mods: Vec::new(),
            zones: Ghost(Seq::empty()),
        };
        assert(z.bags@ =~= bags_bytes(z.zones@));
        assert(z.gens@ =~= gens_bytes(z.zones@));
        assert(z.mods@ =~= mods_bytes(z.zones@));
        z
    }

    /// The bag index the next zone will occupy — what a header records.
    pub fn next_bag(&self) -> (r: Result<u16, Error>)
        requires
            self.wf(),
        ensures
            self.zones@.len() <= u16::MAX ==> r == Ok::<u16, Error>(self.zones@.len() as u16),
            self.zones@.len() > u16::MAX ==> (r matches Err(e) && too_large(e, "zones"@)),
    {
        proof {
            lemma_record_sizes(self.zones@);
        }
        index(self.bags.len() / 4, "zones")
    }
}

/// The bags after one more zone: its bag records the counts so far.
proof fn lemma_bags_push(zs: Seq<ZoneModel>, z: ZoneModel)
    ensures
        bags_bytes(zs.push(z)) == bags_bytes(zs) + le16_bytes(all_gens(zs).len() as u16)
            + le16_bytes(all_mods(zs).len() as u16),
{
    let n = zs.len() as int;
    let s1 = Seq::new((n + 1) as nat, |i: int| bag_enc(zs.push(z), i));
    let s0 = Seq::new(n as nat, |i: int| bag_enc(zs, i));
    assert forall|i: int| 0 <= i < n implies #[trigger] s1.drop_last()[i] == s0[i] by {
        assert(zs.push(z).take(i) =~= zs.take(i));
    }
    assert(s1.drop_last() =~= s0);
    assert(zs.push(z).take(n) =~= zs);
    assert(s1 == s0.push(s1.last()));
    lemma_flat_push(s0, s1.last());
}

/// One more zone appends its generators and modulators to the runs.
proof fn lemma_runs_push(zs: Seq<ZoneModel>, z: ZoneModel)
    ensures
        all_gens(zs.push(z)) == all_gens(zs) + z.generators,
        all_mods(zs.push(z)) == all_mods(zs) + z.modulators,
{
    assert(zs.push(z).drop_last() =~= zs);
}

/// Appending the record of one more item to a run of records.
proof fn lemma_enc_push<A>(run: Seq<A>, x: A, enc: spec_fn(A) -> Seq<u8>)
    ensures
        flat(run.push(x).map_values(enc)) == flat(run.map_values(enc)) + enc(x),
{
    assert(run.push(x).map_values(enc) =~= run.map_values(enc).push(enc(x)));
    lemma_flat_push(run.map_values(enc), enc(x));
}

impl Zones {
    /// Appends one zone: its bag, then its generator and modulator records.
    fn push_zone(&mut self, zone: &Zone) -> (r: Result<(), Error>)
        requires
            old(self).wf(),
        ensures
            all_gens(old(self).zones@).len() > u16::MAX ==> (r matches Err(e) && too_large(
                e,
                "generators"@,
            )),
            all_gens(old(self).zones@).len() <= u16::MAX && all_mods(old(self).zones@).len()
                > u16::MAX ==> (r matches Err(e) && too_large(e, "modulators"@)),
            all_gens(old(self).zones@).len() <= u16::MAX && all_mods(old(self).zones@).len()
                <= u16::MAX ==> r is Ok && final(self).wf() && final(self).zones@ == old(
                self,
            ).zones@.push(zone@),
    {
        let ghost zs = self.zones@;
        proof {
            lemma_record_sizes(zs);
            lemma_bags_push(zs, zone@);
            lemma_runs_push(zs, zone@);
        }
        let g = match index(self.gens.len() / 4, "generators") {
            Ok(v) => v,
            Err(e) => return Err(e),
        };
        let m = match index(self.mods.len() / 10, "modulators") {
            Ok(v) => v,
            Err(e) => return Err(e),
        };
        put_u16(&mut self.bags, g);
        put_u16(&mut self.bags, m);
        let gs = &zone.generators;
        let mut k: usize = 0;
        assert(all_gens(zs) + gs@.take(0) =~= all_gens(zs));
        while k < gs.len()
            invariant
                k <= gs@.len(),
                self.zones@ == zs,
                self.bags@ == bags_bytes(zs.push(zone@)),
                self.mods@ == mods_bytes(zs),
                self.gens@ == flat(
                    (all_gens(zs) + gs@.take(k as int)).map_values(|g: Generator| gen_enc(g)),
                ),
            decreases gs@.len() - k,
        {
            let gen = gs[k];
            proof {
                assert(all_gens(zs) + gs@.take(k + 1) =~= (all_gens(zs) + gs@.take(k as int)).push(
                    gen,
                ));
                lemma_enc_push(all_gens(zs) + gs@.take(k as int), gen, |g: Generator| gen_enc(g));
            }
            put_u16(&mut self.gens, gen.kind.to_u16());
            let raw = raw_amount(gen.amount);
            put_bytes(&mut self.gens, &raw);
            assert(self.gens@ =~= flat(
                (all_gens(zs) + gs@.take(k as int)).map_values(|g: Generator| gen_enc(g)),
            ) + gen_enc(gen));
            k = k + 1;
        }
        assert(gs@.take(k as int) =~= gs@);
        let ms = &zone.modulators;
        let mut j: usize = 0;
        assert(all_mods(zs) + ms@.take(0) =~= all_mods(zs));
        while j < ms.len()
            invariant
                j <= ms@.len(),
                self.zones@ == zs,
                self.bags@ == bags_bytes(zs.push(zone@)),
                self.gens@ == gens_bytes(zs.push(zone@)),
                self.mods@ == flat(
                    (all_mods(zs) + ms@.take(j as int)).map_values(|m: Modulator| mod_enc(m)),
                ),
            decreases ms@.len() - j,
        {
            let md = ms[j];
            proof {
                assert(all_mods(zs) + ms@.take(j + 1) =~= (all_mods(zs) + ms@.take(j as int)).push(
                    md,
                ));
                lemma_enc_push(all_mods(zs) + ms@.take(j as int), md, |m: Modulator| mod_enc(m));
            }
            put_u16(&mut self.mods, md.source);
            put_u16(&mut self.mods, md.destination.to_u16());
            put_u16(&mut self.mods, md.amount as u16);
            put_u16(&mut self.mods, md.amount_source);
            put_u16(&mut self.mods, md.transform);
            assert(self.mods@ =~= flat(
                (all_mods(zs) + ms@.take(j as int)).map_values(|m: Modulator| mod_enc(m)),
            ) + mod_enc(md));
            j = j + 1;
        }
        assert(ms@.take(j as int) =~= ms@);
        self.zones = Ghost(zs.push(zone@));
        Ok(())
    }

    /// Appends one record's worth of zones, in file order.
    ///
    /// Order is preserved exactly as the loader read it, which keeps the
    /// specification's ordering rules intact: a global zone stays first, and
    /// within a zone the range generators stay leading while `Instrument` and
    /// `SampleID` stay trailing.
    pub fn push(&mut self, zones: &[Zone]) -> (r: Result<(), Error>)
        requires
            old(self).wf(),
        ensures
            match first_overflow(old(self).zones@ + zones_model(zones@), old(self).zones@.len() as int) {
                None => r is Ok && final(self).wf() && final(self).zones@ == old(self).zones@
                    + zones_model(zones@),
                Some(w) => r matches Err(e) && too_large(e, w),
            },
    {
        let ghost zs0 = self.zones@;
        let ghost all = zs0 + zones_model(zones@);
        let mut i: usize = 0;
        while i < zones.len()
            invariant
                i <= zones@.len(),
                self.wf(),
                zs0 == old(self).zones@,
                all == zs0 + zones_model(zones@),
                self.zones@ == zs0 + zones_model(zones@).take(i as int),
                first_overflow(all, zs0.len() as int) == first_overflow(all, zs0.len() + i),
            decreases zones@.len() - i,
        {
            let ghost before = self.zones@;
            proof {
                assert(all.take(zs0.len() + i) =~= before);
                assert(all.len() == zs0.len() + zones@.len());
                assert(all[zs0.len() + i] == zones@[i as int]@);
            }
            match self.push_zone(&zones[i]) {
                Ok(()) => {},
                Err(e) => {
                    proof {
                        if all_gens(before).len() > u16::MAX {
                            assert(first_overflow(all, zs0.len() + i) == Some("generators"@));
                        } else {
                            assert(first_overflow(all, zs0.len() + i) == Some("modulators"@));
                        }
                    }
                    return Err(e);
                },
            }
            proof {
                assert(zones_model(zones@).take(i + 1) =~= zones_model(zones@).take(
                    i as int,
                ).push(zones@[i as int]@));
            }
            i = i + 1;
        }
        assert(zones_model(zones@).take(i as int) =~= zones_model(zones@));
        Ok(())
    }
}

impl Zones {
    /// Appends the terminal bag, generator and modulator records that bound
    /// the last real zone, and yields the finished arrays as
    /// `(bags, mods, gens)`.
    pub fn finish(self) -> (r: Result<(Vec<u8>, Vec<u8>, Vec<u8>), Error>)
        requires
            self.wf(),
        ensures
            all_gens(self.zones@).len() > u16::MAX ==> (r matches Err(e) && too_large(
                e,
                "generators"@,
            )),
            all_gens(self.zones@).len() <= u16::MAX && all_mods(self.zones@).len() > u16::MAX
                ==> (r matches Err(e) && too_large(e, "modulators"@)),
            all_gens(self.zones@).len() <= u16::MAX && all_mods(self.zones@).len() <= u16::MAX
                ==> (r matches Ok((b, m, g)) && b@ == bags_bytes(self.zones@) + le16_bytes(
                all_gens(self.zones@).len() as u16,
            ) + le16_bytes(all_mods(self.zones@).len() as u16) && m@ == mods_bytes(self.zones@)
                + zeros(10) && g@ == gens_bytes(self.zones@) + zeros(4) && b@.len() == 4 * (
            self.zones@.len() + 1) && g@.len() == 4 * (all_gens(self.zones@).len() + 1) && m@.len()
                == 10 * (all_mods(self.zones@).len() + 1)),
    {
        proof {
            lemma_record_sizes(self.zones@);
        }
        let mut z = self;
        let g = match index(z.gens.len() / 4, "generators") {
            Ok(v) => v,
            Err(e) => return Err(e),
        };
        let m = match index(z.mods.len() / 10, "modulators") {
            Ok(v) => v,
            Err(e) => return Err(e),
        };
        put_u16(&mut z.bags, g);
        put_u16(&mut z.bags, m);
        put_zeros(&mut z.gens, 4);
        put_zeros(&mut z.mods, 10);
        Ok((z.bags, z.mods, z.gens))
    }
}

// ----- presets ------------------------------------------------------------------------

/// The zones of a run of presets, in file order.
pub open spec fn preset_zones(ps: Seq<PresetModel>) -> Seq<ZoneModel>
    decreases ps.len(),
{
    if ps.len() == 0 {
        seq![]
    } else {
        preset_zones(ps.drop_last()) + ps.last().zones
    }
}

/// The `phdr` record of a preset whose first zone is bag `bag`.
pub open spec fn phdr_enc(p: PresetModel, bag: int) -> Seq<u8> {
    name20_spec(vstd::utf8::encode_utf8(p.name)) + le16_bytes(p.program) + le16_bytes(p.bank)
        + le16_bytes(bag as u16) + le32_bytes(p.library) + le32_bytes(p.genre) + le32_bytes(
        p.morphology,
    )
}

/// The `phdr` records of a run of presets, without the terminal one.
pub open spec fn phdr_bytes(ps: Seq<PresetModel>) -> Seq<u8> {
    flat(Seq::new(ps.len(), |i: int| phdr_enc(ps[i], preset_zones(ps.take(i)).len() as int)))
}

/// What overflows first while the presets from `i` on are written: a
/// preset's first bag index, or a bag's generator or modulator index; then
/// the terminal bag.
pub open spec fn presets_overflow(ps: Seq<PresetModel>, i: int) -> Option<Seq<char>>
    decreases ps.len() - i,
{
    if i < 0 || i > ps.len() {
        None
    } else if i == ps.len() {
        let zs = preset_zones(ps);
        if zs.len() > u16::MAX {
            Some("zones"@)
        } else if all_gens(zs).len() > u16::MAX {
            Some("generators"@)
        } else if all_mods(zs).len() > u16::MAX {
            Some("modulators"@)
        } else {
            None
        }
    } else if preset_zones(ps.take(i)).len() > u16::MAX {
        Some("zones"@)
    } else {
        match first_overflow(preset_zones(ps.take(i + 1)), preset_zones(ps.take(i)).len() as int) {
            Some(w) => Some(w),
            None => presets_overflow(ps, i + 1),
        }
    }
}

/// The four preset-side arrays of a run of presets: `phdr` with its
/// terminal `EOP` record (only its bag index matters), then the bags,
/// modulators and generators of all their zones, each with its terminal
/// record.
pub open spec fn presets_arrays(ps: Seq<PresetModel>) -> (Seq<u8>, Seq<u8>, Seq<u8>, Seq<u8>) {
    let zs = preset_zones(ps);
    (
        phdr_bytes(ps) + name20_spec(vstd::utf8::encode_utf8("EOP"@)) + le16_bytes(0) + le16_bytes(
            0,
        ) + le16_bytes(zs.len() as u16) + zeros(12),
        bags_bytes(zs) + le16_bytes(all_gens(zs).len() as u16) + le16_bytes(
            all_mods(zs).len() as u16,
        ),
        mods_bytes(zs) + zeros(10),
        gens_bytes(zs) + zeros(4),
    )
}

/// One more preset appends its zones.
proof fn lemma_preset_zones_push(ps: Seq<PresetModel>, i: int)
    requires
        0 <= i < ps.len(),
    ensures
        preset_zones(ps.take(i + 1)) == preset_zones(ps.take(i)) + ps[i].zones,
{
    assert(ps.take(i + 1).drop_last() =~= ps.take(i));
}

/// One more header appended to the `phdr` records.
proof fn lemma_phdr_push(ps: Seq<PresetModel>, i: int)
    requires
        0 <= i < ps.len(),
    ensures
        phdr_bytes(ps.take(i + 1)) == phdr_bytes(ps.take(i)) + phdr_enc(
            ps[i],
            preset_zones(ps.take(i)).len() as int,
        ),
{
    let a = ps.take(i + 1);
    let b = ps.take(i);
    let s1 = Seq::new(a.len(), |k: int| phdr_enc(a[k], preset_zones(a.take(k)).len() as int));
    let s0 = Seq::new(b.len(), |k: int| phdr_enc(b[k], preset_zones(b.take(k)).len() as int));
    assert forall|k: int| 0 <= k < i implies #[trigger] s1.drop_last()[k] == s0[k] by {
        assert(a.take(k) =~= b.take(k));
    }
    assert(s1.drop_last() =~= s0);
    assert(a.take(i) =~= b);
    assert(s1 == s0.push(s1.last()));
    lemma_flat_push(s0, s1.last());
}

/// Builds `phdr` plus the preset-side bag, modulator and generator arrays.
pub fn build_presets(presets: &[Preset]) -> (r: Result<(Vec<u8>, Vec<u8>, Vec<u8>, Vec<u8>), Error>)
    ensures
        match presets_overflow(presets_model(presets@), 0) {
            None => r matches Ok((phdr, pbag, pmod, pgen)) && (phdr@, pbag@, pmod@, pgen@)
                == presets_arrays(presets_model(presets@)),
            Some(w) => r matches Err(e) && too_large(e, w),
        },
{
    let ghost ps = presets_model(presets@);
    let mut phdr: Vec<u8> = Vec::new();
    let mut zones = Zones::new();
    let mut i: usize = 0;
    proof {
        assert(ps.take(0) =~= Seq::<PresetModel>::empty());
        assert(phdr@ =~= phdr_bytes(ps.take(0)));
    }
    while i < presets.len()
        invariant
            i <= presets@.len(),
            ps == presets_model(presets@),
            zones.wf(),
            zones.zones@ == preset_zones(ps.take(i as int)),
            phdr@ == phdr_bytes(ps.take(i as int)),
            presets_overflow(ps, 0) == presets_overflow(ps, i as int),
        decreases presets@.len() - i,
    {
        let preset = &presets[i];
        proof {
            lemma_preset_zones_push(ps, i as int);
            lemma_phdr_push(ps, i as int);
            assert(ps[i as int] == preset@);
        }
        let bag = match zones.next_bag() {
            Ok(b) => b,
            Err(e) => return Err(e),
        };
        let name = name20(preset.name.as_str());
        put_bytes(&mut phdr, &name);
        put_u16(&mut phdr, preset.program);
        put_u16(&mut phdr, preset.bank);
        put_u16(&mut phdr, bag);
        put_u32(&mut phdr, preset.library);
        put_u32(&mut phdr, preset.genre);
        put_u32(&mut phdr, preset.morphology);
        assert(phdr@ =~= phdr_bytes(ps.take(i as int)) + phdr_enc(
            ps[i as int],
            preset_zones(ps.take(i as int)).len() as int,
        ));
        match zones.push(preset.zones.as_slice()) {
            Ok(()) => {},
            Err(e) => return Err(e),
        }
        i = i + 1;
    }
    assert(ps.take(i as int) =~= ps);
    // The terminal "EOP" record: only its bag index matters, bounding the
    // zones of the last real preset.
    let bag = match zones.next_bag() {
        Ok(b) => b,
        Err(e) => return Err(e),
    };
    let name = name20("EOP");
    put_bytes(&mut phdr, &name);
    put_u16(&mut phdr, 0);
    put_u16(&mut phdr, 0);
    put_u16(&mut phdr, bag);
    put_zeros(&mut phdr, 12);
    let (pbag, pmod, pgen) = match zones.finish() {
        Ok(t) => t,
        Err(e) => return Err(e),
    };
    Ok((phdr, pbag, pmod, pgen))
}

// ----- instruments ----------------------------------------------------------------------

/// The zones of a run of instruments, in file order.
pub open spec fn instrument_zones(ins: Seq<InstrumentModel>) -> Seq<ZoneModel>
    decreases ins.len(),
{
    if ins.len() == 0 {
        seq![]
    } else {
        instrument_zones(ins.drop_last()) + ins.last().zones
    }
}

/// The `inst` record of an instrument whose first zone is bag `bag`.
pub open spec fn inst_enc(x: InstrumentModel, bag: int) -> Seq<u8> {
    name20_spec(vstd::utf8::encode_utf8(x.name)) + le16_bytes(bag as u16)
}

/// The `inst` records of a run of instruments, without the terminal one.
pub open spec fn inst_bytes(ins: Seq<InstrumentModel>) -> Seq<u8> {
    flat(Seq::new(ins.len(), |i: int| inst_enc(ins[i], instrument_zones(ins.take(i)).len() as int)))
}

/// What overflows first while the instruments from `i` on are written.
pub open spec fn instruments_overflow(ins: Seq<InstrumentModel>, i: int) -> Option<Seq<char>>
    decreases ins.len() - i,
{
    if i < 0 || i > ins.len() {
        None
    } else if i == ins.len() {
        let zs = instrument_zones(ins);
        if zs.len() > u16::MAX {
            Some("zones"@)
        } else if all_gens(zs).len() > u16::MAX {
            Some("generators"@)
        } else if all_mods(zs).len() > u16::MAX {
            Some("modulators"@)
        } else {
            None
        }
    } else if instrument_zones(ins.take(i)).len() > u16::MAX {
        Some("zones"@)
    } else {
        match first_overflow(
            instrument_zones(ins.take(i + 1)),
            instrument_zones(ins.take(i)).len() as int,
        ) {
            Some(w) => Some(w),
            None => instruments_overflow(ins, i + 1),
        }
    }
}

/// The four instrument-side arrays: `inst` with its terminal `EOI` record,
/// then the bags, modulators and generators of all the zones.
pub open spec fn instruments_arrays(ins: Seq<InstrumentModel>) -> (
    Seq<u8>,
    Seq<u8>,
    Seq<u8>,
    Seq<u8>,
) {
    let zs = instrument_zones(ins);
    (
        inst_bytes(ins) + name20_spec(vstd::utf8::encode_utf8("EOI"@)) + le16_bytes(zs.len() as u16),
        bags_bytes(zs) + le16_bytes(all_gens(zs).len() as u16) + le16_bytes(
            all_mods(zs).len() as u16,
        ),
        mods_bytes(zs) + zeros(10),
        gens_bytes(zs) + zeros(4),
    )
}

/// One more instrument appends its zones.
proof fn lemma_instrument_zones_push(ins: Seq<InstrumentModel>, i: int)
    requires
        0 <= i < ins.len(),
    ensures
        instrument_zones(ins.take(i + 1)) == instrument_zones(ins.take(i)) + ins[i].zones,
{
    assert(ins.take(i + 1).drop_last() =~= ins.take(i));
}

/// One more header appended to the `inst` records.
proof fn lemma_inst_push(ins: Seq<InstrumentModel>, i: int)
    requires
        0 <= i < ins.len(),
    ensures
        inst_bytes(ins.take(i + 1)) == inst_bytes(ins.take(i)) + inst_enc(
            ins[i],
            instrument_zones(ins.take(i)).len() as int,
        ),
{
    let a = ins.take(i + 1);
    let b = ins.take(i);
    let s1 = Seq::new(a.len(), |k: int| inst_enc(a[k], instrument_zones(a.take(k)).len() as int));
    let s0 = Seq::new(b.len(), |k: int| inst_enc(b[k], instrument_zones(b.take(k)).len() as int));
    assert forall|k: int| 0 <= k < i implies #[trigger] s1.drop_last()[k] == s0[k] by {
        assert(a.take(k) =~= b.take(k));
    }
    assert(s1.drop_last() =~= s0);
    assert(a.take(i) =~= b);
    assert(s1 == s0.push(s1.last()));
    lemma_flat_push(s0, s1.last());
}

/// Builds `inst` plus the instrument-side bag, modulator and generator
/// arrays.
pub fn build_instruments(instruments: &[Instrument]) -> (r: Result<
    (Vec<u8>, Vec<u8>, Vec<u8>, Vec<u8>),
    Error,
>)
    ensures
        match instruments_overflow(instruments_model(instruments@), 0) {
            None => r matches Ok((inst, ibag, imod, igen)) && (inst@, ibag@, imod@, igen@)
                == instruments_arrays(instruments_model(instruments@)),
            Some(w) => r matches Err(e) && too_large(e, w),
        },
{
    let ghost ins = instruments_model(instruments@);
    let mut inst: Vec<u8> = Vec::new();
    let mut zones = Zones::new();
    let mut i: usize = 0;
    proof {
        assert(ins.take(0) =~= Seq::<InstrumentModel>::empty());
        assert(inst@ =~= inst_bytes(ins.take(0)));
    }
    while i < instruments.len()
        invariant
            i <= instruments@.len(),
            ins == instruments_model(instruments@),
            zones.wf(),
            zones.zones@ == instrument_zones(ins.take(i as int)),
            inst@ == inst_bytes(ins.take(i as int)),
            instruments_overflow(ins, 0) == instruments_overflow(ins, i as int),
        decreases instruments@.len() - i,
    {
        let instrument = &instruments[i];
        proof {
            lemma_instrument_zones_push(ins, i as int);
            lemma_inst_push(ins, i as int);
            assert(ins[i as int] == instrument@);
        }
        let bag = match zones.next_bag() {
            Ok(b) => b,
            Err(e) => return Err(e),
        };
        let name = name20(instrument.name.as_str());
        put_bytes(&mut inst, &name);
        put_u16(&mut inst, bag);
        assert(inst@ =~= inst_bytes(ins.take(i as int)) + inst_enc(
            ins[i as int],
            instrument_zones(ins.take(i as int)).len() as int,
        ));
        match zones.push(instrument.zones.as_slice()) {
            Ok(()) => {},
            Err(e) => return Err(e),
        }
        i = i + 1;
    }
    assert(ins.take(i as int) =~= ins);
    // The terminal "EOI" record.
    let bag = match zones.next_bag() {
        Ok(b) => b,
        Err(e) => return Err(e),
    };
    let name = name20("EOI");
    put_bytes(&mut inst, &name);
    put_u16(&mut inst, bag);
    let (ibag, imod, igen) = match zones.finish() {
        Ok(t) => t,
        Err(e) => return Err(e),
    };
    Ok((inst, ibag, imod, igen))
}

// ----- samples ------------------------------------------------------------------------------

/// The `.sf3` flag marking a sample as Ogg/Vorbis-compressed.
pub const SAMPLE_TYPE_COMPRESSED: u16 = 0x10;

/// Where one sample ended up in the encoded pool, and its loop points.
///
/// In `.sf3` `start`/`end` are *byte* offsets of the sample's Vorbis stream
/// within the pool, while the loop points remain frame offsets relative to
/// that sample. This is the one place the two formats genuinely diverge.
#[derive(Debug, Clone, Copy, PartialEq, Eq, Structural)]
pub struct SampleRegion {
    pub start: u32,
    pub end: u32,
    pub loop_start: u32,
    pub loop_end: u32,
}

/// The `sfSampleType` word of a sample type.
pub fn kind_bits(kind: SampleType) -> (v: u16)
    ensures
        v == sample_type_bits(kind),
{
    match kind {
        SampleType::Mono => 1,
        SampleType::Right => 2,
        SampleType::Left => 4,
        SampleType::Linked => 8,
        SampleType::RomMono => 0x8001,
        SampleType::RomRight => 0x8002,
        SampleType::RomLeft => 0x8004,
        SampleType::RomLinked => 0x8008,
        SampleType::Other(bits) => bits,
    }
}

/// The `shdr` record of a sample stored at `r`, with the compressed bit set.
pub open spec fn shdr_enc(s: SampleModel, r: SampleRegion) -> Seq<u8> {
    name20_spec(vstd::utf8::encode_utf8(s.name)) + le32_bytes(r.start) + le32_bytes(r.end)
        + le32_bytes(r.loop_start) + le32_bytes(r.loop_end) + le32_bytes(s.sample_rate) + seq![
        s.original_key,
        s.correction as u8,
    ] + le16_bytes(s.link) + le16_bytes(sample_type_bits(s.kind) | SAMPLE_TYPE_COMPRESSED)
}

/// The `shdr` records of the samples, paired with their regions, without
/// the terminal one.
pub open spec fn shdr_bytes(ss: Seq<SampleModel>, rs: Seq<SampleRegion>) -> Seq<u8> {
    flat(Seq::new(ss.len(), |i: int| shdr_enc(ss[i], rs[i])))
}

/// The `shdr` array: one record per sample, then the terminal `EOS` record
/// (its name and zeroes).
pub open spec fn shdr_array(ss: Seq<SampleModel>, rs: Seq<SampleRegion>) -> Seq<u8> {
    shdr_bytes(ss, rs) + name20_spec(vstd::utf8::encode_utf8("EOS"@)) + zeros(26)
}

/// Builds `shdr`, addressing the encoded pool the `.sf3` way.
///
/// `regions` must be parallel to `sf.samples`: one entry per sample.
pub fn build_shdr(sf: &SoundFont, regions: &[SampleRegion]) -> (r: Result<Vec<u8>, Error>)
    ensures
        regions@.len() != sf.samples@.len() ==> (r matches Err(e) && too_large(
            e,
            "sample regions do not match samples"@,
        )),
        regions@.len() == sf.samples@.len() ==> (r matches Ok(v) && v@ == shdr_array(
            samples_model(sf.samples@),
            regions@,
        )),
{
    if regions.len() != sf.samples.len() {
        return Err(Error::TooLarge("sample regions do not match samples"));
    }
    let ghost ss = samples_model(sf.samples@);
    let mut shdr: Vec<u8> = Vec::new();
    let mut i: usize = 0;
    assert(shdr@ =~= shdr_bytes(ss.take(0), regions@.take(0)));
    while i < sf.samples.len()
        invariant
            i <= sf.samples@.len(),
            regions@.len() == sf.samples@.len(),
            ss == samples_model(sf.samples@),
            shdr@ == shdr_bytes(ss.take(i as int), regions@.take(i as int)),
        decreases sf.samples@.len() - i,
    {
        let sample = &sf.samples[i];
        let region = regions[i];
        proof {
            let a = Seq::new((i + 1) as nat, |k: int| shdr_enc(ss.take(i + 1)[k], regions@.take(i + 1)[k]));
            let b = Seq::new(i as nat, |k: int| shdr_enc(ss.take(i as int)[k], regions@.take(i as int)[k]));
            assert(a.drop_last() =~= b);
            assert(a == b.push(a.last()));
            lemma_flat_push(b, a.last());
            assert(ss[i as int] == sample@);
        }
        let name = name20(sample.name.as_str());
        put_bytes(&mut shdr, &name);
        put_u32(&mut shdr, region.start);
        put_u32(&mut shdr, region.end);
        put_u32(&mut shdr, region.loop_start);
        put_u32(&mut shdr, region.loop_end);
        put_u32(&mut shdr, sample.sample_rate());
        shdr.push(sample.original_key);
        shdr.push(sample.correction as u8);
        put_u16(&mut shdr, sample.link);
        put_u16(&mut shdr, kind_bits(sample.kind) | SAMPLE_TYPE_COMPRESSED);
        assert(shdr@ =~= shdr_bytes(ss.take(i as int), regions@.take(i as int)) + shdr_enc(
            ss[i as int],
            regions@[i as int],
        ));
        i = i + 1;
    }
    assert(ss.take(i as int) =~= ss);
    assert(regions@.take(i as int) =~= regions@);
    // The terminal "EOS" record.
    let name = name20("EOS");
    put_bytes(&mut shdr, &name);
    put_zeros(&mut shdr, 26);
    Ok(shdr)
}

// ----- the whole pdta -----------------------------------------------------------------------

/// The nine serialised `pdta` sub-chunks.
pub struct Pdta {
    pub phdr: Vec<u8>,
    pub pbag: Vec<u8>,
    pub pmod: Vec<u8>,
    pub pgen: Vec<u8>,
    pub inst: Vec<u8>,
    pub ibag: Vec<u8>,
    pub imod: Vec<u8>,
    pub igen: Vec<u8>,
    pub shdr: Vec<u8>,
}

/// Serialises `sf`'s presets, instruments and samples into the `pdta`
/// arrays. Presets are written first, then instruments, then sample
/// headers; the first count that overflows is the error.
///
/// `regions` must be parallel to `sf.samples`: one entry per sample, giving
/// its byte range in the encoded pool.
pub fn build_pdta(sf: &SoundFont, regions: &[SampleRegion]) -> (r: Result<Pdta, Error>)
    ensures
        ({
            let ps = presets_model(sf.presets@);
            let ins = instruments_model(sf.instruments@);
            match presets_overflow(ps, 0) {
                Some(w) => r matches Err(e) && too_large(e, w),
                None => match instruments_overflow(ins, 0) {
                    Some(w) => r matches Err(e) && too_large(e, w),
                    None => if regions@.len() != sf.samples@.len() {
                        r matches Err(e) && too_large(e, "sample regions do not match samples"@)
                    } else {
                        r matches Ok(p) && (p.phdr@, p.pbag@, p.pmod@, p.pgen@) == presets_arrays(
                            ps,
                        ) && (p.inst@, p.ibag@, p.imod@, p.igen@) == instruments_arrays(ins)
                            && p.shdr@ == shdr_array(samples_model(sf.samples@), regions@)
                    },
                },
            }
        }),
{
    let (phdr, pbag, pmod, pgen) = match build_presets(sf.presets.as_slice()) {
        Ok(t) => t,
        Err(e) => return Err(e),
    };
    let (inst, ibag, imod, igen) = match build_instruments(sf.instruments.as_slice()) {
        Ok(t) => t,
        Err(e) => return Err(e),
    };
    let shdr = match build_shdr(sf, regions) {
        Ok(v) => v,
        Err(e) => return Err(e),
    };
    Ok(Pdta { phdr, pbag, pmod, pgen, inst, ibag, imod, igen, shdr })
}

} // verus!
