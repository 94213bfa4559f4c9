//! What the loader makes of a whole `.sf3` file the writer laid out: the
//! RIFF walk finds every chunk written, and the bank read back is the bank
//! written, as far as the model carries it across.

use vstd::prelude::*;

use crate::convert::hydra::{
    SAMPLE_TYPE_COMPRESSED, flat, instruments_arrays, instruments_overflow, le32_bytes,
    lemma_flat_push, presets_arrays, presets_overflow, shdr_array,
};
use crate::convert::round_trip::{
    instrument_read, lemma_bags_array_read, lemma_gens_array_read, lemma_inst_array_read,
    lemma_instruments_round_trip, lemma_mods_array_read, lemma_phdr_array_read,
    lemma_presets_round_trip, lemma_samples_round_trip, lemma_shdr_array_read, preset_read,
    sample_meta_read, shdr_model, writable_instruments, writable_presets,
};
use crate::convert::write::{
    chunk_bytes, info_body, pdta_body, regions_spec, sf3_body, sf3_spec, sf3_version,
    stream_offset, text_chunk, version_bytes, zstr_bytes,
};
use crate::soundfont::container::{
    HydraModel, clen, empty_info, info_update, contents_at, contents_ok, hydra_spec, id_at, info_spec, last_with,
    leaf_spec, list_children, part_spec, version_spec, walk,
};
use crate::soundfont::hydra::{
    Bag, GenRecord, HydraRecord, InstHeader, ModRecord, PresetHeader, SampleHeader, records_spec,
};
use crate::soundfont::load::{
    assemble_spec, body_spec, lists_spec, sample_spec, samples_from, soundfont_spec,
};
use crate::soundfont::model::{
    InfoModel, InstrumentModel, PresetModel, SampleModel, SoundFontModel, Version,
    sample_type_bits,
};
use crate::soundfont::riff_io::le32;
use crate::soundfont::vorbis::{vorbis_packets, vorbis_pcm};

verus! {

/// A chunk to lay out: its id and its contents.
pub open spec fn chunk_ok(c: (Seq<u8>, Seq<u8>)) -> bool {
    c.0.len() == 4 && c.1.len() <= u32::MAX
}

/// The bytes of each chunk of a list.
pub open spec fn encodings(cs: Seq<(Seq<u8>, Seq<u8>)>) -> Seq<Seq<u8>> {
    cs.map_values(|c: (Seq<u8>, Seq<u8>)| chunk_bytes(c.0, c.1))
}

/// Where each chunk of `es` starts when they are laid end to end from
/// `cur`.
pub open spec fn offsets(cur: int, es: Seq<Seq<u8>>) -> Seq<int> {
    Seq::new(es.len(), |k: int| cur + flat(es.take(k)).len())
}

/// Laying one more record in front.
pub proof fn lemma_flat_prepend(x: Seq<u8>, s: Seq<Seq<u8>>)
    ensures
        flat(seq![x] + s) == x + flat(s),
    decreases s.len(),
{
    if s.len() == 0 {
        assert(seq![x] + s =~= seq![x].push(x).drop_last());
        assert(flat(seq![x]) == flat(Seq::<Seq<u8>>::empty()) + x) by {
            assert(seq![x].drop_last() =~= Seq::<Seq<u8>>::empty());
        }
        assert(seq![x] + s =~= seq![x]);
        assert(x + flat(s) =~= x);
        assert(flat(Seq::<Seq<u8>>::empty()) =~= Seq::<u8>::empty());
    } else {
        lemma_flat_prepend(x, s.drop_last());
        assert((seq![x] + s).drop_last() =~= seq![x] + s.drop_last());
        assert(x + flat(s) =~= x + flat(s.drop_last()) + s.last());
    }
}

/// The four bytes `le32_bytes` writes read back as the word.
pub proof fn lemma_le32_value(v: u32)
    ensures
        le32(le32_bytes(v)[0], le32_bytes(v)[1], le32_bytes(v)[2], le32_bytes(v)[3]) == v,
{
    assert(v == (v % 256) + ((v / 256) % 256) * 256 + ((v / 65536) % 256) * 65536 + (v / 16777216)
        * 16777216) by (nonlinear_arith);
}

/// A chunk laid out at `p` reads back, from its header, as the id,
/// length and contents it was written with, and the next chunk starts right
/// after its pad.
pub proof fn lemma_chunk_at(bytes: Seq<u8>, p: int, id: Seq<u8>, d: Seq<u8>)
    requires
        0 <= p,
        chunk_ok((id, d)),
        p + chunk_bytes(id, d).len() <= bytes.len(),
        bytes.subrange(p, p + chunk_bytes(id, d).len()) == chunk_bytes(id, d),
    ensures
        chunk_bytes(id, d).len() == 8 + d.len() + d.len() % 2,
        id_at(bytes, p) == id,
        clen(bytes, p) == d.len(),
        contents_ok(bytes, p),
        contents_at(bytes, p) == d,
        p + 8 + clen(bytes, p) + clen(bytes, p) % 2 == p + chunk_bytes(id, d).len(),
{
    let e = chunk_bytes(id, d);
    let n = e.len() as int;
    assert(n == 8 + d.len() + d.len() % 2);
    let len = d.len() as u32;
    assert forall|j: int| 0 <= j < n implies bytes[p + j] == e[j] by {
        assert(bytes.subrange(p, p + n)[j] == bytes[p + j]);
    }
    assert(e[4] == le32_bytes(len)[0]);
    assert(e[5] == le32_bytes(len)[1]);
    assert(e[6] == le32_bytes(len)[2]);
    assert(e[7] == le32_bytes(len)[3]);
    assert(bytes[p + 4] == e[4]);
    assert(bytes[p + 5] == e[5]);
    assert(bytes[p + 6] == e[6]);
    assert(bytes[p + 7] == e[7]);
    lemma_le32_value(len);
    assert(clen(bytes, p) == d.len());
    assert(id_at(bytes, p) =~= id) by {
        assert forall|j: int| 0 <= j < 4 implies id_at(bytes, p)[j] == id[j] by {
            assert(bytes[p + j] == e[j]);
        }
    }
    assert(contents_at(bytes, p) =~= d) by {
        assert forall|j: int| 0 <= j < d.len() implies contents_at(bytes, p)[j] == d[j] by {
            assert(bytes[p + 8 + j] == e[8 + j]);
        }
    }
}

/// Walking chunks laid end to end from `cur` finds each of them, with the
/// id and contents it was written with, as long as each starts before `end`
/// and the last one reaches it.
#[verifier::rlimit(40)]
pub proof fn lemma_walk_chunks(bytes: Seq<u8>, cur: int, end: int, cs: Seq<(Seq<u8>, Seq<u8>)>)
    requires
        0 <= cur,
        cur + flat(encodings(cs)).len() <= bytes.len(),
        bytes.subrange(cur, cur + flat(encodings(cs)).len()) == flat(encodings(cs)),
        forall|k: int| 0 <= k < cs.len() ==> chunk_ok(#[trigger] cs[k]),
        forall|k: int| 0 <= k < cs.len() ==> cur + #[trigger] flat(encodings(cs).take(k)).len() < end,
        end <= cur + flat(encodings(cs)).len(),
    ensures
        walk(bytes, cur, end) == Some(offsets(cur, encodings(cs))),
        forall|k: int|
            0 <= k < cs.len() ==> {
                let p = #[trigger] offsets(cur, encodings(cs))[k];
                &&& id_at(bytes, p) == cs[k].0
                &&& clen(bytes, p) == cs[k].1.len()
                &&& contents_ok(bytes, p)
                &&& contents_at(bytes, p) == cs[k].1
                &&& p + encodings(cs)[k].len() <= bytes.len()
                &&& bytes.subrange(p, p + encodings(cs)[k].len()) == encodings(cs)[k]
            },
    decreases cs.len(),
{
    let es = encodings(cs);
    if cs.len() == 0 {
        assert(flat(es) =~= Seq::<u8>::empty());
        assert(offsets(cur, es) =~= Seq::<int>::empty());
    } else {
        let c = cs[0];
        let rest = cs.drop_first();
        let e0 = chunk_bytes(c.0, c.1);
        assert(chunk_ok(c));
        assert(es =~= seq![e0] + encodings(rest));
        lemma_flat_prepend(e0, encodings(rest));
        let n0 = e0.len() as int;
        let next = cur + n0;
        assert(bytes.subrange(cur, cur + n0) =~= e0) by {
            assert(flat(es).subrange(0, n0) =~= e0);
            assert forall|j: int| 0 <= j < n0 implies bytes.subrange(cur, cur + n0)[j] == e0[j] by {
                assert(bytes.subrange(cur, cur + flat(es).len())[j] == flat(es)[j]);
            }
        }
        lemma_chunk_at(bytes, cur, c.0, c.1);
        // The rest follow it.
        let rs = encodings(rest);
        assert(bytes.subrange(next, next + flat(rs).len()) =~= flat(rs)) by {
            assert forall|j: int| 0 <= j < flat(rs).len() implies bytes.subrange(
                next,
                next + flat(rs).len(),
            )[j] == flat(rs)[j] by {
                assert(bytes.subrange(cur, cur + flat(es).len())[n0 + j] == flat(es)[n0 + j]);
            }
        }
        assert forall|k: int| 0 <= k < rest.len() implies next + #[trigger] flat(rs.take(k)).len() < end by {
            assert(es.take(k + 1) =~= seq![e0] + rs.take(k));
            lemma_flat_prepend(e0, rs.take(k));
            assert(cur + flat(es.take(k + 1)).len() < end);
        }
        assert forall|k: int| 0 <= k < rest.len() implies chunk_ok(#[trigger] rest[k]) by {
            assert(rest[k] == cs[k + 1]);
        }
        assert(es.take(0) =~= Seq::<Seq<u8>>::empty());
        assert(flat(Seq::<Seq<u8>>::empty()) =~= Seq::<u8>::empty());
        lemma_walk_chunks(bytes, next, end, rest);
        assert(offsets(cur, es) =~= seq![cur] + offsets(next, rs)) by {
            assert forall|k: int| 0 < k < es.len() implies offsets(cur, es)[k] == offsets(next, rs)[k - 1] by {
                assert(es.take(k) =~= seq![e0] + rs.take(k - 1));
                lemma_flat_prepend(e0, rs.take(k - 1));
            }
        }
        assert forall|k: int| 0 <= k < cs.len() implies {
            let p = #[trigger] offsets(cur, es)[k];
            &&& id_at(bytes, p) == cs[k].0
            &&& clen(bytes, p) == cs[k].1.len()
            &&& contents_ok(bytes, p)
            &&& contents_at(bytes, p) == cs[k].1
            &&& p + es[k].len() <= bytes.len()
            &&& bytes.subrange(p, p + es[k].len()) == es[k]
        } by {
            if k > 0 {
                assert(offsets(cur, es)[k] == offsets(next, rs)[k - 1]);
                assert(cs[k] == rest[k - 1]);
                assert(es[k] == rs[k - 1]);
            }
        }
    }
}

/// Records laid end to end, in two runs.
pub proof fn lemma_flat_concat(a: Seq<Seq<u8>>, b: Seq<Seq<u8>>)
    ensures
        flat(a + b) == flat(a) + flat(b),
    decreases b.len(),
{
    if b.len() == 0 {
        assert(a + b =~= a);
        assert(flat(a) + flat(b) =~= flat(a));
    } else {
        lemma_flat_concat(a, b.drop_last());
        assert((a + b).drop_last() =~= a + b.drop_last());
        assert((a + b).last() == b.last());
        assert(flat(a) + flat(b) =~= flat(a) + flat(b.drop_last()) + b.last());
    }
}

/// The encodings of two runs of chunks.
pub proof fn lemma_encodings_concat(a: Seq<(Seq<u8>, Seq<u8>)>, b: Seq<(Seq<u8>, Seq<u8>)>)
    ensures
        encodings(a + b) == encodings(a) + encodings(b),
        flat(encodings(a + b)) == flat(encodings(a)) + flat(encodings(b)),
{
    assert(encodings(a + b) =~= encodings(a) + encodings(b));
    lemma_flat_concat(encodings(a), encodings(b));
}

/// One chunk on its own.
pub proof fn lemma_encodings_one(id: Seq<u8>, d: Seq<u8>)
    ensures
        flat(encodings(seq![(id, d)])) == chunk_bytes(id, d),
{
    let es = encodings(seq![(id, d)]);
    assert(es.drop_last() =~= Seq::<Seq<u8>>::empty());
    assert(flat(Seq::<Seq<u8>>::empty()) =~= Seq::<u8>::empty());
    assert(flat(es) =~= chunk_bytes(id, d));
}

/// No chunk at all.
pub proof fn lemma_encodings_none()
    ensures
        flat(encodings(Seq::<(Seq<u8>, Seq<u8>)>::empty())) == Seq::<u8>::empty(),
{
    assert(encodings(Seq::<(Seq<u8>, Seq<u8>)>::empty()) =~= Seq::<Seq<u8>>::empty());
}

/// What precedes a record, and the record, fit in the whole run.
pub proof fn lemma_flat_prefix(s: Seq<Seq<u8>>, k: int)
    requires
        0 <= k < s.len(),
    ensures
        flat(s.take(k + 1)) == flat(s.take(k)) + s[k],
        flat(s.take(k)).len() + s[k].len() <= flat(s).len(),
    decreases s.len() - k,
{
    assert(s.take(k + 1) =~= s.take(k).push(s[k]));
    lemma_flat_push(s.take(k), s[k]);
    if k + 1 < s.len() {
        lemma_flat_prefix(s, k + 1);
    } else {
        assert(s.take(k + 1) =~= s);
    }
}

/// Every chunk of a run whose ids take four bytes is a chunk the header can
/// describe when the whole run fits a 32-bit length.
pub proof fn lemma_chunks_ok(cs: Seq<(Seq<u8>, Seq<u8>)>)
    requires
        forall|k: int| 0 <= k < cs.len() ==> (#[trigger] cs[k]).0.len() == 4,
        flat(encodings(cs)).len() <= u32::MAX,
    ensures
        forall|k: int| 0 <= k < cs.len() ==> chunk_ok(#[trigger] cs[k]),
        forall|k: int|
            0 <= k < cs.len() ==> flat(encodings(cs).take(k)).len() + 8 <= #[trigger] flat(
                encodings(cs).take(k + 1),
            ).len() <= flat(encodings(cs)).len(),
{
    let es = encodings(cs);
    assert forall|k: int| 0 <= k < cs.len() implies chunk_ok(#[trigger] cs[k]) by {
        lemma_flat_prefix(es, k);
        assert(es[k] == chunk_bytes(cs[k].0, cs[k].1));
    }
    assert forall|k: int| 0 <= k < cs.len() implies flat(es.take(k)).len() + 8 <= #[trigger] flat(
        es.take(k + 1),
    ).len() <= flat(es).len() by {
        lemma_flat_prefix(es, k);
        assert(es[k] == chunk_bytes(cs[k].0, cs[k].1));
    }
}

/// The children of the list chunk at `q` are the chunks `cs`, each found
/// with the id and contents it was written with.
#[verifier::opaque]
pub open spec fn laid_out(bytes: Seq<u8>, q: int, cs: Seq<(Seq<u8>, Seq<u8>)>) -> bool {
    &&& list_children(bytes, q) == Some(offsets(q + 12, encodings(cs)))
    &&& forall|k: int|
        0 <= k < cs.len() ==> {
            let p = #[trigger] offsets(q + 12, encodings(cs))[k];
            &&& id_at(bytes, p) == cs[k].0
            &&& contents_ok(bytes, p)
            &&& contents_at(bytes, p) == cs[k].1
            &&& p + encodings(cs)[k].len() <= bytes.len()
            &&& bytes.subrange(p, p + encodings(cs)[k].len()) == encodings(cs)[k]
        }
}

/// The chunk at `q` whose contents are a four-byte type and then the chunks
/// `cs` laid end to end: walking its children finds each of them.
#[verifier::rlimit(30)]
pub proof fn lemma_list_at(bytes: Seq<u8>, q: int, id: Seq<u8>, kind: Seq<u8>, cs: Seq<(Seq<u8>, Seq<u8>)>)
    requires
        0 <= q,
        id.len() == 4,
        kind.len() == 4,
        forall|k: int| 0 <= k < cs.len() ==> (#[trigger] cs[k]).0.len() == 4,
        4 + flat(encodings(cs)).len() <= u32::MAX,
        q + chunk_bytes(id, kind + flat(encodings(cs))).len() <= bytes.len(),
        bytes.subrange(q, q + chunk_bytes(id, kind + flat(encodings(cs))).len()) == chunk_bytes(
            id,
            kind + flat(encodings(cs)),
        ),
    ensures
        id_at(bytes, q) == id,
        contents_ok(bytes, q),
        contents_at(bytes, q) == kind + flat(encodings(cs)),
        bytes.subrange(q + 8, q + 12) == kind,
        q + 12 <= bytes.len(),
        laid_out(bytes, q, cs),
{
    let es = encodings(cs);
    let body = kind + flat(es);
    lemma_chunk_at(bytes, q, id, body);
    lemma_chunks_ok(cs);
    let start = q + 12;
    let total = flat(es).len() as int;
    assert(bytes.subrange(start, start + total) =~= flat(es)) by {
        assert forall|j: int| 0 <= j < total implies bytes.subrange(start, start + total)[j] == flat(
            es,
        )[j] by {
            assert(bytes.subrange(q, q + chunk_bytes(id, body).len())[12 + j] == chunk_bytes(id, body)[12 + j]);
        }
    }
    assert(bytes.subrange(q + 8, q + 12) =~= kind) by {
        assert forall|j: int| 0 <= j < 4 implies bytes.subrange(q + 8, q + 12)[j] == kind[j] by {
            assert(bytes.subrange(q, q + chunk_bytes(id, body).len())[8 + j] == chunk_bytes(id, body)[8 + j]);
        }
    }
    let end = q + 4 + clen(bytes, q);
    assert(end == start + total - 4);
    assert forall|k: int| 0 <= k < cs.len() implies start + #[trigger] flat(es.take(k)).len() < end by {
        assert(flat(es.take(k)).len() + 8 <= flat(es.take(k + 1)).len() <= flat(es).len());
    }
    lemma_walk_chunks(bytes, start, end, cs);
    reveal(laid_out);
}

/// The children found in a list laid out from `cs`, each as written.
pub proof fn lemma_children(bytes: Seq<u8>, q: int, cs: Seq<(Seq<u8>, Seq<u8>)>)
    requires
        laid_out(bytes, q, cs),
    ensures
        list_children(bytes, q) == Some(offsets(q + 12, encodings(cs))),
        forall|k: int|
            0 <= k < cs.len() ==> {
                let p = #[trigger] offsets(q + 12, encodings(cs))[k];
                &&& id_at(bytes, p) == cs[k].0
                &&& contents_ok(bytes, p)
                &&& contents_at(bytes, p) == cs[k].1
                &&& p + encodings(cs)[k].len() <= bytes.len()
                &&& bytes.subrange(p, p + encodings(cs)[k].len()) == encodings(cs)[k]
            },
{
    reveal(laid_out);
}

/// One child of a list laid out from `cs`.
pub proof fn lemma_child(bytes: Seq<u8>, q: int, cs: Seq<(Seq<u8>, Seq<u8>)>, k: int)
    requires
        laid_out(bytes, q, cs),
        0 <= q,
        0 <= k < cs.len(),
    ensures
        ({
            let p = offsets(q + 12, encodings(cs))[k];
            &&& 0 <= p
            &&& id_at(bytes, p) == cs[k].0
            &&& contents_ok(bytes, p)
            &&& contents_at(bytes, p) == cs[k].1
            &&& p + encodings(cs)[k].len() <= bytes.len()
            &&& bytes.subrange(p, p + encodings(cs)[k].len()) == encodings(cs)[k]
            &&& encodings(cs)[k] == chunk_bytes(cs[k].0, cs[k].1)
        }),
{
    reveal(laid_out);
    assert(offsets(q + 12, encodings(cs))[k] == q + 12 + flat(encodings(cs).take(k)).len());
}

/// The id of the version record.
pub open spec fn ifil_tag() -> Seq<u8> {
    seq![0x69u8, 0x66u8, 0x69u8, 0x6cu8]
}

/// A text record with id `id`, when the field is present.
pub open spec fn text_item(id: Seq<u8>, s: Option<Seq<char>>) -> Seq<(Seq<u8>, Seq<u8>)> {
    match s {
        Some(t) => seq![(id, zstr_bytes(t))],
        None => seq![],
    }
}

/// The `INFO` records after the version record, in the order they are
/// written.
pub open spec fn info_fields(info: InfoModel) -> Seq<(Seq<u8>, Seq<u8>)> {
    text_item(seq![0x69u8, 0x73u8, 0x6eu8, 0x67u8], info.engine)
        + text_item(seq![0x49u8, 0x4eu8, 0x41u8, 0x4du8], info.name)
        + text_item(seq![0x69u8, 0x72u8, 0x6fu8, 0x6du8], info.rom_name)
        + match info.rom_version {
            Some(v) => seq![(seq![0x69u8, 0x76u8, 0x65u8, 0x72u8], version_bytes(v))],
            None => Seq::<(Seq<u8>, Seq<u8>)>::empty(),
        }
        + text_item(seq![0x49u8, 0x43u8, 0x52u8, 0x44u8], info.creation_date)
        + text_item(seq![0x49u8, 0x45u8, 0x4eu8, 0x47u8], info.engineers)
        + text_item(seq![0x49u8, 0x50u8, 0x52u8, 0x44u8], info.product)
        + text_item(seq![0x49u8, 0x43u8, 0x4fu8, 0x50u8], info.copyright)
        + text_item(seq![0x49u8, 0x43u8, 0x4du8, 0x54u8], info.comments)
        + text_item(seq![0x49u8, 0x53u8, 0x46u8, 0x54u8], info.software)
}

/// The `INFO` records as written: the version record, then the fields.
pub open spec fn info_items(info: InfoModel) -> Seq<(Seq<u8>, Seq<u8>)> {
    seq![(ifil_tag(), version_bytes(sf3_version()))] + info_fields(info)
}

/// Every id in `cs` takes four bytes and differs from `t`.
pub open spec fn ids_avoid(cs: Seq<(Seq<u8>, Seq<u8>)>, t: Seq<u8>) -> bool {
    forall|k: int| 0 <= k < cs.len() ==> (#[trigger] cs[k]).0.len() == 4 && cs[k].0 != t
}

proof fn lemma_avoid_concat(a: Seq<(Seq<u8>, Seq<u8>)>, b: Seq<(Seq<u8>, Seq<u8>)>, t: Seq<u8>)
    requires
        ids_avoid(a, t),
        ids_avoid(b, t),
    ensures
        ids_avoid(a + b, t),
{
    assert forall|k: int| 0 <= k < (a + b).len() implies (#[trigger] (a + b)[k]).0.len() == 4 && (a
        + b)[k].0 != t by {
        if k >= a.len() {
            assert((a + b)[k] == b[k - a.len()]);
        }
    }
}

proof fn lemma_text_item(id: Seq<u8>, s: Option<Seq<char>>)
    requires
        id.len() == 4,
        id[1] != ifil_tag()[1] || id[0] != ifil_tag()[0],
    ensures
        ids_avoid(text_item(id, s), ifil_tag()),
        flat(encodings(text_item(id, s))) == text_chunk(id, s),
{
    if id == ifil_tag() {
        assert(id[0] == ifil_tag()[0] && id[1] == ifil_tag()[1]);
    }
    match s {
        Some(t) => lemma_encodings_one(id, zstr_bytes(t)),
        None => {
            assert(text_item(id, s) =~= Seq::<(Seq<u8>, Seq<u8>)>::empty());
            lemma_encodings_none();
        },
    }
}

/// The optional `iver` record.
pub open spec fn rom_version_item(v: Option<Version>) -> Seq<(Seq<u8>, Seq<u8>)> {
    match v {
        Some(v) => seq![(seq![0x69u8, 0x76u8, 0x65u8, 0x72u8], version_bytes(v))],
        None => Seq::<(Seq<u8>, Seq<u8>)>::empty(),
    }
}

/// The bytes of the optional `iver` record.
pub open spec fn rom_version_chunk(v: Option<Version>) -> Seq<u8> {
    match v {
        Some(v) => chunk_bytes(seq![0x69u8, 0x76u8, 0x65u8, 0x72u8], version_bytes(v)),
        None => seq![],
    }
}

proof fn lemma_rom_version_item(v: Option<Version>)
    ensures
        ids_avoid(rom_version_item(v), ifil_tag()),
        flat(encodings(rom_version_item(v))) == rom_version_chunk(v),
{
    match v {
        Some(x) => {
            lemma_encodings_one(seq![0x69u8, 0x76u8, 0x65u8, 0x72u8], version_bytes(x));
            let id = seq![0x69u8, 0x76u8, 0x65u8, 0x72u8];
            if id == ifil_tag() {
                assert(id[1] == ifil_tag()[1]);
            }
        },
        None => lemma_encodings_none(),
    }
}

/// Adding one more run of records: the bytes follow, and no id is the
/// version record's.
proof fn lemma_fields_step(
    a: Seq<(Seq<u8>, Seq<u8>)>,
    b: Seq<(Seq<u8>, Seq<u8>)>,
    fa: Seq<u8>,
    fb: Seq<u8>,
)
    requires
        ids_avoid(a, ifil_tag()),
        ids_avoid(b, ifil_tag()),
        flat(encodings(a)) == fa,
        flat(encodings(b)) == fb,
    ensures
        ids_avoid(a + b, ifil_tag()),
        flat(encodings(a + b)) == fa + fb,
{
    lemma_encodings_concat(a, b);
    lemma_avoid_concat(a, b, ifil_tag());
}

/// The fields laid end to end, and none of them is a version record.
#[verifier::rlimit(40)]
proof fn lemma_info_fields(info: InfoModel)
    ensures
        ids_avoid(info_fields(info), ifil_tag()),
        flat(encodings(info_fields(info))) == text_chunk(seq![0x69u8, 0x73u8, 0x6eu8, 0x67u8], info.engine)
            + text_chunk(seq![0x49u8, 0x4eu8, 0x41u8, 0x4du8], info.name)
            + text_chunk(seq![0x69u8, 0x72u8, 0x6fu8, 0x6du8], info.rom_name)
            + rom_version_chunk(info.rom_version)
            + text_chunk(seq![0x49u8, 0x43u8, 0x52u8, 0x44u8], info.creation_date)
            + text_chunk(seq![0x49u8, 0x45u8, 0x4eu8, 0x47u8], info.engineers)
            + text_chunk(seq![0x49u8, 0x50u8, 0x52u8, 0x44u8], info.product)
            + text_chunk(seq![0x49u8, 0x43u8, 0x4fu8, 0x50u8], info.copyright)
            + text_chunk(seq![0x49u8, 0x43u8, 0x4du8, 0x54u8], info.comments)
            + text_chunk(seq![0x49u8, 0x53u8, 0x46u8, 0x54u8], info.software),
{
    let ids = seq![
        seq![0x69u8, 0x73u8, 0x6eu8, 0x67u8],
        seq![0x49u8, 0x4eu8, 0x41u8, 0x4du8],
        seq![0x69u8, 0x72u8, 0x6fu8, 0x6du8],
        seq![0x49u8, 0x43u8, 0x52u8, 0x44u8],
        seq![0x49u8, 0x45u8, 0x4eu8, 0x47u8],
        seq![0x49u8, 0x50u8, 0x52u8, 0x44u8],
        seq![0x49u8, 0x43u8, 0x4fu8, 0x50u8],
        seq![0x49u8, 0x43u8, 0x4du8, 0x54u8],
        seq![0x49u8, 0x53u8, 0x46u8, 0x54u8],
    ];
    let ts = seq![
        info.engine,
        info.name,
        info.rom_name,
        info.creation_date,
        info.engineers,
        info.product,
        info.copyright,
        info.comments,
        info.software,
    ];
    assert forall|k: int| 0 <= k < 9 implies ids_avoid(#[trigger] text_item(ids[k], ts[k]), ifil_tag())
        && flat(encodings(text_item(ids[k], ts[k]))) == text_chunk(ids[k], ts[k]) by {
        lemma_text_item(ids[k], ts[k]);
    }
    assert(text_item(ids[0], ts[0]) == text_item(seq![0x69u8, 0x73u8, 0x6eu8, 0x67u8], info.engine));
    assert(text_item(ids[1], ts[1]) == text_item(seq![0x49u8, 0x4eu8, 0x41u8, 0x4du8], info.name));
    assert(text_item(ids[2], ts[2]) == text_item(seq![0x69u8, 0x72u8, 0x6fu8, 0x6du8], info.rom_name));
    assert(text_item(ids[3], ts[3]) == text_item(seq![0x49u8, 0x43u8, 0x52u8, 0x44u8], info.creation_date));
    assert(text_item(ids[4], ts[4]) == text_item(seq![0x49u8, 0x45u8, 0x4eu8, 0x47u8], info.engineers));
    assert(text_item(ids[5], ts[5]) == text_item(seq![0x49u8, 0x50u8, 0x52u8, 0x44u8], info.product));
    assert(text_item(ids[6], ts[6]) == text_item(seq![0x49u8, 0x43u8, 0x4fu8, 0x50u8], info.copyright));
    assert(text_item(ids[7], ts[7]) == text_item(seq![0x49u8, 0x43u8, 0x4du8, 0x54u8], info.comments));
    assert(text_item(ids[8], ts[8]) == text_item(seq![0x49u8, 0x53u8, 0x46u8, 0x54u8], info.software));
    lemma_rom_version_item(info.rom_version);
    let x0 = text_item(ids[0], ts[0]);
    let x1 = text_item(ids[1], ts[1]);
    let x2 = text_item(ids[2], ts[2]);
    let x3 = rom_version_item(info.rom_version);
    let x4 = text_item(ids[3], ts[3]);
    let x5 = text_item(ids[4], ts[4]);
    let x6 = text_item(ids[5], ts[5]);
    let x7 = text_item(ids[6], ts[6]);
    let x8 = text_item(ids[7], ts[7]);
    let x9 = text_item(ids[8], ts[8]);
    lemma_fields_step(x0, x1, flat(encodings(x0)), flat(encodings(x1)));
    let y1 = x0 + x1;
    lemma_fields_step(y1, x2, flat(encodings(y1)), flat(encodings(x2)));
    let y2 = y1 + x2;
    lemma_fields_step(y2, x3, flat(encodings(y2)), flat(encodings(x3)));
    let y3 = y2 + x3;
    lemma_fields_step(y3, x4, flat(encodings(y3)), flat(encodings(x4)));
    let y4 = y3 + x4;
    lemma_fields_step(y4, x5, flat(encodings(y4)), flat(encodings(x5)));
    let y5 = y4 + x5;
    lemma_fields_step(y5, x6, flat(encodings(y5)), flat(encodings(x6)));
    let y6 = y5 + x6;
    lemma_fields_step(y6, x7, flat(encodings(y6)), flat(encodings(x7)));
    let y7 = y6 + x7;
    lemma_fields_step(y7, x8, flat(encodings(y7)), flat(encodings(x8)));
    let y8 = y7 + x8;
    lemma_fields_step(y8, x9, flat(encodings(y8)), flat(encodings(x9)));
    let y9 = y8 + x9;
    assert(info_fields(info) == y9);
}

/// The `INFO` records laid end to end are the body of the `INFO` list, and
/// only the first is a version record.
#[verifier::spinoff_prover]
#[verifier::rlimit(60)]
pub proof fn lemma_info_items(info: InfoModel)
    ensures
        flat(encodings(info_items(info))) == info_body(info),
        ids_avoid(info_fields(info), ifil_tag()),
        info_items(info)[0] == (ifil_tag(), version_bytes(sf3_version())),
        info_items(info).drop_first() == info_fields(info),
{
    lemma_info_fields(info);
    let v0 = seq![(ifil_tag(), version_bytes(sf3_version()))];
    lemma_encodings_one(ifil_tag(), version_bytes(sf3_version()));
    lemma_encodings_concat(v0, info_fields(info));
    assert(info_items(info).drop_first() =~= info_fields(info));
    let c0 = chunk_bytes(ifil_tag(), version_bytes(sf3_version()));
    let t1 = text_chunk(seq![0x69u8, 0x73u8, 0x6eu8, 0x67u8], info.engine);
    let t2 = text_chunk(seq![0x49u8, 0x4eu8, 0x41u8, 0x4du8], info.name);
    let t3 = text_chunk(seq![0x69u8, 0x72u8, 0x6fu8, 0x6du8], info.rom_name);
    let t4 = rom_version_chunk(info.rom_version);
    let t5 = text_chunk(seq![0x49u8, 0x43u8, 0x52u8, 0x44u8], info.creation_date);
    let t6 = text_chunk(seq![0x49u8, 0x45u8, 0x4eu8, 0x47u8], info.engineers);
    let t7 = text_chunk(seq![0x49u8, 0x50u8, 0x52u8, 0x44u8], info.product);
    let t8 = text_chunk(seq![0x49u8, 0x43u8, 0x4fu8, 0x50u8], info.copyright);
    let t9 = text_chunk(seq![0x49u8, 0x43u8, 0x4du8, 0x54u8], info.comments);
    let t10 = text_chunk(seq![0x49u8, 0x53u8, 0x46u8, 0x54u8], info.software);
    assert(info_body(info) == c0 + t1 + t2 + t3 + t4 + t5 + t6 + t7 + t8 + t9 + t10);
    let r2 = t1 + t2;
    assert(c0 + t1 + t2 =~= c0 + r2);
    let r3 = r2 + t3;
    assert(c0 + r2 + t3 =~= c0 + r3);
    let r4 = r3 + t4;
    assert(c0 + r3 + t4 =~= c0 + r4);
    let r5 = r4 + t5;
    assert(c0 + r4 + t5 =~= c0 + r5);
    let r6 = r5 + t6;
    assert(c0 + r5 + t6 =~= c0 + r6);
    let r7 = r6 + t7;
    assert(c0 + r6 + t7 =~= c0 + r7);
    let r8 = r7 + t8;
    assert(c0 + r7 + t8 =~= c0 + r8);
    let r9 = r8 + t9;
    assert(c0 + r8 + t9 =~= c0 + r9);
    let r10 = r9 + t10;
    assert(c0 + r9 + t10 =~= c0 + r10);
    assert(flat(encodings(info_fields(info))) == r10);
}

/// The metadata after the `INFO` records `cs`, applied in order.
#[verifier::opaque]
pub open spec fn info_fold(cs: Seq<(Seq<u8>, Seq<u8>)>) -> InfoModel
    decreases cs.len(),
{
    if cs.len() == 0 {
        empty_info()
    } else {
        info_update(info_fold(cs.drop_last()), cs.last().0, cs.last().1)
    }
}

/// Reading the `INFO` records laid out at `ps` applies them in order.
proof fn lemma_info_read(bytes: Seq<u8>, ps: Seq<int>, cs: Seq<(Seq<u8>, Seq<u8>)>, n: int)
    requires
        0 <= n <= ps.len(),
        ps.len() == cs.len(),
        forall|k: int|
            0 <= k < cs.len() ==> {
                &&& id_at(bytes, #[trigger] ps[k]) == cs[k].0
                &&& contents_ok(bytes, ps[k])
                &&& contents_at(bytes, ps[k]) == cs[k].1
            },
    ensures
        info_spec(bytes, ps.take(n)) == Ok::<InfoModel, crate::soundfont::error::ErrorModel>(
            info_fold(cs.take(n)),
        ),
    decreases n,
{
    reveal(info_fold);
    if n == 0 {
        assert(ps.take(0) =~= Seq::<int>::empty());
        assert(cs.take(0) =~= Seq::<(Seq<u8>, Seq<u8>)>::empty());
    } else {
        lemma_info_read(bytes, ps, cs, n - 1);
        assert(ps.take(n).drop_last() =~= ps.take(n - 1));
        assert(cs.take(n).drop_last() =~= cs.take(n - 1));
        assert(ps.take(n).last() == ps[n - 1]);
        assert(cs.take(n).last() == cs[n - 1]);
        assert(id_at(bytes, ps[n - 1]) == cs[n - 1].0);
    }
}

/// A text field as it reads back: the text the loader makes of its UTF-8
/// bytes and terminating NUL.
pub open spec fn text_read(s: Option<Seq<char>>) -> Option<Seq<char>> {
    match s {
        Some(t) => Some(crate::soundfont::hydra::zstr_spec(zstr_bytes(t))),
        None => None,
    }
}

/// The metadata read back from the `INFO` list written for `info`: the
/// `.sf3` version, the ROM version as written, and each text field as its
/// bytes read back.
pub open spec fn info_read(info: InfoModel) -> InfoModel {
    InfoModel {
        version: sf3_version(),
        engine: text_read(info.engine),
        name: text_read(info.name),
        rom_name: text_read(info.rom_name),
        rom_version: info.rom_version,
        creation_date: text_read(info.creation_date),
        engineers: text_read(info.engineers),
        product: text_read(info.product),
        copyright: text_read(info.copyright),
        comments: text_read(info.comments),
        software: text_read(info.software),
    }
}

/// Applying one more run of records.
proof fn lemma_fold_concat(a: Seq<(Seq<u8>, Seq<u8>)>, b: Seq<(Seq<u8>, Seq<u8>)>)
    requires
        b.len() <= 1,
    ensures
        info_fold(a + b) == if b.len() == 0 {
            info_fold(a)
        } else {
            info_update(info_fold(a), b[0].0, b[0].1)
        },
{
    reveal(info_fold);
    if b.len() == 0 {
        assert(a + b =~= a);
    } else {
        assert((a + b).drop_last() =~= a);
        assert((a + b).last() == b[0]);
    }
}

/// A version record reads back as the version written.
proof fn lemma_version_read(v: Version)
    ensures
        version_spec(version_bytes(v)) == v,
{
    let d = version_bytes(v);
    assert(d.subrange(0, 2) =~= crate::convert::hydra::le16_bytes(v.major));
    assert(d.subrange(2, 4) =~= crate::convert::hydra::le16_bytes(v.minor));
    crate::convert::round_trip::lemma_le16_read(d, 0, v.major);
    crate::convert::round_trip::lemma_le16_read(d, 2, v.minor);
}

/// What one record of each id written after the version record does to the
/// metadata: it sets its own field and leaves the others.
#[verifier::spinoff_prover]
proof fn lemma_info_updates(acc: InfoModel, d: Seq<u8>)
    ensures
        info_update(acc, seq![0x69u8, 0x73u8, 0x6eu8, 0x67u8], d) == (InfoModel {
            engine: Some(crate::soundfont::hydra::zstr_spec(d)),
            ..acc
        }),
        info_update(acc, seq![0x49u8, 0x4eu8, 0x41u8, 0x4du8], d) == (InfoModel {
            name: Some(crate::soundfont::hydra::zstr_spec(d)),
            ..acc
        }),
        info_update(acc, seq![0x69u8, 0x72u8, 0x6fu8, 0x6du8], d) == (InfoModel {
            rom_name: Some(crate::soundfont::hydra::zstr_spec(d)),
            ..acc
        }),
        info_update(acc, seq![0x69u8, 0x76u8, 0x65u8, 0x72u8], d) == (InfoModel {
            rom_version: Some(version_spec(d)),
            ..acc
        }),
        info_update(acc, seq![0x49u8, 0x43u8, 0x52u8, 0x44u8], d) == (InfoModel {
            creation_date: Some(crate::soundfont::hydra::zstr_spec(d)),
            ..acc
        }),
        info_update(acc, seq![0x49u8, 0x45u8, 0x4eu8, 0x47u8], d) == (InfoModel {
            engineers: Some(crate::soundfont::hydra::zstr_spec(d)),
            ..acc
        }),
        info_update(acc, seq![0x49u8, 0x50u8, 0x52u8, 0x44u8], d) == (InfoModel {
            product: Some(crate::soundfont::hydra::zstr_spec(d)),
            ..acc
        }),
        info_update(acc, seq![0x49u8, 0x43u8, 0x4fu8, 0x50u8], d) == (InfoModel {
            copyright: Some(crate::soundfont::hydra::zstr_spec(d)),
            ..acc
        }),
        info_update(acc, seq![0x49u8, 0x43u8, 0x4du8, 0x54u8], d) == (InfoModel {
            comments: Some(crate::soundfont::hydra::zstr_spec(d)),
            ..acc
        }),
        info_update(acc, seq![0x49u8, 0x53u8, 0x46u8, 0x54u8], d) == (InfoModel {
            software: Some(crate::soundfont::hydra::zstr_spec(d)),
            ..acc
        }),
{
    let ifil = ifil_tag();
    let isng = seq![0x69u8, 0x73u8, 0x6eu8, 0x67u8];
    let inam = seq![0x49u8, 0x4eu8, 0x41u8, 0x4du8];
    let irom = seq![0x69u8, 0x72u8, 0x6fu8, 0x6du8];
    let iver = seq![0x69u8, 0x76u8, 0x65u8, 0x72u8];
    let icrd = seq![0x49u8, 0x43u8, 0x52u8, 0x44u8];
    let ieng = seq![0x49u8, 0x45u8, 0x4eu8, 0x47u8];
    let iprd = seq![0x49u8, 0x50u8, 0x52u8, 0x44u8];
    let icop = seq![0x49u8, 0x43u8, 0x4fu8, 0x50u8];
    let icmt = seq![0x49u8, 0x43u8, 0x4du8, 0x54u8];
    let isft = seq![0x49u8, 0x53u8, 0x46u8, 0x54u8];
    // The second byte and the last tell the eleven ids apart.
    assert(ifil[1] == 0x66 && ifil[3] == 0x6c);
    assert(isng[1] == 0x73 && isng[3] == 0x67);
    assert(inam[1] == 0x4e && inam[3] == 0x4d);
    assert(irom[1] == 0x72 && irom[3] == 0x6d);
    assert(iver[1] == 0x76 && iver[3] == 0x72);
    assert(icrd[1] == 0x43 && icrd[3] == 0x44);
    assert(ieng[1] == 0x45 && ieng[3] == 0x47);
    assert(iprd[1] == 0x50 && iprd[3] == 0x44);
    assert(icop[1] == 0x43 && icop[3] == 0x50);
    assert(icmt[1] == 0x43 && icmt[3] == 0x54);
    assert(isft[1] == 0x53 && isft[3] == 0x54);
}

/// The ids of the text records, in the order they are written.
pub open spec fn text_tags() -> Seq<Seq<u8>> {
    seq![
        seq![0x69u8, 0x73u8, 0x6eu8, 0x67u8],
        seq![0x49u8, 0x4eu8, 0x41u8, 0x4du8],
        seq![0x69u8, 0x72u8, 0x6fu8, 0x6du8],
        seq![0x49u8, 0x43u8, 0x52u8, 0x44u8],
        seq![0x49u8, 0x45u8, 0x4eu8, 0x47u8],
        seq![0x49u8, 0x50u8, 0x52u8, 0x44u8],
        seq![0x49u8, 0x43u8, 0x4fu8, 0x50u8],
        seq![0x49u8, 0x43u8, 0x4du8, 0x54u8],
        seq![0x49u8, 0x53u8, 0x46u8, 0x54u8],
    ]
}

/// The metadata with text field `k` (in the order of `text_tags`) set to `v`.
pub open spec fn set_text(acc: InfoModel, k: int, v: Option<Seq<char>>) -> InfoModel {
    if k == 0 {
        InfoModel { engine: v, ..acc }
    } else if k == 1 {
        InfoModel { name: v, ..acc }
    } else if k == 2 {
        InfoModel { rom_name: v, ..acc }
    } else if k == 3 {
        InfoModel { creation_date: v, ..acc }
    } else if k == 4 {
        InfoModel { engineers: v, ..acc }
    } else if k == 5 {
        InfoModel { product: v, ..acc }
    } else if k == 6 {
        InfoModel { copyright: v, ..acc }
    } else if k == 7 {
        InfoModel { comments: v, ..acc }
    } else {
        InfoModel { software: v, ..acc }
    }
}

/// One text field more: a present field sets its own entry to the text its
/// bytes read back as.
proof fn lemma_text_step(a: Seq<(Seq<u8>, Seq<u8>)>, k: int, s: Option<Seq<char>>)
    requires
        0 <= k < 9,
    ensures
        info_fold(a + text_item(text_tags()[k], s)) == match s {
            Some(t) => set_text(info_fold(a), k, text_read(s)),
            None => info_fold(a),
        },
{
    lemma_fold_concat(a, text_item(text_tags()[k], s));
    match s {
        Some(t) => {
            lemma_info_updates(info_fold(a), zstr_bytes(t));
        },
        None => {},
    }
}

/// The optional ROM version record.
proof fn lemma_rom_version_step(a: Seq<(Seq<u8>, Seq<u8>)>, v: Option<Version>)
    ensures
        info_fold(a + rom_version_item(v)) == (InfoModel { rom_version: v, ..info_fold(a) })
            || (v is None && info_fold(a + rom_version_item(v)) == info_fold(a)),
{
    lemma_fold_concat(a, rom_version_item(v));
    match v {
        Some(x) => {
            lemma_info_updates(info_fold(a), version_bytes(x));
            lemma_version_read(x);
        },
        None => {},
    }
}

/// The version record alone.
proof fn lemma_fold_version()
    ensures
        info_fold(seq![(ifil_tag(), version_bytes(sf3_version()))]) == (InfoModel {
            version: sf3_version(),
            ..empty_info()
        }),
{
    let x0 = seq![(ifil_tag(), version_bytes(sf3_version()))];
    reveal(info_fold);
    assert(x0.drop_last() =~= Seq::<(Seq<u8>, Seq<u8>)>::empty());
    assert(x0.last() == (ifil_tag(), version_bytes(sf3_version())));
    assert(info_fold(Seq::<(Seq<u8>, Seq<u8>)>::empty()) == empty_info());
    lemma_version_read(sf3_version());
}

/// The `INFO` records written, one run after another from the version
/// record on.
#[verifier::spinoff_prover]
proof fn lemma_items_chain(info: InfoModel)
    ensures
        info_items(info) == seq![(ifil_tag(), version_bytes(sf3_version()))]
            + text_item(text_tags()[0], info.engine)
            + text_item(text_tags()[1], info.name)
            + text_item(text_tags()[2], info.rom_name)
            + rom_version_item(info.rom_version)
            + text_item(text_tags()[3], info.creation_date)
            + text_item(text_tags()[4], info.engineers)
            + text_item(text_tags()[5], info.product)
            + text_item(text_tags()[6], info.copyright)
            + text_item(text_tags()[7], info.comments)
            + text_item(text_tags()[8], info.software),
{
    let t = text_tags();
    let x0 = seq![(ifil_tag(), version_bytes(sf3_version()))];
    let x1 = text_item(t[0], info.engine);
    let x2 = text_item(t[1], info.name);
    let x3 = text_item(t[2], info.rom_name);
    let x4 = rom_version_item(info.rom_version);
    let x5 = text_item(t[3], info.creation_date);
    let x6 = text_item(t[4], info.engineers);
    let x7 = text_item(t[5], info.product);
    let x8 = text_item(t[6], info.copyright);
    let x9 = text_item(t[7], info.comments);
    let x10 = text_item(t[8], info.software);
    assert(info_fields(info) == x1 + x2 + x3 + x4 + x5 + x6 + x7 + x8 + x9 + x10);
    lemma_assoc(x0, x1, x2);
    let r2 = x1 + x2;
    lemma_assoc(x0, r2, x3);
    let r3 = r2 + x3;
    lemma_assoc(x0, r3, x4);
    let r4 = r3 + x4;
    lemma_assoc(x0, r4, x5);
    let r5 = r4 + x5;
    lemma_assoc(x0, r5, x6);
    let r6 = r5 + x6;
    lemma_assoc(x0, r6, x7);
    let r7 = r6 + x7;
    lemma_assoc(x0, r7, x8);
    let r8 = r7 + x8;
    lemma_assoc(x0, r8, x9);
    let r9 = r8 + x9;
    lemma_assoc(x0, r9, x10);
}

/// Runs of records concatenate associatively.
proof fn lemma_assoc(a: Seq<(Seq<u8>, Seq<u8>)>, b: Seq<(Seq<u8>, Seq<u8>)>, c: Seq<(Seq<u8>, Seq<u8>)>)
    ensures
        a + b + c == a + (b + c),
{
    assert(a + b + c =~= a + (b + c));
}

/// The metadata the `INFO` records written for `info` make, applied in
/// order, is `info_read(info)`.
#[verifier::spinoff_prover]
#[verifier::rlimit(40)]
proof fn lemma_info_fold(info: InfoModel)
    ensures
        info_fold(info_items(info)) == info_read(info),
{
    let t = text_tags();
    let x0 = seq![(ifil_tag(), version_bytes(sf3_version()))];
    lemma_fold_version();
    let y1 = x0 + text_item(t[0], info.engine);
    lemma_text_step(x0, 0, info.engine);
    let y2 = y1 + text_item(t[1], info.name);
    lemma_text_step(y1, 1, info.name);
    let y3 = y2 + text_item(t[2], info.rom_name);
    lemma_text_step(y2, 2, info.rom_name);
    let y4 = y3 + rom_version_item(info.rom_version);
    lemma_rom_version_step(y3, info.rom_version);
    let y5 = y4 + text_item(t[3], info.creation_date);
    lemma_text_step(y4, 3, info.creation_date);
    let y6 = y5 + text_item(t[4], info.engineers);
    lemma_text_step(y5, 4, info.engineers);
    let y7 = y6 + text_item(t[5], info.product);
    lemma_text_step(y6, 5, info.product);
    let y8 = y7 + text_item(t[6], info.copyright);
    lemma_text_step(y7, 6, info.copyright);
    let y9 = y8 + text_item(t[7], info.comments);
    lemma_text_step(y8, 7, info.comments);
    let y10 = y9 + text_item(t[8], info.software);
    lemma_text_step(y9, 8, info.software);
    lemma_items_chain(info);
}

/// The ids of the nine `pdta` chunks, in the order they are written.
pub open spec fn pdta_tags() -> Seq<Seq<u8>> {
    seq![
        seq![0x70u8, 0x68u8, 0x64u8, 0x72u8],
        seq![0x70u8, 0x62u8, 0x61u8, 0x67u8],
        seq![0x70u8, 0x6du8, 0x6fu8, 0x64u8],
        seq![0x70u8, 0x67u8, 0x65u8, 0x6eu8],
        seq![0x69u8, 0x6eu8, 0x73u8, 0x74u8],
        seq![0x69u8, 0x62u8, 0x61u8, 0x67u8],
        seq![0x69u8, 0x6du8, 0x6fu8, 0x64u8],
        seq![0x69u8, 0x67u8, 0x65u8, 0x6eu8],
        seq![0x73u8, 0x68u8, 0x64u8, 0x72u8],
    ]
}

/// The nine `pdta` chunks as written.
pub open spec fn pdta_items(
    presets: (Seq<u8>, Seq<u8>, Seq<u8>, Seq<u8>),
    instruments: (Seq<u8>, Seq<u8>, Seq<u8>, Seq<u8>),
    shdr: Seq<u8>,
) -> Seq<(Seq<u8>, Seq<u8>)> {
    seq![
        (pdta_tags()[0], presets.0),
        (pdta_tags()[1], presets.1),
        (pdta_tags()[2], presets.2),
        (pdta_tags()[3], presets.3),
        (pdta_tags()[4], instruments.0),
        (pdta_tags()[5], instruments.1),
        (pdta_tags()[6], instruments.2),
        (pdta_tags()[7], instruments.3),
        (pdta_tags()[8], shdr),
    ]
}

/// The nine ids differ from each other.
pub proof fn lemma_pdta_tags()
    ensures
        pdta_tags().len() == 9,
        forall|k: int| 0 <= k < 9 ==> (#[trigger] pdta_tags()[k]).len() == 4,
        forall|j: int, k: int| 0 <= j < 9 && 0 <= k < 9 && j != k ==> pdta_tags()[j] != pdta_tags()[k],
{
    let t = pdta_tags();
    assert forall|j: int, k: int| 0 <= j < 9 && 0 <= k < 9 && j != k implies t[j] != t[k] by {
        if t[j] == t[k] {
            assert(t[j][0] == t[k][0]);
            assert(t[j][1] == t[k][1]);
        }
    }
}

/// The nine `pdta` chunks laid end to end are the body of the `pdta` list.
#[verifier::rlimit(40)]
pub proof fn lemma_pdta_items(
    presets: (Seq<u8>, Seq<u8>, Seq<u8>, Seq<u8>),
    instruments: (Seq<u8>, Seq<u8>, Seq<u8>, Seq<u8>),
    shdr: Seq<u8>,
)
    ensures
        flat(encodings(pdta_items(presets, instruments, shdr))) == pdta_body(presets, instruments, shdr),
        pdta_items(presets, instruments, shdr).len() == 9,
        forall|k: int| 0 <= k < 9 ==> (#[trigger] pdta_items(presets, instruments, shdr)[k]).0 == pdta_tags()[k],
{
    let cs = pdta_items(presets, instruments, shdr);
    let es = encodings(cs);
    lemma_pdta_tags();
    assert(es.take(0) =~= Seq::<Seq<u8>>::empty());
    assert(flat(Seq::<Seq<u8>>::empty()) =~= Seq::<u8>::empty());
    lemma_flat_prefix(es, 0);
    lemma_flat_prefix(es, 1);
    lemma_flat_prefix(es, 2);
    lemma_flat_prefix(es, 3);
    lemma_flat_prefix(es, 4);
    lemma_flat_prefix(es, 5);
    lemma_flat_prefix(es, 6);
    lemma_flat_prefix(es, 7);
    lemma_flat_prefix(es, 8);
    assert(es.take(9) =~= es);
    assert(flat(es.take(1)) =~= es[0]);
    assert(flat(es) == es[0] + es[1] + es[2] + es[3] + es[4] + es[5] + es[6] + es[7] + es[8]);
}

/// The last chunk among `ps` with id `name` is the one at `k` when no later
/// one has that id.
pub proof fn lemma_last_with(bytes: Seq<u8>, ps: Seq<int>, name: Seq<u8>, k: int)
    requires
        0 <= k < ps.len(),
        id_at(bytes, ps[k]) == name,
        forall|j: int| k < j < ps.len() ==> id_at(bytes, #[trigger] ps[j]) != name,
    ensures
        last_with(bytes, ps, name) == Some(k),
    decreases ps.len(),
{
    if k < ps.len() - 1 {
        assert(id_at(bytes, ps[ps.len() - 1]) != name);
        let q = ps.drop_last();
        assert forall|j: int| k < j < q.len() implies id_at(bytes, #[trigger] q[j]) != name by {
            assert(q[j] == ps[j]);
        }
        lemma_last_with(bytes, q, name, k);
    }
}

/// One hydra array found among the `pdta` children: the chunk at index `k`
/// is the only one with its id, so its records are the array.
proof fn lemma_part_at<T: HydraRecord>(
    bytes: Seq<u8>,
    ps: Seq<int>,
    cs: Seq<(Seq<u8>, Seq<u8>)>,
    k: int,
    msg: Seq<char>,
    size: int,
)
    requires
        ps.len() == cs.len() == 9,
        0 <= k < 9,
        size > 0,
        forall|j: int| 0 <= j < 9 ==> (#[trigger] cs[j]).0 == pdta_tags()[j],
        forall|j: int|
            0 <= j < 9 ==> {
                &&& id_at(bytes, #[trigger] ps[j]) == cs[j].0
                &&& contents_at(bytes, ps[j]) == cs[j].1
            },
        (cs[k].1.len() as int) % size == 0,
    ensures
        part_spec::<T>(bytes, ps, pdta_tags()[k], msg, size) == Ok::<Seq<T::Model>, crate::soundfont::error::ErrorModel>(
            records_spec::<T>(cs[k].1, size),
        ),
{
    lemma_pdta_tags();
    assert forall|j: int| k < j < ps.len() implies id_at(bytes, #[trigger] ps[j]) != pdta_tags()[k] by {
        assert(id_at(bytes, ps[j]) == pdta_tags()[j]);
    }
    lemma_last_with(bytes, ps, pdta_tags()[k], k);
}

/// The `pdta` children written read back as the nine arrays.
#[verifier::rlimit(40)]
pub proof fn lemma_hydra_read(
    bytes: Seq<u8>,
    ps: Seq<int>,
    presets: (Seq<u8>, Seq<u8>, Seq<u8>, Seq<u8>),
    instruments: (Seq<u8>, Seq<u8>, Seq<u8>, Seq<u8>),
    shdr: Seq<u8>,
)
    requires
        ps.len() == 9,
        forall|j: int|
            0 <= j < 9 ==> {
                &&& id_at(bytes, #[trigger] ps[j]) == pdta_items(presets, instruments, shdr)[j].0
                &&& contents_ok(bytes, ps[j])
                &&& contents_at(bytes, ps[j]) == pdta_items(presets, instruments, shdr)[j].1
            },
        (presets.0.len() as int) % 38 == 0,
        (presets.1.len() as int) % 4 == 0,
        (presets.2.len() as int) % 10 == 0,
        (presets.3.len() as int) % 4 == 0,
        (instruments.0.len() as int) % 22 == 0,
        (instruments.1.len() as int) % 4 == 0,
        (instruments.2.len() as int) % 10 == 0,
        (instruments.3.len() as int) % 4 == 0,
        (shdr.len() as int) % 46 == 0,
    ensures
        hydra_spec(bytes, ps) == Ok::<HydraModel, crate::soundfont::error::ErrorModel>(
            HydraModel {
                phdr: records_spec::<PresetHeader>(presets.0, 38),
                pbag: records_spec::<Bag>(presets.1, 4),
                pmod: records_spec::<ModRecord>(presets.2, 10),
                pgen: records_spec::<GenRecord>(presets.3, 4),
                inst: records_spec::<InstHeader>(instruments.0, 22),
                ibag: records_spec::<Bag>(instruments.1, 4),
                imod: records_spec::<ModRecord>(instruments.2, 10),
                igen: records_spec::<GenRecord>(instruments.3, 4),
                shdr: records_spec::<SampleHeader>(shdr, 46),
            },
        ),
{
    let cs = pdta_items(presets, instruments, shdr);
    lemma_pdta_items(presets, instruments, shdr);
    assert(forall|j: int| 0 <= j < ps.len() ==> contents_ok(bytes, #[trigger] ps[j]));
    lemma_part_at::<PresetHeader>(bytes, ps, cs, 0, "missing 'phdr' chunk"@, 38);
    lemma_part_at::<Bag>(bytes, ps, cs, 1, "missing 'pbag' chunk"@, 4);
    lemma_part_at::<ModRecord>(bytes, ps, cs, 2, "missing 'pmod' chunk"@, 10);
    lemma_part_at::<GenRecord>(bytes, ps, cs, 3, "missing 'pgen' chunk"@, 4);
    lemma_part_at::<InstHeader>(bytes, ps, cs, 4, "missing 'inst' chunk"@, 22);
    lemma_part_at::<Bag>(bytes, ps, cs, 5, "missing 'ibag' chunk"@, 4);
    lemma_part_at::<ModRecord>(bytes, ps, cs, 6, "missing 'imod' chunk"@, 10);
    lemma_part_at::<GenRecord>(bytes, ps, cs, 7, "missing 'igen' chunk"@, 4);
    lemma_part_at::<SampleHeader>(bytes, ps, cs, 8, "missing 'shdr' chunk"@, 46);
}

/// A run of records is what its first `k` records lay down, then the rest.
pub proof fn lemma_flat_split(s: Seq<Seq<u8>>, k: int)
    requires
        0 <= k <= s.len(),
    ensures
        flat(s) == flat(s.take(k)) + flat(s.skip(k)),
        flat(s).subrange(0, flat(s.take(k)).len() as int) == flat(s.take(k)),
{
    assert(s.take(k) + s.skip(k) =~= s);
    lemma_flat_concat(s.take(k), s.skip(k));
    assert(flat(s).subrange(0, flat(s.take(k)).len() as int) =~= flat(s.take(k)));
}

/// Stream `i` is the byte range its region names in the pool.
pub proof fn lemma_stream_in_pool(streams: Seq<Seq<u8>>, i: int)
    requires
        0 <= i < streams.len(),
    ensures
        stream_offset(streams, i) + streams[i].len() == stream_offset(streams, i + 1),
        stream_offset(streams, i + 1) <= flat(streams).len(),
        flat(streams).subrange(stream_offset(streams, i), stream_offset(streams, i + 1)) == streams[i],
{
    lemma_flat_prefix(streams, i);
    lemma_flat_split(streams, i + 1);
    let a = flat(streams.take(i)).len() as int;
    let b = flat(streams.take(i + 1)).len() as int;
    assert(flat(streams).subrange(a, b) =~= flat(streams.take(i + 1)).subrange(a, b));
    assert(flat(streams.take(i + 1)).subrange(a, b) =~= streams[i]);
}

/// The audio a stream decodes to.
pub open spec fn decoded(stream: Seq<u8>) -> Seq<i16> {
    vorbis_pcm(vorbis_packets(stream)->0)
}

/// Every stream is one the decoder reads.
pub open spec fn all_decode(streams: Seq<Seq<u8>>) -> bool {
    forall|k: int| 0 <= k < streams.len() ==> (#[trigger] vorbis_packets(streams[k])) is Some
}

/// Reading the written sample headers against the pool of streams: from `i`
/// on, each sample's audio is its own stream, decoded.
proof fn lemma_samples_decoded(ss: Seq<SampleModel>, streams: Seq<Seq<u8>>, i: int)
    requires
        ss.len() == streams.len(),
        flat(streams).len() <= u32::MAX,
        all_decode(streams),
        0 <= i <= ss.len(),
    ensures
        samples_from(
            records_spec::<SampleHeader>(shdr_array(ss, regions_spec(ss, streams)), 46),
            flat(streams),
            i,
        ) matches Ok(out) && out.len() == ss.len() - i && forall|j: int|
            0 <= j < out.len() ==> (#[trigger] out[j]).data == decoded(streams[i + j]),
    decreases ss.len() - i,
{
    let rs = regions_spec(ss, streams);
    let hs = records_spec::<SampleHeader>(shdr_array(ss, rs), 46);
    let pool = flat(streams);
    lemma_shdr_array_read(ss, rs);
    if i < ss.len() {
        lemma_samples_decoded(ss, streams, i + 1);
        lemma_stream_in_pool(streams, i);
        let h = hs[i];
        assert(h == shdr_model(ss[i], rs[i]));
        let b = sample_type_bits(ss[i].kind);
        assert((b | 0x10u16) & 0x10u16 != 0) by (bit_vector);
        assert(h.sample_type & SAMPLE_TYPE_COMPRESSED != 0);
        assert(h.start == stream_offset(streams, i));
        assert(h.end == stream_offset(streams, i + 1));
        assert(pool.subrange(h.start as int, h.end as int) == streams[i]);
        assert(vorbis_packets(streams[i]) is Some);
        let s0 = sample_spec(h, pool);
        assert(s0 matches Ok(x) && x.data == decoded(streams[i]));
        let rest = samples_from(hs, pool, i + 1)->Ok_0;
        let out = samples_from(hs, pool, i)->Ok_0;
        assert(out == seq![s0->Ok_0] + rest);
        assert forall|j: int| 0 <= j < out.len() implies (#[trigger] out[j]).data == decoded(
            streams[i + j],
        ) by {
            if j > 0 {
                assert(out[j] == rest[j - 1]);
            }
        }
    } else {
        assert(hs.len() == ss.len() + 1);
    }
}

/// The id of a `LIST` chunk.
pub open spec fn list_tag() -> Seq<u8> {
    seq![0x4cu8, 0x49u8, 0x53u8, 0x54u8]
}

/// The three lists of an `.sf3` file, as chunks: `INFO`, `sdta`, `pdta`.
pub open spec fn top_items(sf: SoundFontModel, streams: Seq<Seq<u8>>) -> Seq<(Seq<u8>, Seq<u8>)> {
    seq![
        (list_tag(), seq![0x49u8, 0x4eu8, 0x46u8, 0x4fu8] + info_body(sf.info)),
        (list_tag(), seq![0x73u8, 0x64u8, 0x74u8, 0x61u8] + chunk_bytes(seq![0x73u8, 0x6du8, 0x70u8, 0x6cu8], flat(streams))),
        (
            list_tag(),
            seq![0x70u8, 0x64u8, 0x74u8, 0x61u8] + pdta_body(
                presets_arrays(sf.presets),
                instruments_arrays(sf.instruments),
                shdr_array(sf.samples, regions_spec(sf.samples, streams)),
            ),
        ),
    ]
}

/// Three chunks after a form type.
proof fn lemma_three_chunks(f: Seq<u8>, t: Seq<(Seq<u8>, Seq<u8>)>)
    requires
        t.len() == 3,
    ensures
        f + chunk_bytes(t[0].0, t[0].1) + chunk_bytes(t[1].0, t[1].1) + chunk_bytes(t[2].0, t[2].1)
            == f + flat(encodings(t)),
{
    let a = seq![t[0]];
    let b = seq![t[1]];
    let c = seq![t[2]];
    assert(t =~= a + b + c);
    lemma_encodings_one(t[0].0, t[0].1);
    lemma_encodings_one(t[1].0, t[1].1);
    lemma_encodings_one(t[2].0, t[2].1);
    lemma_encodings_concat(a, b);
    lemma_encodings_concat(a + b, c);
    let l0 = chunk_bytes(t[0].0, t[0].1);
    let l1 = chunk_bytes(t[1].0, t[1].1);
    let l2 = chunk_bytes(t[2].0, t[2].1);
    assert(f + l0 + l1 + l2 =~= f + (l0 + l1 + l2));
}

/// The body of the `RIFF` chunk is the form type, then the three lists.
#[verifier::spinoff_prover]
proof fn lemma_top_items(sf: SoundFontModel, streams: Seq<Seq<u8>>)
    ensures
        sf3_body(sf, streams) == seq![0x73u8, 0x66u8, 0x62u8, 0x6bu8] + flat(encodings(top_items(sf, streams))),
{
    let t = top_items(sf, streams);
    lemma_three_chunks(seq![0x73u8, 0x66u8, 0x62u8, 0x6bu8], t);
}

/// The loader finds the `INFO`, `sdta` and `pdta` lists at the three
/// offsets `ps`, in that order.
#[verifier::opaque]
pub open spec fn lists_found(bytes: Seq<u8>, ps: Seq<int>) -> bool {
    lists_spec(bytes, ps) == Ok::<(Option<int>, Option<int>, Option<int>), crate::soundfont::error::ErrorModel>(
        (Some(ps[0]), Some(ps[1]), Some(ps[2])),
    )
}

/// The lists among the children of the `RIFF` chunk are found where they
/// were written.
proof fn lemma_lists_found(bytes: Seq<u8>, ps: Seq<int>)
    requires
        ps.len() == 3,
        forall|k: int|
            0 <= k < 3 ==> id_at(bytes, #[trigger] ps[k]) == list_tag() && 0 <= ps[k] && ps[k] + 12
                <= bytes.len(),
        bytes.subrange(ps[0] + 8, ps[0] + 12) == seq![0x49u8, 0x4eu8, 0x46u8, 0x4fu8],
        bytes.subrange(ps[1] + 8, ps[1] + 12) == seq![0x73u8, 0x64u8, 0x74u8, 0x61u8],
        bytes.subrange(ps[2] + 8, ps[2] + 12) == seq![0x70u8, 0x64u8, 0x74u8, 0x61u8],
    ensures
        lists_found(bytes, ps),
{
    reveal(lists_found);
    let info = seq![0x49u8, 0x4eu8, 0x46u8, 0x4fu8];
    let sdta = seq![0x73u8, 0x64u8, 0x74u8, 0x61u8];
    let pdta = seq![0x70u8, 0x64u8, 0x74u8, 0x61u8];
    assert(sdta != info) by {
        assert(sdta[0] != info[0]);
    }
    assert(pdta != info) by {
        assert(pdta[0] != info[0]);
    }
    assert(pdta != sdta) by {
        assert(pdta[0] != sdta[0]);
    }
    let p1 = ps.take(1);
    let p2 = ps.take(2);
    assert(p1.drop_last() =~= Seq::<int>::empty());
    assert(p2.drop_last() =~= p1);
    assert(ps.drop_last() =~= p2);
    assert(p1.last() == ps[0]);
    assert(p2.last() == ps[1]);
    assert(lists_spec(bytes, Seq::<int>::empty()) == Ok::<(Option<int>, Option<int>, Option<int>), crate::soundfont::error::ErrorModel>(
        (None, None, None),
    ));
    assert(id_at(bytes, ps[0]) == list_tag());
    assert(id_at(bytes, ps[1]) == list_tag());
    assert(id_at(bytes, ps[2]) == list_tag());
    assert(lists_spec(bytes, p1) == Ok::<(Option<int>, Option<int>, Option<int>), crate::soundfont::error::ErrorModel>(
        (Some(ps[0]), None, None),
    ));
    assert(lists_spec(bytes, p2) == Ok::<(Option<int>, Option<int>, Option<int>), crate::soundfont::error::ErrorModel>(
        (Some(ps[0]), Some(ps[1]), None),
    ));
}

/// The tag of the sample pool chunk.
pub open spec fn smpl_tag() -> Seq<u8> {
    seq![0x73u8, 0x6du8, 0x70u8, 0x6cu8]
}

/// A list among the children of the list at `q`, laid out from its own
/// chunks.
#[verifier::spinoff_prover]
proof fn lemma_inner(
    bytes: Seq<u8>,
    q: int,
    tops: Seq<(Seq<u8>, Seq<u8>)>,
    k: int,
    kind: Seq<u8>,
    cs: Seq<(Seq<u8>, Seq<u8>)>,
)
    requires
        laid_out(bytes, q, tops),
        0 <= q,
        0 <= k < tops.len(),
        kind.len() == 4,
        tops[k] == (list_tag(), kind + flat(encodings(cs))),
        forall|j: int| 0 <= j < cs.len() ==> (#[trigger] cs[j]).0.len() == 4,
        4 + flat(encodings(cs)).len() <= u32::MAX,
    ensures
        ({
            let p = offsets(q + 12, encodings(tops))[k];
            &&& 0 <= p
            &&& p + 12 <= bytes.len()
            &&& id_at(bytes, p) == list_tag()
            &&& bytes.subrange(p + 8, p + 12) == kind
            &&& laid_out(bytes, p, cs)
        }),
{
    lemma_child(bytes, q, tops, k);
    let p = offsets(q + 12, encodings(tops))[k];
    lemma_list_at(bytes, p, list_tag(), kind, cs);
}

/// The file starts with a `RIFF` header of form `sfbk`.
#[verifier::opaque]
pub open spec fn sfbk_header(bytes: Seq<u8>) -> bool {
    &&& bytes.len() >= 12
    &&& id_at(bytes, 0) == seq![0x52u8, 0x49u8, 0x46u8, 0x46u8]
    &&& bytes.subrange(8, 12) == seq![0x73u8, 0x66u8, 0x62u8, 0x6bu8]
}

/// A `RIFF` chunk of form `sfbk` holding an `INFO`, an `sdta` and a
/// `pdta` list, each laid out from its own chunks: the loader finds the
/// three lists, and the children of each.
#[verifier::spinoff_prover]
#[verifier::rlimit(60)]
proof fn lemma_file_lists(
    bytes: Seq<u8>,
    info_cs: Seq<(Seq<u8>, Seq<u8>)>,
    sdta_cs: Seq<(Seq<u8>, Seq<u8>)>,
    pdta_cs: Seq<(Seq<u8>, Seq<u8>)>,
) -> (ps: Seq<int>)
    requires
        forall|k: int| 0 <= k < info_cs.len() ==> (#[trigger] info_cs[k]).0.len() == 4,
        forall|k: int| 0 <= k < sdta_cs.len() ==> (#[trigger] sdta_cs[k]).0.len() == 4,
        forall|k: int| 0 <= k < pdta_cs.len() ==> (#[trigger] pdta_cs[k]).0.len() == 4,
        ({
            let tops = seq![
                (list_tag(), seq![0x49u8, 0x4eu8, 0x46u8, 0x4fu8] + flat(encodings(info_cs))),
                (list_tag(), seq![0x73u8, 0x64u8, 0x74u8, 0x61u8] + flat(encodings(sdta_cs))),
                (list_tag(), seq![0x70u8, 0x64u8, 0x74u8, 0x61u8] + flat(encodings(pdta_cs))),
            ];
            &&& 4 + flat(encodings(tops)).len() <= u32::MAX
            &&& bytes == chunk_bytes(
                seq![0x52u8, 0x49u8, 0x46u8, 0x46u8],
                seq![0x73u8, 0x66u8, 0x62u8, 0x6bu8] + flat(encodings(tops)),
            )
        }),
    ensures
        sfbk_header(bytes),
        list_children(bytes, 0) == Some(ps),
        ps.len() == 3,
        0 <= ps[1],
        0 <= ps[2],
        lists_found(bytes, ps),
        laid_out(bytes, ps[0], info_cs),
        laid_out(bytes, ps[1], sdta_cs),
        laid_out(bytes, ps[2], pdta_cs),
{
    let info_kind = seq![0x49u8, 0x4eu8, 0x46u8, 0x4fu8];
    let sdta_kind = seq![0x73u8, 0x64u8, 0x74u8, 0x61u8];
    let pdta_kind = seq![0x70u8, 0x64u8, 0x74u8, 0x61u8];
    let tops = seq![
        (list_tag(), info_kind + flat(encodings(info_cs))),
        (list_tag(), sdta_kind + flat(encodings(sdta_cs))),
        (list_tag(), pdta_kind + flat(encodings(pdta_cs))),
    ];
    let riff = seq![0x52u8, 0x49u8, 0x46u8, 0x46u8];
    let sfbk = seq![0x73u8, 0x66u8, 0x62u8, 0x6bu8];
    assert(forall|k: int| 0 <= k < 3 ==> (#[trigger] tops[k]).0.len() == 4);
    assert(bytes.subrange(0, bytes.len() as int) =~= bytes);
    lemma_list_at(bytes, 0, riff, sfbk, tops);
    lemma_children(bytes, 0, tops);
    let ps = offsets(12, encodings(tops));
    lemma_chunks_ok(tops);
    assert(chunk_ok(tops[0]) && chunk_ok(tops[1]) && chunk_ok(tops[2]));
    lemma_inner(bytes, 0, tops, 0, info_kind, info_cs);
    lemma_inner(bytes, 0, tops, 1, sdta_kind, sdta_cs);
    lemma_inner(bytes, 0, tops, 2, pdta_kind, pdta_cs);
    assert(id_at(bytes, ps[0]) == list_tag());
    assert(id_at(bytes, ps[1]) == list_tag());
    assert(id_at(bytes, ps[2]) == list_tag());
    assert(bytes.subrange(ps[0] + 8, ps[0] + 12) === info_kind);
    assert(bytes.subrange(ps[1] + 8, ps[1] + 12) === sdta_kind);
    assert(bytes.subrange(ps[2] + 8, ps[2] + 12) === pdta_kind);
    assert forall|k: int| 0 <= k < 3 implies id_at(bytes, #[trigger] ps[k]) === list_tag() && 0 <= ps[k]
        && ps[k] + 12 <= bytes.len() by {
        if k == 0 {
        } else if k == 1 {
        } else {
        }
    }
    lemma_lists_found(bytes, ps);
    reveal(sfbk_header);
    ps
}

/// The hydra arrays written for `sf` with its samples at the regions of
/// `streams`, as the loader decodes them.
pub open spec fn written_hydra(sf: SoundFontModel, streams: Seq<Seq<u8>>) -> HydraModel {
    let pa = presets_arrays(sf.presets);
    let ia = instruments_arrays(sf.instruments);
    HydraModel {
        phdr: records_spec::<PresetHeader>(pa.0, 38),
        pbag: records_spec::<Bag>(pa.1, 4),
        pmod: records_spec::<ModRecord>(pa.2, 10),
        pgen: records_spec::<GenRecord>(pa.3, 4),
        inst: records_spec::<InstHeader>(ia.0, 22),
        ibag: records_spec::<Bag>(ia.1, 4),
        imod: records_spec::<ModRecord>(ia.2, 10),
        igen: records_spec::<GenRecord>(ia.3, 4),
        shdr: records_spec::<SampleHeader>(shdr_array(sf.samples, regions_spec(sf.samples, streams)), 46),
    }
}

/// The file `bytes` is laid out as the writer lays out `sf` with
/// `streams`: a `RIFF` header of form `sfbk`, and the `INFO`, `sdta` and
/// `pdta` lists at `ps`, each holding the chunks written.
#[verifier::opaque]
pub open spec fn file_laid_out(bytes: Seq<u8>, ps: Seq<int>, sf: SoundFontModel, streams: Seq<Seq<u8>>) -> bool {
    &&& ps.len() == 3
    &&& 0 <= ps[1]
    &&& 0 <= ps[2]
    &&& sfbk_header(bytes)
    &&& list_children(bytes, 0) == Some(ps)
    &&& lists_found(bytes, ps)
    &&& laid_out(bytes, ps[0], info_items(sf.info))
    &&& laid_out(bytes, ps[1], seq![(smpl_tag(), flat(streams))])
    &&& laid_out(
        bytes,
        ps[2],
        pdta_items(
            presets_arrays(sf.presets),
            instruments_arrays(sf.instruments),
            shdr_array(sf.samples, regions_spec(sf.samples, streams)),
        ),
    )
}

/// The three lists of the file written for `sf`, as the loader walks them.
#[verifier::spinoff_prover]
#[verifier::rlimit(100)]
proof fn lemma_sf3_lists(sf: SoundFontModel, streams: Seq<Seq<u8>>) -> (ps: Seq<int>)
    requires
        sf3_spec(sf, streams) is Ok,
    ensures
        file_laid_out(sf3_spec(sf, streams)->Ok_0, ps, sf, streams),
{
    let bytes = sf3_spec(sf, streams)->Ok_0;
    let rs = regions_spec(sf.samples, streams);
    let pa = presets_arrays(sf.presets);
    let ia = instruments_arrays(sf.instruments);
    let sh = shdr_array(sf.samples, rs);
    let items = info_items(sf.info);
    let smpl_items = seq![(smpl_tag(), flat(streams))];
    let pitems = pdta_items(pa, ia, sh);
    lemma_top_items(sf, streams);
    lemma_info_items(sf.info);
    lemma_encodings_one(smpl_tag(), flat(streams));
    lemma_pdta_items(pa, ia, sh);
    lemma_pdta_tags();
    let info_kind = seq![0x49u8, 0x4eu8, 0x46u8, 0x4fu8];
    let sdta_kind = seq![0x73u8, 0x64u8, 0x74u8, 0x61u8];
    let pdta_kind = seq![0x70u8, 0x64u8, 0x74u8, 0x61u8];
    let tops = seq![
        (list_tag(), info_kind + flat(encodings(items))),
        (list_tag(), sdta_kind + flat(encodings(smpl_items))),
        (list_tag(), pdta_kind + flat(encodings(pitems))),
    ];
    assert(top_items(sf, streams) === tops);
    assert(bytes === chunk_bytes(seq![0x52u8, 0x49u8, 0x46u8, 0x46u8], sf3_body(sf, streams)));
    assert forall|k: int| 0 <= k < items.len() implies (#[trigger] items[k]).0.len() == 4 by {
        if k > 0 {
            assert(items.drop_first()[k - 1] == items[k]);
        }
    }
    assert forall|k: int| 0 <= k < pitems.len() implies (#[trigger] pitems[k]).0.len() == 4 by {
        assert(pitems[k].0 == pdta_tags()[k]);
    }
    assert(sf3_body(sf, streams).len() <= u32::MAX);
    let ps = lemma_file_lists(bytes, items, smpl_items, pitems);
    reveal(file_laid_out);
    ps
}

/// The bank assembled from the hydra arrays and the pool written for `sf`:
/// each preset and instrument as written, each sample with the metadata
/// written and its own stream decoded.
#[verifier::spinoff_prover]
proof fn lemma_assemble_written(im: InfoModel, sf: SoundFontModel, streams: Seq<Seq<u8>>)
    requires
        sf.samples.len() == streams.len(),
        flat(streams).len() <= u32::MAX,
        presets_overflow(sf.presets, 0) is None,
        instruments_overflow(sf.instruments, 0) is None,
        writable_presets(sf.presets),
        writable_instruments(sf.instruments),
        all_decode(streams),
    ensures
        assemble_spec(im, written_hydra(sf, streams), flat(streams)) matches Ok(m) && m.info == im
            && read_back(m, sf, streams),
{
    let h = written_hydra(sf, streams);
    lemma_samples_decoded(sf.samples, streams, 0);
    lemma_samples_round_trip(sf.samples, regions_spec(sf.samples, streams), flat(streams));
    lemma_instruments_round_trip(sf.instruments);
    lemma_presets_round_trip(sf.presets);
    let m = assemble_spec(im, h, flat(streams))->Ok_0;
    assert forall|j: int| 0 <= j < m.samples.len() implies #[trigger] m.samples[j].data == decoded(
        streams[j],
    ) by {
        assert(streams[0 + j] == streams[j]);
    }
}

/// What a bank read back from the `.sf3` file written for `sf` holds: the
/// version written, every preset and instrument as written (names as their
/// twenty-byte field holds them), and every sample with the metadata
/// written and its own stream decoded as its audio.
pub open spec fn read_back(m: SoundFontModel, sf: SoundFontModel, streams: Seq<Seq<u8>>) -> bool {
    &&& m.presets == sf.presets.map_values(|p: PresetModel| preset_read(p))
    &&& m.instruments == sf.instruments.map_values(|x: InstrumentModel| instrument_read(x))
    &&& m.samples.len() == sf.samples.len()
    &&& forall|j: int|
        0 <= j < m.samples.len() ==> sample_meta_read(
            #[trigger] m.samples[j],
            sf.samples[j],
            regions_spec(sf.samples, streams)[j],
        ) && m.samples[j].data == decoded(streams[j])
}

/// The body of the file written for `sf`: the pool found in `sdta` and the
/// hydra found in `pdta` are the ones written.
#[verifier::spinoff_prover]
#[verifier::rlimit(40)]
proof fn lemma_body_written(bytes: Seq<u8>, im: InfoModel, sf: SoundFontModel, streams: Seq<Seq<u8>>, ps: Seq<int>)
    requires
        file_laid_out(bytes, ps, sf, streams),
        sf.samples.len() == streams.len(),
    ensures
        body_spec(bytes, im, ps[1], ps[2]) == assemble_spec(im, written_hydra(sf, streams), flat(streams)),
{
    reveal(file_laid_out);
    let sp = ps[1];
    let pp = ps[2];
    let rs = regions_spec(sf.samples, streams);
    let pa = presets_arrays(sf.presets);
    let ia = instruments_arrays(sf.instruments);
    let sh = shdr_array(sf.samples, rs);
    let smpl_items = seq![(smpl_tag(), flat(streams))];
    let pitems = pdta_items(pa, ia, sh);
    lemma_children(bytes, sp, smpl_items);
    let sps = offsets(sp + 12, encodings(smpl_items));
    assert(id_at(bytes, sps[0]) == smpl_tag());
    assert(sps.drop_first().len() == 0);
    assert(leaf_spec(bytes, sps, smpl_tag()) == Ok::<Option<Seq<u8>>, crate::soundfont::error::ErrorModel>(
        Some(flat(streams)),
    ));
    lemma_children(bytes, pp, pitems);
    let pps = offsets(pp + 12, encodings(pitems));
    lemma_pdta_items(pa, ia, sh);
    lemma_phdr_array_read(sf.presets);
    lemma_inst_array_read(sf.instruments);
    lemma_bags_array_read(crate::convert::hydra::preset_zones(sf.presets));
    lemma_gens_array_read(crate::convert::hydra::preset_zones(sf.presets));
    lemma_mods_array_read(crate::convert::hydra::preset_zones(sf.presets));
    lemma_bags_array_read(crate::convert::hydra::instrument_zones(sf.instruments));
    lemma_gens_array_read(crate::convert::hydra::instrument_zones(sf.instruments));
    lemma_mods_array_read(crate::convert::hydra::instrument_zones(sf.instruments));
    lemma_shdr_array_read(sf.samples, rs);
    lemma_hydra_read(bytes, pps, pa, ia, sh);
}

/// What writing `sf` with `streams` succeeding says of them.
proof fn lemma_sf3_ok(sf: SoundFontModel, streams: Seq<Seq<u8>>)
    requires
        sf3_spec(sf, streams) is Ok,
    ensures
        sf.samples.len() == streams.len(),
        flat(streams).len() <= u32::MAX,
        presets_overflow(sf.presets, 0) is None,
        instruments_overflow(sf.instruments, 0) is None,
{
}

/// A file whose lists are found at `ps`, whose `INFO` list is laid out
/// from `items` with the version record first: the loader reads its
/// metadata, declaring the version written, and goes on to the body.
#[verifier::spinoff_prover]
proof fn lemma_file_read(bytes: Seq<u8>, ps: Seq<int>, sf: SoundFontModel, streams: Seq<Seq<u8>>) -> (im: InfoModel)
    requires
        file_laid_out(bytes, ps, sf, streams),
    ensures
        im == info_read(sf.info),
        soundfont_spec(bytes) == body_spec(bytes, im, ps[1], ps[2]),
{
    reveal(file_laid_out);
    let info = sf.info;
    reveal(lists_found);
    reveal(sfbk_header);
    let items = info_items(info);
    lemma_children(bytes, ps[0], items);
    let ips = offsets(ps[0] + 12, encodings(items));
    lemma_info_read(bytes, ips, items, ips.len() as int);
    assert(ips.take(ips.len() as int) =~= ips);
    assert(items.take(items.len() as int) =~= items);
    lemma_info_fold(info);
    info_spec(bytes, ips)->Ok_0
}

/// Reading back what the writer lays out: when `sf` can be written with
/// the Ogg/Vorbis streams `streams`, every stream decodes, and every zone of
/// every preset and instrument holds generators the writer stores as they
/// are, the loader reads the written file as a bank of version 3.1 with the
/// metadata written (each text field as its bytes read back), the presets
/// and instruments written, and each sample with the metadata written and
/// its own stream, decoded, as its audio.
#[verifier::spinoff_prover]
pub proof fn lemma_sf3_reads_back(sf: SoundFontModel, streams: Seq<Seq<u8>>)
    requires
        sf3_spec(sf, streams) is Ok,
        writable_presets(sf.presets),
        writable_instruments(sf.instruments),
        all_decode(streams),
    ensures
        soundfont_spec(sf3_spec(sf, streams)->Ok_0) matches Ok(m) && m.info == info_read(sf.info)
            && read_back(m, sf, streams),
{
    let bytes = sf3_spec(sf, streams)->Ok_0;
    lemma_sf3_ok(sf, streams);
    let ps = lemma_sf3_lists(sf, streams);
    let im = lemma_file_read(bytes, ps, sf, streams);
    lemma_body_written(bytes, im, sf, streams, ps);
    lemma_assemble_written(im, sf, streams);
}

} // verus!
