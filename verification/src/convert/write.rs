//! Laying a bank out as an `.sf3` file: the RIFF container, the `INFO` list,
//! the pool of Ogg/Vorbis streams and the `pdta` arrays.
//!
//! The streams themselves come from the encoder, one per sample and in the
//! order of the samples; this module places them end to end in the `smpl`
//! chunk and points each sample header at its own.

use vstd::prelude::*;

use crate::convert::error::{Error, too_large};
use crate::convert::hydra::{
    Pdta, SampleRegion, build_pdta, flat, instruments_arrays, instruments_overflow,
    lemma_flat_push, le16_bytes, le32_bytes, presets_arrays, presets_overflow, put_bytes, put_u16,
    put_u32, shdr_array,
};
use crate::soundfont::model::{
    Info, InfoModel, SoundFont, SoundFontModel, Version, samples_model,
};

verus! {

/// The version an `.sf3` file declares in its `ifil` record.
pub open spec fn sf3_version() -> Version {
    Version { major: 3, minor: 1 }
}

/// A pad byte after contents of odd length.
pub open spec fn pad(d: Seq<u8>) -> Seq<u8> {
    if d.len() % 2 == 1 {
        seq![0u8]
    } else {
        seq![]
    }
}

/// A RIFF chunk: its id, its content length, its contents and a pad byte
/// when the length is odd.
pub open spec fn chunk_bytes(id: Seq<u8>, d: Seq<u8>) -> Seq<u8> {
    id + le32_bytes(d.len() as u32) + d + pad(d)
}

/// A `LIST` chunk of type `kind` holding `body`.
pub open spec fn list_bytes(kind: Seq<u8>, body: Seq<u8>) -> Seq<u8> {
    chunk_bytes(seq![0x4cu8, 0x49u8, 0x53u8, 0x54u8], kind + body)
}

/// Appends a chunk.
pub fn put_chunk(out: &mut Vec<u8>, id: [u8; 4], data: &[u8])
    ensures
        final(out)@ == old(out)@ + chunk_bytes(id@, data@),
{
    put_bytes(out, &id);
    put_u32(out, data.len() as u32);
    put_bytes(out, data);
    if data.len() % 2 == 1 {
        out.push(0);
    }
    assert(final(out)@ =~= old(out)@ + chunk_bytes(id@, data@));
}

/// A text record: the UTF-8 bytes and a NUL.
pub open spec fn zstr_bytes(s: Seq<char>) -> Seq<u8> {
    vstd::utf8::encode_utf8(s) + seq![0u8]
}

/// A text record with id `id` when the field is present.
pub open spec fn text_chunk(id: Seq<u8>, s: Option<Seq<char>>) -> Seq<u8> {
    match s {
        Some(t) => chunk_bytes(id, zstr_bytes(t)),
        None => seq![],
    }
}

/// A version record.
pub open spec fn version_bytes(v: Version) -> Seq<u8> {
    le16_bytes(v.major) + le16_bytes(v.minor)
}

/// The `INFO` list's records: the `.sf3` version, then each field present,
/// in the order `isng`, `INAM`, `irom`, `iver`, `ICRD`, `IENG`, `IPRD`,
/// `ICOP`, `ICMT`, `ISFT`.
pub open spec fn info_body(info: InfoModel) -> Seq<u8> {
    chunk_bytes(seq![0x69u8, 0x66u8, 0x69u8, 0x6cu8], version_bytes(sf3_version()))
        + text_chunk(seq![0x69u8, 0x73u8, 0x6eu8, 0x67u8], info.engine)
        + text_chunk(seq![0x49u8, 0x4eu8, 0x41u8, 0x4du8], info.name)
        + text_chunk(seq![0x69u8, 0x72u8, 0x6fu8, 0x6du8], info.rom_name)
        + match info.rom_version {
            Some(v) => chunk_bytes(seq![0x69u8, 0x76u8, 0x65u8, 0x72u8], version_bytes(v)),
            None => seq![],
        }
        + text_chunk(seq![0x49u8, 0x43u8, 0x52u8, 0x44u8], info.creation_date)
        + text_chunk(seq![0x49u8, 0x45u8, 0x4eu8, 0x47u8], info.engineers)
        + text_chunk(seq![0x49u8, 0x50u8, 0x52u8, 0x44u8], info.product)
        + text_chunk(seq![0x49u8, 0x43u8, 0x4fu8, 0x50u8], info.copyright)
        + text_chunk(seq![0x49u8, 0x43u8, 0x4du8, 0x54u8], info.comments)
        + text_chunk(seq![0x49u8, 0x53u8, 0x46u8, 0x54u8], info.software)
}

/// Appends a text record when the field is present.
fn put_text(out: &mut Vec<u8>, id: [u8; 4], s: &Option<String>)
    ensures
        final(out)@ == old(out)@ + text_chunk(id@, crate::soundfont::model::opt_text(*s)),
{
    match s {
        Some(t) => {
            let mut data: Vec<u8> = Vec::new();
            put_bytes(&mut data, t.as_str().as_bytes());
            data.push(0);
            assert(data@ =~= zstr_bytes(t@));
            put_chunk(out, id, data.as_slice());
        },
        None => {
            assert(final(out)@ =~= old(out)@ + seq![]);
        },
    }
}

/// The `INFO` list's records for `info`.
pub fn build_info(info: &Info) -> (out: Vec<u8>)
    ensures
        out@ == info_body(info@),
{
    let mut out: Vec<u8> = Vec::new();
    let mut version: Vec<u8> = Vec::new();
    put_u16(&mut version, 3);
    put_u16(&mut version, 1);
    put_chunk(&mut out, [0x69, 0x66, 0x69, 0x6c], version.as_slice());
    put_text(&mut out, [0x69, 0x73, 0x6e, 0x67], &info.engine);
    put_text(&mut out, [0x49, 0x4e, 0x41, 0x4d], &info.name);
    put_text(&mut out, [0x69, 0x72, 0x6f, 0x6d], &info.rom_name);
    let ghost before_iver = out@;
    match info.rom_version {
        Some(v) => {
            let mut data: Vec<u8> = Vec::new();
            put_u16(&mut data, v.major);
            put_u16(&mut data, v.minor);
            put_chunk(&mut out, [0x69, 0x76, 0x65, 0x72], data.as_slice());
        },
        None => {},
    }
    put_text(&mut out, [0x49, 0x43, 0x52, 0x44], &info.creation_date);
    put_text(&mut out, [0x49, 0x45, 0x4e, 0x47], &info.engineers);
    put_text(&mut out, [0x49, 0x50, 0x52, 0x44], &info.product);
    put_text(&mut out, [0x49, 0x43, 0x4f, 0x50], &info.copyright);
    put_text(&mut out, [0x49, 0x43, 0x4d, 0x54], &info.comments);
    put_text(&mut out, [0x49, 0x53, 0x46, 0x54], &info.software);
    assert(out@ =~= info_body(info@));
    out
}

/// The views of a list of byte vectors.
pub open spec fn stream_views(v: Seq<Vec<u8>>) -> Seq<Seq<u8>> {
    v.map_values(|x: Vec<u8>| x@)
}

/// Where sample `i`'s stream starts in the pool: after the streams before
/// it.
pub open spec fn stream_offset(streams: Seq<Seq<u8>>, i: int) -> int {
    flat(streams.take(i)).len() as int
}

/// The region of sample `i`: its stream's byte range in the pool, and its
/// own loop points.
pub open spec fn region_of(ss: Seq<crate::soundfont::model::SampleModel>, streams: Seq<Seq<u8>>, i: int) -> SampleRegion {
    SampleRegion {
        start: stream_offset(streams, i) as u32,
        end: stream_offset(streams, i + 1) as u32,
        loop_start: ss[i].loop_start,
        loop_end: ss[i].loop_end,
    }
}

/// The regions of all the samples.
pub open spec fn regions_spec(ss: Seq<crate::soundfont::model::SampleModel>, streams: Seq<Seq<u8>>) -> Seq<SampleRegion> {
    Seq::new(ss.len(), |i: int| region_of(ss, streams, i))
}

/// The pool a prefix of the streams makes is a prefix of the whole pool.
proof fn lemma_offsets_grow(streams: Seq<Seq<u8>>, i: int)
    requires
        0 <= i <= streams.len(),
    ensures
        stream_offset(streams, i) <= flat(streams).len(),
    decreases streams.len() - i,
{
    if i < streams.len() {
        lemma_offsets_grow(streams, i + 1);
        assert(streams.take(i + 1).drop_last() =~= streams.take(i));
    } else {
        assert(streams.take(i) =~= streams);
    }
}

/// Places the streams end to end: each sample's region is its stream's
/// byte range in the pool, with the sample's own loop points.
pub fn sample_regions(samples: &[crate::soundfont::model::Sample], streams: &[Vec<u8>]) -> (r: Result<
    Vec<SampleRegion>,
    Error,
>)
    requires
        samples@.len() == streams@.len(),
    ensures
        flat(stream_views(streams@)).len() <= u32::MAX ==> (r matches Ok(v) && v@ == regions_spec(
            samples_model(samples@),
            stream_views(streams@),
        )),
        flat(stream_views(streams@)).len() > u32::MAX ==> (r matches Err(e) && too_large(
            e,
            "sample pool"@,
        )),
{
    let ghost sv = stream_views(streams@);
    let ghost ss = samples_model(samples@);
    let mut out: Vec<SampleRegion> = Vec::new();
    let mut offset: u64 = 0;
    let mut i: usize = 0;
    assert(sv.take(0) =~= Seq::<Seq<u8>>::empty());
    while i < streams.len()
        invariant
            sv == stream_views(streams@),
            ss == samples_model(samples@),
            samples@.len() == streams@.len(),
            i <= streams@.len(),
            offset == stream_offset(sv, i as int),
            offset <= u32::MAX,
            out@.len() == i,
            forall|k: int| 0 <= k < i ==> #[trigger] out@[k] == region_of(ss, sv, k),
        decreases streams@.len() - i,
    {
        proof {
            assert(sv.take(i + 1).drop_last() =~= sv.take(i as int));
            lemma_flat_push(sv.take(i as int), sv[i as int]);
            assert(sv.take(i as int).push(sv[i as int]) =~= sv.take(i + 1));
            assert(sv[i as int] == streams@[i as int]@);
        }
        let len = streams[i].len() as u64;
        if len > 0xffff_ffff - offset {
            proof {
                lemma_offsets_grow(sv, i + 1);
            }
            return Err(Error::TooLarge("sample pool"));
        }
        let end: u64 = offset + len;
        proof {
            assert(ss[i as int] == samples@[i as int]@);
        }
        out.push(
            SampleRegion {
                start: offset as u32,
                end: end as u32,
                loop_start: samples[i].loop_start,
                loop_end: samples[i].loop_end,
            },
        );
        offset = end;
        i = i + 1;
    }
    assert(sv.take(i as int) =~= sv);
    assert(out@ =~= regions_spec(ss, sv));
    Ok(out)
}

/// Places the streams end to end.
pub fn build_pool(streams: &[Vec<u8>]) -> (pool: Vec<u8>)
    ensures
        pool@ == flat(stream_views(streams@)),
{
    let ghost sv = stream_views(streams@);
    let mut pool: Vec<u8> = Vec::new();
    let mut i: usize = 0;
    assert(sv.take(0) =~= Seq::<Seq<u8>>::empty());
    while i < streams.len()
        invariant
            sv == stream_views(streams@),
            i <= streams@.len(),
            pool@ == flat(sv.take(i as int)),
        decreases streams@.len() - i,
    {
        proof {
            lemma_flat_push(sv.take(i as int), sv[i as int]);
            assert(sv.take(i as int).push(sv[i as int]) =~= sv.take(i + 1));
            assert(sv[i as int] == streams@[i as int]@);
        }
        put_bytes(&mut pool, streams[i].as_slice());
        i = i + 1;
    }
    assert(sv.take(i as int) =~= sv);
    pool
}

/// The nine `pdta` chunks, in the order `phdr`, `pbag`, `pmod`, `pgen`,
/// `inst`, `ibag`, `imod`, `igen`, `shdr`.
pub open spec fn pdta_body(
    presets: (Seq<u8>, Seq<u8>, Seq<u8>, Seq<u8>),
    instruments: (Seq<u8>, Seq<u8>, Seq<u8>, Seq<u8>),
    shdr: Seq<u8>,
) -> Seq<u8> {
    chunk_bytes(seq![0x70u8, 0x68u8, 0x64u8, 0x72u8], presets.0) + chunk_bytes(
        seq![0x70u8, 0x62u8, 0x61u8, 0x67u8],
        presets.1,
    ) + chunk_bytes(seq![0x70u8, 0x6du8, 0x6fu8, 0x64u8], presets.2) + chunk_bytes(
        seq![0x70u8, 0x67u8, 0x65u8, 0x6eu8],
        presets.3,
    ) + chunk_bytes(seq![0x69u8, 0x6eu8, 0x73u8, 0x74u8], instruments.0) + chunk_bytes(
        seq![0x69u8, 0x62u8, 0x61u8, 0x67u8],
        instruments.1,
    ) + chunk_bytes(seq![0x69u8, 0x6du8, 0x6fu8, 0x64u8], instruments.2) + chunk_bytes(
        seq![0x69u8, 0x67u8, 0x65u8, 0x6eu8],
        instruments.3,
    ) + chunk_bytes(seq![0x73u8, 0x68u8, 0x64u8, 0x72u8], shdr)
}

/// The contents of the `RIFF` chunk of the `.sf3` file for `sf` with sample
/// streams `streams`: the form type, then the `INFO`, `sdta` and `pdta`
/// lists.
pub open spec fn sf3_body(sf: SoundFontModel, streams: Seq<Seq<u8>>) -> Seq<u8> {
    let regions = regions_spec(sf.samples, streams);
    seq![0x73u8, 0x66u8, 0x62u8, 0x6bu8] + list_bytes(seq![0x49u8, 0x4eu8, 0x46u8, 0x4fu8], info_body(sf.info))
        + list_bytes(
        seq![0x73u8, 0x64u8, 0x74u8, 0x61u8],
        chunk_bytes(seq![0x73u8, 0x6du8, 0x70u8, 0x6cu8], flat(streams)),
    ) + list_bytes(
        seq![0x70u8, 0x64u8, 0x74u8, 0x61u8],
        pdta_body(
            presets_arrays(sf.presets),
            instruments_arrays(sf.instruments),
            shdr_array(sf.samples, regions),
        ),
    )
}

/// The `.sf3` file for `sf` with one Ogg/Vorbis stream per sample, or why
/// it cannot be written: a stream count that does not match the samples, a
/// pool past 32-bit offsets, an index overflow in the hydra, or a file too
/// long for its RIFF length.
pub open spec fn sf3_spec(sf: SoundFontModel, streams: Seq<Seq<u8>>) -> Result<Seq<u8>, Seq<char>> {
    if streams.len() != sf.samples.len() {
        Err("sample regions do not match samples"@)
    } else if flat(streams).len() > u32::MAX {
        Err("sample pool"@)
    } else {
        match presets_overflow(sf.presets, 0) {
            Some(w) => Err(w),
            None => match instruments_overflow(sf.instruments, 0) {
                Some(w) => Err(w),
                None => if sf3_body(sf, streams).len() > u32::MAX {
                    Err("file"@)
                } else {
                    Ok(chunk_bytes(seq![0x52u8, 0x49u8, 0x46u8, 0x46u8], sf3_body(sf, streams)))
                },
            },
        }
    }
}

/// Appends a `LIST` chunk of type `kind` holding `body`.
fn put_list(out: &mut Vec<u8>, kind: [u8; 4], body: &[u8])
    ensures
        final(out)@ == old(out)@ + list_bytes(kind@, body@),
{
    let mut data: Vec<u8> = Vec::new();
    put_bytes(&mut data, &kind);
    put_bytes(&mut data, body);
    put_chunk(out, [0x4c, 0x49, 0x53, 0x54], data.as_slice());
}

/// The nine `pdta` chunks of `p`.
fn build_pdta_body(p: &Pdta) -> (out: Vec<u8>)
    ensures
        out@ == pdta_body(
            (p.phdr@, p.pbag@, p.pmod@, p.pgen@),
            (p.inst@, p.ibag@, p.imod@, p.igen@),
            p.shdr@,
        ),
{
    let mut out: Vec<u8> = Vec::new();
    put_chunk(&mut out, [0x70, 0x68, 0x64, 0x72], p.phdr.as_slice());
    put_chunk(&mut out, [0x70, 0x62, 0x61, 0x67], p.pbag.as_slice());
    put_chunk(&mut out, [0x70, 0x6d, 0x6f, 0x64], p.pmod.as_slice());
    put_chunk(&mut out, [0x70, 0x67, 0x65, 0x6e], p.pgen.as_slice());
    put_chunk(&mut out, [0x69, 0x6e, 0x73, 0x74], p.inst.as_slice());
    put_chunk(&mut out, [0x69, 0x62, 0x61, 0x67], p.ibag.as_slice());
    put_chunk(&mut out, [0x69, 0x6d, 0x6f, 0x64], p.imod.as_slice());
    put_chunk(&mut out, [0x69, 0x67, 0x65, 0x6e], p.igen.as_slice());
    put_chunk(&mut out, [0x73, 0x68, 0x64, 0x72], p.shdr.as_slice());
    assert(out@ =~= pdta_body(
        (p.phdr@, p.pbag@, p.pmod@, p.pgen@),
        (p.inst@, p.ibag@, p.imod@, p.igen@),
        p.shdr@,
    ));
    out
}

/// Lays `sf` out as an `.sf3` file whose `smpl` chunk holds `streams`, the
/// Ogg/Vorbis stream of each sample in order.
pub fn assemble_sf3(sf: &SoundFont, streams: &[Vec<u8>]) -> (r: Result<Vec<u8>, Error>)
    ensures
        match sf3_spec(sf@, stream_views(streams@)) {
            Ok(b) => r matches Ok(v) && v@ == b,
            Err(w) => r matches Err(e) && too_large(e, w),
        },
{
    if streams.len() != sf.samples.len() {
        return Err(Error::TooLarge("sample regions do not match samples"));
    }
    let regions = match sample_regions(sf.samples.as_slice(), streams) {
        Ok(r) => r,
        Err(e) => return Err(e),
    };
    let pdta = match build_pdta(sf, regions.as_slice()) {
        Ok(p) => p,
        Err(e) => return Err(e),
    };
    let info = build_info(&sf.info);
    let pool = build_pool(streams);
    let mut smpl: Vec<u8> = Vec::new();
    put_chunk(&mut smpl, [0x73, 0x6d, 0x70, 0x6c], pool.as_slice());
    let pdta_chunks = build_pdta_body(&pdta);
    let mut body: Vec<u8> = Vec::new();
    put_bytes(&mut body, &[0x73, 0x66, 0x62, 0x6b]);
    put_list(&mut body, [0x49, 0x4e, 0x46, 0x4f], info.as_slice());
    put_list(&mut body, [0x73, 0x64, 0x74, 0x61], smpl.as_slice());
    put_list(&mut body, [0x70, 0x64, 0x74, 0x61], pdta_chunks.as_slice());
    assert(body@ =~= sf3_body(sf@, stream_views(streams@)));
    if body.len() > 0xffff_ffff {
        return Err(Error::TooLarge("file"));
    }
    let mut out: Vec<u8> = Vec::new();
    put_chunk(&mut out, [0x52, 0x49, 0x46, 0x46], body.as_slice());
    Ok(out)
}

} // verus!
