//! The RIFF structure of a SoundFont file: walking the children of a
//! `RIFF`/`LIST` chunk, finding a leaf chunk, and reading the `INFO` list.
//!
//! A chunk is an eight-byte header (a four-byte id and a little-endian
//! `u32` length) followed by its contents, padded to an even length. A
//! `RIFF` or `LIST` chunk starts its contents with a four-byte type; its
//! children follow. Every chunk here is named by the offset of its header in
//! the file, and the specifications speak of those offsets.

use vstd::prelude::*;

use crate::soundfont::error::{Error, ErrorModel};
use crate::soundfont::error::format_error;
use crate::soundfont::hydra::{
    Bag, GenModel, GenRecord, HydraRecord, InstHeader, InstHeaderModel, ModRecord, PresetHeader,
    PresetHeaderModel, SampleHeader, SampleHeaderModel, le16_at, models, msg_record_size,
    parse_zstr, records, records_spec, zstr_spec,
};
use crate::soundfont::model::{Info, InfoModel, Version};
use crate::soundfont::riff_io::{RawChunk, chunk_header_ok, le32, read_chunk, read_contents};

verus! {

// ----- chunk layout --------------------------------------------------------------

/// The id of the chunk whose header is at `p`.
pub open spec fn id_at(bytes: Seq<u8>, p: int) -> Seq<u8> {
    bytes.subrange(p, p + 4)
}

/// The content length stored in the header at `p`.
pub open spec fn clen(bytes: Seq<u8>, p: int) -> int {
    le32(bytes[p + 4], bytes[p + 5], bytes[p + 6], bytes[p + 7])
}

/// Whether the file holds all the contents of the chunk at `p`.
pub open spec fn contents_ok(bytes: Seq<u8>, p: int) -> bool {
    p + 8 + clen(bytes, p) <= bytes.len()
}

/// The contents of the chunk at `p`.
pub open spec fn contents_at(bytes: Seq<u8>, p: int) -> Seq<u8> {
    bytes.subrange(p + 8, p + 8 + clen(bytes, p))
}

/// The offsets of the chunks from `cur` while `cur < end`: each chunk is
/// followed by the next after its header, its contents and a pad byte when
/// its length is odd. `None` when a header does not fit in the file.
pub open spec fn walk(bytes: Seq<u8>, cur: int, end: int) -> Option<Seq<int>>
    decreases if cur < end {
        end - cur
    } else {
        0
    },
{
    if cur >= end {
        Some(seq![])
    } else if cur < 0 || cur + 8 > bytes.len() {
        None
    } else {
        let len = clen(bytes, cur);
        match walk(bytes, cur + 8 + len + len % 2, end) {
            Some(rest) => Some(seq![cur] + rest),
            None => None,
        }
    }
}

/// The offsets of the children of the `RIFF`/`LIST` chunk at `p`: they start
/// after its type and run while the offset is below its offset plus four
/// plus its length.
pub open spec fn list_children(bytes: Seq<u8>, p: int) -> Option<Seq<int>> {
    walk(bytes, p + 12, p + 4 + clen(bytes, p))
}

/// The offsets of a list of chunk headers.
pub open spec fn positions(v: Seq<RawChunk>) -> Seq<int> {
    v.map_values(|c: RawChunk| c.pos as int)
}

/// Every header in `v` was read from `bytes` at its own offset.
pub open spec fn all_read(bytes: Seq<u8>, v: Seq<RawChunk>) -> bool {
    forall|i: int| 0 <= i < v.len() ==> chunk_header_ok(bytes, #[trigger] v[i].pos as int, v[i])
}

/// A file small enough for every offset computed while walking it to fit a
/// `u64`.
pub open spec fn addressable(bytes: Seq<u8>) -> bool {
    bytes.len() <= 0x7fff_ffff_ffff_ffff
}

/// The children of the `RIFF`/`LIST` chunk `list`, read in file order.
pub fn children(bytes: &[u8], list: &RawChunk) -> (res: Result<Vec<RawChunk>, Error>)
    requires
        addressable(bytes@),
        chunk_header_ok(bytes@, list.pos as int, *list),
    ensures
        match list_children(bytes@, list.pos as int) {
            None => res matches Err(e) && e@ == ErrorModel::Io,
            Some(ps) => res matches Ok(v) && positions(v@) == ps && all_read(bytes@, v@),
        },
{
    let end: u64 = list.pos + 4 + list.len as u64;
    let mut cur: u64 = list.pos + 12;
    let mut out: Vec<RawChunk> = Vec::new();
    while cur < end
        invariant
            addressable(bytes@),
            end == list.pos + 4 + clen(bytes@, list.pos as int),
            cur <= end + 0x1_0000_0008,
            end <= bytes@.len() + 0x1_0000_0004,
            all_read(bytes@, out@),
            list_children(bytes@, list.pos as int) == match walk(bytes@, cur as int, end as int) {
                Some(rest) => Some(positions(out@) + rest),
                None => None,
            },
        decreases end + 0x1_0000_0008 - cur,
    {
        let c = match read_chunk(bytes, cur) {
            Ok(c) => c,
            Err(e) => return Err(Error::Io(e)),
        };
        let len = c.len as u64;
        let ghost prev = positions(out@);
        out.push(c);
        proof {
            assert(positions(out@) =~= prev + seq![cur as int]);
            match walk(bytes@, cur + 8 + len + len % 2, end as int) {
                Some(rest) => {
                    assert(prev + (seq![cur as int] + rest) =~= prev + seq![cur as int] + rest);
                },
                None => {},
            }
        }
        cur = cur + 8 + len + len % 2;
    }
    proof {
        assert(positions(out@) + seq![] =~= positions(out@));
    }
    Ok(out)
}

/// `true` when the four bytes `t` spell `a b c d`.
pub fn tag_eq(t: &[u8; 4], a: u8, b: u8, c: u8, d: u8) -> (r: bool)
    ensures
        r == (t@ == seq![a, b, c, d]),
{
    let r = t[0] == a && t[1] == b && t[2] == c && t[3] == d;
    proof {
        if r {
            assert(t@ =~= seq![a, b, c, d]);
        } else {
            assert(t@ != seq![a, b, c, d] ==> true);
            if t@ == seq![a, b, c, d] {
                assert(t@[0] == a && t@[1] == b && t@[2] == c && t@[3] == d);
            }
        }
    }
    r
}

/// The contents of chunk `c`, as an I/O error of the library's own when
/// the file is too short.
pub fn contents(bytes: &[u8], c: &RawChunk) -> (res: Result<Vec<u8>, Error>)
    requires
        chunk_header_ok(bytes@, c.pos as int, *c),
    ensures
        contents_ok(bytes@, c.pos as int) <==> res is Ok,
        res matches Ok(v) ==> v@ == contents_at(bytes@, c.pos as int),
        res matches Err(e) ==> e@ == ErrorModel::Io,
{
    match read_contents(bytes, c) {
        Ok(v) => Ok(v),
        Err(e) => Err(Error::Io(e)),
    }
}

// ----- leaf chunks -------------------------------------------------------------

/// The contents of the first chunk at the offsets `ps` whose id is `name`:
/// `None` when there is none, an I/O error when its contents are cut short.
pub open spec fn leaf_spec(bytes: Seq<u8>, ps: Seq<int>, name: Seq<u8>) -> Result<
    Option<Seq<u8>>,
    ErrorModel,
>
    decreases ps.len(),
{
    if ps.len() == 0 {
        Ok(None)
    } else if id_at(bytes, ps[0]) == name {
        if contents_ok(bytes, ps[0]) {
            Ok(Some(contents_at(bytes, ps[0])))
        } else {
            Err(ErrorModel::Io)
        }
    } else {
        leaf_spec(bytes, ps.drop_first(), name)
    }
}

/// The contents of the first child of `list` whose id is `name`, if any.
pub fn leaf(bytes: &[u8], list: &RawChunk, name: &[u8; 4]) -> (res: Result<Option<Vec<u8>>, Error>)
    requires
        addressable(bytes@),
        chunk_header_ok(bytes@, list.pos as int, *list),
    ensures
        match list_children(bytes@, list.pos as int) {
            None => res matches Err(e) && e@ == ErrorModel::Io,
            Some(ps) => match leaf_spec(bytes@, ps, name@) {
                Ok(Some(d)) => res matches Ok(Some(v)) && v@ == d,
                Ok(None) => res matches Ok(None),
                Err(e) => res matches Err(x) && x@ == e,
            },
        },
{
    let kids = match children(bytes, list) {
        Ok(k) => k,
        Err(e) => return Err(e),
    };
    let ghost ps = positions(kids@);
    let mut i: usize = 0;
    assert(ps.skip(0) =~= ps);
    while i < kids.len()
        invariant
            i <= kids@.len(),
            ps == positions(kids@),
            list_children(bytes@, list.pos as int) == Some(ps),
            all_read(bytes@, kids@),
            leaf_spec(bytes@, ps, name@) == leaf_spec(bytes@, ps.skip(i as int), name@),
        decreases kids@.len() - i,
    {
        let c = &kids[i];
        assert(chunk_header_ok(bytes@, kids@[i as int].pos as int, kids@[i as int]));
        assert(ps.skip(i as int)[0] == c.pos as int);
        assert(ps.skip(i as int).len() > 0);
        assert(id_at(bytes@, c.pos as int) == c.id@);
        if tag_eq(&c.id, name[0], name[1], name[2], name[3]) {
            assert(name@ =~= seq![name[0], name[1], name[2], name[3]]);
            return match contents(bytes, c) {
                Ok(v) => Ok(Some(v)),
                Err(e) => Err(e),
            };
        }
        assert(name@ =~= seq![name[0], name[1], name[2], name[3]]);
        assert(ps.skip(i as int).drop_first() =~= ps.skip(i + 1));
        i = i + 1;
    }
    Ok(None)
}

// ----- the INFO list -------------------------------------------------------------

/// A version record: two little-endian words, missing bytes read as zero.
pub open spec fn version_spec(d: Seq<u8>) -> Version {
    Version { major: le16_at(d, 0), minor: le16_at(d, 2) }
}

/// Reads a version record (`ifil`/`iver`).
pub fn parse_version(data: &[u8]) -> (v: Version)
    ensures
        v == version_spec(data@),
{
    Version {
        major: crate::soundfont::hydra::le_u16(data, 0),
        minor: crate::soundfont::hydra::le_u16(data, 2),
    }
}

/// Metadata with no record read yet: version 0.0, every other field absent.
pub open spec fn empty_info() -> InfoModel {
    InfoModel {
        version: Version { major: 0, minor: 0 },
        engine: None,
        name: None,
        rom_name: None,
        rom_version: None,
        creation_date: None,
        engineers: None,
        product: None,
        copyright: None,
        comments: None,
        software: None,
    }
}

/// The metadata after one `INFO` record with id `id` and contents `d`; an
/// unknown id changes nothing.
pub open spec fn info_update(info: InfoModel, id: Seq<u8>, d: Seq<u8>) -> InfoModel {
    if id == seq![0x69u8, 0x66u8, 0x69u8, 0x6cu8] {
        // ifil
        InfoModel { version: version_spec(d), ..info }
    } else if id == seq![0x69u8, 0x76u8, 0x65u8, 0x72u8] {
        // iver
        InfoModel { rom_version: Some(version_spec(d)), ..info }
    } else if id == seq![0x69u8, 0x73u8, 0x6eu8, 0x67u8] {
        // isng
        InfoModel { engine: Some(zstr_spec(d)), ..info }
    } else if id == seq![0x49u8, 0x4eu8, 0x41u8, 0x4du8] {
        // INAM
        InfoModel { name: Some(zstr_spec(d)), ..info }
    } else if id == seq![0x69u8, 0x72u8, 0x6fu8, 0x6du8] {
        // irom
        InfoModel { rom_name: Some(zstr_spec(d)), ..info }
    } else if id == seq![0x49u8, 0x43u8, 0x52u8, 0x44u8] {
        // ICRD
        InfoModel { creation_date: Some(zstr_spec(d)), ..info }
    } else if id == seq![0x49u8, 0x45u8, 0x4eu8, 0x47u8] {
        // IENG
        InfoModel { engineers: Some(zstr_spec(d)), ..info }
    } else if id == seq![0x49u8, 0x50u8, 0x52u8, 0x44u8] {
        // IPRD
        InfoModel { product: Some(zstr_spec(d)), ..info }
    } else if id == seq![0x49u8, 0x43u8, 0x4fu8, 0x50u8] {
        // ICOP
        InfoModel { copyright: Some(zstr_spec(d)), ..info }
    } else if id == seq![0x49u8, 0x43u8, 0x4du8, 0x54u8] {
        // ICMT
        InfoModel { comments: Some(zstr_spec(d)), ..info }
    } else if id == seq![0x49u8, 0x53u8, 0x46u8, 0x54u8] {
        // ISFT
        InfoModel { software: Some(zstr_spec(d)), ..info }
    } else {
        info
    }
}

/// The metadata of the `INFO` records at the offsets `ps`, read in order
/// (a later record of the same id replaces an earlier one); an I/O error
/// when a record's contents are cut short.
pub open spec fn info_spec(bytes: Seq<u8>, ps: Seq<int>) -> Result<InfoModel, ErrorModel>
    decreases ps.len(),
{
    if ps.len() == 0 {
        Ok(empty_info())
    } else {
        match info_spec(bytes, ps.drop_last()) {
            Err(e) => Err(e),
            Ok(info) => {
                let p = ps.last();
                if contents_ok(bytes, p) {
                    Ok(info_update(info, id_at(bytes, p), contents_at(bytes, p)))
                } else {
                    Err(ErrorModel::Io)
                }
            },
        }
    }
}

/// Applies one `INFO` record to `info`.
fn apply_info_record(info: &mut Info, id: &[u8; 4], data: &[u8])
    ensures
        final(info)@ == info_update(old(info)@, id@, data@),
{
    if tag_eq(id, 0x69, 0x66, 0x69, 0x6c) {
        info.version = parse_version(data);
    } else if tag_eq(id, 0x69, 0x76, 0x65, 0x72) {
        info.rom_version = Some(parse_version(data));
    } else if tag_eq(id, 0x69, 0x73, 0x6e, 0x67) {
        info.engine = Some(parse_zstr(data));
    } else if tag_eq(id, 0x49, 0x4e, 0x41, 0x4d) {
        info.name = Some(parse_zstr(data));
    } else if tag_eq(id, 0x69, 0x72, 0x6f, 0x6d) {
        info.rom_name = Some(parse_zstr(data));
    } else if tag_eq(id, 0x49, 0x43, 0x52, 0x44) {
        info.creation_date = Some(parse_zstr(data));
    } else if tag_eq(id, 0x49, 0x45, 0x4e, 0x47) {
        info.engineers = Some(parse_zstr(data));
    } else if tag_eq(id, 0x49, 0x50, 0x52, 0x44) {
        info.product = Some(parse_zstr(data));
    } else if tag_eq(id, 0x49, 0x43, 0x4f, 0x50) {
        info.copyright = Some(parse_zstr(data));
    } else if tag_eq(id, 0x49, 0x43, 0x4d, 0x54) {
        info.comments = Some(parse_zstr(data));
    } else if tag_eq(id, 0x49, 0x53, 0x46, 0x54) {
        info.software = Some(parse_zstr(data));
    }
}

/// Reads the `INFO` list `list`.
pub fn read_info(bytes: &[u8], list: &RawChunk) -> (res: Result<Info, Error>)
    requires
        addressable(bytes@),
        chunk_header_ok(bytes@, list.pos as int, *list),
    ensures
        match list_children(bytes@, list.pos as int) {
            None => res matches Err(e) && e@ == ErrorModel::Io,
            Some(ps) => match info_spec(bytes@, ps) {
                Ok(m) => res matches Ok(info) && info@ == m,
                Err(e) => res matches Err(x) && x@ == e,
            },
        },
{
    let kids = match children(bytes, list) {
        Ok(k) => k,
        Err(e) => return Err(e),
    };
    let ghost ps = positions(kids@);
    let mut info = Info {
        version: Version { major: 0, minor: 0 },
        engine: None,
        name: None,
        rom_name: None,
        rom_version: None,
        creation_date: None,
        engineers: None,
        product: None,
        copyright: None,
        comments: None,
        software: None,
    };
    let mut i: usize = 0;
    while i < kids.len()
        invariant
            i <= kids@.len(),
            ps == positions(kids@),
            list_children(bytes@, list.pos as int) == Some(ps),
            all_read(bytes@, kids@),
            info_spec(bytes@, ps.take(i as int)) == Ok::<InfoModel, ErrorModel>(info@),
        decreases kids@.len() - i,
    {
        let c = &kids[i];
        assert(chunk_header_ok(bytes@, kids@[i as int].pos as int, kids@[i as int]));
        assert(ps.take(i + 1).drop_last() =~= ps.take(i as int));
        assert(ps.take(i + 1).last() == c.pos as int);
        let data = match contents(bytes, c) {
            Ok(d) => d,
            Err(e) => {
                proof {
                    assert(info_spec(bytes@, ps.take(i + 1)) == Err::<InfoModel, ErrorModel>(
                        ErrorModel::Io,
                    ));
                    lemma_info_err_sticks(bytes@, ps, i + 1);
                }
                return Err(e);
            },
        };
        apply_info_record(&mut info, &c.id, data.as_slice());
        i = i + 1;
    }
    assert(ps.take(i as int) =~= ps);
    Ok(info)
}

/// Once the records up to `n` fail to read, so do all of them.
proof fn lemma_info_err_sticks(bytes: Seq<u8>, ps: Seq<int>, n: int)
    requires
        0 <= n <= ps.len(),
        info_spec(bytes, ps.take(n)) == Err::<InfoModel, ErrorModel>(ErrorModel::Io),
    ensures
        info_spec(bytes, ps) == Err::<InfoModel, ErrorModel>(ErrorModel::Io),
    decreases ps.len() - n,
{
    if n < ps.len() {
        assert(ps.take(n + 1).drop_last() =~= ps.take(n));
        lemma_info_err_sticks(bytes, ps, n + 1);
    } else {
        assert(ps.take(n) =~= ps);
    }
}

// ----- the pdta list ---------------------------------------------------------------

/// The index in `ps` of the last chunk whose id is `name`.
pub open spec fn last_with(bytes: Seq<u8>, ps: Seq<int>, name: Seq<u8>) -> Option<int>
    decreases ps.len(),
{
    if ps.len() == 0 {
        None
    } else if id_at(bytes, ps.last()) == name {
        Some(ps.len() - 1)
    } else {
        last_with(bytes, ps.drop_last(), name)
    }
}

/// The records of the hydra chunk `name` among the chunks at `ps`: the
/// last chunk of that id counts; `msg` when there is none, a length error
/// when its length is no multiple of `size`.
pub open spec fn part_spec<T: HydraRecord>(
    bytes: Seq<u8>,
    ps: Seq<int>,
    name: Seq<u8>,
    msg: Seq<char>,
    size: int,
) -> Result<Seq<T::Model>, ErrorModel> {
    match last_with(bytes, ps, name) {
        None => Err(ErrorModel::Format(msg)),
        Some(k) => {
            let d = contents_at(bytes, ps[k]);
            if (d.len() as int) % size != 0 {
                Err(ErrorModel::Format(msg_record_size()))
            } else {
                Ok(records_spec::<T>(d, size))
            }
        },
    }
}

/// The nine hydra arrays as values of the model.
pub ghost struct HydraModel {
    pub phdr: Seq<PresetHeaderModel>,
    pub pbag: Seq<Bag>,
    pub pmod: Seq<ModRecord>,
    pub pgen: Seq<GenModel>,
    pub inst: Seq<InstHeaderModel>,
    pub ibag: Seq<Bag>,
    pub imod: Seq<ModRecord>,
    pub igen: Seq<GenModel>,
    pub shdr: Seq<SampleHeaderModel>,
}

/// The decoded `pdta` sub-chunks.
pub struct Hydra {
    pub phdr: Vec<PresetHeader>,
    pub pbag: Vec<Bag>,
    pub pmod: Vec<ModRecord>,
    pub pgen: Vec<GenRecord>,
    pub inst: Vec<InstHeader>,
    pub ibag: Vec<Bag>,
    pub imod: Vec<ModRecord>,
    pub igen: Vec<GenRecord>,
    pub shdr: Vec<SampleHeader>,
}

impl View for Hydra {
    type V = HydraModel;

    open spec fn view(&self) -> HydraModel {
        HydraModel {
            phdr: models(self.phdr@),
            pbag: models(self.pbag@),
            pmod: models(self.pmod@),
            pgen: models(self.pgen@),
            inst: models(self.inst@),
            ibag: models(self.ibag@),
            imod: models(self.imod@),
            igen: models(self.igen@),
            shdr: models(self.shdr@),
        }
    }
}

/// The hydra of the `pdta` children at `ps`. Every child's contents are
/// read first (an I/O error if any is cut short); then the nine arrays are
/// taken in the order `phdr`, `pbag`, `pmod`, `pgen`, `inst`, `ibag`,
/// `imod`, `igen`, `shdr`, and the first that is missing or of a bad length
/// is the error.
pub open spec fn hydra_spec(bytes: Seq<u8>, ps: Seq<int>) -> Result<HydraModel, ErrorModel> {
    if !(forall|j: int| 0 <= j < ps.len() ==> contents_ok(bytes, #[trigger] ps[j])) {
        Err(ErrorModel::Io)
    } else {
        match part_spec::<PresetHeader>(bytes, ps, seq![0x70u8, 0x68u8, 0x64u8, 0x72u8], "missing 'phdr' chunk"@, 38) {
            Err(e) => Err(e),
            Ok(phdr) => match part_spec::<Bag>(bytes, ps, seq![0x70u8, 0x62u8, 0x61u8, 0x67u8], "missing 'pbag' chunk"@, 4) {
                Err(e) => Err(e),
                Ok(pbag) => match part_spec::<ModRecord>(bytes, ps, seq![0x70u8, 0x6du8, 0x6fu8, 0x64u8], "missing 'pmod' chunk"@, 10) {
                    Err(e) => Err(e),
                    Ok(pmod) => match part_spec::<GenRecord>(bytes, ps, seq![0x70u8, 0x67u8, 0x65u8, 0x6eu8], "missing 'pgen' chunk"@, 4) {
                        Err(e) => Err(e),
                        Ok(pgen) => match part_spec::<InstHeader>(bytes, ps, seq![0x69u8, 0x6eu8, 0x73u8, 0x74u8], "missing 'inst' chunk"@, 22) {
                            Err(e) => Err(e),
                            Ok(inst) => match part_spec::<Bag>(bytes, ps, seq![0x69u8, 0x62u8, 0x61u8, 0x67u8], "missing 'ibag' chunk"@, 4) {
                                Err(e) => Err(e),
                                Ok(ibag) => match part_spec::<ModRecord>(bytes, ps, seq![0x69u8, 0x6du8, 0x6fu8, 0x64u8], "missing 'imod' chunk"@, 10) {
                                    Err(e) => Err(e),
                                    Ok(imod) => match part_spec::<GenRecord>(bytes, ps, seq![0x69u8, 0x67u8, 0x65u8, 0x6eu8], "missing 'igen' chunk"@, 4) {
                                        Err(e) => Err(e),
                                        Ok(igen) => match part_spec::<SampleHeader>(bytes, ps, seq![0x73u8, 0x68u8, 0x64u8, 0x72u8], "missing 'shdr' chunk"@, 46) {
                                            Err(e) => Err(e),
                                            Ok(shdr) => Ok(
                                                HydraModel { phdr, pbag, pmod, pgen, inst, ibag, imod, igen, shdr },
                                            ),
                                        },
                                    },
                                },
                            },
                        },
                    },
                },
            },
        }
    }
}

/// The views of a list of byte vectors.
pub open spec fn data_views(datas: Seq<Vec<u8>>) -> Seq<Seq<u8>> {
    datas.map_values(|v: Vec<u8>| v@)
}

/// The contents of each chunk of a list.
pub open spec fn kid_contents(bytes: Seq<u8>, kids: Seq<RawChunk>) -> Seq<Seq<u8>> {
    kids.map_values(|c: RawChunk| contents_at(bytes, c.pos as int))
}

/// Every chunk's contents, read in order, are in `datas`.
pub open spec fn all_contents(bytes: Seq<u8>, kids: Seq<RawChunk>, datas: Seq<Vec<u8>>) -> bool {
    data_views(datas) == kid_contents(bytes, kids)
}

/// The records of the hydra chunk `name` among `kids`, whose contents are
/// `datas`.
fn part<T: HydraRecord>(
    bytes: &[u8],
    kids: &Vec<RawChunk>,
    datas: &Vec<Vec<u8>>,
    name: &[u8; 4],
    msg: &str,
    size: usize,
) -> (res: Result<Vec<T>, Error>)
    requires
        size > 0,
        all_read(bytes@, kids@),
        all_contents(bytes@, kids@, datas@),
    ensures
        match part_spec::<T>(bytes@, positions(kids@), name@, msg@, size as int) {
            Ok(m) => res matches Ok(v) && models(v@) == m,
            Err(e) => res matches Err(x) && x@ == e,
        },
{
    let ghost ps = positions(kids@);
    let mut i: usize = kids.len();
    assert(ps.take(i as int) =~= ps);
    assert(name@ =~= seq![name[0], name[1], name[2], name[3]]);
    while i > 0
        invariant
            i <= kids@.len(),
            ps == positions(kids@),
            all_read(bytes@, kids@),
            name@ == seq![name[0], name[1], name[2], name[3]],
            size > 0,
            all_contents(bytes@, kids@, datas@),
            last_with(bytes@, ps, name@) == last_with(bytes@, ps.take(i as int), name@),
        decreases i,
    {
        let c = &kids[i - 1];
        assert(chunk_header_ok(bytes@, kids@[i - 1].pos as int, kids@[i - 1]));
        assert(ps.take(i as int).last() == c.pos as int);
        assert(ps.take(i as int).drop_last() =~= ps.take(i - 1));
        if tag_eq(&c.id, name[0], name[1], name[2], name[3]) {
            assert(ps[i - 1] == c.pos as int);
            assert(data_views(datas@).len() == datas@.len());
            assert(kid_contents(bytes@, kids@).len() == kids@.len());
            assert(data_views(datas@)[i - 1] == datas@[i - 1]@);
            assert(kid_contents(bytes@, kids@)[i - 1] == contents_at(bytes@, ps[i - 1]));
            return records::<T>(datas[i - 1].as_slice(), size);
        }
        i = i - 1;
    }
    Err(format_error(msg))
}

/// Reads the `pdta` list `pdta` into its nine hydra arrays.
pub fn read_hydra(bytes: &[u8], pdta: &RawChunk) -> (res: Result<Hydra, Error>)
    requires
        addressable(bytes@),
        chunk_header_ok(bytes@, pdta.pos as int, *pdta),
    ensures
        match list_children(bytes@, pdta.pos as int) {
            None => res matches Err(e) && e@ == ErrorModel::Io,
            Some(ps) => match hydra_spec(bytes@, ps) {
                Ok(m) => res matches Ok(h) && h@ == m,
                Err(e) => res matches Err(x) && x@ == e,
            },
        },
{
    let kids = match children(bytes, pdta) {
        Ok(k) => k,
        Err(e) => return Err(e),
    };
    let ghost ps = positions(kids@);
    let mut datas: Vec<Vec<u8>> = Vec::new();
    let mut i: usize = 0;
    while i < kids.len()
        invariant
            i <= kids@.len(),
            ps == positions(kids@),
            list_children(bytes@, pdta.pos as int) == Some(ps),
            all_read(bytes@, kids@),
            data_views(datas@) == kid_contents(bytes@, kids@.take(i as int)),
            forall|j: int| 0 <= j < i ==> contents_ok(bytes@, #[trigger] ps[j]),
        decreases kids@.len() - i,
    {
        let c = &kids[i];
        assert(chunk_header_ok(bytes@, kids@[i as int].pos as int, kids@[i as int]));
        let d = match contents(bytes, c) {
            Ok(d) => d,
            Err(e) => {
                assert(!contents_ok(bytes@, ps[i as int]));
                return Err(e);
            },
        };
        let ghost before = datas@;
        datas.push(d);
        proof {
            assert(data_views(datas@) =~= data_views(before).push(d@));
            assert(kid_contents(bytes@, kids@.take(i + 1)) =~= kid_contents(
                bytes@,
                kids@.take(i as int),
            ).push(contents_at(bytes@, c.pos as int)));
        }
        i = i + 1;
    }
    assert(kids@.take(i as int) =~= kids@);
    let phdr = match part::<PresetHeader>(bytes, &kids, &datas, &[0x70, 0x68, 0x64, 0x72], "missing 'phdr' chunk", 38) {
        Ok(v) => v,
        Err(e) => return Err(e),
    };
    let pbag = match part::<Bag>(bytes, &kids, &datas, &[0x70, 0x62, 0x61, 0x67], "missing 'pbag' chunk", 4) {
        Ok(v) => v,
        Err(e) => return Err(e),
    };
    let pmod = match part::<ModRecord>(bytes, &kids, &datas, &[0x70, 0x6d, 0x6f, 0x64], "missing 'pmod' chunk", 10) {
        Ok(v) => v,
        Err(e) => return Err(e),
    };
    let pgen = match part::<GenRecord>(bytes, &kids, &datas, &[0x70, 0x67, 0x65, 0x6e], "missing 'pgen' chunk", 4) {
        Ok(v) => v,
        Err(e) => return Err(e),
    };
    let inst = match part::<InstHeader>(bytes, &kids, &datas, &[0x69, 0x6e, 0x73, 0x74], "missing 'inst' chunk", 22) {
        Ok(v) => v,
        Err(e) => return Err(e),
    };
    let ibag = match part::<Bag>(bytes, &kids, &datas, &[0x69, 0x62, 0x61, 0x67], "missing 'ibag' chunk", 4) {
        Ok(v) => v,
        Err(e) => return Err(e),
    };
    let imod = match part::<ModRecord>(bytes, &kids, &datas, &[0x69, 0x6d, 0x6f, 0x64], "missing 'imod' chunk", 10) {
        Ok(v) => v,
        Err(e) => return Err(e),
    };
    let igen = match part::<GenRecord>(bytes, &kids, &datas, &[0x69, 0x67, 0x65, 0x6e], "missing 'igen' chunk", 4) {
        Ok(v) => v,
        Err(e) => return Err(e),
    };
    let shdr = match part::<SampleHeader>(bytes, &kids, &datas, &[0x73, 0x68, 0x64, 0x72], "missing 'shdr' chunk", 46) {
        Ok(v) => v,
        Err(e) => return Err(e),
    };
    Ok(Hydra { phdr, pbag, pmod, pgen, inst, ibag, imod, igen, shdr })
}

} // verus!
