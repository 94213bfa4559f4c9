//! The `pdta` records of a SoundFont (the "hydra"): their fixed-size
//! little-endian layouts and how the loader reads them.
//!
//! Every array is a flat sequence of fixed-size records. A preset header
//! stores the index of its first bag; the *next* header's index bounds it. A
//! bag stores the index of its first generator and first modulator; the next
//! bag's indices bound it. Each array ends in a terminal record that only
//! bounds the last real one.

use vstd::prelude::*;

use crate::soundfont::error::{Error, ErrorModel, format_error};
use crate::text::{lossy_text, trim_end, trim_end_spec, utf8_lossy};

verus! {

// ----- strings -----------------------------------------------------------------

/// The index of the first NUL byte of `d` at or after `i`, or `d.len()`.
pub open spec fn nul_from(d: Seq<u8>, i: int) -> int
    decreases d.len() - i,
{
    if i < 0 || i >= d.len() {
        d.len() as int
    } else if d[i] == 0 {
        i
    } else {
        nul_from(d, i + 1)
    }
}

/// A NUL-terminated, possibly padded string: the bytes before the first NUL,
/// decoded as (lossy) UTF-8, with trailing white space trimmed.
pub open spec fn zstr_spec(d: Seq<u8>) -> Seq<char> {
    trim_end_spec(lossy_text(d.take(nul_from(d, 0))))
}

/// Parses a NUL-terminated, possibly padded string, trimming trailing
/// whitespace and NULs.
pub fn parse_zstr(data: &[u8]) -> (s: String)
    ensures
        s@ == zstr_spec(data@),
{
    let mut end: usize = 0;
    while end < data.len() && data[end] != 0
        invariant
            end <= data@.len(),
            nul_from(data@, 0) == nul_from(data@, end as int),
        decreases data@.len() - end,
    {
        end = end + 1;
    }
    let text = utf8_lossy(&data[0..end]);
    trim_end(text.as_str())
}

// ----- little-endian fields -------------------------------------------------

/// A little-endian `u16` at `at`, or `0` if `d` is too short.
pub open spec fn le16_at(d: Seq<u8>, at: int) -> u16 {
    if 0 <= at && at + 2 <= d.len() {
        (d[at] + d[at + 1] * 256) as u16
    } else {
        0
    }
}

/// A little-endian `u32` at `at`, or `0` if `d` is too short.
pub open spec fn le32_at(d: Seq<u8>, at: int) -> u32 {
    if 0 <= at && at + 4 <= d.len() {
        (d[at] + d[at + 1] * 256 + d[at + 2] * 65536 + d[at + 3] * 16777216) as u32
    } else {
        0
    }
}

/// A byte at `at`, or `0` if `d` is too short.
pub open spec fn byte_at(d: Seq<u8>, at: int) -> u8 {
    if 0 <= at && at < d.len() {
        d[at]
    } else {
        0
    }
}

/// Two bytes at `at`, or zeroes if `d` is too short.
pub open spec fn pair_at(d: Seq<u8>, at: int) -> Seq<u8> {
    if 0 <= at && at + 2 <= d.len() {
        d.subrange(at, at + 2)
    } else {
        seq![0u8, 0u8]
    }
}

/// Reads two bytes at `at`, yielding zeroes if the slice is too short.
pub fn bytes_at(d: &[u8], at: usize) -> (b: [u8; 2])
    ensures
        b@ == pair_at(d@, at as int),
{
    if at <= d.len() && d.len() - at >= 2 {
        let b = [d[at], d[at + 1]];
        assert(b@ =~= d@.subrange(at as int, at + 2));
        b
    } else {
        let b = [0u8, 0u8];
        assert(b@ =~= seq![0u8, 0u8]);
        b
    }
}

/// A little-endian `u16` at `at`, `0` if the slice is too short.
pub fn le_u16(d: &[u8], at: usize) -> (v: u16)
    ensures
        v == le16_at(d@, at as int),
{
    let b = bytes_at(d, at);
    (b[0] as u16) + (b[1] as u16) * 256
}

/// A little-endian `i16` at `at`, `0` if the slice is too short.
pub fn le_i16(d: &[u8], at: usize) -> (v: i16)
    ensures
        v == le16_at(d@, at as int) as i16,
{
    le_u16(d, at) as i16
}

// ----- the sequential record reader -----------------------------------------------

/// The bytes of a record from offset `o` on (empty past its end).
pub open spec fn rest(r: Seq<u8>, o: int) -> Seq<u8> {
    if 0 <= o <= r.len() {
        r.skip(o)
    } else {
        seq![]
    }
}

/// A sequential little-endian reader over one fixed-size hydra record.
///
/// Reading sequentially rather than by byte offset lets each parser read like
/// the specification's field table, and keeps every access total: a short
/// record yields zeroes instead of panicking.
pub struct Record<'a>(pub &'a [u8]);

impl<'a> Record<'a> {
    /// Takes the next `n` bytes, or whatever remains if fewer are left.
    pub fn take(&mut self, n: usize) -> (head: &'a [u8])
        ensures
            head@ == old(self).0@.take(if n < old(self).0@.len() { n as int } else { old(self).0@.len() as int }),
            final(self).0@ == old(self).0@.skip(if n < old(self).0@.len() { n as int } else { old(self).0@.len() as int }),
    {
        let k = if n < self.0.len() {
            n
        } else {
            self.0.len()
        };
        let (head, tail) = self.0.split_at(k);
        self.0 = tail;
        head
    }

    /// The next byte, or `0` past the end.
    pub fn u8(&mut self) -> (v: u8)
        ensures
            v == byte_at(old(self).0@, 0),
            final(self).0@ == rest(old(self).0@, 1),
    {
        let b = self.take(1);
        if b.len() == 1 {
            b[0]
        } else {
            0
        }
    }

    /// The next byte as a signed value, or `0` past the end.
    pub fn i8(&mut self) -> (v: i8)
        ensures
            v == byte_at(old(self).0@, 0) as i8,
            final(self).0@ == rest(old(self).0@, 1),
    {
        self.u8() as i8
    }

    /// The next little-endian `u16`, or `0` if fewer than two bytes remain.
    pub fn u16(&mut self) -> (v: u16)
        ensures
            v == le16_at(old(self).0@, 0),
            final(self).0@ == rest(old(self).0@, 2),
    {
        let b = self.take(2);
        if b.len() == 2 {
            (b[0] as u16) + (b[1] as u16) * 256
        } else {
            0
        }
    }

    /// The next little-endian `i16`, or `0` if fewer than two bytes remain.
    pub fn i16(&mut self) -> (v: i16)
        ensures
            v == le16_at(old(self).0@, 0) as i16,
            final(self).0@ == rest(old(self).0@, 2),
    {
        self.u16() as i16
    }

    /// The next little-endian `u32`, or `0` if fewer than four bytes remain.
    pub fn u32(&mut self) -> (v: u32)
        ensures
            v == le32_at(old(self).0@, 0),
            final(self).0@ == rest(old(self).0@, 4),
    {
        let b = self.take(4);
        if b.len() == 4 {
            (b[0] as u32) + (b[1] as u32) * 256 + (b[2] as u32) * 65536 + (b[3] as u32) * 16777216
        } else {
            0
        }
    }

    /// Takes a fixed-width, NUL-padded name field.
    pub fn name(&mut self, width: usize) -> (s: String)
        ensures
            s@ == zstr_spec(old(self).0@.take(if width < old(self).0@.len() { width as int } else { old(self).0@.len() as int })),
            final(self).0@ == old(self).0@.skip(if width < old(self).0@.len() { width as int } else { old(self).0@.len() as int }),
    {
        parse_zstr(self.take(width))
    }

    /// Takes the raw two-byte generator amount, whose meaning depends on the
    /// generator it belongs to.
    pub fn amount(&mut self) -> (a: [u8; 2])
        ensures
            a@ == pair_at(old(self).0@, 0),
            final(self).0@ == rest(old(self).0@, 2),
    {
        let b = self.take(2);
        if b.len() == 2 {
            let a = [b[0], b[1]];
            assert(a@ =~= old(self).0@.subrange(0, 2));
            a
        } else {
            let a = [0u8, 0u8];
            assert(a@ =~= seq![0u8, 0u8]);
            a
        }
    }
}

/// Stepping `n` bytes on from offset `o`.
pub proof fn lemma_rest_step(r: Seq<u8>, o: int, n: int)
    requires
        0 <= o,
        0 <= n,
    ensures
        rest(r, o).skip(if n < rest(r, o).len() { n } else { rest(r, o).len() as int }) == rest(r, o + n),
        rest(rest(r, o), n) == rest(r, o + n),
        forall|k: int| 0 <= k < rest(r, o).len() ==> #[trigger] rest(r, o)[k] == r[o + k],
        rest(r, o).len() == if o <= r.len() { r.len() - o } else { 0 },
{
    assert(rest(r, o).skip(if n < rest(r, o).len() { n } else { rest(r, o).len() as int }) =~= rest(r, o + n));
    assert(rest(rest(r, o), n) =~= rest(r, o + n));
}

/// Reading a field at the start of `rest(r, o)` reads the field at `o`.
pub proof fn lemma_rest_fields(r: Seq<u8>, o: int)
    requires
        0 <= o,
    ensures
        le16_at(rest(r, o), 0) == le16_at(r, o),
        le32_at(rest(r, o), 0) == le32_at(r, o),
        byte_at(rest(r, o), 0) == byte_at(r, o),
        pair_at(rest(r, o), 0) == pair_at(r, o),
        rest(r, 0) == r,
{
    lemma_rest_step(r, o, 0);
    assert(r.skip(0) =~= r);
    if o + 2 <= r.len() {
        assert(rest(r, o).subrange(0, 2) =~= r.subrange(o, o + 2));
    }
}

/// Taking `n` bytes leaves the record from offset `n` on.
pub proof fn lemma_take_first(r: Seq<u8>, n: int)
    requires
        0 <= n,
    ensures
        r.skip(if n < r.len() { n } else { r.len() as int }) == rest(r, n),
{
    assert(r.skip(if n < r.len() { n } else { r.len() as int }) =~= rest(r, n));
}

// ----- the record types -----------------------------------------------------

/// A fixed-size hydra record type, read from its bytes.
pub trait HydraRecord: Sized {
    /// The record as a value of the model.
    type Model;

    /// This record as a value of the model.
    spec fn model(&self) -> Self::Model;

    /// What the record bytes `r` read as.
    spec fn of_bytes(r: Seq<u8>) -> Self::Model;

    /// Reads a record from its bytes.
    fn parse(r: &[u8]) -> (x: Self)
        ensures
            x.model() == Self::of_bytes(r@),
    ;
}

/// The `i`-th record of `size` bytes in `data`.
pub open spec fn record_at(data: Seq<u8>, size: int, i: int) -> Seq<u8> {
    data.subrange(i * size, i * size + size)
}

/// The records of `size` bytes that `data` holds, as values of the model.
pub open spec fn records_spec<T: HydraRecord>(data: Seq<u8>, size: int) -> Seq<T::Model> {
    Seq::new(((data.len() as int) / size) as nat, |i: int| T::of_bytes(record_at(data, size, i)))
}

/// A list of records as values of the model.
pub open spec fn models<T: HydraRecord>(v: Seq<T>) -> Seq<T::Model> {
    v.map_values(|x: T| x.model())
}

/// The message for a hydra chunk of the wrong length.
pub open spec fn msg_record_size() -> Seq<char> {
    "hydra chunk length is not a multiple of the record size"@
}

/// Splits a hydra chunk into fixed-size records and parses each one.
pub fn records<T: HydraRecord>(data: &[u8], size: usize) -> (res: Result<Vec<T>, Error>)
    requires
        size > 0,
    ensures
        res is Ok <==> (data@.len() as int) % (size as int) == 0,
        res matches Err(e) ==> e@ == ErrorModel::Format(msg_record_size()),
        res matches Ok(v) ==> models(v@) == records_spec::<T>(data@, size as int),
{
    if data.len() % size != 0 {
        return Err(format_error("hydra chunk length is not a multiple of the record size"));
    }
    let mut out: Vec<T> = Vec::new();
    let mut off: usize = 0;
    assert(out@.len() * size == 0) by (nonlinear_arith)
        requires
            out@.len() == 0,
    ;
    while off < data.len()
        invariant
            size > 0,
            (data@.len() as int) % (size as int) == 0,
            off <= data@.len(),
            off == out@.len() * size,
            forall|i: int| 0 <= i < out@.len() ==> #[trigger] out@[i].model() == T::of_bytes(
                record_at(data@, size as int, i),
            ),
        decreases data@.len() - off,
    {
        proof {
            let n = out@.len() as int;
            let sz = size as int;
            let l = data@.len() as int;
            assert(off + sz <= l) by (nonlinear_arith)
                requires
                    off == n * sz,
                    off < l,
                    l % sz == 0,
                    sz > 0,
            {
                let q = l / sz;
                assert(l == q * sz);
                assert(n < q) by (nonlinear_arith)
                    requires n * sz < q * sz, sz > 0;
                assert((n + 1) * sz <= q * sz) by (nonlinear_arith)
                    requires n + 1 <= q, sz > 0;
            }
            assert((n + 1) * sz == n * sz + sz) by (nonlinear_arith);
        }
        let x = T::parse(&data[off..off + size]);
        out.push(x);
        off = off + size;
    }
    proof {
        let sz = size as int;
        let n = out@.len() as int;
        assert(n == (data@.len() as int) / sz) by (nonlinear_arith)
            requires
                n * sz == data@.len(),
                sz > 0,
        ;
        assert(models(out@) =~= records_spec::<T>(data@, sz));
    }
    Ok(out)
}

/// One `phdr` record (`SFPresetHeader`).
pub struct PresetHeader {
    pub name: String,
    pub program: u16,
    pub bank: u16,
    pub bag: u16,
    pub library: u32,
    pub genre: u32,
    pub morphology: u32,
}

/// The at most `w` bytes of a field starting at `o`, as a name.
pub open spec fn name_at(r: Seq<u8>, o: int, w: int) -> Seq<char> {
    let t = rest(r, o);
    zstr_spec(t.take(if w < t.len() { w } else { t.len() as int }))
}

/// A `phdr` record as a value of the model.
pub ghost struct PresetHeaderModel {
    pub name: Seq<char>,
    pub program: u16,
    pub bank: u16,
    pub bag: u16,
    pub library: u32,
    pub genre: u32,
    pub morphology: u32,
}

impl HydraRecord for PresetHeader {
    type Model = PresetHeaderModel;

    open spec fn model(&self) -> PresetHeaderModel {
        PresetHeaderModel {
            name: self.name@,
            program: self.program,
            bank: self.bank,
            bag: self.bag,
            library: self.library,
            genre: self.genre,
            morphology: self.morphology,
        }
    }

    open spec fn of_bytes(r: Seq<u8>) -> PresetHeaderModel {
        PresetHeaderModel {
            name: name_at(r, 0, 20),
            program: le16_at(r, 20),
            bank: le16_at(r, 22),
            bag: le16_at(r, 24),
            library: le32_at(r, 26),
            genre: le32_at(r, 30),
            morphology: le32_at(r, 34),
        }
    }

    fn parse(r: &[u8]) -> (x: Self) {
        parse_phdr(r)
    }
}

/// Reads one `phdr` record.
pub fn parse_phdr(r: &[u8]) -> (h: PresetHeader)
    ensures
        h.model() == <PresetHeader as HydraRecord>::of_bytes(r@),
{
    proof {
        lemma_rest_fields(r@, 0);
        lemma_take_first(r@, 20);
        lemma_rest_step(r@, 20, 2);
        lemma_rest_step(r@, 22, 2);
        lemma_rest_step(r@, 24, 2);
        lemma_rest_step(r@, 26, 4);
        lemma_rest_step(r@, 30, 4);
        lemma_rest_fields(r@, 20);
        lemma_rest_fields(r@, 22);
        lemma_rest_fields(r@, 24);
        lemma_rest_fields(r@, 26);
        lemma_rest_fields(r@, 30);
        lemma_rest_fields(r@, 34);
    }
    let mut rec = Record(r);
    let name = rec.name(20);
    let program = rec.u16();
    let bank = rec.u16();
    let bag = rec.u16();
    let library = rec.u32();
    let genre = rec.u32();
    let morphology = rec.u32();
    PresetHeader { name, program, bank, bag, library, genre, morphology }
}

/// One `inst` record (`SFInst`).
pub struct InstHeader {
    pub name: String,
    pub bag: u16,
}

/// An `inst` record as a value of the model.
pub ghost struct InstHeaderModel {
    pub name: Seq<char>,
    pub bag: u16,
}

impl HydraRecord for InstHeader {
    type Model = InstHeaderModel;

    open spec fn model(&self) -> InstHeaderModel {
        InstHeaderModel { name: self.name@, bag: self.bag }
    }

    open spec fn of_bytes(r: Seq<u8>) -> InstHeaderModel {
        InstHeaderModel { name: name_at(r, 0, 20), bag: le16_at(r, 20) }
    }

    fn parse(r: &[u8]) -> (x: Self) {
        parse_inst(r)
    }
}

/// Reads one `inst` record.
pub fn parse_inst(r: &[u8]) -> (h: InstHeader)
    ensures
        h.model() == <InstHeader as HydraRecord>::of_bytes(r@),
{
    proof {
        lemma_rest_fields(r@, 0);
        lemma_take_first(r@, 20);
        lemma_rest_fields(r@, 20);
    }
    let mut rec = Record(r);
    let name = rec.name(20);
    let bag = rec.u16();
    InstHeader { name, bag }
}

/// One `pbag`/`ibag` record (`SFBag`).
#[derive(Debug, Clone, Copy, PartialEq, Eq, Structural)]
pub struct Bag {
    pub gen_ndx: u16,
    pub mod_ndx: u16,
}

impl HydraRecord for Bag {
    type Model = Bag;

    open spec fn model(&self) -> Bag {
        *self
    }

    open spec fn of_bytes(r: Seq<u8>) -> Bag {
        Bag { gen_ndx: le16_at(r, 0), mod_ndx: le16_at(r, 2) }
    }

    fn parse(r: &[u8]) -> (x: Self) {
        parse_bag(r)
    }
}

/// Reads one `pbag`/`ibag` record.
pub fn parse_bag(r: &[u8]) -> (b: Bag)
    ensures
        b.model() == <Bag as HydraRecord>::of_bytes(r@),
{
    proof {
        lemma_rest_fields(r@, 0);
        lemma_rest_step(r@, 0, 2);
        lemma_rest_fields(r@, 2);
    }
    let mut rec = Record(r);
    let gen_ndx = rec.u16();
    let mod_ndx = rec.u16();
    Bag { gen_ndx, mod_ndx }
}

/// One `pmod`/`imod` record (`SFModList`).
#[derive(Debug, Clone, Copy, PartialEq, Eq, Structural)]
pub struct ModRecord {
    pub src: u16,
    pub dest: u16,
    pub amount: i16,
    pub amt_src: u16,
    pub trans: u16,
}

impl HydraRecord for ModRecord {
    type Model = ModRecord;

    open spec fn model(&self) -> ModRecord {
        *self
    }

    open spec fn of_bytes(r: Seq<u8>) -> ModRecord {
        ModRecord {
            src: le16_at(r, 0),
            dest: le16_at(r, 2),
            amount: le16_at(r, 4) as i16,
            amt_src: le16_at(r, 6),
            trans: le16_at(r, 8),
        }
    }

    fn parse(r: &[u8]) -> (x: Self) {
        parse_mod(r)
    }
}

/// Reads one `pmod`/`imod` record.
pub fn parse_mod(r: &[u8]) -> (m: ModRecord)
    ensures
        m.model() == <ModRecord as HydraRecord>::of_bytes(r@),
{
    proof {
        lemma_rest_fields(r@, 0);
        lemma_rest_step(r@, 0, 2);
        lemma_rest_step(r@, 2, 2);
        lemma_rest_step(r@, 4, 2);
        lemma_rest_step(r@, 6, 2);
        lemma_rest_fields(r@, 2);
        lemma_rest_fields(r@, 4);
        lemma_rest_fields(r@, 6);
        lemma_rest_fields(r@, 8);
    }
    let mut rec = Record(r);
    let src = rec.u16();
    let dest = rec.u16();
    let amount = rec.i16();
    let amt_src = rec.u16();
    let trans = rec.u16();
    ModRecord { src, dest, amount, amt_src, trans }
}

/// One `pgen`/`igen` record (`SFGenList`).
#[derive(Debug, Clone, Copy, PartialEq, Eq)]
pub struct GenRecord {
    pub oper: u16,
    pub amount: [u8; 2],
}

/// A `pgen`/`igen` record as a value of the model.
pub ghost struct GenModel {
    pub oper: u16,
    pub amount: Seq<u8>,
}

impl HydraRecord for GenRecord {
    type Model = GenModel;

    open spec fn model(&self) -> GenModel {
        GenModel { oper: self.oper, amount: self.amount@ }
    }

    open spec fn of_bytes(r: Seq<u8>) -> GenModel {
        GenModel { oper: le16_at(r, 0), amount: pair_at(r, 2) }
    }

    fn parse(r: &[u8]) -> (x: Self) {
        parse_gen(r)
    }
}

/// Reads one `pgen`/`igen` record.
pub fn parse_gen(r: &[u8]) -> (g: GenRecord)
    ensures
        g.model() == <GenRecord as HydraRecord>::of_bytes(r@),
{
    proof {
        lemma_rest_fields(r@, 0);
        lemma_rest_step(r@, 0, 2);
        lemma_rest_fields(r@, 2);
    }
    let mut rec = Record(r);
    let oper = rec.u16();
    let amount = rec.amount();
    GenRecord { oper, amount }
}

/// One `shdr` record (`SFSample`).
pub struct SampleHeader {
    pub name: String,
    pub start: u32,
    pub end: u32,
    pub start_loop: u32,
    pub end_loop: u32,
    pub sample_rate: u32,
    pub original_key: u8,
    pub correction: i8,
    pub link: u16,
    pub sample_type: u16,
}

/// An `shdr` record as a value of the model.
pub ghost struct SampleHeaderModel {
    pub name: Seq<char>,
    pub start: u32,
    pub end: u32,
    pub start_loop: u32,
    pub end_loop: u32,
    pub sample_rate: u32,
    pub original_key: u8,
    pub correction: i8,
    pub link: u16,
    pub sample_type: u16,
}

impl HydraRecord for SampleHeader {
    type Model = SampleHeaderModel;

    open spec fn model(&self) -> SampleHeaderModel {
        SampleHeaderModel {
            name: self.name@,
            start: self.start,
            end: self.end,
            start_loop: self.start_loop,
            end_loop: self.end_loop,
            sample_rate: self.sample_rate,
            original_key: self.original_key,
            correction: self.correction,
            link: self.link,
            sample_type: self.sample_type,
        }
    }

    open spec fn of_bytes(r: Seq<u8>) -> SampleHeaderModel {
        SampleHeaderModel {
            name: name_at(r, 0, 20),
            start: le32_at(r, 20),
            end: le32_at(r, 24),
            start_loop: le32_at(r, 28),
            end_loop: le32_at(r, 32),
            sample_rate: le32_at(r, 36),
            original_key: byte_at(r, 40),
            correction: byte_at(r, 41) as i8,
            link: le16_at(r, 42),
            sample_type: le16_at(r, 44),
        }
    }

    fn parse(r: &[u8]) -> (x: Self) {
        parse_shdr(r)
    }
}

/// Reads one `shdr` record.
pub fn parse_shdr(r: &[u8]) -> (h: SampleHeader)
    ensures
        h.model() == <SampleHeader as HydraRecord>::of_bytes(r@),
{
    proof {
        lemma_rest_fields(r@, 0);
        lemma_take_first(r@, 20);
        lemma_rest_step(r@, 20, 4);
        lemma_rest_step(r@, 24, 4);
        lemma_rest_step(r@, 28, 4);
        lemma_rest_step(r@, 32, 4);
        lemma_rest_step(r@, 36, 4);
        lemma_rest_step(r@, 40, 1);
        lemma_rest_step(r@, 41, 1);
        lemma_rest_step(r@, 42, 2);
        lemma_rest_fields(r@, 20);
        lemma_rest_fields(r@, 24);
        lemma_rest_fields(r@, 28);
        lemma_rest_fields(r@, 32);
        lemma_rest_fields(r@, 36);
        lemma_rest_fields(r@, 40);
        lemma_rest_fields(r@, 41);
        lemma_rest_fields(r@, 42);
        lemma_rest_fields(r@, 44);
    }
    let mut rec = Record(r);
    let name = rec.name(20);
    let start = rec.u32();
    let end = rec.u32();
    let start_loop = rec.u32();
    let end_loop = rec.u32();
    let sample_rate = rec.u32();
    let original_key = rec.u8();
    let correction = rec.i8();
    let link = rec.u16();
    let sample_type = rec.u16();
    SampleHeader {
        name,
        start,
        end,
        start_loop,
        end_loop,
        sample_rate,
        original_key,
        correction,
        link,
        sample_type,
    }
}

} // verus!
