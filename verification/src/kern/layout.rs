//! How the columns of a `**kern` file change on a spine-manipulator line.
//!
//! Each column of the file feeds one voice (or none, for a spine that is
//! not `**kern`). An interpretation line whose fields include `*^`, `*v` or
//! `*-` rearranges the columns: `*^` splits a column in two, the right half
//! a new voice owned by the same spine; a run of adjacent `*v` joins its
//! columns into the first of them, whose time cursor becomes the latest of
//! theirs; `*-` ends a column. Columns with no field on the line are
//! dropped. The library computes the new layout from the old one; the
//! caller moves its per-column state (time cursors) accordingly.

use vstd::prelude::*;
use vstd::string::StrSliceExecFns;

verus! {

/// What one field of an interpretation line does to its column.
#[derive(Debug, Clone, Copy, PartialEq, Eq, Structural)]
pub enum SpineOp {
    /// `*^`: the column splits in two.
    Split,
    /// `*v`: the column joins its neighbours in a run of `*v`.
    Join,
    /// `*-`: the column ends.
    End,
    /// Anything else: the column carries on.
    Keep,
}

/// The operation a field names.
pub open spec fn spine_op_spec(field: Seq<char>) -> SpineOp {
    if field == seq!['*', '^'] {
        SpineOp::Split
    } else if field == seq!['*', 'v'] {
        SpineOp::Join
    } else if field == seq!['*', '-'] {
        SpineOp::End
    } else {
        SpineOp::Keep
    }
}

/// The operations the fields of a line name, in order.
pub open spec fn ops_of(fields: Seq<&str>) -> Seq<SpineOp> {
    fields.map_values(|f: &str| spine_op_spec(f@))
}

/// Reads the operation a field names.
pub fn spine_op(field: &str) -> (op: SpineOp)
    ensures
        op == spine_op_spec(field@),
{
    if field.unicode_len() != 2 || field.get_char(0) != '*' {
        proof {
            if field@.len() == 2 {
                assert(field@[0] != '*');
                assert(field@ != seq!['*', '^']);
                assert(field@ != seq!['*', 'v']);
                assert(field@ != seq!['*', '-']);
            }
        }
        return SpineOp::Keep;
    }
    let c = field.get_char(1);
    assert(field@ =~= seq!['*', c]);
    if c == '^' {
        SpineOp::Split
    } else if c == 'v' {
        SpineOp::Join
    } else if c == '-' {
        SpineOp::End
    } else {
        assert(field@ != seq!['*', '^']);
        assert(field@ != seq!['*', 'v']);
        assert(field@ != seq!['*', '-']);
        SpineOp::Keep
    }
}

/// Whether a line rearranges the columns: some field of it, whether or not
/// a column stands under it, splits, joins or ends one.
pub fn manipulates(fields: &[&str]) -> (b: bool)
    ensures
        b == exists|i: int| 0 <= i < fields@.len() && #[trigger] ops_of(fields@)[i] != SpineOp::Keep,
{
    let mut i: usize = 0;
    while i < fields.len()
        invariant
            i <= fields@.len(),
            forall|k: int| 0 <= k < i ==> #[trigger] ops_of(fields@)[k] == SpineOp::Keep,
        decreases fields@.len() - i,
    {
        if spine_op(fields[i]) != SpineOp::Keep {
            assert(ops_of(fields@)[i as int] != SpineOp::Keep);
            return true;
        }
        i = i + 1;
    }
    false
}

/// One column after a spine-manipulator line.
#[derive(Debug, Clone, Copy, PartialEq, Eq, Structural)]
pub struct Respined {
    /// The old column whose state this column carries on.
    pub first: usize,
    /// The last old column of the run joined into `first` (`first` itself
    /// when nothing was joined); the time cursor is the latest of the run.
    pub last: usize,
    /// The voice the column feeds.
    pub voice: Option<usize>,
    /// Whether the column is the new right half of a split.
    pub split: bool,
}

/// The columns laid out so far, the run of joins still open, and the number
/// of voices so far.
pub ghost struct Layout {
    pub out: Seq<Respined>,
    pub open: Option<(int, int)>,
    pub voices: int,
}

/// The column for a run of old columns `a..=b`.
pub open spec fn joined(columns: Seq<Option<usize>>, a: int, b: int) -> Respined {
    Respined { first: a as usize, last: b as usize, voice: columns[a], split: false }
}

/// The columns laid out, the open run of joins closed.
pub open spec fn closed(columns: Seq<Option<usize>>, l: Layout) -> Seq<Respined> {
    match l.open {
        Some((a, b)) => l.out.push(joined(columns, a, b)),
        None => l.out,
    }
}

/// The layout after the first `ops.len()` fields, over old columns
/// `columns`, starting from `voices` voices.
pub open spec fn layout_after(columns: Seq<Option<usize>>, ops: Seq<SpineOp>, voices: int) -> Layout
    decreases ops.len(),
{
    if ops.len() == 0 {
        Layout { out: seq![], open: None, voices }
    } else {
        let l = layout_after(columns, ops.drop_last(), voices);
        let i = ops.len() - 1;
        match ops.last() {
            SpineOp::Split => {
                let (voice, next) = match columns[i] {
                    Some(_) => (Some(l.voices as usize), l.voices + 1),
                    None => (None, l.voices),
                };
                let half = Respined { first: i as usize, last: i as usize, voice, split: true };
                Layout {
                    out: closed(columns, l).push(joined(columns, i, i)).push(half),
                    open: None,
                    voices: next,
                }
            },
            SpineOp::Join => Layout {
                out: l.out,
                open: match l.open {
                    Some((a, _)) => Some((a, i)),
                    None => Some((i, i)),
                },
                voices: l.voices,
            },
            SpineOp::End => Layout { out: closed(columns, l), open: None, voices: l.voices },
            SpineOp::Keep => Layout {
                out: closed(columns, l).push(joined(columns, i, i)),
                open: None,
                voices: l.voices,
            },
        }
    }
}

/// The new columns for a line whose fields name `ops`, over old columns
/// `columns`: only the fields that stand over a column count.
pub open spec fn respine_spec(columns: Seq<Option<usize>>, ops: Seq<SpineOp>, voices: int) -> Seq<
    Respined,
> {
    let n = if ops.len() < columns.len() {
        ops.len()
    } else {
        columns.len()
    };
    closed(columns, layout_after(columns, ops.take(n as int), voices))
}

/// Lays out the columns after a spine-manipulator line. `columns` gives the
/// voice each old column feeds; `voices` is how many voices there are. Each
/// split of a column that feeds a voice makes a new voice, numbered from
/// `voices` on in the order of the line.
pub fn respine(columns: &[Option<usize>], fields: &[&str], voices: usize) -> (out: Vec<Respined>)
    requires
        voices + fields@.len() <= usize::MAX,
    ensures
        out@ == respine_spec(columns@, ops_of(fields@), voices as int),
{
    let n = if fields.len() < columns.len() {
        fields.len()
    } else {
        columns.len()
    };
    let ghost ops = ops_of(fields@).take(n as int);
    let mut out: Vec<Respined> = Vec::new();
    let mut open: Option<(usize, usize)> = None;
    let mut next: usize = voices;
    let mut i: usize = 0;
    while i < n
        invariant
            n <= columns@.len(),
            n <= fields@.len(),
            ops == ops_of(fields@).take(n as int),
            voices + fields@.len() <= usize::MAX,
            i <= n,
            voices <= next <= voices + i,
            ({
                let l = layout_after(columns@, ops.take(i as int), voices as int);
                &&& out@ == l.out
                &&& l.voices == next
                &&& l.open == match open {
                    Some((a, b)) => Some((a as int, b as int)),
                    None => None::<(int, int)>,
                }
                &&& match l.open {
                    Some((a, b)) => 0 <= a <= b < i,
                    None => true,
                }
            }),
        decreases n - i,
    {
        let ghost before = ops.take(i as int);
        let ghost l = layout_after(columns@, before, voices as int);
        proof {
            assert(ops.take(i + 1).drop_last() =~= before);
            assert(ops.take(i + 1).last() == ops_of(fields@)[i as int]);
        }
        let op = spine_op(fields[i]);
        match op {
            SpineOp::Join => {
                open = match open {
                    Some((a, _)) => Some((a, i)),
                    None => Some((i, i)),
                };
            },
            _ => {
                if let Some((a, b)) = open {
                    out.push(Respined { first: a, last: b, voice: columns[a], split: false });
                }
                open = None;
                assert(out@ == closed(columns@, l));
                match op {
                    SpineOp::Split => {
                        out.push(Respined { first: i, last: i, voice: columns[i], split: false });
                        let voice = match columns[i] {
                            Some(_) => {
                                let v = next;
                                next = next + 1;
                                Some(v)
                            },
                            None => None,
                        };
                        out.push(Respined { first: i, last: i, voice, split: true });
                    },
                    SpineOp::Keep => {
                        out.push(Respined { first: i, last: i, voice: columns[i], split: false });
                    },
                    _ => {},
                }
            },
        }
        i = i + 1;
    }
    if let Some((a, b)) = open {
        out.push(Respined { first: a, last: b, voice: columns[a], split: false });
    }
    proof {
        assert(ops.take(n as int) =~= ops);
    }
    out
}

/// Whether no voice is fed by two columns.
pub open spec fn feeds_apart(voices: Seq<Option<usize>>) -> bool {
    forall|i: int, j: int|
        0 <= i < j < voices.len() && (#[trigger] voices[i]) is Some && (#[trigger] voices[j]) is Some
            ==> voices[i] != voices[j]
}

/// Whether every voice a column feeds is numbered below `count`.
pub open spec fn numbered_below(voices: Seq<Option<usize>>, count: int) -> bool {
    forall|i: int| 0 <= i < voices.len() && (#[trigger] voices[i]) is Some ==> voices[i]->0 < count
}

/// The voices a list of new columns feeds.
pub open spec fn voices_of(out: Seq<Respined>) -> Seq<Option<usize>> {
    out.map_values(|r: Respined| r.voice)
}

/// What holds of a layout after the first `n` fields: carried-on columns
/// keep their first old column's voice and come in the order of those
/// columns, after which any open run starts; the halves of splits feed new
/// voices, numbered in order from `voices` on.
pub open spec fn layout_inv(columns: Seq<Option<usize>>, l: Layout, n: int, voices: int) -> bool {
    &&& voices <= l.voices
    &&& forall|k: int|
        0 <= k < l.out.len() ==> {
            let r = #[trigger] l.out[k];
            if r.split {
                r.voice is Some ==> voices <= r.voice->0 < l.voices
            } else {
                r.first < n && r.voice == columns[r.first as int]
            }
        }
    &&& forall|k1: int, k2: int|
        0 <= k1 < k2 < l.out.len() && !(#[trigger] l.out[k1]).split && !(#[trigger] l.out[k2]).split
            ==> l.out[k1].first < l.out[k2].first
    &&& forall|k1: int, k2: int|
        0 <= k1 < k2 < l.out.len() && (#[trigger] l.out[k1]).split && (#[trigger] l.out[k2]).split
            && l.out[k1].voice is Some && l.out[k2].voice is Some ==> l.out[k1].voice->0
            < l.out[k2].voice->0
    &&& match l.open {
        Some((a, b)) => 0 <= a <= b < n && forall|k: int|
            0 <= k < l.out.len() && !(#[trigger] l.out[k]).split ==> l.out[k].first < a,
        None => true,
    }
}

proof fn lemma_closed_inv(columns: Seq<Option<usize>>, l: Layout, n: int, voices: int)
    requires
        layout_inv(columns, l, n, voices),
        n <= columns.len() <= usize::MAX,
    ensures
        layout_inv(columns, Layout { out: closed(columns, l), open: None, voices: l.voices }, n, voices),
{
    let out = closed(columns, l);
    match l.open {
        Some((a, b)) => {
            assert forall|k: int| 0 <= k < out.len() implies {
                let r = #[trigger] out[k];
                if r.split {
                    r.voice is Some ==> voices <= r.voice->0 < l.voices
                } else {
                    r.first < n && r.voice == columns[r.first as int]
                }
            } by {
                if k < l.out.len() {
                    assert(out[k] == l.out[k]);
                }
            }
            assert forall|k1: int, k2: int|
                0 <= k1 < k2 < out.len() && !(#[trigger] out[k1]).split && !(#[trigger] out[k2]).split
                    implies out[k1].first < out[k2].first by {
                assert(out[k1] == l.out[k1]);
                if k2 < l.out.len() {
                    assert(out[k2] == l.out[k2]);
                }
            }
            assert forall|k1: int, k2: int|
                0 <= k1 < k2 < out.len() && (#[trigger] out[k1]).split && (#[trigger] out[k2]).split
                    && out[k1].voice is Some && out[k2].voice is Some implies out[k1].voice->0
                < out[k2].voice->0 by {
                assert(out[k1] == l.out[k1]);
                assert(out[k2] == l.out[k2]);
            }
        },
        None => {},
    }
}

proof fn lemma_layout_inv(columns: Seq<Option<usize>>, ops: Seq<SpineOp>, voices: int)
    requires
        ops.len() <= columns.len(),
        0 <= voices,
        voices + columns.len() <= usize::MAX,
    ensures
        layout_inv(columns, layout_after(columns, ops, voices), ops.len() as int, voices),
        layout_after(columns, ops, voices).voices <= voices + ops.len(),
    decreases ops.len(),
{
    if ops.len() > 0 {
        let prev = ops.drop_last();
        lemma_layout_inv(columns, prev, voices);
        let l = layout_after(columns, prev, voices);
        let i = ops.len() - 1;
        let m = layout_after(columns, ops, voices);
        match ops.last() {
            SpineOp::Join => {
                assert(layout_inv(columns, m, ops.len() as int, voices));
            },
            _ => {
                lemma_closed_inv(columns, l, i, voices);
                let c = closed(columns, l);
                let lc = Layout { out: c, open: None, voices: l.voices };
                assert(layout_inv(columns, lc, i, voices));
                match ops.last() {
                    SpineOp::End => {
                        assert(m.out == c);
                        assert(layout_inv(columns, m, ops.len() as int, voices));
                    },
                    SpineOp::Keep => {
                        let out = c.push(joined(columns, i, i));
                        assert(m.out == out);
                        assert forall|k1: int, k2: int|
                            0 <= k1 < k2 < out.len() && !(#[trigger] out[k1]).split
                                && !(#[trigger] out[k2]).split implies out[k1].first
                            < out[k2].first by {
                            assert(out[k1] == c[k1]);
                            if k2 < c.len() {
                                assert(out[k2] == c[k2]);
                            }
                        }
                        assert forall|k1: int, k2: int|
                            0 <= k1 < k2 < out.len() && (#[trigger] out[k1]).split
                                && (#[trigger] out[k2]).split && out[k1].voice is Some
                                && out[k2].voice is Some implies out[k1].voice->0
                            < out[k2].voice->0 by {
                            assert(out[k1] == c[k1]);
                            assert(out[k2] == c[k2]);
                        }
                        assert forall|k: int| 0 <= k < out.len() implies {
                            let r = #[trigger] out[k];
                            if r.split {
                                r.voice is Some ==> voices <= r.voice->0 < m.voices
                            } else {
                                r.first < ops.len() && r.voice == columns[r.first as int]
                            }
                        } by {
                            if k < c.len() {
                                assert(out[k] == c[k]);
                            }
                        }
                    },
                    _ => {
                        let half = m.out.last();
                        assert(half.split && half.first == i);
                        assert(half.voice is Some ==> half.voice->0 == l.voices && m.voices == l.voices
                            + 1);
                        let mid = c.push(joined(columns, i, i));
                        let out = mid.push(half);
                        assert(m.out == out);
                        assert forall|k1: int, k2: int|
                            0 <= k1 < k2 < out.len() && !(#[trigger] out[k1]).split
                                && !(#[trigger] out[k2]).split implies out[k1].first
                            < out[k2].first by {
                            assert(out[k1] == mid[k1]);
                            assert(out[k2] == mid[k2]);
                            assert(mid[k1] == c[k1]);
                            if k2 < c.len() {
                                assert(mid[k2] == c[k2]);
                            }
                        }
                        assert forall|k1: int, k2: int|
                            0 <= k1 < k2 < out.len() && (#[trigger] out[k1]).split
                                && (#[trigger] out[k2]).split && out[k1].voice is Some
                                && out[k2].voice is Some implies out[k1].voice->0
                            < out[k2].voice->0 by {
                            assert(out[k1] == mid[k1]);
                            assert(mid[k1] == c[k1]);
                            if k2 < mid.len() {
                                assert(out[k2] == mid[k2]);
                                assert(mid[k2] == c[k2]);
                            }
                        }
                        assert forall|k: int| 0 <= k < out.len() implies {
                            let r = #[trigger] out[k];
                            if r.split {
                                r.voice is Some ==> voices <= r.voice->0 < m.voices
                            } else {
                                r.first < ops.len() && r.voice == columns[r.first as int]
                            }
                        } by {
                            if k < mid.len() {
                                assert(out[k] == mid[k]);
                                if k < c.len() {
                                    assert(mid[k] == c[k]);
                                }
                            }
                        }
                    },
                }
            },
        }
    }
}

/// A spine-manipulator line never has two columns feed one voice, when no
/// two did before and the voices were numbered below `voices`.
pub proof fn lemma_respine_feeds_apart(columns: Seq<Option<usize>>, ops: Seq<SpineOp>, voices: int)
    requires
        0 <= voices,
        voices + columns.len() <= usize::MAX,
        feeds_apart(columns),
        numbered_below(columns, voices),
    ensures
        feeds_apart(voices_of(respine_spec(columns, ops, voices))),
{
    let n = if ops.len() < columns.len() {
        ops.len()
    } else {
        columns.len()
    };
    let taken = ops.take(n as int);
    lemma_layout_inv(columns, taken, voices);
    let l = layout_after(columns, taken, voices);
    lemma_closed_inv(columns, l, n as int, voices);
    let out = closed(columns, l);
    let vs = voices_of(out);
    assert forall|i: int, j: int|
        0 <= i < j < vs.len() && (#[trigger] vs[i]) is Some && (#[trigger] vs[j]) is Some implies vs[i]
        != vs[j] by {
        let ri = out[i];
        let rj = out[j];
        assert(vs[i] == ri.voice && vs[j] == rj.voice);
        if !ri.split && !rj.split {
            assert(ri.first < rj.first);
            assert(columns[ri.first as int] != columns[rj.first as int]);
        } else if !ri.split && rj.split {
            assert(columns[ri.first as int] is Some);
            assert(ri.voice->0 < voices);
        } else if ri.split && !rj.split {
            assert(columns[rj.first as int] is Some);
            assert(rj.voice->0 < voices);
        }
    }
}

/// The index of the first character at or after `i` that is not `=`.
pub open spec fn past_equals(s: Seq<char>, i: int) -> int
    decreases s.len() - i,
{
    if 0 <= i < s.len() && s[i] == '=' {
        past_equals(s, i + 1)
    } else {
        i
    }
}

/// Whether `c` is an ASCII decimal digit.
pub open spec fn is_digit(c: char) -> bool {
    '0' <= c <= '9'
}

/// The index of the first character at or after `i` that is not a digit.
pub open spec fn past_digits(s: Seq<char>, i: int) -> int
    decreases s.len() - i,
{
    if 0 <= i < s.len() && is_digit(s[i]) {
        past_digits(s, i + 1)
    } else {
        i
    }
}

/// The number that a run of decimal digits writes.
pub open spec fn decimal(digits: Seq<char>) -> int
    decreases digits.len(),
{
    if digits.len() == 0 {
        0
    } else {
        decimal(digits.drop_last()) * 10 + (digits.last() as int - '0' as int)
    }
}

/// The bar number a barline field prints: the digits right after its
/// leading `=` signs, when there are some and they fit in 32 bits.
pub open spec fn measure_number_spec(field: Seq<char>) -> Option<u32> {
    let a = past_equals(field, 0);
    let b = past_digits(field, a);
    if a < b && decimal(field.subrange(a, b)) <= u32::MAX {
        Some(decimal(field.subrange(a, b)) as u32)
    } else {
        None
    }
}

/// The bar number after a barline: the printed one, or else the next one
/// once music has been read in the column, or else (the opening line of a
/// pickup bar) the current one.
pub open spec fn next_measure_spec(measure: u32, field: Seq<char>, begun: bool) -> int {
    match measure_number_spec(field) {
        Some(n) => n as int,
        None => if begun {
            measure + 1
        } else {
            measure as int
        },
    }
}

proof fn lemma_past_equals(s: Seq<char>, i: int)
    requires
        0 <= i <= s.len(),
    ensures
        i <= past_equals(s, i) <= s.len(),
        forall|k: int| i <= k < past_equals(s, i) ==> s[k] == '=',
        past_equals(s, i) < s.len() ==> s[past_equals(s, i)] != '=',
    decreases s.len() - i,
{
    if i < s.len() && s[i] == '=' {
        lemma_past_equals(s, i + 1);
    }
}

proof fn lemma_past_digits(s: Seq<char>, i: int)
    requires
        0 <= i <= s.len(),
    ensures
        i <= past_digits(s, i) <= s.len(),
        forall|k: int| i <= k < past_digits(s, i) ==> is_digit(s[k]),
        past_digits(s, i) < s.len() ==> !is_digit(s[past_digits(s, i)]),
    decreases s.len() - i,
{
    if i < s.len() && is_digit(s[i]) {
        lemma_past_digits(s, i + 1);
    }
}

/// Writing more digits never makes the number smaller.
proof fn lemma_decimal_grows(s: Seq<char>, j: int)
    requires
        0 <= j <= s.len(),
        forall|k: int| 0 <= k < s.len() ==> is_digit(#[trigger] s[k]),
    ensures
        0 <= decimal(s.take(j)) <= decimal(s),
    decreases s.len() - j,
{
    if j < s.len() {
        lemma_decimal_grows(s, j + 1);
        assert(s.take(j + 1).drop_last() =~= s.take(j));
    } else {
        assert(s.take(j) =~= s);
    }
    lemma_decimal_nonneg(s);
}

proof fn lemma_decimal_nonneg(s: Seq<char>)
    requires
        forall|k: int| 0 <= k < s.len() ==> is_digit(#[trigger] s[k]),
    ensures
        0 <= decimal(s),
    decreases s.len(),
{
    if s.len() > 0 {
        lemma_decimal_nonneg(s.drop_last());
    }
}

/// Reads the bar number a barline field prints, if it prints one.
pub fn measure_number(field: &str) -> (n: Option<u32>)
    ensures
        n == measure_number_spec(field@),
{
    let ghost s = field@;
    let len = field.unicode_len();
    let mut a: usize = 0;
    while a < len && field.get_char(a) == '='
        invariant
            s == field@,
            len == s.len(),
            a <= len,
            past_equals(s, 0) == past_equals(s, a as int),
        decreases len - a,
    {
        a = a + 1;
    }
    let mut b: usize = a;
    let mut value: u64 = 0;
    proof {
        assert(s.subrange(a as int, a as int) =~= Seq::<char>::empty());
    }
    while b < len && is_ascii_digit(field.get_char(b))
        invariant
            s == field@,
            len == s.len(),
            a == past_equals(s, 0),
            a <= b <= len,
            past_digits(s, a as int) == past_digits(s, b as int),
            forall|k: int| a <= k < b ==> is_digit(#[trigger] s[k]),
            value == decimal(s.subrange(a as int, b as int)),
            value <= u32::MAX,
        decreases len - b,
    {
        let c = field.get_char(b);
        let d: u64 = (c as u32 - '0' as u32) as u64;
        proof {
            assert(s.subrange(a as int, b + 1).drop_last() =~= s.subrange(a as int, b as int));
        }
        if value > (0xFFFF_FFFFu64 - d) / 10 {
            proof {
                let e = past_digits(s, a as int);
                lemma_past_digits(s, b as int);
                let run = s.subrange(a as int, e);
                assert(run.take(b + 1 - a) =~= s.subrange(a as int, b + 1));
                lemma_decimal_grows(run, b + 1 - a);
                assert(value * 10 + d > u32::MAX) by (nonlinear_arith)
                    requires
                        value > (0xFFFF_FFFFu64 - d) / 10,
                        d <= 9,
                ;
            }
            return None;
        }
        value = value * 10 + d;
        b = b + 1;
    }
    proof {
        lemma_past_digits(s, b as int);
    }
    if a < b {
        Some(value as u32)
    } else {
        None
    }
}

/// The bar number after a barline field: the printed number, or else one
/// more than `measure` when `begun` (music has been read in the column),
/// or else `measure`.
pub fn next_measure(measure: u32, field: &str, begun: bool) -> (m: u32)
    requires
        measure_number_spec(field@) is None && begun ==> measure < u32::MAX,
    ensures
        m == next_measure_spec(measure, field@, begun),
{
    match measure_number(field) {
        Some(n) => n,
        None => if begun {
            measure + 1
        } else {
            measure
        },
    }
}

/// Whether a character is an ASCII decimal digit.
fn is_ascii_digit(c: char) -> (b: bool)
    ensures
        b == is_digit(c),
{
    '0' <= c && c <= '9'
}

} // verus!
