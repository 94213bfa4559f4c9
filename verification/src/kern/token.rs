//! Reading a single `**kern` data token: its notes, each with its duration
//! field, pitch, tie, ornaments and grace flag.
//!
//! A note is read character by character. Its duration field (`**recip`:
//! digits, `%` for a ratio, `.` for dots) comes first; a pitch letter, a
//! rest, accidentals, ties, grace marks and ornaments may follow in any
//! order; everything else (beams, stems, slurs, articulations) is layout
//! and is skipped. The field is kept as written: what it is in crotchets is
//! a floating-point value, computed by the caller.

use vstd::prelude::*;
use vstd::string::StrSliceExecFns;

use crate::kern::{Tie, split_on};

verus! {

/// One sounding element of a data token.
#[derive(Debug, Clone, PartialEq)]
pub struct Parsed {
    /// The duration field as written (`4`, `8`, `0`, `3%2`): digits and at
    /// most one `%` that counts. It names a duration, and the note lasts it
    /// plus its dots, unless it is a grace note, which takes no time.
    pub recip: Vec<char>,
    /// Augmentation dots after the duration field.
    pub dots: u32,
    /// MIDI key, or `None` for a rest.
    pub midi: Option<i32>,
    /// Tie state.
    pub tie: Tie,
    /// Ornament signs.
    pub ornaments: Vec<char>,
    /// Whether this is a grace note (`q`/`Q`).
    pub grace: bool,
}

/// A note as a value of the model.
pub ghost struct ParsedModel {
    pub recip: Seq<char>,
    pub dots: nat,
    pub midi: Option<int>,
    pub tie: Tie,
    pub ornaments: Seq<char>,
    pub grace: bool,
}

impl View for Parsed {
    type V = ParsedModel;

    open spec fn view(&self) -> ParsedModel {
        ParsedModel {
            recip: self.recip@,
            dots: self.dots as nat,
            midi: match self.midi {
                Some(m) => Some(m as int),
                None => None,
            },
            tie: self.tie,
            ornaments: self.ornaments@,
            grace: self.grace,
        }
    }
}

/// The state of the reading after a prefix of a note.
pub ghost struct Scan {
    /// The duration field so far.
    pub recip: Seq<char>,
    /// Dots after it.
    pub dots: nat,
    /// The pitch letter, once one is seen.
    pub letter: Option<char>,
    /// How many times the letter was written.
    pub count: int,
    /// Sharps minus flats since the last natural.
    pub accidental: int,
    /// Whether an `r` was seen.
    pub rest: bool,
    /// The last tie mark.
    pub tie: Tie,
    /// The ornament signs so far.
    pub ornaments: Seq<char>,
    /// Whether a grace mark was seen.
    pub grace: bool,
    /// Whether the duration field may still grow.
    pub in_recip: bool,
}

/// Before the first character.
pub open spec fn scan_start() -> Scan {
    Scan {
        recip: seq![],
        dots: 0,
        letter: None,
        count: 0,
        accidental: 0,
        rest: false,
        tie: Tie::Untied,
        ornaments: seq![],
        grace: false,
        in_recip: true,
    }
}

/// A decimal digit.
pub open spec fn is_digit(c: char) -> bool {
    '0' <= c <= '9'
}

/// A pitch letter: `a`–`g` above middle C's octave, `A`–`G` below.
pub open spec fn is_letter(c: char) -> bool {
    ('a' <= c <= 'g') || ('A' <= c <= 'G')
}

/// An ornament sign.
pub open spec fn is_ornament(c: char) -> bool {
    c == 'T' || c == 't' || c == 'M' || c == 'm' || c == 'W' || c == 'w' || c == 'S' || c == '$'
        || c == 'O' || c == 'o' || c == 'P' || c == 'p'
}

/// The reading after one more character; `None` once a second, different
/// pitch letter appears.
pub open spec fn scan_step(st: Scan, c: char) -> Option<Scan> {
    if (is_digit(c) || c == '%') && st.in_recip {
        Some(Scan { recip: st.recip.push(c), ..st })
    } else if c == '.' && st.in_recip && st.recip.len() > 0 {
        Some(Scan { dots: st.dots + 1, ..st })
    } else if is_letter(c) {
        match st.letter {
            Some(l) => if l == c {
                Some(Scan { in_recip: false, count: st.count + 1, ..st })
            } else {
                None
            },
            None => Some(Scan { in_recip: false, letter: Some(c), count: 1, ..st }),
        }
    } else if c == 'r' {
        Some(Scan { in_recip: false, rest: true, ..st })
    } else if c == '#' {
        Some(Scan { accidental: st.accidental + 1, ..st })
    } else if c == '-' {
        Some(Scan { accidental: st.accidental - 1, ..st })
    } else if c == 'n' {
        Some(Scan { accidental: 0, ..st })
    } else if c == '[' {
        Some(Scan { tie: Tie::Start, ..st })
    } else if c == '_' {
        Some(Scan { tie: Tie::Continue, ..st })
    } else if c == ']' {
        Some(Scan { tie: Tie::End, ..st })
    } else if c == 'q' || c == 'Q' {
        Some(Scan { grace: true, ..st })
    } else if is_ornament(c) {
        Some(Scan { ornaments: st.ornaments.push(c), ..st })
    } else if st.recip.len() > 0 {
        // Layout marks; once the field has begun they end it.
        Some(Scan { in_recip: false, ..st })
    } else {
        Some(st)
    }
}

/// The reading after all of `s`.
pub open spec fn scan(s: Seq<char>) -> Option<Scan>
    decreases s.len(),
{
    if s.len() == 0 {
        Some(scan_start())
    } else {
        match scan(s.drop_last()) {
            None => None,
            Some(st) => scan_step(st, s.last()),
        }
    }
}

/// Whether every character of `d` is `0`.
pub open spec fn all_zeros(d: Seq<char>) -> bool {
    forall|i: int| 0 <= i < d.len() ==> d[i] == '0'
}

/// The index of the first `%` in `r`.
pub open spec fn first_pct(r: Seq<char>) -> Option<int>
    decreases r.len(),
{
    if r.len() == 0 {
        None
    } else if r[0] == '%' {
        Some(0)
    } else {
        match first_pct(r.drop_first()) {
            Some(k) => Some(k + 1),
            None => None,
        }
    }
}

/// Whether a duration field names a duration: `a%b` with both sides
/// numbers and `a` not zero; `0`, `00` or `000` (a breve, a long, a
/// maxima); or any other number that is not zero.
pub open spec fn recip_ok(r: Seq<char>) -> bool {
    &&& r.len() > 0
    &&& match first_pct(r) {
        Some(k) => {
            let a = r.take(k);
            let b = r.skip(k + 1);
            &&& a.len() > 0
            &&& !all_zeros(a)
            &&& b.len() > 0
            &&& first_pct(b) is None
        },
        None => r == seq!['0'] || r == seq!['0', '0'] || r == seq!['0', '0', '0'] || !all_zeros(r),
    }
}

/// The semitone of a pitch letter above C.
pub open spec fn letter_base(l: char) -> int {
    if l == 'c' || l == 'C' {
        0
    } else if l == 'd' || l == 'D' {
        2
    } else if l == 'e' || l == 'E' {
        4
    } else if l == 'f' || l == 'F' {
        5
    } else if l == 'g' || l == 'G' {
        7
    } else if l == 'a' || l == 'A' {
        9
    } else {
        11
    }
}

/// The MIDI key of a letter written `count` times with `accidental`
/// sharps: `c` is middle C (60), each repetition of a lower-case letter
/// goes an octave up, each upper-case letter an octave down from `c`'s.
pub open spec fn pitch(l: char, count: int, accidental: int) -> int {
    let octave = if 'a' <= l <= 'z' {
        4 + (count - 1)
    } else {
        4 - count
    };
    12 * (octave + 1) + letter_base(l) + accidental
}

/// One note read from `s`: `None` when its duration field names no
/// duration (unless it is a grace note), when it has neither a pitch letter
/// nor a rest, or when it holds two different letters.
pub open spec fn note_spec(s: Seq<char>) -> Option<ParsedModel> {
    match scan(s) {
        None => None,
        Some(st) => if !st.grace && !recip_ok(st.recip) {
            None
        } else if !st.rest && st.letter is None {
            None
        } else {
            Some(
                ParsedModel {
                    recip: st.recip,
                    dots: st.dots,
                    midi: if st.rest {
                        None
                    } else {
                        Some(pitch(st.letter->0, st.count, st.accidental))
                    },
                    tie: st.tie,
                    ornaments: st.ornaments,
                    grace: st.grace,
                },
            )
        },
    }
}

/// The pitch a single note reads as, if it reads as one with a pitch.
pub open spec fn midi_of(s: Seq<char>) -> Option<int> {
    match note_spec(s) {
        Some(m) => m.midi,
        None => None,
    }
}

/// The seven pitch letters in the order of the scale from C.
pub open spec fn scale_letters() -> Seq<char> {
    seq!['c', 'd', 'e', 'f', 'g', 'a', 'b']
}

/// The same letters in capitals.
pub open spec fn scale_capitals() -> Seq<char> {
    seq!['C', 'D', 'E', 'F', 'G', 'A', 'B']
}

/// Whether `k` is a white key of the octave from middle C (the C major
/// scale from MIDI key 60).
pub open spec fn white_key_from_middle_c(k: int) -> bool {
    k == 60 || k == 62 || k == 64 || k == 65 || k == 67 || k == 69 || k == 71
}

/// A crotchet written with one pitch letter reads as that letter's pitch.
proof fn lemma_one_letter(l: char)
    requires
        is_letter(l),
    ensures
        midi_of(seq!['4', l]) == Some(pitch(l, 1, 0)),
{
    let s = seq!['4', l];
    let e = Seq::<char>::empty();
    assert(s.drop_last() =~= seq!['4']);
    assert(seq!['4'].drop_last() =~= e);
    assert(scan(e) == Some(scan_start()));
    let st1 = Scan { recip: seq!['4'], ..scan_start() };
    assert(scan_step(scan_start(), '4') == Some(Scan { recip: e.push('4'), ..scan_start() }));
    assert(e.push('4') =~= seq!['4']);
    assert(scan(seq!['4']) == Some(st1));
    assert(scan(s) == scan_step(st1, l));
    let r = seq!['4'];
    assert(r.drop_first() =~= e);
    assert(first_pct(e) is None);
    assert(r[0] == '4');
    assert(first_pct(r) == match first_pct(r.drop_first()) {
        Some(k) => Some(k + 1),
        None => None::<int>,
    });
    assert(first_pct(r) is None);
    assert(r[0] != '0');
    assert(!all_zeros(r));
    assert(r != seq!['0']);
    assert(recip_ok(r));
}

/// The seven lower-case pitch letters, each written alone in a crotchet,
/// read as the seven white keys of the octave from middle C, rising in
/// the order c d e f g a b, so no two letters share a key; each capital
/// reads an octave lower than its lower-case letter.
pub proof fn lemma_letters_name_white_keys()
    ensures
        forall|i: int|
            0 <= i < 7 ==> {
                let k = midi_of(seq!['4', #[trigger] scale_letters()[i]]);
                &&& k is Some
                &&& white_key_from_middle_c(k->0)
                &&& midi_of(seq!['4', scale_capitals()[i]]) == Some(k->0 - 12)
            },
        forall|i: int, j: int|
            0 <= i < j < 7 ==> midi_of(seq!['4', #[trigger] scale_letters()[i]])->0 < midi_of(
                seq!['4', #[trigger] scale_letters()[j]],
            )->0,
{
    let ls = scale_letters();
    let cs = scale_capitals();
    assert forall|i: int| 0 <= i < 7 implies is_letter(ls[i]) && is_letter(cs[i]) by {}
    lemma_one_letter('c');
    lemma_one_letter('d');
    lemma_one_letter('e');
    lemma_one_letter('f');
    lemma_one_letter('g');
    lemma_one_letter('a');
    lemma_one_letter('b');
    lemma_one_letter('C');
    lemma_one_letter('D');
    lemma_one_letter('E');
    lemma_one_letter('F');
    lemma_one_letter('G');
    lemma_one_letter('A');
    lemma_one_letter('B');
    assert(midi_of(seq!['4', 'c']) == Some(60int));
    assert(midi_of(seq!['4', 'd']) == Some(62int));
    assert(midi_of(seq!['4', 'e']) == Some(64int));
    assert(midi_of(seq!['4', 'f']) == Some(65int));
    assert(midi_of(seq!['4', 'g']) == Some(67int));
    assert(midi_of(seq!['4', 'a']) == Some(69int));
    assert(midi_of(seq!['4', 'b']) == Some(71int));
    assert(midi_of(seq!['4', 'C']) == Some(48int));
    assert(midi_of(seq!['4', 'D']) == Some(50int));
    assert(midi_of(seq!['4', 'E']) == Some(52int));
    assert(midi_of(seq!['4', 'F']) == Some(53int));
    assert(midi_of(seq!['4', 'G']) == Some(55int));
    assert(midi_of(seq!['4', 'A']) == Some(57int));
    assert(midi_of(seq!['4', 'B']) == Some(59int));
}

/// The notes of the pieces that read as notes, in order.
pub open spec fn notes_of(ps: Seq<Seq<char>>) -> Seq<ParsedModel>
    decreases ps.len(),
{
    if ps.len() == 0 {
        seq![]
    } else {
        notes_of(ps.drop_last()) + match note_spec(ps.last()) {
            Some(n) => seq![n],
            None => seq![],
        }
    }
}

/// The notes of a data token: none for a null token (`.`) or an empty one,
/// otherwise those of its space-separated pieces that read as notes.
pub open spec fn token_spec(s: Seq<char>) -> Seq<ParsedModel> {
    if s.len() == 0 || s == seq!['.'] {
        seq![]
    } else {
        notes_of(split_on(s, ' '))
    }
}

/// Once a note has failed to read, the rest of it does not matter.
proof fn lemma_scan_fails_on(s: Seq<char>, n: int)
    requires
        0 <= n <= s.len(),
        scan(s.take(n)) is None,
    ensures
        scan(s) is None,
    decreases s.len() - n,
{
    if n < s.len() {
        assert(s.take(n + 1).drop_last() =~= s.take(n));
        lemma_scan_fails_on(s, n + 1);
    } else {
        assert(s.take(n) =~= s);
    }
}

/// The first `%` of `r` is at `k` when none comes before it, and there is
/// none when none comes before the end.
proof fn lemma_first_pct(r: Seq<char>, k: int)
    requires
        0 <= k <= r.len(),
        forall|j: int| 0 <= j < k ==> r[j] != '%',
    ensures
        k < r.len() && r[k] == '%' ==> first_pct(r) == Some(k),
        k == r.len() ==> first_pct(r) is None,
    decreases k,
{
    if k > 0 {
        let t = r.drop_first();
        assert forall|j: int| 0 <= j < k - 1 implies t[j] != '%' by {
            assert(t[j] == r[j + 1]);
        }
        lemma_first_pct(t, k - 1);
        if k < r.len() {
            assert(t[k - 1] == r[k]);
        }
    }
}

/// Whether `d[from..to]` is all `0`s.
fn zeros_between(d: &[char], from: usize, to: usize) -> (b: bool)
    requires
        from <= to <= d@.len(),
    ensures
        b == all_zeros(d@.subrange(from as int, to as int)),
{
    let mut i = from;
    while i < to
        invariant
            from <= i <= to <= d@.len(),
            all_zeros(d@.subrange(from as int, i as int)),
        decreases to - i,
    {
        if d[i] != '0' {
            assert(d@.subrange(from as int, to as int)[i - from] == d@[i as int]);
            return false;
        }
        assert(d@.subrange(from as int, i + 1) =~= d@.subrange(from as int, i as int).push(d@[i as int]));
        i = i + 1;
    }
    true
}

/// Whether a duration field names a duration.
fn recip_names_a_duration(r: &[char]) -> (b: bool)
    ensures
        b == recip_ok(r@),
{
    let n = r.len();
    if n == 0 {
        return false;
    }
    let mut k: usize = 0;
    while k < n && r[k] != '%'
        invariant
            n == r@.len(),
            k <= n,
            forall|j: int| 0 <= j < k ==> r@[j] != '%',
        decreases n - k,
    {
        k = k + 1;
    }
    proof {
        lemma_first_pct(r@, k as int);
    }
    if k < n {
        assert(r@.take(k as int) =~= r@.subrange(0, k as int));
        assert(r@.skip(k + 1) =~= r@.subrange(k + 1, n as int));
        if k == 0 || zeros_between(r, 0, k) || k + 1 == n {
            return false;
        }
        let mut j: usize = k + 1;
        while j < n && r[j] != '%'
            invariant
                n == r@.len(),
                k + 1 <= j <= n,
                forall|i: int| k + 1 <= i < j ==> r@[i] != '%',
            decreases n - j,
        {
            j = j + 1;
        }
        proof {
            let b = r@.skip(k + 1);
            assert forall|i: int| 0 <= i < j - (k + 1) implies b[i] != '%' by {
                assert(b[i] == r@[i + k + 1]);
            }
            lemma_first_pct(b, j - (k + 1));
            if j < n {
                assert(b[j - (k + 1)] == r@[j as int]);
            }
        }
        j == n
    } else {
        assert(r@.subrange(0, n as int) =~= r@);
        let zero = n <= 3 && r[0] == '0' && (n < 2 || r[1] == '0') && (n < 3 || r[2] == '0');
        if zero {
            if n == 1 {
                assert(r@ =~= seq!['0']);
            } else if n == 2 {
                assert(r@ =~= seq!['0', '0']);
            } else {
                assert(r@ =~= seq!['0', '0', '0']);
            }
            true
        } else {
            proof {
                if r@ == seq!['0'] || r@ == seq!['0', '0'] || r@ == seq!['0', '0', '0'] {
                    assert(r@[0] == '0');
                    assert(n >= 2 ==> r@[1] == '0');
                    assert(n >= 3 ==> r@[2] == '0');
                }
            }
            !zeros_between(r, 0, n)
        }
    }
}

/// Whether the counters of a reading fit the machine integers a note is
/// read with: a 32-bit signed letter count and accidental, a 32-bit
/// unsigned number of dots.
pub open spec fn counts_fit(st: Scan) -> bool {
    &&& st.count <= i32::MAX
    &&& i32::MIN <= st.accidental <= i32::MAX
    &&& st.dots <= u32::MAX
}

/// Whether a value fits a 32-bit signed integer.
pub open spec fn fits_i32(v: int) -> bool {
    i32::MIN <= v <= i32::MAX
}

/// Whether each step of `pitch(l, count, accidental)`, taken in 32-bit
/// signed arithmetic (the octave, one more, twelve times that, plus the
/// letter's semitone, plus the accidental), stays in range.
pub open spec fn pitch_fits(l: char, count: int, accidental: int) -> bool {
    let octave = if 'a' <= l <= 'z' {
        4 + (count - 1)
    } else {
        4 - count
    };
    let t = 12 * (octave + 1);
    &&& fits_i32(octave)
    &&& fits_i32(octave + 1)
    &&& fits_i32(t)
    &&& fits_i32(t + letter_base(l))
    &&& fits_i32(t + letter_base(l) + accidental)
}

/// Whether a note can be read in 32-bit arithmetic: the counters fit after
/// every prefix that still reads, and, when the note has a pitch to
/// compute, each step of that computation fits.
pub open spec fn note_fits(s: Seq<char>) -> bool {
    &&& forall|k: int|
        0 <= k <= s.len() ==> match #[trigger] scan(s.take(k)) {
            Some(st) => counts_fit(st),
            None => true,
        }
    &&& match scan(s) {
        Some(st) => (st.grace || recip_ok(st.recip)) && !st.rest && st.letter is Some ==> pitch_fits(
            st.letter->0,
            st.count,
            st.accidental,
        ),
        None => true,
    }
}

/// The piece of `t` that ends at index `i`: the characters since the last
/// space before `i`.
pub open spec fn piece_at(t: Seq<char>, i: int) -> Seq<char> {
    split_on(t.take(i), ' ').last()
}

/// Whether every note of a token can be read in 32-bit arithmetic: each
/// piece, ending at a space or at the end, fits.
pub open spec fn token_fits(t: Seq<char>) -> bool {
    forall|i: int| 0 <= i <= t.len() && (i == t.len() || t[i] == ' ') ==> note_fits(#[trigger] piece_at(t, i))
}

/// The reading held in the variables of `read_note`.
pub open spec fn scan_of(
    recip: Seq<char>,
    dots: u64,
    letter: Option<char>,
    count: u64,
    accidental: i64,
    rest: bool,
    tie: Tie,
    ornaments: Seq<char>,
    grace: bool,
    in_recip: bool,
) -> Scan {
    Scan {
        recip,
        dots: dots as nat,
        letter,
        count: count as int,
        accidental: accidental as int,
        rest,
        tie,
        ornaments,
        grace,
        in_recip,
    }
}

/// A note's view, if any.
pub open spec fn opt_view(r: Option<Parsed>) -> Option<ParsedModel> {
    match r {
        Some(p) => Some(p@),
        None => None,
    }
}

/// Reads one note of a token; `Err` exactly when the note cannot be read
/// in 32-bit arithmetic.
fn read_note(s: &[char]) -> (r: Result<Option<Parsed>, ()>)
    ensures
        match r {
            Ok(o) => note_fits(s@) && opt_view(o) == note_spec(s@),
            Err(_) => !note_fits(s@),
        },
{
    let mut recip: Vec<char> = Vec::new();
    let mut dots: u64 = 0;
    let mut letter: Option<char> = None;
    let mut count: u64 = 0;
    let mut accidental: i64 = 0;
    let mut rest = false;
    let mut tie = Tie::Untied;
    let mut ornaments: Vec<char> = Vec::new();
    let mut grace = false;
    let mut in_recip = true;
    let mut i: usize = 0;
    assert(s@.take(0) =~= Seq::<char>::empty());
    while i < s.len()
        invariant
            i <= s@.len(),
            scan(s@.take(i as int)) == Some(
                scan_of(recip@, dots, letter, count, accidental, rest, tie, ornaments@, grace, in_recip),
            ),
            forall|k: int|
                0 <= k <= i ==> match #[trigger] scan(s@.take(k)) {
                    Some(st) => counts_fit(st),
                    None => true,
                },
        decreases s@.len() - i,
    {
        let c = s[i];
        let ghost before = scan_of(recip@, dots, letter, count, accidental, rest, tie, ornaments@, grace, in_recip);
        proof {
            assert(s@.take(i + 1).drop_last() =~= s@.take(i as int));
            assert(s@.take(i + 1).last() == c);
            assert(counts_fit(before));
        }
        if (('0' <= c && c <= '9') || c == '%') && in_recip {
            recip.push(c);
        } else if c == '.' && in_recip && recip.len() > 0 {
            dots = dots + 1;
        } else if ('a' <= c && c <= 'g') || ('A' <= c && c <= 'G') {
            in_recip = false;
            match letter {
                Some(l) => {
                    if l == c {
                        count = count + 1;
                    } else {
                        proof {
                            lemma_scan_fails_on(s@, i + 1);
                            assert forall|k: int| 0 <= k <= s@.len() implies match #[trigger] scan(
                                s@.take(k),
                            ) {
                                Some(st) => counts_fit(st),
                                None => true,
                            } by {
                                if k > i {
                                    assert(s@.take(k).take(i + 1) =~= s@.take(i + 1));
                                    lemma_scan_fails_on(s@.take(k), i + 1);
                                }
                            }
                        }
                        return Ok(None);
                    }
                },
                None => {
                    letter = Some(c);
                    count = 1;
                },
            }
        } else if c == 'r' {
            in_recip = false;
            rest = true;
        } else if c == '#' {
            accidental = accidental + 1;
        } else if c == '-' {
            accidental = accidental - 1;
        } else if c == 'n' {
            accidental = 0;
        } else if c == '[' {
            tie = Tie::Start;
        } else if c == '_' {
            tie = Tie::Continue;
        } else if c == ']' {
            tie = Tie::End;
        } else if c == 'q' || c == 'Q' {
            grace = true;
        } else if c == 'T' || c == 't' || c == 'M' || c == 'm' || c == 'W' || c == 'w' || c == 'S'
            || c == '$' || c == 'O' || c == 'o' || c == 'P' || c == 'p' {
            ornaments.push(c);
        } else if recip.len() > 0 {
            in_recip = false;
        }
        proof {
            assert(scan(s@.take(i + 1)) == scan_step(before, c));
            assert(scan_step(before, c) == Some(
                scan_of(recip@, dots, letter, count, accidental, rest, tie, ornaments@, grace, in_recip),
            ));
        }
        if count > 0x7FFF_FFFF || accidental > 0x7FFF_FFFF || accidental < -0x8000_0000
            || dots > 0xFFFF_FFFF {
            return Err(());
        }
        i = i + 1;
    }
    proof {
        assert(s@.take(i as int) =~= s@);
    }
    if !grace && !recip_names_a_duration(recip.as_slice()) {
        return Ok(None);
    }
    let midi = if rest {
        None
    } else {
        match letter {
            None => {
                return Ok(None);
            },
            Some(l) => {
                let base: i64 = if l == 'c' || l == 'C' {
                    0
                } else if l == 'd' || l == 'D' {
                    2
                } else if l == 'e' || l == 'E' {
                    4
                } else if l == 'f' || l == 'F' {
                    5
                } else if l == 'g' || l == 'G' {
                    7
                } else if l == 'a' || l == 'A' {
                    9
                } else {
                    11
                };
                let n = count as i64;
                let octave: i64 = if 'a' <= l && l <= 'z' {
                    4 + (n - 1)
                } else {
                    4 - n
                };
                let t: i64 = 12 * (octave + 1);
                let lo: i64 = -0x8000_0000;
                let hi: i64 = 0x7FFF_FFFF;
                if octave < lo || octave > hi || octave + 1 > hi || t < lo || t > hi || t + base < lo
                    || t + base > hi || t + base + accidental < lo || t + base + accidental > hi {
                    return Err(());
                }
                Some((t + base + accidental) as i32)
            },
        }
    };
    Ok(Some(Parsed { recip, dots: dots as u32, midi, tie, ornaments, grace }))
}

/// The views of a list of notes.
pub open spec fn views(v: Seq<Parsed>) -> Seq<ParsedModel> {
    v.map_values(|p: Parsed| p@)
}

/// A null token (`.`) and an empty one hold no note that overflows.
proof fn lemma_trivial_tokens_fit(t: Seq<char>)
    requires
        t.len() == 0 || t == seq!['.'],
    ensures
        token_fits(t),
{
    assert forall|i: int| 0 <= i <= t.len() && (i == t.len() || t[i] == ' ') implies note_fits(
        #[trigger] piece_at(t, i),
    ) by {
        assert(i == t.len());
        assert(t.take(i) =~= t);
        if t.len() == 0 {
            assert(piece_at(t, i) =~= Seq::<char>::empty());
        } else {
            let e = Seq::<char>::empty();
            assert(t.drop_last() =~= e);
            assert(split_on(e, ' ') == seq![e]);
            assert(split_on(t, ' ') == seq![e].update(0, e.push('.')));
            assert(seq![e].update(0, e.push('.')) =~= seq![seq!['.']]);
            assert(piece_at(t, i) == seq!['.']);
        }
        let p = piece_at(t, i);
        let e = Seq::<char>::empty();
        assert(scan(e) == Some(scan_start()));
        assert(counts_fit(scan_start()));
        assert(scan_step(scan_start(), '.') == Some(scan_start()));
        if p.len() > 0 {
            assert(p.drop_last() =~= e);
            assert(p.last() == '.');
            assert(scan(p) == Some(scan_start()));
        } else {
            assert(p =~= e);
        }
        assert forall|k: int| 0 <= k <= p.len() implies match #[trigger] scan(p.take(k)) {
            Some(st) => counts_fit(st),
            None => true,
        } by {
            if k == 0 {
                assert(p.take(k) =~= Seq::<char>::empty());
            } else {
                assert(p.take(k) =~= p);
                assert(p.drop_last() =~= Seq::<char>::empty());
            }
        }
        if p.len() > 0 {
            assert(p.drop_last() =~= Seq::<char>::empty());
        }
    }
}

/// Reads the notes of a token; `None` exactly when some note of it cannot
/// be read in 32-bit arithmetic.
fn read_notes(token: &str) -> (r: Option<Vec<Parsed>>)
    ensures
        match r {
            Some(notes) => token_fits(token@) && views(notes@) == token_spec(token@),
            None => !token_fits(token@),
        },
{
    let n = token.unicode_len();
    if n == 0 {
        proof {
            lemma_trivial_tokens_fit(token@);
        }
        return Some(Vec::new());
    }
    if n == 1 && token.get_char(0) == '.' {
        assert(token@ =~= seq!['.']);
        proof {
            lemma_trivial_tokens_fit(token@);
        }
        return Some(Vec::new());
    }
    let ghost t = token@;
    let mut out: Vec<Parsed> = Vec::new();
    let mut piece: Vec<char> = Vec::new();
    let mut i: usize = 0;
    assert(t.take(0) =~= Seq::<char>::empty());
    assert(split_on(Seq::<char>::empty(), ' ').drop_last() =~= Seq::<Seq<char>>::empty());
    while i < n
        invariant
            t == token@,
            n == t.len(),
            i <= n,
            split_on(t.take(i as int), ' ').len() >= 1,
            piece@ == split_on(t.take(i as int), ' ').last(),
            views(out@) == notes_of(split_on(t.take(i as int), ' ').drop_last()),
            forall|k: int| 0 <= k < i && t[k] == ' ' ==> note_fits(#[trigger] piece_at(t, k)),
        decreases n - i,
    {
        let c = token.get_char(i);
        let ghost p = split_on(t.take(i as int), ' ');
        proof {
            assert(t.take(i + 1).drop_last() =~= t.take(i as int));
            assert(t.take(i + 1).last() == c);
        }
        if c == ' ' {
            let note = match read_note(piece.as_slice()) {
                Ok(note) => note,
                Err(_) => {
                    assert(piece_at(t, i as int) == piece@);
                    return None;
                },
            };
            proof {
                assert(p.drop_last().push(p.last()) =~= p);
                assert(notes_of(p) == notes_of(p.drop_last()) + match note_spec(p.last()) {
                    Some(x) => seq![x],
                    None => Seq::<ParsedModel>::empty(),
                });
                assert(p.push(seq![]).drop_last() =~= p);
                assert(piece_at(t, i as int) == piece@);
            }
            match note {
                Some(x) => {
                    let ghost prev = views(out@);
                    out.push(x);
                    assert(views(out@) =~= prev + seq![x@]);
                },
                None => {
                    assert(views(out@) =~= views(out@) + Seq::<ParsedModel>::empty());
                },
            }
            piece = Vec::new();
        } else {
            piece.push(c);
            proof {
                let q = p.update(p.len() - 1, p.last().push(c));
                assert(q.drop_last() =~= p.drop_last());
            }
        }
        i = i + 1;
    }
    let ghost p = split_on(t.take(n as int), ' ');
    proof {
        assert(t.take(n as int) =~= t);
        assert(piece_at(t, n as int) == piece@);
        assert(notes_of(p) == notes_of(p.drop_last()) + match note_spec(p.last()) {
            Some(x) => seq![x],
            None => Seq::<ParsedModel>::empty(),
        });
    }
    let note = match read_note(piece.as_slice()) {
        Ok(note) => note,
        Err(_) => {
            return None;
        },
    };
    match note {
        Some(x) => {
            let ghost prev = views(out@);
            out.push(x);
            assert(views(out@) =~= prev + seq![x@]);
        },
        None => {
            assert(views(out@) =~= views(out@) + Seq::<ParsedModel>::empty());
        },
    }
    assert(token_fits(t)) by {
        assert forall|k: int| 0 <= k <= t.len() && (k == t.len() || t[k] == ' ') implies note_fits(
            #[trigger] piece_at(t, k),
        ) by {
            if k == t.len() {
                assert(piece_at(t, k) == piece@);
            }
        }
    }
    Some(out)
}

/// Parses a data token — possibly a chord of space-separated notes — into
/// its notes: none for a null token (`.`), an empty one, or pieces that do
/// not read as notes. Every note must be readable in 32-bit arithmetic
/// (see [`try_parse_token`] for a token that is not known to be).
pub fn parse_token(token: &str) -> (notes: Vec<Parsed>)
    requires
        token_fits(token@),
    ensures
        views(notes@) == token_spec(token@),
{
    match read_notes(token) {
        Some(notes) => notes,
        None => Vec::new(),
    }
}

/// Parses a data token as [`parse_token`] does, or gives `None` when one of
/// its notes would overflow 32-bit arithmetic (a pitch written far beyond
/// any keyboard, or some two thousand million letters or accidentals).
pub fn try_parse_token(token: &str) -> (notes: Option<Vec<Parsed>>)
    ensures
        match notes {
            Some(v) => token_fits(token@) && views(v@) == token_spec(token@),
            None => !token_fits(token@),
        },
{
    read_notes(token)
}

} // verus!
