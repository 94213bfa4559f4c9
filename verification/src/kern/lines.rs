//! The lines of a `**kern` file: what kind each is, its tab-separated
//! fields, the spines an exclusive-interpretation line declares, and the
//! reference records that name the piece and its composer.

use vstd::prelude::*;
use vstd::string::StrSliceExecFns;

use crate::kern::split_on;
use crate::text::{trim, trim_spec};

verus! {

/// What a line of a `**kern` file is.
#[derive(Debug, Clone, Copy, PartialEq, Eq, Structural)]
pub enum LineKind {
    /// Nothing but carriage returns.
    Blank,
    /// A reference record (`!!!KEY: value`).
    Reference,
    /// A comment (`!`).
    Comment,
    /// An exclusive interpretation, declaring the spines (`**kern`).
    Exclusive,
    /// A tandem interpretation (`*`).
    Interpretation,
    /// A barline (`=`).
    Barline,
    /// A line of data tokens.
    Data,
}

/// `line` without its trailing carriage returns.
pub open spec fn strip_cr(line: Seq<char>) -> Seq<char>
    decreases line.len(),
{
    if line.len() > 0 && line.last() == '\r' {
        strip_cr(line.drop_last())
    } else {
        line
    }
}

/// The kind of a line with its trailing carriage returns removed.
pub open spec fn line_kind_spec(l: Seq<char>) -> LineKind {
    if l.len() == 0 {
        LineKind::Blank
    } else if l.len() >= 3 && l[0] == '!' && l[1] == '!' && l[2] == '!' {
        LineKind::Reference
    } else if l[0] == '!' {
        LineKind::Comment
    } else if l.len() >= 2 && l[0] == '*' && l[1] == '*' {
        LineKind::Exclusive
    } else if l[0] == '*' {
        LineKind::Interpretation
    } else if l[0] == '=' {
        LineKind::Barline
    } else {
        LineKind::Data
    }
}

/// The line without its trailing carriage returns.
pub fn content<'a>(line: &'a str) -> (l: &'a str)
    ensures
        l@ == strip_cr(line@),
{
    let mut end = line.unicode_len();
    assert(line@.take(end as int) =~= line@);
    while end > 0 && line.get_char(end - 1) == '\r'
        invariant
            end <= line@.len(),
            strip_cr(line@) == strip_cr(line@.take(end as int)),
        decreases end,
    {
        proof {
            assert(line@.take(end as int).drop_last() =~= line@.take(end - 1));
        }
        end = end - 1;
    }
    proof {
        assert(line@.subrange(0, end as int) =~= line@.take(end as int));
    }
    line.substring_char(0, end)
}

/// The kind of a line, its trailing carriage returns already removed.
pub fn line_kind(l: &str) -> (k: LineKind)
    ensures
        k == line_kind_spec(l@),
{
    let n = l.unicode_len();
    if n == 0 {
        return LineKind::Blank;
    }
    let c0 = l.get_char(0);
    if c0 == '!' {
        if n >= 3 && l.get_char(1) == '!' && l.get_char(2) == '!' {
            LineKind::Reference
        } else {
            LineKind::Comment
        }
    } else if c0 == '*' {
        if n >= 2 && l.get_char(1) == '*' {
            LineKind::Exclusive
        } else {
            LineKind::Interpretation
        }
    } else if c0 == '=' {
        LineKind::Barline
    } else {
        LineKind::Data
    }
}

/// The views of a list of fields.
pub open spec fn field_views(fields: Seq<&str>) -> Seq<Seq<char>> {
    fields.map_values(|f: &str| f@)
}

/// Splits a line into its tab-separated fields.
pub fn split_fields<'a>(line: &'a str) -> (fields: Vec<&'a str>)
    ensures
        field_views(fields@) == split_on(line@, '\t'),
{
    let ghost s = line@;
    let n = line.unicode_len();
    let mut out: Vec<&'a str> = Vec::new();
    let mut start: usize = 0;
    let mut i: usize = 0;
    assert(s.take(0) =~= Seq::<char>::empty());
    assert(s.subrange(0, 0) =~= Seq::<char>::empty());
    assert(field_views(out@) =~= split_on(s.take(0), '\t').drop_last());
    while i < n
        invariant
            s == line@,
            n == s.len(),
            start <= i <= n,
            split_on(s.take(i as int), '\t').len() >= 1,
            split_on(s.take(i as int), '\t').last() == s.subrange(start as int, i as int),
            field_views(out@) == split_on(s.take(i as int), '\t').drop_last(),
        decreases n - i,
    {
        let c = line.get_char(i);
        let ghost p = split_on(s.take(i as int), '\t');
        proof {
            assert(s.take(i + 1).drop_last() =~= s.take(i as int));
            assert(s.take(i + 1).last() == c);
        }
        if c == '\t' {
            let f = line.substring_char(start, i);
            out.push(f);
            proof {
                assert(p.drop_last().push(p.last()) =~= p);
                assert(field_views(out@) =~= field_views(out@.drop_last()).push(f@));
                assert(s.subrange(i + 1, i + 1) =~= Seq::<char>::empty());
            }
            start = i + 1;
        } else {
            proof {
                let q = p.update(p.len() - 1, p.last().push(c));
                assert(q.drop_last() =~= p.drop_last());
                assert(s.subrange(start as int, i + 1) =~= s.subrange(start as int, i as int).push(c));
            }
        }
        i = i + 1;
    }
    let f = line.substring_char(start, n);
    out.push(f);
    proof {
        let p = split_on(s.take(n as int), '\t');
        assert(s.take(n as int) =~= s);
        assert(p.drop_last().push(p.last()) =~= p);
        assert(field_views(out@) =~= field_views(out@.drop_last()).push(f@));
    }
    out
}

/// Whether a field of an exclusive-interpretation line declares a `**kern`
/// spine.
pub open spec fn is_kern_spec(field: Seq<char>) -> bool {
    field.len() >= 6 && field.take(6) == seq!['*', '*', 'k', 'e', 'r', 'n']
}

/// Whether a field declares a `**kern` spine.
pub fn is_kern(field: &str) -> (b: bool)
    ensures
        b == is_kern_spec(field@),
{
    if field.unicode_len() < 6 {
        return false;
    }
    let r = field.get_char(0) == '*' && field.get_char(1) == '*' && field.get_char(2) == 'k'
        && field.get_char(3) == 'e' && field.get_char(4) == 'r' && field.get_char(5) == 'n';
    proof {
        if r {
            assert(field@.take(6) =~= seq!['*', '*', 'k', 'e', 'r', 'n']);
        } else {
            let t = field@.take(6);
            assert(t[0] == field@[0] && t[1] == field@[1] && t[2] == field@[2]);
            assert(t[3] == field@[3] && t[4] == field@[4] && t[5] == field@[5]);
            if t == seq!['*', '*', 'k', 'e', 'r', 'n'] {
                assert(t[2] == 'k');
            }
        }
    }
    r
}

/// How many of the first `n` fields declare `**kern` spines.
pub open spec fn kern_count(fields: Seq<Seq<char>>, n: int) -> int
    decreases n,
{
    if n <= 0 {
        0
    } else {
        kern_count(fields, n - 1) + if is_kern_spec(fields[n - 1]) {
            1int
        } else {
            0
        }
    }
}

/// The columns an exclusive-interpretation line opens: each `**kern` field
/// feeds a voice of its own, numbered left to right from 0; every other
/// spine feeds none.
pub fn exclusive_columns(fields: &[&str]) -> (columns: Vec<Option<usize>>)
    ensures
        columns@.len() == fields@.len(),
        forall|i: int|
            0 <= i < fields@.len() ==> #[trigger] columns@[i] == if is_kern_spec(fields@[i]@) {
                Some(kern_count(field_views(fields@), i) as usize)
            } else {
                None
            },
{
    let ghost views = field_views(fields@);
    let mut out: Vec<Option<usize>> = Vec::new();
    let mut count: usize = 0;
    let mut i: usize = 0;
    while i < fields.len()
        invariant
            views == field_views(fields@),
            i <= fields@.len(),
            out@.len() == i,
            count == kern_count(views, i as int),
            count <= i,
            forall|k: int|
                0 <= k < i ==> #[trigger] out@[k] == if is_kern_spec(fields@[k]@) {
                    Some(kern_count(views, k) as usize)
                } else {
                    None
                },
        decreases fields@.len() - i,
    {
        assert(views[i as int] == fields@[i as int]@);
        if is_kern(fields[i]) {
            out.push(Some(count));
            count = count + 1;
        } else {
            out.push(None);
        }
        i = i + 1;
    }
    out
}

/// What a reference record names.
#[derive(Debug, Clone, Copy, PartialEq, Eq, Structural)]
pub enum Reference {
    /// `OTL`: the title.
    Title,
    /// `COM`: the composer.
    Composer,
}

/// The index of the first `:` in `s`, if any.
pub open spec fn first_colon(s: Seq<char>) -> Option<int> {
    if exists|i: int| 0 <= i < s.len() && s[i] == ':' {
        Some(choose|i: int| 0 <= i < s.len() && s[i] == ':' && forall|k: int| 0 <= k < i ==> s[k] != ':')
    } else {
        None
    }
}

/// What a reference record (the text after `!!!`) gives: the title or the
/// composer, when its key (before the first `:`, trimmed) is `OTL` or
/// `COM` and its value (after it, trimmed) is not empty.
pub open spec fn reference_spec(rest: Seq<char>) -> Option<(Reference, Seq<char>)> {
    match first_colon(rest) {
        None => None,
        Some(c) => {
            let key = trim_spec(rest.take(c));
            let value = trim_spec(rest.skip(c + 1));
            if value.len() == 0 {
                None
            } else if key == seq!['O', 'T', 'L'] {
                Some((Reference::Title, value))
            } else if key == seq!['C', 'O', 'M'] {
                Some((Reference::Composer, value))
            } else {
                None
            }
        },
    }
}

/// Whether a text is exactly the three characters `a`, `b`, `c`.
fn is_three(s: &str, a: char, b: char, c: char) -> (r: bool)
    ensures
        r == (s@ == seq![a, b, c]),
{
    if s.unicode_len() != 3 {
        return false;
    }
    let r = s.get_char(0) == a && s.get_char(1) == b && s.get_char(2) == c;
    proof {
        if r {
            assert(s@ =~= seq![a, b, c]);
        } else {
            if s@ == seq![a, b, c] {
                assert(s@[0] == a && s@[1] == b && s@[2] == c);
            }
        }
    }
    r
}

/// Reads a reference record: `rest` is the line after its `!!!`.
pub fn reference<'a>(rest: &'a str) -> (r: Option<(Reference, &'a str)>)
    ensures
        match r {
            Some((k, v)) => reference_spec(rest@) == Some((k, v@)),
            None => reference_spec(rest@) is None,
        },
{
    let n = rest.unicode_len();
    let mut c: usize = 0;
    while c < n && rest.get_char(c) != ':'
        invariant
            n == rest@.len(),
            c <= n,
            forall|k: int| 0 <= k < c ==> rest@[k] != ':',
        decreases n - c,
    {
        c = c + 1;
    }
    if c == n {
        assert(!(exists|i: int| 0 <= i < rest@.len() && rest@[i] == ':'));
        return None;
    }
    proof {
        let s = rest@;
        assert(exists|i: int| 0 <= i < s.len() && s[i] == ':');
        let j = choose|i: int| 0 <= i < s.len() && s[i] == ':' && forall|k: int| 0 <= k < i ==> s[k] != ':';
        assert(0 <= c < s.len() && s[c as int] == ':' && forall|k: int| 0 <= k < c ==> s[k] != ':');
        if j < c {
            assert(s[j] != ':');
        } else if j > c {
            assert(s[c as int] != ':');
        }
        assert(first_colon(s) == Some(c as int));
        assert(s.subrange(0, c as int) =~= s.take(c as int));
        assert(s.subrange(c + 1, n as int) =~= s.skip(c + 1));
    }
    let key = trim(rest.substring_char(0, c));
    let value = trim(rest.substring_char(c + 1, n));
    if value.unicode_len() == 0 {
        None
    } else if is_three(key, 'O', 'T', 'L') {
        Some((Reference::Title, value))
    } else if is_three(key, 'C', 'O', 'M') {
        Some((Reference::Composer, value))
    } else {
        None
    }
}

/// What a tandem interpretation says of its column, as far as it names a
/// tempo, a meter, an instrument or a part.
#[derive(Debug, Clone, Copy, PartialEq, Eq, Structural)]
pub enum Tandem {
    /// `*MM…`: a tempo in crotchets per minute, written after the `*MM`.
    Tempo,
    /// `*M…` (not `*MM`): a meter, written after the `*M`.
    Meter,
    /// `*I"…`: the instrument's name, after the `*I"`.
    Instrument,
    /// `*part…`: a part, named `part` and what follows.
    Part,
    /// Anything else.
    Other,
}

/// Whether `s` begins with `prefix`.
pub open spec fn starts_with(s: Seq<char>, prefix: Seq<char>) -> bool {
    s.len() >= prefix.len() && s.take(prefix.len() as int) == prefix
}

/// What a tandem interpretation names, with how many characters its
/// prefix takes (what follows is the value).
pub open spec fn tandem_spec(f: Seq<char>) -> (Tandem, int) {
    if starts_with(f, seq!['*', 'M', 'M']) {
        (Tandem::Tempo, 3)
    } else if starts_with(f, seq!['*', 'M']) {
        (Tandem::Meter, 2)
    } else if starts_with(f, seq!['*', 'I', '"']) {
        (Tandem::Instrument, 3)
    } else if starts_with(f, seq!['*', 'p', 'a', 'r', 't']) {
        (Tandem::Part, 5)
    } else {
        (Tandem::Other, 0)
    }
}

/// Whether `s` begins with the characters of `prefix`.
fn has_prefix(s: &str, prefix: &[char]) -> (b: bool)
    ensures
        b == starts_with(s@, prefix@),
{
    let n = prefix.len();
    if s.unicode_len() < n {
        return false;
    }
    let mut i: usize = 0;
    while i < n
        invariant
            n == prefix@.len() <= s@.len(),
            i <= n,
            forall|k: int| 0 <= k < i ==> s@[k] == prefix@[k],
        decreases n - i,
    {
        if s.get_char(i) != prefix[i] {
            assert(s@.take(n as int)[i as int] != prefix@[i as int]);
            return false;
        }
        i = i + 1;
    }
    assert(s@.take(n as int) =~= prefix@);
    true
}

/// What a tandem interpretation names, and where its value begins.
pub fn tandem(f: &str) -> (r: (Tandem, usize))
    ensures
        r.0 == tandem_spec(f@).0,
        r.1 as int == tandem_spec(f@).1,
{
    if has_prefix(f, &['*', 'M', 'M']) {
        (Tandem::Tempo, 3)
    } else if has_prefix(f, &['*', 'M']) {
        (Tandem::Meter, 2)
    } else if has_prefix(f, &['*', 'I', '"']) {
        (Tandem::Instrument, 3)
    } else if has_prefix(f, &['*', 'p', 'a', 'r', 't']) {
        (Tandem::Part, 5)
    } else {
        (Tandem::Other, 0)
    }
}

} // verus!
