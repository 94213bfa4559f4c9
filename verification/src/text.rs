//! Text handling shared by the file parsers and the name lookups.

use vstd::prelude::*;

verus! {

/// The text `String::from_utf8_lossy` makes of `bytes` that are not valid
/// UTF-8: the valid parts decoded, every invalid sequence replaced by
/// U+FFFD.
pub uninterp spec fn utf8_lossy_spec(bytes: Seq<u8>) -> Seq<char>;

/// The text `String::from_utf8_lossy` makes of `bytes`: valid UTF-8 is
/// decoded as it stands; other bytes give the named result.
pub open spec fn lossy_text(bytes: Seq<u8>) -> Seq<char> {
    if vstd::utf8::valid_utf8(bytes) {
        vstd::utf8::decode_utf8(bytes)
    } else {
        utf8_lossy_spec(bytes)
    }
}

/// Decodes `bytes` as UTF-8, replacing invalid sequences
/// (`String::from_utf8_lossy`). Valid UTF-8 comes back as the text it
/// encodes, as std documents; for other bytes the contract names the
/// result, a function of the bytes alone, and does not say which
/// characters the replacement leaves.
#[verifier::external_body]
pub(crate) fn utf8_lossy(bytes: &[u8]) -> (s: String)
    ensures
        s@ == (if vstd::utf8::valid_utf8(bytes@) {
            vstd::utf8::decode_utf8(bytes@)
        } else {
            utf8_lossy_spec(bytes@)
        }),
{
    String::from_utf8_lossy(bytes).into_owned()
}

/// Whether `c` has the Unicode `White_Space` property (`char::is_whitespace`):
/// tab to carriage return, space, next line, no-break space, ogham space
/// mark, the en quad to hair space, line and paragraph separators, narrow
/// no-break space, medium mathematical space and ideographic space.
pub open spec fn is_white(c: char) -> bool {
    ||| '\u{9}' <= c <= '\u{d}'
    ||| c == ' '
    ||| c == '\u{85}'
    ||| c == '\u{a0}'
    ||| c == '\u{1680}'
    ||| '\u{2000}' <= c <= '\u{200a}'
    ||| c == '\u{2028}'
    ||| c == '\u{2029}'
    ||| c == '\u{202f}'
    ||| c == '\u{205f}'
    ||| c == '\u{3000}'
}

/// `text` without its trailing white space.
pub open spec fn trim_end_spec(text: Seq<char>) -> Seq<char>
    decreases text.len(),
{
    if text.len() > 0 && is_white(text.last()) {
        trim_end_spec(text.drop_last())
    } else {
        text
    }
}

/// `text` without its leading white space.
pub open spec fn trim_start_spec(text: Seq<char>) -> Seq<char>
    decreases text.len(),
{
    if text.len() > 0 && is_white(text[0]) {
        trim_start_spec(text.drop_first())
    } else {
        text
    }
}

/// `text` without trailing white space (`str::trim_end`, which removes the
/// characters with the Unicode `White_Space` property).
#[verifier::external_body]
pub(crate) fn trim_end(text: &str) -> (s: String)
    ensures
        s@ == trim_end_spec(text@),
{
    text.trim_end().to_string()
}

/// `text` without its leading and trailing white space.
pub open spec fn trim_spec(text: Seq<char>) -> Seq<char> {
    trim_start_spec(trim_end_spec(text))
}

/// `text` without leading and trailing white space (`str::trim`, which
/// removes the characters with the Unicode `White_Space` property).
#[verifier::external_body]
pub(crate) fn trim<'a>(text: &'a str) -> (s: &'a str)
    ensures
        s@ == trim_spec(text@),
{
    text.trim()
}

/// `c` with an ASCII capital letter mapped to its lower-case letter.
pub open spec fn ascii_lower_char(c: char) -> char {
    if 'A' <= c <= 'Z' {
        ((c as int) + 32) as char
    } else {
        c
    }
}

/// `text` with every ASCII capital letter lowered and every other
/// character unchanged.
pub open spec fn ascii_lower_spec(text: Seq<char>) -> Seq<char> {
    text.map_values(|c: char| ascii_lower_char(c))
}

/// `text` with its ASCII letters in lower case (`str::to_ascii_lowercase`):
/// `'A'..='Z'` become `'a'..='z'`, every other character is unchanged.
#[verifier::external_body]
pub(crate) fn ascii_lowercase(text: &str) -> (s: String)
    ensures
        s@ == ascii_lower_spec(text@),
{
    text.to_ascii_lowercase()
}

/// Text that neither begins nor ends with white space and holds no ASCII
/// capital comes through trimming and lowering unchanged.
pub proof fn lemma_plain_text(t: Seq<char>)
    requires
        t.len() > 0 ==> !is_white(t[0]) && !is_white(t.last()),
        forall|i: int| 0 <= i < t.len() ==> !('A' <= #[trigger] t[i] <= 'Z'),
    ensures
        trim_spec(t) == t,
        ascii_lower_spec(trim_spec(t)) == t,
{
    assert(trim_end_spec(t) == t);
    assert(trim_start_spec(t) == t);
    assert(ascii_lower_spec(t) =~= t);
}

} // verus!
