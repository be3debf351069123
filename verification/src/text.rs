//! Text helpers: the few `String`/`str` operations the library needs and the
//! mathematical definitions they are stated against.

use vstd::prelude::*;
use vstd::utf8::{decode_utf8, valid_utf8};

verus! {

/// The characters that `char::is_whitespace` accepts: the Unicode
/// `White_Space` property.
pub open spec fn is_unicode_whitespace(c: char) -> bool {
    ||| ('\u{9}' <= c && c <= '\u{d}')
    ||| c == ' '
    ||| c == '\u{85}'
    ||| c == '\u{a0}'
    ||| c == '\u{1680}'
    ||| ('\u{2000}' <= c && c <= '\u{200a}')
    ||| c == '\u{2028}'
    ||| c == '\u{2029}'
    ||| c == '\u{202f}'
    ||| c == '\u{205f}'
    ||| c == '\u{3000}'
}

/// `s` without its leading whitespace.
pub open spec fn trim_start_spec(s: Seq<char>) -> Seq<char>
    decreases s.len(),
{
    if s.len() > 0 && is_unicode_whitespace(s[0]) {
        trim_start_spec(s.drop_first())
    } else {
        s
    }
}

/// `s` without its trailing whitespace.
pub open spec fn trim_end_spec(s: Seq<char>) -> Seq<char>
    decreases s.len(),
{
    if s.len() > 0 && is_unicode_whitespace(s.last()) {
        trim_end_spec(s.drop_last())
    } else {
        s
    }
}

/// `s` without leading and trailing whitespace.
pub open spec fn trim_spec(s: Seq<char>) -> Seq<char> {
    trim_end_spec(trim_start_spec(s))
}

/// Every character of `s` is whitespace.
pub open spec fn all_whitespace(s: Seq<char>) -> bool {
    forall|i: int| 0 <= i < s.len() ==> is_unicode_whitespace(#[trigger] s[i])
}

/// Whitespace alone trims to nothing.
proof fn lemma_trim_start_all_whitespace(s: Seq<char>)
    requires
        all_whitespace(s),
    ensures
        trim_start_spec(s) == Seq::<char>::empty(),
    decreases s.len(),
{
    if s.len() > 0 {
        assert(is_unicode_whitespace(s[0]));
        lemma_trim_start_all_whitespace(s.drop_first());
    } else {
        assert(s =~= Seq::<char>::empty());
    }
}

/// Leading whitespace in front of `t` goes with the rest of `t`'s.
proof fn lemma_trim_start_whitespace_prefix(a: Seq<char>, t: Seq<char>)
    requires
        all_whitespace(a),
    ensures
        trim_start_spec(a + t) == trim_start_spec(t),
    decreases a.len(),
{
    if a.len() == 0 {
        assert(a + t =~= t);
    } else {
        assert(is_unicode_whitespace(a[0]));
        assert((a + t)[0] == a[0]);
        assert((a + t).drop_first() =~= a.drop_first() + t);
        lemma_trim_start_whitespace_prefix(a.drop_first(), t);
    }
}

/// Trailing whitespace behind `t` goes with the rest of `t`'s.
proof fn lemma_trim_end_whitespace_suffix(t: Seq<char>, b: Seq<char>)
    requires
        all_whitespace(b),
    ensures
        trim_end_spec(t + b) == trim_end_spec(t),
    decreases b.len(),
{
    if b.len() == 0 {
        assert(t + b =~= t);
    } else {
        assert(is_unicode_whitespace(b.last()));
        assert((t + b).last() == b.last());
        assert((t + b).drop_last() =~= t + b.drop_last());
        lemma_trim_end_whitespace_suffix(t, b.drop_last());
    }
}

/// Whitespace behind `x` does not change what `x` trims to.
proof fn lemma_trim_whitespace_suffix(x: Seq<char>, b: Seq<char>)
    requires
        all_whitespace(b),
    ensures
        trim_spec(x + b) == trim_spec(x),
    decreases x.len(),
{
    if x.len() == 0 {
        assert(x + b =~= b);
        lemma_trim_start_all_whitespace(b);
    } else if is_unicode_whitespace(x[0]) {
        assert((x + b)[0] == x[0]);
        assert((x + b).drop_first() =~= x.drop_first() + b);
        lemma_trim_whitespace_suffix(x.drop_first(), b);
    } else {
        assert((x + b)[0] == x[0]);
        lemma_trim_end_whitespace_suffix(x, b);
    }
}

/// Whitespace around `s` does not change what `s` trims to.
pub proof fn lemma_trim_surrounding_whitespace(a: Seq<char>, s: Seq<char>, b: Seq<char>)
    requires
        all_whitespace(a),
        all_whitespace(b),
    ensures
        trim_spec(a + s + b) == trim_spec(s),
{
    lemma_trim_whitespace_suffix(a + s, b);
    lemma_trim_start_whitespace_prefix(a, s);
}

/// `str::trim`: removes leading and trailing `White_Space` characters.
#[verifier::external_body]
pub(crate) fn trim(s: &str) -> (r: &str)
    ensures
        r@ == trim_spec(s@),
{
    s.trim()
}

/// Appends `t` to `s`, through vstd's specified `String::append`.
pub(crate) fn push_str(s: &mut String, t: &str)
    ensures
        final(s)@ == old(s)@ + t@,
{
    s.append(t)
}

/// `String::push`: appends one character to `s`.
#[verifier::external_body]
pub(crate) fn push_char(s: &mut String, c: char)
    ensures
        final(s)@ == old(s)@.push(c),
{
    s.push(c)
}

/// `==` on `str`: compares the characters.
#[verifier::external_body]
pub(crate) fn str_eq(a: &str, b: &str) -> (r: bool)
    ensures
        r == (a@ == b@),
{
    a == b
}

/// What `String::from_utf8_lossy` makes of ill-formed UTF-8: each maximal
/// ill-formed subsequence becomes U+FFFD.
pub uninterp spec fn utf8_lossy(bytes: Seq<u8>) -> Seq<char>;

/// The text `String::from_utf8_lossy` reads from `bytes`: valid UTF-8 decoded
/// as it stands, other input as `utf8_lossy` names it.
pub open spec fn lossy_decode(bytes: Seq<u8>) -> Seq<char> {
    if valid_utf8(bytes) {
        decode_utf8(bytes)
    } else {
        utf8_lossy(bytes)
    }
}

/// `String::from_utf8_lossy`, made an owned `String`. Valid UTF-8 is decoded
/// as it stands; what becomes of ill-formed input is named, not stated.
#[verifier::external_body]
pub(crate) fn from_utf8_lossy(bytes: &[u8]) -> (r: String)
    ensures
        r@ == (if valid_utf8(bytes@) { decode_utf8(bytes@) } else { utf8_lossy(bytes@) }),
{
    String::from_utf8_lossy(bytes).into_owned()
}

} // verus!
