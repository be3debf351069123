//! Which font files can show Japanese text.

use vstd::prelude::*;
use crate::text::str_eq;

verus! {

/// `text` holds `part` somewhere.
pub open spec fn contains_text(text: Seq<char>, part: Seq<char>) -> bool {
    exists|i: int| 0 <= i <= text.len() - part.len() && #[trigger] text.subrange(i, i + part.len()) == part
}

/// A font file with CJK glyphs, as the search for one recognises it: a
/// TrueType or OpenType file (`ttc`, `otf`, `ttf`) whose path contains `CJK`.
pub open spec fn is_cjk_font_spec(extension: Option<Seq<char>>, path: Seq<char>) -> bool {
    &&& extension matches Some(e) && (e == "ttc"@ || e == "otf"@ || e == "ttf"@)
    &&& contains_text(path, seq!['C', 'J', 'K'])
}

/// Whether a file with extension `extension` at the path written `path` is
/// a font file with CJK glyphs.
pub fn is_cjk_font_file(extension: Option<&str>, path: &str) -> (r: bool)
    ensures
        r == is_cjk_font_spec(
            match extension {
                Some(e) => Some(e@),
                None => None,
            },
            path@,
        ),
{
    let font = match extension {
        Some(e) => str_eq(e, "ttc") || str_eq(e, "otf") || str_eq(e, "ttf"),
        None => false,
    };
    if !font {
        return false;
    }
    contains_cjk(path)
}

/// Whether `path` contains `CJK`.
fn contains_cjk(path: &str) -> (r: bool)
    ensures
        r == contains_text(path@, seq!['C', 'J', 'K']),
{
    let n = path.unicode_len();
    if n < 3 {
        return false;
    }
    let mut i: usize = 0;
    while i <= n - 3
        invariant
            n == path@.len(),
            n >= 3,
            i <= n - 2,
            forall|k: int| 0 <= k < i ==> #[trigger] path@.subrange(k, k + 3) != seq!['C', 'J', 'K'],
        decreases n - i,
    {
        if path.get_char(i) == 'C' && path.get_char(i + 1) == 'J' && path.get_char(i + 2) == 'K' {
            assert(path@.subrange(i as int, i + 3) =~= seq!['C', 'J', 'K']);
            return true;
        }
        assert(path@.subrange(i as int, i + 3)[0] == path@[i as int]);
        assert(path@.subrange(i as int, i + 3)[1] == path@[i + 1]);
        assert(path@.subrange(i as int, i + 3)[2] == path@[i + 2]);
        i = i + 1;
    }
    false
}

} // verus!
