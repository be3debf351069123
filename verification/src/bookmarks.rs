//! Registered playlists (bookmarks): reading them back with row-by-row
//! validation, and adding and removing entries.

use vstd::prelude::*;
use crate::json::{get_str, json_parse, parse_json, get_member_str, Json, JsonView};
use crate::urls::{playlist_url, playlist_url_spec, canonical_prefix, is_playlist_id_spec, is_radio_id, lemma_accepted_address_is_canonical};

verus! {

/// The most bookmarks kept.
pub const MAX_BOOKMARKS: usize = 200;

/// The most characters kept of a bookmark's title.
pub const MAX_TITLE_CHARS: usize = 200;

/// A registered playlist: its title and its canonical address.
#[derive(Debug)]
pub struct Bookmark {
    pub title: String,
    pub url: String,
}

impl Clone for Bookmark {
    fn clone(&self) -> (r: Self)
        ensures
            r == *self,
    {
        Bookmark { title: self.title.clone(), url: self.url.clone() }
    }
}

impl PartialEq for Bookmark {
    fn eq(&self, other: &Self) -> (r: bool) {
        self.title == other.title && self.url == other.url
    }
}

impl vstd::std_specs::cmp::PartialEqSpecImpl for Bookmark {
    open spec fn obeys_eq_spec() -> bool {
        true
    }

    open spec fn eq_spec(&self, other: &Self) -> bool {
        self.title@ == other.title@ && self.url@ == other.url@
    }
}

/// A bookmark as values: its title and its address.
pub open spec fn bookmark_view(b: Bookmark) -> (Seq<char>, Seq<char>) {
    (b.title@, b.url@)
}

/// The bookmarks of a list, as values.
pub open spec fn bookmarks_view(rows: Seq<Bookmark>) -> Seq<(Seq<char>, Seq<char>)> {
    rows.map_values(|b: Bookmark| bookmark_view(b))
}

/// `t` cut to its first `MAX_TITLE_CHARS` characters.
pub open spec fn cut_title(t: Seq<char>) -> Seq<char> {
    if t.len() <= MAX_TITLE_CHARS { t } else { t.take(MAX_TITLE_CHARS as int) }
}

/// The bookmark a stored row stands for: it needs a string `title` and a
/// string `url` that `playlist_url` accepts; the title is cut and the address
/// made canonical.
pub open spec fn row_bookmark(row: Seq<char>) -> Option<(Seq<char>, Seq<char>)> {
    match json_parse(row) {
        Some(r) => match (get_str(r, "title"@), get_str(r, "url"@)) {
            (Some(title), Some(url)) => match playlist_url_spec(url) {
                Ok(canonical) => Some((cut_title(title), canonical)),
                Err(_) => None,
            },
            _ => None,
        },
        None => None,
    }
}

/// The bookmarks stored in `data`: from its first `MAX_BOOKMARKS` rows, each
/// valid row in order; nothing where `data` is not a JSON array.
pub open spec fn stored_bookmarks(data: Seq<char>) -> Seq<(Seq<char>, Seq<char>)> {
    match json_parse(data) {
        Some(JsonView::Array(rows)) => {
            let first = if rows.len() <= MAX_BOOKMARKS { rows } else { rows.take(MAX_BOOKMARKS as int) };
            first.filter_map(|row: Seq<char>| row_bookmark(row))
        },
        _ => seq![],
    }
}

/// The bookmark that the stored row `row` stands for.
fn row_to_bookmark(row: &str) -> (r: Option<Bookmark>)
    ensures
        match r {
            Some(b) => row_bookmark(row@) == Some(bookmark_view(b)),
            None => row_bookmark(row@) is None,
        },
{
    let value = match parse_json(row) {
        Some(v) => v,
        None => return None,
    };
    let title = match get_member_str(&value, "title") {
        Some(t) => t,
        None => return None,
    };
    let url = match get_member_str(&value, "url") {
        Some(u) => u,
        None => return None,
    };
    let url = match playlist_url(url.as_str()) {
        Ok(u) => u,
        Err(_) => return None,
    };
    let n = title.as_str().unicode_len();
    let title = if n <= MAX_TITLE_CHARS {
        title
    } else {
        title.as_str().substring_char(0, MAX_TITLE_CHARS).to_owned()
    };
    Some(Bookmark { title, url })
}

/// Reads the stored bookmarks from the text of the bookmark file. A text that
/// is not a JSON array gives none; an invalid row is skipped, the others kept.
pub fn bookmarks_from_json(data: &str) -> (r: Vec<Bookmark>)
    ensures
        bookmarks_view(r@) == stored_bookmarks(data@),
        r@.len() <= MAX_BOOKMARKS,
{
    let rows = match parse_json(data) {
        Some(Json::Array(rows)) => rows,
        _ => return Vec::new(),
    };
    let ghost all = rows@.map_values(|t: String| t@);
    let n = if rows.len() <= MAX_BOOKMARKS { rows.len() } else { MAX_BOOKMARKS };
    let ghost first = if all.len() <= MAX_BOOKMARKS { all } else { all.take(MAX_BOOKMARKS as int) };
    assert(first =~= all.take(n as int));
    let ghost f = |row: Seq<char>| row_bookmark(row);
    let mut out: Vec<Bookmark> = Vec::new();
    let mut i: usize = 0;
    while i < n
        invariant
            all == rows@.map_values(|t: String| t@),
            n <= rows@.len(),
            n <= MAX_BOOKMARKS,
            i <= n,
            f == (|row: Seq<char>| row_bookmark(row)),
            bookmarks_view(out@) == all.take(i as int).filter_map(f),
            out@.len() <= i,
        decreases n - i,
    {
        proof {
            all.lemma_filter_map_take_succ(f, i as int);
        }
        let ghost before = bookmarks_view(out@);
        match row_to_bookmark(rows[i].as_str()) {
            Some(b) => {
                out.push(b);
                assert(bookmarks_view(out@) =~= before + seq![bookmark_view(b)]);
            },
            None => {},
        }
        i = i + 1;
    }
    out
}

/// `rows` without the bookmarks of `url`.
pub open spec fn without_url(rows: Seq<(Seq<char>, Seq<char>)>, url: Seq<char>) -> Seq<(Seq<char>, Seq<char>)> {
    rows.filter(other_url(url))
}

/// Holds of a bookmark of another address than `url`.
pub open spec fn other_url(url: Seq<char>) -> spec_fn((Seq<char>, Seq<char>)) -> bool {
    |b: (Seq<char>, Seq<char>)| b.1 != url
}

/// `rows` with `(title, url)` registered: an earlier bookmark of `url` goes,
/// the new one comes last, and the oldest give way beyond `MAX_BOOKMARKS`.
pub open spec fn with_bookmark(rows: Seq<(Seq<char>, Seq<char>)>, title: Seq<char>, url: Seq<char>) -> Seq<(Seq<char>, Seq<char>)> {
    let kept = without_url(rows, url).push((title, url));
    if kept.len() <= MAX_BOOKMARKS {
        kept
    } else {
        kept.skip(kept.len() - MAX_BOOKMARKS)
    }
}

/// Message for registering an address whose list has not been fetched.
pub open spec fn not_loaded_message() -> Seq<char> {
    "先にこのリストを取得してください"@
}

/// `rows` without the bookmarks of `url`.
fn remove_url(rows: &Vec<Bookmark>, url: &String) -> (r: Vec<Bookmark>)
    ensures
        bookmarks_view(r@) == without_url(bookmarks_view(rows@), url@),
{
    let ghost all = bookmarks_view(rows@);
    let ghost pred = other_url(url@);
    let mut kept: Vec<Bookmark> = Vec::new();
    let mut i: usize = 0;
    while i < rows.len()
        invariant
            all == bookmarks_view(rows@),
            pred == other_url(url@),
            i <= rows@.len(),
            bookmarks_view(kept@) == all.take(i as int).filter(pred),
        decreases rows@.len() - i,
    {
        proof {
            reveal(Seq::filter);
            assert(all.take(i + 1).drop_last() =~= all.take(i as int));
            assert(all.take(i + 1).last() == all[i as int]);
        }
        let ghost before = bookmarks_view(kept@);
        if !(rows[i].url == *url) {
            kept.push(rows[i].clone());
            assert(bookmarks_view(kept@) =~= before.push(all[i as int]));
        }
        i = i + 1;
    }
    assert(all.take(rows@.len() as int) =~= all);
    kept
}

/// Registers the list that was fetched from `loaded_url` under
/// `loaded_title`, when `input` names that list: returns the index of the new
/// bookmark, or the message of the refusal with `rows` unchanged.
pub fn register_bookmark(rows: &mut Vec<Bookmark>, input: &str, loaded_url: &str, loaded_title: &str) -> (r: Result<usize, String>)
    ensures
        match playlist_url_spec(input@) {
            Err(msg) => (r matches Err(m) && m@ == msg) && final(rows)@ == old(rows)@,
            Ok(url) => if url != loaded_url@ {
                (r matches Err(m) && m@ == not_loaded_message()) && final(rows)@ == old(rows)@
            } else {
                &&& bookmarks_view(final(rows)@) == with_bookmark(bookmarks_view(old(rows)@), loaded_title@, url)
                &&& r == Ok::<usize, String>((final(rows)@.len() - 1) as usize)
            },
        },
{
    let url = match playlist_url(input) {
        Ok(u) => u,
        Err(e) => return Err(e.0),
    };
    if !crate::text::str_eq(url.as_str(), loaded_url) {
        return Err("先にこのリストを取得してください".to_owned());
    }
    let mut kept = remove_url(rows, &url);
    let ghost kept_view = bookmarks_view(kept@);
    kept.push(Bookmark { title: loaded_title.to_owned(), url });
    assert(bookmarks_view(kept@) =~= kept_view.push((loaded_title@, url@)));
    if kept.len() > MAX_BOOKMARKS {
        let excess = kept.len() - MAX_BOOKMARKS;
        let ghost whole = bookmarks_view(kept@);
        let tail = kept.split_off(excess);
        assert(bookmarks_view(tail@) =~= whole.skip(excess as int));
        *rows = tail;
    } else {
        *rows = kept;
    }
    Ok(rows.len() - 1)
}

/// Removes the bookmark at `selected`, if there is one; says whether it did.
pub fn remove_bookmark(rows: &mut Vec<Bookmark>, selected: usize) -> (r: bool)
    ensures
        r == (selected < old(rows)@.len()),
        r ==> final(rows)@ == old(rows)@.remove(selected as int),
        !r ==> final(rows)@ == old(rows)@,
{
    if selected >= rows.len() {
        return false;
    }
    rows.remove(selected);
    true
}

proof fn lemma_filter_map_len<A, B>(s: Seq<A>, f: spec_fn(A) -> Option<B>)
    ensures
        s.filter_map(f).len() <= s.len(),
    decreases s.len(),
{
    if s.len() > 0 {
        lemma_filter_map_len(s.drop_last(), f);
    }
}

/// The bookmarks read back are at most `MAX_BOOKMARKS`; each title has at
/// most `MAX_TITLE_CHARS` characters, and each address is the canonical
/// address of a playlist id.
pub proof fn lemma_stored_bookmarks_well_formed(data: Seq<char>)
    ensures
        stored_bookmarks(data).len() <= MAX_BOOKMARKS,
        forall|i: int| 0 <= i < stored_bookmarks(data).len() ==> {
            &&& (#[trigger] stored_bookmarks(data)[i]).0.len() <= MAX_TITLE_CHARS
            &&& exists|id: Seq<char>| stored_bookmarks(data)[i].1 == canonical_prefix() + id
                && is_playlist_id_spec(id) && !is_radio_id(id)
        },
{
    if let Some(JsonView::Array(rows)) = json_parse(data) {
        let first = if rows.len() <= MAX_BOOKMARKS { rows } else { rows.take(MAX_BOOKMARKS as int) };
        let f = |row: Seq<char>| row_bookmark(row);
        let out = first.filter_map(f);
        lemma_filter_map_len(first, f);
        assert forall|i: int| 0 <= i < out.len() implies {
            &&& (#[trigger] out[i]).0.len() <= MAX_TITLE_CHARS
            &&& exists|id: Seq<char>| out[i].1 == canonical_prefix() + id
                && is_playlist_id_spec(id) && !is_radio_id(id)
        } by {
            assert(out.contains(out[i]));
            first.lemma_filter_map_contains(f, out[i]);
            let row = choose|t: Seq<char>| first.contains(t) && f(t) == Some(out[i]);
            let r = json_parse(row)->0;
            let url = get_str(r, "url"@)->0;
            lemma_accepted_address_is_canonical(url);
        }
    }
}

/// After registering `(title, url)`: it is the last bookmark, no other
/// bookmark has `url`, there are at most `MAX_BOOKMARKS`, and where there was
/// room every other bookmark stays, in its order.
pub proof fn lemma_with_bookmark(rows: Seq<(Seq<char>, Seq<char>)>, title: Seq<char>, url: Seq<char>)
    ensures
        with_bookmark(rows, title, url).len() >= 1,
        with_bookmark(rows, title, url).len() <= MAX_BOOKMARKS,
        with_bookmark(rows, title, url).last() == (title, url),
        forall|i: int| 0 <= i < with_bookmark(rows, title, url).len() - 1
            ==> (#[trigger] with_bookmark(rows, title, url)[i]).1 != url,
        without_url(rows, url).len() < MAX_BOOKMARKS ==> with_bookmark(rows, title, url)
            == without_url(rows, url).push((title, url)),
{
    let pred = other_url(url);
    let kept = without_url(rows, url);
    let all = kept.push((title, url));
    assert forall|i: int| 0 <= i < kept.len() implies (#[trigger] kept[i]).1 != url by {
        rows.lemma_filter_pred(pred, i);
    }
    let r = with_bookmark(rows, title, url);
    if all.len() > MAX_BOOKMARKS {
        let k = all.len() - MAX_BOOKMARKS;
        assert forall|i: int| 0 <= i < r.len() - 1 implies (#[trigger] r[i]).1 != url by {
            assert(r[i] == all[i + k]);
            assert(all[i + k] == kept[i + k]);
        }
    } else {
        assert forall|i: int| 0 <= i < r.len() - 1 implies (#[trigger] r[i]).1 != url by {
            assert(r[i] == kept[i]);
        }
    }
}

} // verus!
