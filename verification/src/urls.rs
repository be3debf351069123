//! Playlist addresses: validation and the canonical form
//! `https://www.youtube.com/playlist?list=<ID>`.

use vstd::prelude::*;
use vstd::utf8::{encode_utf8, is_ascii_chars};
use crate::text::{
    all_whitespace, from_utf8_lossy, is_unicode_whitespace, lemma_trim_surrounding_whitespace, lossy_decode,
    push_str, str_eq, trim, trim_end_spec, trim_spec, trim_start_spec,
};

verus! {

/// The value of one hexadecimal digit, as `char::to_digit(16)` reads it.
pub open spec fn hex_value(b: u8) -> Option<u8> {
    if 48 <= b && b <= 57 {
        Some((b - 48) as u8)
    } else if 97 <= b && b <= 102 {
        Some((b - 87) as u8)
    } else if 65 <= b && b <= 70 {
        Some((b - 55) as u8)
    } else {
        None
    }
}

/// Decodes `%XX` escapes; every other byte, and a `%` that does not start a
/// complete escape, stands for itself.
pub open spec fn percent_decode_bytes(s: Seq<u8>) -> Seq<u8>
    decreases s.len(),
{
    if s.len() == 0 {
        seq![]
    } else if s[0] == 37 && s.len() > 2 && hex_value(s[1]) is Some && hex_value(s[2]) is Some {
        seq![(hex_value(s[1])->0 * 16 + hex_value(s[2])->0) as u8] + percent_decode_bytes(s.skip(3))
    } else {
        seq![s[0]] + percent_decode_bytes(s.skip(1))
    }
}

/// The text that the bytes `s` stand for once their escapes are decoded.
pub open spec fn percent_decode_spec(s: Seq<u8>) -> Seq<char> {
    lossy_decode(percent_decode_bytes(s))
}

fn hex_digit(b: u8) -> (r: Option<u8>)
    ensures
        r == hex_value(b),
{
    if 48 <= b && b <= 57 {
        Some(b - 48)
    } else if 97 <= b && b <= 102 {
        Some(b - 87)
    } else if 65 <= b && b <= 70 {
        Some(b - 55)
    } else {
        None
    }
}

/// Decodes the escapes in `bytes[lo..hi]`.
fn percent_decode_range(bytes: &[u8], lo: usize, hi: usize) -> (r: Vec<u8>)
    requires
        lo <= hi <= bytes@.len(),
    ensures
        r@ == percent_decode_bytes(bytes@.subrange(lo as int, hi as int)),
{
    let mut out: Vec<u8> = Vec::new();
    let mut i = lo;
    while i < hi
        invariant
            lo <= i <= hi <= bytes@.len(),
            out@ + percent_decode_bytes(bytes@.subrange(i as int, hi as int))
                == percent_decode_bytes(bytes@.subrange(lo as int, hi as int)),
        decreases hi - i,
    {
        let ghost rest = bytes@.subrange(i as int, hi as int);
        if bytes[i] == 37 && hi - i > 2 {
            let h = hex_digit(bytes[i + 1]);
            let l = hex_digit(bytes[i + 2]);
            if let (Some(h), Some(l)) = (h, l) {
                assert(rest.skip(3) =~= bytes@.subrange(i + 3, hi as int));
                assert(out@.push((h * 16 + l) as u8) + percent_decode_bytes(rest.skip(3))
                    =~= out@ + (seq![(h * 16 + l) as u8] + percent_decode_bytes(rest.skip(3))));
                out.push(h * 16 + l);
                i = i + 3;
                continue;
            }
        }
        assert(rest.skip(1) =~= bytes@.subrange(i + 1, hi as int));
        assert(out@.push(bytes[i as int]) + percent_decode_bytes(rest.skip(1))
            =~= out@ + (seq![bytes[i as int]] + percent_decode_bytes(rest.skip(1))));
        out.push(bytes[i]);
        i = i + 1;
    }
    assert(bytes@.subrange(hi as int, hi as int) =~= Seq::<u8>::empty());
    assert(out@ + Seq::<u8>::empty() =~= out@);
    out
}

/// Decodes `%XX` escapes in `value`; ill-formed UTF-8 in the result becomes
/// U+FFFD.
pub fn percent_decode(value: &str) -> (r: String)
    ensures
        r@ == percent_decode_spec(encode_utf8(value@)),
{
    let bytes = value.as_bytes();
    let decoded = percent_decode_range(bytes, 0, bytes.len());
    assert(bytes@.subrange(0, bytes@.len() as int) =~= bytes@);
    from_utf8_lossy(decoded.as_slice())
}

/// The first index at or after `i` where `s` holds `b`, or `s.len()`.
pub open spec fn next_index_of(s: Seq<u8>, i: int, b: u8) -> int
    decreases s.len() - i,
{
    if i >= s.len() {
        s.len() as int
    } else if s[i] == b {
        i
    } else {
        next_index_of(s, i + 1, b)
    }
}

/// `next_index_of` stays between `i` and the end, finds `b` where it stops
/// short of the end, and passes no `b` on the way.
pub proof fn lemma_next_index_of_bounds(s: Seq<u8>, i: int, b: u8)
    requires
        0 <= i <= s.len(),
    ensures
        i <= next_index_of(s, i, b) <= s.len(),
        next_index_of(s, i, b) < s.len() ==> s[next_index_of(s, i, b)] == b,
        forall|j: int| i <= j < next_index_of(s, i, b) ==> s[j] != b,
    decreases s.len() - i,
{
    if i < s.len() && s[i] != b {
        lemma_next_index_of_bounds(s, i + 1, b);
    }
}

/// The characters of the key `list`.
pub open spec fn list_key() -> Seq<char> {
    seq!['l', 'i', 's', 't']
}

/// For one `key=value` pair (split at its first `=`; a pair without one has
/// an empty value): the decoded value when the decoded key is `list`.
pub open spec fn pair_list_value(pair: Seq<u8>) -> Option<Seq<char>> {
    let eq = next_index_of(pair, 0, 61);
    let key = pair.subrange(0, eq);
    let value = if eq < pair.len() { pair.subrange(eq + 1, pair.len() as int) } else { seq![] };
    if percent_decode_spec(key) == list_key() {
        Some(percent_decode_spec(value))
    } else {
        None
    }
}

/// The `list` values among the `&`-separated pairs of `q` from byte `start` on.
pub open spec fn list_values_from(q: Seq<u8>, start: int) -> Seq<Seq<char>>
    decreases q.len() - start,
    when 0 <= start <= q.len()
{
    let end = next_index_of(q, start, 38);
    proof {
        lemma_next_index_of_bounds(q, start, 38);
    }
    let here = pair_list_value(q.subrange(start, end));
    let rest = if end < q.len() { list_values_from(q, end + 1) } else { seq![] };
    match here {
        Some(v) => seq![v] + rest,
        None => rest,
    }
}

/// The decoded values of every `list` key of the query `q`, in order.
pub open spec fn list_values_spec(q: Seq<char>) -> Seq<Seq<char>> {
    list_values_from(encode_utf8(q), 0)
}

/// The first index in `bytes[from..hi]` holding `b`, or `hi`.
fn find_byte(bytes: &[u8], from: usize, hi: usize, b: u8) -> (r: usize)
    requires
        from <= hi <= bytes@.len(),
    ensures
        r == from + next_index_of(bytes@.subrange(from as int, hi as int), 0, b),
        from <= r <= hi,
{
    let ghost s = bytes@.subrange(from as int, hi as int);
    let mut j = from;
    while j < hi && bytes[j] != b
        invariant
            from <= j <= hi <= bytes@.len(),
            s == bytes@.subrange(from as int, hi as int),
            next_index_of(s, (j - from) as int, b) == next_index_of(s, 0, b),
        decreases hi - j,
    {
        j = j + 1;
    }
    j
}

/// The `list` value of the pair `bytes[lo..hi]`, if its key is `list`.
fn pair_value(bytes: &[u8], lo: usize, hi: usize) -> (r: Option<String>)
    requires
        lo <= hi <= bytes@.len(),
    ensures
        match r {
            Some(v) => pair_list_value(bytes@.subrange(lo as int, hi as int)) == Some(v@),
            None => pair_list_value(bytes@.subrange(lo as int, hi as int)) is None,
        },
{
    let ghost pair = bytes@.subrange(lo as int, hi as int);
    let eq = find_byte(bytes, lo, hi, 61);
    let key = from_utf8_lossy(percent_decode_range(bytes, lo, eq).as_slice());
    assert(pair.subrange(0, eq - lo) =~= bytes@.subrange(lo as int, eq as int));
    if !is_list_key(&key) {
        return None;
    }
    if eq < hi {
        assert(pair.subrange(eq - lo + 1, pair.len() as int) =~= bytes@.subrange(eq + 1, hi as int));
        Some(from_utf8_lossy(percent_decode_range(bytes, eq + 1, hi).as_slice()))
    } else {
        let empty: Vec<u8> = Vec::new();
        assert(percent_decode_bytes(Seq::<u8>::empty()) =~= empty@);
        Some(from_utf8_lossy(empty.as_slice()))
    }
}

fn is_list_key(s: &String) -> (r: bool)
    ensures
        r == (s@ == list_key()),
{
    let t = s.as_str();
    if t.unicode_len() != 4 {
        return false;
    }
    let r = t.get_char(0) == 'l' && t.get_char(1) == 'i' && t.get_char(2) == 's' && t.get_char(3) == 't';
    assert(r ==> t@ =~= list_key());
    r
}

/// The decoded values of every `list` key of `query`, in order.
pub fn list_values(query: &str) -> (r: Vec<String>)
    ensures
        r@.map_values(|v: String| v@) == list_values_spec(query@),
{
    let bytes = query.as_bytes();
    let ghost q = bytes@;
    let n = bytes.len();
    let mut out: Vec<String> = Vec::new();
    let mut start: usize = 0;
    loop
        invariant
            q == bytes@,
            q == encode_utf8(query@),
            n == q.len(),
            start <= n,
            out@.map_values(|v: String| v@) + list_values_from(q, start as int)
                == list_values_from(q, 0),
        decreases n - start,
    {
        let end = find_byte(bytes, start, n, 38);
        proof {
            lemma_next_index_of_bounds(q, start as int, 38);
            lemma_next_index_shift(q, start as int, 38);
        }
        let ghost before = out@.map_values(|v: String| v@);
        let here = pair_value(bytes, start, end);
        let ghost rest = if end < n { list_values_from(q, end + 1) } else { seq![] };
        assert(list_values_from(q, start as int) == match pair_list_value(q.subrange(start as int, end as int)) {
            Some(v) => seq![v] + rest,
            None => rest,
        });
        match here {
            Some(v) => {
                out.push(v);
                assert(out@.map_values(|v: String| v@) =~= before.push(v@));
                assert(before + (seq![v@] + rest) =~= before.push(v@) + rest);
            },
            None => {},
        }
        if end == n {
            assert(out@.map_values(|v: String| v@) + Seq::<Seq<char>>::empty()
                =~= out@.map_values(|v: String| v@));
            return out;
        }
        start = end + 1;
    }
}

/// Relates a search in a subrange to a search in the whole sequence.
proof fn lemma_next_index_shift(s: Seq<u8>, from: int, b: u8)
    requires
        0 <= from <= s.len(),
    ensures
        from + next_index_of(s.subrange(from, s.len() as int), 0, b) == next_index_of(s, from, b),
{
    let t = s.subrange(from, s.len() as int);
    lemma_next_index_shift_aux(s, t, from, 0, b);
}

proof fn lemma_next_index_shift_aux(s: Seq<u8>, t: Seq<u8>, from: int, k: int, b: u8)
    requires
        0 <= from <= s.len(),
        t == s.subrange(from, s.len() as int),
        0 <= k <= t.len(),
    ensures
        from + next_index_of(t, k, b) == next_index_of(s, from + k, b),
    decreases t.len() - k,
{
    if k < t.len() && t[k] != b {
        lemma_next_index_shift_aux(s, t, from, k + 1, b);
    }
}

/// An address refused by `playlist_url`, with the message shown to the user.
#[derive(Debug, Eq)]
pub struct UrlError(pub String);

impl PartialEq for UrlError {
    fn eq(&self, other: &Self) -> (r: bool) {
        self.0 == other.0
    }
}

impl vstd::std_specs::cmp::PartialEqSpecImpl for UrlError {
    open spec fn obeys_eq_spec() -> bool {
        true
    }

    open spec fn eq_spec(&self, other: &Self) -> bool {
        self.0@ == other.0@
    }
}

impl Clone for UrlError {
    fn clone(&self) -> (r: Self)
        ensures
            r == *self,
    {
        UrlError(self.0.clone())
    }
}

impl UrlError {
    /// The message, as `Display` shows it.
    pub fn message(&self) -> (r: String)
        ensures
            r@ == self.0@,
    {
        self.0.as_str().to_owned()
    }
}

/// Message for an address that is not a trusted `https` playlist address.
pub open spec fn untrusted_message() -> Seq<char> {
    "https://music.youtube.com/playlist?list=… を入力してください"@
}

/// Message for an address without exactly one well-formed `list` id.
pub open spec fn no_id_message() -> Seq<char> {
    "再生リストID（list=…）がありません"@
}

/// Message for an automatically generated radio list.
pub open spec fn radio_message() -> Seq<char> {
    "自動生成ラジオではなく、固定の再生リストを指定してください"@
}

pub fn err_untrusted() -> (r: UrlError)
    ensures
        r.0@ == untrusted_message(),
{
    UrlError("https://music.youtube.com/playlist?list=… を入力してください".to_owned())
}

pub fn err_no_id() -> (r: UrlError)
    ensures
        r.0@ == no_id_message(),
{
    UrlError("再生リストID（list=…）がありません".to_owned())
}

pub fn err_radio() -> (r: UrlError)
    ensures
        r.0@ == radio_message(),
{
    UrlError("自動生成ラジオではなく、固定の再生リストを指定してください".to_owned())
}

/// A character allowed in a playlist id: an ASCII letter or digit, `_` or `-`.
pub open spec fn is_id_char(c: char) -> bool {
    ||| ('a' <= c && c <= 'z')
    ||| ('A' <= c && c <= 'Z')
    ||| ('0' <= c && c <= '9')
    ||| c == '_'
    ||| c == '-'
}

/// A playlist id: 2 to 200 characters, each allowed by `is_id_char`.
pub open spec fn is_playlist_id_spec(id: Seq<char>) -> bool {
    &&& 2 <= id.len() <= 200
    &&& forall|i: int| 0 <= i < id.len() ==> is_id_char(#[trigger] id[i])
}

/// An id of an automatically generated list: it starts with `RD` or `UL`.
pub open spec fn is_radio_id(id: Seq<char>) -> bool {
    &&& id.len() >= 2
    &&& ((id[0] == 'R' && id[1] == 'D') || (id[0] == 'U' && id[1] == 'L'))
}

fn is_id_character(c: char) -> (r: bool)
    ensures
        r == is_id_char(c),
{
    ('a' <= c && c <= 'z') || ('A' <= c && c <= 'Z') || ('0' <= c && c <= '9') || c == '_' || c == '-'
}

/// Whether `id` is a well-formed playlist id.
pub fn is_playlist_id(id: &str) -> (r: bool)
    ensures
        r == is_playlist_id_spec(id@),
{
    let n = id.unicode_len();
    if n < 2 || n > 200 {
        return false;
    }
    let mut i: usize = 0;
    while i < n
        invariant
            n == id@.len(),
            i <= n,
            forall|k: int| 0 <= k < i ==> is_id_char(#[trigger] id@[k]),
        decreases n - i,
    {
        if !is_id_character(id.get_char(i)) {
            return false;
        }
        i = i + 1;
    }
    true
}

/// The parts of a parsed address that the validation reads.
pub struct UrlParts {
    pub scheme: String,
    pub host: Option<String>,
    pub username: String,
    pub password: Option<String>,
    pub port: Option<u16>,
    pub query: Option<String>,
}

/// `UrlParts` as values.
pub struct UrlPartsView {
    pub scheme: Seq<char>,
    pub host: Option<Seq<char>>,
    pub username: Seq<char>,
    pub password: Option<Seq<char>>,
    pub port: Option<u16>,
    pub query: Option<Seq<char>>,
}

pub open spec fn opt_string_view(o: Option<String>) -> Option<Seq<char>> {
    match o {
        Some(s) => Some(s@),
        None => None,
    }
}

impl View for UrlParts {
    type V = UrlPartsView;

    open spec fn view(&self) -> UrlPartsView {
        UrlPartsView {
            scheme: self.scheme@,
            host: opt_string_view(self.host),
            username: self.username@,
            password: opt_string_view(self.password),
            port: self.port,
            query: opt_string_view(self.query),
        }
    }
}

/// What `url::Url::parse` makes of `input`: `None` where it refuses it, else
/// the scheme, host, user name, password, explicit port and query it reports.
pub uninterp spec fn url_parse(input: Seq<char>) -> Option<UrlPartsView>;

/// Calls `url::Url::parse` and keeps the parts that the validation reads.
/// What the parser accepts and how it normalises is named, not stated.
#[verifier::external_body]
fn parse_url(input: &str) -> (r: Option<UrlParts>)
    ensures
        match r {
            Some(p) => url_parse(input@) == Some(p@),
            None => url_parse(input@) is None,
        },
{
    match url::Url::parse(input) {
        Ok(u) => Some(UrlParts {
            scheme: u.scheme().to_owned(),
            host: u.host_str().map(str::to_owned),
            username: u.username().to_owned(),
            password: u.password().map(str::to_owned),
            port: u.port(),
            query: u.query().map(str::to_owned),
        }),
        Err(_) => None,
    }
}

/// The hosts that serve playlists.
pub open spec fn is_trusted_host(h: Seq<char>) -> bool {
    ||| h == "music.youtube.com"@
    ||| h == "www.youtube.com"@
    ||| h == "youtube.com"@
    ||| h == "m.youtube.com"@
}

/// An `https` address on a trusted host, without user name or password, on
/// the default port or an explicit 443.
pub open spec fn is_trusted_address(p: UrlPartsView) -> bool {
    &&& p.scheme == "https"@
    &&& p.host matches Some(h) && is_trusted_host(h)
    &&& p.username.len() == 0
    &&& p.password is None
    &&& p.port matches Some(port) ==> port == 443
}

/// The query of `p`, empty where it has none.
pub open spec fn query_or_empty(p: UrlPartsView) -> Seq<char> {
    match p.query {
        Some(q) => q,
        None => seq![],
    }
}

/// The start of every canonical playlist address.
pub open spec fn canonical_prefix() -> Seq<char> {
    "https://www.youtube.com/playlist?list="@
}

/// The verdict on parsed address parts: the canonical address, or the
/// message of the refusal.
pub open spec fn playlist_verdict(p: UrlPartsView) -> Result<Seq<char>, Seq<char>> {
    if !is_trusted_address(p) {
        Err(untrusted_message())
    } else {
        let ids = list_values_spec(query_or_empty(p));
        if ids.len() != 1 || !is_playlist_id_spec(ids[0]) {
            Err(no_id_message())
        } else if is_radio_id(ids[0]) {
            Err(radio_message())
        } else {
            Ok(canonical_prefix() + ids[0])
        }
    }
}

/// The verdict on an input as typed: surrounding whitespace is dropped, the
/// rest parsed as an address and judged.
pub open spec fn playlist_url_spec(input: Seq<char>) -> Result<Seq<char>, Seq<char>> {
    match url_parse(trim_spec(input)) {
        Some(p) => playlist_verdict(p),
        None => Err(untrusted_message()),
    }
}

/// A verdict as values: the address, or the refusal's message.
pub open spec fn url_result_view(r: Result<String, UrlError>) -> Result<Seq<char>, Seq<char>> {
    match r {
        Ok(s) => Ok(s@),
        Err(e) => Err(e.0@),
    }
}

fn is_trusted_host_name(h: &str) -> (r: bool)
    ensures
        r == is_trusted_host(h@),
{
    str_eq(h, "music.youtube.com") || str_eq(h, "www.youtube.com") || str_eq(h, "youtube.com")
        || str_eq(h, "m.youtube.com")
}

/// Validates parsed address parts and builds the canonical address
/// `https://www.youtube.com/playlist?list=<ID>`.
pub fn canonical_playlist_url(parts: &UrlParts) -> (r: Result<String, UrlError>)
    ensures
        url_result_view(r) == playlist_verdict(parts@),
{
    let trusted_host = match &parts.host {
        Some(h) => is_trusted_host_name(h.as_str()),
        None => false,
    };
    let port_ok = match parts.port {
        Some(port) => port == 443,
        None => true,
    };
    if !str_eq(parts.scheme.as_str(), "https") || !trusted_host || !parts.username.as_str().is_empty()
        || parts.password.is_some() || !port_ok {
        return Err(err_untrusted());
    }
    let empty = String::new();
    let query = match &parts.query {
        Some(q) => q.as_str(),
        None => empty.as_str(),
    };
    let ids = list_values(query);
    let ghost views = ids@.map_values(|v: String| v@);
    if ids.len() != 1 {
        return Err(err_no_id());
    }
    let id = ids[0].as_str();
    assert(views[0] == id@);
    if !is_playlist_id(id) {
        return Err(err_no_id());
    }
    if (id.get_char(0) == 'R' && id.get_char(1) == 'D') || (id.get_char(0) == 'U' && id.get_char(1) == 'L') {
        return Err(err_radio());
    }
    let mut out = "https://www.youtube.com/playlist?list=".to_owned();
    push_str(&mut out, id);
    Ok(out)
}

/// Validates `value` and returns the canonical address
/// `https://www.youtube.com/playlist?list=<ID>`.
pub fn playlist_url(value: &str) -> (r: Result<String, UrlError>)
    ensures
        url_result_view(r) == playlist_url_spec(value@),
{
    let trimmed = trim(value);
    match parse_url(trimmed) {
        Some(parts) => canonical_playlist_url(&parts),
        None => Err(err_untrusted()),
    }
}

/// Every address that `playlist_url` accepts is the canonical address of a
/// well-formed playlist id that is not the id of a generated radio list.
pub proof fn lemma_accepted_address_is_canonical(input: Seq<char>)
    ensures
        playlist_url_spec(input) matches Ok(u) ==> exists|id: Seq<char>|
            u == canonical_prefix() + id && is_playlist_id_spec(id) && !is_radio_id(id),
{
    if let Ok(u) = playlist_url_spec(input) {
        let p = url_parse(trim_spec(input))->0;
        let id = list_values_spec(query_or_empty(p))[0];
        assert(u == canonical_prefix() + id);
    }
}

/// Whitespace typed around an address does not change the verdict on it.
pub proof fn lemma_surrounding_whitespace_ignored(before: Seq<char>, input: Seq<char>, after: Seq<char>)
    requires
        all_whitespace(before),
        all_whitespace(after),
    ensures
        playlist_url_spec(before + input + after) == playlist_url_spec(input),
{
    lemma_trim_surrounding_whitespace(before, input, after);
}

/// The query of the canonical address of `id`: `list=<id>`.
pub open spec fn canonical_query(id: Seq<char>) -> Seq<char> {
    list_key() + seq!['='] + id
}

/// The parts of the canonical address of `id`.
pub open spec fn canonical_parts(id: Seq<char>) -> UrlPartsView {
    UrlPartsView {
        scheme: "https"@,
        host: Some("www.youtube.com"@),
        username: seq![],
        password: None,
        port: None,
        query: Some(canonical_query(id)),
    }
}

/// Where the parser reads the canonical address of a playlist id back into
/// its parts, the validation accepts them and gives the same address again.
pub proof fn lemma_canonical_parts_accepted(id: Seq<char>)
    requires
        is_playlist_id_spec(id),
        !is_radio_id(id),
    ensures
        playlist_verdict(canonical_parts(id)) == Ok::<Seq<char>, Seq<char>>(canonical_prefix() + id),
{
    let q = canonical_query(id);
    assert(q[4] == '=');
    assert forall|i: int| 0 <= i < q.len() implies '\0' <= #[trigger] q[i] <= '\u{7f}' && q[i] != '&' && q[i] != '%' by {
        if i >= 5 {
            assert(q[i] == id[i - 5]);
            assert(is_id_char(id[i - 5]));
        }
    }
    let b = encode_utf8(q);
    lemma_ascii_encoding(q);
    assert(b.len() == q.len());
    assert forall|i: int| 0 <= i < b.len() implies b[i] != 38 && b[i] != 37 && (b[i] == 61 <==> i == 4) by {
        if i >= 5 {
            assert(q[i] == id[i - 5]);
            assert(is_id_char(id[i - 5]));
        }
    }
    lemma_next_index_of_absent(b, 0, 38);
    lemma_next_index_of_bounds(b, 0, 61);
    let eq = next_index_of(b, 0, 61);
    assert(b[4] == 61);
    assert(eq <= 4) by {
        if eq > 4 {
            assert(b[4] != 61);
        }
    }
    assert(b[eq] == 61);
    assert(eq == 4);
    assert(b.subrange(0, b.len() as int) =~= b);
    let key = b.subrange(0, 4);
    let value = b.subrange(5, b.len() as int);
    lemma_ascii_encoding(list_key());
    lemma_ascii_encoding(id);
    assert(key =~= encode_utf8(list_key()));
    assert(value =~= encode_utf8(id));
    lemma_plain_text_decodes(list_key());
    lemma_plain_text_decodes(id);
    assert(pair_list_value(b) == Some(id));
    assert(list_values_from(b, 0) =~= seq![id]);
}

/// ASCII text is encoded byte for byte.
proof fn lemma_ascii_encoding(s: Seq<char>)
    requires
        forall|i: int| 0 <= i < s.len() ==> '\0' <= #[trigger] s[i] <= '\u{7f}',
    ensures
        encode_utf8(s) =~= Seq::new(s.len(), |i: int| s[i] as u8),
{
    assert(is_ascii_chars(s));
    vstd::utf8::is_ascii_chars_encode_utf8(s);
}

/// Bytes without `%` decode to themselves.
proof fn lemma_percent_decode_plain(b: Seq<u8>)
    requires
        forall|i: int| 0 <= i < b.len() ==> #[trigger] b[i] != 37,
    ensures
        percent_decode_bytes(b) == b,
    decreases b.len(),
{
    if b.len() > 0 {
        lemma_percent_decode_plain(b.skip(1));
        assert(seq![b[0]] + b.skip(1) =~= b);
    }
}

/// ASCII text without `%` reads back as itself.
proof fn lemma_plain_text_decodes(s: Seq<char>)
    requires
        forall|i: int| 0 <= i < s.len() ==> '\0' <= #[trigger] s[i] <= '\u{7f}' && s[i] != '%',
    ensures
        percent_decode_spec(encode_utf8(s)) == s,
{
    lemma_ascii_encoding(s);
    let b = encode_utf8(s);
    assert forall|i: int| 0 <= i < b.len() implies #[trigger] b[i] != 37 by {
        assert(s[i] != '%');
    }
    lemma_percent_decode_plain(b);
    vstd::utf8::encode_utf8_valid_utf8(s);
    vstd::utf8::encode_utf8_decode_utf8(s);
}

/// Where `x` does not occur from `i` on, the search runs to the end.
proof fn lemma_next_index_of_absent(s: Seq<u8>, i: int, x: u8)
    requires
        0 <= i <= s.len(),
        forall|j: int| i <= j < s.len() ==> #[trigger] s[j] != x,
    ensures
        next_index_of(s, i, x) == s.len(),
{
    lemma_next_index_of_bounds(s, i, x);
}


/// The hexadecimal digit for `n` (below 16), in upper or lower case.
pub open spec fn hex_digit_byte(n: u8, upper: bool) -> u8 {
    if n < 10 {
        (48 + n) as u8
    } else if upper {
        (55 + n) as u8
    } else {
        (87 + n) as u8
    }
}

/// Every byte of `b` written as a `%XX` escape.
pub open spec fn percent_encode_bytes(b: Seq<u8>, upper: bool) -> Seq<u8>
    decreases b.len(),
{
    if b.len() == 0 {
        seq![]
    } else {
        seq![37u8, hex_digit_byte(b[0] / 16, upper), hex_digit_byte(b[0] % 16, upper)]
            + percent_encode_bytes(b.skip(1), upper)
    }
}

/// The text `s` with every byte of its UTF-8 encoding written as `%XX`.
pub open spec fn percent_encoded_text(s: Seq<char>, upper: bool) -> Seq<char> {
    percent_encode_bytes(encode_utf8(s), upper).map_values(|b: u8| b as char)
}

proof fn lemma_percent_encode_ascii(b: Seq<u8>, upper: bool)
    ensures
        percent_encode_bytes(b, upper).len() == 3 * b.len(),
        forall|i: int| 0 <= i < percent_encode_bytes(b, upper).len() ==> #[trigger] percent_encode_bytes(b, upper)[i] < 128,
    decreases b.len(),
{
    if b.len() > 0 {
        lemma_percent_encode_ascii(b.skip(1), upper);
        let head = seq![37u8, hex_digit_byte(b[0] / 16, upper), hex_digit_byte(b[0] % 16, upper)];
        let rest = percent_encode_bytes(b.skip(1), upper);
        assert forall|i: int| 0 <= i < (head + rest).len() implies #[trigger] (head + rest)[i] < 128 by {
            if i >= 3 {
                assert((head + rest)[i] == rest[i - 3]);
            }
        }
    }
}

proof fn lemma_percent_decode_encode(b: Seq<u8>, upper: bool)
    ensures
        percent_decode_bytes(percent_encode_bytes(b, upper)) == b,
    decreases b.len(),
{
    if b.len() > 0 {
        let e = percent_encode_bytes(b, upper);
        let hi = b[0] / 16;
        let lo = b[0] % 16;
        assert(hex_value(hex_digit_byte(hi, upper)) == Some(hi));
        assert(hex_value(hex_digit_byte(lo, upper)) == Some(lo));
        assert(e.skip(3) =~= percent_encode_bytes(b.skip(1), upper));
        lemma_percent_decode_encode(b.skip(1), upper);
        assert((hi * 16 + lo) as u8 == b[0]);
        assert(seq![b[0]] + b.skip(1) =~= b);
    }
}

/// Decoding undoes escaping: a text with every byte written as `%XX`, in
/// upper or lower case, decodes to the text itself.
pub proof fn lemma_percent_decode_inverts_encoding(s: Seq<char>, upper: bool)
    ensures
        percent_decode_spec(encode_utf8(percent_encoded_text(s, upper))) == s,
{
    let b = encode_utf8(s);
    let e = percent_encode_bytes(b, upper);
    let t = percent_encoded_text(s, upper);
    lemma_percent_encode_ascii(b, upper);
    assert forall|i: int| 0 <= i < t.len() implies '\0' <= #[trigger] t[i] <= '\u{7f}' by {
        assert(e[i] < 128);
    }
    lemma_ascii_encoding(t);
    assert forall|i: int| 0 <= i < t.len() implies (#[trigger] t[i]) as u8 == e[i] by {
        assert(e[i] < 128);
    }
    assert(encode_utf8(t) =~= e);
    lemma_percent_decode_encode(b, upper);
    vstd::utf8::encode_utf8_valid_utf8(s);
    vstd::utf8::encode_utf8_decode_utf8(s);
}

/// The playlist id at the end of a canonical address.
pub open spec fn canonical_id(u: Seq<char>) -> Seq<char> {
    u.subrange(canonical_prefix().len() as int, u.len() as int)
}

/// A canonical address has no whitespace to trim.
proof fn lemma_canonical_address_trimmed(id: Seq<char>)
    requires
        is_playlist_id_spec(id),
    ensures
        trim_spec(canonical_prefix() + id) == canonical_prefix() + id,
{
    reveal_strlit("https://www.youtube.com/playlist?list=");
    let u = canonical_prefix() + id;
    assert(u[0] == 'h');
    assert(!is_unicode_whitespace(u[0]));
    assert(trim_start_spec(u) == u);
    assert(u.last() == id.last());
    assert(is_id_char(id[id.len() - 1]));
    assert(!is_unicode_whitespace(u.last()));
    assert(trim_end_spec(u) == u);
}

/// The canonical form is a fixed point: where the parser reads an accepted
/// address back into the parts of its playlist id, validating it again
/// accepts it unchanged.
pub proof fn lemma_accepted_address_fixed_point(input: Seq<char>)
    ensures
        playlist_url_spec(input) matches Ok(u) ==> (url_parse(u) == Some(canonical_parts(canonical_id(u)))
            ==> playlist_url_spec(u) == Ok::<Seq<char>, Seq<char>>(u)),
{
    lemma_accepted_address_is_canonical(input);
    if let Ok(u) = playlist_url_spec(input) {
        let id = choose|id: Seq<char>| u == canonical_prefix() + id && is_playlist_id_spec(id) && !is_radio_id(id);
        assert(canonical_id(u) =~= id);
        lemma_canonical_address_trimmed(id);
        lemma_canonical_parts_accepted(id);
    }
}

} // verus!
