//! The playlist listing that the extractor (`yt-dlp`) prints, and the
//! decisions around running it.

use vstd::prelude::*;
use vstd::utf8::encode_utf8;
use crate::json::{JsonView, get_array, get_member_array, get_member_str, get_str, json_parse, parse_json, Json};
use crate::text::{from_utf8_lossy, lossy_decode, push_str};
use crate::urls::{is_id_char, UrlError};

verus! {

/// Why a playlist could not be fetched.
#[derive(Debug)]
pub enum ExtractError {
    /// The extractor program is not installed.
    NotFound,
    /// The fetch was cancelled.
    Cancelled,
    /// The fetch took too long.
    Timeout,
    /// The address was refused.
    Invalid(UrlError),
    /// The fetch failed: exit status, network or content.
    Failed(&'static str),
}

/// The message shown for each error.
pub open spec fn extract_error_message(e: ExtractError) -> Seq<char> {
    match e {
        ExtractError::NotFound => "yt-dlp がありません。READMEの依存パッケージを導入してください"@,
        ExtractError::Cancelled => "取得を中止しました"@,
        ExtractError::Timeout => "取得がタイムアウトしました"@,
        ExtractError::Invalid(u) => u.0@,
        ExtractError::Failed(m) => m@,
    }
}

impl ExtractError {
    /// The message, as `Display` shows it.
    pub fn message(&self) -> (r: String)
        ensures
            r@ == extract_error_message(*self),
    {
        match self {
            ExtractError::NotFound => "yt-dlp がありません。READMEの依存パッケージを導入してください".to_owned(),
            ExtractError::Cancelled => "取得を中止しました".to_owned(),
            ExtractError::Timeout => "取得がタイムアウトしました".to_owned(),
            ExtractError::Invalid(e) => e.0.as_str().to_owned(),
            ExtractError::Failed(m) => (*m).to_owned(),
        }
    }
}

/// One playable entry of a playlist.
#[derive(Debug)]
pub struct Track {
    pub title: String,
    pub url: String,
}

impl Clone for Track {
    fn clone(&self) -> (r: Self)
        ensures
            r == *self,
    {
        Track { title: self.title.clone(), url: self.url.clone() }
    }
}

impl PartialEq for Track {
    fn eq(&self, other: &Self) -> (r: bool) {
        self.title == other.title && self.url == other.url
    }
}

impl vstd::std_specs::cmp::PartialEqSpecImpl for Track {
    open spec fn obeys_eq_spec() -> bool {
        true
    }

    open spec fn eq_spec(&self, other: &Self) -> bool {
        self.title@ == other.title@ && self.url@ == other.url@
    }
}

/// A track as values: its title and its address.
pub open spec fn track_view(t: Track) -> (Seq<char>, Seq<char>) {
    (t.title@, t.url@)
}

/// A byte allowed in a track id: an ASCII letter or digit, `_` or `-`.
pub open spec fn is_id_byte(b: u8) -> bool {
    ||| (97 <= b && b <= 122)
    ||| (65 <= b && b <= 90)
    ||| (48 <= b && b <= 57)
    ||| b == 95
    ||| b == 45
}

/// A track id, read byte by byte: exactly 11 bytes, each allowed by
/// `is_id_byte`.
pub open spec fn is_track_id_spec(bytes: Seq<u8>) -> bool {
    &&& bytes.len() == 11
    &&& forall|i: int| 0 <= i < bytes.len() ==> is_id_byte(#[trigger] bytes[i])
}

/// Whether `id` is a well-formed track id.
pub fn is_track_id(id: &str) -> (r: bool)
    ensures
        r == is_track_id_spec(encode_utf8(id@)),
{
    let bytes = id.as_bytes();
    if bytes.len() != 11 {
        return false;
    }
    let mut i: usize = 0;
    while i < 11
        invariant
            bytes@ == encode_utf8(id@),
            bytes@.len() == 11,
            i <= 11,
            forall|k: int| 0 <= k < i ==> is_id_byte(#[trigger] bytes@[k]),
        decreases 11 - i,
    {
        let b = bytes[i];
        if !((97 <= b && b <= 122) || (65 <= b && b <= 90) || (48 <= b && b <= 57) || b == 95 || b == 45) {
            return false;
        }
        i = i + 1;
    }
    true
}

/// The start of every track address.
pub open spec fn watch_prefix() -> Seq<char> {
    "https://www.youtube.com/watch?v="@
}

/// The title used where the listing has none.
pub open spec fn default_playlist_title() -> Seq<char> {
    "Playlist"@
}

/// Message for a listing that is not JSON.
pub open spec fn unreadable_listing_message() -> Seq<char> {
    "再生リストを取得できません。yt-dlpの更新を確認してください。"@
}

/// Message for a listing without one playable entry.
pub open spec fn no_tracks_message() -> Seq<char> {
    "再生可能な曲がありません。非公開リスト・ログイン必須の曲は未対応です。"@
}

/// The track an entry of the listing stands for: it needs a string `id`
/// that is a track id; its title is its non-empty string `title`, else the id.
pub open spec fn entry_track(entry: Seq<char>) -> Option<(Seq<char>, Seq<char>)> {
    match json_parse(entry) {
        Some(e) => match get_str(e, "id"@) {
            Some(id) => if is_track_id_spec(encode_utf8(id)) {
                let title = match get_str(e, "title"@) {
                    Some(t) => if t.len() > 0 { t } else { id },
                    None => id,
                };
                Some((title, watch_prefix() + id))
            } else {
                None
            },
            None => None,
        },
        None => None,
    }
}

/// The tracks of `entries`, in order, skipping entries that are not tracks.
pub open spec fn entries_tracks(entries: Seq<Seq<char>>) -> Seq<(Seq<char>, Seq<char>)>
    decreases entries.len(),
{
    if entries.len() == 0 {
        seq![]
    } else {
        let init = entries_tracks(entries.drop_last());
        match entry_track(entries.last()) {
            Some(t) => init.push(t),
            None => init,
        }
    }
}

/// The title of a listing: its non-empty string `title`, else `Playlist`.
pub open spec fn listing_title(top: JsonView) -> Seq<char> {
    match get_str(top, "title"@) {
        Some(t) => if t.len() > 0 { t } else { default_playlist_title() },
        None => default_playlist_title(),
    }
}

/// The entry texts of a listing: its `entries` array, else none.
pub open spec fn listing_entries(top: JsonView) -> Seq<Seq<char>> {
    match get_array(top, "entries"@) {
        Some(a) => a,
        None => seq![],
    }
}

/// What a listing holds: its title and its tracks, or the message of the
/// failure.
pub open spec fn parse_playlist_spec(text: Seq<char>) -> Result<(Seq<char>, Seq<(Seq<char>, Seq<char>)>), Seq<char>> {
    match json_parse(text) {
        None => Err(unreadable_listing_message()),
        Some(top) => {
            let tracks = entries_tracks(listing_entries(top));
            if tracks.len() == 0 {
                Err(no_tracks_message())
            } else {
                Ok((listing_title(top), tracks))
            }
        },
    }
}

/// The track that `entry` stands for.
fn entry_to_track(entry: &str) -> (r: Option<Track>)
    ensures
        match r {
            Some(t) => entry_track(entry@) == Some(track_view(t)),
            None => entry_track(entry@) is None,
        },
{
    let e = match parse_json(entry) {
        Some(e) => e,
        None => return None,
    };
    let id = match get_member_str(&e, "id") {
        Some(id) => id,
        None => return None,
    };
    if !is_track_id(id.as_str()) {
        return None;
    }
    let title = match get_member_str(&e, "title") {
        Some(t) => if t.as_str().is_empty() { id.clone() } else { t },
        None => id.clone(),
    };
    let mut url = "https://www.youtube.com/watch?v=".to_owned();
    push_str(&mut url, id.as_str());
    Some(Track { title, url })
}

/// Reads the extractor's `--dump-single-json` listing: the playlist's title
/// and every entry with a well-formed track id, in order and without limit.
pub fn parse_playlist(json: &str) -> (r: Result<(String, Vec<Track>), ExtractError>)
    ensures
        match parse_playlist_spec(json@) {
            Ok((title, tracks)) => r matches Ok((t, v)) && t@ == title && v@.map_values(|x: Track| track_view(x)) == tracks,
            Err(msg) => r matches Err(ExtractError::Failed(m)) && m@ == msg,
        },
        r matches Ok((_, v)) ==> json_parse(json@) matches Some(top)
            && v@.map_values(|x: Track| track_view(x)) == listing_entries(top).filter_map(|e: Seq<char>| entry_track(e)),
{
    let data = match parse_json(json) {
        Some(d) => d,
        None => return Err(ExtractError::Failed("再生リストを取得できません。yt-dlpの更新を確認してください。")),
    };
    let title = match get_member_str(&data, "title") {
        Some(t) => if t.as_str().is_empty() { "Playlist".to_owned() } else { t },
        None => "Playlist".to_owned(),
    };
    let entries = match get_member_array(&data, "entries") {
        Some(a) => a,
        None => Vec::new(),
    };
    let ghost es = entries@.map_values(|t: String| t@);
    assert(es == listing_entries(data@));
    let mut tracks: Vec<Track> = Vec::new();
    let mut i: usize = 0;
    while i < entries.len()
        invariant
            es == entries@.map_values(|t: String| t@),
            i <= entries.len(),
            tracks@.map_values(|x: Track| track_view(x)) == entries_tracks(es.take(i as int)),
        decreases entries.len() - i,
    {
        assert(es.take(i + 1).drop_last() =~= es.take(i as int));
        assert(es.take(i + 1).last() == entries@[i as int]@);
        let ghost before = tracks@.map_values(|x: Track| track_view(x));
        match entry_to_track(entries[i].as_str()) {
            Some(t) => {
                tracks.push(t);
                assert(tracks@.map_values(|x: Track| track_view(x)) =~= before.push(track_view(t)));
            },
            None => {},
        }
        i = i + 1;
    }
    assert(es.take(entries.len() as int) =~= es);
    proof {
        lemma_entries_tracks_filter_map(es);
    }
    if tracks.len() == 0 {
        return Err(ExtractError::Failed("再生可能な曲がありません。非公開リスト・ログイン必須の曲は未対応です。"));
    }
    Ok((title, tracks))
}

/// The extractor's arguments before the address: read the whole listing
/// flat, as one JSON document, without downloading.
pub open spec fn extractor_options() -> Seq<Seq<char>> {
    seq![
        "--ignore-config"@,
        "--flat-playlist"@,
        "--dump-single-json"@,
        "--skip-download"@,
        "--ignore-errors"@,
        "--socket-timeout"@,
        "15"@,
        "--retries"@,
        "2"@,
        "--"@,
    ]
}

/// The extractor's arguments for fetching the listing of `url`.
pub fn extractor_args(url: &str) -> (r: Vec<String>)
    ensures
        r@.map_values(|a: String| a@) == extractor_options().push(url@),
{
    let r = vec![
        "--ignore-config".to_owned(),
        "--flat-playlist".to_owned(),
        "--dump-single-json".to_owned(),
        "--skip-download".to_owned(),
        "--ignore-errors".to_owned(),
        "--socket-timeout".to_owned(),
        "15".to_owned(),
        "--retries".to_owned(),
        "2".to_owned(),
        "--".to_owned(),
        url.to_owned(),
    ];
    assert(r@.map_values(|a: String| a@) =~= extractor_options().push(url@));
    r
}

/// What the extractor process was found doing at one poll.
pub enum ChildState {
    /// Still running.
    Running,
    /// Exited, successfully or not.
    Exited(bool),
    /// Its state could not be read.
    WaitFailed,
}

/// What to do after one poll of the extractor process.
#[derive(Debug)]
pub enum ExtractorStep {
    /// Sleep and poll again.
    Wait,
    /// It exited: collect its output; the flag says whether it succeeded.
    Finish(bool),
    /// Stop its process group (at once, or politely first) and report `error`.
    Stop { immediate: bool, error: ExtractError },
}

/// Message for an extractor whose state could not be read.
pub open spec fn wait_failed_message() -> Seq<char> {
    "yt-dlp の実行に失敗しました"@
}

/// Decides one poll of the extractor: cancellation wins, then an exit, then
/// a failed wait, then the deadline.
pub fn extractor_step(cancelled: bool, child: ChildState, deadline_passed: bool) -> (r: ExtractorStep)
    ensures
        cancelled ==> r matches ExtractorStep::Stop { immediate: true, error: ExtractError::Cancelled },
        !cancelled ==> match child {
            ChildState::Exited(ok) => r == ExtractorStep::Finish(ok),
            ChildState::WaitFailed => (r matches ExtractorStep::Stop { immediate: true, error: ExtractError::Failed(m) }
                && m@ == wait_failed_message()),
            ChildState::Running => if deadline_passed {
                r matches ExtractorStep::Stop { immediate: false, error: ExtractError::Timeout }
            } else {
                r == ExtractorStep::Wait
            },
        },
{
    if cancelled {
        return ExtractorStep::Stop { immediate: true, error: ExtractError::Cancelled };
    }
    match child {
        ChildState::Exited(ok) => ExtractorStep::Finish(ok),
        ChildState::WaitFailed => ExtractorStep::Stop {
            immediate: true,
            error: ExtractError::Failed("yt-dlp の実行に失敗しました"),
        },
        ChildState::Running => if deadline_passed {
            ExtractorStep::Stop { immediate: false, error: ExtractError::Timeout }
        } else {
            ExtractorStep::Wait
        },
    }
}

/// Message for an extractor that exited with a failure.
pub open spec fn extractor_failed_message() -> Seq<char> {
    "再生リストを取得できません。公開設定・通信・yt-dlpの更新を確認してください。"@
}

/// The outcome of an extractor that exited: its output as text when it
/// succeeded.
pub fn extractor_output(success: bool, stdout: &[u8]) -> (r: Result<String, ExtractError>)
    ensures
        success ==> (r matches Ok(s) && s@ == lossy_decode(stdout@)),
        !success ==> (r matches Err(ExtractError::Failed(m)) && m@ == extractor_failed_message()),
{
    if success {
        Ok(from_utf8_lossy(stdout))
    } else {
        Err(ExtractError::Failed("再生リストを取得できません。公開設定・通信・yt-dlpの更新を確認してください。"))
    }
}

/// Message for an extractor that could not be started for another reason
/// than its absence.
pub open spec fn spawn_failed_message() -> Seq<char> {
    "yt-dlp を起動できません。インストールと実行権限を確認してください"@
}

/// The error for an extractor that could not be started.
pub fn spawn_error(not_found: bool) -> (r: ExtractError)
    ensures
        not_found ==> r matches ExtractError::NotFound,
        !not_found ==> (r matches ExtractError::Failed(m) && m@ == spawn_failed_message()),
{
    if not_found {
        ExtractError::NotFound
    } else {
        ExtractError::Failed("yt-dlp を起動できません。インストールと実行権限を確認してください")
    }
}

/// The address of a track: the watch address of a well-formed track id.
pub open spec fn is_track_address(url: Seq<char>) -> bool {
    exists|id: Seq<char>| url == watch_prefix() + id && is_track_id_spec(encode_utf8(id))
}

proof fn lemma_entries_tracks_well_formed(entries: Seq<Seq<char>>)
    ensures
        forall|i: int| 0 <= i < entries_tracks(entries).len() ==> {
            &&& (#[trigger] entries_tracks(entries)[i]).0.len() > 0
            &&& is_track_address(entries_tracks(entries)[i].1)
        },
    decreases entries.len(),
{
    if entries.len() > 0 {
        lemma_entries_tracks_well_formed(entries.drop_last());
        if let Some(t) = entry_track(entries.last()) {
            let e = json_parse(entries.last())->0;
            let id = get_str(e, "id"@)->0;
            assert(encode_utf8(id).len() == 11);
            assert(id.len() > 0) by {
                if id.len() == 0 {
                    assert(encode_utf8(id) =~= Seq::<u8>::empty());
                }
            }
            assert(t.1 == watch_prefix() + id);
            let init = entries_tracks(entries.drop_last());
            assert forall|i: int| 0 <= i < init.push(t).len() implies {
                &&& (#[trigger] init.push(t)[i]).0.len() > 0
                &&& is_track_address(init.push(t)[i].1)
            } by {
                if i < init.len() {
                    assert(init.push(t)[i] == init[i]);
                }
            }
        }
    }
}

/// Every listing that reads has a non-empty title and at least one track;
/// each track has a non-empty title and the watch address of a track id.
pub proof fn lemma_listing_well_formed(text: Seq<char>)
    ensures
        parse_playlist_spec(text) matches Ok((title, tracks)) ==> {
            &&& title.len() > 0
            &&& tracks.len() > 0
            &&& forall|i: int| 0 <= i < tracks.len() ==> (#[trigger] tracks[i]).0.len() > 0 && is_track_address(tracks[i].1)
        },
{
    reveal_strlit("Playlist");
    if let Some(top) = json_parse(text) {
        lemma_entries_tracks_well_formed(listing_entries(top));
    }
}

/// The tracks of a listing are its entries read one by one, each entry with
/// a track id giving its track and every other entry skipped: the standard
/// `filter_map` of the entries through `entry_track`. Nothing is merged, so
/// an entry that repeats gives its track again.
pub proof fn lemma_entries_tracks_filter_map(entries: Seq<Seq<char>>)
    ensures
        entries_tracks(entries) == entries.filter_map(|e: Seq<char>| entry_track(e)),
    decreases entries.len(),
{
    if entries.len() > 0 {
        lemma_entries_tracks_filter_map(entries.drop_last());
    }
}

/// The tracks of entries placed one after the other are the tracks of the
/// first entries followed by those of the rest.
pub proof fn lemma_entries_tracks_concat(a: Seq<Seq<char>>, b: Seq<Seq<char>>)
    ensures
        entries_tracks(a + b) == entries_tracks(a) + entries_tracks(b),
    decreases b.len(),
{
    if b.len() == 0 {
        assert(a + b =~= a);
        assert(entries_tracks(a) + entries_tracks(b) =~= entries_tracks(a));
    } else {
        assert((a + b).drop_last() =~= a + b.drop_last());
        assert((a + b).last() == b.last());
        lemma_entries_tracks_concat(a, b.drop_last());
        match entry_track(b.last()) {
            Some(t) => {
                assert((entries_tracks(a) + entries_tracks(b.drop_last())).push(t)
                    =~= entries_tracks(a) + entries_tracks(b.drop_last()).push(t));
            },
            None => {},
        }
    }
}

/// There are as many tracks as entries with a track id.
pub proof fn lemma_entries_tracks_count(entries: Seq<Seq<char>>)
    ensures
        entries_tracks(entries).len() == entries.filter(|e: Seq<char>| entry_track(e) is Some).len(),
    decreases entries.len(),
{
    reveal(Seq::filter);
    if entries.len() > 0 {
        lemma_entries_tracks_count(entries.drop_last());
    }
}

/// A listing that reads holds one track for each of its entries that has a
/// track id, in the entries' order, repeated entries included.
pub proof fn lemma_listing_keeps_every_entry(text: Seq<char>)
    ensures
        parse_playlist_spec(text) matches Ok((title, tracks)) ==> {
            let entries = listing_entries(json_parse(text)->0);
            &&& tracks == entries.filter_map(|e: Seq<char>| entry_track(e))
            &&& tracks.len() == entries.filter(|e: Seq<char>| entry_track(e) is Some).len()
        },
{
    if let Some(top) = json_parse(text) {
        lemma_entries_tracks_filter_map(listing_entries(top));
        lemma_entries_tracks_count(listing_entries(top));
    }
}

} // verus!
