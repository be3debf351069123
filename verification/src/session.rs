//! The state of the player window that the rules act on: which list is
//! loading, which one is loaded, what the status line says.

use vstd::prelude::*;
use crate::extract::{track_view, Track};
use crate::text::push_str;
use crate::urls::{playlist_url, playlist_url_spec};

verus! {

/// The decimal digits.
pub open spec fn digit_chars() -> Seq<char> {
    seq!['0', '1', '2', '3', '4', '5', '6', '7', '8', '9']
}

/// `n` written in decimal, without leading zeros.
pub open spec fn decimal_spec(n: nat) -> Seq<char>
    decreases n,
{
    if n < 10 {
        seq![digit_chars()[n as int]]
    } else {
        decimal_spec(n / 10).push(digit_chars()[(n % 10) as int])
    }
}

/// `usize::to_string`: `n` in decimal.
#[verifier::external_body]
fn decimal(n: usize) -> (r: String)
    ensures
        r@ == decimal_spec(n as nat),
{
    n.to_string()
}

/// The window's state, as the rules see it.
pub struct Session {
    /// A list is being fetched.
    pub busy: bool,
    /// The player is up.
    pub ready: bool,
    /// The number of the latest fetch.
    pub generation: u64,
    /// The canonical address of the list on show.
    pub loaded_url: String,
    /// The title of the list on show.
    pub loaded_title: String,
    /// The tracks of the list on show.
    pub tracks: Vec<Track>,
    /// The track picked in the list, if any.
    pub selected: Option<usize>,
    /// The status line.
    pub status: String,
}

/// `Session` as values.
pub struct SessionView {
    pub busy: bool,
    pub ready: bool,
    pub generation: u64,
    pub loaded_url: Seq<char>,
    pub loaded_title: Seq<char>,
    pub tracks: Seq<(Seq<char>, Seq<char>)>,
    pub selected: Option<usize>,
    pub status: Seq<char>,
}

impl View for Session {
    type V = SessionView;

    open spec fn view(&self) -> SessionView {
        SessionView {
            busy: self.busy,
            ready: self.ready,
            generation: self.generation,
            loaded_url: self.loaded_url@,
            loaded_title: self.loaded_title@,
            tracks: self.tracks@.map_values(|t: Track| track_view(t)),
            selected: self.selected,
            status: self.status@,
        }
    }
}

/// How a request to fetch a list went.
#[derive(Debug)]
pub enum LoadStart {
    /// Another fetch is under way; nothing changes.
    Busy,
    /// The address was refused, with the message to show; nothing changes.
    Refused(String),
    /// Fetch the list at the canonical address `url`; its result carries `token`.
    Started { token: u64, url: String },
}

/// `LoadStart` as values.
pub enum LoadStartView {
    Busy,
    Refused(Seq<char>),
    Started(u64, Seq<char>),
}

pub open spec fn load_start_view(r: LoadStart) -> LoadStartView {
    match r {
        LoadStart::Busy => LoadStartView::Busy,
        LoadStart::Refused(m) => LoadStartView::Refused(m@),
        LoadStart::Started { token, url } => LoadStartView::Started(token, url@),
    }
}

/// The status while the player starts.
pub open spec fn starting_status() -> Seq<char> {
    "起動中…"@
}

/// The status while a list is fetched.
pub open spec fn loading_status() -> Seq<char> {
    "再生リストを取得中…（全件取得）"@
}

/// The status once the player is up.
pub open spec fn ready_status() -> Seq<char> {
    "準備完了"@
}

/// The status for a list on show: its title and its number of tracks.
pub open spec fn loaded_status(title: Seq<char>, count: nat) -> Seq<char> {
    title + " · "@ + decimal_spec(count) + "曲"@
}

/// A request to fetch the list `input` names: refused while another fetch
/// runs or where the address is refused; else the fetch gets the next number.
pub open spec fn start_load_spec(s: SessionView, input: Seq<char>) -> (SessionView, LoadStartView) {
    if s.busy {
        (s, LoadStartView::Busy)
    } else {
        match playlist_url_spec(input) {
            Err(m) => (s, LoadStartView::Refused(m)),
            Ok(url) => (
                SessionView { busy: true, generation: (s.generation + 1) as u64, status: loading_status(), ..s },
                LoadStartView::Started((s.generation + 1) as u64, url),
            ),
        }
    }
}

/// A fetched list arrives: the fetch is over; the list is shown only when it
/// answers the latest fetch.
pub open spec fn finish_load_spec(
    s: SessionView,
    token: u64,
    url: Seq<char>,
    title: Seq<char>,
    tracks: Seq<(Seq<char>, Seq<char>)>,
) -> SessionView {
    if token != s.generation {
        SessionView { busy: false, ..s }
    } else {
        SessionView {
            busy: false,
            loaded_url: url,
            loaded_title: title,
            tracks: tracks,
            selected: None,
            status: loaded_status(title, tracks.len()),
            ..s
        }
    }
}

impl Session {
    /// The state at start: nothing loaded, the player not yet up.
    pub fn new() -> (r: Session)
        ensures
            r@ == (SessionView {
                busy: false,
                ready: false,
                generation: 0,
                loaded_url: seq![],
                loaded_title: seq![],
                tracks: seq![],
                selected: None,
                status: starting_status(),
            }),
    {
        let r = Session {
            busy: false,
            ready: false,
            generation: 0,
            loaded_url: String::new(),
            loaded_title: String::new(),
            tracks: Vec::new(),
            selected: None,
            status: "起動中…".to_owned(),
        };
        assert(r@.tracks =~= Seq::<(Seq<char>, Seq<char>)>::empty());
        r
    }

    /// Asks to fetch the list that `input` names.
    pub fn start_load(&mut self, input: &str) -> (r: LoadStart)
        requires
            !old(self).busy && playlist_url_spec(input@) is Ok ==> old(self).generation < u64::MAX,
        ensures
            final(self)@ == start_load_spec(old(self)@, input@).0,
            load_start_view(r) == start_load_spec(old(self)@, input@).1,
    {
        if self.busy {
            return LoadStart::Busy;
        }
        let url = match playlist_url(input) {
            Ok(u) => u,
            Err(e) => return LoadStart::Refused(e.0),
        };
        self.busy = true;
        self.generation = self.generation + 1;
        self.status = "再生リストを取得中…（全件取得）".to_owned();
        LoadStart::Started { token: self.generation, url }
    }

    /// A fetched list arrives, for the fetch numbered `token`.
    pub fn finish_load(&mut self, token: u64, url: String, title: String, tracks: Vec<Track>)
        ensures
            final(self)@ == finish_load_spec(
                old(self)@,
                token,
                url@,
                title@,
                tracks@.map_values(|t: Track| track_view(t)),
            ),
    {
        self.busy = false;
        if token != self.generation {
            return;
        }
        let mut status = title.as_str().to_owned();
        push_str(&mut status, " · ");
        let count = decimal(tracks.len());
        push_str(&mut status, count.as_str());
        push_str(&mut status, "曲");
        self.loaded_url = url;
        self.loaded_title = title;
        self.tracks = tracks;
        self.selected = None;
        self.status = status;
    }

    /// A fetch failed with `message`.
    pub fn load_failed(&mut self, message: String)
        ensures
            final(self)@ == (SessionView { busy: false, status: message@, ..old(self)@ }),
    {
        self.busy = false;
        self.status = message;
    }

    /// The player is up.
    pub fn player_ready(&mut self)
        ensures
            final(self)@ == (SessionView { ready: true, status: ready_status(), ..old(self)@ }),
    {
        self.ready = true;
        self.status = "準備完了".to_owned();
    }

    /// The status line becomes `message`.
    pub fn set_status(&mut self, message: String)
        ensures
            final(self)@ == (SessionView { status: message@, ..old(self)@ }),
    {
        self.status = message;
    }

    /// Whether the list on show can be played: the player is up and the list
    /// has tracks.
    pub fn can_play(&self) -> (r: bool)
        ensures
            r == (self.ready && self.tracks@.len() > 0),
    {
        self.ready && self.tracks.len() > 0
    }

    /// The track to play first: the one picked, when a play of the picked
    /// track is asked for and it is in the list.
    pub fn first_track(&self, play_picked: bool) -> (r: Option<usize>)
        ensures
            r == (if play_picked && (self.selected matches Some(i) && i < self.tracks@.len()) {
                self.selected
            } else {
                None
            }),
    {
        match (play_picked, self.selected) {
            (true, Some(i)) => if i < self.tracks.len() { Some(i) } else { None },
            _ => None,
        }
    }
}

/// The list that answers the latest fetch is shown.
pub proof fn lemma_latest_listing_shown(
    s: SessionView,
    input: Seq<char>,
    url: Seq<char>,
    title: Seq<char>,
    tracks: Seq<(Seq<char>, Seq<char>)>,
)
    requires
        s.generation < u64::MAX,
        start_load_spec(s, input).1 is Started,
    ensures
        ({
            let (started, outcome) = start_load_spec(s, input);
            let token = outcome->Started_0;
            let done = finish_load_spec(started, token, url, title, tracks);
            &&& !done.busy
            &&& done.loaded_url == url
            &&& done.loaded_title == title
            &&& done.tracks == tracks
            &&& done.selected is None
        }),
{
}

/// Once another fetch has started, the list of an earlier fetch is dropped:
/// only the fetch is marked over.
pub proof fn lemma_earlier_listing_dropped(
    s: SessionView,
    input: Seq<char>,
    url: Seq<char>,
    title: Seq<char>,
    tracks: Seq<(Seq<char>, Seq<char>)>,
)
    requires
        s.generation < u64::MAX,
        start_load_spec(s, input).1 is Started,
    ensures
        ({
            let started = start_load_spec(s, input).0;
            finish_load_spec(started, s.generation, url, title, tracks) == SessionView { busy: false, ..started }
        }),
{
}

} // verus!
