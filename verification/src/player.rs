//! What the player is started with and what it is given to play.

use vstd::prelude::*;
use crate::text::{push_char, push_str};
use crate::extract::{track_view, Track};
use crate::shuffle::{ordered, promote_to_front, promoted};

verus! {

#[verifier::external_type_specification]
#[verifier::external_body]
pub struct ExPathBuf(std::path::PathBuf);

/// What `Path::to_string_lossy` writes for the path `p`: its text, with
/// U+FFFD where the path is not valid UTF-8.
pub uninterp spec fn path_lossy(p: std::path::PathBuf) -> Seq<char>;

/// `Path::to_string_lossy`, made an owned `String`. The text is named, not
/// stated.
#[verifier::external_body]
fn path_text(p: &std::path::PathBuf) -> (r: String)
    ensures
        r@ == path_lossy(*p),
{
    p.to_string_lossy().into_owned()
}

/// The options that `mpv` is started with, around the IPC socket option:
/// audio only, no configuration or terminal, `yt-dlp` for the address,
/// up to 90 s and 8 MiB read ahead, 1 MiB kept behind, the next entry
/// prefetched, gapless, reconnecting streams, volume 70.
pub open spec fn mpv_options_before_socket() -> Seq<Seq<char>> {
    seq!["--no-config"@, "--idle=yes"@, "--no-video"@, "--no-terminal"@]
}

pub open spec fn mpv_options_after_socket() -> Seq<Seq<char>> {
    seq![
        "--ytdl=yes"@,
        "--ytdl-format=bestaudio[abr<=128]/bestaudio"@,
        "--cache=yes"@,
        "--cache-secs=90"@,
        "--demuxer-max-bytes=8MiB"@,
        "--demuxer-max-back-bytes=1MiB"@,
        "--cache-pause=yes"@,
        "--cache-pause-wait=3"@,
        "--prefetch-playlist=yes"@,
        "--audio-display=no"@,
        "--gapless-audio=yes"@,
        "--stream-lavf-o=reconnect=1,reconnect_streamed=1,reconnect_delay_max=5"@,
        "--volume=70"@,
    ]
}

/// The option that names the IPC socket.
pub open spec fn ipc_option_prefix() -> Seq<char> {
    "--input-ipc-server="@
}

/// The arguments `mpv` is started with when its IPC socket is at `socket`.
pub open spec fn mpv_args_spec(socket: Seq<char>) -> Seq<Seq<char>> {
    mpv_options_before_socket() + seq![ipc_option_prefix() + socket] + mpv_options_after_socket()
}

/// The arguments `mpv` is started with when its IPC socket is at the path
/// written `socket`.
pub fn mpv_args_for(socket: &str) -> (r: Vec<String>)
    ensures
        r@.map_values(|a: String| a@) == mpv_args_spec(socket@),
        r@.map_values(|a: String| a@).contains("--no-video"@),
        forall|i: int| 0 <= i < r@.len() ==> !enables_video(#[trigger] r@[i]@),
{
    proof {
        lemma_player_audio_only(socket@);
    }
    let mut ipc = "--input-ipc-server=".to_owned();
    push_str(&mut ipc, socket);
    let r = vec![
        "--no-config".to_owned(),
        "--idle=yes".to_owned(),
        "--no-video".to_owned(),
        "--no-terminal".to_owned(),
        ipc,
        "--ytdl=yes".to_owned(),
        "--ytdl-format=bestaudio[abr<=128]/bestaudio".to_owned(),
        "--cache=yes".to_owned(),
        "--cache-secs=90".to_owned(),
        "--demuxer-max-bytes=8MiB".to_owned(),
        "--demuxer-max-back-bytes=1MiB".to_owned(),
        "--cache-pause=yes".to_owned(),
        "--cache-pause-wait=3".to_owned(),
        "--prefetch-playlist=yes".to_owned(),
        "--audio-display=no".to_owned(),
        "--gapless-audio=yes".to_owned(),
        "--stream-lavf-o=reconnect=1,reconnect_streamed=1,reconnect_delay_max=5".to_owned(),
        "--volume=70".to_owned(),
    ];
    assert(r@.map_values(|a: String| a@) =~= mpv_args_spec(socket@));
    assert forall|i: int| 0 <= i < r@.len() implies !enables_video(#[trigger] r@[i]@) by {
        assert(r@.map_values(|a: String| a@)[i] == r@[i]@);
    }
    r
}

/// The arguments `mpv` is started with, its IPC socket at `socket`: the
/// fixed options, with the socket's path, as `to_string_lossy` writes it,
/// after `--input-ipc-server=`.
pub fn mpv_args(socket: &std::path::PathBuf) -> (r: Vec<String>)
    ensures
        r@.map_values(|a: String| a@) == mpv_args_spec(path_lossy(*socket)),
{
    let text = path_text(socket);
    mpv_args_for(text.as_str())
}

/// An argument that starts with `p`.
pub open spec fn starts_with(a: Seq<char>, p: Seq<char>) -> bool {
    p.len() <= a.len() && a.subrange(0, p.len() as int) == p
}

/// An option that would give `mpv` a video output or a window: `--vid…`,
/// `--video…`, `--vo=…` or `--force-window…`.
pub open spec fn enables_video(a: Seq<char>) -> bool {
    starts_with(a, "--vid"@) || starts_with(a, "--vo="@) || starts_with(a, "--force-window"@)
}

proof fn lemma_not_video(a: Seq<char>)
    requires
        a.len() >= 5,
        a[0] == '-' && a[1] == '-',
        a[2] != 'f',
        a[2] == 'v' ==> a[3] != 'i' && a[4] != '=',
    ensures
        !enables_video(a),
{
    reveal_strlit("--vid");
    reveal_strlit("--vo=");
    reveal_strlit("--force-window");
    let vid = "--vid"@;
    let vo = "--vo="@;
    let fw = "--force-window"@;
    if starts_with(a, vid) {
        assert(a.subrange(0, 5)[2] == a[2] && a.subrange(0, 5)[3] == a[3]);
        assert(vid[2] == 'v' && vid[3] == 'i');
    }
    if starts_with(a, vo) {
        assert(a.subrange(0, 5)[2] == a[2] && a.subrange(0, 5)[4] == a[4]);
        assert(vo[2] == 'v' && vo[4] == '=');
    }
    if starts_with(a, fw) {
        assert(fw.len() == 14);
        assert(a.subrange(0, 14)[2] == a[2]);
        assert(fw[2] == 'f');
    }
}

/// The player is started for sound alone, whatever the socket's path:
/// `--no-video` is among its arguments and none of them asks for a video
/// output or a window.
pub proof fn lemma_player_audio_only(socket: Seq<char>)
    ensures
        mpv_args_spec(socket).contains("--no-video"@),
        forall|i: int| 0 <= i < mpv_args_spec(socket).len() ==> !enables_video(#[trigger] mpv_args_spec(socket)[i]),
{
    let args = mpv_args_spec(socket);
    reveal_strlit("--no-config");
    reveal_strlit("--idle=yes");
    reveal_strlit("--no-video");
    reveal_strlit("--no-terminal");
    reveal_strlit("--input-ipc-server=");
    reveal_strlit("--ytdl=yes");
    reveal_strlit("--ytdl-format=bestaudio[abr<=128]/bestaudio");
    reveal_strlit("--cache=yes");
    reveal_strlit("--cache-secs=90");
    reveal_strlit("--demuxer-max-bytes=8MiB");
    reveal_strlit("--demuxer-max-back-bytes=1MiB");
    reveal_strlit("--cache-pause=yes");
    reveal_strlit("--cache-pause-wait=3");
    reveal_strlit("--prefetch-playlist=yes");
    reveal_strlit("--audio-display=no");
    reveal_strlit("--gapless-audio=yes");
    reveal_strlit("--stream-lavf-o=reconnect=1,reconnect_streamed=1,reconnect_delay_max=5");
    reveal_strlit("--volume=70");
    assert(args[2] == "--no-video"@);
    assert forall|i: int| 0 <= i < args.len() implies !enables_video(#[trigger] args[i]) by {
        let a = args[i];
        if i == 4 {
            let ipc = ipc_option_prefix() + socket;
            assert(a == ipc);
            assert(ipc_option_prefix().len() == 19);
            assert(ipc[0] == ipc_option_prefix()[0] && ipc[1] == ipc_option_prefix()[1]);
            assert(ipc[2] == ipc_option_prefix()[2] && ipc[3] == ipc_option_prefix()[3]);
            assert(ipc[4] == ipc_option_prefix()[4]);
        }
        lemma_not_video(a);
    }
}

/// The order to play `tracks` in: shuffled when `shuffle` is set, and the
/// track at `selected`, when it is one, first.
pub fn playback_order(tracks: &[Track], shuffle: bool, selected: Option<usize>, rng: &mut rand::rngs::StdRng) -> (r: Vec<Track>)
    ensures
        r@.to_multiset() == tracks@.to_multiset(),
        selected matches Some(i) ==> (i < tracks@.len() ==> track_view(r@[0]) == track_view(tracks@[i as int])),
        (!shuffle || tracks@.len() < 2) ==> r@ == match selected {
            Some(i) => if i < tracks@.len() { promoted(tracks@, tracks@[i as int]) } else { tracks@ },
            None => tracks@,
        },
        (!shuffle || tracks@.len() < 2) ==> *final(rng) == *old(rng),
        shuffle && tracks@.len() >= 2 ==> *final(rng) != *old(rng),
{
    let mut order = ordered(tracks, shuffle, rng);
    proof {
        let c = choose|c: Seq<Track>| {
            &&& crate::shuffle::is_clone_of(tracks@, c)
            &&& shuffle ==> order@.to_multiset() == c.to_multiset()
            &&& (!shuffle || tracks@.len() < 2) ==> order@ == c
        };
        assert forall|k: int| 0 <= k < tracks@.len() implies c[k] == tracks@[k] by {
            assert(cloned::<Track>(tracks@[k], c[k]));
        }
        assert(c =~= tracks@);
    }
    match selected {
        Some(i) => {
            if i < tracks.len() {
                let chosen = tracks[i].clone();
                proof {
                    broadcast use vstd::seq_lib::group_to_multiset_ensures;
                    assert(tracks@.contains(chosen));
                    assert(order@.to_multiset().count(chosen) > 0);
                    assert(order@.contains(chosen));
                    let k = choose|k: int| 0 <= k < order@.len() && order@[k] == chosen;
                    crate::shuffle::lemma_first_equal_found(order@, chosen, k);
                }
                promote_to_front(&mut order, &chosen);
            }
        },
        None => {},
    }
    order
}

/// The play queue for `order`: each address on a line of its own.
pub open spec fn queue_lines(urls: Seq<Seq<char>>) -> Seq<char>
    decreases urls.len(),
{
    if urls.len() == 0 {
        seq![]
    } else {
        queue_lines(urls.drop_last()) + urls.last().push('\n')
    }
}

/// The text of the play list file that `mpv` loads for `order`: the
/// addresses joined by newlines, with a final newline.
pub open spec fn queue_text_spec(order: Seq<Track>) -> Seq<char> {
    if order.len() == 0 {
        seq!['\n']
    } else {
        queue_lines(order.map_values(|t: Track| t.url@))
    }
}

/// The text of the play list file for `order`.
pub fn queue_text(order: &[Track]) -> (r: String)
    ensures
        r@ == queue_text_spec(order@),
{
    let ghost urls = order@.map_values(|t: Track| t.url@);
    let mut out = String::new();
    let mut i: usize = 0;
    while i < order.len()
        invariant
            urls == order@.map_values(|t: Track| t.url@),
            i <= order@.len(),
            out@ == queue_lines(urls.take(i as int)),
        decreases order@.len() - i,
    {
        assert(urls.take(i + 1).drop_last() =~= urls.take(i as int));
        push_str(&mut out, order[i].url.as_str());
        push_char(&mut out, '\n');
        i = i + 1;
    }
    assert(urls.take(order@.len() as int) =~= urls);
    if order.len() == 0 {
        push_char(&mut out, '\n');
        assert(out@ =~= seq!['\n']);
    }
    out
}

/// The status shown while playing.
pub open spec fn playing_status() -> Seq<char> {
    "再生中 · 先読み最大90秒 / 圧縮データ8MiB"@
}

/// The status shown while the read-ahead is refilled.
pub open spec fn buffering_status() -> Seq<char> {
    "バッファ補充中…"@
}

/// The status shown while paused.
pub open spec fn paused_status() -> Seq<char> {
    "一時停止"@
}

/// The status shown when an entry cannot be played.
pub open spec fn unplayable_status() -> Seq<char> {
    "この曲を再生できません。次の曲へ進みます。yt-dlpの更新も確認してください。"@
}

/// The status shown when nothing plays.
pub open spec fn stopped_status() -> Seq<char> {
    "停止中"@
}

/// The status after a player event, where it changes: `event` is the event's
/// kind, `name` the property that changed, `flag` its value where it is a
/// boolean, `reason` why an entry ended.
pub open spec fn player_status_spec(event: Option<Seq<char>>, name: Option<Seq<char>>, flag: Option<bool>, reason: Option<Seq<char>>) -> Option<Seq<char>> {
    match event {
        Some(e) => if e == "property-change"@ {
            match name {
                Some(n) => if n == "paused-for-cache"@ {
                    Some(if flag == Some(true) { buffering_status() } else { playing_status() })
                } else if n == "pause"@ {
                    Some(if flag == Some(true) { paused_status() } else { playing_status() })
                } else {
                    None
                },
                None => None,
            }
        } else if e == "file-loaded"@ {
            Some(playing_status())
        } else if e == "end-file"@ && reason == Some("error"@) {
            Some(unplayable_status())
        } else if e == "idle"@ {
            Some(stopped_status())
        } else {
            None
        },
        None => None,
    }
}

/// A change of `pause` shows the paused status exactly when the player
/// reports `true`, and the playing status when it reports `false` or no
/// value; a change of `paused-for-cache` shows the buffering status exactly
/// when it reports `true`, and the playing status otherwise.
pub proof fn lemma_pause_status_follows_flag(flag: Option<bool>, reason: Option<Seq<char>>)
    ensures
        player_status_spec(Some("property-change"@), Some("pause"@), flag, reason) == Some(paused_status())
            <==> flag == Some(true),
        flag != Some(true) ==> player_status_spec(Some("property-change"@), Some("pause"@), flag, reason)
            == Some(playing_status()),
        player_status_spec(Some("property-change"@), Some("paused-for-cache"@), flag, reason) == Some(buffering_status())
            <==> flag == Some(true),
        flag != Some(true) ==> player_status_spec(Some("property-change"@), Some("paused-for-cache"@), flag, reason)
            == Some(playing_status()),
{
    reveal_strlit("pause");
    reveal_strlit("paused-for-cache");
    reveal_strlit("一時停止");
    reveal_strlit("バッファ補充中…");
    reveal_strlit("再生中 · 先読み最大90秒 / 圧縮データ8MiB");
    assert("pause"@.len() != "paused-for-cache"@.len());
    assert(paused_status().len() != playing_status().len());
    assert(buffering_status().len() != playing_status().len());
}

pub open spec fn opt_str_view(o: Option<&str>) -> Option<Seq<char>> {
    match o {
        Some(s) => Some(s@),
        None => None,
    }
}

fn is_text(o: Option<&str>, s: &str) -> (r: bool)
    ensures
        r == (opt_str_view(o) == Some(s@)),
{
    match o {
        Some(t) => crate::text::str_eq(t, s),
        None => false,
    }
}

/// The status after a player event, where it changes.
pub fn player_status(event: Option<&str>, name: Option<&str>, flag: Option<bool>, reason: Option<&str>) -> (r: Option<String>)
    ensures
        match r {
            Some(s) => player_status_spec(opt_str_view(event), opt_str_view(name), flag, opt_str_view(reason)) == Some(s@),
            None => player_status_spec(opt_str_view(event), opt_str_view(name), flag, opt_str_view(reason)) is None,
        },
        opt_str_view(event) == Some("property-change"@) && opt_str_view(name) == Some("pause"@) ==> (r matches Some(s)
            && s@ == if flag == Some(true) { "一時停止"@ } else { "再生中 · 先読み最大90秒 / 圧縮データ8MiB"@ }),
        opt_str_view(event) == Some("property-change"@) && opt_str_view(name) == Some("paused-for-cache"@) ==> (r matches Some(s)
            && s@ == if flag == Some(true) { "バッファ補充中…"@ } else { "再生中 · 先読み最大90秒 / 圧縮データ8MiB"@ }),
{
    proof {
        reveal_strlit("pause");
        reveal_strlit("paused-for-cache");
        assert("pause"@.len() != "paused-for-cache"@.len());
    }
    let playing = "再生中 · 先読み最大90秒 / 圧縮データ8MiB";
    let set = flag == Some(true);
    if is_text(event, "property-change") {
        if is_text(name, "paused-for-cache") {
            Some(if set { "バッファ補充中…".to_owned() } else { playing.to_owned() })
        } else if is_text(name, "pause") {
            Some(if set { "一時停止".to_owned() } else { playing.to_owned() })
        } else {
            None
        }
    } else if is_text(event, "file-loaded") {
        Some(playing.to_owned())
    } else if is_text(event, "end-file") && is_text(reason, "error") {
        Some("この曲を再生できません。次の曲へ進みます。yt-dlpの更新も確認してください。".to_owned())
    } else if is_text(event, "idle") {
        Some("停止中".to_owned())
    } else {
        None
    }
}

/// One argument of a command sent to the player over its IPC socket.
#[derive(Debug, Clone)]
pub enum CommandArg {
    Text(String),
    Flag(bool),
    Number(u64),
}

/// What a command argument stands for.
pub enum ArgModel {
    Text(Seq<char>),
    Flag(bool),
    Number(nat),
}

impl View for CommandArg {
    type V = ArgModel;

    open spec fn view(&self) -> ArgModel {
        match self {
            CommandArg::Text(s) => ArgModel::Text(s@),
            CommandArg::Flag(b) => ArgModel::Flag(*b),
            CommandArg::Number(n) => ArgModel::Number(*n as nat),
        }
    }
}

/// A command as the values of its arguments.
pub open spec fn command_view(c: Seq<CommandArg>) -> Seq<ArgModel> {
    c.map_values(|a: CommandArg| a@)
}

/// The properties whose changes the player is asked to report, in the
/// order of their observer ids.
pub open spec fn observed_properties() -> Seq<Seq<char>> {
    seq!["media-title"@, "pause"@, "time-pos"@, "duration"@, "paused-for-cache"@]
}

/// The command that asks the player to report changes of the property
/// with observer id `id`.
pub open spec fn observe_command_spec(id: int) -> Seq<ArgModel> {
    seq![ArgModel::Text("observe_property"@), ArgModel::Number(id as nat), ArgModel::Text(observed_properties()[id])]
}

/// The commands sent once the player is reached: one `observe_property` for
/// each observed property, its index as the observer id.
pub fn observe_commands() -> (r: Vec<Vec<CommandArg>>)
    ensures
        r@.len() == observed_properties().len(),
        forall|i: int| 0 <= i < r@.len() ==> command_view(#[trigger] r@[i]@) == observe_command_spec(i),
{
    let names = ["media-title", "pause", "time-pos", "duration", "paused-for-cache"];
    let mut r: Vec<Vec<CommandArg>> = Vec::new();
    let mut i: usize = 0;
    while i < 5
        invariant
            i <= 5,
            names@.len() == 5,
            forall|k: int| 0 <= k < 5 ==> (#[trigger] names@[k])@ == observed_properties()[k],
            r@.len() == i,
            forall|k: int| 0 <= k < r@.len() ==> command_view(#[trigger] r@[k]@) == observe_command_spec(k),
        decreases 5 - i,
    {
        let c = vec![
            CommandArg::Text("observe_property".to_owned()),
            CommandArg::Number(i as u64),
            CommandArg::Text(names[i].to_owned()),
        ];
        assert(command_view(c@) =~= observe_command_spec(i as int));
        r.push(c);
        i = i + 1;
    }
    r
}

/// The command that replaces the play list with the file at `path`.
pub fn load_queue_command(path: &str) -> (r: Vec<CommandArg>)
    ensures
        command_view(r@) == seq![ArgModel::Text("loadlist"@), ArgModel::Text(path@), ArgModel::Text("replace"@)],
{
    let r = vec![
        CommandArg::Text("loadlist".to_owned()),
        CommandArg::Text(path.to_owned()),
        CommandArg::Text("replace".to_owned()),
    ];
    assert(command_view(r@) =~= seq![ArgModel::Text("loadlist"@), ArgModel::Text(path@), ArgModel::Text("replace"@)]);
    r
}

/// The command that takes the player out of pause.
pub fn unpause_command() -> (r: Vec<CommandArg>)
    ensures
        command_view(r@) == seq![ArgModel::Text("set_property"@), ArgModel::Text("pause"@), ArgModel::Flag(false)],
{
    let r = vec![
        CommandArg::Text("set_property".to_owned()),
        CommandArg::Text("pause".to_owned()),
        CommandArg::Flag(false),
    ];
    assert(command_view(r@) =~= seq![ArgModel::Text("set_property"@), ArgModel::Text("pause"@), ArgModel::Flag(false)]);
    r
}

/// The value of `loop-playlist` for the repeat setting.
pub open spec fn loop_value(repeat: bool) -> Seq<char> {
    if repeat { "inf"@ } else { "no"@ }
}

/// The command that makes the play list repeat, or stop at its end.
pub fn repeat_command(repeat: bool) -> (r: Vec<CommandArg>)
    ensures
        command_view(r@) == seq![ArgModel::Text("set_property"@), ArgModel::Text("loop-playlist"@), ArgModel::Text(loop_value(repeat))],
{
    let value = if repeat { "inf" } else { "no" };
    let r = vec![
        CommandArg::Text("set_property".to_owned()),
        CommandArg::Text("loop-playlist".to_owned()),
        CommandArg::Text(value.to_owned()),
    ];
    assert(command_view(r@) =~= seq![ArgModel::Text("set_property"@), ArgModel::Text("loop-playlist"@), ArgModel::Text(loop_value(repeat))]);
    r
}

/// The playback buttons.
#[derive(Debug, Clone, Copy, PartialEq, Eq, Structural)]
pub enum Control {
    Previous,
    TogglePause,
    Next,
    Stop,
}

/// The command a playback button sends.
pub open spec fn control_command_spec(c: Control) -> Seq<ArgModel> {
    match c {
        Control::Previous => seq![ArgModel::Text("playlist-prev"@), ArgModel::Text("weak"@)],
        Control::TogglePause => seq![ArgModel::Text("cycle"@), ArgModel::Text("pause"@)],
        Control::Next => seq![ArgModel::Text("playlist-next"@), ArgModel::Text("weak"@)],
        Control::Stop => seq![ArgModel::Text("stop"@)],
    }
}

/// The command a playback button sends.
pub fn control_command(c: Control) -> (r: Vec<CommandArg>)
    ensures
        command_view(r@) == control_command_spec(c),
{
    let r = match c {
        Control::Previous => vec![CommandArg::Text("playlist-prev".to_owned()), CommandArg::Text("weak".to_owned())],
        Control::TogglePause => vec![CommandArg::Text("cycle".to_owned()), CommandArg::Text("pause".to_owned())],
        Control::Next => vec![CommandArg::Text("playlist-next".to_owned()), CommandArg::Text("weak".to_owned())],
        Control::Stop => vec![CommandArg::Text("stop".to_owned())],
    };
    assert(command_view(r@) =~= control_command_spec(c));
    r
}

/// What to do at one attempt to reach the player's IPC socket.
#[derive(Debug)]
pub enum ConnectStep {
    /// The window is closing: give up quietly.
    GiveUp,
    /// Use the connection that was made.
    Connected,
    /// Report `message` as a player error.
    Fail(String),
    /// Sleep and try again.
    Retry,
}

/// Message for a player that exited before its socket opened.
pub open spec fn player_exited_message() -> Seq<char> {
    "mpv が起動できません。mpvを更新してください。"@
}

/// Message for a player whose socket did not open in time.
pub open spec fn connect_timeout_message() -> Seq<char> {
    "mpv の起動がタイムアウトしました"@
}

/// Decides one attempt to reach the player: closing wins, then an exited
/// player, then a made connection, then the deadline.
pub fn connect_step(closed: bool, exited: bool, connected: bool, deadline_passed: bool) -> (r: ConnectStep)
    ensures
        closed ==> r is GiveUp,
        !closed && exited ==> (r matches ConnectStep::Fail(m) && m@ == player_exited_message()),
        !closed && !exited && connected ==> r is Connected,
        !closed && !exited && !connected && deadline_passed ==> (r matches ConnectStep::Fail(m)
            && m@ == connect_timeout_message()),
        !closed && !exited && !connected && !deadline_passed ==> r is Retry,
{
    if closed {
        ConnectStep::GiveUp
    } else if exited {
        ConnectStep::Fail("mpv が起動できません。mpvを更新してください。".to_owned())
    } else if connected {
        ConnectStep::Connected
    } else if deadline_passed {
        ConnectStep::Fail("mpv の起動がタイムアウトしました".to_owned())
    } else {
        ConnectStep::Retry
    }
}

} // verus!
