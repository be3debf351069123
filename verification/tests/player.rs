use eco_music::fonts::is_cjk_font_file;
use eco_music::extract::Track;
use eco_music::player::{
    connect_step, control_command, load_queue_command, mpv_args, mpv_args_for, observe_commands,
    playback_order, player_status, queue_text, repeat_command, unpause_command, CommandArg,
    ConnectStep, Control,
};
use rand::rngs::StdRng;
use rand::SeedableRng;
use std::path::PathBuf;

fn track(i: u32) -> Track {
    Track { title: format!("t{i}"), url: format!("https://www.youtube.com/watch?v={i:011}") }
}

#[test]
fn mpv_arguments() {
    let args = mpv_args(&PathBuf::from("/tmp/eco/mpv.sock"));
    assert_eq!(args.len(), 18);
    assert_eq!(args[0], "--no-config");
    assert_eq!(args[4], "--input-ipc-server=/tmp/eco/mpv.sock");
    assert_eq!(args[8], "--cache-secs=90");
    assert_eq!(args[17], "--volume=70");
    assert_eq!(mpv_args_for("/s"), {
        let mut v = args.clone();
        v[4] = "--input-ipc-server=/s".to_string();
        v
    });
}

#[test]
fn chosen_track_plays_first() {
    let tracks: Vec<Track> = (0..20).map(track).collect();
    let order = playback_order(&tracks, true, Some(7), &mut StdRng::seed_from_u64(3));
    assert_eq!(order[0], tracks[7]);
    assert_eq!(order.len(), 20);
    for t in &tracks {
        assert_eq!(order.iter().filter(|o| *o == t).count(), 1);
    }
    let plain = playback_order(&tracks, false, Some(99), &mut StdRng::seed_from_u64(3));
    assert_eq!(plain, tracks);
    let moved = playback_order(&tracks, false, Some(2), &mut StdRng::seed_from_u64(3));
    assert_eq!(moved[0], tracks[2]);
    assert_eq!(moved[1], tracks[0]);
    assert_eq!(moved[3], tracks[3]);
}

#[test]
fn queue_file_text() {
    let tracks: Vec<Track> = (0..2).map(track).collect();
    assert_eq!(
        queue_text(&tracks),
        "https://www.youtube.com/watch?v=00000000000\nhttps://www.youtube.com/watch?v=00000000001\n"
    );
    assert_eq!(queue_text(&[]), "\n");
}

#[test]
fn status_follows_player_events() {
    let playing = "再生中 · 先読み最大90秒 / 圧縮データ8MiB";
    assert_eq!(
        player_status(Some("property-change"), Some("paused-for-cache"), Some(true), None).as_deref(),
        Some("バッファ補充中…")
    );
    assert_eq!(
        player_status(Some("property-change"), Some("paused-for-cache"), Some(false), None).as_deref(),
        Some(playing)
    );
    assert_eq!(player_status(Some("property-change"), Some("pause"), Some(true), None).as_deref(), Some("一時停止"));
    assert_eq!(player_status(Some("property-change"), Some("pause"), None, None).as_deref(), Some(playing));
    assert_eq!(player_status(Some("property-change"), Some("time-pos"), None, None), None);
    assert_eq!(player_status(Some("file-loaded"), None, None, None).as_deref(), Some(playing));
    assert_eq!(player_status(Some("end-file"), None, None, Some("eof")), None);
    assert!(player_status(Some("end-file"), None, None, Some("error")).is_some());
    assert_eq!(player_status(Some("idle"), None, None, None).as_deref(), Some("停止中"));
    assert_eq!(player_status(None, None, None, None), None);
}

#[test]
fn cjk_font_files() {
    assert!(is_cjk_font_file(Some("ttc"), "/usr/share/fonts/noto-cjk/NotoSansCJK-Regular.ttc"));
    assert!(is_cjk_font_file(Some("otf"), "CJK"));
    assert!(!is_cjk_font_file(Some("pcf"), "/usr/share/fonts/NotoSansCJK.pcf"));
    assert!(!is_cjk_font_file(None, "/usr/share/fonts/NotoSansCJK"));
    assert!(!is_cjk_font_file(Some("ttf"), "/usr/share/fonts/DejaVuSans.ttf"));
    assert!(!is_cjk_font_file(Some("ttf"), "CJ"));
}

#[test]
fn connect_decisions() {
    assert!(matches!(connect_step(true, true, true, true), ConnectStep::GiveUp));
    match connect_step(false, true, true, false) {
        ConnectStep::Fail(m) => assert_eq!(m, "mpv が起動できません。mpvを更新してください。"),
        other => panic!("unexpected {other:?}"),
    }
    assert!(matches!(connect_step(false, false, true, true), ConnectStep::Connected));
    match connect_step(false, false, false, true) {
        ConnectStep::Fail(m) => assert_eq!(m, "mpv の起動がタイムアウトしました"),
        other => panic!("unexpected {other:?}"),
    }
    assert!(matches!(connect_step(false, false, false, false), ConnectStep::Retry));
}

fn text(s: &str) -> CommandArg {
    CommandArg::Text(s.to_string())
}

fn same(a: &[CommandArg], b: &[CommandArg]) -> bool {
    format!("{a:?}") == format!("{b:?}")
}

#[test]
fn observe_commands_register_each_property() {
    let cmds = observe_commands();
    let names = ["media-title", "pause", "time-pos", "duration", "paused-for-cache"];
    assert_eq!(cmds.len(), names.len());
    for (i, name) in names.iter().enumerate() {
        assert!(same(
            &cmds[i],
            &[text("observe_property"), CommandArg::Number(i as u64), text(name)]
        ));
    }
}

#[test]
fn playback_commands() {
    assert!(same(
        &load_queue_command("/tmp/eco/queue.m3u"),
        &[text("loadlist"), text("/tmp/eco/queue.m3u"), text("replace")]
    ));
    assert!(same(&unpause_command(), &[text("set_property"), text("pause"), CommandArg::Flag(false)]));
    assert!(same(&repeat_command(true), &[text("set_property"), text("loop-playlist"), text("inf")]));
    assert!(same(&repeat_command(false), &[text("set_property"), text("loop-playlist"), text("no")]));
    assert!(same(&control_command(Control::Previous), &[text("playlist-prev"), text("weak")]));
    assert!(same(&control_command(Control::TogglePause), &[text("cycle"), text("pause")]));
    assert!(same(&control_command(Control::Next), &[text("playlist-next"), text("weak")]));
    assert!(same(&control_command(Control::Stop), &[text("stop")]));
}
