use eco_music::extract::Track;
use eco_music::session::{LoadStart, Session};

fn tracks(n: u32) -> Vec<Track> {
    (0..n)
        .map(|i| Track { title: format!("t{i}"), url: format!("https://www.youtube.com/watch?v={i:011}") })
        .collect()
}

#[test]
fn new_session_waits_for_player() {
    let s = Session::new();
    assert!(!s.busy && !s.ready && s.generation == 0);
    assert_eq!(s.status, "起動中…");
    assert!(!s.can_play());
}

#[test]
fn start_load_numbers_fetches() {
    let mut s = Session::new();
    match s.start_load("  https://m.youtube.com/playlist?list=PLx  ") {
        LoadStart::Started { token, url } => {
            assert_eq!(token, 1);
            assert_eq!(url, "https://www.youtube.com/playlist?list=PLx");
        }
        other => panic!("unexpected {other:?}"),
    }
    assert!(s.busy);
    assert_eq!(s.status, "再生リストを取得中…（全件取得）");
    assert!(matches!(s.start_load("https://youtube.com/?list=PLy"), LoadStart::Busy));
    assert_eq!(s.generation, 1);
}

#[test]
fn refused_address_changes_nothing() {
    let mut s = Session::new();
    match s.start_load("http://youtube.com/playlist?list=PL12") {
        LoadStart::Refused(m) => assert_eq!(m, "https://music.youtube.com/playlist?list=… を入力してください"),
        other => panic!("unexpected {other:?}"),
    }
    assert!(!s.busy);
    assert_eq!(s.generation, 0);
    assert_eq!(s.status, "起動中…");
}

#[test]
fn latest_listing_is_shown_and_earlier_dropped() {
    let mut s = Session::new();
    s.player_ready();
    assert_eq!(s.status, "準備完了");
    let first = match s.start_load("https://youtube.com/?list=PLa") {
        LoadStart::Started { token, .. } => token,
        other => panic!("unexpected {other:?}"),
    };
    s.finish_load(first, "https://www.youtube.com/playlist?list=PLa".into(), "A".into(), tracks(2));
    assert_eq!(s.status, "A · 2曲");
    assert!(s.can_play());
    s.selected = Some(1);
    assert_eq!(s.first_track(true), Some(1));
    assert_eq!(s.first_track(false), None);
    let _second = s.start_load("https://youtube.com/?list=PLb");
    s.finish_load(first, "https://www.youtube.com/playlist?list=PLa".into(), "old".into(), tracks(5));
    assert!(!s.busy);
    assert_eq!(s.loaded_title, "A");
    assert_eq!(s.tracks.len(), 2);
    assert_eq!(s.selected, Some(1));
}

#[test]
fn failed_load_shows_message() {
    let mut s = Session::new();
    let _ = s.start_load("https://youtube.com/?list=PLa");
    s.load_failed("取得を中止しました".into());
    assert!(!s.busy);
    assert_eq!(s.status, "取得を中止しました");
    s.finish_load(1, "u".into(), "T".into(), tracks(12));
    assert_eq!(s.status, "T · 12曲");
    s.selected = Some(12);
    assert_eq!(s.first_track(true), None);
}
