use eco_music::extract::{
    extractor_args, extractor_output, extractor_step, is_track_id, parse_playlist, spawn_error,
    ChildState, ExtractError, ExtractorStep,
};

#[test]
fn parse_filters_invalid_entries() {
    let json = r#"{"title": "Test", "entries": [
            null,
            {"id": "abcdefghijk", "title": "Song"},
            {"id": "file:///etc/passwd"},
            {"id": 123},
            {"title": "no id"}
        ]}"#;
    let (title, tracks) = parse_playlist(json).unwrap();
    assert_eq!(title, "Test");
    assert_eq!(tracks.len(), 1);
    assert_eq!(tracks[0].url, "https://www.youtube.com/watch?v=abcdefghijk");
    assert_eq!(tracks[0].title, "Song");
}

#[test]
fn parse_falls_back_to_id_for_missing_title() {
    let json = r#"{"entries": [{"id": "abcdefghijk", "title": ""}, {"id": "12345678901"}]}"#;
    let (title, tracks) = parse_playlist(json).unwrap();
    assert_eq!(title, "Playlist");
    assert_eq!(tracks[0].title, "abcdefghijk");
    assert_eq!(tracks[1].title, "12345678901");
}

#[test]
fn empty_list_reports_failure() {
    assert!(parse_playlist(r#"{"entries": []}"#).is_err());
    assert!(parse_playlist("{}").is_err());
}

#[test]
fn unlimited_playlist_keeps_every_entry() {
    let entries: Vec<String> = (0..5000)
        .map(|i| format!(r#"{{"id": "{:011}", "title": "Song {}"}}"#, i, i))
        .collect();
    let json = format!(r#"{{"title": "Big", "entries": [{}]}}"#, entries.join(","));
    let (title, tracks) = parse_playlist(&json).unwrap();
    assert_eq!(title, "Big");
    assert_eq!(tracks.len(), 5000);
    assert_eq!(tracks[4999].url, "https://www.youtube.com/watch?v=00000004999");
}

#[test]
fn parse_failures_carry_their_message() {
    match parse_playlist("not json") {
        Err(ExtractError::Failed(m)) => {
            assert_eq!(m, "再生リストを取得できません。yt-dlpの更新を確認してください。")
        }
        other => panic!("unexpected {other:?}"),
    }
    match parse_playlist(r#"[{"id": "abcdefghijk"}]"#) {
        Err(ExtractError::Failed(m)) => {
            assert_eq!(m, "再生可能な曲がありません。非公開リスト・ログイン必須の曲は未対応です。")
        }
        other => panic!("unexpected {other:?}"),
    }
    let (title, tracks) =
        parse_playlist(r#"{"title": 5, "entries": [{"id": "abc_def-123", "title": 7}]}"#).unwrap();
    assert_eq!(title, "Playlist");
    assert_eq!(tracks[0].title, "abc_def-123");
}

#[test]
fn track_id_rules() {
    assert!(is_track_id("abcdefghijk"));
    assert!(is_track_id("A_-09zzzzzz"));
    assert!(!is_track_id("abcdefghij"));
    assert!(!is_track_id("abcdefghijkl"));
    assert!(!is_track_id("abcdefghij!"));
    assert!(!is_track_id("abcdefghiあ"));
}

#[test]
fn extractor_arguments() {
    let args = extractor_args("https://www.youtube.com/playlist?list=PLx");
    assert_eq!(
        args,
        vec![
            "--ignore-config",
            "--flat-playlist",
            "--dump-single-json",
            "--skip-download",
            "--ignore-errors",
            "--socket-timeout",
            "15",
            "--retries",
            "2",
            "--",
            "https://www.youtube.com/playlist?list=PLx",
        ]
    );
}

#[test]
fn extractor_decisions() {
    assert!(matches!(
        extractor_step(true, ChildState::Exited(true), true),
        ExtractorStep::Stop { immediate: true, error: ExtractError::Cancelled }
    ));
    assert!(matches!(extractor_step(false, ChildState::Exited(false), true), ExtractorStep::Finish(false)));
    assert!(matches!(extractor_step(false, ChildState::Exited(true), false), ExtractorStep::Finish(true)));
    assert!(matches!(
        extractor_step(false, ChildState::WaitFailed, false),
        ExtractorStep::Stop { immediate: true, error: ExtractError::Failed("yt-dlp の実行に失敗しました") }
    ));
    assert!(matches!(
        extractor_step(false, ChildState::Running, true),
        ExtractorStep::Stop { immediate: false, error: ExtractError::Timeout }
    ));
    assert!(matches!(extractor_step(false, ChildState::Running, false), ExtractorStep::Wait));
}

#[test]
fn extractor_outcomes() {
    assert_eq!(extractor_output(true, "{}".as_bytes()).unwrap(), "{}");
    assert_eq!(extractor_output(true, &[0x61, 0xff]).unwrap(), "a\u{FFFD}");
    assert!(matches!(extractor_output(false, b"{}"), Err(ExtractError::Failed(_))));
    assert!(matches!(spawn_error(true), ExtractError::NotFound));
    assert_eq!(
        spawn_error(false).message(),
        "yt-dlp を起動できません。インストールと実行権限を確認してください"
    );
    assert_eq!(ExtractError::Timeout.message(), "取得がタイムアウトしました");
    assert_eq!(ExtractError::Cancelled.message(), "取得を中止しました");
    assert_eq!(
        ExtractError::NotFound.message(),
        "yt-dlp がありません。READMEの依存パッケージを導入してください"
    );
    let refused = eco_music::urls::playlist_url("http://x").unwrap_err();
    assert_eq!(ExtractError::Invalid(refused.clone()).message(), refused.0);
}
