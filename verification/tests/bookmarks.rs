use serde_json::Value;
use eco_music::bookmarks::{
    bookmarks_from_json, register_bookmark, remove_bookmark, Bookmark, MAX_BOOKMARKS,
};

fn row(title: &str, url: &str) -> Bookmark {
    Bookmark { title: title.to_string(), url: url.to_string() }
}

#[test]
fn corrupt_file_returns_empty() {
    assert!(bookmarks_from_json("{").is_empty());
    assert!(bookmarks_from_json("").is_empty());
    assert!(bookmarks_from_json(r#"{"title": "x"}"#).is_empty());
}

#[test]
fn invalid_rows_are_skipped_but_valid_kept() {
    let json = format!(
        r#"[{{"title": "ok", "url": "https://www.youtube.com/playlist?list=PLok"}},
                {{"title": "no url"}},
                {{"title": "bad scheme", "url": "http://youtube.com/playlist?list=PLx"}},
                {{"title": "{}", "url": "https://www.youtube.com/playlist?list=PLlong"}},
                {{"title": "not object"}}]"#,
        "あ".repeat(300)
    );
    let rows = bookmarks_from_json(&json);
    assert_eq!(rows.len(), 2);
    assert_eq!(rows[0].title, "ok");
    assert_eq!(rows[1].title.chars().count(), 200);
}

#[test]
fn stored_rows_are_canonicalised_and_limited() {
    let one = r#"{"title": "t", "url": " https://music.youtube.com/watch?v=1&list=PLa "}"#;
    let json = format!("[{}]", vec![one; 250].join(","));
    let rows = bookmarks_from_json(&json);
    assert_eq!(rows.len(), MAX_BOOKMARKS);
    assert!(rows.iter().all(|b| b.url == "https://www.youtube.com/playlist?list=PLa"));
}

#[test]
fn save_rejects_unloaded_url_without_changing_bookmarks() {
    let title = "A very long playlist and track title ".repeat(100);
    let mut rows = vec![row(&title, "https://www.youtube.com/playlist?list=PLfixture")];
    let input = rows[0].url.clone();
    let result = register_bookmark(&mut rows, &input, "", &title);
    assert_eq!(result, Err("先にこのリストを取得してください".to_string()));
    assert_eq!(rows.len(), 1);
}

#[test]
fn register_replaces_and_appends() {
    let a = "https://www.youtube.com/playlist?list=PLa";
    let b = "https://www.youtube.com/playlist?list=PLb";
    let mut rows = vec![row("A", a), row("B", b)];
    let sel = register_bookmark(&mut rows, "https://m.youtube.com/playlist?list=PLa", a, "A2");
    assert_eq!(sel, Ok(1));
    assert_eq!(rows, vec![row("B", b), row("A2", a)]);
    assert!(register_bookmark(&mut rows, "http://x", a, "A3").is_err());
    assert_eq!(rows.len(), 2);
}

#[test]
fn register_keeps_at_most_the_newest() {
    let mut rows: Vec<Bookmark> = (0..MAX_BOOKMARKS)
        .map(|i| row(&format!("t{i}"), &format!("https://www.youtube.com/playlist?list=PL{i}")))
        .collect();
    let url = "https://www.youtube.com/playlist?list=PLnew";
    let sel = register_bookmark(&mut rows, url, url, "new").unwrap();
    assert_eq!(rows.len(), MAX_BOOKMARKS);
    assert_eq!(sel, MAX_BOOKMARKS - 1);
    assert_eq!(rows[0].title, "t1");
    assert_eq!(rows[MAX_BOOKMARKS - 1], row("new", url));
}

#[test]
fn remove_only_existing() {
    let mut rows = vec![row("A", "a"), row("B", "b")];
    assert!(!remove_bookmark(&mut rows, usize::MAX));
    assert_eq!(rows.len(), 2);
    assert!(remove_bookmark(&mut rows, 0));
    assert_eq!(rows, vec![row("B", "b")]);
}

#[test]
fn bookmarks_written_as_json_read_back() {
    let rows = vec![
        row("日本語タイトル", "https://www.youtube.com/playlist?list=PL123"),
        row("quote \" and \\ slash", "https://www.youtube.com/playlist?list=PLx-y_z"),
    ];
    let stored: Vec<Value> = rows
        .iter()
        .map(|b| {
            let mut m = serde_json::Map::new();
            m.insert("title".to_string(), Value::String(b.title.clone()));
            m.insert("url".to_string(), Value::String(b.url.clone()));
            Value::Object(m)
        })
        .collect();
    let text = serde_json::to_string_pretty(&Value::Array(stored)).unwrap();
    assert_eq!(bookmarks_from_json(&text), rows);
}
