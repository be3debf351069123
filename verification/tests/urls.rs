use eco_music::urls::{
    canonical_playlist_url, is_playlist_id, list_values, percent_decode, playlist_url, UrlError,
    UrlParts,
};

#[test]
fn canonical_url() {
    assert_eq!(
        playlist_url("https://music.youtube.com/watch?v=123&list=PLabc-12_3").unwrap(),
        "https://www.youtube.com/playlist?list=PLabc-12_3"
    );
    assert_eq!(
        playlist_url("  https://m.youtube.com/playlist?list=PLx  ").unwrap(),
        "https://www.youtube.com/playlist?list=PLx"
    );
    assert_eq!(
        playlist_url("https://www.youtube.com:443/playlist?list=PLa%2Db").unwrap(),
        "https://www.youtube.com/playlist?list=PLa-b"
    );
}

#[test]
fn reject_untrusted_inputs() {
    for url in [
        "http://youtube.com/playlist?list=PL12",
        "https://youtube.com.evil.test/?list=PL12",
        "https://evil@youtube.com/?list=PL12",
        "https://youtube.com:8443/?list=PL12",
        "file:///tmp/foo",
        "--exec=oops",
        "https://youtube.com/?list=PL1&list=PL2",
        "https://youtube.com/?list=RD123",
        "https://youtube.com/?list=ULxyz",
        "https://youtube.com/?list=A",
        "https://youtube.com/?list=",
        "https://youtube.com/",
        "",
    ] {
        assert!(playlist_url(url).is_err(), "should reject: {url}");
    }
}

#[test]
fn refusals_carry_their_message() {
    let untrusted = "https://music.youtube.com/playlist?list=… を入力してください";
    let no_id = "再生リストID（list=…）がありません";
    let radio = "自動生成ラジオではなく、固定の再生リストを指定してください";
    assert_eq!(playlist_url("http://youtube.com/playlist?list=PL12").unwrap_err().0, untrusted);
    assert_eq!(playlist_url("https://evil@youtube.com/?list=PL12").unwrap_err().0, untrusted);
    assert_eq!(playlist_url("https://youtube.com:8443/?list=PL12").unwrap_err().0, untrusted);
    assert_eq!(playlist_url("--exec=oops").unwrap_err().0, untrusted);
    assert_eq!(playlist_url("https://youtube.com/?list=PL1&list=PL2").unwrap_err().0, no_id);
    assert_eq!(playlist_url("https://youtube.com/?list=A").unwrap_err().0, no_id);
    assert_eq!(playlist_url("https://youtube.com/").unwrap_err().0, no_id);
    assert_eq!(playlist_url("https://youtube.com/?list=RD123").unwrap_err().0, radio);
    assert_eq!(playlist_url("https://youtube.com/?list=ULxyz").unwrap_err().0, radio);
    assert_eq!(playlist_url("https://youtube.com/?list=RD123").unwrap_err().message(), radio);
}

#[test]
fn canonical_address_is_accepted_unchanged() {
    for input in [
        "https://music.youtube.com/watch?v=123&list=PLabc-12_3",
        "https://www.youtube.com:443/playlist?list=PLa%2Db",
        "https://youtube.com/playlist?list=OLAK5uy_abc&si=xyz",
    ] {
        let once = playlist_url(input).unwrap();
        assert_eq!(playlist_url(&once).unwrap(), once);
    }
}

#[test]
fn parts_validation_accepts_canonical_parts() {
    let parts = UrlParts {
        scheme: "https".to_string(),
        host: Some("www.youtube.com".to_string()),
        username: String::new(),
        password: None,
        port: None,
        query: Some("list=PLabc".to_string()),
    };
    assert_eq!(
        canonical_playlist_url(&parts).unwrap(),
        "https://www.youtube.com/playlist?list=PLabc"
    );
    let with_password = UrlParts { password: Some("x".to_string()), ..parts };
    assert!(canonical_playlist_url(&with_password).is_err());
}

#[test]
fn percent_decoding() {
    assert_eq!(percent_decode("PLa%2Db"), "PLa-b");
    assert_eq!(percent_decode("%6cist"), "list");
    assert_eq!(percent_decode("100%"), "100%");
    assert_eq!(percent_decode("%4"), "%4");
    assert_eq!(percent_decode("%zz1"), "%zz1");
    assert_eq!(percent_decode("%E3%81%82"), "あ");
    assert_eq!(percent_decode("%FF"), "\u{FFFD}");
}

#[test]
fn list_values_in_order() {
    assert_eq!(list_values("v=1&list=A&x&list=%42"), vec!["A".to_string(), "B".to_string()]);
    assert_eq!(list_values("list"), vec!["".to_string()]);
    assert!(list_values("").is_empty());
    assert_eq!(list_values("%6Cist=q=r"), vec!["q=r".to_string()]);
}

#[test]
fn playlist_id_rules() {
    assert!(is_playlist_id("PL"));
    assert!(is_playlist_id("a-_Z9"));
    assert!(!is_playlist_id("A"));
    assert!(!is_playlist_id("PL x"));
    assert!(!is_playlist_id("PLあ"));
    assert!(is_playlist_id(&"a".repeat(200)));
    assert!(!is_playlist_id(&"a".repeat(201)));
}

#[test]
fn percent_decode_inverts_full_encoding() {
    let text = "PLa-b あ%";
    let upper: String = text.bytes().map(|b| format!("%{:02X}", b)).collect();
    let lower: String = text.bytes().map(|b| format!("%{:02x}", b)).collect();
    assert_eq!(percent_decode(&upper), text);
    assert_eq!(percent_decode(&lower), text);
}

#[test]
fn surrounding_whitespace_is_ignored() {
    let u = playlist_url("https://music.youtube.com/playlist?list=PLq_1").unwrap();
    assert_eq!(u, "https://www.youtube.com/playlist?list=PLq_1");
    assert_eq!(playlist_url(&format!("  {u}\n")), Ok(u.clone()));
    assert_eq!(playlist_url(&format!("\t{u}\u{3000}")), Ok(u.clone()));
    assert_eq!(
        playlist_url(" http://youtube.com/playlist?list=PL12 "),
        playlist_url("http://youtube.com/playlist?list=PL12")
    );
}

#[test]
fn canonical_address_is_fixed_point() {
    for input in [
        "https://music.youtube.com/watch?v=123&list=PLabc-12_3",
        "https://www.youtube.com:443/playlist?list=PLa%2Db",
        "  https://m.youtube.com/playlist?list=PLx  ",
    ] {
        let u = playlist_url(input).unwrap();
        assert_eq!(playlist_url(&u), Ok(u.clone()));
    }
}

#[test]
fn refusals_compare_by_message() {
    let a = playlist_url("http://youtube.com/playlist?list=PL12").unwrap_err();
    let b = playlist_url("file:///tmp/foo").unwrap_err();
    assert_eq!(a, b);
    let c = playlist_url("https://youtube.com/?list=PL1&list=PL2").unwrap_err();
    assert_ne!(a, c);
    assert_eq!(c, UrlError(c.message()));
}
