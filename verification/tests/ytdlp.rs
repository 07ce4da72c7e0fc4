use karasad::spotify::SpotifyTrack;
use karasad::ytdlp::{
    candidate_url, download_args, download_progress_text, executable_name, fallback_outputs,
    output_stem, output_template, pick_youtube_result, score_result, search_args,
    search_query_for, search_term, ytdlp_release, Platform, YtResult,
};

fn parse_download_progress(line: &str) -> Option<f32> {
    download_progress_text(line).and_then(|t| t.parse::<f32>().ok())
}

#[test]
fn test_parse_progress() {
    assert_eq!(
        parse_download_progress("[download]  45.2% of 5.23MiB at 1.2MiB/s ETA 00:03"),
        Some(45.2)
    );
    assert_eq!(
        parse_download_progress("[download] 100% of 5.23MiB in 00:03"),
        Some(100.0)
    );
    assert_eq!(parse_download_progress("some other line"), None);
}

#[test]
fn progress_text_needs_marker_and_percent() {
    assert_eq!(download_progress_text("[download] Destination: x.webm"), None);
    assert_eq!(download_progress_text("45% done"), None);
    assert_eq!(download_progress_text("[download]   7.0% of 1MiB").as_deref(), Some("7.0"));
    assert_eq!(download_progress_text("x [download] 12.5% [download] 99%").as_deref(), Some("12.5"));
}

fn result(web: Option<&str>, url: Option<&str>, id: Option<&str>, title: &str, secs: u64) -> YtResult {
    YtResult {
        url: url.map(|s| s.to_string()),
        webpage_url: web.map(|s| s.to_string()),
        id: id.map(|s| s.to_string()),
        title: Some(title.to_string()),
        duration_ms: Some(secs * 1000),
        channel: None,
    }
}

#[test]
fn candidate_url_falls_back_to_watch_url() {
    let r = result(None, None, Some("abc123"), "t", 10);
    assert_eq!(candidate_url(&r), "https://www.youtube.com/watch?v=abc123");
    let r = result(Some("https://w/1"), Some("https://u/1"), Some("x"), "t", 10);
    assert_eq!(candidate_url(&r), "https://w/1");
    let r = result(None, Some("https://u/1"), Some("x"), "t", 10);
    assert_eq!(candidate_url(&r), "https://u/1");
    let r = result(None, None, None, "t", 10);
    assert_eq!(candidate_url(&r), "");
}

#[test]
fn score_prefers_official_audio_and_rejects_versions() {
    let official = result(Some("a"), None, None, "Song (Official Audio)", 200);
    assert_eq!(score_result(&official, "artist - song audio", 200_000), Some(-20000));
    let live = result(Some("b"), None, None, "Song LIVE", 205);
    assert_eq!(score_result(&live, "artist - song audio", 200_000), None);
    let remix = result(Some("b"), None, None, "Song (Remix)", 200);
    assert_eq!(score_result(&remix, "artist - song audio", 200_000), None);
    let cover = result(Some("b"), None, None, "Song cover", 200);
    assert_eq!(score_result(&cover, "artist - song cover audio", 200_000), Some(0));
    let live_asked = result(Some("b"), None, None, "Song LIVE", 205);
    assert_eq!(score_result(&live_asked, "song live", 200_000), Some(5000));
    let far = result(Some("c"), None, None, "Song", 216);
    assert_eq!(score_result(&far, "q", 200_000), None);
    let edge = result(Some("c"), None, None, "Song", 215);
    assert_eq!(score_result(&edge, "q", 200_000), Some(15000));
    let early = result(Some("c"), None, None, "Song", 184);
    assert_eq!(score_result(&early, "q", 200_000), None);
    let mut by_artist = result(Some("e"), None, None, "Song", 202);
    by_artist.channel = Some("The Artist VEVO".to_string());
    assert_eq!(score_result(&by_artist, "the artist - song audio", 200_000), Some(2000 - 5000));
    assert_eq!(score_result(&by_artist, "nobody - song audio", 200_000), Some(2000));
    assert_eq!(score_result(&by_artist, "song", 200_000), Some(2000));
    let lyric = result(Some("d"), None, None, "Song lyric video", 200);
    assert_eq!(score_result(&lyric, "q", 200_000), Some(-5000));
}

#[test]
fn pick_best_result_and_first_among_ties() {
    let rs = vec![
        result(Some("u1"), None, None, "Song cover", 200),
        result(Some("u2"), None, None, "Song audio", 201),
        result(Some("u3"), None, None, "Song audio", 201),
    ];
    assert_eq!(pick_youtube_result(&rs, "artist - song", 200_000), Ok("u2".to_string()));
}

#[test]
fn pick_reports_no_results() {
    let rs = vec![result(Some("u1"), None, None, "Song", 500)];
    assert_eq!(
        pick_youtube_result(&rs, "abc", 200_000),
        Err("No YouTube results found for: abc".to_string())
    );
    assert_eq!(
        pick_youtube_result(&Vec::new(), "q", 1),
        Err("No YouTube results found for: q".to_string())
    );
}

#[test]
fn search_query_and_term() {
    let t = SpotifyTrack {
        id: "id".into(),
        name: "Song".into(),
        artists: vec!["A".into(), "B".into()],
        album_name: "Al".into(),
        album_id: "al".into(),
        album_art_url: None,
        duration_ms: 1,
        track_number: 1,
        release_date: String::new(),
    };
    assert_eq!(search_query_for(&t), "A - Song audio");
    let mut u = t.clone();
    u.artists.clear();
    assert_eq!(search_query_for(&u), "Unknown - Song audio");
    assert_eq!(search_term("x y"), "ytsearch5:x y");
    assert_eq!(
        search_args("q"),
        vec!["--dump-json", "--no-download", "--no-warnings", "--flat-playlist", "ytsearch5:q"]
    );
}

#[test]
fn output_names() {
    assert_eq!(output_stem("/d/abc.opus"), "/d/abc");
    assert_eq!(output_stem("/d/abc.opus.opus"), "/d/abc");
    assert_eq!(output_stem("/d/abc.ogg"), "/d/abc.ogg");
    assert_eq!(output_template("/d/abc"), "/d/abc.%(ext)s");
    assert_eq!(fallback_outputs("s"), vec!["s.webm".to_string(), "s.m4a".to_string()]);
    let a = download_args("/ff", "/d/x", "http://y");
    assert_eq!(a[10], "/ff");
    assert_eq!(a[12], "/d/x.%(ext)s");
    assert_eq!(a[13], "http://y");
    assert_eq!(a.len(), 14);
}

#[test]
fn release_assets() {
    assert_eq!(
        ytdlp_release(Platform::Windows),
        ("https://github.com/yt-dlp/yt-dlp/releases/latest/download/yt-dlp.exe", "yt-dlp.exe")
    );
    assert_eq!(
        ytdlp_release(Platform::MacOs),
        ("https://github.com/yt-dlp/yt-dlp/releases/latest/download/yt-dlp_macos", "yt-dlp")
    );
    assert_eq!(
        ytdlp_release(Platform::Other),
        ("https://github.com/yt-dlp/yt-dlp/releases/latest/download/yt-dlp", "yt-dlp")
    );
    assert_eq!(executable_name(true), "yt-dlp.exe");
    assert_eq!(executable_name(false), "yt-dlp");
}

#[test]
fn ytdlp_path_ends_with_executable() {
    if let Some(p) = karasad::ytdlp::ytdlp_path() {
        assert!(p.ends_with(".nightingale/vendor/yt-dlp") || p.ends_with(".nightingale\\vendor\\yt-dlp.exe"));
    }
    let _ = karasad::ytdlp::is_available();
}
