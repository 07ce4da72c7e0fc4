use karasad::cache::{cache_dir_path, file_name, CacheDir, CacheFile};
use karasad::ytdlp::{ytdlp_setup, Platform, YtdlpSetup};

#[test]
fn cached_file_names() {
    assert_eq!(file_name("ab12", CacheFile::Transcript), "ab12_transcript.json");
    assert_eq!(file_name("ab12", CacheFile::Instrumental), "ab12_instrumental.ogg");
    assert_eq!(file_name("ab12", CacheFile::Vocals), "ab12_vocals.ogg");
    assert_eq!(file_name("ab12", CacheFile::Lyrics), "ab12_lyrics.json");
}

#[test]
fn cached_file_paths_join_the_directory() {
    let c = CacheDir { path: "/tmp/cachedir".to_owned() };
    assert_eq!(c.transcript_path("ab12"), "/tmp/cachedir/ab12_transcript.json");
    assert_eq!(c.instrumental_path("ab12"), "/tmp/cachedir/ab12_instrumental.ogg");
    assert_eq!(c.vocals_path("ab12"), "/tmp/cachedir/ab12_vocals.ogg");
    assert_eq!(c.lyrics_path("ab12"), "/tmp/cachedir/ab12_lyrics.json");
    let d = CacheDir { path: "/tmp/cachedir/".to_owned() };
    assert_eq!(d.file_path("ff", CacheFile::Vocals), "/tmp/cachedir/ff_vocals.ogg");
}

#[test]
fn missing_cache_files_are_not_reported_cached() {
    let c = CacheDir { path: "/nonexistent/karasad/cache".to_owned() };
    assert!(!c.transcript_exists("ab12"));
}

#[test]
fn cache_directory_is_under_nightingale() {
    if let Some(p) = cache_dir_path() {
        assert!(p.ends_with(".karasad/cache"));
    }
    if let Some(p) = karasad::downloader::downloads_dir() {
        assert!(p.ends_with(".nightingale/downloads"));
    }
    if let Some(p) = karasad::ytdlp::ytdlp_dir() {
        assert!(p.ends_with(".nightingale/vendor"));
    }
}

#[test]
fn song_cache_files_are_the_four_paths() {
    let c = CacheDir { path: "/tmp/cachedir".to_owned() };
    assert_eq!(
        c.song_cache_files("ab12"),
        vec![
            "/tmp/cachedir/ab12_transcript.json".to_string(),
            "/tmp/cachedir/ab12_instrumental.ogg".to_string(),
            "/tmp/cachedir/ab12_vocals.ogg".to_string(),
            "/tmp/cachedir/ab12_lyrics.json".to_string(),
        ]
    );
}

#[test]
fn directories_under_a_given_home() {
    assert_eq!(karasad::cache::cache_dir_in("/home/u"), "/home/u/.karasad/cache");
    assert_eq!(karasad::downloader::downloads_dir_in("/home/u/"), "/home/u/.nightingale/downloads");
    assert_eq!(karasad::log_view::log_file_in("/home/u"), "/home/u/.nightingale/nightingale.log");
    assert_eq!(karasad::ytdlp::ytdlp_dir_in("/home/u"), "/home/u/.nightingale/vendor");
    assert_eq!(karasad::ytdlp::ytdlp_path_in("/home/u", false), "/home/u/.nightingale/vendor/yt-dlp");
    assert_eq!(
        karasad::video::video_cache_dir_in("/c", karasad::video::VideoFlavor::Underwater),
        "/c/nightingale/videos/underwater"
    );
    assert_eq!(karasad::video::video_cache_base(None), ".cache");
    assert_eq!(karasad::video::video_cache_base(Some("/x".to_string())), "/x");
}

#[test]
fn ytdlp_setup_cases() {
    assert!(matches!(ytdlp_setup(true, None, Platform::Other), YtdlpSetup::Ready));
    assert!(matches!(ytdlp_setup(false, None, Platform::Other), YtdlpSetup::NoHome));
    match ytdlp_setup(false, Some("/h/.nightingale/vendor".to_string()), Platform::Windows) {
        YtdlpSetup::Fetch { url, dir, file_name } => {
            assert_eq!(url, "https://github.com/yt-dlp/yt-dlp/releases/latest/download/yt-dlp.exe");
            assert_eq!(dir, "/h/.nightingale/vendor");
            assert_eq!(file_name, "yt-dlp.exe");
        }
        _ => panic!("expected a fetch"),
    }
}
