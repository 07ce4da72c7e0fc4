use karasad::library::{ready_count, shown_matches, song_matches, title_from, visible_songs, AnalysisStatus, Song};
use karasad::scanner::{build_song, compute_file_hash, is_audio_extension, sort_songs, SongTags};

fn song(path: &str, title: &str, artist: &str) -> Song {
    Song {
        path: path.into(),
        file_hash: path.into(),
        title: title.into(),
        artist: artist.into(),
        album: String::new(),
        duration_ms: 0,
        album_art: None,
        analysis_status: AnalysisStatus::NotAnalyzed,
    }
}

#[test]
fn shown_title_and_artist() {
    let s = song("/music/My Song.mp3", "", "");
    assert_eq!(s.display_title(), "My Song");
    assert_eq!(s.display_artist(), "Unknown Artist");
    let t = song("/music/x.mp3", "Real", "Band");
    assert_eq!(t.display_title(), "Real");
    assert_eq!(t.display_artist(), "Band");
    let u = song("", "", "");
    assert_eq!(u.display_title(), "Unknown");
}

#[test]
fn search_matches_title_or_artist_ignoring_case() {
    let s = song("/m/a.mp3", "Bohemian Rhapsody", "Queen");
    assert!(song_matches(&s, ""));
    assert!(song_matches(&s, "rhap"));
    assert!(song_matches(&s, "QUEEN"));
    assert!(!song_matches(&s, "abba"));
    let songs = vec![s, song("/m/b.mp3", "Dancing Queen", "ABBA"), song("/m/c.mp3", "Hey", "Beatles")];
    assert_eq!(visible_songs(&songs, "queen"), vec![0, 1]);
    assert_eq!(visible_songs(&songs, ""), vec![0, 1, 2]);
    assert_eq!(visible_songs(&songs, "zzz"), Vec::<usize>::new());
}

#[test]
fn ready_songs_are_counted() {
    let mut songs = vec![song("/a", "", ""), song("/b", "", ""), song("/c", "", "")];
    songs[0].analysis_status = AnalysisStatus::Ready;
    songs[2].analysis_status = AnalysisStatus::Ready;
    assert_eq!(ready_count(&songs), 2);
    assert_eq!(ready_count(&Vec::new()), 0);
}

#[test]
fn songs_sort_by_artist_then_title_stably() {
    let songs = vec![
        song("/1", "Zed", "B"),
        song("/2", "Alpha", "B"),
        song("/3", "Song", "A"),
        song("/4", "Alpha", "B"),
        song("/5", "", ""),
    ];
    let sorted = sort_songs(songs);
    let paths: Vec<&str> = sorted.iter().map(|s| s.path.as_str()).collect();
    assert_eq!(paths, vec!["/3", "/2", "/4", "/1", "/5"]);
}

#[test]
fn audio_extensions() {
    assert!(is_audio_extension(Some("mp3")));
    assert!(is_audio_extension(Some("FLAC")));
    assert!(is_audio_extension(Some("M4a")));
    assert!(!is_audio_extension(Some("txt")));
    assert!(!is_audio_extension(None));
}

#[test]
fn file_hash_is_blake3_prefix() {
    assert_eq!(compute_file_hash(b"abc"), "6437b3ac38465133ffb63b75273a8db5");
    assert_eq!(compute_file_hash(b""), "af1349b9f5f9a1a6a0404dea36dcc949");
}

#[test]
fn built_song_status_follows_cache() {
    let tags = || SongTags { title: "T".into(), artist: "A".into(), album: "L".into(), duration_ms: 10, album_art: None };
    let s = build_song("/p".into(), "h".into(), true, tags());
    assert!(matches!(s.analysis_status, AnalysisStatus::Ready));
    let t = build_song("/p".into(), "h".into(), false, tags());
    assert!(matches!(t.analysis_status, AnalysisStatus::NotAnalyzed));
    assert_eq!(t.title, "T");
}

#[test]
fn shown_title_and_matching_rules() {
    assert_eq!(title_from("Tag", Some("stem".into())), "Tag");
    assert_eq!(title_from("", Some("stem".into())), "stem");
    assert_eq!(title_from("", None), "Unknown");
    assert!(shown_matches("Title", "Artist", ""));
    assert!(shown_matches("Title", "Artist", "tIt"));
    assert!(shown_matches("Title", "Ärtist", "ÄRT"));
    assert!(!shown_matches("Title", "Artist", "xyz"));
}

#[test]
fn untagged_titles_are_file_stems() {
    assert_eq!(song("/music/a.b.c", "", "").display_title(), "a.b");
    assert_eq!(song("rel/dir/.hidden", "", "").display_title(), ".hidden");
    assert_eq!(song("/m/track.", "", "").display_title(), "track");
    assert_eq!(song("noext", "", "").display_title(), "noext");
    assert_eq!(song("/m/..x", "", "").display_title(), ".");
    assert_eq!(song("/", "", "").display_title(), "Unknown");
}
