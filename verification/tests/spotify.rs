use karasad::base64::base64_encode;
use karasad::spotify::{
    album_tracks_page_url, album_url, api_album_to_spotify_album, api_track_to_spotify_track,
    api_tracks_to_spotify_tracks, bearer_header, join_strings, search_albums_url, search_tracks_url,
    token_lifetime_secs, token_request_body, track_url, AlbumTrackPager, ApiAlbum, ApiArtist,
    ApiImage, ApiSimpleTrack, ApiTrack, SpotifyCredentials, TokenCache, DEFAULT_CLIENT_ID,
};

fn album(id: &str, images: &[&str]) -> ApiAlbum {
    ApiAlbum {
        id: id.into(),
        name: "The Album".into(),
        artists: vec![ApiArtist { name: "Band".into() }],
        images: images.iter().map(|u| ApiImage { url: u.to_string() }).collect(),
        total_tracks: Some(12),
        release_date: None,
    }
}

#[test]
fn base64_matches_known_values() {
    assert_eq!(base64_encode(b""), "");
    assert_eq!(base64_encode(b"f"), "Zg==");
    assert_eq!(base64_encode(b"fo"), "Zm8=");
    assert_eq!(base64_encode(b"foo"), "Zm9v");
    assert_eq!(base64_encode(b"foobar"), "Zm9vYmFy");
    assert_eq!(base64_encode(b"user:pass"), "dXNlcjpwYXNz");
}

#[test]
fn base64_of_a_concatenation_of_full_groups() {
    let a = base64_encode(b"abc");
    let b = base64_encode(b"defg");
    assert_eq!(base64_encode(b"abcdefg"), format!("{a}{b}"));
    assert_eq!(base64_encode(b"abcd").len(), 8);
}

#[test]
fn credentials_and_headers() {
    let c = SpotifyCredentials::new(Some("id"), Some("secret"));
    assert_eq!(c.basic_auth_header(), "Basic aWQ6c2VjcmV0");
    let d = SpotifyCredentials::new(None, Some("s"));
    assert_eq!(d.client_id, DEFAULT_CLIENT_ID);
    assert_eq!(bearer_header("tok"), "Bearer tok");
    assert_eq!(token_request_body(), "grant_type=client_credentials");
    assert_eq!(token_lifetime_secs(3600), 3540);
    assert_eq!(token_lifetime_secs(30), 0);
}

#[test]
fn urls_are_built_and_queries_encoded() {
    assert_eq!(
        search_tracks_url("daft punk", 20),
        "https://api.spotify.com/v1/search?q=daft%20punk&type=track&limit=20"
    );
    assert_eq!(
        search_albums_url("AC/DC & co", 5),
        "https://api.spotify.com/v1/search?q=AC%2FDC%20%26%20co&type=album&limit=5"
    );
    assert_eq!(album_url("x1"), "https://api.spotify.com/v1/albums/x1");
    assert_eq!(
        album_tracks_page_url("x1", 100),
        "https://api.spotify.com/v1/albums/x1/tracks?limit=50&offset=100"
    );
    assert_eq!(track_url("t9"), "https://api.spotify.com/v1/tracks/t9");
}

#[test]
fn track_conversion() {
    let t = ApiTrack {
        id: "t1".into(),
        name: "Name".into(),
        artists: vec![ApiArtist { name: "A".into() }, ApiArtist { name: "B".into() }],
        album: album("al", &["https://img/1", "https://img/2"]),
        duration_ms: 1000,
        track_number: 3,
    };
    let s = api_track_to_spotify_track(t);
    assert_eq!(s.id, "t1");
    assert_eq!(s.artists, vec!["A".to_string(), "B".to_string()]);
    assert_eq!(s.album_name, "The Album");
    assert_eq!(s.album_art_url.as_deref(), Some("https://img/1"));
    assert_eq!(s.track_number, 3);
    let a = api_album_to_spotify_album(album("al", &[]));
    assert_eq!(a.art_url, None);
    assert_eq!(a.total_tracks, 12);
    assert_eq!(a.release_date, "");
    assert_eq!(api_tracks_to_spotify_tracks(Vec::new()).len(), 0);
}

#[test]
fn album_pages_are_collected() {
    let al = album("al", &["https://img/a"]);
    let mut pager = AlbumTrackPager::new("al", &al);
    assert_eq!(pager.next_url(), "https://api.spotify.com/v1/albums/al/tracks?limit=50&offset=0");
    let page = vec![ApiSimpleTrack { id: "s1".into(), name: "One".into(), artists: vec![], duration_ms: 5, track_number: 1 }];
    assert!(pager.accept_page(&page, true));
    assert_eq!(pager.offset, 50);
    assert!(!pager.accept_page(&page, false));
    assert!(pager.done);
    assert_eq!(pager.tracks.len(), 2);
    assert_eq!(pager.tracks[0].album_art_url.as_deref(), Some("https://img/a"));
    assert_eq!(pager.tracks[1].album_name, "The Album");
}

#[test]
fn joining_and_tokens() {
    assert_eq!(join_strings(&vec!["a".into(), "b".into(), "c".into()], ", "), "a, b, c");
    assert_eq!(join_strings(&Vec::new(), ", "), "");
    let mut t = TokenCache::new();
    assert!(t.needs_refresh(0));
    t.store("tok".into(), 1000, 3600);
    assert_eq!(t.expires_at_ms, Some(1000 + 3540 * 1000));
    assert!(!t.needs_refresh(2000));
    assert!(t.needs_refresh(1000 + 3540 * 1000));
}

#[test]
fn tracks_carry_the_album_release_date() {
    let mut al = album("al", &[]);
    al.release_date = Some("2010-10-10".into());
    let t = api_track_to_spotify_track(ApiTrack {
        id: "t".into(),
        name: "N".into(),
        artists: vec![],
        album: al,
        duration_ms: 1,
        track_number: 2,
    });
    assert_eq!(t.release_date, "2010-10-10");
    let mut al2 = album("b", &[]);
    al2.release_date = Some("1999".into());
    let mut pager = AlbumTrackPager::new("b", &al2);
    let page = vec![ApiSimpleTrack { id: "s".into(), name: "S".into(), artists: vec![], duration_ms: 5, track_number: 1 }];
    pager.accept_page(&page, false);
    assert_eq!(pager.tracks[0].release_date, "1999");
    let none = api_track_to_spotify_track(ApiTrack {
        id: "t".into(),
        name: "N".into(),
        artists: vec![],
        album: album("c", &[]),
        duration_ms: 1,
        track_number: 2,
    });
    assert_eq!(none.release_date, "");
}
