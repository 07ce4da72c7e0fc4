use karasad::downloader::{DownloadManager, DownloadPhase};
use karasad::spotify::{SpotifyAlbum, SpotifyTrack};
use karasad::spotify_search::{
    album_detail, queue_lines, search_box_text, shows_queue_section, spawn_spotify_search,
    tab_label, track_badge, track_detail, KeyOutcome, OverlayKey, QueueLineKind, ResultRow,
    SearchResult, SpotifySearchTab,
};

fn track(id: &str, name: &str, artists: &[&str], ms: u64) -> SpotifyTrack {
    SpotifyTrack {
        id: id.into(),
        name: name.into(),
        artists: artists.iter().map(|a| a.to_string()).collect(),
        album_name: "Album".into(),
        album_id: "alb".into(),
        album_art_url: None,
        duration_ms: ms,
        track_number: 1,
        release_date: String::new(),
    }
}

#[test]
fn typing_and_searching() {
    let mut st = spawn_spotify_search(None, Some("s".into()));
    assert_eq!(st.active_tab, SpotifySearchTab::Tracks);
    assert_eq!(st.press_key(OverlayKey::Enter), (KeyOutcome::Continue, false));
    assert_eq!(st.press_key(OverlayKey::Text("abc".into())), (KeyOutcome::Continue, true));
    assert_eq!(st.press_key(OverlayKey::Backspace), (KeyOutcome::Continue, true));
    assert_eq!(st.query, "ab");
    assert_eq!(st.press_key(OverlayKey::Enter), (KeyOutcome::Search, false));
    assert!(st.searching);
    assert_eq!(st.press_key(OverlayKey::Enter), (KeyOutcome::Continue, false));
    assert_eq!(st.press_key(OverlayKey::Tab), (KeyOutcome::Continue, false));
    assert_eq!(st.active_tab, SpotifySearchTab::Albums);
    st.receive(SearchResult::Albums(Err("Token request failed".into())));
    assert!(!st.searching);
    assert_eq!(st.error.as_deref(), Some("Token request failed"));
    assert_eq!(st.empty_results_note(), Some("No albums found"));
    assert!(st.click_tab(SpotifySearchTab::Tracks));
    assert!(st.searching);
    st.receive(SearchResult::Tracks(Ok(vec![track("t1", "One", &["A"], 61_000)])));
    assert_eq!(st.error, None);
    assert_eq!(st.track_results.len(), 1);
    assert_eq!(st.empty_results_note(), None);
    assert!(!st.click_tab(SpotifySearchTab::Tracks));
    assert_eq!(st.press_key(OverlayKey::Escape), (KeyOutcome::Close, false));
}

#[test]
fn download_clicks() {
    let mut st = spawn_spotify_search(None, None);
    st.receive(SearchResult::Tracks(Ok(vec![track("t1", "One", &["A"], 1), track("t2", "Two", &[], 1)])));
    let mut dl = DownloadManager::new();
    assert!(st.click_download_track(&mut dl, 1));
    assert!(!st.click_download_track(&mut dl, 5));
    assert_eq!(dl.status_of("t2"), Some(DownloadPhase::Queued));
    assert_eq!(st.click_download_album(0), None);
    st.album_results.push(SpotifyAlbum { id: "al".into(), name: "Al".into(), artists: vec![], art_url: None, total_tracks: 2, release_date: "2001".into() });
    assert_eq!(st.click_download_album(0), Some(("al".to_string(), "Al".to_string())));
    st.album_fetched(&mut dl, Ok(vec![track("t2", "Two", &[], 1), track("t3", "Three", &[], 1)]));
    assert_eq!(dl.queue.len(), 2);
    st.album_fetched(&mut dl, Err("timeout".into()));
    assert_eq!(st.error.as_deref(), Some("Album fetch failed: timeout"));
}

#[test]
fn row_texts() {
    assert_eq!(track_detail(&track("t", "N", &["A", "B"], 185_999)), "A, B · Album · 3:05");
    assert_eq!(track_detail(&track("t", "N", &[], 600_000)), " · Album · 10:00");
    let al = SpotifyAlbum { id: "a".into(), name: "n".into(), artists: vec!["X".into()], art_url: None, total_tracks: 11, release_date: "1999-01-01".into() };
    assert_eq!(album_detail(&al), "X · 11 tracks · 1999-01-01");
    assert_eq!(track_badge(Some(DownloadPhase::Done)), Some("Ready"));
    assert_eq!(track_badge(Some(DownloadPhase::Converting)), Some("DL..."));
    assert_eq!(track_badge(None), None);
    assert_eq!(search_box_text(""), "Type to search...");
    assert_eq!(tab_label(SpotifySearchTab::Albums), "Albums");
}

#[test]
fn download_section_lines() {
    let mut dl = DownloadManager::new();
    assert!(!shows_queue_section(&dl));
    for (i, id) in ["a", "b", "c", "d", "e", "f"].iter().enumerate() {
        dl.enqueue(track(id, &format!("S{i}"), &["Art"], 1));
    }
    for _ in 0..4 {
        dl.start_next();
        dl.finish_active(Ok("/x".into()));
    }
    dl.start_next();
    dl.finish_active(Err("bad".into()));
    dl.start_next();
    dl.set_active_progress(DownloadPhase::Downloading, 12);
    dl.enqueue(track("g", "S6", &[], 1));
    let lines: Vec<(String, QueueLineKind)> = queue_lines(&dl).into_iter().map(|l| (l.text, l.kind)).collect();
    assert_eq!(
        lines,
        vec![
            (">> Art - S5 (12%)".to_string(), QueueLineKind::Working),
            (".. ? - S6".to_string(), QueueLineKind::Waiting),
            ("OK Art - S3".to_string(), QueueLineKind::Ready),
            ("OK Art - S2".to_string(), QueueLineKind::Ready),
            ("OK Art - S1".to_string(), QueueLineKind::Ready),
            ("!! Art - S4 (bad)".to_string(), QueueLineKind::Failed),
        ]
    );
    assert!(shows_queue_section(&dl));
}

#[test]
fn results_area_rows_and_status() {
    let mut st = spawn_spotify_search(None, None);
    st.searching = true;
    assert_eq!(st.status_text(), Some("Searching..."));
    st.receive(SearchResult::Tracks(Ok(vec![track("t1", "One", &["A"], 1), track("t2", "Two", &[], 1)])));
    st.searching = false;
    assert_eq!(st.status_text(), None);
    assert_eq!(st.result_rows(), vec![ResultRow::Track(0), ResultRow::Track(1)]);
    st.active_tab = SpotifySearchTab::Albums;
    assert_eq!(st.result_rows(), Vec::<ResultRow>::new());
    st.album_results.push(SpotifyAlbum { id: "al".into(), name: "Al".into(), artists: vec![], art_url: None, total_tracks: 2, release_date: "2001".into() });
    assert_eq!(st.result_rows(), vec![ResultRow::Album(0)]);
}
