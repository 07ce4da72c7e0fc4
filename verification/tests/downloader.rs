use karasad::downloader::{
    art_is_png, metadata_file_name, next_track_stage, year_of, TrackStage, WorkerReport, output_file_name, step_report, tag_values, DownloadManager,
    DownloadPhase, DownloadStep,
};
use karasad::spotify::SpotifyTrack;

fn track(id: &str, name: &str, artists: &[&str]) -> SpotifyTrack {
    SpotifyTrack {
        id: id.into(),
        name: name.into(),
        artists: artists.iter().map(|a| a.to_string()).collect(),
        album_name: "Album".into(),
        album_id: "alb".into(),
        album_art_url: Some("https://i.scdn.co/image/x.png".into()),
        duration_ms: 185_000,
        track_number: 4,
        release_date: "1999-05-01".into(),
    }
}

#[test]
fn enqueue_ignores_known_tracks() {
    let mut m = DownloadManager::new();
    m.enqueue(track("a", "A", &["X"]));
    m.enqueue(track("b", "B", &["Y"]));
    m.enqueue(track("a", "A again", &["X"]));
    assert_eq!(m.queue.len(), 2);
    assert_eq!(m.total_queued(), 2);
    assert_eq!(m.status_of("a"), Some(DownloadPhase::Queued));
    assert_eq!(m.status_of("zzz"), None);
    assert!(m.start_next());
    assert_eq!(m.status_of("a"), Some(DownloadPhase::SearchingYoutube));
    assert!(m.is_queued_or_active("a"));
    assert_eq!(m.total_queued(), 2);
    assert!(!m.start_next());
    m.set_active_progress(DownloadPhase::Downloading, 40);
    let (t, p) = m.active_progress().unwrap();
    assert_eq!(t.id, "a");
    assert_eq!((p.phase, p.percent), (DownloadPhase::Downloading, 40));
    m.set_active_progress(DownloadPhase::Done, 100);
    assert!(m.active_finished());
    m.finish_active(Ok("/dl/a.opus".into()));
    assert!(m.is_completed("a"));
    assert_eq!(m.status_of("a"), Some(DownloadPhase::Done));
    m.enqueue(track("a", "A", &["X"]));
    assert_eq!(m.queue.len(), 1);
    assert!(m.start_next());
    m.finish_active(Err("boom".into()));
    assert!(m.is_failed("b"));
    assert_eq!(m.status_of("b"), Some(DownloadPhase::Failed));
}

#[test]
fn enqueue_all_admits_each_new_id_once() {
    let mut m = DownloadManager::new();
    m.enqueue(track("a", "A", &[]));
    m.enqueue_all(vec![track("a", "A", &[]), track("c", "C", &[]), track("c", "C2", &[]), track("d", "D", &[])]);
    let ids: Vec<&str> = m.queue.iter().map(|r| r.track.id.as_str()).collect();
    assert_eq!(ids, vec!["a", "c", "d"]);
}

#[test]
fn phase_labels() {
    assert_eq!(DownloadPhase::Queued.label(), "Queued");
    assert_eq!(DownloadPhase::FetchingYtdlp.label(), "Installing yt-dlp...");
    assert_eq!(DownloadPhase::Tagging.label(), "Tagging metadata...");
    assert_eq!(DownloadPhase::Failed.label(), "Failed");
}

#[test]
fn file_names_and_steps() {
    assert_eq!(output_file_name("4uLU6hMCjMI75M1A2tKUQC"), "4uLU6hMCjMI75M1A2tKUQC.opus");
    assert_eq!(metadata_file_name("x"), "x.json");
    assert_eq!(step_report(DownloadStep::AlreadyDownloaded, 0), (DownloadPhase::Done, 100));
    assert_eq!(step_report(DownloadStep::InstallingYtdlp, 7), (DownloadPhase::FetchingYtdlp, 7));
    assert_eq!(step_report(DownloadStep::Downloading(55), 0), (DownloadPhase::Downloading, 55));
    assert_eq!(step_report(DownloadStep::Tagging, 99), (DownloadPhase::Tagging, 95));
}

#[test]
fn tags_for_a_track() {
    let t = track("a", "Song", &["One", "Two"]);
    let v = tag_values(&t);
    assert_eq!(v.title, "Song");
    assert_eq!(v.artist, "One, Two");
    assert_eq!(v.album_artist, "One");
    assert_eq!(v.track_number, 4);
    assert_eq!(v.year, Some(1999));
    let none = tag_values(&track("b", "S", &[]));
    assert_eq!(none.artist, "");
    assert_eq!(none.album_artist, "");
    assert!(art_is_png("https://x/y.png"));
    assert!(!art_is_png("https://x/y.jpg"));
}

#[test]
fn release_year_from_date() {
    assert_eq!(year_of("2004-03-22"), Some(2004));
    assert_eq!(year_of("1987"), Some(1987));
    assert_eq!(year_of("2011-07"), Some(2011));
    assert_eq!(year_of(""), None);
    assert_eq!(year_of("198"), None);
    assert_eq!(year_of("+198"), None);
    assert_eq!(year_of("ab12-01-01"), None);
}

#[test]
fn track_stages_in_order() {
    assert_eq!(next_track_stage(TrackStage::CheckExisting, true), (TrackStage::Done, Some(DownloadStep::AlreadyDownloaded)));
    assert_eq!(next_track_stage(TrackStage::CheckExisting, false), (TrackStage::InstallYtdlp, Some(DownloadStep::InstallingYtdlp)));
    assert_eq!(next_track_stage(TrackStage::InstallYtdlp, true), (TrackStage::Search, Some(DownloadStep::Searching)));
    assert_eq!(next_track_stage(TrackStage::Search, false), (TrackStage::Failed, Some(DownloadStep::Failed)));
    assert_eq!(next_track_stage(TrackStage::InstallYtdlp, false), (TrackStage::Failed, Some(DownloadStep::Failed)));
    assert_eq!(next_track_stage(TrackStage::Download, false), (TrackStage::Failed, Some(DownloadStep::Failed)));
    assert_eq!(step_report(DownloadStep::Failed, 42), (DownloadPhase::Failed, 42));
    assert_eq!(next_track_stage(TrackStage::Search, true), (TrackStage::Download, Some(DownloadStep::Downloading(0))));
    assert_eq!(next_track_stage(TrackStage::Download, true), (TrackStage::Tag, Some(DownloadStep::Tagging)));
    assert_eq!(next_track_stage(TrackStage::Tag, false), (TrackStage::SaveMetadata, Some(DownloadStep::Finished)));
    assert_eq!(next_track_stage(TrackStage::SaveMetadata, false), (TrackStage::Done, None));
}

fn worker(phase: DownloadPhase, percent: u32, error: Option<&str>, path: &str) -> WorkerReport {
    WorkerReport { phase, percent, error: error.map(|e| e.to_string()), path: path.to_string() }
}

#[test]
fn worker_reports_retire_downloads() {
    let mut m = DownloadManager::new();
    assert!(!m.poll_active_download(worker(DownloadPhase::Done, 100, None, "/x")));
    m.enqueue(track("a", "A", &[]));
    m.enqueue(track("b", "B", &[]));
    assert!(m.start_next());
    assert!(!m.poll_active_download(worker(DownloadPhase::Downloading, 30, None, "/dl/a.opus")));
    assert_eq!(m.status_of("a"), Some(DownloadPhase::Downloading));
    assert!(m.poll_active_download(worker(DownloadPhase::Done, 100, None, "/dl/a.opus")));
    assert!(m.is_completed("a"));
    assert_eq!(m.completed[0].path, "/dl/a.opus");
    assert!(m.active.is_none());
    assert!(m.start_next());
    assert!(m.poll_active_download(worker(DownloadPhase::Failed, 10, Some("No YouTube results found for: x"), "/dl/b.opus")));
    assert!(m.is_failed("b"));
    assert_eq!(m.failed[0].1, "No YouTube results found for: x");
    m.enqueue(track("c", "C", &[]));
    assert!(m.start_next());
    assert!(m.poll_active_download(worker(DownloadPhase::Failed, 0, None, "")));
    assert_eq!(m.failed[1].1, "Download failed");
}
