use karasad::analyzer::{
    analyzer_options, last_error_line, parse_progress_line, ActiveJob, AnalysisQueue, ProgressInfo,
};
use karasad::library::{AnalysisStatus, Song};

fn song(hash: &str, status: AnalysisStatus) -> Song {
    Song {
        path: format!("/music/{hash}.mp3"),
        file_hash: hash.to_string(),
        title: String::new(),
        artist: String::new(),
        album: String::new(),
        duration_ms: 0,
        album_art: None,
        analysis_status: status,
    }
}

fn queue_of(q: &AnalysisQueue) -> Vec<usize> {
    q.queue.iter().copied().collect()
}

#[test]
fn progress_line_is_parsed() {
    assert_eq!(
        parse_progress_line("[nightingale:PROGRESS:42]  Separating vocals  "),
        Some((42, "Separating vocals".to_string()))
    );
    assert_eq!(
        parse_progress_line("log: [nightingale:PROGRESS:100]done"),
        Some((100, "done".to_string()))
    );
    assert_eq!(parse_progress_line("[nightingale:PROGRESS:x]msg"), None);
    assert_eq!(parse_progress_line("[nightingale:PROGRESS:5 msg"), None);
    assert_eq!(parse_progress_line("plain output"), None);
    assert_eq!(parse_progress_line("[nightingale:PROGRESS:+7]"), Some((7, String::new())));
}

#[test]
fn output_lines_update_progress() {
    let mut p = ProgressInfo::starting();
    assert_eq!(p.percent, 0);
    assert_eq!(p.message, "Starting analyzer...");
    p.apply_output_line("noise");
    assert_eq!(p.percent, 0);
    p.apply_output_line("[nightingale:PROGRESS:30] Transcribing");
    assert_eq!(p.percent, 30);
    assert_eq!(p.message, "Transcribing");
    assert_eq!(p.finished, None);
}

#[test]
fn failure_message_is_last_nonblank_error_line() {
    let lines = vec!["first".to_string(), "Traceback: boom".to_string(), "   ".to_string()];
    assert_eq!(last_error_line(&lines, "exit code: 1"), "Traceback: boom");
    assert_eq!(last_error_line(&Vec::new(), "exit code: 1"), "exit code: 1");
    let mut p = ProgressInfo::starting();
    p.finish(false, &lines, "exit code: 1");
    assert_eq!(p.finished, Some(false));
    assert_eq!(p.message, "Traceback: boom");
    let mut q = ProgressInfo::starting();
    q.finish(true, &lines, "exit code: 0");
    assert_eq!(q.finished, Some(true));
    assert_eq!(q.message, "Starting analyzer...");
    q.fail("Failed to start: nope".to_string());
    assert_eq!(q.finished, Some(false));
}

#[test]
fn enqueue_skips_duplicates_and_active() {
    let mut q = AnalysisQueue::new();
    q.enqueue(3);
    q.enqueue(1);
    q.enqueue(3);
    assert_eq!(queue_of(&q), vec![3, 1]);
    let mut songs = vec![song("a", AnalysisStatus::Queued), song("b", AnalysisStatus::Queued), song("c", AnalysisStatus::NotAnalyzed), song("d", AnalysisStatus::Queued)];
    assert_eq!(q.process_queue(&mut songs), Some(3));
    assert!(matches!(songs[3].analysis_status, AnalysisStatus::Analyzing));
    assert_eq!(queue_of(&q), vec![1]);
    q.enqueue(3);
    assert_eq!(queue_of(&q), vec![1]);
    assert_eq!(q.process_queue(&mut songs), None);
    assert_eq!(q.active_progress(3).map(|p| p.percent), Some(0));
    assert!(q.active_progress(1).is_none());
}

#[test]
fn finished_job_updates_song() {
    let mut songs = vec![song("a", AnalysisStatus::Queued), song("b", AnalysisStatus::Queued)];
    let mut q = AnalysisQueue::new();
    q.enqueue(0);
    q.enqueue(1);
    q.process_queue(&mut songs);
    assert!(!q.poll_active_job(&mut songs, true));
    let mut p = ProgressInfo::starting();
    p.finish(true, &Vec::new(), "");
    q.set_active_progress(p);
    assert!(q.poll_active_job(&mut songs, true));
    assert!(matches!(songs[0].analysis_status, AnalysisStatus::Ready));
    assert!(q.active.is_none());
    q.process_queue(&mut songs);
    let mut p = ProgressInfo::starting();
    p.finish(true, &Vec::new(), "");
    q.set_active_progress(p);
    assert!(q.poll_active_job(&mut songs, false));
    match &songs[1].analysis_status {
        AnalysisStatus::Failed(m) => assert_eq!(m, "Starting analyzer..."),
        _ => panic!("expected failure"),
    }
    q.clear();
    assert!(q.queue.is_empty() && q.active.is_none());
}

#[test]
fn rescan_keeps_pending_statuses_and_remaps_queue() {
    let mut songs = vec![
        song("h1", AnalysisStatus::Analyzing),
        song("h2", AnalysisStatus::Queued),
        song("h3", AnalysisStatus::Queued),
        song("h4", AnalysisStatus::Ready),
    ];
    let mut q = AnalysisQueue::new();
    q.active = Some(ActiveJob { song_index: 0, progress: ProgressInfo::starting() });
    q.queue.push_back(1);
    q.queue.push_back(2);
    let new_songs = vec![
        song("h4", AnalysisStatus::NotAnalyzed),
        song("h2", AnalysisStatus::NotAnalyzed),
        song("h1", AnalysisStatus::NotAnalyzed),
        song("h5", AnalysisStatus::NotAnalyzed),
    ];
    q.apply_rescan(&mut songs, new_songs);
    assert_eq!(songs.len(), 4);
    assert!(matches!(songs[0].analysis_status, AnalysisStatus::NotAnalyzed));
    assert!(matches!(songs[1].analysis_status, AnalysisStatus::Queued));
    assert!(matches!(songs[2].analysis_status, AnalysisStatus::Analyzing));
    assert_eq!(q.active.as_ref().map(|a| a.song_index), Some(2));
    assert_eq!(queue_of(&q), vec![1]);
}

#[test]
fn analyzer_options_list() {
    assert_eq!(
        analyzer_options("abc", "large-v3", 5, 16),
        vec!["--hash", "abc", "--model", "large-v3", "--beam-size", "5", "--batch-size", "16"]
    );
}

#[test]
fn playback_starts_when_analysis_succeeds() {
    let mut songs = vec![song("a", AnalysisStatus::Queued), song("b", AnalysisStatus::Queued)];
    let mut q = AnalysisQueue::new();
    q.enqueue(1);
    q.enqueue(0);
    q.process_queue(&mut songs);
    assert!(q.poll_for_playback(&mut songs, true).is_none());
    let mut p = ProgressInfo::starting();
    p.finish(true, &Vec::new(), "");
    q.set_active_progress(p);
    let t = q.poll_for_playback(&mut songs, true);
    assert_eq!(t.map(|t| t.song_index), Some(1));
    assert!(matches!(songs[1].analysis_status, AnalysisStatus::Ready));
    q.process_queue(&mut songs);
    let mut p = ProgressInfo::starting();
    p.finish(false, &vec!["boom".to_string()], "exit");
    q.set_active_progress(p);
    assert!(q.poll_for_playback(&mut songs, true).is_none());
    assert!(matches!(songs[0].analysis_status, AnalysisStatus::Failed(_)));
    assert!(q.active.is_none());
}
