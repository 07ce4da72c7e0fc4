use karasad::analyzer::{AnalysisQueue, ProgressInfo};
use karasad::library::{AnalysisStatus, Song};
use karasad::menu::{sidebar_effect, SidebarAction, SidebarEffect};
use karasad::menu::{
    apply_search_key, badge_text, click_song, folder_button_label, reanalyze_song, search_bar_text,
    settings_change, shows_reanalyze, shows_spinner, stats_text, theme_glyph, window_mode_label,
    SearchKey, SettingsAction, SettingsChange, SettingsView, SongClick, FA_MOON, FA_SUN,
};

fn song(status: AnalysisStatus) -> Song {
    Song {
        path: "/m/x.mp3".into(),
        file_hash: "h".into(),
        title: "T".into(),
        artist: "A".into(),
        album: String::new(),
        duration_ms: 0,
        album_art: None,
        analysis_status: status,
    }
}

#[test]
fn clicking_songs() {
    let mut songs = vec![song(AnalysisStatus::Ready), song(AnalysisStatus::NotAnalyzed), song(AnalysisStatus::Failed("e".into())), song(AnalysisStatus::Analyzing)];
    let mut q = AnalysisQueue::new();
    assert_eq!(click_song(&mut songs, &mut q, 0), SongClick::Play);
    assert_eq!(click_song(&mut songs, &mut q, 1), SongClick::Queued);
    assert!(matches!(songs[1].analysis_status, AnalysisStatus::Queued));
    assert_eq!(click_song(&mut songs, &mut q, 1), SongClick::Nothing);
    assert_eq!(click_song(&mut songs, &mut q, 2), SongClick::Queued);
    assert_eq!(click_song(&mut songs, &mut q, 3), SongClick::Nothing);
    assert_eq!(q.queue.iter().copied().collect::<Vec<_>>(), vec![1, 2]);
    assert!(reanalyze_song(&mut songs, &mut q, 0));
    assert!(matches!(songs[0].analysis_status, AnalysisStatus::Queued));
    assert!(!reanalyze_song(&mut songs, &mut q, 9));
    assert_eq!(q.queue.len(), 3);
}

#[test]
fn search_box_editing() {
    let mut q = String::new();
    assert!(!apply_search_key(&mut q, SearchKey::Backspace));
    assert!(apply_search_key(&mut q, SearchKey::Text("ab\u{7}c".into())));
    assert_eq!(q, "abc");
    assert!(!apply_search_key(&mut q, SearchKey::Text("\u{1b}".into())));
    assert!(apply_search_key(&mut q, SearchKey::Backspace));
    assert_eq!(q, "ab");
    assert!(!apply_search_key(&mut q, SearchKey::Other));
    assert!(apply_search_key(&mut q, SearchKey::Escape));
    assert_eq!(q, "");
    assert_eq!(search_bar_text(""), "Type to search songs...");
    assert_eq!(search_bar_text("x"), "x");
}

#[test]
fn texts_of_the_menu() {
    let songs = vec![song(AnalysisStatus::Ready), song(AnalysisStatus::Queued), song(AnalysisStatus::Ready)];
    assert_eq!(stats_text(&songs), "3 songs found · 2 ready for karaoke");
    assert_eq!(badge_text(&AnalysisStatus::Ready, None), "READY");
    assert_eq!(badge_text(&AnalysisStatus::NotAnalyzed, None), "NOT ANALYZED");
    assert_eq!(badge_text(&AnalysisStatus::Analyzing, None), "ANALYZING...");
    let mut p = ProgressInfo::starting();
    p.percent = 57;
    assert_eq!(badge_text(&AnalysisStatus::Analyzing, Some(p)), "57%");
    assert_eq!(badge_text(&AnalysisStatus::Failed("x".into()), None), "FAILED");
    assert!(shows_reanalyze(&AnalysisStatus::Failed("x".into())));
    assert!(!shows_reanalyze(&AnalysisStatus::Queued));
    assert!(shows_spinner(&AnalysisStatus::Analyzing));
    assert_eq!(folder_button_label(true), "Change Folder");
    assert_eq!(folder_button_label(false), "Select Folder");
    assert_eq!(theme_glyph(true), FA_SUN);
    assert_eq!(theme_glyph(false), FA_MOON);
    assert_eq!(window_mode_label(true), "Fullscreen");
}

#[test]
fn settings_buttons() {
    let v = SettingsView { fullscreen: false, whisper_model: "large-v3-turbo".into(), beam_size: 15, batch_size: 1 };
    assert!(matches!(settings_change(SettingsAction::BeamUp, &v), SettingsChange::BeamSize(15)));
    assert!(matches!(settings_change(SettingsAction::BeamDown, &v), SettingsChange::BeamSize(14)));
    assert!(matches!(settings_change(SettingsAction::BatchDown, &v), SettingsChange::BatchSize(1)));
    assert!(matches!(settings_change(SettingsAction::BatchUp, &v), SettingsChange::BatchSize(2)));
    assert!(matches!(settings_change(SettingsAction::ToggleFullscreen, &v), SettingsChange::Fullscreen(true)));
    match settings_change(SettingsAction::ToggleModel, &v) {
        SettingsChange::WhisperModel(m) => assert_eq!(m, "large-v3"),
        _ => panic!("expected a model"),
    }
    let w = SettingsView { fullscreen: true, whisper_model: "large-v3".into(), beam_size: 0, batch_size: 16 };
    match settings_change(SettingsAction::ToggleModel, &w) {
        SettingsChange::WhisperModel(m) => assert_eq!(m, "large-v3-turbo"),
        _ => panic!("expected a model"),
    }
    assert!(matches!(settings_change(SettingsAction::BeamDown, &w), SettingsChange::BeamSize(1)));
    assert!(matches!(settings_change(SettingsAction::BatchUp, &w), SettingsChange::BatchSize(16)));
    assert!(matches!(settings_change(SettingsAction::RestoreDefaults, &w), SettingsChange::RestoreDefaults));
    assert!(matches!(settings_change(SettingsAction::Close, &w), SettingsChange::Close));
}

#[test]
fn sidebar_buttons() {
    assert_eq!(sidebar_effect(SidebarAction::RescanFolder, true, false, true), SidebarEffect::Busy);
    assert_eq!(sidebar_effect(SidebarAction::RescanFolder, false, false, true), SidebarEffect::StartRescan);
    assert_eq!(sidebar_effect(SidebarAction::RescanFolder, false, false, false), SidebarEffect::Nothing);
    assert_eq!(sidebar_effect(SidebarAction::ChangeFolder, false, true, true), SidebarEffect::Busy);
    assert_eq!(sidebar_effect(SidebarAction::ChangeFolder, true, false, false), SidebarEffect::PickFolder);
    assert_eq!(sidebar_effect(SidebarAction::Exit, true, true, true), SidebarEffect::Exit);
}
