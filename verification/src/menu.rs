//! The song menu's decisions: what a click on a song or its re-analyze
//! button does, how typing edits the search text, what the badges, stats
//! line and sidebar say, and how the settings buttons change the analyzer
//! settings.

use vstd::prelude::*;
use crate::analyzer::{AnalysisQueue, ProgressInfo, queued_song};
use crate::library::{AnalysisStatus, Song, ready_count, ready_count_spec};
use crate::text::{append_str, decimal, decimal_spec, push_char};

verus! {

/// The Font Awesome refresh glyph, on re-analyze buttons.
pub const FA_REFRESH: &'static str = "\u{f021}";
/// The Font Awesome sun glyph, on the theme button in dark mode.
pub const FA_SUN: &'static str = "\u{f185}";
/// The Font Awesome moon glyph, on the theme button in light mode.
pub const FA_MOON: &'static str = "\u{f186}";
/// The Font Awesome spinner glyph, on songs being analyzed.
pub const FA_SPINNER: &'static str = "\u{f1ce}";

/// What a click on a song card led to.
#[derive(Debug, Clone, Copy, PartialEq, Eq, Structural)]
pub enum SongClick {
    /// The song is ready: play it.
    Play,
    /// The song was queued for analysis.
    Queued,
    /// The song is already waiting or being analyzed.
    Nothing,
}

/// A click on song `idx`: a ready song plays; one not analyzed or failed
/// is queued for analysis and shown as queued; one waiting or being
/// analyzed is left alone.
pub fn click_song(songs: &mut Vec<Song>, queue: &mut AnalysisQueue, idx: usize) -> (r: SongClick)
    requires
        idx < old(songs)@.len(),
    ensures
        (match old(songs)@[idx as int].analysis_status {
            AnalysisStatus::Ready => r == SongClick::Play && final(songs)@ == old(songs)@ && *final(queue) == *old(queue),
            AnalysisStatus::NotAnalyzed | AnalysisStatus::Failed(_) => r == SongClick::Queued
                && queued_song(&*old(queue), idx, &*final(queue))
                && final(songs)@ == old(songs)@.update(idx as int, Song {
                    analysis_status: AnalysisStatus::Queued,
                    ..old(songs)@[idx as int]
                }),
            _ => r == SongClick::Nothing && final(songs)@ == old(songs)@ && *final(queue) == *old(queue),
        }),
{
    match songs[idx].analysis_status {
        AnalysisStatus::Ready => SongClick::Play,
        AnalysisStatus::NotAnalyzed | AnalysisStatus::Failed(_) => {
            queue.enqueue(idx);
            songs[idx].analysis_status = AnalysisStatus::Queued;
            SongClick::Queued
        },
        _ => SongClick::Nothing,
    }
}

/// A click on the re-analyze button of song `idx` (whose old results the
/// caller removed): the song is shown as queued and queued again. An index
/// past the library is ignored; returns whether it was a song.
pub fn reanalyze_song(songs: &mut Vec<Song>, queue: &mut AnalysisQueue, idx: usize) -> (r: bool)
    ensures
        r == (idx < old(songs)@.len()),
        r ==> queued_song(&*old(queue), idx, &*final(queue)) && final(songs)@ == old(songs)@.update(
            idx as int,
            Song { analysis_status: AnalysisStatus::Queued, ..old(songs)@[idx as int] },
        ),
        !r ==> final(songs)@ == old(songs)@ && *final(queue) == *old(queue),
{
    if idx >= songs.len() {
        return false;
    }
    songs[idx].analysis_status = AnalysisStatus::Queued;
    queue.enqueue(idx);
    true
}

/// Unicode control characters (`char::is_control`).
pub open spec fn is_control(c: char) -> bool {
    (c as u32) <= 0x1F || (0x7F <= (c as u32) && (c as u32) <= 0x9F)
}

/// A key press the search box reacts to.
pub enum SearchKey {
    Backspace,
    Escape,
    /// A key that produced text.
    Text(String),
    /// Any other key.
    Other,
}

/// `s` without its control characters.
pub open spec fn printable(s: Seq<char>) -> Seq<char> {
    s.filter(|c: char| !is_control(c))
}

/// The search text after a key press, and whether it changed.
pub open spec fn search_after(q: Seq<char>, key: SearchKey) -> (Seq<char>, bool) {
    match key {
        SearchKey::Backspace => if q.len() > 0 { (q.drop_last(), true) } else { (q, false) },
        SearchKey::Escape => if q.len() > 0 { (Seq::empty(), true) } else { (q, false) },
        SearchKey::Text(t) => (q + printable(t@), printable(t@).len() > 0),
        SearchKey::Other => (q, false),
    }
}

/// Edits the search text with one key press: backspace drops the last
/// character, escape clears it, typed text is appended without its control
/// characters. Returns whether the text changed.
pub fn apply_search_key(query: &mut String, key: SearchKey) -> (changed: bool)
    ensures
        (final(query)@, changed) == search_after(old(query)@, key),
{
    match key {
        SearchKey::Backspace => {
            if query.as_str().is_empty() {
                false
            } else {
                let v = crate::text::chars_of(query.as_str());
                let w = crate::text::sub_chars(v.as_slice(), 0, v.len() - 1);
                *query = crate::text::string_from_chars(w.as_slice());
                assert(w@ =~= old(query)@.drop_last());
                true
            }
        },
        SearchKey::Escape => {
            if query.as_str().is_empty() {
                false
            } else {
                *query = String::new();
                true
            }
        },
        SearchKey::Text(t) => {
            let ghost q0 = query@;
            let mut changed = false;
            let ghost ts = t@;
            let mut n: usize = 0;
            for c in it: t.as_str().chars()
                invariant
                    it.seq() == ts,
                    query@ == q0 + printable(ts.take(it.index() as int)),
                    changed == (printable(ts.take(it.index() as int)).len() > 0),
            {
                let ghost k = it.index() as int;
                proof {
                    assert(ts.take(k + 1) =~= ts.take(k).push(c));
                    reveal_with_fuel(Seq::<_>::filter, 1);
                    assert(ts.take(k + 1).drop_last() =~= ts.take(k));
                }
                let u = c as u32;
                if !(u <= 0x1F || (0x7F <= u && u <= 0x9F)) {
                    push_char(query, c);
                    changed = true;
                    assert(printable(ts.take(k + 1)) =~= printable(ts.take(k)).push(c));
                } else {
                    assert(printable(ts.take(k + 1)) =~= printable(ts.take(k)));
                }
            }
            assert(ts.take(ts.len() as int) =~= ts);
            changed
        },
        SearchKey::Other => false,
    }
}

/// What the search bar shows for the search text.
pub open spec fn search_bar_spec(q: Seq<char>) -> Seq<char> {
    if q.len() == 0 { "Type to search songs..."@ } else { q }
}

/// What the search bar shows for the search text.
pub fn search_bar_text(query: &str) -> (r: String)
    ensures
        r@ == search_bar_spec(query@),
{
    if query.is_empty() {
        "Type to search songs...".to_owned()
    } else {
        query.to_owned()
    }
}

/// The stats line under the search bar.
pub open spec fn stats_spec(total: nat, ready: nat) -> Seq<char> {
    decimal_spec(total) + " songs found · "@ + decimal_spec(ready) + " ready for karaoke"@
}

/// The stats line: how many songs there are and how many are ready.
pub fn stats_text(songs: &Vec<Song>) -> (r: String)
    ensures
        r@ == stats_spec(songs@.len(), ready_count_spec(songs@)),
{
    let ready = ready_count(songs);
    let mut s = decimal(songs.len() as u64);
    append_str(&mut s, " songs found · ");
    let d = decimal(ready as u64);
    append_str(&mut s, d.as_str());
    append_str(&mut s, " ready for karaoke");
    s
}

/// The text of a song's status badge; an analyzing song shows its
/// percentage when its progress is known.
pub open spec fn badge_spec(st: AnalysisStatus, progress: Option<ProgressInfo>) -> Seq<char> {
    match st {
        AnalysisStatus::Ready => "READY"@,
        AnalysisStatus::NotAnalyzed => "NOT ANALYZED"@,
        AnalysisStatus::Queued => "QUEUED"@,
        AnalysisStatus::Analyzing => match progress {
            Some(p) => decimal_spec(p.percent as nat) + "%"@,
            None => "ANALYZING..."@,
        },
        AnalysisStatus::Failed(_) => "FAILED"@,
    }
}

/// The text of a song's status badge.
pub fn badge_text(st: &AnalysisStatus, progress: Option<ProgressInfo>) -> (r: String)
    ensures
        r@ == badge_spec(*st, progress),
{
    match st {
        AnalysisStatus::Ready => "READY".to_owned(),
        AnalysisStatus::NotAnalyzed => "NOT ANALYZED".to_owned(),
        AnalysisStatus::Queued => "QUEUED".to_owned(),
        AnalysisStatus::Analyzing => match progress {
            Some(p) => {
                let mut s = decimal(p.percent as u64);
                append_str(&mut s, "%");
                s
            },
            None => "ANALYZING...".to_owned(),
        },
        AnalysisStatus::Failed(_) => "FAILED".to_owned(),
    }
}

/// Whether a song shows its re-analyze button: when ready or failed.
pub fn shows_reanalyze(st: &AnalysisStatus) -> (r: bool)
    ensures
        r == (st is Ready || st is Failed),
{
    match st {
        AnalysisStatus::Ready | AnalysisStatus::Failed(_) => true,
        _ => false,
    }
}

/// Whether a song shows the spinner: while it is being analyzed.
pub fn shows_spinner(st: &AnalysisStatus) -> (r: bool)
    ensures
        r == (st is Analyzing),
{
    match st {
        AnalysisStatus::Analyzing => true,
        _ => false,
    }
}

/// The label of the folder button.
pub fn folder_button_label(has_folder: bool) -> (r: &'static str)
    ensures
        r@ == (if has_folder { "Change Folder"@ } else { "Select Folder"@ }),
{
    if has_folder { "Change Folder" } else { "Select Folder" }
}

/// The glyph of the theme button: a sun in dark mode, a moon in light mode.
pub fn theme_glyph(dark: bool) -> (r: &'static str)
    ensures
        r@ == (if dark { FA_SUN@ } else { FA_MOON@ }),
{
    if dark { FA_SUN } else { FA_MOON }
}

/// The sidebar's buttons.
#[derive(Debug, Clone, Copy, PartialEq, Eq, Structural)]
pub enum SidebarAction {
    ChangeFolder,
    RescanFolder,
    Settings,
    ToggleTheme,
    Exit,
}

/// What a sidebar button does.
#[derive(Debug, Clone, Copy, PartialEq, Eq, Structural)]
pub enum SidebarEffect {
    /// Nothing, because the same work is already under way.
    Busy,
    /// Nothing, because there is no folder to rescan.
    Nothing,
    /// Rescan the saved folder in the background.
    StartRescan,
    /// Open the folder picker in the background.
    PickFolder,
    OpenSettings,
    ToggleTheme,
    Exit,
}

/// What a sidebar button does: a rescan or folder pick already under way
/// turns its button away, a rescan needs a saved folder, the other buttons
/// always act.
pub fn sidebar_effect(action: SidebarAction, rescan_pending: bool, pick_pending: bool, has_folder: bool) -> (r: SidebarEffect)
    ensures
        r == (match action {
            SidebarAction::RescanFolder => if rescan_pending {
                SidebarEffect::Busy
            } else if has_folder {
                SidebarEffect::StartRescan
            } else {
                SidebarEffect::Nothing
            },
            SidebarAction::ChangeFolder => if pick_pending { SidebarEffect::Busy } else { SidebarEffect::PickFolder },
            SidebarAction::Settings => SidebarEffect::OpenSettings,
            SidebarAction::ToggleTheme => SidebarEffect::ToggleTheme,
            SidebarAction::Exit => SidebarEffect::Exit,
        }),
{
    match action {
        SidebarAction::RescanFolder => {
            if rescan_pending {
                SidebarEffect::Busy
            } else if has_folder {
                SidebarEffect::StartRescan
            } else {
                SidebarEffect::Nothing
            }
        },
        SidebarAction::ChangeFolder => if pick_pending { SidebarEffect::Busy } else { SidebarEffect::PickFolder },
        SidebarAction::Settings => SidebarEffect::OpenSettings,
        SidebarAction::ToggleTheme => SidebarEffect::ToggleTheme,
        SidebarAction::Exit => SidebarEffect::Exit,
    }
}

/// The settings popup's buttons.
#[derive(Debug, Clone, Copy, PartialEq, Eq, Structural)]
pub enum SettingsAction {
    ToggleFullscreen,
    ToggleModel,
    BeamUp,
    BeamDown,
    BatchUp,
    BatchDown,
    RestoreDefaults,
    Close,
}

/// The current analyzer and window settings as the popup shows them.
pub struct SettingsView {
    pub fullscreen: bool,
    pub whisper_model: String,
    pub beam_size: u32,
    pub batch_size: u32,
}

/// What a settings button changes.
pub enum SettingsChange {
    Fullscreen(bool),
    WhisperModel(String),
    BeamSize(u32),
    BatchSize(u32),
    RestoreDefaults,
    Close,
}

/// The model the model button switches to.
pub open spec fn next_model(current: Seq<char>) -> Seq<char> {
    if current == "large-v3-turbo"@ { "large-v3"@ } else { "large-v3-turbo"@ }
}

/// The beam size one step up, at most 15.
pub open spec fn beam_up(b: u32) -> u32 {
    if b + 1 > 15 { 15 } else { (b + 1) as u32 }
}

/// The beam size one step down, at least 1.
pub open spec fn beam_down(b: u32) -> u32 {
    if b <= 1 { 1 } else { (b - 1) as u32 }
}

/// The batch size one step up, at most 16.
pub open spec fn batch_up(b: u32) -> u32 {
    if b + 1 > 16 { 16 } else { (b + 1) as u32 }
}

/// The batch size one step down, at least 1.
pub open spec fn batch_down(b: u32) -> u32 {
    if b <= 1 { 1 } else { (b - 1) as u32 }
}

/// What a settings button changes: fullscreen flips, the model switches
/// between large-v3-turbo and large-v3, beam size moves within 1..=15 and
/// batch size within 1..=16, and the last two buttons restore the defaults
/// or close the popup.
pub fn settings_change(action: SettingsAction, cur: &SettingsView) -> (r: SettingsChange)
    requires
        action == SettingsAction::BeamUp ==> cur.beam_size < u32::MAX,
        action == SettingsAction::BatchUp ==> cur.batch_size < u32::MAX,
    ensures
        (match action {
            SettingsAction::ToggleFullscreen => r matches SettingsChange::Fullscreen(f) && f == !cur.fullscreen,
            SettingsAction::ToggleModel => r matches SettingsChange::WhisperModel(m) && m@ == next_model(cur.whisper_model@),
            SettingsAction::BeamUp => r matches SettingsChange::BeamSize(b) && b == beam_up(cur.beam_size),
            SettingsAction::BeamDown => r matches SettingsChange::BeamSize(b) && b == beam_down(cur.beam_size),
            SettingsAction::BatchUp => r matches SettingsChange::BatchSize(b) && b == batch_up(cur.batch_size),
            SettingsAction::BatchDown => r matches SettingsChange::BatchSize(b) && b == batch_down(cur.batch_size),
            SettingsAction::RestoreDefaults => r is RestoreDefaults,
            SettingsAction::Close => r is Close,
        }),
{
    match action {
        SettingsAction::ToggleFullscreen => SettingsChange::Fullscreen(!cur.fullscreen),
        SettingsAction::ToggleModel => {
            let turbo = crate::text::str_eq(cur.whisper_model.as_str(), "large-v3-turbo");
            if turbo {
                SettingsChange::WhisperModel("large-v3".to_owned())
            } else {
                SettingsChange::WhisperModel("large-v3-turbo".to_owned())
            }
        },
        SettingsAction::BeamUp => SettingsChange::BeamSize(if cur.beam_size + 1 > 15 { 15 } else { cur.beam_size + 1 }),
        SettingsAction::BeamDown => SettingsChange::BeamSize(if cur.beam_size <= 1 { 1 } else { cur.beam_size - 1 }),
        SettingsAction::BatchUp => SettingsChange::BatchSize(if cur.batch_size + 1 > 16 { 16 } else { cur.batch_size + 1 }),
        SettingsAction::BatchDown => SettingsChange::BatchSize(if cur.batch_size <= 1 { 1 } else { cur.batch_size - 1 }),
        SettingsAction::RestoreDefaults => SettingsChange::RestoreDefaults,
        SettingsAction::Close => SettingsChange::Close,
    }
}

/// The label of the window row.
pub fn window_mode_label(fullscreen: bool) -> (r: &'static str)
    ensures
        r@ == (if fullscreen { "Fullscreen"@ } else { "Windowed"@ }),
{
    if fullscreen { "Fullscreen" } else { "Windowed" }
}

/// Beam and batch sizes stay in their ranges under the size buttons, and
/// the model button, pressed twice, comes back to large-v3-turbo.
pub proof fn law_settings_in_range(b: u32)
    ensures
        beam_up(b) <= 15,
        beam_down(b) >= 1,
        batch_up(b) <= 16,
        batch_down(b) >= 1,
        1 <= b <= 15 ==> 1 <= beam_up(b) <= 15 && 1 <= beam_down(b) <= 15,
        1 <= b <= 16 ==> 1 <= batch_up(b) <= 16 && 1 <= batch_down(b) <= 16,
        next_model(next_model("large-v3-turbo"@)) == "large-v3-turbo"@,
{
    reveal_strlit("large-v3-turbo");
    reveal_strlit("large-v3");
    assert("large-v3"@ != "large-v3-turbo"@) by {
        assert("large-v3"@.len() != "large-v3-turbo"@.len());
    }
}

} // verus!
