//! The Spotify search overlay: its state, how key presses, clicks and
//! search results change it, and the texts of its rows and of the download
//! queue section.

use vstd::prelude::*;
use crate::downloader::{DownloadManager, DownloadPhase, enqueued, enqueued_all};
use crate::menu::printable;
use crate::spotify::{SpotifyAlbum, SpotifyTrack, join_strings, joined, same_track, texts};
use crate::text::{append_str, decimal, decimal_spec};

verus! {

/// The overlay's two result tabs.
#[derive(Debug, Clone, Copy, PartialEq, Eq, Structural)]
pub enum SpotifySearchTab {
    Tracks,
    Albums,
}

/// The overlay's state.
pub struct SpotifySearchState {
    pub query: String,
    pub active_tab: SpotifySearchTab,
    pub track_results: Vec<SpotifyTrack>,
    pub album_results: Vec<SpotifyAlbum>,
    pub searching: bool,
    pub error: Option<String>,
    pub dirty: bool,
    pub client_id: Option<String>,
    pub client_secret: Option<String>,
}

/// A row of the results area: the track or album at a position of the
/// current results.
#[derive(Debug, Clone, Copy, PartialEq, Eq, Structural)]
pub enum ResultRow {
    Track(usize),
    Album(usize),
}

/// The rows of the results area: one per result of the current tab, in
/// order.
pub open spec fn result_rows_spec(s: &SpotifySearchState) -> Seq<ResultRow> {
    match s.active_tab {
        SpotifySearchTab::Tracks => Seq::new(s.track_results@.len(), |i: int| ResultRow::Track(i as usize)),
        SpotifySearchTab::Albums => Seq::new(s.album_results@.len(), |i: int| ResultRow::Album(i as usize)),
    }
}

/// The result of a search run in the background.
pub enum SearchResult {
    Tracks(Result<Vec<SpotifyTrack>, String>),
    Albums(Result<Vec<SpotifyAlbum>, String>),
}

/// A key press in the overlay.
pub enum OverlayKey {
    Escape,
    Backspace,
    Enter,
    Tab,
    /// A key that produced text.
    Text(String),
    Other,
}

/// What the caller does after a key press.
#[derive(Debug, Clone, Copy, PartialEq, Eq, Structural)]
pub enum KeyOutcome {
    /// Close the overlay.
    Close,
    /// Run a search for the current query on the current tab.
    Search,
    /// Nothing more.
    Continue,
}

/// The other tab.
pub open spec fn other_tab(t: SpotifySearchTab) -> SpotifySearchTab {
    match t {
        SpotifySearchTab::Tracks => SpotifySearchTab::Albums,
        SpotifySearchTab::Albums => SpotifySearchTab::Tracks,
    }
}

/// Whether a search may start: the query is not empty and none is running.
pub open spec fn can_search(s: &SpotifySearchState) -> bool {
    s.query@.len() > 0 && !s.searching
}

impl SpotifySearchState {
    /// A fresh overlay state on the Tracks tab with the given credentials.
    pub fn new(client_id: Option<String>, client_secret: Option<String>) -> (r: Self)
        ensures
            r.query@.len() == 0,
            r.active_tab == SpotifySearchTab::Tracks,
            r.track_results@.len() == 0,
            r.album_results@.len() == 0,
            !r.searching,
            r.error is None,
            r.dirty,
            r.client_id == client_id,
            r.client_secret == client_secret,
    {
        SpotifySearchState {
            query: String::new(),
            active_tab: SpotifySearchTab::Tracks,
            track_results: Vec::new(),
            album_results: Vec::new(),
            searching: false,
            error: None,
            dirty: true,
            client_id,
            client_secret,
        }
    }

    /// Marks a search as started.
    fn start_search(&mut self)
        ensures
            final(self).client_id == old(self).client_id,
            final(self).client_secret == old(self).client_secret,
            final(self).searching,
            final(self).dirty,
            final(self).query == old(self).query,
            final(self).active_tab == old(self).active_tab,
            final(self).track_results == old(self).track_results,
            final(self).album_results == old(self).album_results,
            final(self).error == old(self).error,
    {
        self.searching = true;
        self.dirty = true;
    }

    /// Takes in a finished search: its results replace those of its tab and
    /// clear the error, or its error is shown.
    pub fn receive(&mut self, result: SearchResult)
        ensures
            !final(self).searching,
            final(self).dirty,
            final(self).query == old(self).query,
            final(self).active_tab == old(self).active_tab,
            (match result {
                SearchResult::Tracks(Ok(t)) => final(self).track_results == t && final(self).error is None
                    && final(self).album_results == old(self).album_results,
                SearchResult::Albums(Ok(a)) => final(self).album_results == a && final(self).error is None
                    && final(self).track_results == old(self).track_results,
                SearchResult::Tracks(Err(e)) | SearchResult::Albums(Err(e)) => final(self).error == Some(e)
                    && final(self).track_results == old(self).track_results
                    && final(self).album_results == old(self).album_results,
            }),
    {
        self.searching = false;
        match result {
            SearchResult::Tracks(Ok(t)) => {
                self.track_results = t;
                self.error = None;
            },
            SearchResult::Albums(Ok(a)) => {
                self.album_results = a;
                self.error = None;
            },
            SearchResult::Tracks(Err(e)) => {
                self.error = Some(e);
            },
            SearchResult::Albums(Err(e)) => {
                self.error = Some(e);
            },
        }
        self.dirty = true;
    }

    /// Switches to `tab`; searches again when a search may start, else
    /// only redraws. Returns whether to search.
    fn switch_tab(&mut self, tab: SpotifySearchTab) -> (search: bool)
        ensures
            final(self).client_id == old(self).client_id,
            final(self).client_secret == old(self).client_secret,
            search == can_search(&*old(self)),
            final(self).active_tab == tab,
            final(self).dirty,
            final(self).searching == (old(self).searching || search),
            final(self).query == old(self).query,
            final(self).track_results == old(self).track_results,
            final(self).album_results == old(self).album_results,
            final(self).error == old(self).error,
    {
        self.active_tab = tab;
        if !self.query.as_str().is_empty() && !self.searching {
            self.start_search();
            true
        } else {
            self.dirty = true;
            false
        }
    }

    /// One key press: Escape closes; Backspace drops the last character;
    /// Enter searches when a search may start; Tab switches to the other
    /// tab and searches when a search may start; typed text is appended
    /// without its control characters. Returns what to do next and whether
    /// the query changed.
    pub fn press_key(&mut self, key: OverlayKey) -> (r: (KeyOutcome, bool))
        ensures
            final(self).track_results == old(self).track_results,
            final(self).album_results == old(self).album_results,
            final(self).error == old(self).error,
            final(self).client_id == old(self).client_id,
            final(self).client_secret == old(self).client_secret,
            (match key {
                OverlayKey::Escape => r == (KeyOutcome::Close, false) && *final(self) == *old(self),
                OverlayKey::Backspace => final(self).active_tab == old(self).active_tab
                    && final(self).searching == old(self).searching
                    && final(self).dirty == old(self).dirty
                    && r.0 == KeyOutcome::Continue
                    && r.1 == (old(self).query@.len() > 0)
                    && final(self).query@ == (if r.1 { old(self).query@.drop_last() } else { old(self).query@ }),
                OverlayKey::Enter => final(self).active_tab == old(self).active_tab && final(self).query == old(self).query
                    && !r.1
                    && (if can_search(&*old(self)) {
                        r.0 == KeyOutcome::Search && final(self).searching && final(self).dirty
                    } else {
                        r.0 == KeyOutcome::Continue && final(self).searching == old(self).searching
                            && final(self).dirty == old(self).dirty
                    }),
                OverlayKey::Tab => final(self).active_tab == other_tab(old(self).active_tab)
                    && final(self).query == old(self).query
                    && final(self).dirty && !r.1
                    && (if can_search(&*old(self)) {
                        r.0 == KeyOutcome::Search && final(self).searching
                    } else {
                        r.0 == KeyOutcome::Continue && final(self).searching == old(self).searching
                    }),
                OverlayKey::Text(t) => final(self).active_tab == old(self).active_tab
                    && final(self).searching == old(self).searching
                    && final(self).dirty == old(self).dirty
                    && r.0 == KeyOutcome::Continue
                    && final(self).query@ == old(self).query@ + printable(t@)
                    && r.1 == (printable(t@).len() > 0),
                OverlayKey::Other => r == (KeyOutcome::Continue, false) && *final(self) == *old(self),
            }),
    {
        match key {
            OverlayKey::Escape => (KeyOutcome::Close, false),
            OverlayKey::Backspace => {
                let changed = crate::menu::apply_search_key(&mut self.query, crate::menu::SearchKey::Backspace);
                (KeyOutcome::Continue, changed)
            },
            OverlayKey::Enter => {
                if !self.query.as_str().is_empty() && !self.searching {
                    self.start_search();
                    (KeyOutcome::Search, false)
                } else {
                    (KeyOutcome::Continue, false)
                }
            },
            OverlayKey::Tab => {
                let tab = match self.active_tab {
                    SpotifySearchTab::Tracks => SpotifySearchTab::Albums,
                    SpotifySearchTab::Albums => SpotifySearchTab::Tracks,
                };
                if self.switch_tab(tab) {
                    (KeyOutcome::Search, false)
                } else {
                    (KeyOutcome::Continue, false)
                }
            },
            OverlayKey::Text(t) => {
                let changed = crate::menu::apply_search_key(&mut self.query, crate::menu::SearchKey::Text(t));
                (KeyOutcome::Continue, changed)
            },
            OverlayKey::Other => (KeyOutcome::Continue, false),
        }
    }

    /// A click on a tab button: switching to another tab searches again
    /// when a search may start. Returns whether to search.
    pub fn click_tab(&mut self, tab: SpotifySearchTab) -> (search: bool)
        ensures
            tab == old(self).active_tab ==> !search && *final(self) == *old(self),
            tab != old(self).active_tab ==> {
                &&& search == can_search(&*old(self))
                &&& final(self).active_tab == tab
                &&& final(self).dirty
                &&& final(self).searching == (old(self).searching || search)
                &&& final(self).query == old(self).query
                &&& final(self).track_results == old(self).track_results
                &&& final(self).album_results == old(self).album_results
            },
    {
        if tab == self.active_tab {
            return false;
        }
        self.switch_tab(tab)
    }

    /// A click on the download button of track result `idx`: that track is
    /// queued for download. Returns whether `idx` was a result.
    pub fn click_download_track(&mut self, dl: &mut DownloadManager, idx: usize) -> (r: bool)
        ensures
            r == (idx < old(self).track_results@.len()),
            final(self).query == old(self).query,
            final(self).track_results == old(self).track_results,
            final(self).album_results == old(self).album_results,
            final(self).active_tab == old(self).active_tab,
            final(self).searching == old(self).searching,
            r ==> final(self).dirty && exists|t: SpotifyTrack| same_track(t, old(self).track_results@[idx as int])
                && #[trigger] enqueued(&*old(dl), t, &*final(dl)),
            !r ==> *final(self) == *old(self) && *final(dl) == *old(dl),
    {
        if idx >= self.track_results.len() {
            return false;
        }
        let t = self.track_results[idx].copy();
        let ghost tg = t;
        dl.enqueue(t);
        self.dirty = true;
        assert(enqueued(&*old(dl), tg, &*dl));
        true
    }

    /// A click on the download button of album result `idx`: the id and
    /// name of the album whose tracks to fetch, if `idx` was a result.
    pub fn click_download_album(&self, idx: usize) -> (r: Option<(String, String)>)
        ensures
            r matches Some((id, name)) ==> (idx < self.album_results@.len() && id == self.album_results@[idx as int].id
                && name == self.album_results@[idx as int].name),
            r is None ==> idx >= self.album_results@.len(),
    {
        if idx < self.album_results.len() {
            Some((self.album_results[idx].id.clone(), self.album_results[idx].name.clone()))
        } else {
            None
        }
    }

    /// Takes in the tracks fetched for an album: they are queued for
    /// download, or the failure is shown.
    pub fn album_fetched(&mut self, dl: &mut DownloadManager, result: Result<Vec<SpotifyTrack>, String>)
        ensures
            final(self).dirty,
            final(self).query == old(self).query,
            final(self).track_results == old(self).track_results,
            final(self).album_results == old(self).album_results,
            (match result {
                Ok(ts) => enqueued_all(&*old(dl), ts@, &*final(dl)) && final(self).error == old(self).error,
                Err(e) => *final(dl) == *old(dl) && (final(self).error matches Some(m)
                    && m@ == "Album fetch failed: "@ + e@),
            }),
    {
        match result {
            Ok(ts) => {
                dl.enqueue_all(ts);
            },
            Err(e) => {
                let mut m = "Album fetch failed: ".to_owned();
                append_str(&mut m, e.as_str());
                self.error = Some(m);
            },
        }
        self.dirty = true;
    }

    /// The status shown beside the tabs: "Searching..." while a search
    /// runs, nothing otherwise.
    pub fn status_text(&self) -> (r: Option<&'static str>)
        ensures
            r is Some == self.searching,
            r matches Some(s) ==> s@ == "Searching..."@,
    {
        if self.searching { Some("Searching...") } else { None }
    }

    /// The rows of the results area: one per result of the current tab, in
    /// order, each naming its result's position.
    pub fn result_rows(&self) -> (r: Vec<ResultRow>)
        ensures
            r@ == result_rows_spec(self),
    {
        let mut r: Vec<ResultRow> = Vec::new();
        let n = match self.active_tab {
            SpotifySearchTab::Tracks => self.track_results.len(),
            SpotifySearchTab::Albums => self.album_results.len(),
        };
        let mut i: usize = 0;
        while i < n
            invariant
                i <= n,
                n == match self.active_tab {
                    SpotifySearchTab::Tracks => self.track_results@.len(),
                    SpotifySearchTab::Albums => self.album_results@.len(),
                },
                r@ == result_rows_spec(self).take(i as int),
            decreases n - i,
        {
            let row = match self.active_tab {
                SpotifySearchTab::Tracks => ResultRow::Track(i),
                SpotifySearchTab::Albums => ResultRow::Album(i),
            };
            r.push(row);
            i = i + 1;
            assert(r@ =~= result_rows_spec(self).take(i as int));
        }
        assert(result_rows_spec(self).take(n as int) =~= result_rows_spec(self));
        r
    }

    /// The note shown when the current tab found nothing for a query.
    pub fn empty_results_note(&self) -> (r: Option<&'static str>)
        ensures
            r matches Some(s) ==> s@ == (match self.active_tab {
                SpotifySearchTab::Tracks => "No tracks found"@,
                SpotifySearchTab::Albums => "No albums found"@,
            }),
            r is Some == (self.query@.len() > 0 && !self.searching && match self.active_tab {
                SpotifySearchTab::Tracks => self.track_results@.len() == 0,
                SpotifySearchTab::Albums => self.album_results@.len() == 0,
            }),
    {
        if self.query.as_str().is_empty() || self.searching {
            return None;
        }
        match self.active_tab {
            SpotifySearchTab::Tracks => if self.track_results.len() == 0 { Some("No tracks found") } else { None },
            SpotifySearchTab::Albums => if self.album_results.len() == 0 { Some("No albums found") } else { None },
        }
    }
}

/// The state the overlay opens with, using the configured credentials.
pub fn spawn_spotify_search(client_id: Option<String>, client_secret: Option<String>) -> (r: SpotifySearchState)
    ensures
        r.query@.len() == 0,
        r.active_tab == SpotifySearchTab::Tracks,
        r.track_results@.len() == 0,
        r.album_results@.len() == 0,
        !r.searching,
        r.error is None,
        r.dirty,
        r.client_id == client_id,
        r.client_secret == client_secret,
{
    SpotifySearchState::new(client_id, client_secret)
}

/// What the search box shows.
pub fn search_box_text(query: &str) -> (r: String)
    ensures
        r@ == (if query@.len() == 0 { "Type to search..."@ } else { query@ }),
{
    if query.is_empty() { "Type to search...".to_owned() } else { query.to_owned() }
}

/// The label of a tab.
pub fn tab_label(tab: SpotifySearchTab) -> (r: &'static str)
    ensures
        r@ == (match tab {
            SpotifySearchTab::Tracks => "Tracks"@,
            SpotifySearchTab::Albums => "Albums"@,
        }),
{
    match tab {
        SpotifySearchTab::Tracks => "Tracks",
        SpotifySearchTab::Albums => "Albums",
    }
}

/// A number of seconds below 60 as two digits.
pub open spec fn two_digits(n: nat) -> Seq<char> {
    if n < 10 { seq!['0'] + decimal_spec(n) } else { decimal_spec(n) }
}

/// The detail line of a track row: artists, album, and length as m:ss.
pub open spec fn track_detail_spec(t: SpotifyTrack) -> Seq<char> {
    let secs = t.duration_ms / 1000;
    joined(texts(t.artists@), ", "@) + " · "@ + t.album_name@ + " · "@ + decimal_spec((secs / 60) as nat)
        + ":"@ + two_digits((secs % 60) as nat)
}

/// The detail line of a track row.
pub fn track_detail(t: &SpotifyTrack) -> (r: String)
    ensures
        r@ == track_detail_spec(*t),
{
    let secs = t.duration_ms / 1000;
    let mins = secs / 60;
    let rem = secs % 60;
    let mut s = join_strings(&t.artists, ", ");
    append_str(&mut s, " · ");
    append_str(&mut s, t.album_name.as_str());
    append_str(&mut s, " · ");
    let m = decimal(mins);
    append_str(&mut s, m.as_str());
    append_str(&mut s, ":");
    if rem < 10 {
        append_str(&mut s, "0");
    }
    let r = decimal(rem);
    append_str(&mut s, r.as_str());
    proof {
        reveal_strlit("0");
    }
    assert(s@ =~= track_detail_spec(*t));
    s
}

/// The detail line of an album row: artists, track count, release date.
pub open spec fn album_detail_spec(a: SpotifyAlbum) -> Seq<char> {
    joined(texts(a.artists@), ", "@) + " · "@ + decimal_spec(a.total_tracks as nat) + " tracks · "@ + a.release_date@
}

/// The detail line of an album row.
pub fn album_detail(a: &SpotifyAlbum) -> (r: String)
    ensures
        r@ == album_detail_spec(*a),
{
    let mut s = join_strings(&a.artists, ", ");
    append_str(&mut s, " · ");
    let n = decimal(a.total_tracks as u64);
    append_str(&mut s, n.as_str());
    append_str(&mut s, " tracks · ");
    append_str(&mut s, a.release_date.as_str());
    s
}

/// The badge a track row shows for its download status; none means the
/// row shows its download button.
pub open spec fn track_badge_spec(status: Option<DownloadPhase>) -> Option<Seq<char>> {
    match status {
        Some(DownloadPhase::Done) => Some("Ready"@),
        Some(DownloadPhase::Failed) => Some("Failed"@),
        Some(DownloadPhase::Queued) => Some("Queued"@),
        Some(_) => Some("DL..."@),
        None => None,
    }
}

/// The badge a track row shows for its download status.
pub fn track_badge(status: Option<DownloadPhase>) -> (r: Option<&'static str>)
    ensures
        r matches Some(s) ==> track_badge_spec(status) == Some(s@),
        r is None ==> track_badge_spec(status) is None,
{
    match status {
        Some(DownloadPhase::Done) => Some("Ready"),
        Some(DownloadPhase::Failed) => Some("Failed"),
        Some(DownloadPhase::Queued) => Some("Queued"),
        Some(_) => Some("DL..."),
        None => None,
    }
}

/// How a line of the download section is colored.
#[derive(Debug, Clone, Copy, PartialEq, Eq, Structural)]
pub enum QueueLineKind {
    Ready,
    Failed,
    Working,
    Waiting,
}

/// A line of the download section.
pub struct QueueLine {
    pub text: String,
    pub kind: QueueLineKind,
}

/// The first artist of a track, or "?".
pub open spec fn first_artist_or_mark(t: SpotifyTrack) -> Seq<char> {
    if t.artists@.len() > 0 { t.artists@[0]@ } else { "?"@ }
}

/// "<first artist> - <name>".
pub open spec fn artist_dash_name(t: SpotifyTrack) -> Seq<char> {
    first_artist_or_mark(t) + " - "@ + t.name@
}

fn artist_dash_name_exec(t: &SpotifyTrack) -> (r: String)
    ensures
        r@ == artist_dash_name(*t),
{
    let mut s = if t.artists.len() > 0 { t.artists[0].clone() } else { "?".to_owned() };
    append_str(&mut s, " - ");
    append_str(&mut s, t.name.as_str());
    s
}

/// The line of the active download.
pub open spec fn active_line_spec(t: SpotifyTrack, phase: DownloadPhase, percent: u32) -> (Seq<char>, QueueLineKind) {
    let mark = if phase == DownloadPhase::Done { "OK "@ } else { ">> "@ };
    let kind = match phase {
        DownloadPhase::Done => QueueLineKind::Ready,
        DownloadPhase::Failed => QueueLineKind::Failed,
        _ => QueueLineKind::Working,
    };
    (mark + artist_dash_name(t) + " ("@ + decimal_spec(percent as nat) + "%)"@, kind)
}

/// The lines of the download section: the active download, every waiting
/// one, the last three finished and the last two failed, newest first.
pub open spec fn queue_lines_spec(dl: &DownloadManager) -> Seq<(Seq<char>, QueueLineKind)> {
    let active = match dl.active {
        Some(a) => seq![active_line_spec(a.request.track, a.phase, a.percent)],
        None => Seq::empty(),
    };
    let waiting = dl.queue@.map_values(|r: crate::downloader::DownloadRequest| (".. "@ + artist_dash_name(r.track), QueueLineKind::Waiting));
    let c = dl.completed@;
    let done_n: int = if c.len() < 3 { c.len() as int } else { 3 };
    let done = Seq::new(done_n as nat, |k: int| ("OK "@ + artist_dash_name(c[c.len() - 1 - k].track), QueueLineKind::Ready));
    let f = dl.failed@;
    let failed_n: int = if f.len() < 2 { f.len() as int } else { 2 };
    let failed = Seq::new(failed_n as nat, |k: int| ("!! "@ + artist_dash_name(f[f.len() - 1 - k].0) + " ("@ + f[f.len() - 1 - k].1@ + ")"@, QueueLineKind::Failed));
    active + waiting + done + failed
}

/// A line as text and kind.
pub open spec fn line_view(l: QueueLine) -> (Seq<char>, QueueLineKind) {
    (l.text@, l.kind)
}

/// The lines of the download section.
pub fn queue_lines(dl: &DownloadManager) -> (r: Vec<QueueLine>)
    ensures
        r@.map_values(|l: QueueLine| line_view(l)) == queue_lines_spec(dl),
{
    let mut r: Vec<QueueLine> = Vec::new();
    let ghost spec = queue_lines_spec(dl);
    match &dl.active {
        Some(a) => {
            let mut s = if a.phase == DownloadPhase::Done { "OK ".to_owned() } else { ">> ".to_owned() };
            let n = artist_dash_name_exec(&a.request.track);
            append_str(&mut s, n.as_str());
            append_str(&mut s, " (");
            let d = decimal(a.percent as u64);
            append_str(&mut s, d.as_str());
            append_str(&mut s, "%)");
            let kind = match a.phase {
                DownloadPhase::Done => QueueLineKind::Ready,
                DownloadPhase::Failed => QueueLineKind::Failed,
                _ => QueueLineKind::Working,
            };
            r.push(QueueLine { text: s, kind });
        },
        None => {},
    }
    let ghost active_part = r@.map_values(|l: QueueLine| line_view(l));
    let mut i: usize = 0;
    while i < dl.queue.len()
        invariant
            i <= dl.queue@.len(),
            r@.map_values(|l: QueueLine| line_view(l)) == active_part + dl.queue@.take(i as int).map_values(
                |q: crate::downloader::DownloadRequest| (".. "@ + artist_dash_name(q.track), QueueLineKind::Waiting)),
        decreases dl.queue@.len() - i,
    {
        let mut s = ".. ".to_owned();
        let n = artist_dash_name_exec(&dl.queue[i].track);
        append_str(&mut s, n.as_str());
        let ghost prev = r@;
        let line = QueueLine { text: s, kind: QueueLineKind::Waiting };
        assert(line_view(line) == (".. "@ + artist_dash_name(dl.queue@[i as int].track), QueueLineKind::Waiting));
        r.push(line);
        assert(r@.map_values(|l: QueueLine| line_view(l)) =~= prev.map_values(|l: QueueLine| line_view(l)).push(line_view(line)));
        assert(dl.queue@.take(i + 1) =~= dl.queue@.take(i as int).push(dl.queue@[i as int]));
        i = i + 1;
        assert(r@.map_values(|l: QueueLine| line_view(l)) =~= active_part + dl.queue@.take(i as int).map_values(
            |q: crate::downloader::DownloadRequest| (".. "@ + artist_dash_name(q.track), QueueLineKind::Waiting)));
    }
    assert(dl.queue@.take(i as int) =~= dl.queue@);
    let ghost waiting_part = r@.map_values(|l: QueueLine| line_view(l));
    let c = dl.completed.len();
    let done_n: usize = if c < 3 { c } else { 3 };
    let mut k: usize = 0;
    while k < done_n
        invariant
            k <= done_n,
            c == dl.completed@.len(),
            done_n == (if c < 3 { c } else { 3 }),
            r@.map_values(|l: QueueLine| line_view(l)) == waiting_part + Seq::new(k as nat,
                |j: int| ("OK "@ + artist_dash_name(dl.completed@[c - 1 - j].track), QueueLineKind::Ready)),
        decreases done_n - k,
    {
        let mut s = "OK ".to_owned();
        let n = artist_dash_name_exec(&dl.completed[c - 1 - k].track);
        append_str(&mut s, n.as_str());
        let ghost prev = r@;
        let line = QueueLine { text: s, kind: QueueLineKind::Ready };
        r.push(line);
        assert(r@.map_values(|l: QueueLine| line_view(l)) =~= prev.map_values(|l: QueueLine| line_view(l)).push(line_view(line)));
        k = k + 1;
        assert(r@.map_values(|l: QueueLine| line_view(l)) =~= waiting_part + Seq::new(k as nat,
            |j: int| ("OK "@ + artist_dash_name(dl.completed@[c - 1 - j].track), QueueLineKind::Ready)));
    }
    let ghost done_part = r@.map_values(|l: QueueLine| line_view(l));
    let f = dl.failed.len();
    let failed_n: usize = if f < 2 { f } else { 2 };
    let mut k: usize = 0;
    while k < failed_n
        invariant
            k <= failed_n,
            f == dl.failed@.len(),
            failed_n == (if f < 2 { f } else { 2 }),
            r@.map_values(|l: QueueLine| line_view(l)) == done_part + Seq::new(k as nat,
                |j: int| ("!! "@ + artist_dash_name(dl.failed@[f - 1 - j].0) + " ("@ + dl.failed@[f - 1 - j].1@ + ")"@, QueueLineKind::Failed)),
        decreases failed_n - k,
    {
        let mut s = "!! ".to_owned();
        let n = artist_dash_name_exec(&dl.failed[f - 1 - k].0);
        append_str(&mut s, n.as_str());
        append_str(&mut s, " (");
        append_str(&mut s, dl.failed[f - 1 - k].1.as_str());
        append_str(&mut s, ")");
        let ghost prev = r@;
        let line = QueueLine { text: s, kind: QueueLineKind::Failed };
        r.push(line);
        assert(r@.map_values(|l: QueueLine| line_view(l)) =~= prev.map_values(|l: QueueLine| line_view(l)).push(line_view(line)));
        k = k + 1;
        assert(r@.map_values(|l: QueueLine| line_view(l)) =~= done_part + Seq::new(k as nat,
            |j: int| ("!! "@ + artist_dash_name(dl.failed@[f - 1 - j].0) + " ("@ + dl.failed@[f - 1 - j].1@ + ")"@, QueueLineKind::Failed)));
    }
    assert(r@.map_values(|l: QueueLine| line_view(l)) =~= spec);
    r
}

/// Whether the download section shows: when anything is active, waiting,
/// finished or failed.
pub fn shows_queue_section(dl: &DownloadManager) -> (r: bool)
    ensures
        r == (dl.active is Some || dl.queue@.len() > 0 || dl.completed@.len() > 0 || dl.failed@.len() > 0),
{
    dl.active.is_some() || dl.queue.len() > 0 || dl.completed.len() > 0 || dl.failed.len() > 0
}

} // verus!
