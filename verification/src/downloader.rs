//! The download queue: which Spotify tracks wait, which one is being
//! fetched, and which finished or failed. No track id is ever waiting or
//! being fetched twice, and a finished track is never queued again.

use vstd::prelude::*;
use crate::spotify::SpotifyTrack;
use crate::text::str_eq;

verus! {

/// Where a download stands.
#[derive(Debug, Clone, Copy, PartialEq, Eq, Structural)]
pub enum DownloadPhase {
    Queued,
    FetchingYtdlp,
    SearchingYoutube,
    Downloading,
    Converting,
    Tagging,
    AddingToLibrary,
    Done,
    Failed,
}

/// The text shown for each phase.
pub open spec fn phase_label(p: DownloadPhase) -> Seq<char> {
    match p {
        DownloadPhase::Queued => "Queued"@,
        DownloadPhase::FetchingYtdlp => "Installing yt-dlp..."@,
        DownloadPhase::SearchingYoutube => "Searching YouTube..."@,
        DownloadPhase::Downloading => "Downloading..."@,
        DownloadPhase::Converting => "Converting..."@,
        DownloadPhase::Tagging => "Tagging metadata..."@,
        DownloadPhase::AddingToLibrary => "Adding to library..."@,
        DownloadPhase::Done => "Done"@,
        DownloadPhase::Failed => "Failed"@,
    }
}

impl DownloadPhase {
    /// The text shown for this phase.
    pub fn label(&self) -> (r: &'static str)
        ensures
            r@ == phase_label(*self),
    {
        match self {
            DownloadPhase::Queued => "Queued",
            DownloadPhase::FetchingYtdlp => "Installing yt-dlp...",
            DownloadPhase::SearchingYoutube => "Searching YouTube...",
            DownloadPhase::Downloading => "Downloading...",
            DownloadPhase::Converting => "Converting...",
            DownloadPhase::Tagging => "Tagging metadata...",
            DownloadPhase::AddingToLibrary => "Adding to library...",
            DownloadPhase::Done => "Done",
            DownloadPhase::Failed => "Failed",
        }
    }
}

/// A track waiting to be downloaded.
pub struct DownloadRequest {
    pub track: SpotifyTrack,
}

/// The download in progress and the phase and whole percentage its worker
/// last reported.
pub struct ActiveDownload {
    pub request: DownloadRequest,
    pub phase: DownloadPhase,
    pub percent: u32,
}

/// A finished download and the file it produced.
pub struct CompletedDownload {
    pub track: SpotifyTrack,
    pub path: String,
}

/// The download queue.
pub struct DownloadManager {
    pub queue: std::collections::VecDeque<DownloadRequest>,
    pub active: Option<ActiveDownload>,
    pub completed: Vec<CompletedDownload>,
    pub failed: Vec<(SpotifyTrack, String)>,
}

/// The ids of a list of tracks.
pub open spec fn track_ids(ts: Seq<SpotifyTrack>) -> Seq<Seq<char>> {
    ts.map_values(|t: SpotifyTrack| t.id@)
}

/// A list of tracks as download requests.
pub open spec fn requests_of(ts: Seq<SpotifyTrack>) -> Seq<DownloadRequest> {
    ts.map_values(|t: SpotifyTrack| DownloadRequest { track: t })
}

/// The tracks of `ts` that queuing them one by one into `m` lets in: those
/// that `m` does not block and whose id did not come earlier in the list.
pub open spec fn admitted(m: &DownloadManager, ts: Seq<SpotifyTrack>) -> Seq<SpotifyTrack>
    decreases ts.len(),
{
    if ts.len() == 0 {
        Seq::empty()
    } else {
        let prev = admitted(m, ts.drop_last());
        let t = ts.last();
        if m.blocks(t.id@) || track_ids(prev).contains(t.id@) {
            prev
        } else {
            prev.push(t)
        }
    }
}

/// `after` is `before` with the admitted tracks of `ts` queued in order.
pub open spec fn enqueued_all(before: &DownloadManager, ts: Seq<SpotifyTrack>, after: &DownloadManager) -> bool {
    &&& after.queue@ == before.queue@ + requests_of(admitted(before, ts))
    &&& after.active == before.active
    &&& after.completed == before.completed
    &&& after.failed == before.failed
}

proof fn lemma_admitted(m: &DownloadManager, ts: Seq<SpotifyTrack>)
    ensures
        track_ids(admitted(m, ts)).no_duplicates(),
        forall|i: int| 0 <= i < admitted(m, ts).len() ==> !m.blocks(#[trigger] track_ids(admitted(m, ts))[i]),
    decreases ts.len(),
{
    if ts.len() > 0 {
        lemma_admitted(m, ts.drop_last());
        let prev = admitted(m, ts.drop_last());
        let t = ts.last();
        if !(m.blocks(t.id@) || track_ids(prev).contains(t.id@)) {
            assert(track_ids(prev.push(t)) =~= track_ids(prev).push(t.id@));
            let ids = track_ids(prev.push(t));
            assert forall|i: int, j: int| 0 <= i < ids.len() && 0 <= j < ids.len() && i != j
                implies ids[i] != ids[j] by {
                if i < prev.len() && j < prev.len() {
                } else if i < prev.len() {
                    assert(track_ids(prev)[i] == ids[i]);
                    assert(track_ids(prev).contains(ids[i]));
                } else if j < prev.len() {
                    assert(track_ids(prev)[j] == ids[j]);
                    assert(track_ids(prev).contains(ids[j]));
                }
            }
            assert forall|i: int| 0 <= i < prev.push(t).len() implies !m.blocks(#[trigger] track_ids(prev.push(t))[i]) by {
                if i < prev.len() {
                    assert(track_ids(prev)[i] == ids[i]);
                }
            }
        }
    }
}

proof fn lemma_contains_concat(a: Seq<Seq<char>>, b: Seq<Seq<char>>, x: Seq<char>)
    ensures
        (a + b).contains(x) == (a.contains(x) || b.contains(x)),
{
    if a.contains(x) {
        let i = choose|i: int| 0 <= i < a.len() && a[i] == x;
        assert((a + b)[i] == x);
    }
    if b.contains(x) {
        let i = choose|i: int| 0 <= i < b.len() && b[i] == x;
        assert((a + b)[a.len() + i] == x);
    }
    if (a + b).contains(x) {
        let i = choose|i: int| 0 <= i < (a + b).len() && (a + b)[i] == x;
        if i < a.len() {
            assert(a[i] == x);
        } else {
            assert(b[i - a.len()] == x);
        }
    }
}

proof fn lemma_ids_of_requests(q: Seq<DownloadRequest>, extra: Seq<DownloadRequest>)
    ensures
        (q + extra).map_values(|r: DownloadRequest| r.track.id@)
            == q.map_values(|r: DownloadRequest| r.track.id@) + extra.map_values(|r: DownloadRequest| r.track.id@),
{
    assert((q + extra).map_values(|r: DownloadRequest| r.track.id@)
        =~= q.map_values(|r: DownloadRequest| r.track.id@) + extra.map_values(|r: DownloadRequest| r.track.id@));
}

proof fn lemma_requests_ids(ts: Seq<SpotifyTrack>)
    ensures
        requests_of(ts).map_values(|r: DownloadRequest| r.track.id@) == track_ids(ts),
{
    assert(requests_of(ts).map_values(|r: DownloadRequest| r.track.id@) =~= track_ids(ts));
}

/// `after` is `before` with `track` queued, unless `before` blocks its id,
/// in which case nothing changes.
pub open spec fn enqueued(before: &DownloadManager, track: SpotifyTrack, after: &DownloadManager) -> bool {
    if before.blocks(track.id@) {
        *after == *before
    } else {
        &&& after.queue@ == before.queue@.push(DownloadRequest { track })
        &&& after.active == before.active
        &&& after.completed == before.completed
        &&& after.failed == before.failed
    }
}

/// `after` is `before` with the front of the queue made the active
/// download (phase: searching YouTube), when nothing was active and the
/// queue was not empty; otherwise nothing changes.
pub open spec fn started_next(before: &DownloadManager, after: &DownloadManager) -> bool {
    if before.active.is_none() && before.queue@.len() > 0 {
        &&& after.queue@ == before.queue@.subrange(1, before.queue@.len() as int)
        &&& after.active == Some(ActiveDownload { request: before.queue@[0], phase: DownloadPhase::SearchingYoutube, percent: 0 })
        &&& after.completed == before.completed
        &&& after.failed == before.failed
    } else {
        *after == *before
    }
}

/// `after` is `before` with the active download retired: on `Ok(path)` it
/// is recorded as finished with that path, on `Err(e)` as failed with that
/// message. Nothing changes when nothing is active.
pub open spec fn finished_active(
    before: &DownloadManager,
    outcome: Result<String, String>,
    after: &DownloadManager,
) -> bool {
    match before.active {
        None => *after == *before,
        Some(a) => {
            &&& after.queue == before.queue
            &&& after.active.is_none()
            &&& match outcome {
                Ok(path) => {
                    &&& after.completed@ == before.completed@.push(CompletedDownload { track: a.request.track, path })
                    &&& after.failed == before.failed
                },
                Err(e) => {
                    &&& after.completed == before.completed
                    &&& after.failed@ == before.failed@.push((a.request.track, e))
                },
            }
        },
    }
}

impl DownloadManager {
    /// Ids of the waiting tracks, front first.
    pub open spec fn queue_ids(&self) -> Seq<Seq<char>> {
        self.queue@.map_values(|r: DownloadRequest| r.track.id@)
    }

    /// Ids of the finished tracks, oldest first.
    pub open spec fn completed_ids(&self) -> Seq<Seq<char>> {
        self.completed@.map_values(|c: CompletedDownload| c.track.id@)
    }

    /// Ids of the failed tracks, oldest first.
    pub open spec fn failed_ids(&self) -> Seq<Seq<char>> {
        self.failed@.map_values(|f: (SpotifyTrack, String)| f.0.id@)
    }

    /// Whether the track `id` is the one being downloaded.
    pub open spec fn active_is(&self, id: Seq<char>) -> bool {
        self.active matches Some(a) && a.request.track.id@ == id
    }

    pub open spec fn queued_or_active(&self, id: Seq<char>) -> bool {
        self.queue_ids().contains(id) || self.active_is(id)
    }

    pub open spec fn completed_has(&self, id: Seq<char>) -> bool {
        self.completed_ids().contains(id)
    }

    pub open spec fn failed_has(&self, id: Seq<char>) -> bool {
        self.failed_ids().contains(id)
    }

    /// Whether `enqueue` turns the track `id` away.
    pub open spec fn blocks(&self, id: Seq<char>) -> bool {
        self.queued_or_active(id) || self.completed_has(id)
    }

    /// The status shown for a track: finished, then failed, then the active
    /// download's phase, then waiting; none when the queue never saw it.
    pub open spec fn status_spec(&self, id: Seq<char>) -> Option<DownloadPhase> {
        if self.completed_has(id) {
            Some(DownloadPhase::Done)
        } else if self.failed_has(id) {
            Some(DownloadPhase::Failed)
        } else if self.active_is(id) {
            Some(self.active.unwrap().phase)
        } else if self.queue_ids().contains(id) {
            Some(DownloadPhase::Queued)
        } else {
            None
        }
    }

    /// Well-formed: waiting ids are distinct, finished ids are distinct, and
    /// no id is in two of waiting, active and finished.
    pub open spec fn wf(&self) -> bool {
        &&& self.queue_ids().no_duplicates()
        &&& self.completed_ids().no_duplicates()
        &&& forall|i: int| 0 <= i < self.queue@.len() ==> !self.active_is(#[trigger] self.queue_ids()[i])
        &&& forall|i: int| 0 <= i < self.completed@.len() ==> !self.active_is(#[trigger] self.completed_ids()[i])
        &&& forall|i: int| 0 <= i < self.completed@.len() ==> !self.queue_ids().contains(#[trigger] self.completed_ids()[i])
    }

    /// An empty queue.
    pub fn new() -> (r: Self)
        ensures
            r.queue@.len() == 0,
            r.active.is_none(),
            r.completed@.len() == 0,
            r.failed@.len() == 0,
            r.wf(),
    {
        let r = DownloadManager {
            queue: std::collections::VecDeque::new(),
            active: None,
            completed: Vec::new(),
            failed: Vec::new(),
        };
        assert(r.queue_ids() =~= Seq::<Seq<char>>::empty());
        assert(r.completed_ids() =~= Seq::<Seq<char>>::empty());
        r
    }

    /// Whether the track is waiting or being downloaded.
    pub fn is_queued_or_active(&self, spotify_id: &str) -> (r: bool)
        ensures
            r == self.queued_or_active(spotify_id@),
    {
        let mut i: usize = 0;
        while i < self.queue.len()
            invariant
                i <= self.queue@.len(),
                forall|j: int| 0 <= j < i ==> self.queue_ids()[j] != spotify_id@,
            decreases self.queue@.len() - i,
        {
            if str_eq(self.queue[i].track.id.as_str(), spotify_id) {
                assert(self.queue_ids()[i as int] == spotify_id@);
                return true;
            }
            i = i + 1;
        }
        assert(!self.queue_ids().contains(spotify_id@));
        match &self.active {
            Some(a) => str_eq(a.request.track.id.as_str(), spotify_id),
            None => false,
        }
    }

    /// Whether the track finished downloading.
    pub fn is_completed(&self, spotify_id: &str) -> (r: bool)
        ensures
            r == self.completed_has(spotify_id@),
    {
        let mut i: usize = 0;
        while i < self.completed.len()
            invariant
                i <= self.completed@.len(),
                forall|j: int| 0 <= j < i ==> self.completed_ids()[j] != spotify_id@,
            decreases self.completed@.len() - i,
        {
            if str_eq(self.completed[i].track.id.as_str(), spotify_id) {
                assert(self.completed_ids()[i as int] == spotify_id@);
                return true;
            }
            i = i + 1;
        }
        false
    }

    /// Whether a download of the track failed.
    pub fn is_failed(&self, spotify_id: &str) -> (r: bool)
        ensures
            r == self.failed_has(spotify_id@),
    {
        let mut i: usize = 0;
        while i < self.failed.len()
            invariant
                i <= self.failed@.len(),
                forall|j: int| 0 <= j < i ==> self.failed_ids()[j] != spotify_id@,
            decreases self.failed@.len() - i,
        {
            if str_eq(self.failed[i].0.id.as_str(), spotify_id) {
                assert(self.failed_ids()[i as int] == spotify_id@);
                return true;
            }
            i = i + 1;
        }
        false
    }

    /// Queues a track unless it is already waiting, active or finished.
    pub fn enqueue(&mut self, track: SpotifyTrack)
        ensures
            enqueued(&*old(self), track, &*final(self)),
    {
        if self.is_queued_or_active(track.id.as_str()) || self.is_completed(track.id.as_str()) {
            return;
        }
        self.queue.push_back(DownloadRequest { track });
    }

    /// Queues each track in order, as `enqueue` does one by one.
    pub fn enqueue_all(&mut self, tracks: Vec<SpotifyTrack>)
        ensures
            enqueued_all(&*old(self), tracks@, &*final(self)),
    {
        let ghost orig = tracks@;
        for t in it: tracks.into_iter()
            invariant
                it.seq() == orig,
                self.queue@ == old(self).queue@ + requests_of(admitted(&*old(self), orig.take(it.index() as int))),
                self.active == old(self).active,
                self.completed == old(self).completed,
                self.failed == old(self).failed,
        {
            let ghost i = it.index() as int;
            let ghost prev = admitted(&*old(self), orig.take(i));
            proof {
                assert(orig.take(i + 1).drop_last() =~= orig.take(i));
                assert(orig.take(i + 1).last() == t);
                lemma_ids_of_requests(old(self).queue@, requests_of(prev));
                lemma_requests_ids(prev);
            }
            proof {
                assert(self.queue_ids() == old(self).queue_ids() + track_ids(prev));
                lemma_contains_concat(old(self).queue_ids(), track_ids(prev), t.id@);
                assert(self.blocks(t.id@) == (old(self).blocks(t.id@) || track_ids(prev).contains(t.id@)));
                assert(admitted(&*old(self), orig.take(i + 1)) == (if old(self).blocks(t.id@) || track_ids(prev).contains(t.id@) { prev } else { prev.push(t) }));
            }
            self.enqueue(t);
            proof {
                if !old(self).blocks(t.id@) && !track_ids(prev).contains(t.id@) {
                    assert(requests_of(prev.push(t)) =~= requests_of(prev).push(DownloadRequest { track: t }));
                    assert(self.queue@ =~= old(self).queue@ + requests_of(prev.push(t)));
                }
            }
        }
        assert(orig.take(orig.len() as int) =~= orig);
    }

    /// Waiting downloads plus the active one.
    pub open spec fn total_spec(&self) -> int {
        self.queue@.len() + if self.active.is_some() { 1int } else { 0 }
    }

    /// The status shown for a track.
    pub fn status_of(&self, spotify_id: &str) -> (r: Option<DownloadPhase>)
        ensures
            r == self.status_spec(spotify_id@),
    {
        if self.is_completed(spotify_id) {
            return Some(DownloadPhase::Done);
        }
        if self.is_failed(spotify_id) {
            return Some(DownloadPhase::Failed);
        }
        if let Some(active) = &self.active {
            if str_eq(active.request.track.id.as_str(), spotify_id) {
                return Some(active.phase);
            }
        }
        let mut i: usize = 0;
        while i < self.queue.len()
            invariant
                i <= self.queue@.len(),
                !self.completed_has(spotify_id@),
                !self.failed_has(spotify_id@),
                !self.active_is(spotify_id@),
                forall|j: int| 0 <= j < i ==> self.queue_ids()[j] != spotify_id@,
            decreases self.queue@.len() - i,
        {
            if str_eq(self.queue[i].track.id.as_str(), spotify_id) {
                assert(self.queue_ids()[i as int] == spotify_id@);
                return Some(DownloadPhase::Queued);
            }
            i = i + 1;
        }
        None
    }

    /// How many downloads are waiting or in progress.
    pub fn total_queued(&self) -> (r: usize)
        requires
            self.queue@.len() < usize::MAX,
        ensures
            r == self.total_spec(),
    {
        self.queue.len() + if self.active.is_some() { 1 } else { 0 }
    }

    /// Makes the front of the queue the active download when nothing is
    /// active; returns whether it did.
    pub fn start_next(&mut self) -> (started: bool)
        ensures
            started == (old(self).active.is_none() && old(self).queue@.len() > 0),
            started_next(&*old(self), &*final(self)),
    {
        if self.active.is_some() || self.queue.len() == 0 {
            return false;
        }
        let request = self.queue.pop_front().unwrap();
        self.active = Some(ActiveDownload { request, phase: DownloadPhase::SearchingYoutube, percent: 0 });
        true
    }

    /// Records the phase and percentage the active download's worker
    /// reports.
    pub fn set_active_progress(&mut self, phase: DownloadPhase, percent: u32)
        ensures
            final(self).queue == old(self).queue,
            final(self).completed == old(self).completed,
            final(self).failed == old(self).failed,
            final(self).active == (match old(self).active {
                Some(a) => Some(ActiveDownload { request: a.request, phase, percent }),
                None => None,
            }),
    {
        if let Some(a) = self.active.take() {
            self.active = Some(ActiveDownload { request: a.request, phase, percent });
        }
    }

    /// Whether the active download reported that it is done or failed.
    pub fn active_finished(&self) -> (r: bool)
        ensures
            r == (self.active matches Some(a) && (a.phase == DownloadPhase::Done || a.phase == DownloadPhase::Failed)),
    {
        match &self.active {
            Some(a) => a.phase == DownloadPhase::Done || a.phase == DownloadPhase::Failed,
            None => false,
        }
    }

    /// Retires the active download with the outcome of its worker.
    pub fn finish_active(&mut self, outcome: Result<String, String>)
        ensures
            finished_active(&*old(self), outcome, &*final(self)),
    {
        if let Some(a) = self.active.take() {
            match outcome {
                Ok(path) => self.completed.push(CompletedDownload { track: a.request.track, path }),
                Err(e) => self.failed.push((a.request.track, e)),
            }
        }
    }
}

/// What a download worker last reported: its phase and percentage, the
/// error it failed with, and the file it writes to.
pub struct WorkerReport {
    pub phase: DownloadPhase,
    pub percent: u32,
    pub error: Option<String>,
    pub path: String,
}

/// The message a failed download is recorded with: the worker's error, or
/// "Download failed" when it gave none.
pub open spec fn failure_message(error: Option<String>) -> Seq<char> {
    match error {
        Some(e) => e@,
        None => "Download failed"@,
    }
}

impl DownloadManager {
    /// Takes in the active worker's report: a report of the done phase
    /// retires the download as finished with the report's file, one of the
    /// failed phase retires it as failed with the report's error; any other
    /// report becomes the active download's progress. Returns whether the
    /// download was retired.
    pub fn poll_active_download(&mut self, report: WorkerReport) -> (retired: bool)
        ensures
            retired == (old(self).active is Some
                && (report.phase == DownloadPhase::Done || report.phase == DownloadPhase::Failed)),
            !retired ==> final(self).queue == old(self).queue && final(self).completed == old(self).completed
                && final(self).failed == old(self).failed
                && final(self).active == (match old(self).active {
                    Some(a) => Some(ActiveDownload { request: a.request, phase: report.phase, percent: report.percent }),
                    None => None,
                }),
            retired && report.phase == DownloadPhase::Done ==> finished_active(&*old(self), Ok(report.path), &*final(self)),
            retired && report.phase == DownloadPhase::Failed ==> (exists|e: String| e@ == failure_message(report.error)
                && #[trigger] finished_active(&*old(self), Err(e), &*final(self))),
    {
        if self.active.is_none() {
            return false;
        }
        if report.phase == DownloadPhase::Done {
            self.finish_active(Ok(report.path));
            true
        } else if report.phase == DownloadPhase::Failed {
            let e = match report.error {
                Some(e) => e,
                None => "Download failed".to_owned(),
            };
            self.finish_active(Err(e));
            true
        } else {
            self.set_active_progress(report.phase, report.percent);
            false
        }
    }
}

/// Queuing keeps the queue well-formed, and afterwards the track is
/// waiting, active or finished.
pub proof fn law_enqueue_keeps_wf(a: DownloadManager, t: SpotifyTrack, b: DownloadManager)
    requires
        a.wf(),
        enqueued(&a, t, &b),
    ensures
        b.wf(),
        b.blocks(t.id@),
{
    if !a.blocks(t.id@) {
        assert(b.queue_ids() =~= a.queue_ids().push(t.id@));
        assert(b.completed_ids() == a.completed_ids());
        assert(b.queue_ids()[a.queue@.len() as int] == t.id@);
        assert(b.queue_ids().no_duplicates()) by {
            assert forall|i: int, j: int| 0 <= i < b.queue_ids().len() && 0 <= j < b.queue_ids().len() && i != j
                implies b.queue_ids()[i] != b.queue_ids()[j] by {
                if i < a.queue@.len() && j < a.queue@.len() {
                } else if i < a.queue@.len() {
                    assert(a.queue_ids().contains(a.queue_ids()[i]));
                } else if j < a.queue@.len() {
                    assert(a.queue_ids().contains(a.queue_ids()[j]));
                }
            }
        }
        assert forall|i: int| 0 <= i < b.completed@.len() implies !b.queue_ids().contains(#[trigger] b.completed_ids()[i]) by {
            let x = b.completed_ids()[i];
            assert(a.completed_ids().contains(x));
            if b.queue_ids().contains(x) {
                let k = choose|k: int| 0 <= k < b.queue_ids().len() && b.queue_ids()[k] == x;
                if k < a.queue@.len() {
                    assert(a.queue_ids()[k] == x);
                    assert(a.queue_ids().contains(x));
                }
            }
        }
        assert forall|i: int| 0 <= i < b.queue@.len() implies !b.active_is(#[trigger] b.queue_ids()[i]) by {
            if i < a.queue@.len() {
                assert(a.queue_ids()[i] == b.queue_ids()[i]);
            }
        }
        assert(b.queue_ids().contains(t.id@));
    }
}

/// Queuing the same track twice is queuing it once.
pub proof fn law_enqueue_idempotent(
    a: DownloadManager,
    t: SpotifyTrack,
    b: DownloadManager,
    c: DownloadManager,
)
    requires
        enqueued(&a, t, &b),
        enqueued(&b, t, &c),
    ensures
        c == b,
{
    if !a.blocks(t.id@) {
        assert(b.queue_ids()[a.queue@.len() as int] == t.id@);
        assert(b.queue_ids().contains(t.id@));
    }
}

/// Once queued, a track always has a status.
pub proof fn law_enqueue_status(a: DownloadManager, t: SpotifyTrack, b: DownloadManager)
    requires
        enqueued(&a, t, &b),
    ensures
        b.status_spec(t.id@).is_some(),
{
    if !a.blocks(t.id@) {
        assert(b.queue_ids()[a.queue@.len() as int] == t.id@);
        assert(b.queue_ids().contains(t.id@));
    }
}

/// Starting the next download keeps the queue well-formed and does not
/// change how many downloads are waiting or in progress.
pub proof fn law_start_next_keeps_wf(a: DownloadManager, b: DownloadManager)
    requires
        a.wf(),
        started_next(&a, &b),
    ensures
        b.wf(),
        b.total_spec() == a.total_spec(),
{
    if a.active.is_none() && a.queue@.len() > 0 {
        let x = a.queue_ids()[0];
        assert(b.queue_ids() =~= a.queue_ids().subrange(1, a.queue@.len() as int));
        assert(b.completed_ids() == a.completed_ids());
        assert(b.active_is(x));
        assert forall|i: int| 0 <= i < b.queue@.len() implies !b.active_is(#[trigger] b.queue_ids()[i]) by {
            assert(b.queue_ids()[i] == a.queue_ids()[i + 1]);
        }
        assert forall|i: int| 0 <= i < b.completed@.len() implies !b.active_is(#[trigger] b.completed_ids()[i]) by {
            let y = b.completed_ids()[i];
            assert(!a.queue_ids().contains(a.completed_ids()[i]));
            if y == x {
                assert(a.queue_ids().contains(x));
            }
        }
        assert forall|i: int| 0 <= i < b.completed@.len() implies !b.queue_ids().contains(#[trigger] b.completed_ids()[i]) by {
            let y = b.completed_ids()[i];
            assert(!a.queue_ids().contains(a.completed_ids()[i]));
            if b.queue_ids().contains(y) {
                let k = choose|k: int| 0 <= k < b.queue_ids().len() && b.queue_ids()[k] == y;
                assert(a.queue_ids()[k + 1] == y);
                assert(a.queue_ids().contains(y));
            }
        }
    }
}

/// Retiring the active download keeps the queue well-formed.
pub proof fn law_finish_keeps_wf(a: DownloadManager, outcome: Result<String, String>, b: DownloadManager)
    requires
        a.wf(),
        finished_active(&a, outcome, &b),
    ensures
        b.wf(),
{
    if let Some(x) = a.active {
        let id = x.request.track.id@;
        assert(b.queue_ids() == a.queue_ids());
        match outcome {
            Ok(path) => {
                assert(b.completed_ids() =~= a.completed_ids().push(id));
                assert(!a.completed_ids().contains(id)) by {
                    if a.completed_ids().contains(id) {
                        let k = choose|k: int| 0 <= k < a.completed_ids().len() && a.completed_ids()[k] == id;
                        assert(!a.active_is(a.completed_ids()[k]));
                    }
                }
                assert(!a.queue_ids().contains(id)) by {
                    if a.queue_ids().contains(id) {
                        let k = choose|k: int| 0 <= k < a.queue_ids().len() && a.queue_ids()[k] == id;
                        assert(!a.active_is(a.queue_ids()[k]));
                    }
                }
                assert(b.completed_ids().no_duplicates()) by {
                    assert forall|i: int, j: int| 0 <= i < b.completed_ids().len() && 0 <= j < b.completed_ids().len() && i != j
                        implies b.completed_ids()[i] != b.completed_ids()[j] by {
                        if i < a.completed@.len() && j < a.completed@.len() {
                        } else if i < a.completed@.len() {
                            assert(a.completed_ids().contains(a.completed_ids()[i]));
                        } else if j < a.completed@.len() {
                            assert(a.completed_ids().contains(a.completed_ids()[j]));
                        }
                    }
                }
                assert forall|i: int| 0 <= i < b.completed@.len() implies !b.queue_ids().contains(#[trigger] b.completed_ids()[i]) by {
                    if i < a.completed@.len() {
                        assert(b.completed_ids()[i] == a.completed_ids()[i]);
                    }
                }
            },
            Err(e) => {
                assert(b.completed_ids() == a.completed_ids());
            },
        }
    }
}

/// Retiring the active download shows it as done on success and as
/// failed otherwise.
pub proof fn law_finish_status(a: DownloadManager, outcome: Result<String, String>, b: DownloadManager)
    requires
        a.wf(),
        a.active.is_some(),
        finished_active(&a, outcome, &b),
    ensures
        b.status_spec(a.active.unwrap().request.track.id@) == (if outcome is Ok {
            Some(DownloadPhase::Done)
        } else {
            Some(DownloadPhase::Failed)
        }),
{
    let x = a.active.unwrap();
    let id = x.request.track.id@;
    match outcome {
        Ok(path) => {
            assert(b.completed_ids() =~= a.completed_ids().push(id));
            assert(b.completed_ids()[a.completed@.len() as int] == id);
            assert(b.completed_ids().contains(id));
        },
        Err(e) => {
            assert(b.completed_ids() == a.completed_ids());
            assert(!a.completed_ids().contains(id)) by {
                if a.completed_ids().contains(id) {
                    let k = choose|k: int| 0 <= k < a.completed_ids().len() && a.completed_ids()[k] == id;
                    assert(!a.active_is(a.completed_ids()[k]));
                }
            }
            assert(b.failed_ids() =~= a.failed_ids().push(id));
            assert(b.failed_ids()[a.failed@.len() as int] == id);
            assert(b.failed_ids().contains(id));
        },
    }
}

/// Queuing a list of tracks keeps the queue well-formed.
pub proof fn law_enqueue_all_keeps_wf(a: DownloadManager, ts: Seq<SpotifyTrack>, b: DownloadManager)
    requires
        a.wf(),
        enqueued_all(&a, ts, &b),
    ensures
        b.wf(),
{
    let adm = admitted(&a, ts);
    lemma_admitted(&a, ts);
    lemma_ids_of_requests(a.queue@, requests_of(adm));
    lemma_requests_ids(adm);
    let ids = b.queue_ids();
    assert(ids == a.queue_ids() + track_ids(adm));
    let n = a.queue@.len() as int;
    assert forall|i: int, j: int| 0 <= i < ids.len() && 0 <= j < ids.len() && i != j
        implies ids[i] != ids[j] by {
        if i < n && j < n {
            assert(ids[i] == a.queue_ids()[i] && ids[j] == a.queue_ids()[j]);
        } else if i < n {
            assert(ids[i] == a.queue_ids()[i]);
            assert(a.queue_ids().contains(ids[i]));
            assert(!a.blocks(track_ids(adm)[j - n]));
        } else if j < n {
            assert(ids[j] == a.queue_ids()[j]);
            assert(a.queue_ids().contains(ids[j]));
            assert(!a.blocks(track_ids(adm)[i - n]));
        } else {
            assert(ids[i] == track_ids(adm)[i - n] && ids[j] == track_ids(adm)[j - n]);
        }
    }
    assert(b.completed_ids() == a.completed_ids());
    assert forall|i: int| 0 <= i < b.queue@.len() implies !b.active_is(#[trigger] b.queue_ids()[i]) by {
        if i < n {
            assert(ids[i] == a.queue_ids()[i]);
        } else {
            assert(ids[i] == track_ids(adm)[i - n]);
            assert(!a.blocks(track_ids(adm)[i - n]));
        }
    }
    assert forall|i: int| 0 <= i < b.completed@.len() implies !b.queue_ids().contains(#[trigger] b.completed_ids()[i]) by {
        let x = b.completed_ids()[i];
        assert(a.completed_ids().contains(x));
        if ids.contains(x) {
            let k = choose|k: int| 0 <= k < ids.len() && ids[k] == x;
            if k < n {
                assert(a.queue_ids()[k] == x);
                assert(a.queue_ids().contains(x));
            } else {
                assert(track_ids(adm)[k - n] == x);
                assert(!a.blocks(track_ids(adm)[k - n]));
            }
        }
    }
}

} // verus!

verus! {

/// `p` is a downloads directory: `.nightingale/downloads` under some home directory.
pub open spec fn downloads_dir_spec(p: Seq<char>) -> bool {
    exists|h: Seq<char>| #[trigger] crate::ytdlp::joined2(h, ".nightingale"@, "downloads"@, p)
}

/// The directory downloads are saved in under the home directory `home`:
/// `.nightingale/downloads`.
pub fn downloads_dir_in(home: &str) -> (r: String)
    ensures
        crate::ytdlp::joined2(home@, ".nightingale"@, "downloads"@, r@),
{
    let a = crate::ytdlp::join_path(home, ".nightingale");
    let d = crate::ytdlp::join_path(a.as_str(), "downloads");
    proof {
        crate::ytdlp::lemma_plain_literals();
        assert(crate::ytdlp::joined_path(home@, ".nightingale"@, a@));
    }
    d
}

/// The directory downloads are saved in: `.nightingale/downloads` under
/// the home directory, if there is one.
pub fn downloads_dir() -> (r: Option<String>)
    ensures
        r matches Some(d) ==> downloads_dir_spec(d@),
{
    match crate::ytdlp::home_dir() {
        Some(home) => {
            let d = downloads_dir_in(home.as_str());
            proof {
                assert(crate::ytdlp::joined2(home@, ".nightingale"@, "downloads"@, d@));
            }
            Some(d)
        },
        None => None,
    }
}

/// The audio file a track is downloaded to.
pub fn output_file_name(track_id: &str) -> (r: String)
    ensures
        r@ == track_id@ + ".opus"@,
{
    let mut s = track_id.to_owned();
    crate::text::append_str(&mut s, ".opus");
    s
}

/// The metadata file saved beside a download.
pub fn metadata_file_name(track_id: &str) -> (r: String)
    ensures
        r@ == track_id@ + ".json"@,
{
    let mut s = track_id.to_owned();
    crate::text::append_str(&mut s, ".json");
    s
}

/// The stages a download worker goes through.
#[derive(Debug, Clone, Copy, PartialEq, Eq, Structural)]
pub enum DownloadStep {
    /// The file was already there.
    AlreadyDownloaded,
    InstallingYtdlp,
    Searching,
    /// Downloading, at a whole percentage.
    Downloading(u32),
    Tagging,
    Finished,
    /// Installing yt-dlp, searching or downloading failed.
    Failed,
}

/// The phase and percentage a worker reports at each stage; installing
/// yt-dlp and failing keep the percentage it had.
pub open spec fn step_progress(step: DownloadStep, percent: u32) -> (DownloadPhase, u32) {
    match step {
        DownloadStep::AlreadyDownloaded => (DownloadPhase::Done, 100),
        DownloadStep::InstallingYtdlp => (DownloadPhase::FetchingYtdlp, percent),
        DownloadStep::Searching => (DownloadPhase::SearchingYoutube, 0),
        DownloadStep::Downloading(p) => (DownloadPhase::Downloading, p),
        DownloadStep::Tagging => (DownloadPhase::Tagging, 95),
        DownloadStep::Finished => (DownloadPhase::Done, 100),
        DownloadStep::Failed => (DownloadPhase::Failed, percent),
    }
}

/// The phase and percentage a worker reports at a stage, from the
/// percentage it reported last.
pub fn step_report(step: DownloadStep, percent: u32) -> (r: (DownloadPhase, u32))
    ensures
        r == step_progress(step, percent),
{
    match step {
        DownloadStep::AlreadyDownloaded => (DownloadPhase::Done, 100),
        DownloadStep::InstallingYtdlp => (DownloadPhase::FetchingYtdlp, percent),
        DownloadStep::Searching => (DownloadPhase::SearchingYoutube, 0),
        DownloadStep::Downloading(p) => (DownloadPhase::Downloading, p),
        DownloadStep::Tagging => (DownloadPhase::Tagging, 95),
        DownloadStep::Finished => (DownloadPhase::Done, 100),
        DownloadStep::Failed => (DownloadPhase::Failed, percent),
    }
}

/// Where a worker is in downloading one track.
#[derive(Debug, Clone, Copy, PartialEq, Eq, Structural)]
pub enum TrackStage {
    /// Looking whether the audio file is already there.
    CheckExisting,
    InstallYtdlp,
    Search,
    Download,
    Tag,
    SaveMetadata,
    Done,
    Failed,
}

/// The stage after `stage` and what the worker reports on entering it,
/// given whether the stage's work succeeded (for `CheckExisting`: whether
/// the file is already there). An existing file ends the work at once;
/// installing yt-dlp, searching and downloading stop it when they fail,
/// which is reported as the failed phase;
/// tagging and saving the metadata go on whatever happens; `Done` and
/// `Failed` stay.
pub open spec fn track_transition(stage: TrackStage, ok: bool) -> (TrackStage, Option<DownloadStep>) {
    match stage {
        TrackStage::CheckExisting => if ok {
            (TrackStage::Done, Some(DownloadStep::AlreadyDownloaded))
        } else {
            (TrackStage::InstallYtdlp, Some(DownloadStep::InstallingYtdlp))
        },
        TrackStage::InstallYtdlp => if ok {
            (TrackStage::Search, Some(DownloadStep::Searching))
        } else {
            (TrackStage::Failed, Some(DownloadStep::Failed))
        },
        TrackStage::Search => if ok {
            (TrackStage::Download, Some(DownloadStep::Downloading(0)))
        } else {
            (TrackStage::Failed, Some(DownloadStep::Failed))
        },
        TrackStage::Download => if ok {
            (TrackStage::Tag, Some(DownloadStep::Tagging))
        } else {
            (TrackStage::Failed, Some(DownloadStep::Failed))
        },
        TrackStage::Tag => (TrackStage::SaveMetadata, Some(DownloadStep::Finished)),
        TrackStage::SaveMetadata => (TrackStage::Done, None),
        TrackStage::Done => (TrackStage::Done, None),
        TrackStage::Failed => (TrackStage::Failed, None),
    }
}

/// The stage reached from `stage` when the work of each stage on the way
/// succeeds or not as `oks` says, in order.
pub open spec fn run_track_stages(stage: TrackStage, oks: Seq<bool>) -> TrackStage
    decreases oks.len(),
{
    if oks.len() == 0 {
        stage
    } else {
        run_track_stages(track_transition(stage, oks[0]).0, oks.skip(1))
    }
}

/// A download ends within six stages, whatever happens: it is done when
/// the file was already there or when installing yt-dlp, searching and
/// downloading all succeeded, whatever tagging does; else it failed.
pub proof fn law_track_stages_end(oks: Seq<bool>)
    requires
        oks.len() >= 6,
    ensures
        run_track_stages(TrackStage::CheckExisting, oks) == (if oks[0] || (oks[1] && oks[2] && oks[3]) {
            TrackStage::Done
        } else {
            TrackStage::Failed
        }),
{
    reveal_with_fuel(run_track_stages, 7);
    lemma_terminal_stays(TrackStage::Done, oks.skip(1));
    lemma_terminal_stays(TrackStage::Failed, oks.skip(2));
    lemma_terminal_stays(TrackStage::Failed, oks.skip(3));
    lemma_terminal_stays(TrackStage::Failed, oks.skip(4));
    lemma_terminal_stays(TrackStage::Done, oks.skip(6));
    assert(oks.skip(1).skip(1) =~= oks.skip(2));
    assert(oks.skip(2).skip(1) =~= oks.skip(3));
    assert(oks.skip(3).skip(1) =~= oks.skip(4));
    assert(oks.skip(4).skip(1) =~= oks.skip(5));
    assert(oks.skip(5).skip(1) =~= oks.skip(6));
}

proof fn lemma_terminal_stays(stage: TrackStage, oks: Seq<bool>)
    requires
        stage == TrackStage::Done || stage == TrackStage::Failed,
    ensures
        run_track_stages(stage, oks) == stage,
    decreases oks.len(),
{
    if oks.len() > 0 {
        lemma_terminal_stays(stage, oks.skip(1));
    }
}

/// The stage after `stage` and what to report on entering it.
pub fn next_track_stage(stage: TrackStage, ok: bool) -> (r: (TrackStage, Option<DownloadStep>))
    ensures
        r == track_transition(stage, ok),
{
    match stage {
        TrackStage::CheckExisting => if ok {
            (TrackStage::Done, Some(DownloadStep::AlreadyDownloaded))
        } else {
            (TrackStage::InstallYtdlp, Some(DownloadStep::InstallingYtdlp))
        },
        TrackStage::InstallYtdlp => if ok {
            (TrackStage::Search, Some(DownloadStep::Searching))
        } else {
            (TrackStage::Failed, Some(DownloadStep::Failed))
        },
        TrackStage::Search => if ok {
            (TrackStage::Download, Some(DownloadStep::Downloading(0)))
        } else {
            (TrackStage::Failed, Some(DownloadStep::Failed))
        },
        TrackStage::Download => if ok {
            (TrackStage::Tag, Some(DownloadStep::Tagging))
        } else {
            (TrackStage::Failed, Some(DownloadStep::Failed))
        },
        TrackStage::Tag => (TrackStage::SaveMetadata, Some(DownloadStep::Finished)),
        TrackStage::SaveMetadata => (TrackStage::Done, None),
        TrackStage::Done => (TrackStage::Done, None),
        TrackStage::Failed => (TrackStage::Failed, None),
    }
}

/// The tags written into a downloaded file.
pub struct TagValues {
    pub title: String,
    pub artist: String,
    pub album: String,
    pub track_number: u32,
    pub album_artist: String,
    pub year: Option<u32>,
}

/// The year of a Spotify release date ("YYYY", "YYYY-MM" or "YYYY-MM-DD"):
/// its first four characters, when they are digits.
pub open spec fn release_year(d: Seq<char>) -> Option<u32> {
    if d.len() >= 4 { crate::text::parse_digits_u32(d.take(4)) } else { None }
}

/// The year of a release date.
pub fn year_of(release_date: &str) -> (r: Option<u32>)
    ensures
        r == release_year(release_date@),
{
    let v = crate::text::chars_of(release_date);
    if v.len() < 4 {
        return None;
    }
    if v[0] == '+' {
        assert(!crate::text::is_digit(v@.take(4)[0]));
        return None;
    }
    let w: Vec<char> = vec![v[0], v[1], v[2], v[3]];
    assert(w@ =~= v@.take(4));
    assert(w@[0] != '+');
    crate::text::parse_u32(w.as_slice())
}

/// The tags for a track: its name, its artists joined with ", ", its album
/// and number, its first artist (or nothing) as album artist, and the year
/// of its album's release.
pub fn tag_values(track: &SpotifyTrack) -> (r: TagValues)
    ensures
        r.title == track.name,
        r.artist@ == crate::spotify::joined(crate::spotify::texts(track.artists@), ", "@),
        r.album == track.album_name,
        r.track_number == track.track_number,
        r.album_artist@ == (if track.artists@.len() > 0 { track.artists@[0]@ } else { Seq::<char>::empty() }),
        r.year == release_year(track.release_date@),
{
    TagValues {
        title: track.name.clone(),
        artist: crate::spotify::join_strings(&track.artists, ", "),
        album: track.album_name.clone(),
        track_number: track.track_number,
        album_artist: if track.artists.len() > 0 { track.artists[0].clone() } else { String::new() },
        year: year_of(track.release_date.as_str()),
    }
}

/// Whether cover art at `url` is embedded as PNG (else as JPEG): when the
/// URL mentions `.png`.
pub fn art_is_png(url: &str) -> (r: bool)
    ensures
        r == crate::text::contains_spec(url@, ".png"@),
{
    let v = crate::text::chars_of(url);
    let p = crate::text::chars_of(".png");
    crate::text::contains_chars(v.as_slice(), p.as_slice())
}

} // verus!

verus! {

/// What the active download's worker last reported.
pub struct DownloadProgress {
    pub phase: DownloadPhase,
    pub percent: u32,
}

impl DownloadManager {
    /// The active download's track and progress.
    pub fn active_progress(&self) -> (r: Option<(SpotifyTrack, DownloadProgress)>)
        ensures
            (match self.active {
                Some(a) => r matches Some((t, p)) && crate::spotify::same_track(t, a.request.track)
                    && p.phase == a.phase && p.percent == a.percent,
                None => r is None,
            }),
    {
        match &self.active {
            Some(a) => Some((a.request.track.copy(), DownloadProgress { phase: a.phase, percent: a.percent })),
            None => None,
        }
    }
}

} // verus!

verus! {

/// The phase a worker reports is the status shown for the active track,
/// unless that track also failed before.
pub proof fn law_reported_phase_shown(a: DownloadManager, phase: DownloadPhase, percent: u32, b: DownloadManager)
    requires
        a.wf(),
        a.active is Some,
        !a.failed_has(a.active.unwrap().request.track.id@),
        b.queue == a.queue,
        b.completed == a.completed,
        b.failed == a.failed,
        b.active == Some(ActiveDownload { request: a.active.unwrap().request, phase, percent }),
    ensures
        b.status_spec(a.active.unwrap().request.track.id@) == Some(phase),
{
    let id = a.active.unwrap().request.track.id@;
    if a.completed_has(id) {
        let k = choose|k: int| 0 <= k < a.completed_ids().len() && a.completed_ids()[k] == id;
        assert(!a.active_is(a.completed_ids()[k]));
    }
    assert(b.completed_ids() == a.completed_ids());
    assert(b.failed_ids() == a.failed_ids());
}

} // verus!
