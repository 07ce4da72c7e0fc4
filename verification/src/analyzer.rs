//! The analysis queue: the songs waiting for the analyzer, the one being
//! analyzed with the progress its worker reported, and how the analyzer's
//! output lines and exit turn into that progress. No song index waits
//! twice, and the song being analyzed does not also wait.

use vstd::prelude::*;
use crate::library::{AnalysisStatus, Song};
use crate::text::{
    chars_of, decimal, decimal_spec, str_eq, find_chars, find_spec, parse_u32, parse_u32_spec,
    string_from_chars, sub_chars, trim_bounds, trim_spec,
};

verus! {

/// The song the player is asked to play.
pub struct PlayTarget {
    pub song_index: usize,
}

/// What the analyzer last reported for a job: a percentage, a message, and
/// whether it finished (and if so, whether it succeeded).
pub struct ProgressInfo {
    pub percent: u32,
    pub message: String,
    pub finished: Option<bool>,
}

/// The song being analyzed and its progress.
pub struct ActiveJob {
    pub song_index: usize,
    pub progress: ProgressInfo,
}

/// Songs waiting for analysis, and the one being analyzed.
pub struct AnalysisQueue {
    pub queue: std::collections::VecDeque<usize>,
    pub active: Option<ActiveJob>,
}

/// The progress a job starts with.
pub open spec fn starting_progress(p: ProgressInfo) -> bool {
    &&& p.percent == 0
    &&& p.message@ == "Starting analyzer..."@
    &&& p.finished is None
}

impl ProgressInfo {
    /// The progress a job starts with.
    pub fn starting() -> (r: Self)
        ensures
            starting_progress(r),
    {
        ProgressInfo { percent: 0, message: "Starting analyzer...".to_owned(), finished: None }
    }

    /// An exact copy.
    pub fn copy(&self) -> (r: Self)
        ensures
            r == *self,
    {
        ProgressInfo { percent: self.percent, message: self.message.clone(), finished: self.finished }
    }
}

impl AnalysisQueue {
    /// Whether song `i` is waiting or being analyzed.
    pub open spec fn holds(&self, i: usize) -> bool {
        self.queue@.contains(i) || (self.active matches Some(a) && a.song_index == i)
    }

    /// Well-formed: no index waits twice, and the active one does not wait.
    pub open spec fn wf(&self) -> bool {
        &&& self.queue@.no_duplicates()
        &&& (self.active matches Some(a) ==> !self.queue@.contains(a.song_index))
    }

    /// An empty queue.
    pub fn new() -> (r: Self)
        ensures
            r.queue@.len() == 0,
            r.active is None,
            r.wf(),
    {
        AnalysisQueue { queue: std::collections::VecDeque::new(), active: None }
    }

    /// Whether `song_index` is waiting.
    pub fn is_queued(&self, song_index: usize) -> (r: bool)
        ensures
            r == self.queue@.contains(song_index),
    {
        let mut i: usize = 0;
        while i < self.queue.len()
            invariant
                i <= self.queue@.len(),
                forall|j: int| 0 <= j < i ==> self.queue@[j] != song_index,
            decreases self.queue@.len() - i,
        {
            if self.queue[i] == song_index {
                assert(self.queue@[i as int] == song_index);
                return true;
            }
            i = i + 1;
        }
        false
    }

    /// Queues a song unless it is being analyzed or already waiting.
    pub fn enqueue(&mut self, song_index: usize)
        ensures
            queued_song(&*old(self), song_index, &*final(self)),
    {
        if let Some(a) = &self.active {
            if a.song_index == song_index {
                return;
            }
        }
        if !self.is_queued(song_index) {
            self.queue.push_back(song_index);
        }
    }

    /// The progress of `song_index` when it is the song being analyzed.
    pub open spec fn progress_of(&self, song_index: usize) -> Option<ProgressInfo> {
        match self.active {
            Some(a) => if a.song_index == song_index { Some(a.progress) } else { None },
            None => None,
        }
    }

    /// The progress of `song_index` when it is the song being analyzed.
    pub fn active_progress(&self, song_index: usize) -> (r: Option<ProgressInfo>)
        ensures
            r == self.progress_of(song_index),
    {
        match &self.active {
            Some(a) => {
                if a.song_index == song_index {
                    Some(a.progress.copy())
                } else {
                    None
                }
            },
            None => None,
        }
    }

    /// Starts the next waiting song when nothing is being analyzed, and
    /// returns its index.
    pub fn start_next(&mut self) -> (r: Option<usize>)
        ensures
            started_job(&*old(self), r, &*final(self)),
    {
        if self.active.is_some() || self.queue.len() == 0 {
            return None;
        }
        let song_index = self.queue.pop_front().unwrap();
        self.active = Some(ActiveJob { song_index, progress: ProgressInfo::starting() });
        Some(song_index)
    }

    /// Starts the next waiting song and marks it as analyzing in the
    /// library; returns its index.
    pub fn process_queue(&mut self, songs: &mut Vec<Song>) -> (r: Option<usize>)
        requires
            old(self).active is None && old(self).queue@.len() > 0 ==> old(self).queue@[0] < old(songs)@.len(),
        ensures
            started_job(&*old(self), r, &*final(self)),
            r matches Some(i) ==> final(songs)@ == old(songs)@.update(i as int, Song {
                analysis_status: AnalysisStatus::Analyzing,
                ..old(songs)@[i as int]
            }),
            r is None ==> final(songs)@ == old(songs)@,
    {
        let r = self.start_next();
        if let Some(i) = r {
            songs[i].analysis_status = AnalysisStatus::Analyzing;
        }
        r
    }

    /// Records what the active job's worker last reported.
    pub fn set_active_progress(&mut self, progress: ProgressInfo)
        ensures
            final(self).queue == old(self).queue,
            final(self).active == (match old(self).active {
                Some(a) => Some(ActiveJob { song_index: a.song_index, progress }),
                None => None,
            }),
    {
        if let Some(a) = self.active.take() {
            self.active = Some(ActiveJob { song_index: a.song_index, progress });
        }
    }

    /// Retires the active job once its worker finished: the song becomes
    /// ready when the analyzer succeeded and its results are in the cache
    /// (`results_cached`), else it fails with the job's last message.
    /// Returns whether a job was retired.
    pub fn poll_active_job(&mut self, songs: &mut Vec<Song>, results_cached: bool) -> (done: bool)
        requires
            old(self).active matches Some(a) ==> a.song_index < old(songs)@.len(),
        ensures
            done == (old(self).active matches Some(a) && a.progress.finished is Some),
            done ==> final(self).active is None && final(self).queue == old(self).queue,
            !done ==> *final(self) == *old(self) && final(songs)@ == old(songs)@,
            done ==> (old(self).active matches Some(a) && final(songs)@ == old(songs)@.update(
                a.song_index as int,
                Song { analysis_status: job_outcome(a.progress, results_cached), ..old(songs)@[a.song_index as int] },
            )),
    {
        let finished = match &self.active {
            Some(a) => a.progress.finished,
            None => None,
        };
        match finished {
            None => false,
            Some(success) => {
                let a = self.active.take().unwrap();
                if success && results_cached {
                    songs[a.song_index].analysis_status = AnalysisStatus::Ready;
                } else {
                    songs[a.song_index].analysis_status = AnalysisStatus::Failed(a.progress.message);
                }
                true
            },
        }
    }

    /// Retires the active job once its worker finished, as `poll_active_job`
    /// does, and says what to play: the song of a job that succeeded with its
    /// results in the cache, whose playback starts once its analysis is done.
    /// Nothing when no job was retired or the job failed.
    pub fn poll_for_playback(&mut self, songs: &mut Vec<Song>, results_cached: bool) -> (r: Option<PlayTarget>)
        requires
            old(self).active matches Some(a) ==> a.song_index < old(songs)@.len(),
        ensures
            (old(self).active matches Some(a) && a.progress.finished is Some) ==> final(self).active is None
                && final(self).queue == old(self).queue,
            !(old(self).active matches Some(a) && a.progress.finished is Some) ==> *final(self) == *old(self)
                && final(songs)@ == old(songs)@,
            old(self).active matches Some(a) ==> (a.progress.finished is Some ==> final(songs)@ == old(songs)@.update(
                a.song_index as int,
                Song { analysis_status: job_outcome(a.progress, results_cached), ..old(songs)@[a.song_index as int] },
            )),
            r matches Some(t) ==> (old(self).active matches Some(a) && t.song_index == a.song_index),
            r is Some <==> (old(self).active matches Some(a) && a.progress.finished == Some(true) && results_cached),
    {
        let target = match &self.active {
            Some(a) => {
                if a.progress.finished == Some(true) && results_cached {
                    Some(PlayTarget { song_index: a.song_index })
                } else {
                    None
                }
            },
            None => None,
        };
        self.poll_active_job(songs, results_cached);
        target
    }

    /// Forgets every waiting and active job.
    pub fn clear(&mut self)
        ensures
            final(self).queue@.len() == 0,
            final(self).active is None,
    {
        self.queue.clear();
        self.active = None;
    }
}

/// `after` is `before` with `i` queued, unless it was waiting or active.
pub open spec fn queued_song(before: &AnalysisQueue, i: usize, after: &AnalysisQueue) -> bool {
    &&& after.active == before.active
    &&& after.queue@ == if before.holds(i) { before.queue@ } else { before.queue@.push(i) }
}

/// `after` is `before` with its front started when nothing was active
/// (`r` is the started index), else unchanged.
pub open spec fn started_job(before: &AnalysisQueue, r: Option<usize>, after: &AnalysisQueue) -> bool {
    if before.active is None && before.queue@.len() > 0 {
        &&& r == Some(before.queue@[0])
        &&& after.queue@ == before.queue@.drop_first()
        &&& after.active matches Some(a) && a.song_index == before.queue@[0] && starting_progress(a.progress)
    } else {
        &&& r is None
        &&& after == before
    }
}

/// The status a finished job leaves its song in.
pub open spec fn job_outcome(p: ProgressInfo, results_cached: bool) -> AnalysisStatus {
    if p.finished == Some(true) && results_cached {
        AnalysisStatus::Ready
    } else {
        AnalysisStatus::Failed(p.message)
    }
}

/// Queuing keeps the queue well-formed, and the song is then waiting or
/// active.
pub proof fn law_enqueue_keeps_wf(a: AnalysisQueue, i: usize, b: AnalysisQueue)
    requires
        a.wf(),
        queued_song(&a, i, &b),
    ensures
        b.wf(),
        b.holds(i),
{
    if !a.holds(i) {
        assert(b.queue@.last() == i);
        assert forall|x: int, y: int| 0 <= x < y < b.queue@.len() implies b.queue@[x] != b.queue@[y] by {
            if y == b.queue@.len() - 1 {
                assert(a.queue@[x] == b.queue@[x]);
            } else {
                assert(a.queue@[x] == b.queue@[x] && a.queue@[y] == b.queue@[y]);
            }
        }
        if let Some(act) = b.active {
            if b.queue@.contains(act.song_index) {
                let k = choose|k: int| 0 <= k < b.queue@.len() && b.queue@[k] == act.song_index;
                if k < a.queue@.len() {
                    assert(a.queue@[k] == act.song_index);
                }
            }
        }
    } else {
        assert(b.queue@ == a.queue@);
    }
    assert(b.queue@.len() > 0 ==> b.queue@[b.queue@.len() - 1] == b.queue@.last());
}

/// Queuing a song twice is the same as queuing it once.
pub proof fn law_enqueue_idempotent(a: AnalysisQueue, i: usize, b: AnalysisQueue, c: AnalysisQueue)
    requires
        queued_song(&a, i, &b),
        queued_song(&b, i, &c),
    ensures
        c.queue@ == b.queue@,
        c.active == b.active,
{
    if !a.holds(i) {
        assert(b.queue@[b.queue@.len() - 1] == i);
        assert(b.queue@.contains(i));
    }
}

/// The progress recorded for the active job is what is read back for its
/// song, and no other song has progress.
pub proof fn law_progress_read_back(a: AnalysisQueue, p: ProgressInfo, b: AnalysisQueue, other: usize)
    requires
        a.active is Some,
        b.active == Some(ActiveJob { song_index: a.active.unwrap().song_index, progress: p }),
        other != a.active.unwrap().song_index,
    ensures
        b.progress_of(a.active.unwrap().song_index) == Some(p),
        b.progress_of(other) is None,
{
}

/// Starting the next job keeps the queue well-formed.
pub proof fn law_start_keeps_wf(a: AnalysisQueue, r: Option<usize>, b: AnalysisQueue)
    requires
        a.wf(),
        started_job(&a, r, &b),
    ensures
        b.wf(),
{
    if a.active is None && a.queue@.len() > 0 {
        assert forall|x: int, y: int| 0 <= x < y < b.queue@.len() implies b.queue@[x] != b.queue@[y] by {
            assert(b.queue@[x] == a.queue@[x + 1] && b.queue@[y] == a.queue@[y + 1]);
        }
        if b.queue@.contains(a.queue@[0]) {
            let k = choose|k: int| 0 <= k < b.queue@.len() && b.queue@[k] == a.queue@[0];
            assert(a.queue@[k + 1] == a.queue@[0]);
        }
    }
}

/// A progress report's percentage and trimmed message, read from the text
/// after the marker: digits up to the first `]`, then the message.
pub open spec fn progress_after(after: Seq<char>) -> Option<(u32, Seq<char>)> {
    match find_spec(after, "]"@) {
        None => None,
        Some(end) => match parse_u32_spec(after.take(end)) {
            None => None,
            Some(pct) => Some((pct, trim_spec(after.skip(end + 1)))),
        },
    }
}

/// The progress report in an analyzer output line: what follows the first
/// `[nightingale:PROGRESS:` marker, read by `progress_after`.
pub open spec fn progress_parts(line: Seq<char>) -> Option<(u32, Seq<char>)> {
    match find_spec(line, "[nightingale:PROGRESS:"@) {
        None => None,
        Some(start) => progress_after(line.skip(start + "[nightingale:PROGRESS:"@.len())),
    }
}

/// The first index where `needle` occurs in `hay`.
fn find_first(hay: &[char], needle: &[char]) -> (r: Option<usize>)
    ensures
        r matches Some(k) ==> find_spec(hay@, needle@) == Some(k as int) && k + needle@.len() <= hay@.len(),
        r is None ==> find_spec(hay@, needle@) is None,
{
    let r = find_chars(hay, needle, 0);
    proof {
        crate::text::lemma_find_from_in_range(hay@, needle@, 0);
    }
    r
}

fn parse_after_marker(after: &[char]) -> (r: Option<(u32, String)>)
    ensures
        r matches Some(p) ==> progress_after(after@) == Some((p.0, p.1@)),
        r is None ==> progress_after(after@) is None,
{
    let close = chars_of("]");
    proof {
        reveal_strlit("]");
    }
    assert(close@.len() == 1);
    let end = match find_first(after, close.as_slice()) {
        Some(e) => e,
        None => return None,
    };
    let pct_chars = sub_chars(after, 0, end);
    assert(pct_chars@ =~= after@.take(end as int));
    let pct = match parse_u32(pct_chars.as_slice()) {
        Some(p) => p,
        None => return None,
    };
    let m = after.len();
    let rest = sub_chars(after, end + 1, m);
    assert(rest@ =~= after@.skip(end + 1));
    let (a, b) = trim_bounds(rest.as_slice());
    let msg_chars = sub_chars(rest.as_slice(), a, b);
    Some((pct, string_from_chars(msg_chars.as_slice())))
}

/// Reads a progress report `[nightingale:PROGRESS:<pct>]<message>` out of
/// an analyzer output line: the percentage and the trimmed message.
pub fn parse_progress_line(line: &str) -> (r: Option<(u32, String)>)
    ensures
        r matches Some(p) ==> progress_parts(line@) == Some((p.0, p.1@)),
        r is None ==> progress_parts(line@) is None,
{
    let v = chars_of(line);
    let prefix = chars_of("[nightingale:PROGRESS:");
    let start = match find_first(v.as_slice(), prefix.as_slice()) {
        Some(s) => s,
        None => return None,
    };
    let n = v.len();
    let after = sub_chars(v.as_slice(), start + prefix.len(), n);
    assert(after@ =~= v@.skip(start + prefix@.len()));
    parse_after_marker(after.as_slice())
}

/// The last line whose trimmed form is not empty, as it stands.
pub open spec fn last_nonblank(lines: Seq<String>) -> Option<Seq<char>>
    decreases lines.len(),
{
    if lines.len() == 0 {
        None
    } else if trim_spec(lines.last()@).len() > 0 {
        Some(lines.last()@)
    } else {
        last_nonblank(lines.drop_last())
    }
}

/// The message a failed analyzer run leaves: its last non-blank error
/// line, else `fallback`.
pub fn last_error_line(lines: &Vec<String>, fallback: &str) -> (r: String)
    ensures
        r@ == (match last_nonblank(lines@) {
            Some(l) => l,
            None => fallback@,
        }),
{
    let mut i: usize = lines.len();
    assert(lines@.take(i as int) =~= lines@);
    while i > 0
        invariant
            i <= lines@.len(),
            last_nonblank(lines@) == last_nonblank(lines@.take(i as int)),
        decreases i,
    {
        let v = chars_of(lines[i - 1].as_str());
        let (a, b) = trim_bounds(v.as_slice());
        assert(lines@.take(i as int).last() == lines@[i - 1]);
        assert(lines@.take(i as int).drop_last() =~= lines@.take(i - 1));
        if a < b {
            return lines[i - 1].clone();
        }
        i = i - 1;
    }
    assert(lines@.take(0) =~= Seq::<String>::empty());
    fallback.to_owned()
}

impl ProgressInfo {
    /// Takes in one line of the analyzer's output: a progress report
    /// replaces the percentage and message, any other line changes nothing.
    pub fn apply_output_line(&mut self, line: &str)
        ensures
            (match progress_parts(line@) {
                Some((pct, msg)) => final(self).percent == pct && final(self).message@ == msg
                    && final(self).finished == old(self).finished,
                None => *final(self) == *old(self),
            }),
    {
        if let Some((pct, msg)) = parse_progress_line(line) {
            self.percent = pct;
            self.message = msg;
        }
    }

    /// Records the analyzer's exit: finished with `success`, and on failure
    /// the last non-blank error line (else `fallback`) as the message.
    pub fn finish(&mut self, success: bool, stderr_lines: &Vec<String>, fallback: &str)
        ensures
            final(self).finished == Some(success),
            final(self).percent == old(self).percent,
            success ==> final(self).message == old(self).message,
            !success ==> final(self).message@ == (match last_nonblank(stderr_lines@) {
                Some(l) => l,
                None => fallback@,
            }),
    {
        self.finished = Some(success);
        if !success {
            self.message = last_error_line(stderr_lines, fallback);
        }
    }

    /// Records that the job failed with `message`.
    pub fn fail(&mut self, message: String)
        ensures
            final(self).finished == Some(false),
            final(self).message == message,
            final(self).percent == old(self).percent,
    {
        self.finished = Some(false);
        self.message = message;
    }
}

/// The analyzer's options after the song and cache paths.
pub open spec fn analyzer_options_spec(hash: Seq<char>, model: Seq<char>, beam: u32, batch: u32) -> Seq<Seq<char>> {
    seq![
        "--hash"@, hash, "--model"@, model, "--beam-size"@, decimal_spec(beam as nat),
        "--batch-size"@, decimal_spec(batch as nat),
    ]
}

/// The analyzer's options after the song and cache paths.
pub fn analyzer_options(file_hash: &str, model: &str, beam_size: u32, batch_size: u32) -> (r: Vec<String>)
    ensures
        r@.map_values(|s: String| s@) == analyzer_options_spec(file_hash@, model@, beam_size, batch_size),
{
    let mut r: Vec<String> = Vec::new();
    r.push("--hash".to_owned());
    r.push(file_hash.to_owned());
    r.push("--model".to_owned());
    r.push(model.to_owned());
    r.push("--beam-size".to_owned());
    r.push(decimal(beam_size as u64));
    r.push("--batch-size".to_owned());
    r.push(decimal(batch_size as u64));
    assert(r@.map_values(|s: String| s@) =~= analyzer_options_spec(file_hash@, model@, beam_size, batch_size));
    r
}

} // verus!

verus! {

/// Retiring a job keeps the queue well-formed.
pub proof fn law_poll_keeps_wf(a: AnalysisQueue, b: AnalysisQueue)
    requires
        a.wf(),
        b.active is None,
        b.queue == a.queue,
    ensures
        b.wf(),
{
}

/// Whether a status is one that a rescan carries over: waiting or being
/// analyzed.
pub open spec fn is_pending(st: AnalysisStatus) -> bool {
    st is Queued || st is Analyzing
}

/// The status of the last song of `songs` with hash `h` that is waiting or
/// being analyzed.
pub open spec fn pending_status_of(songs: Seq<Song>, h: Seq<char>) -> Option<AnalysisStatus>
    decreases songs.len(),
{
    if songs.len() == 0 {
        None
    } else if songs.last().file_hash@ == h && is_pending(songs.last().analysis_status) {
        Some(songs.last().analysis_status)
    } else {
        pending_status_of(songs.drop_last(), h)
    }
}

/// The index of the last song of `songs` with hash `h`.
pub open spec fn last_index_of_hash(songs: Seq<Song>, h: Seq<char>) -> Option<int>
    decreases songs.len(),
{
    if songs.len() == 0 {
        None
    } else if songs.last().file_hash@ == h {
        Some(songs.len() - 1)
    } else {
        last_index_of_hash(songs.drop_last(), h)
    }
}

/// A rescanned song, carrying over the pending status of an earlier song
/// with its hash.
pub open spec fn merged_song(s: Song, old: Seq<Song>) -> Song {
    match pending_status_of(old, s.file_hash@) {
        Some(st) => Song { analysis_status: st, ..s },
        None => s,
    }
}

/// The rescanned list with pending statuses carried over.
pub open spec fn merged_songs(old: Seq<Song>, new: Seq<Song>) -> Seq<Song> {
    new.map_values(|s: Song| merged_song(s, old))
}

/// Where old index `i` lands in the merged list: the last song with the
/// same hash, if `i` was a song and its hash is still there.
pub open spec fn remapped_index(old: Seq<Song>, merged: Seq<Song>, i: usize) -> Option<usize> {
    if i < old.len() {
        match last_index_of_hash(merged, old[i as int].file_hash@) {
            Some(j) => Some(j as usize),
            None => None,
        }
    } else {
        None
    }
}

/// The waiting list after a rescan: each waiting song that is still there,
/// at its new index, in the old order.
pub open spec fn remapped_queue(old: Seq<Song>, merged: Seq<Song>, q: Seq<usize>) -> Seq<usize>
    decreases q.len(),
{
    if q.len() == 0 {
        Seq::empty()
    } else {
        let prev = remapped_queue(old, merged, q.drop_last());
        match remapped_index(old, merged, q.last()) {
            Some(j) => prev.push(j),
            None => prev,
        }
    }
}

/// The active job after a rescan: moved to its song's new index when that
/// song is still there, else left as it was.
pub open spec fn remapped_active(old: Seq<Song>, merged: Seq<Song>, a: Option<ActiveJob>) -> Option<ActiveJob> {
    match a {
        Some(job) => Some(ActiveJob {
            song_index: match remapped_index(old, merged, job.song_index) {
                Some(j) => j,
                None => job.song_index,
            },
            progress: job.progress,
        }),
        None => None,
    }
}

/// The last song with a hash is where the hash last occurs.
proof fn lemma_last_index_of_hash(songs: Seq<Song>, h: Seq<char>)
    ensures
        last_index_of_hash(songs, h) matches Some(j) ==> 0 <= j < songs.len() && songs[j].file_hash@ == h
            && forall|k: int| j < k < songs.len() ==> #[trigger] songs[k].file_hash@ != h,
        last_index_of_hash(songs, h) is None ==> forall|k: int| 0 <= k < songs.len() ==> #[trigger] songs[k].file_hash@ != h,
    decreases songs.len(),
{
    if songs.len() > 0 && songs.last().file_hash@ != h {
        lemma_last_index_of_hash(songs.drop_last(), h);
        assert forall|k: int| 0 <= k < songs.len() - 1 implies #[trigger] songs[k] == songs.drop_last()[k] by {}
    }
}

/// The rescan law for one waiting song: it stays waiting exactly when a
/// song with its hash is in the rescanned list, and then it waits at the
/// last such song.
pub proof fn law_rescan_keeps_waiting_song(old: Seq<Song>, merged: Seq<Song>, i: usize)
    requires
        merged.len() <= usize::MAX,
    ensures
        (i < old.len() && exists|k: int| 0 <= k < merged.len() && #[trigger] merged[k].file_hash@ == old[i as int].file_hash@)
            ==> {
                let r = remapped_queue(old, merged, seq![i]);
                &&& r.len() == 1
                &&& r[0] < merged.len()
                &&& merged[r[0] as int].file_hash@ == old[i as int].file_hash@
                &&& forall|k: int| r[0] < k < merged.len() ==> #[trigger] merged[k].file_hash@ != old[i as int].file_hash@
            },
        !(i < old.len() && exists|k: int| 0 <= k < merged.len() && #[trigger] merged[k].file_hash@ == old[i as int].file_hash@)
            ==> remapped_queue(old, merged, seq![i]).len() == 0,
{
    let q = seq![i];
    assert(q.drop_last() =~= Seq::<usize>::empty());
    assert(q.last() == i);
    assert(remapped_queue(old, merged, Seq::<usize>::empty()) == Seq::<usize>::empty());
    if i < old.len() {
        lemma_last_index_of_hash(merged, old[i as int].file_hash@);
        match last_index_of_hash(merged, old[i as int].file_hash@) {
            Some(j) => {
                assert(remapped_queue(old, merged, q) =~= seq![j as usize]);
            },
            None => {
                assert(remapped_queue(old, merged, q) =~= Seq::<usize>::empty());
            },
        }
    } else {
        assert(remapped_queue(old, merged, q) =~= Seq::<usize>::empty());
    }
}

/// The rescan law for the whole queue: the waiting list of a queue made of
/// two parts is the waiting list of the first part followed by that of the
/// second; so every waiting song that is still there keeps its place in
/// the old order, and no other song is added.
pub proof fn law_rescan_queue_concat(old: Seq<Song>, merged: Seq<Song>, q1: Seq<usize>, q2: Seq<usize>)
    ensures
        remapped_queue(old, merged, q1 + q2) == remapped_queue(old, merged, q1) + remapped_queue(old, merged, q2),
    decreases q2.len(),
{
    if q2.len() == 0 {
        assert(q1 + q2 =~= q1);
        assert(remapped_queue(old, merged, q1) + remapped_queue(old, merged, q2) =~= remapped_queue(old, merged, q1));
    } else {
        law_rescan_queue_concat(old, merged, q1, q2.drop_last());
        assert((q1 + q2).drop_last() =~= q1 + q2.drop_last());
        assert((q1 + q2).last() == q2.last());
        let a = remapped_queue(old, merged, q1);
        let b = remapped_queue(old, merged, q2.drop_last());
        match remapped_index(old, merged, q2.last()) {
            Some(j) => {
                assert(a + b.push(j) =~= (a + b).push(j));
            },
            None => {},
        }
    }
}

/// The carried-over status for hash `h`.
fn pending_status(old: &Vec<Song>, h: &str) -> (r: Option<AnalysisStatus>)
    ensures
        r == pending_status_of(old@, h@),
{
    let mut i: usize = old.len();
    assert(old@.take(i as int) =~= old@);
    while i > 0
        invariant
            i <= old@.len(),
            pending_status_of(old@, h@) == pending_status_of(old@.take(i as int), h@),
        decreases i,
    {
        let s = &old[i - 1];
        assert(old@.take(i as int).last() == old@[i - 1]);
        assert(old@.take(i as int).drop_last() =~= old@.take(i - 1));
        if str_eq(s.file_hash.as_str(), h) {
            match &s.analysis_status {
                AnalysisStatus::Queued => return Some(AnalysisStatus::Queued),
                AnalysisStatus::Analyzing => return Some(AnalysisStatus::Analyzing),
                _ => {},
            }
        }
        i = i - 1;
    }
    None
}

/// The index of the last song with hash `h`.
fn last_index_with_hash(songs: &Vec<Song>, h: &str) -> (r: Option<usize>)
    ensures
        r matches Some(k) ==> last_index_of_hash(songs@, h@) == Some(k as int),
        r is None ==> last_index_of_hash(songs@, h@) is None,
{
    let mut i: usize = songs.len();
    assert(songs@.take(i as int) =~= songs@);
    while i > 0
        invariant
            i <= songs@.len(),
            last_index_of_hash(songs@, h@) == last_index_of_hash(songs@.take(i as int), h@),
        decreases i,
    {
        assert(songs@.take(i as int).last() == songs@[i - 1]);
        assert(songs@.take(i as int).drop_last() =~= songs@.take(i - 1));
        if str_eq(songs[i - 1].file_hash.as_str(), h) {
            return Some(i - 1);
        }
        i = i - 1;
    }
    None
}

impl AnalysisQueue {
    /// Replaces the library by a rescanned one: songs waiting or being
    /// analyzed keep that status in the new list (matched by hash), and the
    /// queue and the active job follow their songs to their new indices;
    /// waiting songs that are gone leave the queue.
    pub fn apply_rescan(&mut self, songs: &mut Vec<Song>, new_songs: Vec<Song>)
        ensures
            final(songs)@ == merged_songs(old(songs)@, new_songs@),
            final(self).queue@ == remapped_queue(old(songs)@, final(songs)@, old(self).queue@),
            final(self).active == remapped_active(old(songs)@, final(songs)@, old(self).active),
    {
        let ghost old_songs = songs@;
        let old_active_hash: Option<String> = match &self.active {
            Some(a) => if a.song_index < songs.len() {
                Some(songs[a.song_index].file_hash.clone())
            } else {
                None
            },
            None => None,
        };
        let mut merged: Vec<Song> = Vec::new();
        let ghost new_seq = new_songs@;
        for song in it: new_songs.into_iter()
            invariant
                it.seq() == new_seq,
                songs@ == old_songs,
                merged@ == merged_songs(old_songs, new_seq.take(it.index() as int)),
        {
            let ghost k = it.index() as int;
            let st = pending_status(songs, song.file_hash.as_str());
            let mut s = song;
            if let Some(st) = st {
                s.analysis_status = st;
            }
            merged.push(s);
            proof {
                assert(new_seq.take(k + 1) =~= new_seq.take(k).push(new_seq[k]));
                assert(merged_songs(old_songs, new_seq.take(k + 1)) =~= merged_songs(old_songs, new_seq.take(k)).push(merged_song(new_seq[k], old_songs)));
            }
        }
        assert(new_seq.take(new_seq.len() as int) =~= new_seq);
        if let Some(h) = old_active_hash {
            if let Some(j) = last_index_with_hash(&merged, h.as_str()) {
                if let Some(a) = self.active.take() {
                    self.active = Some(ActiveJob { song_index: j, progress: a.progress });
                }
            }
        }
        let mut new_queue: std::collections::VecDeque<usize> = std::collections::VecDeque::new();
        let mut i: usize = 0;
        while i < self.queue.len()
            invariant
                i <= self.queue@.len(),
                self.queue@ == old(self).queue@,
                songs@ == old_songs,
                new_queue@ == remapped_queue(old_songs, merged@, self.queue@.take(i as int)),
            decreases self.queue@.len() - i,
        {
            let idx = self.queue[i];
            assert(self.queue@.take(i + 1).drop_last() =~= self.queue@.take(i as int));
            assert(self.queue@.take(i + 1).last() == idx);
            if idx < songs.len() {
                if let Some(j) = last_index_with_hash(&merged, songs[idx].file_hash.as_str()) {
                    new_queue.push_back(j);
                }
            }
            i = i + 1;
        }
        assert(self.queue@.take(self.queue@.len() as int) =~= self.queue@);
        self.queue = new_queue;
        *songs = merged;
    }
}

} // verus!

verus! {

/// No two songs share a hash.
pub open spec fn distinct_hashes(songs: Seq<Song>) -> bool {
    forall|i: int, j: int| 0 <= i < j < songs.len() ==> songs[i].file_hash@ != songs[j].file_hash@
}

proof fn lemma_last_index(m: Seq<Song>, h: Seq<char>)
    ensures
        last_index_of_hash(m, h) matches Some(k) ==> 0 <= k < m.len() && m[k].file_hash@ == h,
        (exists|i: int| 0 <= i < m.len() && m[i].file_hash@ == h) ==> last_index_of_hash(m, h) is Some,
    decreases m.len(),
{
    if m.len() > 0 {
        lemma_last_index(m.drop_last(), h);
        if m.last().file_hash@ != h && (exists|i: int| 0 <= i < m.len() && m[i].file_hash@ == h) {
            let i = choose|i: int| 0 <= i < m.len() && m[i].file_hash@ == h;
            assert(m.drop_last()[i] == m[i]);
        }
    }
}

proof fn lemma_remapped_member(old: Seq<Song>, merged: Seq<Song>, q: Seq<usize>, k: usize)
    ensures
        remapped_queue(old, merged, q).contains(k) ==> exists|x: int| 0 <= x < q.len() && remapped_index(old, merged, #[trigger] q[x]) == Some(k),
    decreases q.len(),
{
    if q.len() > 0 {
        lemma_remapped_member(old, merged, q.drop_last(), k);
        let prev = remapped_queue(old, merged, q.drop_last());
        if remapped_queue(old, merged, q).contains(k) {
            if prev.contains(k) {
                let x = choose|x: int| 0 <= x < q.drop_last().len() && remapped_index(old, merged, #[trigger] q.drop_last()[x]) == Some(k);
                assert(q[x] == q.drop_last()[x]);
            } else {
                let r = remapped_queue(old, merged, q);
                let y = choose|y: int| 0 <= y < r.len() && r[y] == k;
                assert(remapped_index(old, merged, q[q.len() - 1]) == Some(k));
            }
        }
    }
}

proof fn lemma_remap_injective(old: Seq<Song>, merged: Seq<Song>, x: usize, y: usize)
    requires
        distinct_hashes(old),
        merged.len() <= usize::MAX,
        remapped_index(old, merged, x) is Some,
        remapped_index(old, merged, x) == remapped_index(old, merged, y),
    ensures
        x == y,
{
    lemma_last_index(merged, old[x as int].file_hash@);
    lemma_last_index(merged, old[y as int].file_hash@);
    assert(x < old.len() && y < old.len());
    let kx = last_index_of_hash(merged, old[x as int].file_hash@).unwrap();
    let ky = last_index_of_hash(merged, old[y as int].file_hash@).unwrap();
    assert(0 <= kx < merged.len() && 0 <= ky < merged.len());
    assert(kx == ky);
    assert(old[x as int].file_hash@ == old[y as int].file_hash@);
    if x < y {
        assert(old[x as int].file_hash@ != old[y as int].file_hash@);
    } else if y < x {
        assert(old[y as int].file_hash@ != old[x as int].file_hash@);
    }
}

proof fn lemma_remapped_nodup(old: Seq<Song>, merged: Seq<Song>, q: Seq<usize>)
    requires
        q.no_duplicates(),
        distinct_hashes(old),
        merged.len() <= usize::MAX,
    ensures
        remapped_queue(old, merged, q).no_duplicates(),
    decreases q.len(),
{
    if q.len() > 0 {
        let d = q.drop_last();
        assert(d.no_duplicates()) by {
            assert forall|i: int, j: int| 0 <= i < j < d.len() implies d[i] != d[j] by {
                assert(d[i] == q[i] && d[j] == q[j]);
            }
        }
        lemma_remapped_nodup(old, merged, d);
        let prev = remapped_queue(old, merged, d);
        if let Some(j) = remapped_index(old, merged, q.last()) {
            lemma_remapped_member(old, merged, d, j);
            if prev.contains(j) {
                let x = choose|x: int| 0 <= x < d.len() && remapped_index(old, merged, #[trigger] d[x]) == Some(j);
                lemma_remap_injective(old, merged, q.last(), d[x]);
                assert(q[x] == d[x]);
                assert(q[x] == q[q.len() - 1]);
            }
            let r = prev.push(j);
            assert forall|a: int, b: int| 0 <= a < b < r.len() implies r[a] != r[b] by {
                if b == r.len() - 1 {
                    assert(r[a] == prev[a]);
                    assert(prev.contains(prev[a]));
                }
            }
        }
    }
}

/// A rescan keeps the analysis queue well-formed, provided the old library
/// held no two songs with the same hash, every queued or active index was a
/// song of it, and the active song is still there after the rescan.
pub proof fn law_rescan_keeps_wf(old_songs: Seq<Song>, new_songs: Seq<Song>, a: AnalysisQueue, b: AnalysisQueue)
    requires
        a.wf(),
        distinct_hashes(old_songs),
        new_songs.len() <= usize::MAX,
        forall|i: int| 0 <= i < a.queue@.len() ==> #[trigger] a.queue@[i] < old_songs.len(),
        a.active matches Some(j) ==> j.song_index < old_songs.len()
            && last_index_of_hash(merged_songs(old_songs, new_songs), old_songs[j.song_index as int].file_hash@) is Some,
        b.queue@ == remapped_queue(old_songs, merged_songs(old_songs, new_songs), a.queue@),
        b.active == remapped_active(old_songs, merged_songs(old_songs, new_songs), a.active),
    ensures
        b.wf(),
{
    let m = merged_songs(old_songs, new_songs);
    lemma_remapped_nodup(old_songs, m, a.queue@);
    if let Some(job) = a.active {
        let k = remapped_index(old_songs, m, job.song_index).unwrap();
        assert(b.active.unwrap().song_index == k);
        lemma_remapped_member(old_songs, m, a.queue@, k);
        if b.queue@.contains(k) {
            let x = choose|x: int| 0 <= x < a.queue@.len() && remapped_index(old_songs, m, #[trigger] a.queue@[x]) == Some(k);
            lemma_remap_injective(old_songs, m, job.song_index, a.queue@[x]);
            assert(a.queue@.contains(job.song_index));
        }
    }
}

} // verus!
