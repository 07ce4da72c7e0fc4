//! Lyrics timing during playback: which line is current, whether it and
//! the next line show, the countdown before a line after a long pause, and
//! which words are sung. Times are in milliseconds of playback.

use vstd::prelude::*;

verus! {

/// How long before its start a line counts as current.
pub const LYRICS_LEAD_MS: i64 = 150;

/// How long after its end a line stays current.
pub const LINE_HOLD_MS: i64 = 500;

/// How long the countdown before a line lasts.
pub const COUNTDOWN_MS: i64 = 3000;

/// The pause before a line from which a countdown is shown.
pub const COUNTDOWN_GAP_MS: i64 = 5000;

/// A word of the lyrics and when it is sung.
pub struct TimedWord {
    pub word: String,
    pub start_ms: i64,
    pub end_ms: i64,
}

/// A line of the lyrics: its words and when it is sung.
pub struct Segment {
    pub start_ms: i64,
    pub end_ms: i64,
    pub words: Vec<TimedWord>,
}

/// The line current at time `t`, looking from line `i` on: the first line
/// not yet over by more than the hold time, or the one after it when that
/// one is about to start; the last line once all are over.
pub open spec fn current_from(segs: Seq<Segment>, t: int, i: int) -> int
    decreases segs.len() - i,
{
    if i >= segs.len() {
        if segs.len() == 0 { 0 } else { segs.len() - 1 }
    } else if t < segs[i].end_ms + LINE_HOLD_MS {
        if i + 1 < segs.len() && t >= segs[i + 1].start_ms - LYRICS_LEAD_MS { i + 1 } else { i }
    } else {
        current_from(segs, t, i + 1)
    }
}

/// The line current at time `t`.
pub fn find_current_segment(segments: &Vec<Segment>, t: i64) -> (r: usize)
    ensures
        r as int == current_from(segments@, t as int, 0),
{
    let n = segments.len();
    let mut i: usize = 0;
    while i < n
        invariant
            n == segments@.len(),
            i <= n,
            current_from(segments@, t as int, 0) == current_from(segments@, t as int, i as int),
        decreases n - i,
    {
        if (t as i128) < (segments[i].end_ms as i128) + 500 {
            if i + 1 < n && (t as i128) >= (segments[i + 1].start_ms as i128) - 150 {
                return i + 1;
            }
            return i;
        }
        i = i + 1;
    }
    if n == 0 { 0 } else { n - 1 }
}

/// What the lyrics show at a moment.
pub struct LyricsFrame {
    /// The current line.
    pub segment: usize,
    /// Whether the current line is being sung.
    pub active: bool,
    /// Whether the current line shows.
    pub show_current: bool,
    /// Whether the next line shows.
    pub show_next: bool,
    /// The countdown number shown, if any.
    pub countdown: Option<i64>,
}

/// The pause before line `i`: since the start for the first line, else
/// since the end of the previous line.
pub open spec fn gap_before(segs: Seq<Segment>, i: int) -> int {
    if i == 0 { segs[0].start_ms as int } else { segs[i].start_ms - segs[i - 1].end_ms }
}

/// The countdown shown before line `i` at time `t`: after a pause of at
/// least five seconds, during the last three seconds before it starts, the
/// whole seconds left, rounded up.
pub open spec fn countdown_spec(segs: Seq<Segment>, i: int, t: int) -> Option<int> {
    let until = segs[i].start_ms - t;
    if gap_before(segs, i) >= COUNTDOWN_GAP_MS && until > 0 && until <= COUNTDOWN_MS {
        Some((until + 999) / 1000)
    } else {
        None
    }
}

/// Whether line `i` is being sung at time `t`: from the lead time before
/// its start to the hold time after its end.
pub open spec fn active_spec(segs: Seq<Segment>, i: int, t: int) -> bool {
    segs[i].start_ms - LYRICS_LEAD_MS <= t && t <= segs[i].end_ms + LINE_HOLD_MS
}

/// What the lyrics show at time `t`: the current line shows while sung or
/// counted down to, and the next line with it when there is one.
pub fn lyrics_frame(segments: &Vec<Segment>, t: i64) -> (r: LyricsFrame)
    requires
        segments@.len() > 0,
    ensures
        r.segment as int == current_from(segments@, t as int, 0),
        r.active == active_spec(segments@, r.segment as int, t as int),
        r.countdown matches Some(n) ==> countdown_spec(segments@, r.segment as int, t as int) == Some(n as int),
        r.countdown is None ==> countdown_spec(segments@, r.segment as int, t as int) is None,
        r.show_current == (r.active || r.countdown is Some),
        r.show_next == (r.show_current && r.segment + 1 < segments@.len()),
{
    let i = find_current_segment(segments, t);
    proof {
        lemma_current_in_range(segments@, t as int, 0);
    }
    let seg = &segments[i];
    let tt = t as i128;
    let start = seg.start_ms as i128;
    let end = seg.end_ms as i128;
    let active = start - 150 <= tt && tt <= end + 500;
    let gap: i128 = if i == 0 { start } else { start - (segments[i - 1].end_ms as i128) };
    let until: i128 = start - tt;
    let countdown = if gap >= 5000 && until > 0 && until <= 3000 {
        Some(((until + 999) / 1000) as i64)
    } else {
        None
    };
    let show_current = active || countdown.is_some();
    let show_next = show_current && i < segments.len() - 1;
    LyricsFrame { segment: i, active, show_current, show_next, countdown }
}

/// The countdown law: a countdown shows before a line exactly when the
/// line starts at least 5000 ms after the end of the line before it (after
/// the start of playback for the first line) and 1 to 3000 ms are left
/// until it starts; it then shows the whole seconds left, rounded up.
pub proof fn law_countdown_after_long_pause(segs: Seq<Segment>, i: int, t: int)
    requires
        0 <= i < segs.len(),
    ensures
        countdown_spec(segs, i, t) is Some <==> {
            &&& (i == 0 ==> segs[0].start_ms >= 5000)
            &&& (i > 0 ==> segs[i].start_ms - segs[i - 1].end_ms >= 5000)
            &&& 0 < segs[i].start_ms - t <= 3000
        },
        countdown_spec(segs, i, t) matches Some(n) ==> (n - 1) * 1000 < segs[i].start_ms - t <= n * 1000,
{
    let until = segs[i].start_ms - t;
    if countdown_spec(segs, i, t) is Some {
        let n = (until + 999) / 1000;
        assert((n - 1) * 1000 < until <= n * 1000) by (nonlinear_arith)
            requires n == (until + 999) / 1000, until > 0;
    }
}

/// The current line is always one of the lines, when there are any.
pub proof fn lemma_current_in_range(segs: Seq<Segment>, t: int, i: int)
    requires
        segs.len() > 0,
        0 <= i,
    ensures
        0 <= current_from(segs, t, i) < segs.len(),
    decreases segs.len() - i,
{
    if i < segs.len() && !(t < segs[i].end_ms + LINE_HOLD_MS) {
        lemma_current_in_range(segs, t, i + 1);
    }
}

/// How far a word is sung.
#[derive(Debug, Clone, Copy, PartialEq, Eq, Structural)]
pub enum WordState {
    Sung,
    /// Being sung: `elapsed_ms` of its `length_ms`.
    Singing { elapsed_ms: i64, length_ms: i64 },
    Unsung,
}

/// How far a word is sung at time `t`: sung once it ended, being sung once
/// it started, else not yet.
pub fn word_state(w: &TimedWord, t: i64) -> (r: WordState)
    requires
        w.end_ms - w.start_ms <= i64::MAX,
    ensures
        t >= w.end_ms ==> r == WordState::Sung,
        w.start_ms <= t < w.end_ms ==> r == (WordState::Singing { elapsed_ms: (t - w.start_ms) as i64, length_ms: (w.end_ms - w.start_ms) as i64 }),
        t < w.end_ms && t < w.start_ms ==> r == WordState::Unsung,
{
    if t >= w.end_ms {
        WordState::Sung
    } else if t >= w.start_ms {
        WordState::Singing { elapsed_ms: t - w.start_ms, length_ms: w.end_ms - w.start_ms }
    } else {
        WordState::Unsung
    }
}

/// When the lyrics end: the end of the last line, or 0 without lines.
pub fn last_segment_end(segments: &Vec<Segment>) -> (r: i64)
    ensures
        r == (if segments@.len() == 0 { 0 } else { segments@[segments@.len() - 1].end_ms }),
{
    if segments.len() == 0 { 0 } else { segments[segments.len() - 1].end_ms }
}

/// When the lyrics start: the start of the first line, or 0 without lines.
pub fn first_segment_start(segments: &Vec<Segment>) -> (r: i64)
    ensures
        r == (if segments@.len() == 0 { 0 } else { segments@[0].start_ms }),
{
    if segments.len() == 0 { 0 } else { segments[0].start_ms }
}

/// The lyrics of a song being played and the line shown.
pub struct LyricsState {
    pub segments: Vec<Segment>,
    pub current_segment: usize,
}

/// The lyrics state a song starts playing with: no line shown yet.
pub fn setup_lyrics(segments: Vec<Segment>) -> (r: LyricsState)
    ensures
        r.segments == segments,
        r.current_segment == usize::MAX,
{
    LyricsState { segments, current_segment: usize::MAX }
}

/// Moves the lyrics to the line current at time `t`; returns the frame and
/// whether the shown lines change (nothing without lines).
pub fn update_lyrics(lyrics: &mut LyricsState, t: i64) -> (r: Option<(LyricsFrame, bool)>)
    ensures
        final(lyrics).segments == old(lyrics).segments,
        old(lyrics).segments@.len() == 0 ==> r is None && final(lyrics).current_segment == old(lyrics).current_segment,
        old(lyrics).segments@.len() > 0 ==> r is Some,
        r matches Some((f, changed)) ==> (f.segment as int == current_from(old(lyrics).segments@, t as int, 0)
            && changed == (f.segment != old(lyrics).current_segment)
            && final(lyrics).current_segment == f.segment
            && f.active == active_spec(old(lyrics).segments@, f.segment as int, t as int)
            && f.show_current == (f.active || f.countdown is Some)
            && f.show_next == (f.show_current && f.segment + 1 < old(lyrics).segments@.len())
            && (f.countdown matches Some(n) ==> countdown_spec(old(lyrics).segments@, f.segment as int, t as int) == Some(n as int))
            && (f.countdown is None ==> countdown_spec(old(lyrics).segments@, f.segment as int, t as int) is None)),
{
    if lyrics.segments.len() == 0 {
        return None;
    }
    let f = lyrics_frame(&lyrics.segments, t);
    let changed = f.segment != lyrics.current_segment;
    lyrics.current_segment = f.segment;
    Some((f, changed))
}

/// The words of the current line and of the next one, when there are such
/// lines.
pub fn shown_lines(segments: &Vec<Segment>, idx: usize) -> (r: (Option<usize>, Option<usize>))
    ensures
        r.0 == (if idx < segments@.len() { Some(idx) } else { None }),
        r.1 == (if idx as int + 1 < segments@.len() { Some((idx + 1) as usize) } else { None }),
{
    let cur = if idx < segments.len() { Some(idx) } else { None };
    let next = if idx < segments.len() && idx + 1 < segments.len() { Some(idx + 1) } else { None };
    (cur, next)
}

} // verus!
