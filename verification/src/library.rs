//! The song library as the menu and the analysis queue see it: each song's
//! file, hash, tags and analysis status.

use vstd::prelude::*;
use crate::text::{chars_of, contains_spec, lowercase, to_lowercase, lower_contains};

verus! {

/// Where a song stands with the analyzer.
#[derive(Debug, Clone, PartialEq, Eq)]
pub enum AnalysisStatus {
    NotAnalyzed,
    Queued,
    Analyzing,
    Ready,
    Failed(String),
}

/// A song of the library.
#[derive(Debug, Clone)]
pub struct Song {
    pub path: String,
    pub file_hash: String,
    pub title: String,
    pub artist: String,
    pub album: String,
    /// The track's length in milliseconds.
    pub duration_ms: u64,
    /// The embedded cover picture, if any.
    pub album_art: Option<Vec<u8>>,
    pub analysis_status: AnalysisStatus,
}

/// The scanned library: its songs and the folder they were found in.
pub struct SongLibrary {
    pub songs: Vec<Song>,
    pub root_folder: String,
}

/// Whether `a` occurs in `b` as a contiguous piece.
pub open spec fn is_infix(a: Seq<char>, b: Seq<char>) -> bool {
    exists|i: int| 0 <= i && i + a.len() <= b.len() && #[trigger] b.subrange(i, i + a.len()) == a
}

/// Whether `t` can be the file stem of `path`: a non-empty piece of the path
/// without `/` (a piece of its last component).
pub open spec fn stem_piece(t: Seq<char>, path: Seq<char>) -> bool {
    &&& is_infix(t, path)
    &&& t.len() > 0
    &&& forall|i: int| 0 <= i < t.len() ==> #[trigger] t[i] != '/'
}

/// The text after the last `/` of `p` (all of `p` when it has none).
pub open spec fn after_last_slash(p: Seq<char>) -> Seq<char>
    decreases p.len(),
{
    if p.len() == 0 {
        p
    } else if p.last() == '/' {
        Seq::empty()
    } else {
        after_last_slash(p.drop_last()).push(p.last())
    }
}

/// The text before the last `.` of `n`, if it has one.
pub open spec fn before_last_dot(n: Seq<char>) -> Option<Seq<char>>
    decreases n.len(),
{
    if n.len() == 0 {
        None
    } else if n.last() == '.' {
        Some(n.drop_last())
    } else {
        before_last_dot(n.drop_last())
    }
}

/// The stem of a file name: the name without its last extension; the whole
/// name when it has no `.` or only a leading one.
pub open spec fn stem_of_name(n: Seq<char>) -> Seq<char> {
    match before_last_dot(n) {
        Some(b) => if b.len() == 0 { n } else { b },
        None => n,
    }
}

/// A path whose syntax is the same on every platform: no `\`, no `:`, not
/// starting with `//`, and ending in a file name (a last `/`-piece that is
/// not empty, `.` or `..`).
pub open spec fn simple_path(p: Seq<char>) -> bool {
    &&& forall|i: int| 0 <= i < p.len() ==> #[trigger] p[i] != '\\' && p[i] != ':'
    &&& !(p.len() >= 2 && p[0] == '/' && p[1] == '/')
    &&& after_last_slash(p).len() > 0
    &&& after_last_slash(p) != seq!['.']
    &&& after_last_slash(p) != seq!['.', '.']
}

/// `Path::file_stem` of a UTF-8 path, as a string: a piece of the path (its
/// last component without its extension), never empty and without `/`
/// (a separator on every platform). For a path whose syntax is the same on
/// every platform it is the stem of the text after the last `/`; for other
/// paths which piece is not stated, as it follows the platform's path
/// syntax.
#[verifier::external_body]
fn path_file_stem(path: &str) -> (r: Option<String>)
    ensures
        r matches Some(s) ==> stem_piece(s@, path@),
        r is Some || !simple_path(path@),
        r matches Some(s) ==> (simple_path(path@) ==> s@ == stem_of_name(after_last_slash(path@))),
{
    std::path::Path::new(path).file_stem().and_then(|s| s.to_str()).map(|s| s.to_string())
}

/// The title shown for a song with tag `title` and file stem `stem`: the
/// tag, else the stem, else "Unknown".
pub open spec fn shown_title(title: Seq<char>, stem: Option<Seq<char>>) -> Seq<char> {
    if title.len() == 0 {
        match stem {
            Some(st) => st,
            None => "Unknown"@,
        }
    } else {
        title
    }
}

/// Whether `t` can be the title shown for `s`: its tag when it has one;
/// else, for a path whose syntax is the same on every platform, the stem of
/// its file name; else "Unknown" or a non-empty piece of its path without
/// `/` (the file stem, which depends on the platform).
pub open spec fn title_choice(s: Song, t: Seq<char>) -> bool {
    if s.title@.len() > 0 {
        t == s.title@
    } else if simple_path(s.path@) {
        t == stem_of_name(after_last_slash(s.path@))
    } else {
        t == "Unknown"@ || stem_piece(t, s.path@)
    }
}

/// The artist shown for a song: its tag, else "Unknown Artist".
pub open spec fn display_artist_spec(s: Song) -> Seq<char> {
    if s.artist@.len() == 0 {
        "Unknown Artist"@
    } else {
        s.artist@
    }
}

/// The title shown for a song with tag `title` and file stem `stem`.
pub fn title_from(title: &str, stem: Option<String>) -> (r: String)
    ensures
        r@ == shown_title(title@, match stem { Some(st) => Some(st@), None => None }),
{
    if title.is_empty() {
        match stem {
            Some(st) => st,
            None => "Unknown".to_owned(),
        }
    } else {
        title.to_owned()
    }
}

impl Song {
    /// The title shown for this song: its tag, else its file name without
    /// extension, else "Unknown".
    pub fn display_title(&self) -> (r: String)
        ensures
            title_choice(*self, r@),
    {
        if self.title.as_str().is_empty() {
            let stem = path_file_stem(self.path.as_str());
            title_from(self.title.as_str(), stem)
        } else {
            self.title.clone()
        }
    }

    /// The artist shown for this song.
    pub fn display_artist(&self) -> (r: String)
        ensures
            r@ == display_artist_spec(*self),
    {
        if self.artist.as_str().is_empty() {
            "Unknown Artist".to_owned()
        } else {
            self.artist.clone()
        }
    }
}

/// Whether a song showing title `t` and artist `a` is listed under the
/// search text `q`: always when `q` is empty, else when the lowercased
/// title or artist contains the lowercased query.
pub open spec fn matches_shown(t: Seq<char>, a: Seq<char>, q: Seq<char>) -> bool {
    q.len() == 0 || contains_spec(lowercase(t), lowercase(q)) || contains_spec(lowercase(a), lowercase(q))
}

/// Whether a song showing `title` and `artist` is listed under the search
/// text `query`.
pub fn shown_matches(title: &str, artist: &str, query: &str) -> (r: bool)
    ensures
        r == matches_shown(title@, artist@, query@),
{
    if query.is_empty() {
        return true;
    }
    let q = to_lowercase(query);
    let qv = chars_of(q.as_str());
    if lower_contains(title, qv.as_slice()) {
        return true;
    }
    lower_contains(artist, qv.as_slice())
}

/// Whether a song is listed under the search text `query`, by the title and
/// artist it shows.
pub fn song_matches(s: &Song, query: &str) -> (r: bool)
    ensures
        query@.len() == 0 ==> r,
        exists|t: Seq<char>| title_choice(*s, t) && r == matches_shown(t, display_artist_spec(*s), query@),
{
    if query.is_empty() {
        proof {
            if s.title@.len() > 0 {
                assert(title_choice(*s, s.title@));
            } else if simple_path(s.path@) {
                assert(title_choice(*s, stem_of_name(after_last_slash(s.path@))));
            } else {
                reveal_strlit("Unknown");
                assert(title_choice(*s, "Unknown"@));
            }
        }
        return true;
    }
    let title = s.display_title();
    let artist = s.display_artist();
    let r = shown_matches(title.as_str(), artist.as_str(), query);
    assert(title_choice(*s, title@));
    r
}

/// The indices of the songs listed under `q`, in library order, when the
/// songs show the titles `titles`.
pub open spec fn visible_with(songs: Seq<Song>, titles: Seq<Seq<char>>, q: Seq<char>) -> Seq<usize> {
    Seq::new(songs.len(), |i: int| i).filter(listed(songs, titles, q)).map_values(|i: int| i as usize)
}

/// Whether song `i` is listed under `q` when the songs show `titles`.
pub open spec fn listed(songs: Seq<Song>, titles: Seq<Seq<char>>, q: Seq<char>) -> spec_fn(int) -> bool {
    |i: int| matches_shown(titles[i], display_artist_spec(songs[i]), q)
}

/// The indices of the songs listed under the search text `query`, in
/// library order.
pub fn visible_songs(songs: &Vec<Song>, query: &str) -> (r: Vec<usize>)
    ensures
        exists|titles: Seq<Seq<char>>| {
            &&& titles.len() == songs@.len()
            &&& forall|i: int| 0 <= i < songs@.len() ==> title_choice(songs@[i], #[trigger] titles[i])
            &&& r@ == visible_with(songs@, titles, query@)
        },
{
    let ghost all = Seq::new(songs@.len(), |i: int| i);
    let ghost mut titles: Seq<Seq<char>> = Seq::empty();
    let mut r: Vec<usize> = Vec::new();
    let mut i: usize = 0;
    while i < songs.len()
        invariant
            i <= songs@.len(),
            all == Seq::new(songs@.len(), |i: int| i),
            titles.len() == i,
            forall|k: int| 0 <= k < i ==> title_choice(songs@[k], #[trigger] titles[k]),
            r@ == all.take(i as int).filter(listed(songs@, titles, query@)).map_values(|k: int| k as usize),
        decreases songs@.len() - i,
    {
        let title = songs[i].display_title();
        let artist = songs[i].display_artist();
        let m = shown_matches(title.as_str(), artist.as_str(), query);
        let ghost old_titles = titles;
        proof {
            titles = titles.push(title@);
            assert forall|k: int| 0 <= k < i implies #[trigger] titles[k] == old_titles[k] by {}
            lemma_filter_titles(all.take(i as int), old_titles, titles, songs@, query@);
            reveal_with_fuel(Seq::<_>::filter, 1);
            assert(all.take(i + 1).drop_last() =~= all.take(i as int));
            assert(all.take(i + 1).last() == i as int);
        }
        if m {
            r.push(i);
        }
        proof {
            let pnew = listed(songs@, titles, query@);
            if m {
                assert(all.take(i + 1).filter(pnew) == all.take(i as int).filter(pnew).push(i as int));
            } else {
                assert(all.take(i + 1).filter(pnew) == all.take(i as int).filter(pnew));
            }
            assert(r@ =~= all.take(i + 1).filter(pnew).map_values(|k: int| k as usize));
        }
        i = i + 1;
    }
    assert(all.take(songs@.len() as int) =~= all);
    assert(r@ == visible_with(songs@, titles, query@));
    assert(titles.len() == songs@.len());
    assert(forall|i: int| 0 <= i < songs@.len() ==> title_choice(songs@[i], #[trigger] titles[i]));
    r
}

proof fn lemma_filter_titles(s: Seq<int>, t1: Seq<Seq<char>>, t2: Seq<Seq<char>>, songs: Seq<Song>, q: Seq<char>)
    requires
        forall|k: int| 0 <= k < s.len() ==> #[trigger] s[k] == k,
        s.len() <= t1.len(),
        s.len() <= t2.len(),
        forall|k: int| 0 <= k < s.len() ==> #[trigger] t1[k] == t2[k],
    ensures
        s.filter(listed(songs, t1, q)) == s.filter(listed(songs, t2, q)),
    decreases s.len(),
{
    reveal_with_fuel(Seq::<_>::filter, 1);
    if s.len() > 0 {
        let d = s.drop_last();
        assert forall|k: int| 0 <= k < d.len() implies #[trigger] d[k] == k by {
            assert(d[k] == s[k]);
        }
        lemma_filter_titles(d, t1, t2, songs, q);
        assert(s.last() == s.len() - 1);
        assert(t1[s.len() - 1] == t2[s.len() - 1]);
    }
}

/// Whether a status is `Ready`.
pub open spec fn is_ready(st: AnalysisStatus) -> bool {
    st matches AnalysisStatus::Ready
}

/// How many of the songs are ready to play.
pub open spec fn ready_count_spec(songs: Seq<Song>) -> nat
    decreases songs.len(),
{
    if songs.len() == 0 {
        0
    } else {
        ready_count_spec(songs.drop_last()) + if is_ready(songs.last().analysis_status) { 1nat } else { 0 }
    }
}

/// How many of the songs are ready to play.
pub fn ready_count(songs: &Vec<Song>) -> (r: usize)
    ensures
        r == ready_count_spec(songs@),
{
    let mut n: usize = 0;
    let mut i: usize = 0;
    while i < songs.len()
        invariant
            i <= songs@.len(),
            n == ready_count_spec(songs@.take(i as int)),
            n <= i,
        decreases songs@.len() - i,
    {
        assert(songs@.take(i + 1).drop_last() =~= songs@.take(i as int));
        if let AnalysisStatus::Ready = songs[i].analysis_status {
            n = n + 1;
        }
        i = i + 1;
    }
    assert(songs@.take(songs@.len() as int) =~= songs@);
    n
}

} // verus!
