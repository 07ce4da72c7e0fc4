//! yt-dlp: where the tool is installed, which release to fetch, the search
//! and download commands, how a search result is scored and the best one
//! chosen, and how a progress line is read.

use vstd::prelude::*;
use crate::spotify::SpotifyTrack;
use crate::text::{
    append_str, chars_of, contains_chars, contains_spec, find_chars, find_spec,
    lemma_find_from_in_range, lower_contains, lowercase, string_from_chars, sub_chars, to_lowercase,
    trim_bounds, trim_spec,
};

verus! {

/// The user's home directory (`dirs::home_dir`), as a string. Nothing is
/// stated of the result: it comes from the environment.
#[verifier::external_body]
pub(crate) fn home_dir() -> (r: Option<String>) {
    dirs::home_dir().map(|p| p.to_string_lossy().into_owned())
}

/// A path separator on some platform: `/`, or `\\` on Windows.
pub open spec fn is_sep_char(c: char) -> bool {
    c == '/' || c == '\\'
}

/// A relative path component that is a plain name: not empty, not `.` or
/// `..`, and without separators or `:`.
pub open spec fn plain_component(c: Seq<char>) -> bool {
    &&& c.len() > 0
    &&& c != seq!['.']
    &&& c != seq!['.', '.']
    &&& forall|i: int| 0 <= i < c.len() ==> !is_sep_char(#[trigger] c[i]) && c[i] != ':'
}

/// The text before the last component of a joined path: empty, or ending
/// in a separator or a drive's `:`.
pub open spec fn join_head(x: Seq<char>) -> bool {
    x.len() == 0 || is_sep_char(x.last()) || x.last() == ':'
}

/// `p` is `base` joined with the plain name `comp`: `comp` after some head
/// that ends in a separator or `:`; unless `base` starts with `\\` (a
/// Windows prefix that joining may rewrite), that head is `base` itself
/// or `base` and a separator.
pub open spec fn joined_path(base: Seq<char>, comp: Seq<char>, p: Seq<char>) -> bool {
    exists|x: Seq<char>| #[trigger] join_head(x) && p == x + comp
        && ((base.len() == 0 || base[0] != '\\') ==> (x == base || x == base.push('/') || x == base.push('\\')))
}

/// `p` is `base` joined with `c1`, then `c2`.
pub open spec fn joined2(base: Seq<char>, c1: Seq<char>, c2: Seq<char>, p: Seq<char>) -> bool {
    exists|a: Seq<char>| #[trigger] joined_path(base, c1, a) && joined_path(a, c2, p)
}

/// `p` is `base` joined with `c1`, then `c2`, then `c3`.
pub open spec fn joined3(base: Seq<char>, c1: Seq<char>, c2: Seq<char>, c3: Seq<char>, p: Seq<char>) -> bool {
    exists|b: Seq<char>| #[trigger] joined2(base, c1, c2, b) && joined_path(b, c3, p)
}

/// `Path::join` of a directory and a component, as a string. For a plain
/// name the result is the directory, a separator where the directory does
/// not already end in one (the platform's separator), and the name; a
/// directory starting with `\\` may be rewritten on Windows, and then only
/// the end of the result is stated. Nothing is stated for other components.
#[verifier::external_body]
pub(crate) fn join_path(base: &str, component: &str) -> (r: String)
    ensures
        plain_component(component@) ==> joined_path(base@, component@, r@),
{
    std::path::Path::new(base).join(component).to_string_lossy().into_owned()
}

/// Whether a file exists at `path` (`Path::is_file`). Nothing is stated of
/// the result: it depends on what is on disk.
#[verifier::external_body]
pub(crate) fn path_is_file(path: &str) -> (r: bool) {
    std::path::Path::new(path).is_file()
}

/// The platform's path separator (`std::path::MAIN_SEPARATOR`). Nothing is
/// stated of the result: it depends on the platform.
#[verifier::external_body]
fn main_separator() -> (r: char) {
    std::path::MAIN_SEPARATOR
}

/// The name of the yt-dlp executable.
pub open spec fn ytdlp_file_name(windows: bool) -> Seq<char> {
    if windows { "yt-dlp.exe"@ } else { "yt-dlp"@ }
}

/// `d` is the directory yt-dlp is installed in: `.nightingale/vendor` under
/// some home directory.
pub open spec fn ytdlp_dir_path(d: Seq<char>) -> bool {
    exists|h: Seq<char>| #[trigger] joined2(h, ".nightingale"@, "vendor"@, d)
}

/// The fixed directory and file names used below are plain path components.
pub(crate) proof fn lemma_plain_literals()
    ensures
        plain_component(".nightingale"@),
        plain_component(".karasad"@),
        plain_component("vendor"@),
        plain_component("yt-dlp"@),
        plain_component("yt-dlp.exe"@),
        plain_component("cache"@),
        plain_component("downloads"@),
        plain_component("nightingale.log"@),
        plain_component("nightingale"@),
        plain_component("videos"@),
{
    assert(plain_component(".nightingale"@)) by {
        reveal_strlit(".nightingale");
        assert(".nightingale"@ =~= seq!['.', 'n', 'i', 'g', 'h', 't', 'i', 'n', 'g', 'a', 'l', 'e']);
    }
    assert(plain_component(".karasad"@)) by {
        reveal_strlit(".karasad");
        assert(".karasad"@ =~= seq!['.', 'k', 'a', 'r', 'a', 's', 'a', 'd']);
    }
    assert(plain_component("vendor"@)) by {
        reveal_strlit("vendor");
        assert("vendor"@ =~= seq!['v', 'e', 'n', 'd', 'o', 'r']);
    }
    assert(plain_component("yt-dlp"@)) by {
        reveal_strlit("yt-dlp");
        assert("yt-dlp"@ =~= seq!['y', 't', '-', 'd', 'l', 'p']);
    }
    assert(plain_component("yt-dlp.exe"@)) by {
        reveal_strlit("yt-dlp.exe");
        assert("yt-dlp.exe"@ =~= seq!['y', 't', '-', 'd', 'l', 'p', '.', 'e', 'x', 'e']);
    }
    assert(plain_component("cache"@)) by {
        reveal_strlit("cache");
        assert("cache"@ =~= seq!['c', 'a', 'c', 'h', 'e']);
    }
    assert(plain_component("downloads"@)) by {
        reveal_strlit("downloads");
        assert("downloads"@ =~= seq!['d', 'o', 'w', 'n', 'l', 'o', 'a', 'd', 's']);
    }
    assert(plain_component("nightingale.log"@)) by {
        reveal_strlit("nightingale.log");
        assert("nightingale.log"@ =~= seq!['n', 'i', 'g', 'h', 't', 'i', 'n', 'g', 'a', 'l', 'e', '.', 'l', 'o', 'g']);
    }
    assert(plain_component("nightingale"@)) by {
        reveal_strlit("nightingale");
        assert("nightingale"@ =~= seq!['n', 'i', 'g', 'h', 't', 'i', 'n', 'g', 'a', 'l', 'e']);
    }
    assert(plain_component("videos"@)) by {
        reveal_strlit("videos");
        assert("videos"@ =~= seq!['v', 'i', 'd', 'e', 'o', 's']);
    }
}

/// The directory yt-dlp is installed in under the home directory `home`:
/// `.nightingale/vendor`.
pub fn ytdlp_dir_in(home: &str) -> (r: String)
    ensures
        joined2(home@, ".nightingale"@, "vendor"@, r@),
{
    let a = join_path(home, ".nightingale");
    let d = join_path(a.as_str(), "vendor");
    proof {
        lemma_plain_literals();
        assert(joined_path(home@, ".nightingale"@, a@));
    }
    d
}

/// The directory yt-dlp is installed in, if there is a home directory.
pub fn ytdlp_dir() -> (r: Option<String>)
    ensures
        r matches Some(d) ==> ytdlp_dir_path(d@),
{
    match home_dir() {
        Some(home) => {
            let d = ytdlp_dir_in(home.as_str());
            proof {
                assert(joined2(home@, ".nightingale"@, "vendor"@, d@));
            }
            Some(d)
        },
        None => None,
    }
}

/// The name of the yt-dlp executable on a platform.
pub fn executable_name(windows: bool) -> (r: &'static str)
    ensures
        r@ == ytdlp_file_name(windows),
{
    if windows { "yt-dlp.exe" } else { "yt-dlp" }
}

/// The yt-dlp executable under the home directory `home`, on Windows or
/// not: `.nightingale/vendor/yt-dlp[.exe]`.
pub fn ytdlp_path_in(home: &str, windows: bool) -> (r: String)
    ensures
        joined3(home@, ".nightingale"@, "vendor"@, ytdlp_file_name(windows), r@),
{
    let d = ytdlp_dir_in(home);
    let p = join_path(d.as_str(), executable_name(windows));
    proof {
        lemma_plain_literals();
        assert(joined2(home@, ".nightingale"@, "vendor"@, d@));
    }
    p
}

/// `p` is the yt-dlp executable under some home directory, under the name
/// it has on some platform: `.nightingale/vendor/yt-dlp[.exe]`.
pub open spec fn ytdlp_exe_path(p: Seq<char>) -> bool {
    exists|h: Seq<char>, w: bool| #[trigger] joined3(h, ".nightingale"@, "vendor"@, ytdlp_file_name(w), p)
}

/// The path of the yt-dlp executable, if there is a home directory.
pub fn ytdlp_path() -> (r: Option<String>)
    ensures
        r matches Some(p) ==> ytdlp_exe_path(p@),
{
    match home_dir() {
        Some(home) => {
            let windows = main_separator() == '\\';
            let p = ytdlp_path_in(home.as_str(), windows);
            proof {
                assert(joined3(home@, ".nightingale"@, "vendor"@, ytdlp_file_name(windows), p@));
            }
            Some(p)
        },
        None => None,
    }
}

/// Whether yt-dlp is installed.
pub fn is_available() -> (r: bool) {
    match ytdlp_path() {
        Some(p) => path_is_file(p.as_str()),
        None => false,
    }
}

/// The platforms yt-dlp ships a release for.
#[derive(Debug, Clone, Copy, PartialEq, Eq, Structural)]
pub enum Platform {
    Windows,
    MacOs,
    Other,
}

/// The release asset to fetch for a platform and the name to install it
/// under.
pub open spec fn release_spec(p: Platform) -> (Seq<char>, Seq<char>) {
    match p {
        Platform::Windows => ("https://github.com/yt-dlp/yt-dlp/releases/latest/download/yt-dlp.exe"@, "yt-dlp.exe"@),
        Platform::MacOs => ("https://github.com/yt-dlp/yt-dlp/releases/latest/download/yt-dlp_macos"@, "yt-dlp"@),
        Platform::Other => ("https://github.com/yt-dlp/yt-dlp/releases/latest/download/yt-dlp"@, "yt-dlp"@),
    }
}

/// The release asset to fetch for a platform and the name to install it
/// under.
pub fn ytdlp_release(p: Platform) -> (r: (&'static str, &'static str))
    ensures
        (r.0@, r.1@) == release_spec(p),
{
    match p {
        Platform::Windows => ("https://github.com/yt-dlp/yt-dlp/releases/latest/download/yt-dlp.exe", "yt-dlp.exe"),
        Platform::MacOs => ("https://github.com/yt-dlp/yt-dlp/releases/latest/download/yt-dlp_macos", "yt-dlp"),
        Platform::Other => ("https://github.com/yt-dlp/yt-dlp/releases/latest/download/yt-dlp", "yt-dlp"),
    }
}

/// What making yt-dlp available takes.
pub enum YtdlpSetup {
    /// It is installed.
    Ready,
    /// The release at `url` must be fetched into `dir` as `file_name`.
    Fetch { url: String, dir: String, file_name: String },
    /// There is no home directory to install it in.
    NoHome,
}

/// What making yt-dlp available takes, given whether it is installed and
/// the directory to install it in (none when there is no home directory):
/// nothing when it is installed; else the platform's release, fetched into
/// that directory; else there is nowhere to put it.
pub fn ytdlp_setup(available: bool, dir: Option<String>, p: Platform) -> (r: YtdlpSetup)
    ensures
        available ==> r is Ready,
        !available && dir is None ==> r is NoHome,
        !available && dir is Some ==> (r matches YtdlpSetup::Fetch { url, dir: d, file_name }
            && (url@, file_name@) == release_spec(p) && dir == Some(d)),
{
    if available {
        return YtdlpSetup::Ready;
    }
    match dir {
        Some(dir) => {
            let (url, name) = ytdlp_release(p);
            YtdlpSetup::Fetch { url: url.to_owned(), dir, file_name: name.to_owned() }
        },
        None => YtdlpSetup::NoHome,
    }
}

/// Whether yt-dlp is installed, and if not, what to fetch for the platform
/// and where to put it.
pub fn ensure_ytdlp(p: Platform) -> (r: YtdlpSetup)
    ensures
        r matches YtdlpSetup::Fetch { url, file_name, .. } ==> (url@, file_name@) == release_spec(p),
        r matches YtdlpSetup::Fetch { dir, .. } ==> ytdlp_dir_path(dir@),
{
    let available = is_available();
    let dir = if available { None } else { ytdlp_dir() };
    ytdlp_setup(available, dir, p)
}

/// The search yt-dlp runs for a query: its first five YouTube results.
pub fn search_term(query: &str) -> (r: String)
    ensures
        r@ == "ytsearch5:"@ + query@,
{
    let mut s = "ytsearch5:".to_owned();
    append_str(&mut s, query);
    s
}

/// The first artist of a track, or "Unknown".
pub open spec fn first_artist_or_unknown(t: SpotifyTrack) -> Seq<char> {
    if t.artists@.len() > 0 { t.artists@[0]@ } else { "Unknown"@ }
}

/// The YouTube query for a track: "<first artist> - <name> audio".
pub fn search_query_for(track: &SpotifyTrack) -> (r: String)
    ensures
        r@ == first_artist_or_unknown(*track) + " - "@ + track.name@ + " audio"@,
{
    let mut s = if track.artists.len() > 0 { track.artists[0].clone() } else { "Unknown".to_owned() };
    append_str(&mut s, " - ");
    append_str(&mut s, track.name.as_str());
    append_str(&mut s, " audio");
    s
}

/// One line of `yt-dlp --dump-json` output, with the duration in
/// milliseconds.
pub struct YtResult {
    pub url: Option<String>,
    pub webpage_url: Option<String>,
    pub id: Option<String>,
    pub title: Option<String>,
    pub duration_ms: Option<u64>,
    pub channel: Option<String>,
}

/// The URL of a result: its page URL, else its URL, else the watch URL of
/// its id, else empty.
pub open spec fn result_url(r: YtResult) -> Seq<char> {
    match r.webpage_url {
        Some(u) => u@,
        None => match r.url {
            Some(u) => u@,
            None => match r.id {
                Some(id) => "https://www.youtube.com/watch?v="@ + id@,
                None => Seq::empty(),
            },
        },
    }
}

/// The URL of a result.
pub fn candidate_url(r: &YtResult) -> (u: String)
    ensures
        u@ == result_url(*r),
{
    match &r.webpage_url {
        Some(u) => u.clone(),
        None => match &r.url {
            Some(u) => u.clone(),
            None => match &r.id {
                Some(id) => {
                    let mut s = "https://www.youtube.com/watch?v=".to_owned();
                    append_str(&mut s, id.as_str());
                    s
                },
                None => String::new(),
            },
        },
    }
}

/// The bonus for what the title says it is, in milliseconds: official
/// audio and audio are preferred, then lyrics videos.
pub open spec fn audio_bonus(title_lower: Seq<char>) -> int {
    if contains_spec(title_lower, "official audio"@) {
        -20000
    } else if contains_spec(title_lower, "audio"@) {
        -10000
    } else if contains_spec(title_lower, "lyrics"@) || contains_spec(title_lower, "lyric"@) {
        -5000
    } else {
        0
    }
}

/// A title word that rules a result out: the title has it and the query
/// does not ask for it.
pub open spec fn rejected_word(title_lower: Seq<char>, query_lower: Seq<char>, word: Seq<char>) -> bool {
    contains_spec(title_lower, word) && !contains_spec(query_lower, word)
}

/// How far a duration is from the expected one, in milliseconds.
pub open spec fn duration_gap(d: u64, expected: u64) -> int {
    if d >= expected { d - expected } else { expected - d }
}

/// Whether a result may be chosen: it has a URL, its duration is within 15
/// seconds of the expected one, and its title says none of live, remix and
/// cover unless the query does too.
pub open spec fn acceptable(r: YtResult, query: Seq<char>, expected_ms: u64) -> bool {
    let tl = lowercase(match r.title { Some(t) => t@, None => Seq::empty() });
    let ql = lowercase(query);
    let d = match r.duration_ms { Some(d) => d, None => 0 };
    &&& result_url(r).len() > 0
    &&& duration_gap(d, expected_ms) <= 15000
    &&& !rejected_word(tl, ql, "live"@)
    &&& !rejected_word(tl, ql, "remix"@)
    &&& !rejected_word(tl, ql, "cover"@)
}

/// The artist part of a search query "<artist> - <title> audio": the text
/// before the first " - " (none when there is no " - ").
pub open spec fn query_artist(query: Seq<char>) -> Seq<char> {
    match find_spec(query, " - "@) {
        Some(k) => query.take(k),
        None => Seq::empty(),
    }
}

/// The bonus for a channel that matches the artist, in milliseconds: 5
/// seconds when the lowercased channel name contains the lowercased artist
/// part of the query.
pub open spec fn channel_bonus(r: YtResult, query: Seq<char>) -> int {
    let a = lowercase(query_artist(query));
    match r.channel {
        Some(c) => if a.len() > 0 && contains_spec(lowercase(c@), a) { -5000 } else { 0 },
        None => 0,
    }
}

/// The channel bonus of a result for a query.
fn channel_bonus_of(r: &YtResult, query: &str) -> (v: i64)
    ensures
        v == channel_bonus(*r, query@),
{
    match &r.channel {
        Some(c) => {
            let qv = chars_of(query);
            let dash = chars_of(" - ");
            match find_chars(qv.as_slice(), dash.as_slice(), 0) {
                Some(k) => {
                    proof {
                        lemma_find_from_in_range(qv@, dash@, 0);
                    }
                    let artist = string_from_chars(sub_chars(qv.as_slice(), 0, k).as_slice());
                    assert(artist@ =~= query_artist(query@));
                    let al = chars_of(to_lowercase(artist.as_str()).as_str());
                    if al.len() > 0 && lower_contains(c.as_str(), al.as_slice()) { -5000 } else { 0 }
                },
                None => {
                    proof {
                        reveal_strlit("");
                    }
                    let al = chars_of(to_lowercase("").as_str());
                    assert(query_artist(query@) =~= ""@);
                    if al.len() > 0 && lower_contains(c.as_str(), al.as_slice()) { -5000 } else { 0 }
                },
            }
        },
        None => 0,
    }
}

/// The score of an acceptable result (lower is better), in milliseconds:
/// the gap to the expected duration, the audio bonus and the channel bonus;
/// none for a result that is not acceptable.
pub open spec fn result_score(r: YtResult, query: Seq<char>, expected_ms: u64) -> Option<int> {
    let tl = lowercase(match r.title { Some(t) => t@, None => Seq::empty() });
    let d = match r.duration_ms { Some(d) => d, None => 0 };
    if acceptable(r, query, expected_ms) {
        Some(duration_gap(d, expected_ms) + audio_bonus(tl) + channel_bonus(r, query))
    } else {
        None
    }
}

/// The URL of the best-scored result, the earliest among equals.
pub open spec fn best_result(rs: Seq<YtResult>, query: Seq<char>, expected_ms: u64) -> Option<(int, Seq<char>)>
    decreases rs.len(),
{
    if rs.len() == 0 {
        None
    } else {
        let prev = best_result(rs.drop_last(), query, expected_ms);
        match result_score(rs.last(), query, expected_ms) {
            None => prev,
            Some(s) => match prev {
                Some((ps, pu)) => if s < ps { Some((s, result_url(rs.last()))) } else { Some((ps, pu)) },
                None => Some((s, result_url(rs.last()))),
            },
        }
    }
}

fn contains_lit(hay: &Vec<char>, needle: &str) -> (r: bool)
    ensures
        r == contains_spec(hay@, needle@),
{
    let n = chars_of(needle);
    contains_chars(hay.as_slice(), n.as_slice())
}

/// The score of one result, if it is a candidate.
pub fn score_result(r: &YtResult, query: &str, expected_ms: u64) -> (s: Option<i64>)
    ensures
        s matches Some(v) ==> result_score(*r, query@, expected_ms) == Some(v as int),
        s is None ==> result_score(*r, query@, expected_ms) is None,
{
    let url = candidate_url(r);
    let d: u64 = match r.duration_ms { Some(d) => d, None => 0 };
    let gap: u64 = if d >= expected_ms { d - expected_ms } else { expected_ms - d };
    if url.as_str().is_empty() || gap > 15000 {
        return None;
    }
    let title = match &r.title { Some(t) => t.clone(), None => String::new() };
    let tl = chars_of(to_lowercase(title.as_str()).as_str());
    let ql = chars_of(to_lowercase(query).as_str());
    if (contains_lit(&tl, "live") && !contains_lit(&ql, "live"))
        || (contains_lit(&tl, "remix") && !contains_lit(&ql, "remix"))
        || (contains_lit(&tl, "cover") && !contains_lit(&ql, "cover")) {
        return None;
    }
    let bonus: i64 = if contains_lit(&tl, "official audio") {
        -20000
    } else if contains_lit(&tl, "audio") {
        -10000
    } else if contains_lit(&tl, "lyrics") || contains_lit(&tl, "lyric") {
        -5000
    } else {
        0
    };
    let channel = channel_bonus_of(r, query);
    Some(gap as i64 + bonus + channel)
}

/// The URL of the best result of a search: the lowest score, the earliest
/// among equals; an error naming the query when no result is a candidate.
pub fn pick_youtube_result(results: &Vec<YtResult>, query: &str, expected_ms: u64) -> (r: Result<String, String>)
    ensures
        r matches Ok(u) ==> best_result(results@, query@, expected_ms) matches Some((_, bu)) && u@ == bu,
        r matches Err(e) ==> best_result(results@, query@, expected_ms) is None
            && e@ == "No YouTube results found for: "@ + query@,
{
    let mut best: Option<(i64, String)> = None;
    let mut i: usize = 0;
    while i < results.len()
        invariant
            i <= results@.len(),
            (match best {
                Some((s, u)) => best_result(results@.take(i as int), query@, expected_ms) == Some((s as int, u@)),
                None => best_result(results@.take(i as int), query@, expected_ms) is None,
            }),
        decreases results@.len() - i,
    {
        assert(results@.take(i + 1).drop_last() =~= results@.take(i as int));
        assert(results@.take(i + 1).last() == results@[i as int]);
        match score_result(&results[i], query, expected_ms) {
            Some(s) => {
                let keep = match &best {
                    Some((bs, _)) => s >= *bs,
                    None => false,
                };
                if !keep {
                    best = Some((s, candidate_url(&results[i])));
                }
            },
            None => {},
        }
        i = i + 1;
    }
    assert(results@.take(results@.len() as int) =~= results@);
    match best {
        Some((_, u)) => Ok(u),
        None => {
            let mut e = "No YouTube results found for: ".to_owned();
            append_str(&mut e, query);
            Err(e)
        },
    }
}

/// The text of the `n`th piece of `s` split at `sep`, counting from 0.
pub open spec fn split_piece(s: Seq<char>, sep: Seq<char>, n: nat) -> Option<Seq<char>>
    decreases n,
{
    match find_spec(s, sep) {
        None => if n == 0 { Some(s) } else { None },
        Some(k) => if n == 0 {
            Some(s.take(k))
        } else if sep.len() == 0 {
            None
        } else {
            split_piece(s.skip(k + sep.len()), sep, (n - 1) as nat)
        },
    }
}

/// The percentage text of a yt-dlp progress line such as
/// `[download]  45.2% of 5.23MiB`: the trimmed text between `[download]`
/// and the first `%`, when the line holds both.
pub open spec fn progress_text_spec(line: Seq<char>) -> Option<Seq<char>> {
    if !contains_spec(line, "[download]"@) || !contains_spec(line, "%"@) {
        None
    } else {
        match split_piece(line, "[download]"@, 1) {
            None => None,
            Some(after) => match split_piece(trim_spec(after), "%"@, 0) {
                None => None,
                Some(p) => Some(trim_spec(p)),
            },
        }
    }
}

/// The first piece of `s` split at `sep`, and the rest after it.
fn first_piece(s: &[char], sep: &[char]) -> (r: (Vec<char>, Option<Vec<char>>))
    requires
        sep@.len() > 0,
    ensures
        split_piece(s@, sep@, 0) == Some(r.0@),
        r.1 is None <==> find_spec(s@, sep@) is None,
        r.1 matches Some(rest) ==> (forall|n: nat| #[trigger] split_piece(s@, sep@, n + 1) == split_piece(rest@, sep@, n)),
{
    match find_chars(s, sep, 0) {
        Some(k) => {
            proof {
                crate::text::lemma_find_from_in_range(s@, sep@, 0);
            }
            let head = sub_chars(s, 0, k);
            let m = s.len();
            let rest = sub_chars(s, k + sep.len(), m);
            assert(head@ =~= s@.take(k as int));
            assert(rest@ =~= s@.skip(k + sep@.len()));
            assert forall|n: nat| #[trigger] split_piece(s@, sep@, n + 1) == split_piece(rest@, sep@, n) by {
                assert((n + 1) as nat - 1 == n);
            }
            (head, Some(rest))
        },
        None => {
            let all = sub_chars(s, 0, s.len());
            assert(all@ =~= s@);
            (all, None)
        },
    }
}

/// The percentage text of a yt-dlp progress line, for the caller to read as
/// a number.
pub fn download_progress_text(line: &str) -> (r: Option<String>)
    ensures
        r matches Some(t) ==> progress_text_spec(line@) == Some(t@),
        r is None ==> progress_text_spec(line@) is None,
{
    let v = chars_of(line);
    let marker = chars_of("[download]");
    let pct = chars_of("%");
    proof {
        reveal_strlit("[download]");
        reveal_strlit("%");
    }
    if !contains_chars(v.as_slice(), marker.as_slice()) || !contains_chars(v.as_slice(), pct.as_slice()) {
        return None;
    }
    let (_, rest) = first_piece(v.as_slice(), marker.as_slice());
    let rest = match rest {
        Some(r) => r,
        None => return None,
    };
    let (after, _) = first_piece(rest.as_slice(), marker.as_slice());
    assert(split_piece(v@, marker@, 1) == Some(after@)) by {
        assert(split_piece(v@, marker@, 0 + 1) == split_piece(rest@, marker@, 0));
    }
    let (a, b) = trim_bounds(after.as_slice());
    let trimmed = sub_chars(after.as_slice(), a, b);
    let (p, _) = first_piece(trimmed.as_slice(), pct.as_slice());
    let (c, d) = trim_bounds(p.as_slice());
    let out = sub_chars(p.as_slice(), c, d);
    Some(string_from_chars(out.as_slice()))
}

/// What `str::trim_end_matches` leaves of `s` with `suffix`: `s` without
/// every trailing repetition of `suffix`.
pub open spec fn trim_suffix_all(s: Seq<char>, suffix: Seq<char>) -> Seq<char>
    decreases s.len(),
{
    if suffix.len() > 0 && s.len() >= suffix.len() && s.skip(s.len() - suffix.len()) == suffix {
        trim_suffix_all(s.take(s.len() - suffix.len()), suffix)
    } else {
        s
    }
}

/// The output path without its `.opus` extensions, which yt-dlp adds back.
pub fn output_stem(path: &str) -> (r: String)
    ensures
        r@ == trim_suffix_all(path@, ".opus"@),
{
    let v = chars_of(path);
    let sfx = chars_of(".opus");
    proof {
        reveal_strlit(".opus");
    }
    let mut end = v.len();
    assert(v@.take(end as int) =~= v@);
    while end >= sfx.len() && crate::text::chars_occur_at(v.as_slice(), sfx.as_slice(), end - sfx.len())
        invariant
            end <= v@.len(),
            sfx@ == ".opus"@,
            sfx@.len() == 5,
            trim_suffix_all(v@, sfx@) == trim_suffix_all(v@.take(end as int), sfx@),
        decreases end,
    {
        let ghost t = v@.take(end as int);
        assert(t.skip(t.len() - sfx@.len()) =~= v@.subrange(end - sfx@.len(), end as int));
        assert(t.take(t.len() - sfx@.len()) =~= v@.take(end - sfx@.len()));
        end = end - sfx.len();
    }
    proof {
        let t = v@.take(end as int);
        if end >= sfx@.len() {
            assert(t.skip(t.len() - sfx@.len()) =~= v@.subrange(end - sfx@.len(), end as int));
        }
    }
    let w = sub_chars(v.as_slice(), 0, end);
    assert(w@ =~= v@.take(end as int));
    string_from_chars(w.as_slice())
}

/// The output template handed to yt-dlp for a stem.
pub fn output_template(stem: &str) -> (r: String)
    ensures
        r@ == stem@ + ".%(ext)s"@,
{
    let mut s = stem.to_owned();
    append_str(&mut s, ".%(ext)s");
    s
}

/// The other files yt-dlp may leave for a stem, in the order they are
/// looked for.
pub fn fallback_outputs(stem: &str) -> (r: Vec<String>)
    ensures
        r@.len() == 2,
        r@[0]@ == stem@ + ".webm"@,
        r@[1]@ == stem@ + ".m4a"@,
{
    let mut a = stem.to_owned();
    append_str(&mut a, ".webm");
    let mut b = stem.to_owned();
    append_str(&mut b, ".m4a");
    let mut r = Vec::new();
    r.push(a);
    r.push(b);
    r
}

/// The arguments of the search command.
pub fn search_args(query: &str) -> (r: Vec<String>)
    ensures
        r@.map_values(|s: String| s@) == seq!["--dump-json"@, "--no-download"@, "--no-warnings"@, "--flat-playlist"@, "ytsearch5:"@ + query@],
{
    let mut r: Vec<String> = Vec::new();
    r.push("--dump-json".to_owned());
    r.push("--no-download".to_owned());
    r.push("--no-warnings".to_owned());
    r.push("--flat-playlist".to_owned());
    r.push(search_term(query));
    assert(r@.map_values(|s: String| s@) =~= seq!["--dump-json"@, "--no-download"@, "--no-warnings"@, "--flat-playlist"@, "ytsearch5:"@ + query@]);
    r
}

/// The arguments of the download command for a URL, an output stem and the
/// directory of ffmpeg.
pub fn download_args(ffmpeg_dir: &str, stem: &str, url: &str) -> (r: Vec<String>)
    ensures
        r@.map_values(|s: String| s@) == seq![
            "-x"@, "--audio-format"@, "opus"@, "--audio-quality"@, "0"@, "--no-playlist"@,
            "--no-warnings"@, "--progress"@, "--newline"@, "--ffmpeg-location"@, ffmpeg_dir@,
            "-o"@, stem@ + ".%(ext)s"@, url@,
        ],
{
    let mut r: Vec<String> = Vec::new();
    r.push("-x".to_owned());
    r.push("--audio-format".to_owned());
    r.push("opus".to_owned());
    r.push("--audio-quality".to_owned());
    r.push("0".to_owned());
    r.push("--no-playlist".to_owned());
    r.push("--no-warnings".to_owned());
    r.push("--progress".to_owned());
    r.push("--newline".to_owned());
    r.push("--ffmpeg-location".to_owned());
    r.push(ffmpeg_dir.to_owned());
    r.push("-o".to_owned());
    r.push(output_template(stem));
    r.push(url.to_owned());
    assert(r@.map_values(|s: String| s@) =~= seq![
        "-x"@, "--audio-format"@, "opus"@, "--audio-quality"@, "0"@, "--no-playlist"@,
        "--no-warnings"@, "--progress"@, "--newline"@, "--ffmpeg-location"@, ffmpeg_dir@,
        "-o"@, stem@ + ".%(ext)s"@, url@,
    ]);
    r
}

} // verus!

verus! {

/// The scoring law: an acceptable result scores its duration gap in
/// milliseconds plus its channel bonus, less 20000 when its lowercased
/// title says "official audio", else less 10000 when it says "audio", else
/// less 5000 when it says "lyric"; a result that is not acceptable has no
/// score.
pub proof fn law_result_score(r: YtResult, query: Seq<char>, expected_ms: u64)
    ensures
        !acceptable(r, query, expected_ms) ==> result_score(r, query, expected_ms) is None,
        acceptable(r, query, expected_ms) ==> {
            let tl = lowercase(match r.title { Some(t) => t@, None => Seq::empty() });
            let d = match r.duration_ms { Some(d) => d, None => 0 };
            let gap: int = if d >= expected_ms { d - expected_ms } else { expected_ms - d };
            let base = gap + channel_bonus(r, query);
            &&& contains_spec(tl, "official audio"@) ==> result_score(r, query, expected_ms) == Some(base - 20000)
            &&& !contains_spec(tl, "official audio"@) && contains_spec(tl, "audio"@)
                ==> result_score(r, query, expected_ms) == Some(base - 10000)
            &&& !contains_spec(tl, "official audio"@) && !contains_spec(tl, "audio"@)
                && (contains_spec(tl, "lyrics"@) || contains_spec(tl, "lyric"@))
                ==> result_score(r, query, expected_ms) == Some(base - 5000)
            &&& !contains_spec(tl, "official audio"@) && !contains_spec(tl, "audio"@)
                && !contains_spec(tl, "lyrics"@) && !contains_spec(tl, "lyric"@)
                ==> result_score(r, query, expected_ms) == Some(base)
        },
{
}

/// The chosen result is an acceptable search result (with a URL, within 15
/// seconds of the expected duration, and not a live, remix or cover version
/// the query did not ask for), scored lowest of all candidates and first
/// among those scored as low; when none is chosen, no result is a
/// candidate.
pub proof fn law_best_result(rs: Seq<YtResult>, query: Seq<char>, expected_ms: u64)
    ensures
        best_result(rs, query, expected_ms) matches Some((s, u)) ==> exists|i: int| {
            &&& 0 <= i < rs.len()
            &&& #[trigger] result_score(rs[i], query, expected_ms) == Some(s)
            &&& result_url(rs[i]) == u
            &&& acceptable(rs[i], query, expected_ms)
            &&& forall|j: int| 0 <= j < i ==> !(#[trigger] result_score(rs[j], query, expected_ms) matches Some(v) && v <= s)
        },
        best_result(rs, query, expected_ms) matches Some((s, u)) ==> forall|j: int| 0 <= j < rs.len()
            ==> (#[trigger] result_score(rs[j], query, expected_ms) matches Some(v) ==> s <= v),
        best_result(rs, query, expected_ms) is None ==> forall|j: int| 0 <= j < rs.len()
            ==> (#[trigger] result_score(rs[j], query, expected_ms)) is None,
    decreases rs.len(),
{
    if rs.len() > 0 {
        let d = rs.drop_last();
        law_best_result(d, query, expected_ms);
        let n = rs.len() - 1;
        assert forall|j: int| 0 <= j < d.len() implies #[trigger] rs[j] == d[j] by {}
        match best_result(rs, query, expected_ms) {
            Some((s, u)) => {
                match best_result(d, query, expected_ms) {
                    Some((ps, pu)) => {
                        let i = choose|i: int| {
                            &&& 0 <= i < d.len()
                            &&& #[trigger] result_score(d[i], query, expected_ms) == Some(ps)
                            &&& result_url(d[i]) == pu
                            &&& acceptable(d[i], query, expected_ms)
                            &&& forall|j: int| 0 <= j < i ==> !(#[trigger] result_score(d[j], query, expected_ms) matches Some(v) && v <= ps)
                        };
                        assert(rs[i] == d[i]);
                        if s == ps && u == pu {
                            assert forall|j: int| 0 <= j < i implies !(#[trigger] result_score(rs[j], query, expected_ms) matches Some(v) && v <= s) by {
                                assert(rs[j] == d[j]);
                            }
                        } else {
                            assert(result_score(rs[n], query, expected_ms) == Some(s));
                            assert forall|j: int| 0 <= j < n implies !(#[trigger] result_score(rs[j], query, expected_ms) matches Some(v) && v <= s) by {
                                assert(rs[j] == d[j]);
                            }
                        }
                    },
                    None => {
                        assert(result_score(rs[n], query, expected_ms) == Some(s));
                        assert forall|j: int| 0 <= j < n implies !(#[trigger] result_score(rs[j], query, expected_ms) matches Some(v) && v <= s) by {
                            assert(rs[j] == d[j]);
                        }
                    },
                }
            },
            None => {},
        }
    }
}

} // verus!
