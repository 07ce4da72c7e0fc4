//! Background videos: the flavors and their search keywords, the cycling
//! of the active flavor, the Pixabay request and the downloads it yields,
//! how many videos to keep, and the order the decoder plays them in.

use vstd::prelude::*;
use rand::seq::IndexedRandom;
use crate::spotify::hex_upper;
use crate::text::{
    all_ascii, append_str, ascii_lower, decimal, decimal_spec, lowercase, push_char, to_lowercase, utf8,
};

verus! {

/// How many videos of a flavor are kept.
pub const MAX_CACHED_VIDEOS: usize = 5;

/// How many results one Pixabay request asks for.
pub const PIXABAY_PER_PAGE: u32 = 20;

/// A theme of background videos.
#[derive(Debug, Clone, Copy, PartialEq, Eq, Structural)]
pub enum VideoFlavor {
    Nature,
    Underwater,
    Space,
    City,
    Countryside,
}

/// The flavors in cycling order.
pub open spec fn flavor_at(i: int) -> VideoFlavor {
    if i == 0 {
        VideoFlavor::Nature
    } else if i == 1 {
        VideoFlavor::Underwater
    } else if i == 2 {
        VideoFlavor::Space
    } else if i == 3 {
        VideoFlavor::City
    } else {
        VideoFlavor::Countryside
    }
}

/// The position of a flavor in the cycling order.
pub open spec fn flavor_index(f: VideoFlavor) -> int {
    match f {
        VideoFlavor::Nature => 0,
        VideoFlavor::Underwater => 1,
        VideoFlavor::Space => 2,
        VideoFlavor::City => 3,
        VideoFlavor::Countryside => 4,
    }
}

/// The name shown for a flavor.
pub open spec fn flavor_name(f: VideoFlavor) -> Seq<char> {
    match f {
        VideoFlavor::Nature => "Nature"@,
        VideoFlavor::Underwater => "Underwater"@,
        VideoFlavor::Space => "Space"@,
        VideoFlavor::City => "City"@,
        VideoFlavor::Countryside => "Countryside"@,
    }
}

/// The search keywords of a flavor.
pub open spec fn flavor_keywords(f: VideoFlavor) -> Seq<Seq<char>> {
    match f {
        VideoFlavor::Nature => seq!["nature"@, "forest"@, "mountains"@, "sunset"@, "ocean"@, "waterfall"@],
        VideoFlavor::Underwater => seq!["underwater"@, "ocean"@, "coral"@, "fish"@, "diving"@],
        VideoFlavor::Space => seq!["space"@, "galaxy"@, "stars"@, "nebula"@, "aurora borealis"@],
        VideoFlavor::City => seq!["city night"@, "traffic"@, "skyline"@, "urban"@, "neon"@],
        VideoFlavor::Countryside => seq!["countryside"@, "farm"@, "meadow"@, "fields"@, "village"@],
    }
}

impl VideoFlavor {
    /// The flavors in cycling order.
    pub fn all() -> (r: Vec<VideoFlavor>)
        ensures
            r@.len() == 5,
            forall|i: int| 0 <= i < 5 ==> #[trigger] r@[i] == flavor_at(i),
    {
        let mut r = Vec::new();
        r.push(VideoFlavor::Nature);
        r.push(VideoFlavor::Underwater);
        r.push(VideoFlavor::Space);
        r.push(VideoFlavor::City);
        r.push(VideoFlavor::Countryside);
        r
    }

    /// The name shown for this flavor.
    pub fn name(&self) -> (r: &'static str)
        ensures
            r@ == flavor_name(*self),
    {
        match self {
            VideoFlavor::Nature => "Nature",
            VideoFlavor::Underwater => "Underwater",
            VideoFlavor::Space => "Space",
            VideoFlavor::City => "City",
            VideoFlavor::Countryside => "Countryside",
        }
    }

    /// The search keywords of this flavor.
    pub fn keywords(&self) -> (r: Vec<&'static str>)
        ensures
            r@.map_values(|s: &'static str| s@) == flavor_keywords(*self),
    {
        let mut r: Vec<&'static str> = Vec::new();
        match self {
            VideoFlavor::Nature => {
                r.push("nature");
                r.push("forest");
                r.push("mountains");
                r.push("sunset");
                r.push("ocean");
                r.push("waterfall");
            },
            VideoFlavor::Underwater => {
                r.push("underwater");
                r.push("ocean");
                r.push("coral");
                r.push("fish");
                r.push("diving");
            },
            VideoFlavor::Space => {
                r.push("space");
                r.push("galaxy");
                r.push("stars");
                r.push("nebula");
                r.push("aurora borealis");
            },
            VideoFlavor::City => {
                r.push("city night");
                r.push("traffic");
                r.push("skyline");
                r.push("urban");
                r.push("neon");
            },
            VideoFlavor::Countryside => {
                r.push("countryside");
                r.push("farm");
                r.push("meadow");
                r.push("fields");
                r.push("village");
            },
        }
        assert(r@.map_values(|s: &'static str| s@) =~= flavor_keywords(*self));
        r
    }

    /// The flavor at position `i` of the cycle, counting around.
    pub fn from_index(i: usize) -> (r: VideoFlavor)
        ensures
            r == flavor_at(i as int % 5),
    {
        let k = i % 5;
        if k == 0 {
            VideoFlavor::Nature
        } else if k == 1 {
            VideoFlavor::Underwater
        } else if k == 2 {
            VideoFlavor::Space
        } else if k == 3 {
            VideoFlavor::City
        } else {
            VideoFlavor::Countryside
        }
    }
}

/// The flavor the player shows, by its position in the cycle.
pub struct ActiveVideoFlavor {
    pub index: usize,
}

impl ActiveVideoFlavor {
    /// The first flavor.
    pub fn new() -> (r: Self)
        ensures
            r.index == 0,
    {
        ActiveVideoFlavor { index: 0 }
    }

    /// The flavor shown.
    pub fn flavor(&self) -> (r: VideoFlavor)
        ensures
            r == flavor_at(self.index as int % 5),
    {
        VideoFlavor::from_index(self.index)
    }

    /// Moves to the next flavor of the cycle.
    pub fn next(&mut self)
        requires
            old(self).index < usize::MAX,
        ensures
            final(self).index == (old(self).index + 1) % 5,
    {
        self.index = (self.index + 1) % 5;
    }
}

/// Moving on from any position, five steps come back to the same flavor,
/// and each step shows the next flavor of the cycle.
pub proof fn law_flavor_cycle(i: nat)
    ensures
        flavor_at(((i + 5) % 5) as int) == flavor_at((i % 5) as int),
        flavor_at(((i + 1) % 5) as int) == flavor_at(((flavor_index(flavor_at((i % 5) as int)) + 1) % 5) as int),
        flavor_index(flavor_at((i % 5) as int)) == i % 5,
{
}

/// One byte of a query as Pixabay's query encoding writes it: a space as
/// `+`, ASCII letters, digits and `-_.` as they are, anything else as `%XX`.
pub open spec fn query_byte(b: u8) -> Seq<char> {
    if b == 32 {
        seq!['+']
    } else if (65 <= b <= 90) || (97 <= b <= 122) || (48 <= b <= 57) || b == 45 || b == 95 || b == 46 {
        seq![b as char]
    } else {
        seq!['%', hex_upper(b as int / 16), hex_upper(b as int % 16)]
    }
}

/// The query encoding of a byte string, byte by byte.
pub open spec fn query_encode(b: Seq<u8>) -> Seq<char>
    decreases b.len(),
{
    if b.len() == 0 {
        Seq::empty()
    } else {
        query_encode(b.drop_last()) + query_byte(b.last())
    }
}

fn hex_digit(d: u8) -> (c: char)
    requires
        d < 16,
    ensures
        c == hex_upper(d as int),
{
    if d < 10 {
        (48u8 + d) as char
    } else {
        (55u8 + d) as char
    }
}

/// Encodes a search keyword for the Pixabay query string.
pub fn urlencodeq(s: &str) -> (r: String)
    ensures
        r@ == query_encode(utf8(s@)),
{
    let bytes = s.as_bytes();
    let mut r = String::new();
    let mut i: usize = 0;
    while i < bytes.len()
        invariant
            i <= bytes@.len(),
            bytes@ == utf8(s@),
            r@ == query_encode(bytes@.take(i as int)),
        decreases bytes@.len() - i,
    {
        let b = bytes[i];
        assert(bytes@.take(i + 1).drop_last() =~= bytes@.take(i as int));
        assert(bytes@.take(i + 1).last() == b);
        if b == 32 {
            push_char(&mut r, '+');
        } else if (65 <= b && b <= 90) || (97 <= b && b <= 122) || (48 <= b && b <= 57) || b == 45 || b == 95 || b == 46 {
            push_char(&mut r, b as char);
        } else {
            push_char(&mut r, '%');
            push_char(&mut r, hex_digit(b / 16));
            push_char(&mut r, hex_digit(b % 16));
        }
        i = i + 1;
        assert(r@ =~= query_encode(bytes@.take(i as int)));
    }
    assert(bytes@.take(bytes@.len() as int) =~= bytes@);
    r
}

/// `IndexedRandom::choose` on a slice of keywords, with the thread's
/// random generator: one of them, uniformly; none only for an empty slice.
#[verifier::external_body]
fn choose_keyword(kws: &[&'static str]) -> (r: Option<&'static str>)
    ensures
        r matches Some(k) ==> kws@.contains(k),
        kws@.len() > 0 ==> r is Some,
{
    kws.choose(&mut rand::rng()).copied()
}

/// A random keyword of the flavor.
pub fn pick_keyword(f: VideoFlavor) -> (r: &'static str)
    ensures
        flavor_keywords(f).contains(r@),
{
    let kws = f.keywords();
    assert(kws@.map_values(|s: &'static str| s@).len() == kws@.len());
    assert(flavor_keywords(f).len() > 0);
    match choose_keyword(kws.as_slice()) {
        Some(k) => {
            proof {
                let i = choose|i: int| 0 <= i < kws@.len() && kws@[i] == k;
                assert(kws@.map_values(|s: &'static str| s@)[i] == k@);
            }
            k
        },
        None => {
            assert(kws@.map_values(|s: &'static str| s@)[0] == kws@[0]@);
            kws[0]
        },
    }
}

/// The Pixabay request for popular safe videos matching a keyword.
pub open spec fn pixabay_url_spec(api_key: Seq<char>, keyword: Seq<char>) -> Seq<char> {
    "https://pixabay.com/api/videos/?key="@ + api_key + "&q="@ + query_encode(utf8(keyword))
        + "&per_page="@ + decimal_spec(PIXABAY_PER_PAGE as nat) + "&safesearch=true&order=popular"@
}

/// The Pixabay request for popular safe videos matching a keyword.
pub fn pixabay_url(api_key: &str, keyword: &str) -> (r: String)
    ensures
        r@ == pixabay_url_spec(api_key@, keyword@),
{
    let mut s = "https://pixabay.com/api/videos/?key=".to_owned();
    append_str(&mut s, api_key);
    append_str(&mut s, "&q=");
    let q = urlencodeq(keyword);
    append_str(&mut s, q.as_str());
    append_str(&mut s, "&per_page=");
    let n = decimal(PIXABAY_PER_PAGE as u64);
    append_str(&mut s, n.as_str());
    append_str(&mut s, "&safesearch=true&order=popular");
    s
}

/// The API key to use, if one is set and not empty.
pub fn usable_api_key(key: Option<String>) -> (r: Option<String>)
    ensures
        r == (match key {
            Some(k) => if k@.len() > 0 { Some(k) } else { None },
            None => None,
        }),
{
    match key {
        Some(k) => if k.as_str().is_empty() { None } else { Some(k) },
        None => None,
    }
}

/// One hit of a Pixabay listing: its id and its large and medium video URLs.
pub struct VideoHit {
    pub id: Option<u64>,
    pub large_url: Option<String>,
    pub medium_url: Option<String>,
}

/// A video to download and the file name to save it under.
pub struct PendingVideo {
    pub video_id: u64,
    pub url: String,
    pub file_name: String,
}

/// The download a hit yields: its large video, else its medium one; the
/// id reads as 0 when missing, and the file is named after it.
pub open spec fn hit_download(h: VideoHit) -> Option<(u64, Seq<char>, Seq<char>)> {
    let id = match h.id { Some(i) => i, None => 0 };
    let url = match h.large_url {
        Some(u) => Some(u@),
        None => match h.medium_url { Some(u) => Some(u@), None => None },
    };
    match url {
        Some(u) => Some((id, u, decimal_spec(id as nat) + ".mp4"@)),
        None => None,
    }
}

/// The downloads of a listing, in order, skipping hits without a video.
pub open spec fn listing_downloads(hits: Seq<VideoHit>) -> Seq<(u64, Seq<char>, Seq<char>)>
    decreases hits.len(),
{
    if hits.len() == 0 {
        Seq::empty()
    } else {
        let prev = listing_downloads(hits.drop_last());
        match hit_download(hits.last()) {
            Some(d) => prev.push(d),
            None => prev,
        }
    }
}

/// A pending download as id, URL and file name.
pub open spec fn pending_view(p: PendingVideo) -> (u64, Seq<char>, Seq<char>) {
    (p.video_id, p.url@, p.file_name@)
}

/// The downloads of a listing.
pub fn pending_downloads(hits: &Vec<VideoHit>) -> (r: Vec<PendingVideo>)
    ensures
        r@.map_values(|p: PendingVideo| pending_view(p)) == listing_downloads(hits@),
{
    let mut r: Vec<PendingVideo> = Vec::new();
    let mut i: usize = 0;
    while i < hits.len()
        invariant
            i <= hits@.len(),
            r@.map_values(|p: PendingVideo| pending_view(p)) == listing_downloads(hits@.take(i as int)),
        decreases hits@.len() - i,
    {
        let h = &hits[i];
        assert(hits@.take(i + 1).drop_last() =~= hits@.take(i as int));
        assert(hits@.take(i + 1).last() == hits@[i as int]);
        let url = match &h.large_url {
            Some(u) => Some(u.clone()),
            None => match &h.medium_url {
                Some(u) => Some(u.clone()),
                None => None,
            },
        };
        if let Some(u) = url {
            let id = match h.id { Some(x) => x, None => 0 };
            let mut name = decimal(id);
            append_str(&mut name, ".mp4");
            let ghost prev = r@;
            let p = PendingVideo { video_id: id, url: u, file_name: name };
            r.push(p);
            assert(r@.map_values(|p: PendingVideo| pending_view(p)) =~= prev.map_values(|p: PendingVideo| pending_view(p)).push(pending_view(p)));
        }
        i = i + 1;
    }
    assert(hits@.take(i as int) =~= hits@);
    r
}

/// How many more videos to fetch when `have` are kept.
pub fn videos_needed(have: usize) -> (r: usize)
    ensures
        r == (if have < MAX_CACHED_VIDEOS { MAX_CACHED_VIDEOS - have } else { 0 }),
{
    MAX_CACHED_VIDEOS.saturating_sub(have)
}

/// The positions of the listed videos that are not on disk yet, in listing
/// order.
pub open spec fn missing_positions(on_disk: Seq<bool>) -> Seq<int>
    decreases on_disk.len(),
{
    if on_disk.len() == 0 {
        Seq::empty()
    } else {
        let p = missing_positions(on_disk.drop_last());
        if on_disk.last() { p } else { p.push(on_disk.len() - 1) }
    }
}

/// The first `n` items of `s` (all of them when there are fewer).
pub open spec fn first_n(s: Seq<int>, n: nat) -> Seq<int> {
    if s.len() <= n { s } else { s.take(n as int) }
}

/// Which listed videos to fetch, given which of them are already on disk:
/// the first `needed` of those that are not, in listing order (their
/// positions in the listing).
pub fn videos_to_fetch(on_disk: &Vec<bool>, needed: usize) -> (r: Vec<usize>)
    ensures
        r@.map_values(|x: usize| x as int) == first_n(missing_positions(on_disk@), needed as nat),
{
    let mut r: Vec<usize> = Vec::new();
    let mut i: usize = 0;
    while i < on_disk.len()
        invariant
            i <= on_disk@.len(),
            r@.map_values(|x: usize| x as int) == first_n(missing_positions(on_disk@.take(i as int)), needed as nat),
        decreases on_disk@.len() - i,
    {
        let ghost prev = missing_positions(on_disk@.take(i as int));
        assert(on_disk@.take(i + 1).drop_last() =~= on_disk@.take(i as int));
        if !on_disk[i] && r.len() < needed {
            r.push(i);
        }
        i = i + 1;
        proof {
            let cur = missing_positions(on_disk@.take(i as int));
            if !on_disk@[i - 1] {
                assert(cur == prev.push(i - 1));
                if prev.len() < needed {
                    assert(first_n(prev, needed as nat) == prev);
                } else {
                    assert(first_n(cur, needed as nat) =~= first_n(prev, needed as nat));
                }
            } else {
                assert(cur == prev);
            }
            assert(r@.map_values(|x: usize| x as int) =~= first_n(cur, needed as nat));
        }
    }
    assert(on_disk@.take(i as int) =~= on_disk@);
    r
}

/// The name of a flavor's cache directory: its name in lowercase.
pub fn cache_dir_name(f: VideoFlavor) -> (r: String)
    ensures
        r@ == lowercase(flavor_name(f)),
        crate::ytdlp::plain_component(r@),
{
    let r = to_lowercase(f.name());
    proof {
        lemma_flavor_name_plain(f);
        lemma_ascii_lower_plain(flavor_name(f));
    }
    r
}

/// The user's cache directory (`dirs::cache_dir`), as a string. Nothing is
/// stated of the result: it comes from the environment.
#[verifier::external_body]
fn system_cache_dir() -> (r: Option<String>) {
    dirs::cache_dir().map(|p| p.to_string_lossy().into_owned())
}

/// `p` is the directory of a flavor's videos: `nightingale/videos/<name in
/// lowercase>` under some base directory.
pub open spec fn video_cache_dir_spec(f: VideoFlavor, p: Seq<char>) -> bool {
    exists|base: Seq<char>| #[trigger] crate::ytdlp::joined3(base, "nightingale"@, "videos"@, lowercase(flavor_name(f)), p)
}

/// A plain ASCII name stays a plain name in ASCII lowercase.
proof fn lemma_ascii_lower_plain(c: Seq<char>)
    requires
        crate::ytdlp::plain_component(c),
        all_ascii(c),
    ensures
        crate::ytdlp::plain_component(c.map_values(|x: char| ascii_lower(x))),
{
    let l = c.map_values(|x: char| ascii_lower(x));
    assert forall|i: int| 0 <= i < l.len() implies !crate::ytdlp::is_sep_char(#[trigger] l[i]) && l[i] != ':' by {
        assert(l[i] == ascii_lower(c[i]));
        assert(!crate::ytdlp::is_sep_char(c[i]) && c[i] != ':');
    }
    if l == seq!['.'] {
        assert(l[0] == ascii_lower(c[0]));
        assert(c =~= seq!['.']);
    }
    if l == seq!['.', '.'] {
        assert(l[0] == ascii_lower(c[0]));
        assert(l[1] == ascii_lower(c[1]));
        assert(c =~= seq!['.', '.']);
    }
}

/// A flavor's name is a plain ASCII path component.
proof fn lemma_flavor_name_plain(f: VideoFlavor)
    ensures
        crate::ytdlp::plain_component(flavor_name(f)),
        all_ascii(flavor_name(f)),
{
    let n = flavor_name(f);
    match f {
        VideoFlavor::Nature => {
            reveal_strlit("Nature");
            assert(n =~= seq!['N', 'a', 't', 'u', 'r', 'e']);
        },
        VideoFlavor::Underwater => {
            reveal_strlit("Underwater");
            assert(n =~= seq!['U', 'n', 'd', 'e', 'r', 'w', 'a', 't', 'e', 'r']);
        },
        VideoFlavor::Space => {
            reveal_strlit("Space");
            assert(n =~= seq!['S', 'p', 'a', 'c', 'e']);
        },
        VideoFlavor::City => {
            reveal_strlit("City");
            assert(n =~= seq!['C', 'i', 't', 'y']);
        },
        VideoFlavor::Countryside => {
            reveal_strlit("Countryside");
            assert(n =~= seq!['C', 'o', 'u', 'n', 't', 'r', 'y', 's', 'i', 'd', 'e']);
        },
    }
}

/// The directory the video cache lives under: the user's cache directory
/// when there is one, else `.cache`.
pub fn video_cache_base(cache_dir: Option<String>) -> (r: String)
    ensures
        r@ == (match cache_dir {
            Some(d) => d@,
            None => ".cache"@,
        }),
{
    match cache_dir {
        Some(d) => d,
        None => ".cache".to_owned(),
    }
}

/// The directory a flavor's videos are kept in under `base`:
/// `nightingale/videos/<name in lowercase>`.
pub fn video_cache_dir_in(base: &str, f: VideoFlavor) -> (r: String)
    ensures
        crate::ytdlp::joined3(base@, "nightingale"@, "videos"@, lowercase(flavor_name(f)), r@),
{
    let a = crate::ytdlp::join_path(base, "nightingale");
    let b = crate::ytdlp::join_path(a.as_str(), "videos");
    let name = cache_dir_name(f);
    let r = crate::ytdlp::join_path(b.as_str(), name.as_str());
    proof {
        crate::ytdlp::lemma_plain_literals();
        assert(crate::ytdlp::joined_path(base@, "nightingale"@, a@));
        assert(crate::ytdlp::joined2(base@, "nightingale"@, "videos"@, b@));
    }
    r
}

/// The directory a flavor's videos are kept in: `nightingale/videos/<name
/// in lowercase>` under the user's cache directory, or under `.cache` when
/// there is none.
pub fn video_cache_dir(f: VideoFlavor) -> (r: String)
    ensures
        video_cache_dir_spec(f, r@),
{
    let base = video_cache_base(system_cache_dir());
    let r = video_cache_dir_in(base.as_str(), f);
    proof {
        assert(crate::ytdlp::joined3(base@, "nightingale"@, "videos"@, lowercase(flavor_name(f)), r@));
    }
    r
}

/// The position in the playlist the decoder plays next.
pub struct PlaylistCursor {
    pub idx: usize,
}

impl PlaylistCursor {
    /// At the start of the playlist.
    pub fn new() -> (r: Self)
        ensures
            r.idx == 0,
    {
        PlaylistCursor { idx: 0 }
    }

    /// The entry to play from a playlist of `len` entries, counting around.
    pub fn current(&self, len: usize) -> (r: usize)
        requires
            len > 0,
        ensures
            r == self.idx % len,
            r < len,
    {
        self.idx % len
    }

    /// Moves past the entry just played; back to the start once past the
    /// end of a playlist of `len` entries.
    pub fn advance(&mut self, len: usize)
        requires
            old(self).idx < usize::MAX,
        ensures
            final(self).idx == (if old(self).idx + 1 >= len && len > 0 { 0 } else { old(self).idx + 1 }),
    {
        self.idx = self.idx + 1;
        if self.idx >= len && len > 0 {
            self.idx = 0;
        }
    }
}

/// Played through a playlist that does not change, the decoder visits its
/// entries in order and starts over after the last.
pub proof fn law_playlist_cycles(idx: usize, len: usize)
    requires
        len > 0,
        idx < len,
    ensures
        (if idx + 1 >= len { 0 } else { idx + 1 }) == (idx + 1) % (len as int),
{
    if idx + 1 >= len {
        assert(idx + 1 == len);
        assert((len as int) % (len as int) == 0) by (nonlinear_arith)
            requires len > 0;
    } else {
        assert((idx + 1) % (len as int) == idx + 1) by (nonlinear_arith)
            requires 0 <= idx + 1 < len;
    }
}

/// The arguments of the ffmpeg command that decodes a video to raw RGBA
/// frames of 1920x1080 at 30 frames a second.
pub fn decoder_args(path: &str) -> (r: Vec<String>)
    ensures
        r@.map_values(|s: String| s@) == seq![
            "-i"@, path@, "-f"@, "rawvideo"@, "-pix_fmt"@, "rgba"@, "-s"@, "1920x1080"@, "-r"@, "30"@,
            "-v"@, "error"@, "-"@,
        ],
{
    let mut r: Vec<String> = Vec::new();
    r.push("-i".to_owned());
    r.push(path.to_owned());
    r.push("-f".to_owned());
    r.push("rawvideo".to_owned());
    r.push("-pix_fmt".to_owned());
    r.push("rgba".to_owned());
    r.push("-s".to_owned());
    r.push("1920x1080".to_owned());
    r.push("-r".to_owned());
    r.push("30".to_owned());
    r.push("-v".to_owned());
    r.push("error".to_owned());
    r.push("-".to_owned());
    assert(r@.map_values(|s: String| s@) =~= seq![
        "-i"@, path@, "-f"@, "rawvideo"@, "-pix_fmt"@, "rgba"@, "-s"@, "1920x1080"@, "-r"@, "30"@,
        "-v"@, "error"@, "-"@,
    ]);
    r
}

} // verus!
