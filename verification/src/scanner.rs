//! Scanning a music folder: which files are audio, a song's content hash,
//! its initial status, and the order the library lists songs in (by shown
//! artist, then shown title, ties in the order found).

use vstd::prelude::*;
use crate::library::{AnalysisStatus, Song, display_artist_spec, title_choice};
use crate::text::{chars_of, lowercase, string_from_chars, sub_chars, to_lowercase};

verus! {

/// The file extensions read as audio.
pub open spec fn audio_extensions() -> Seq<Seq<char>> {
    seq!["mp3"@, "flac"@, "ogg"@, "wav"@, "m4a"@, "aac"@, "wma"@]
}

/// Whether a file with extension `ext` (if any) is audio: its lowercase
/// form is one of the audio extensions.
pub fn is_audio_extension(ext: Option<&str>) -> (r: bool)
    ensures
        r == (match ext {
            Some(e) => audio_extensions().contains(lowercase(e@)),
            None => false,
        }),
{
    match ext {
        None => false,
        Some(e) => {
            let l = to_lowercase(e);
            let exts: [&str; 7] = ["mp3", "flac", "ogg", "wav", "m4a", "aac", "wma"];
            let mut i: usize = 0;
            let ghost all = audio_extensions();
            while i < 7
                invariant
                    i <= 7,
                    exts@.map_values(|s: &str| s@) == all,
                    all == audio_extensions(),
                    ext == Some(e),
                    l@ == lowercase(e@),
                    forall|k: int| 0 <= k < i ==> all[k] != l@,
                decreases 7 - i,
            {
                if crate::text::str_eq(exts[i], l.as_str()) {
                    assert(all[i as int] == l@);
                    assert(all.contains(l@));
                    return true;
                }
                i = i + 1;
            }
            false
        },
    }
}

/// The lowercase hexadecimal BLAKE3 hash of some bytes.
pub uninterp spec fn blake3_hex_of(bytes: Seq<u8>) -> Seq<char>;

/// Whether a character is a lowercase hexadecimal digit.
pub open spec fn is_lower_hex(c: char) -> bool {
    ('0' <= c && c <= '9') || ('a' <= c && c <= 'f')
}

/// `blake3::hash(bytes).to_hex()`: 64 lowercase hexadecimal digits.
#[verifier::external_body]
fn blake3_hex(bytes: &[u8]) -> (r: String)
    ensures
        r@ == blake3_hex_of(bytes@),
        r@.len() == 64,
        forall|i: int| 0 <= i < 64 ==> is_lower_hex(#[trigger] r@[i]),
{
    blake3::hash(bytes).to_hex().to_string()
}

/// A song's content hash: the first 32 hexadecimal digits of the BLAKE3
/// hash of the file's bytes.
pub fn compute_file_hash(contents: &[u8]) -> (r: String)
    ensures
        r@ == blake3_hex_of(contents@).take(32),
        r@.len() == 32,
{
    let hex = blake3_hex(contents);
    let v = chars_of(hex.as_str());
    let w = sub_chars(v.as_slice(), 0, 32);
    assert(w@ =~= blake3_hex_of(contents@).take(32));
    string_from_chars(w.as_slice())
}

/// The tags read from a file, with its length in milliseconds and its
/// cover picture.
pub struct SongTags {
    pub title: String,
    pub artist: String,
    pub album: String,
    pub duration_ms: u64,
    pub album_art: Option<Vec<u8>>,
}

/// A song found by a scan: ready when the analysis results for its hash are
/// already cached, else not analyzed.
pub fn build_song(path: String, file_hash: String, results_cached: bool, tags: SongTags) -> (s: Song)
    ensures
        s.path == path,
        s.file_hash == file_hash,
        s.title == tags.title,
        s.artist == tags.artist,
        s.album == tags.album,
        s.duration_ms == tags.duration_ms,
        s.album_art == tags.album_art,
        s.analysis_status == (if results_cached { AnalysisStatus::Ready } else { AnalysisStatus::NotAnalyzed }),
{
    Song {
        path,
        file_hash,
        title: tags.title,
        artist: tags.artist,
        album: tags.album,
        duration_ms: tags.duration_ms,
        album_art: tags.album_art,
        analysis_status: if results_cached { AnalysisStatus::Ready } else { AnalysisStatus::NotAnalyzed },
    }
}

/// Lexicographic order of character sequences by code point, which is the
/// order `str::cmp` gives (UTF-8 keeps code point order).
pub open spec fn lex_lt(a: Seq<char>, b: Seq<char>) -> bool
    decreases a.len(),
{
    if a.len() == 0 {
        b.len() > 0
    } else if b.len() == 0 {
        false
    } else if a[0] != b[0] {
        a[0] < b[0]
    } else {
        lex_lt(a.skip(1), b.skip(1))
    }
}

proof fn lemma_lex_trichotomy(a: Seq<char>, b: Seq<char>)
    ensures
        lex_lt(a, b) || lex_lt(b, a) || a == b,
        !(lex_lt(a, b) && lex_lt(b, a)),
        !lex_lt(a, a),
    decreases a.len(),
{
    if a.len() > 0 && b.len() > 0 {
        if a[0] == b[0] {
            lemma_lex_trichotomy(a.skip(1), b.skip(1));
            if a.skip(1) == b.skip(1) {
                assert(a =~= seq![a[0]] + a.skip(1));
                assert(b =~= seq![b[0]] + b.skip(1));
            }
        }
    } else if a.len() == 0 && b.len() == 0 {
        assert(a =~= b);
    }
    lemma_lex_irreflexive(a);
}

proof fn lemma_lex_irreflexive(a: Seq<char>)
    ensures
        !lex_lt(a, a),
    decreases a.len(),
{
    if a.len() > 0 {
        lemma_lex_irreflexive(a.skip(1));
    }
}

proof fn lemma_lex_trans(a: Seq<char>, b: Seq<char>, c: Seq<char>)
    requires
        lex_lt(a, b),
        lex_lt(b, c),
    ensures
        lex_lt(a, c),
    decreases a.len(),
{
    if a.len() > 0 && b.len() > 0 && c.len() > 0 && a[0] == b[0] && b[0] == c[0] {
        lemma_lex_trans(a.skip(1), b.skip(1), c.skip(1));
    }
}

/// The key order is code point order: two texts that first differ at
/// position `k` are ordered by their characters there, and a text comes
/// before every longer text it starts.
pub proof fn law_lex_code_point_order(a: Seq<char>, b: Seq<char>, k: int)
    requires
        0 <= k <= a.len(),
        k <= b.len(),
        a.take(k) == b.take(k),
    ensures
        k < a.len() && k < b.len() && a[k] != b[k] ==> (lex_lt(a, b) <==> a[k] < b[k]),
        k == a.len() && k < b.len() ==> lex_lt(a, b),
        k == b.len() ==> !lex_lt(a, b),
    decreases k,
{
    if k > 0 {
        assert(a[0] == a.take(k)[0] && b[0] == b.take(k)[0]);
        assert(a.skip(1).take(k - 1) =~= a.take(k).skip(1));
        assert(b.skip(1).take(k - 1) =~= b.take(k).skip(1));
        law_lex_code_point_order(a.skip(1), b.skip(1), k - 1);
        if k < a.len() && k < b.len() {
            assert(a.skip(1)[k - 1] == a[k] && b.skip(1)[k - 1] == b[k]);
        }
    }
}

/// Whether `k` can be the key a song is ordered by: its shown artist, then
/// a title it can show.
pub open spec fn key_choice(s: Song, k: (Seq<char>, Seq<char>)) -> bool {
    k.0 == display_artist_spec(s) && title_choice(s, k.1)
}

/// Whether key `a` comes before key `b`.
pub open spec fn key_lt(a: (Seq<char>, Seq<char>), b: (Seq<char>, Seq<char>)) -> bool {
    lex_lt(a.0, b.0) || (a.0 == b.0 && lex_lt(a.1, b.1))
}

proof fn lemma_key_order(a: (Seq<char>, Seq<char>), b: (Seq<char>, Seq<char>), c: (Seq<char>, Seq<char>))
    ensures
        key_lt(a, b) || key_lt(b, a) || a == b,
        !(key_lt(a, b) && key_lt(b, a)),
        key_lt(a, b) && key_lt(b, c) ==> key_lt(a, c),
{
    lemma_lex_trichotomy(a.0, b.0);
    lemma_lex_trichotomy(a.1, b.1);
    lemma_lex_trichotomy(b.0, c.0);
    lemma_lex_trichotomy(a.0, c.0);
    if lex_lt(a.0, b.0) && lex_lt(b.0, c.0) {
        lemma_lex_trans(a.0, b.0, c.0);
    }
    if a.0 == b.0 && b.0 == c.0 && lex_lt(a.1, b.1) && lex_lt(b.1, c.1) {
        lemma_lex_trans(a.1, b.1, c.1);
    }
}

/// Whether `a` comes before `b` in code point order.
fn lex_less(a: &[char], b: &[char]) -> (r: bool)
    ensures
        r == lex_lt(a@, b@),
{
    let mut i: usize = 0;
    assert(a@.skip(0) =~= a@ && b@.skip(0) =~= b@);
    while i < a.len() && i < b.len() && a[i] == b[i]
        invariant
            i <= a@.len(),
            i <= b@.len(),
            lex_lt(a@, b@) == lex_lt(a@.skip(i as int), b@.skip(i as int)),
        decreases a@.len() - i,
    {
        assert(a@.skip(i as int).skip(1) =~= a@.skip(i + 1));
        assert(b@.skip(i as int).skip(1) =~= b@.skip(i + 1));
        assert(a@.skip(i as int)[0] == a@[i as int]);
        assert(b@.skip(i as int)[0] == b@[i as int]);
        i = i + 1;
    }
    if i == a.len() {
        i < b.len()
    } else if i == b.len() {
        false
    } else {
        assert(a@.skip(i as int)[0] == a@[i as int]);
        assert(b@.skip(i as int)[0] == b@[i as int]);
        a[i] < b[i]
    }
}

fn chars_eq(a: &[char], b: &[char]) -> (r: bool)
    ensures
        r == (a@ == b@),
{
    if a.len() != b.len() {
        return false;
    }
    let mut i: usize = 0;
    while i < a.len()
        invariant
            a@.len() == b@.len(),
            i <= a@.len(),
            forall|j: int| 0 <= j < i ==> a@[j] == b@[j],
        decreases a@.len() - i,
    {
        if a[i] != b[i] {
            return false;
        }
        i = i + 1;
    }
    assert(a@ =~= b@);
    true
}

/// A song's key as characters.
struct SortKey {
    artist: Vec<char>,
    title: Vec<char>,
}

spec fn kv(k: SortKey) -> (Seq<char>, Seq<char>) {
    (k.artist@, k.title@)
}

fn key_of(s: &Song) -> (k: SortKey)
    ensures
        key_choice(*s, kv(k)),
{
    let a = s.display_artist();
    let t = s.display_title();
    SortKey { artist: chars_of(a.as_str()), title: chars_of(t.as_str()) }
}

fn key_less(a: &SortKey, b: &SortKey) -> (r: bool)
    ensures
        r == key_lt(kv(*a), kv(*b)),
{
    if lex_less(a.artist.as_slice(), b.artist.as_slice()) {
        return true;
    }
    if !chars_eq(a.artist.as_slice(), b.artist.as_slice()) {
        return false;
    }
    lex_less(a.title.as_slice(), b.title.as_slice())
}

/// Keys in order: none is smaller than one before it.
pub open spec fn keys_sorted(keys: Seq<(Seq<char>, Seq<char>)>) -> bool {
    forall|i: int, j: int| 0 <= i < j < keys.len() ==> !key_lt(keys[j], keys[i])
}

/// `p` lists each index below `n` exactly once.
pub open spec fn is_permutation(p: Seq<int>, n: nat) -> bool {
    &&& p.len() == n
    &&& forall|k: int| 0 <= k < p.len() ==> 0 <= #[trigger] p[k] < n
    &&& forall|k: int, l: int| 0 <= k < l < p.len() ==> p[k] != p[l]
}

/// `r` is `s` reordered by the permutation `p` so that the keys `keys` the
/// songs of `r` are ordered by come in order, songs of equal keys in their
/// order in `s`.
pub open spec fn stable_sort_of(s: Seq<Song>, r: Seq<Song>, p: Seq<int>, keys: Seq<(Seq<char>, Seq<char>)>) -> bool {
    &&& is_permutation(p, s.len())
    &&& r.len() == s.len()
    &&& keys.len() == r.len()
    &&& forall|k: int| 0 <= k < r.len() ==> r[k] == s[#[trigger] p[k]]
    &&& forall|k: int| 0 <= k < r.len() ==> key_choice(r[k], #[trigger] keys[k])
    &&& keys_sorted(keys)
    &&& forall|k: int, l: int| 0 <= k < l < r.len() && keys[k] == keys[l] ==> p[k] < p[l]
}

/// Orders songs by shown artist, then shown title; songs with the same
/// artist and title keep their order.
pub fn sort_songs(songs: Vec<Song>) -> (r: Vec<Song>)
    ensures
        exists|p: Seq<int>, keys: Seq<(Seq<char>, Seq<char>)>| stable_sort_of(songs@, r@, p, keys),
{
    let ghost orig = songs@;
    let mut out: Vec<Song> = Vec::new();
    let mut keys: Vec<SortKey> = Vec::new();
    let ghost mut p: Seq<int> = Seq::empty();
    for s in it: songs.into_iter()
        invariant
            it.seq() == orig,
            out@.len() == it.index(),
            keys@.len() == out@.len(),
            forall|k: int| 0 <= k < out@.len() ==> key_choice(out@[k], #[trigger] kv(keys@[k])),
            is_permutation(p, it.index() as nat),
            forall|k: int| 0 <= k < out@.len() ==> out@[k] == orig[#[trigger] p[k]],
            keys_sorted(keys@.map_values(|k: SortKey| kv(k))),
            forall|k: int, l: int| 0 <= k < l < out@.len() && kv(keys@[k]) == kv(keys@[l]) ==> p[k] < p[l],
    {
        let ghost i = it.index() as int;
        let key = key_of(&s);
        let ghost kx = kv(key);
        let ghost ks = keys@.map_values(|k: SortKey| kv(k));
        let mut pos: usize = 0;
        while pos < keys.len() && !key_less(&key, &keys[pos])
            invariant
                pos <= keys@.len(),
                kv(key) == kx,
                ks == keys@.map_values(|k: SortKey| kv(k)),
                forall|k: int| 0 <= k < pos ==> !key_lt(kx, #[trigger] ks[k]),
            decreases keys@.len() - pos,
        {
            assert(ks[pos as int] == kv(keys@[pos as int]));
            pos = pos + 1;
        }
        proof {
            if pos < keys@.len() {
                assert(ks[pos as int] == kv(keys@[pos as int]));
                assert(key_lt(kx, ks[pos as int]));
                assert forall|k: int| pos <= k < ks.len() implies key_lt(kx, #[trigger] ks[k]) by {
                    if k > pos {
                        lemma_key_order(ks[pos as int], ks[k], kx);
                        lemma_key_order(kx, ks[pos as int], ks[k]);
                    }
                }
            }
        }
        let ghost old_out = out@;
        let ghost old_p = p;
        let ghost old_keys = keys@;
        out.insert(pos, s);
        keys.insert(pos, key);
        proof {
            p = old_p.insert(pos as int, i);
            let nks = keys@.map_values(|k: SortKey| kv(k));
            assert(nks =~= ks.insert(pos as int, kx));
            assert forall|k: int| 0 <= k < out@.len() implies key_choice(out@[k], #[trigger] kv(keys@[k])) by {
                if k < pos {
                    assert(out@[k] == old_out[k] && keys@[k] == old_keys[k]);
                } else if k > pos {
                    assert(out@[k] == old_out[k - 1] && keys@[k] == old_keys[k - 1]);
                }
            }
            assert forall|k: int| 0 <= k < out@.len() implies out@[k] == orig[#[trigger] p[k]] by {
                if k < pos {
                    assert(out@[k] == old_out[k] && p[k] == old_p[k]);
                } else if k == pos {
                    assert(orig[i] == s);
                } else {
                    assert(out@[k] == old_out[k - 1] && p[k] == old_p[k - 1]);
                }
            }
            assert forall|k: int| 0 <= k < p.len() implies 0 <= #[trigger] p[k] < i + 1 by {
                if k < pos {
                    assert(p[k] == old_p[k]);
                } else if k > pos {
                    assert(p[k] == old_p[k - 1]);
                }
            }
            assert forall|k: int, l: int| 0 <= k < l < p.len() implies p[k] != p[l] by {
                let pk = if k < pos { old_p[k] } else if k == pos { i } else { old_p[k - 1] };
                let pl = if l < pos { old_p[l] } else if l == pos { i } else { old_p[l - 1] };
                assert(p[k] == pk && p[l] == pl);
                if k == pos {
                    assert(old_p[l - 1] < i);
                } else if l == pos {
                    assert(old_p[k] < i);
                }
            }
            assert forall|a: int, b: int| 0 <= a < b < nks.len() implies !key_lt(nks[b], nks[a]) by {
                if a < pos && b < pos {
                    assert(nks[a] == ks[a] && nks[b] == ks[b]);
                } else if a < pos && b == pos {
                    assert(nks[a] == ks[a]);
                } else if a < pos && b > pos {
                    assert(nks[a] == ks[a] && nks[b] == ks[b - 1]);
                } else if a == pos {
                    assert(nks[b] == ks[b - 1]);
                    lemma_key_order(kx, ks[b - 1], kx);
                } else {
                    assert(nks[a] == ks[a - 1] && nks[b] == ks[b - 1]);
                }
            }
            assert forall|a: int, b: int| 0 <= a < b < out@.len() && kv(keys@[a]) == kv(keys@[b]) implies p[a] < p[b] by {
                assert(kv(keys@[a]) == nks[a] && kv(keys@[b]) == nks[b]);
                if a < pos && b < pos {
                    assert(keys@[a] == old_keys[a] && keys@[b] == old_keys[b]);
                    assert(p[a] == old_p[a] && p[b] == old_p[b]);
                } else if a < pos && b == pos {
                    assert(p[a] == old_p[a]);
                    assert(old_p[a] < i);
                } else if a < pos && b > pos {
                    assert(keys@[a] == old_keys[a] && keys@[b] == old_keys[b - 1]);
                    assert(p[a] == old_p[a] && p[b] == old_p[b - 1]);
                } else if a == pos {
                    assert(nks[b] == ks[b - 1]);
                    assert(key_lt(kx, ks[b - 1]));
                    lemma_key_order(kx, kx, kx);
                } else {
                    assert(keys@[a] == old_keys[a - 1] && keys@[b] == old_keys[b - 1]);
                    assert(p[a] == old_p[a - 1] && p[b] == old_p[b - 1]);
                }
            }
        }
    }
    let ghost fk = keys@.map_values(|k: SortKey| kv(k));
    assert forall|k: int| 0 <= k < out@.len() implies key_choice(out@[k], #[trigger] fk[k]) by {
        assert(fk[k] == kv(keys@[k]));
    }
    assert forall|k: int, l: int| 0 <= k < l < out@.len() && fk[k] == fk[l] implies p[k] < p[l] by {
        assert(fk[k] == kv(keys@[k]) && fk[l] == kv(keys@[l]));
    }
    assert(stable_sort_of(orig, out@, p, fk));
    out
}

} // verus!
