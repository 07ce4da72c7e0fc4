//! The analysis cache: where it lives and the files it keeps per song hash.

use vstd::prelude::*;
use crate::text::append_str;
use crate::ytdlp::{
    home_dir, join_path, joined2, joined_path, lemma_plain_literals, path_is_file, plain_component,
};

verus! {

/// `c` is an analysis cache directory: `.karasad/cache` under some home
/// directory.
pub open spec fn cache_dir_spec(c: Seq<char>) -> bool {
    exists|h: Seq<char>| #[trigger] joined2(h, ".karasad"@, "cache"@, c)
}

/// The analysis cache directory under the home directory `home`:
/// `.karasad/cache`.
pub fn cache_dir_in(home: &str) -> (r: String)
    ensures
        joined2(home@, ".karasad"@, "cache"@, r@),
{
    let a = join_path(home, ".karasad");
    let d = join_path(a.as_str(), "cache");
    proof {
        lemma_plain_literals();
        assert(joined_path(home@, ".karasad"@, a@));
    }
    d
}

/// The cache directory under the home directory: `.karasad/cache`, if
/// there is a home directory.
pub fn cache_dir_path() -> (r: Option<String>)
    ensures
        r matches Some(d) ==> cache_dir_spec(d@),
{
    match home_dir() {
        Some(home) => {
            let d = cache_dir_in(home.as_str());
            proof {
                assert(joined2(home@, ".karasad"@, "cache"@, d@));
            }
            Some(d)
        },
        None => None,
    }
}

/// The files the analyzer leaves for a song hash.
pub open spec fn cache_file_name(hash: Seq<char>, kind: CacheFile) -> Seq<char> {
    hash + match kind {
        CacheFile::Transcript => "_transcript.json"@,
        CacheFile::Instrumental => "_instrumental.ogg"@,
        CacheFile::Vocals => "_vocals.ogg"@,
        CacheFile::Lyrics => "_lyrics.json"@,
    }
}

/// The kinds of files kept per song.
#[derive(Debug, Clone, Copy, PartialEq, Eq, Structural)]
pub enum CacheFile {
    Transcript,
    Instrumental,
    Vocals,
    Lyrics,
}

/// The kind of the `i`th file listed for a song: transcript, instrumental
/// track, vocal track, lyrics.
pub open spec fn cache_file_order(i: int) -> CacheFile {
    if i == 0 {
        CacheFile::Transcript
    } else if i == 1 {
        CacheFile::Instrumental
    } else if i == 2 {
        CacheFile::Vocals
    } else {
        CacheFile::Lyrics
    }
}

/// The name of a cached file for a song hash.
pub fn file_name(hash: &str, kind: CacheFile) -> (r: String)
    ensures
        r@ == cache_file_name(hash@, kind),
{
    let mut s = hash.to_owned();
    match kind {
        CacheFile::Transcript => append_str(&mut s, "_transcript.json"),
        CacheFile::Instrumental => append_str(&mut s, "_instrumental.ogg"),
        CacheFile::Vocals => append_str(&mut s, "_vocals.ogg"),
        CacheFile::Lyrics => append_str(&mut s, "_lyrics.json"),
    }
    s
}

/// The analysis cache directory.
pub struct CacheDir {
    pub path: String,
}

impl CacheDir {
    /// The path of a cached file for a song hash.
    pub fn file_path(&self, hash: &str, kind: CacheFile) -> (r: String)
        ensures
            plain_component(cache_file_name(hash@, kind))
                ==> joined_path(self.path@, cache_file_name(hash@, kind), r@),
    {
        let name = file_name(hash, kind);
        join_path(self.path.as_str(), name.as_str())
    }

    /// The path of the transcript of a song hash.
    pub fn transcript_path(&self, hash: &str) -> (r: String)
        ensures
            plain_component(cache_file_name(hash@, CacheFile::Transcript))
                ==> joined_path(self.path@, cache_file_name(hash@, CacheFile::Transcript), r@),
    {
        self.file_path(hash, CacheFile::Transcript)
    }

    /// The path of the instrumental track of a song hash.
    pub fn instrumental_path(&self, hash: &str) -> (r: String)
        ensures
            plain_component(cache_file_name(hash@, CacheFile::Instrumental))
                ==> joined_path(self.path@, cache_file_name(hash@, CacheFile::Instrumental), r@),
    {
        self.file_path(hash, CacheFile::Instrumental)
    }

    /// The path of the vocal track of a song hash.
    pub fn vocals_path(&self, hash: &str) -> (r: String)
        ensures
            plain_component(cache_file_name(hash@, CacheFile::Vocals))
                ==> joined_path(self.path@, cache_file_name(hash@, CacheFile::Vocals), r@),
    {
        self.file_path(hash, CacheFile::Vocals)
    }

    /// The path of the lyrics of a song hash.
    pub fn lyrics_path(&self, hash: &str) -> (r: String)
        ensures
            plain_component(cache_file_name(hash@, CacheFile::Lyrics))
                ==> joined_path(self.path@, cache_file_name(hash@, CacheFile::Lyrics), r@),
    {
        self.file_path(hash, CacheFile::Lyrics)
    }

    /// Whether a song's analysis results are cached: its transcript and
    /// both of its tracks are files.
    pub fn transcript_exists(&self, hash: &str) -> (r: bool) {
        path_is_file(self.transcript_path(hash).as_str())
            && path_is_file(self.instrumental_path(hash).as_str())
            && path_is_file(self.vocals_path(hash).as_str())
    }

    /// The files removed when a song's cache is deleted, in order.
    pub fn song_cache_files(&self, hash: &str) -> (r: Vec<String>)
        ensures
            r@.len() == 4,
            forall|i: int| 0 <= i < 4 && plain_component(cache_file_name(hash@, cache_file_order(i)))
                ==> joined_path(self.path@, cache_file_name(hash@, cache_file_order(i)), #[trigger] r@[i]@),
    {
        let mut r: Vec<String> = Vec::new();
        r.push(self.transcript_path(hash));
        r.push(self.instrumental_path(hash));
        r.push(self.vocals_path(hash));
        r.push(self.lyrics_path(hash));
        r
    }
}

} // verus!
