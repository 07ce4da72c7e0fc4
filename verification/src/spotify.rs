//! Spotify Web API data: the library's track/album types, the conversions
//! from the API's JSON shapes, request URLs and client-credential headers.

use vstd::prelude::*;
use crate::text::{decimal, decimal_spec, append_str};
use crate::base64::{base64_encode, base64_spec};

verus! {

/// A track as the rest of the library sees it.
#[derive(Debug, Clone)]
pub struct SpotifyTrack {
    pub id: String,
    pub name: String,
    pub artists: Vec<String>,
    pub album_name: String,
    pub album_id: String,
    pub album_art_url: Option<String>,
    pub duration_ms: u64,
    pub track_number: u32,
    /// The album's release date as Spotify gives it ("" when unknown).
    pub release_date: String,
}

/// An album as the rest of the library sees it.
#[derive(Debug, Clone)]
pub struct SpotifyAlbum {
    pub id: String,
    pub name: String,
    pub artists: Vec<String>,
    pub art_url: Option<String>,
    pub total_tracks: u32,
    pub release_date: String,
}

/// Whether two tracks hold the same data.
pub open spec fn same_track(a: SpotifyTrack, b: SpotifyTrack) -> bool {
    &&& a.id == b.id
    &&& a.name == b.name
    &&& a.artists@ == b.artists@
    &&& a.album_name == b.album_name
    &&& a.album_id == b.album_id
    &&& a.album_art_url == b.album_art_url
    &&& a.duration_ms == b.duration_ms
    &&& a.track_number == b.track_number
    &&& a.release_date == b.release_date
}

impl SpotifyTrack {
    /// A copy holding the same data.
    pub fn copy(&self) -> (r: Self)
        ensures
            same_track(r, *self),
    {
        let mut artists: Vec<String> = Vec::new();
        let mut i: usize = 0;
        while i < self.artists.len()
            invariant
                i <= self.artists@.len(),
                artists@ == self.artists@.take(i as int),
            decreases self.artists@.len() - i,
        {
            artists.push(self.artists[i].clone());
            i = i + 1;
            assert(artists@ =~= self.artists@.take(i as int));
        }
        assert(artists@ =~= self.artists@);
        let r = SpotifyTrack {
            id: self.id.clone(),
            name: self.name.clone(),
            artists,
            album_name: self.album_name.clone(),
            album_id: self.album_id.clone(),
            album_art_url: self.album_art_url.clone(),
            duration_ms: self.duration_ms,
            track_number: self.track_number,
            release_date: self.release_date.clone(),
        };
        r
    }
}

/// The parts joined with `sep` between them.
pub open spec fn joined(parts: Seq<Seq<char>>, sep: Seq<char>) -> Seq<char>
    decreases parts.len(),
{
    if parts.len() == 0 {
        Seq::empty()
    } else if parts.len() == 1 {
        parts[0]
    } else {
        joined(parts.drop_last(), sep) + sep + parts.last()
    }
}

/// The text of each string.
pub open spec fn texts(v: Seq<String>) -> Seq<Seq<char>> {
    v.map_values(|s: String| s@)
}

/// The strings joined with `sep` between them (`[String]::join`).
pub fn join_strings(v: &Vec<String>, sep: &str) -> (r: String)
    ensures
        r@ == joined(texts(v@), sep@),
{
    let mut r = String::new();
    let mut i: usize = 0;
    while i < v.len()
        invariant
            i <= v@.len(),
            r@ == joined(texts(v@.take(i as int)), sep@),
        decreases v@.len() - i,
    {
        assert(texts(v@.take(i + 1)).drop_last() =~= texts(v@.take(i as int)));
        assert(texts(v@.take(i + 1)).last() == v@[i as int]@);
        if i > 0 {
            append_str(&mut r, sep);
        } else {
            assert(r@ =~= Seq::<char>::empty());
        }
        append_str(&mut r, v[i].as_str());
        i = i + 1;
        assert(texts(v@.take(i as int)).len() == i);
        if i == 1 {
            assert(r@ =~= texts(v@.take(1))[0]);
        }
    }
    assert(v@.take(i as int) =~= v@);
    r
}

/// An artist object of the API.
pub struct ApiArtist {
    pub name: String,
}

/// An image object of the API.
pub struct ApiImage {
    pub url: String,
}

/// An album object of the API.
pub struct ApiAlbum {
    pub id: String,
    pub name: String,
    pub artists: Vec<ApiArtist>,
    pub images: Vec<ApiImage>,
    pub total_tracks: Option<u32>,
    pub release_date: Option<String>,
}

/// A full track object of the API.
pub struct ApiTrack {
    pub id: String,
    pub name: String,
    pub artists: Vec<ApiArtist>,
    pub album: ApiAlbum,
    pub duration_ms: u64,
    pub track_number: u32,
}

/// A simplified track object of the API (as listed under an album).
pub struct ApiSimpleTrack {
    pub id: String,
    pub name: String,
    pub artists: Vec<ApiArtist>,
    pub duration_ms: u64,
    pub track_number: u32,
}

/// The names of a list of API artists, in order.
pub open spec fn artist_names(a: Seq<ApiArtist>) -> Seq<String> {
    a.map_values(|x: ApiArtist| x.name)
}

/// The URL of the first image, if any.
pub open spec fn first_image_url(images: Seq<ApiImage>) -> Option<String> {
    if images.len() > 0 {
        Some(images[0].url)
    } else {
        None
    }
}

/// A copy of a string slice as an owned `String`.
pub fn owned(s: &str) -> (r: String)
    ensures
        r@ == s@,
{
    s.to_owned()
}

fn names_of(artists: &Vec<ApiArtist>) -> (r: Vec<String>)
    ensures
        r@ == artist_names(artists@),
{
    let mut r: Vec<String> = Vec::new();
    let mut i: usize = 0;
    while i < artists.len()
        invariant
            i <= artists@.len(),
            r@ == artist_names(artists@.take(i as int)),
        decreases artists@.len() - i,
    {
        r.push(artists[i].name.clone());
        i = i + 1;
        assert(artist_names(artists@.take(i as int)) =~= artist_names(artists@.take((i - 1) as int)).push(artists@[i - 1].name));
    }
    assert(artists@.take(i as int) =~= artists@);
    r
}

fn first_url(images: &Vec<ApiImage>) -> (r: Option<String>)
    ensures
        r == first_image_url(images@),
{
    if images.len() > 0 {
        Some(images[0].url.clone())
    } else {
        None
    }
}

/// An album's release date as given, or nothing when the API gave none.
pub open spec fn release_date_or_empty(d: Option<String>) -> Seq<char> {
    match d {
        Some(d) => d@,
        None => Seq::<char>::empty(),
    }
}

/// `r` is what converting the API track `t` gives: the same id, name,
/// duration and number, the artists' names, the album's name, id and
/// release date, and the URL of the album's first image.
pub open spec fn converts_track(t: ApiTrack, r: SpotifyTrack) -> bool {
    &&& r.id == t.id
    &&& r.name == t.name
    &&& r.artists@ == artist_names(t.artists@)
    &&& r.album_name == t.album.name
    &&& r.album_id == t.album.id
    &&& r.album_art_url == first_image_url(t.album.images@)
    &&& r.duration_ms == t.duration_ms
    &&& r.track_number == t.track_number
    &&& r.release_date@ == release_date_or_empty(t.album.release_date)
}

/// Converts a full API track into the library's track type.
pub fn api_track_to_spotify_track(t: ApiTrack) -> (r: SpotifyTrack)
    ensures
        converts_track(t, r),
{
    let artists = names_of(&t.artists);
    let album_art_url = first_url(&t.album.images);
    let release_date = match t.album.release_date {
        Some(d) => d,
        None => String::new(),
    };
    SpotifyTrack {
        id: t.id,
        name: t.name,
        artists,
        album_name: t.album.name,
        album_id: t.album.id,
        album_art_url,
        duration_ms: t.duration_ms,
        track_number: t.track_number,
        release_date,
    }
}

/// Converts an API album (from a search) into the library's album type;
/// a missing track count reads as 0 and a missing release date as "".
pub fn api_album_to_spotify_album(a: ApiAlbum) -> (r: SpotifyAlbum)
    ensures
        r.id == a.id,
        r.name == a.name,
        r.artists@ == artist_names(a.artists@),
        r.art_url == first_image_url(a.images@),
        r.total_tracks == (match a.total_tracks { Some(n) => n, None => 0 }),
        r.release_date@ == release_date_or_empty(a.release_date),
{
    let artists = names_of(&a.artists);
    let art_url = first_url(&a.images);
    let total_tracks = match a.total_tracks {
        Some(n) => n,
        None => 0,
    };
    let release_date = match a.release_date {
        Some(d) => d,
        None => String::new(),
    };
    SpotifyAlbum { id: a.id, name: a.name, artists, art_url, total_tracks, release_date }
}

/// Converts a list of API tracks, in order.
pub fn api_tracks_to_spotify_tracks(items: Vec<ApiTrack>) -> (r: Vec<SpotifyTrack>)
    ensures
        r@.len() == items@.len(),
        forall|i: int| 0 <= i < items@.len() ==> converts_track(items@[i], #[trigger] r@[i]),
{
    let ghost orig = items@;
    let mut r: Vec<SpotifyTrack> = Vec::new();
    for t in it: items.into_iter()
        invariant
            it.seq() == orig,
            r@.len() == it.index(),
            forall|i: int| 0 <= i < r@.len() ==> converts_track(orig[i], #[trigger] r@[i]),
    {
        r.push(api_track_to_spotify_track(t));
    }
    r
}

/// The root of the Web API.
pub const API_BASE: &'static str = "https://api.spotify.com/v1";

/// Client id used when none is configured.
pub const DEFAULT_CLIENT_ID: &'static str = "REDACTED_CLIENT_ID";

/// Client secret used when none is configured.
pub const DEFAULT_CLIENT_SECRET: &'static str = "REDACTED_CLIENT_SECRET";

/// Bytes that URL encoding leaves as they are: ASCII letters, digits, `-._~`.
pub open spec fn url_unreserved(b: u8) -> bool {
    (48 <= b <= 57) || (65 <= b <= 90) || (97 <= b <= 122) || b == 45 || b == 46 || b == 95
        || b == 126
}

/// Upper-case hexadecimal digit for `0 <= d < 16`.
pub open spec fn hex_upper(d: int) -> char {
    if d < 10 {
        (48 + d) as char
    } else {
        (55 + d) as char
    }
}

/// One byte, percent-encoded unless it is unreserved.
pub open spec fn percent_encode_byte(b: u8) -> Seq<char> {
    if url_unreserved(b) {
        seq![b as char]
    } else {
        seq!['%', hex_upper(b as int / 16), hex_upper(b as int % 16)]
    }
}

/// Percent-encoding of a byte string, byte by byte.
pub open spec fn url_encode_spec(b: Seq<u8>) -> Seq<char>
    decreases b.len(),
{
    if b.len() == 0 {
        Seq::empty()
    } else {
        percent_encode_byte(b[0]) + url_encode_spec(b.skip(1))
    }
}

/// `urlencoding::encode`: percent-encodes every byte of the UTF-8 form of
/// `s` except ASCII alphanumerics and `-`, `_`, `.`, `~`, with upper-case
/// hex digits.
#[verifier::external_body]
fn encode_query(s: &str) -> (r: String)
    ensures
        r@ == url_encode_spec(crate::text::utf8(s@)),
{
    urlencoding::encode(s).into_owned()
}

/// The search URL for `query` restricted to objects of type `kind`.
pub open spec fn search_url_spec(query: Seq<char>, kind: Seq<char>, limit: nat) -> Seq<char> {
    API_BASE@ + "/search?q="@ + url_encode_spec(crate::text::utf8(query)) + "&type="@ + kind
        + "&limit="@ + decimal_spec(limit)
}

fn search_url(query: &str, kind: &str, limit: u8) -> (r: String)
    ensures
        r@ == search_url_spec(query@, kind@, limit as nat),
{
    let mut r = owned(API_BASE);
    append_str(&mut r, "/search?q=");
    let enc = encode_query(query);
    append_str(&mut r, enc.as_str());
    append_str(&mut r, "&type=");
    append_str(&mut r, kind);
    append_str(&mut r, "&limit=");
    let lim = decimal(limit as u64);
    append_str(&mut r, lim.as_str());
    r
}

/// The URL that searches tracks matching `query`, at most `limit` of them.
pub fn search_tracks_url(query: &str, limit: u8) -> (r: String)
    ensures
        r@ == search_url_spec(query@, "track"@, limit as nat),
{
    search_url(query, "track", limit)
}

/// The URL that searches albums matching `query`, at most `limit` of them.
pub fn search_albums_url(query: &str, limit: u8) -> (r: String)
    ensures
        r@ == search_url_spec(query@, "album"@, limit as nat),
{
    search_url(query, "album", limit)
}

/// The URL of an album's details.
pub fn album_url(album_id: &str) -> (r: String)
    ensures
        r@ == API_BASE@ + "/albums/"@ + album_id@,
{
    let mut r = owned(API_BASE);
    append_str(&mut r, "/albums/");
    append_str(&mut r, album_id);
    r
}

/// The URL of one page (50 tracks from `offset`) of an album's tracks.
pub fn album_tracks_page_url(album_id: &str, offset: u32) -> (r: String)
    ensures
        r@ == API_BASE@ + "/albums/"@ + album_id@ + "/tracks?limit=50&offset="@ + decimal_spec(
            offset as nat,
        ),
{
    let mut r = album_url(album_id);
    append_str(&mut r, "/tracks?limit=50&offset=");
    let off = decimal(offset as u64);
    append_str(&mut r, off.as_str());
    r
}

/// The URL of a single track.
pub fn track_url(track_id: &str) -> (r: String)
    ensures
        r@ == API_BASE@ + "/tracks/"@ + track_id@,
{
    let mut r = owned(API_BASE);
    append_str(&mut r, "/tracks/");
    append_str(&mut r, track_id);
    r
}

/// Client credentials for the token endpoint.
pub struct SpotifyCredentials {
    pub client_id: String,
    pub client_secret: String,
}

impl SpotifyCredentials {
    /// The given credentials, each falling back to the built-in default.
    pub fn new(client_id: Option<&str>, client_secret: Option<&str>) -> (r: Self)
        ensures
            r.client_id@ == (match client_id { Some(s) => s@, None => DEFAULT_CLIENT_ID@ }),
            r.client_secret@ == (match client_secret {
                Some(s) => s@,
                None => DEFAULT_CLIENT_SECRET@,
            }),
    {
        let id = match client_id {
            Some(s) => owned(s),
            None => owned(DEFAULT_CLIENT_ID),
        };
        let secret = match client_secret {
            Some(s) => owned(s),
            None => owned(DEFAULT_CLIENT_SECRET),
        };
        SpotifyCredentials { client_id: id, client_secret: secret }
    }

    /// The `Authorization` header of the token request:
    /// `Basic ` and the base64 of the UTF-8 bytes of `id:secret`.
    pub fn basic_auth_header(&self) -> (r: String)
        ensures
            r@ == "Basic "@ + base64_spec(
                crate::text::utf8(self.client_id@ + ":"@ + self.client_secret@),
            ),
    {
        let mut cred = self.client_id.clone();
        append_str(&mut cred, ":");
        append_str(&mut cred, self.client_secret.as_str());
        let enc = base64_encode(cred.as_str().as_bytes());
        let mut r = owned("Basic ");
        append_str(&mut r, enc.as_str());
        r
    }
}

/// The form body of the client-credentials token request.
pub fn token_request_body() -> (r: String)
    ensures
        r@ == "grant_type=client_credentials"@,
{
    owned("grant_type=client_credentials")
}

/// The `Authorization` header of an API request.
pub fn bearer_header(token: &str) -> (r: String)
    ensures
        r@ == "Bearer "@ + token@,
{
    let mut r = owned("Bearer ");
    append_str(&mut r, token);
    r
}

/// How long a fresh token is treated as valid: a minute less than the
/// server says, never below zero.
pub fn token_lifetime_secs(expires_in: u64) -> (r: u64)
    ensures
        r == (if expires_in >= 60 { expires_in - 60 } else { 0 }),
{
    expires_in.saturating_sub(60)
}

/// The access token a client holds and when it expires, in milliseconds
/// of the caller's clock.
pub struct TokenCache {
    pub access_token: Option<String>,
    pub expires_at_ms: Option<u64>,
}

impl TokenCache {
    /// No token yet.
    pub fn new() -> (r: Self)
        ensures
            r.access_token is None,
            r.expires_at_ms is None,
    {
        TokenCache { access_token: None, expires_at_ms: None }
    }

    /// Whether a new token must be fetched at time `now_ms`: unless a token
    /// is held and has not expired.
    pub open spec fn needs_refresh_spec(&self, now_ms: u64) -> bool {
        !(self.access_token is Some && (self.expires_at_ms matches Some(e) && now_ms < e))
    }

    /// Whether a new token must be fetched at time `now_ms`.
    pub fn needs_refresh(&self, now_ms: u64) -> (r: bool)
        ensures
            r == self.needs_refresh_spec(now_ms),
    {
        match (&self.access_token, self.expires_at_ms) {
            (Some(_), Some(e)) => !(now_ms < e),
            _ => true,
        }
    }

    /// Keeps a token fetched at time `now_ms` that the server says lasts
    /// `expires_in` seconds; it is used until a minute before that.
    pub fn store(&mut self, token: String, now_ms: u64, expires_in: u64)
        requires
            now_ms + (if expires_in >= 60 { expires_in - 60 } else { 0 }) * 1000 <= u64::MAX,
        ensures
            final(self).access_token == Some(token),
            final(self).expires_at_ms == Some((now_ms + (if expires_in >= 60 { expires_in - 60 } else { 0 }) * 1000) as u64),
    {
        let life = token_lifetime_secs(expires_in);
        assert(life * 1000 <= u64::MAX - now_ms) by (nonlinear_arith)
            requires now_ms + life * 1000 <= u64::MAX;
        self.access_token = Some(token);
        self.expires_at_ms = Some(now_ms + life * 1000);
    }
}

/// A token kept at time `now` that lasts more than a minute is used, not
/// fetched again, until a minute before it expires, and fetched again from
/// then on.
pub proof fn law_token_fresh_until_expiry(c: TokenCache, token: String, now: u64, expires_in: u64, later: u64)
    requires
        expires_in > 60,
        now + (expires_in - 60) * 1000 <= u64::MAX,
        c.access_token == Some(token),
        c.expires_at_ms == Some((now + (expires_in - 60) * 1000) as u64),
    ensures
        !c.needs_refresh_spec(later) <==> later < now + (expires_in - 60) * 1000,
        !c.needs_refresh_spec(now),
{
    assert((expires_in - 60) * 1000 >= 1000) by (nonlinear_arith)
        requires expires_in > 60;
}

/// `r` is the simplified track `t` listed under the album `album_id`
/// named `album_name` whose art is at `art_url`, released on
/// `release_date`.
pub open spec fn converts_album_track(
    t: ApiSimpleTrack,
    album_name: String,
    album_id: String,
    art_url: Option<String>,
    release_date: String,
    r: SpotifyTrack,
) -> bool {
    &&& r.id == t.id
    &&& r.name == t.name
    &&& r.artists@ == artist_names(t.artists@)
    &&& r.album_name == album_name
    &&& r.album_id == album_id
    &&& r.album_art_url == art_url
    &&& r.duration_ms == t.duration_ms
    &&& r.track_number == t.track_number
    &&& r.release_date == release_date
}

/// The state of fetching all tracks of an album, page by page.
pub struct AlbumTrackPager {
    pub album_id: String,
    pub album_name: String,
    pub art_url: Option<String>,
    pub release_date: String,
    pub offset: u32,
    pub tracks: Vec<SpotifyTrack>,
    pub done: bool,
}

impl AlbumTrackPager {
    /// Starts fetching the tracks of `album` (whose details were fetched
    /// from `album_url(album_id)`), at offset 0.
    pub fn new(album_id: &str, album: &ApiAlbum) -> (r: Self)
        ensures
            r.album_id@ == album_id@,
            r.album_name == album.name,
            r.art_url == first_image_url(album.images@),
            r.release_date@ == release_date_or_empty(album.release_date),
            r.offset == 0,
            r.tracks@.len() == 0,
            !r.done,
    {
        AlbumTrackPager {
            album_id: owned(album_id),
            album_name: album.name.clone(),
            art_url: first_url(&album.images),
            release_date: match &album.release_date {
                Some(d) => d.clone(),
                None => String::new(),
            },
            offset: 0,
            tracks: Vec::new(),
            done: false,
        }
    }

    /// The URL of the page to fetch next.
    pub fn next_url(&self) -> (r: String)
        ensures
            r@ == API_BASE@ + "/albums/"@ + self.album_id@ + "/tracks?limit=50&offset="@
                + decimal_spec(self.offset as nat),
    {
        album_tracks_page_url(self.album_id.as_str(), self.offset)
    }

    /// Takes in one fetched page: its tracks are appended; fetching goes on
    /// (50 further on) only when the page has a next page and is not empty.
    /// Returns whether another page is to be fetched.
    pub fn accept_page(&mut self, items: &Vec<ApiSimpleTrack>, has_next: bool) -> (more: bool)
        requires
            !old(self).done,
            has_next && items@.len() > 0 ==> old(self).offset <= u32::MAX - 50,
        ensures
            more == (has_next && items@.len() > 0),
            final(self).done == !more,
            final(self).offset == (if more { old(self).offset + 50 } else { old(self).offset as int }),
            final(self).album_id == old(self).album_id,
            final(self).album_name == old(self).album_name,
            final(self).art_url == old(self).art_url,
            final(self).release_date == old(self).release_date,
            final(self).tracks@.len() == old(self).tracks@.len() + items@.len(),
            forall|i: int| 0 <= i < old(self).tracks@.len() ==> final(self).tracks@[i] == old(self).tracks@[i],
            forall|i: int| 0 <= i < items@.len() ==> converts_album_track(
                #[trigger] items@[i],
                old(self).album_name,
                old(self).album_id,
                old(self).art_url,
                old(self).release_date,
                final(self).tracks@[old(self).tracks@.len() + i],
            ),
    {
        let ghost old_tracks = self.tracks@;
        let mut i: usize = 0;
        while i < items.len()
            invariant
                i <= items@.len(),
                self.tracks@.len() == old_tracks.len() + i,
                self.album_id == old(self).album_id,
                self.album_name == old(self).album_name,
                self.art_url == old(self).art_url,
                self.release_date == old(self).release_date,
                self.offset == old(self).offset,
                self.done == old(self).done,
                forall|k: int| 0 <= k < old_tracks.len() ==> self.tracks@[k] == old_tracks[k],
                forall|k: int| 0 <= k < i ==> converts_album_track(
                    #[trigger] items@[k],
                    self.album_name,
                    self.album_id,
                    self.art_url,
                    self.release_date,
                    self.tracks@[old_tracks.len() + k],
                ),
            decreases items@.len() - i,
        {
            let t = &items[i];
            let track = SpotifyTrack {
                id: t.id.clone(),
                name: t.name.clone(),
                artists: names_of(&t.artists),
                album_name: self.album_name.clone(),
                album_id: self.album_id.clone(),
                album_art_url: self.art_url.clone(),
                duration_ms: t.duration_ms,
                track_number: t.track_number,
                release_date: self.release_date.clone(),
            };
            self.tracks.push(track);
            i = i + 1;
        }
        let more = has_next && items.len() > 0;
        if more {
            self.offset = self.offset + 50;
        } else {
            self.done = true;
        }
        more
    }
}

} // verus!
