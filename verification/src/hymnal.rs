//! Songbook (`sjjm`, tracks 1–163): models, DTOs and the rules that build
//! the song list, mark cached files and name downloads.

use vstd::prelude::*;
use vstd::utf8::*;

use crate::error::AppError;
use crate::media::{CatalogFormat, CatalogKey, CatalogKeyV};
use crate::text::{
    chars_of, dec, ends_with_seq, owned, pad_dec, parse_u32, parse_u32_exec, push_char,
    push_padded, push_str, starts_with_seq, str_ends_with, str_eq_ignore_ascii_case,
    str_starts_with, trim, trim_seq,
};
use crate::week::{opt_view, strings_view};

verus! {

/// Download / readiness status of a songbook track.
#[derive(Debug, Clone, Copy, PartialEq, Eq, Structural)]
pub enum SongStatus {
    /// Downloaded and available in the permanent songbook cache.
    Ready,
    /// Available in the catalog but not downloaded yet.
    Pending,
    /// Download failed or checksum mismatch.
    Failed,
}

/// Songbook entry presented to the console.
#[derive(Debug)]
pub struct HymnalSongDto {
    pub track: u32,
    pub title: String,
    pub duration_formatted: String,
    pub status: SongStatus,
    pub cache_path: Option<String>,
    pub filesize: u64,
}

/// A [`HymnalSongDto`] with its strings as characters.
pub struct HymnalSongV {
    pub track: u32,
    pub title: Seq<char>,
    pub duration_formatted: Seq<char>,
    pub status: SongStatus,
    pub cache_path: Option<Seq<char>>,
    pub filesize: u64,
}

impl View for HymnalSongDto {
    type V = HymnalSongV;

    open spec fn view(&self) -> HymnalSongV {
        HymnalSongV {
            track: self.track,
            title: self.title@,
            duration_formatted: self.duration_formatted@,
            status: self.status,
            cache_path: opt_view(self.cache_path),
            filesize: self.filesize,
        }
    }
}

/// Views of a list of songs.
pub open spec fn songs_view(v: Seq<HymnalSongDto>) -> Seq<HymnalSongV> {
    v.map_values(|s: HymnalSongDto| s@)
}

/// The three meeting song slots (opening, middle, concluding).
#[derive(Debug, Clone, Copy, PartialEq, Eq, Structural)]
pub struct HymnalSlotsDto {
    pub start: Option<u32>,
    pub middle: Option<u32>,
    pub end: Option<u32>,
}

impl Default for HymnalSlotsDto {
    fn default() -> (r: HymnalSlotsDto)
        ensures
            r.start is None && r.middle is None && r.end is None,
    {
        HymnalSlotsDto { start: None, middle: None, end: None }
    }
}

/// Progress payload during bulk or single downloads.
#[derive(Debug)]
pub struct HymnalProgressDto {
    pub phase: String,
    pub done: u32,
    pub total: u32,
    pub label: String,
}

/// Returned by the songbook queries.
#[derive(Debug)]
pub struct HymnalBundleDto {
    pub langwritten: String,
    pub songs: Vec<HymnalSongDto>,
    pub slots: HymnalSlotsDto,
}

/// Track metadata read from the catalog.
#[derive(Debug)]
pub struct HymnalCatalogTrack {
    pub track: u32,
    pub title: String,
    pub duration_secs: Option<u32>,
    pub duration_formatted: String,
    pub label: String,
    pub filesize: u64,
    pub checksum: String,
    pub url: String,
}

/// Two catalog tracks with the same contents.
pub open spec fn same_track(a: HymnalCatalogTrack, b: HymnalCatalogTrack) -> bool {
    a.track == b.track && a.title@ == b.title@ && a.duration_secs == b.duration_secs
        && a.duration_formatted@ == b.duration_formatted@ && a.label@ == b.label@ && a.filesize
        == b.filesize && a.checksum@ == b.checksum@ && a.url@ == b.url@
}

impl HymnalCatalogTrack {
    /// A copy with the same contents.
    pub fn copy(&self) -> (r: HymnalCatalogTrack)
        ensures
            same_track(r, *self),
    {
        HymnalCatalogTrack {
            track: self.track,
            title: self.title.clone(),
            duration_secs: self.duration_secs,
            duration_formatted: self.duration_formatted.clone(),
            label: self.label.clone(),
            filesize: self.filesize,
            checksum: self.checksum.clone(),
            url: self.url.clone(),
        }
    }
}

/// A copy of a catalog listing.
pub fn copy_tracks(v: &Vec<HymnalCatalogTrack>) -> (r: Vec<HymnalCatalogTrack>)
    ensures
        r@.len() == v@.len(),
        forall|i: int| 0 <= i < v@.len() ==> same_track(#[trigger] r@[i], v@[i]),
{
    let mut r: Vec<HymnalCatalogTrack> = Vec::new();
    let mut i: usize = 0;
    while i < v.len()
        invariant
            i <= v@.len(),
            r@.len() == i,
            forall|k: int| 0 <= k < i ==> same_track(#[trigger] r@[k], v@[k]),
        decreases v@.len() - i,
    {
        r.push(v[i].copy());
        i = i + 1;
    }
    r
}

/// Path segments of the permanent songbook cache: `hymnal/{langwritten}`.
pub fn hymnal_dir(langwritten: &str) -> (r: Vec<String>)
    ensures
        strings_view(r@) == seq!["hymnal"@, langwritten@],
{
    let mut r: Vec<String> = Vec::new();
    r.push(owned("hymnal"));
    r.push(owned(langwritten));
    assert(strings_view(r@) =~= seq!["hymnal"@, langwritten@]);
    r
}

/// `MM:SS` of a number of seconds (minutes may run past two digits).
pub open spec fn duration_text(secs: nat) -> Seq<char> {
    pad_dec(secs / 60, 2) + seq![':'] + pad_dec(secs % 60, 2)
}

/// Formats a duration in seconds as `MM:SS`.
pub fn format_duration(secs: u32) -> (s: String)
    ensures
        s@ == duration_text(secs as nat),
{
    let mut s = String::new();
    push_padded(&mut s, (secs / 60) as u64, 2);
    push_char(&mut s, ':');
    push_padded(&mut s, (secs % 60) as u64, 2);
    s
}

/// Index of the first `:` in a text, if any.
pub open spec fn colon_at(t: Seq<char>) -> Option<int> {
    if t.contains(':') {
        Some(choose|i: int| 0 <= i < t.len() && t[i] == ':' && forall|j: int| 0 <= j < i ==> t[j] != ':')
    } else {
        None
    }
}

/// How a catalog duration text reads: `None` when it is blank (the seconds
/// are used instead); `M:S` with two numbers becomes `MM:SS`; any other
/// text is kept trimmed.
pub open spec fn duration_text_spec(raw: Seq<char>) -> Option<Seq<char>> {
    let t = trim_seq(raw);
    if t.len() == 0 {
        None
    } else {
        match colon_at(t) {
            None => Some(t),
            Some(i) => {
                let m = t.subrange(0, i);
                let sec = t.subrange(i + 1, t.len() as int);
                if sec.contains(':') {
                    Some(t)
                } else {
                    match (parse_u32(encode_utf8(m)), parse_u32(encode_utf8(sec))) {
                        (Some(a), Some(b)) => Some(pad_dec(a as nat, 2) + seq![':'] + pad_dec(b as nat, 2)),
                        _ => Some(t),
                    }
                }
            },
        }
    }
}

/// Index of the first `c` in `v` at or after `from`, if any.
fn index_of(v: &Vec<char>, c: char, from: usize) -> (r: Option<usize>)
    ensures
        match r {
            Some(i) => from <= i < v@.len() && v@[i as int] == c && forall|j: int| from <= j < i ==> v@[j] != c,
            None => forall|j: int| from <= j < v@.len() ==> v@[j] != c,
        },
{
    let mut i: usize = from;
    while i < v.len()
        invariant
            from <= i,
            forall|j: int| from <= j < i ==> v@[j] != c,
        decreases v@.len() - i,
    {
        if v[i] == c {
            return Some(i);
        }
        i = i + 1;
    }
    None
}

/// The characters `v[a..b]` as a string.
fn chars_between(v: &Vec<char>, a: usize, b: usize) -> (s: String)
    requires
        a <= b <= v@.len(),
    ensures
        s@ == v@.subrange(a as int, b as int),
{
    crate::text::string_from_chars(&v.as_slice()[a..b])
}

/// Reads a catalog duration text; `None` when it is blank.
pub fn normalize_duration_text(raw: &str) -> (r: Option<String>)
    ensures
        opt_view(r) == duration_text_spec(raw@),
{
    let t = trim(raw);
    let v = chars_of(t.as_str());
    if v.len() == 0 {
        return None;
    }
    match index_of(&v, ':', 0) {
        None => {
            assert(!v@.contains(':'));
            Some(t)
        },
        Some(i) => {
            proof {
                assert(v@.contains(':'));
                let k = colon_at(v@)->0;
                if k < i {
                    assert(v@[k] != ':');
                }
                if i < k {
                    assert(v@[i as int] != ':');
                }
            }
            match index_of(&v, ':', i + 1) {
                Some(j) => {
                    assert(v@.subrange(i + 1, v@.len() as int)[j - i - 1] == ':');
                    Some(t)
                },
                None => {
                    assert(!v@.subrange(i + 1, v@.len() as int).contains(':'));
                    let m = chars_between(&v, 0, i);
                    let sec = chars_between(&v, i + 1, v.len());
                    let pm = parse_u32_exec(m.as_str().as_bytes());
                    let ps = parse_u32_exec(sec.as_str().as_bytes());
                    match (pm, ps) {
                        (Some(a), Some(b)) => {
                            let mut s = String::new();
                            push_padded(&mut s, a as u64, 2);
                            push_char(&mut s, ':');
                            push_padded(&mut s, b as u64, 2);
                            Some(s)
                        },
                        _ => Some(t),
                    }
                },
            }
        },
    }
}

/// Tracks sung at congregation meetings.
pub open spec fn meeting_track(track: u32) -> bool {
    1 <= track <= 163
}

/// True if the track number is a meeting song (1..=163).
pub fn is_meeting_song_track(track: u32) -> (b: bool)
    ensures
        b == meeting_track(track),
{
    1 <= track && track <= 163
}

/// A cached download of `track`: `sjjm_{track}_*.mp4` or `sjjm_{track}.*.mp4`.
pub open spec fn cached_song_name(name: Seq<char>, track: u32) -> bool {
    (starts_with_seq(name, "sjjm_"@ + dec(track as nat) + "_"@) || starts_with_seq(
        name,
        "sjjm_"@ + dec(track as nat) + "."@,
    )) && ends_with_seq(name, ".mp4"@)
}

/// Whether a file name in the songbook cache is a download of `track`.
pub fn is_cached_song_name(name: &str, track: u32) -> (b: bool)
    ensures
        b == cached_song_name(name@, track),
{
    let mut prefix = owned("sjjm_");
    push_padded(&mut prefix, track as u64, 0);
    proof {
        crate::text::lemma_pad_dec_zero(track as nat);
    }
    let mut fallback = prefix.clone();
    push_str(&mut prefix, "_");
    push_str(&mut fallback, ".");
    (str_starts_with(name, prefix.as_str()) || str_starts_with(name, fallback.as_str()))
        && str_ends_with(name, ".mp4")
}

/// Whether a language code is Spanish (`S`, any case).
pub open spec fn is_spanish(langwritten: Seq<char>) -> bool {
    crate::text::eq_ignore_ascii_case_seq(langwritten, "S"@)
}

/// A pending songbook entry with no duration, file or size.
pub open spec fn pending_song(track: u32, title: Seq<char>) -> HymnalSongV {
    HymnalSongV {
        track,
        title,
        duration_formatted: Seq::empty(),
        status: SongStatus::Pending,
        cache_path: None,
        filesize: 0,
    }
}

/// Title of a fallback entry.
pub open spec fn fallback_title(langwritten: Seq<char>, track: nat) -> Seq<char> {
    if is_spanish(langwritten) {
        "Cántico "@ + dec(track)
    } else {
        "Song "@ + dec(track)
    }
}

/// The 163 entries listed when no catalog is available.
pub open spec fn fallback_spec(langwritten: Seq<char>) -> Seq<HymnalSongV> {
    Seq::new(163, |i: int| pending_song((i + 1) as u32, fallback_title(langwritten, (i + 1) as nat)))
}

/// The 163 songbook entries listed when no catalog is available yet.
pub fn fallback_songs(langwritten: &str) -> (r: Vec<HymnalSongDto>)
    ensures
        songs_view(r@) == fallback_spec(langwritten@),
{
    let spanish = str_eq_ignore_ascii_case(langwritten, "S");
    let mut r: Vec<HymnalSongDto> = Vec::new();
    let mut track: u32 = 1;
    while track <= 163
        invariant
            1 <= track <= 164,
            spanish == is_spanish(langwritten@),
            songs_view(r@) == fallback_spec(langwritten@).take(track - 1),
        decreases 164 - track,
    {
        let mut title = if spanish {
            owned("Cántico ")
        } else {
            owned("Song ")
        };
        push_padded(&mut title, track as u64, 0);
        proof {
            crate::text::lemma_pad_dec_zero(track as nat);
        }
        let song = HymnalSongDto {
            track,
            title,
            duration_formatted: String::new(),
            status: SongStatus::Pending,
            cache_path: None,
            filesize: 0,
        };
        let ghost before = r@;
        r.push(song);
        proof {
            assert(songs_view(r@) =~= songs_view(before).push(song@));
            assert(fallback_spec(langwritten@).take(track as int) =~= fallback_spec(langwritten@).take(
                track - 1,
            ).push(song@));
        }
        track = track + 1;
    }
    assert(fallback_spec(langwritten@).take(163) =~= fallback_spec(langwritten@));
    r
}

/// The pending entry a catalog track becomes.
pub open spec fn song_of_track(t: HymnalCatalogTrack) -> HymnalSongV {
    HymnalSongV {
        track: t.track,
        title: t.title@,
        duration_formatted: t.duration_formatted@,
        status: SongStatus::Pending,
        cache_path: None,
        filesize: t.filesize,
    }
}

/// Entries for the meeting tracks of a catalog listing, in order.
pub open spec fn songs_from_tracks_spec(ts: Seq<HymnalCatalogTrack>) -> Seq<HymnalSongV>
    decreases ts.len(),
{
    if ts.len() == 0 {
        Seq::empty()
    } else {
        let r = songs_from_tracks_spec(ts.drop_last());
        if meeting_track(ts.last().track) {
            r.push(song_of_track(ts.last()))
        } else {
            r
        }
    }
}

/// Pending entries for the meeting tracks (1..=163) of a catalog listing.
pub fn songs_from_tracks(tracks: &Vec<HymnalCatalogTrack>) -> (r: Vec<HymnalSongDto>)
    ensures
        songs_view(r@) == songs_from_tracks_spec(tracks@),
{
    let mut r: Vec<HymnalSongDto> = Vec::new();
    let mut i: usize = 0;
    while i < tracks.len()
        invariant
            i <= tracks@.len(),
            songs_view(r@) == songs_from_tracks_spec(tracks@.take(i as int)),
        decreases tracks@.len() - i,
    {
        let t = &tracks[i];
        assert(tracks@.take(i + 1).drop_last() =~= tracks@.take(i as int));
        if is_meeting_song_track(t.track) {
            let song = HymnalSongDto {
                track: t.track,
                title: t.title.clone(),
                duration_formatted: t.duration_formatted.clone(),
                status: SongStatus::Pending,
                cache_path: None,
                filesize: t.filesize,
            };
            let ghost before = r@;
            r.push(song);
            assert(songs_view(r@) =~= songs_view(before).push(song@));
        }
        i = i + 1;
    }
    assert(tracks@.take(tracks@.len() as int) =~= tracks@);
    r
}

/// A cached song file found on disk: its path and, when known, its size.
pub struct CachedSong {
    pub path: String,
    pub size: Option<u64>,
}

/// An entry after looking for its file: `Ready` with the path (and the
/// file's size when the entry had none), else `Pending` with no path.
pub open spec fn disk_status_spec(s: HymnalSongV, found: Option<(Seq<char>, Option<u64>)>) -> HymnalSongV {
    match found {
        Some((path, size)) => HymnalSongV {
            status: SongStatus::Ready,
            cache_path: Some(path),
            filesize: if s.filesize == 0 && size is Some {
                size->0
            } else {
                s.filesize
            },
            ..s
        },
        None => HymnalSongV { status: SongStatus::Pending, cache_path: None, ..s },
    }
}

/// View of a found file.
pub open spec fn found_view(f: Option<CachedSong>) -> Option<(Seq<char>, Option<u64>)> {
    match f {
        Some(c) => Some((c.path@, c.size)),
        None => None,
    }
}

/// Marks each entry from what was found on disk for it (`found[i]` for `songs[i]`).
pub fn apply_disk_status(songs: Vec<HymnalSongDto>, found: &Vec<Option<CachedSong>>) -> (r: Vec<HymnalSongDto>)
    requires
        found@.len() == songs@.len(),
    ensures
        r@.len() == songs@.len(),
        forall|i: int|
            0 <= i < songs@.len() ==> #[trigger] r@[i]@ == disk_status_spec(songs@[i]@, found_view(found@[i])),
{
    let mut songs = songs;
    let ghost orig = songs@;
    let mut i: usize = 0;
    while i < songs.len()
        invariant
            i <= songs@.len(),
            songs@.len() == orig.len(),
            found@.len() == orig.len(),
            forall|k: int| 0 <= k < i ==> #[trigger] songs@[k]@ == disk_status_spec(orig[k]@, found_view(found@[k])),
            forall|k: int| i <= k < songs@.len() ==> #[trigger] songs@[k] == orig[k],
        decreases songs@.len() - i,
    {
        let mut song = songs.remove(i);
        match &found[i] {
            Some(c) => {
                song.status = SongStatus::Ready;
                song.cache_path = Some(c.path.clone());
                if song.filesize == 0 {
                    match c.size {
                        Some(n) => {
                            song.filesize = n;
                        },
                        None => {},
                    }
                }
            },
            None => {
                song.status = SongStatus::Pending;
                song.cache_path = None;
            },
        }
        songs.insert(i, song);
        i = i + 1;
    }
    songs
}

/// Title used when a single song is downloaded or played.
pub open spec fn default_title_spec(langwritten: Seq<char>, track: nat) -> Seq<char> {
    if is_spanish(langwritten) {
        dec(track) + ". Cántico "@ + dec(track)
    } else {
        dec(track) + ". Song "@ + dec(track)
    }
}

/// `{track}. Cántico {track}` in Spanish, `{track}. Song {track}` otherwise.
pub fn format_default_title(langwritten: &str, track: u32) -> (s: String)
    ensures
        s@ == default_title_spec(langwritten@, track as nat),
{
    let mut s = String::new();
    push_padded(&mut s, track as u64, 0);
    if str_eq_ignore_ascii_case(langwritten, "S") {
        push_str(&mut s, ". Cántico ");
    } else {
        push_str(&mut s, ". Song ");
    }
    push_padded(&mut s, track as u64, 0);
    proof {
        crate::text::lemma_pad_dec_zero(track as nat);
    }
    s
}

/// The ready entry of a song whose file is at `path`.
pub open spec fn ready_song_spec(langwritten: Seq<char>, track: u32, path: Seq<char>, filesize: u64) -> HymnalSongV {
    HymnalSongV {
        track,
        title: default_title_spec(langwritten, track as nat),
        duration_formatted: Seq::empty(),
        status: SongStatus::Ready,
        cache_path: Some(path),
        filesize,
    }
}

/// The ready entry of a song whose file is at `path`.
pub fn ready_song(langwritten: &str, track: u32, path: String, filesize: u64) -> (r: HymnalSongDto)
    ensures
        r@ == ready_song_spec(langwritten@, track, path@, filesize),
{
    HymnalSongDto {
        track,
        title: format_default_title(langwritten, track),
        duration_formatted: String::new(),
        status: SongStatus::Ready,
        cache_path: Some(path),
        filesize,
    }
}

/// The catalog key of a songbook video.
pub open spec fn song_key_spec(langwritten: Seq<char>, track: u32) -> CatalogKeyV {
    CatalogKeyV {
        langwritten,
        pub_symbol: "sjjm"@,
        issue: None,
        track: Some(track),
        format: CatalogFormat::Mp4,
    }
}

/// The catalog key of a songbook video.
pub fn song_key(langwritten: &str, track: u32) -> (k: CatalogKey)
    ensures
        k@ == song_key_spec(langwritten@, track),
{
    CatalogKey {
        langwritten: owned(langwritten),
        pub_symbol: owned("sjjm"),
        issue: None,
        track: Some(track),
        format: CatalogFormat::Mp4,
    }
}

/// Refuses a track that is not a meeting song.
pub fn check_song_track(track: u32) -> (r: Result<(), AppError>)
    ensures
        r is Ok <==> meeting_track(track),
        r is Err ==> crate::week::err_says(r->Err_0, "invalid song track"@),
{
    if !is_meeting_song_track(track) {
        return Err(AppError::rule("invalid song track"));
    }
    Ok(())
}

/// File name of a songbook download: `sjjm_{track}_{label}.mp4`.
pub open spec fn song_file_spec(track: u32, label: Seq<char>) -> Seq<char> {
    "sjjm_"@ + dec(track as nat) + "_"@ + label + ".mp4"@
}

/// File name of a songbook download: `sjjm_{track}_{label}.mp4`.
pub fn song_file_name(track: u32, label: &str) -> (s: String)
    ensures
        s@ == song_file_spec(track, label@),
{
    let mut s = owned("sjjm_");
    push_padded(&mut s, track as u64, 0);
    proof {
        crate::text::lemma_pad_dec_zero(track as nat);
    }
    push_str(&mut s, "_");
    push_str(&mut s, label);
    push_str(&mut s, ".mp4");
    s
}

/// A downloaded file of `track` is found again by the cache lookup.
pub proof fn law_song_file_is_found(track: u32, label: Seq<char>)
    ensures
        cached_song_name(song_file_spec(track, label), track),
{
    reveal_strlit(".mp4");
    let name = song_file_spec(track, label);
    let p = "sjjm_"@ + dec(track as nat) + "_"@;
    assert(name.subrange(0, p.len() as int) =~= p);
    assert(name.subrange(name.len() - 4, name.len() as int) =~= ".mp4"@);
}

} // verus!
