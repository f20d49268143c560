//! Songbook service steps that are not I/O: checking a download and
//! putting a ready song on the stage.

use vstd::prelude::*;

use crate::catalog::{checksum_matches, checksum_ok};
use crate::error::AppError;
use crate::hymnal::{default_title_spec, format_default_title, HymnalSongDto};
use crate::output::{open_spec, OutputState, StageKind};
use crate::text::owned;
use crate::week::err_says;

verus! {

/// Refuses a downloaded song whose bytes do not match the catalog checksum.
pub fn verify_song_bytes(bytes: &[u8], checksum: &str) -> (r: Result<(), AppError>)
    ensures
        r is Ok <==> checksum_ok(bytes@, checksum@),
        r is Err ==> err_says(r->Err_0, "hymnal song checksum mismatch"@),
{
    if !checksum_matches(bytes, checksum) {
        return Err(AppError::rule("hymnal song checksum mismatch"));
    }
    Ok(())
}

/// Plays a downloaded song on the stage as a video titled
/// `{track}. Song {track}` (Spanish: `Cántico`). A song without a cached
/// file is refused and the stage is left as it was.
pub fn play_song_on_stage(langwritten: &str, track: u32, song: &HymnalSongDto, output: &mut OutputState) -> (r: Result<crate::output::StageSnapshot, AppError>)
    ensures
        match song.cache_path {
            None => r is Err && err_says(r->Err_0, "song has no cache path"@) && final(output).stage@ == old(output).stage@,
            Some(path) => r is Ok && final(output).stage@ == open_spec(
                old(output).stage@,
                StageKind::Video,
                default_title_spec(langwritten@, track as nat),
                "video/mp4"@,
                path@,
            ) && r->Ok_0@ == final(output).stage@,
        },
        final(output).clock == old(output).clock,
        final(output).speaker_mode == old(output).speaker_mode,
{
    let path = match &song.cache_path {
        Some(p) => p.clone(),
        None => return Err(AppError::rule("song has no cache path")),
    };
    let title = format_default_title(langwritten, track);
    Ok(output.open_media(StageKind::Video, title, owned("video/mp4"), path))
}

} // verus!
