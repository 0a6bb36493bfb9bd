//! The AllMusic source, which has no lookup yet: every step reports so.

use vstd::prelude::*;
use crate::error::{ErrorKind, MopError};
use crate::structs::BasicMetadata;

verus! {

/// The error of every AllMusic step.
pub open spec fn not_implemented(e: MopError) -> bool {
    e.kind == ErrorKind::Other && e.message@ == "AllMusic: This isn't implemented."@
}

/// The address of the song `title` by `artist` on allmusic.com; not available.
pub fn find_matching_song_url(artist: &str, title: &str) -> (res: Result<String, MopError>)
    ensures
        res matches Err(e) && not_implemented(e),
{
    Err(MopError::new(ErrorKind::Other, "AllMusic: This isn't implemented."))
}

/// The address of the oldest album that holds the song at `song_url`; not available.
pub fn find_artist_album(song_url: &str) -> (res: Result<String, MopError>)
    ensures
        res matches Err(e) && not_implemented(e),
{
    Err(MopError::new(ErrorKind::Other, "AllMusic: This isn't implemented."))
}

/// The metadata of the album at `album_url`; not available.
pub fn build_metadata(album_url: &str) -> (res: Result<BasicMetadata, MopError>)
    ensures
        res matches Err(e) && not_implemented(e),
{
    Err(MopError::new(ErrorKind::Other, "AllMusic: This isn't implemented."))
}

} // verus!
