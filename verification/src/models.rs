//! The shapes of the Spotify Web API responses that the tracker reads.

use vstd::prelude::*;

use vstd::string::*;

use crate::text::decimal_text;

verus! {

/// The top-level response from GET /me/tracks.
#[derive(Debug)]
pub struct LikedSongsResponse {
    pub items: Vec<SavedTrack>,
    /// URL of the next page of songs.
    pub next: Option<String>,
    pub total: u32,
}

#[derive(Debug)]
pub struct SavedTrack {
    pub added_at: String,
    pub track: Track,
}

#[derive(Debug)]
pub struct Track {
    pub id: String,
    pub name: String,
    pub artists: Vec<Artist>,
    pub album: Album,
}

#[derive(Debug, Clone)]
pub struct Artist {
    pub id: String,
    pub name: String,
}

#[derive(Debug, Clone)]
pub struct ExternalUrls {
    pub spotify: String,
}

#[derive(Debug, Clone)]
pub struct Album {
    pub id: String,
    pub name: String,
    pub release_date: String,
    /// "year", "month", or "day".
    pub release_date_precision: String,
    pub album_group: Option<String>,
    pub images: Vec<SpotifyImage>,
    pub external_urls: ExternalUrls,
    pub artists: Vec<Artist>,
    pub total_tracks: u32,
    pub album_type: String,
}

/// One page of GET /artists/{id}/albums.
#[derive(Debug)]
pub struct ArtistAlbumsResponse {
    pub items: Vec<Album>,
    pub next: Option<String>,
}

#[derive(Debug, Clone)]
pub struct SpotifyImage {
    pub url: String,
    pub height: Option<i32>,
    pub width: Option<i32>,
}

/// Spotify refused a request for too many calls.
#[derive(Debug)]
pub struct SpotifyRateLimitError {
    pub retry_after: u64,
}

/// The message of a rate-limit error that asks to retry after `retry_after`
/// seconds.
pub open spec fn rate_limit_message(retry_after: u64) -> Seq<char> {
    "Spotify Rate Limit: Retry after "@ + crate::text::decimal(retry_after as nat) + "s"@
}

impl SpotifyRateLimitError {
    /// The human-readable description of the error.
    pub fn message(&self) -> (r: String)
        ensures
            r@ == rate_limit_message(self.retry_after),
    {
        let mut r = String::from_str("Spotify Rate Limit: Retry after ");
        let n = decimal_text(self.retry_after);
        r.append(n.as_str());
        r.append("s");
        r
    }
}

} // verus!
