use spotify_tracker::models::{
    Album, Artist, ArtistAlbumsResponse, ExternalUrls, LikedSongsResponse, SavedTrack, SpotifyImage, Track,
};
use spotify_tracker::releases::{
    artist_albums_first_page, bearer_header, merge_new_releases, release_groups, take_album_page,
    take_liked_songs_page, LIKED_TRACKS_URL,
};

fn artist(id: &str) -> Artist {
    Artist { id: id.to_string(), name: format!("name-{}", id) }
}

fn album(id: &str, date: &str, kind: &str, artists: &[&str]) -> Album {
    Album {
        id: id.to_string(),
        name: format!("album-{}", id),
        release_date: date.to_string(),
        release_date_precision: "day".to_string(),
        album_group: None,
        images: vec![SpotifyImage { url: format!("img-{}", id), height: Some(64), width: Some(64) }],
        external_urls: ExternalUrls { spotify: format!("https://open.spotify.com/album/{}", id) },
        artists: artists.iter().map(|a| artist(a)).collect(),
        total_tracks: 10,
        album_type: kind.to_string(),
    }
}

fn ids(albums: &[Album]) -> Vec<&str> {
    albums.iter().map(|a| a.id.as_str()).collect()
}

#[test]
fn first_page_url() {
    assert_eq!(
        artist_albums_first_page("A1", "single"),
        "https://api.spotify.com/v1/artists/A1/albums?limit=50&include_groups=single&market=CA"
    );
    assert_eq!(LIKED_TRACKS_URL, "https://api.spotify.com/v1/me/tracks?limit=50");
}

#[test]
fn bearer_header_value() {
    assert_eq!(bearer_header("tok"), "Bearer tok");
}

#[test]
fn groups_are_albums_then_singles() {
    assert_eq!(release_groups(), vec!["album", "single"]);
}

#[test]
fn album_page_keeps_only_new_releases_of_the_artist() {
    let page = ArtistAlbumsResponse {
        items: vec![
            album("new", "2026-03-01", "album", &["A1"]),
            album("comp", "2026-03-02", "compilation", &["A1"]),
            album("other", "2026-03-03", "album", &["B2"]),
            album("feat", "2026-03-04", "single", &["B2", "A1"]),
        ],
        next: Some("next-url".to_string()),
    };
    let mut found = vec![album("earlier", "2026-02-20", "album", &["A1"])];
    let next = take_album_page("A1", "2026-02-15", page, &mut found);
    assert_eq!(ids(&found), vec!["earlier", "new", "feat"]);
    assert_eq!(next.as_deref(), Some("next-url"));
}

#[test]
fn album_page_with_old_release_stops_paging() {
    let page = ArtistAlbumsResponse {
        items: vec![
            album("new", "2026-03-01", "album", &["A1"]),
            album("same-day", "2026-02-15", "album", &["A1"]),
            album("older", "2025-01-01", "album", &["A1"]),
        ],
        next: Some("next-url".to_string()),
    };
    let mut found = Vec::new();
    let next = take_album_page("A1", "2026-02-15", page, &mut found);
    assert_eq!(ids(&found), vec!["new"]);
    assert_eq!(next, None);
}

#[test]
fn empty_album_page_ends_paging() {
    let page = ArtistAlbumsResponse { items: vec![], next: Some("next-url".to_string()) };
    let mut found = Vec::new();
    assert_eq!(take_album_page("A1", "2026-02-15", page, &mut found), None);
    assert!(found.is_empty());
}

#[test]
fn last_album_page_has_no_next() {
    let page = ArtistAlbumsResponse { items: vec![album("new", "2026-03-01", "album", &["A1"])], next: None };
    let mut found = Vec::new();
    assert_eq!(take_album_page("A1", "2026-02-15", page, &mut found), None);
    assert_eq!(ids(&found), vec!["new"]);
}

#[test]
fn merge_sorts_newest_first_and_drops_repeats() {
    let found = vec![
        album("a", "2026-03-01", "album", &["A1"]),
        album("b", "2026-03-05", "album", &["A1"]),
        album("c", "2026-03-01", "album", &["A1"]),
        album("b", "2026-03-05", "single", &["A1"]),
        album("d", "2026", "single", &["A1"]),
    ];
    let merged = merge_new_releases(found);
    assert_eq!(ids(&merged), vec!["b", "a", "c", "d"]);
    assert_eq!(merged[0].album_type, "album");
}

#[test]
fn merge_keeps_newest_copy_of_an_id() {
    let found = vec![
        album("x", "2026-01-01", "album", &["A1"]),
        album("x", "2026-02-01", "single", &["A1"]),
    ];
    let merged = merge_new_releases(found);
    assert_eq!(merged.len(), 1);
    assert_eq!(merged[0].release_date, "2026-02-01");
}

#[test]
fn merge_of_nothing_is_nothing() {
    assert!(merge_new_releases(Vec::new()).is_empty());
}

fn saved(track_artists: &[&str]) -> SavedTrack {
    SavedTrack {
        added_at: "2026-01-01T00:00:00Z".to_string(),
        track: Track {
            id: "t".to_string(),
            name: "song".to_string(),
            artists: track_artists.iter().map(|a| artist(a)).collect(),
            album: album("al", "2020-01-01", "album", track_artists),
        },
    }
}

#[test]
fn liked_songs_pages_collect_each_artist_once() {
    let mut artists = Vec::new();
    let first = LikedSongsResponse {
        items: vec![saved(&["A", "B"]), saved(&["B", "C"]), saved(&["A"])],
        next: Some("page2".to_string()),
        total: 5,
    };
    let next = take_liked_songs_page(first, &mut artists);
    assert_eq!(next.as_deref(), Some("page2"));
    let second = LikedSongsResponse { items: vec![saved(&["C", "D"])], next: None, total: 5 };
    let next = take_liked_songs_page(second, &mut artists);
    assert_eq!(next, None);
    let got: Vec<&str> = artists.iter().map(|a| a.id.as_str()).collect();
    assert_eq!(got, vec!["A", "B", "C", "D"]);
}
