//! Reading the artist and library pages of the Spotify Web API: which
//! albums count as new releases, when to fetch another page, and how the
//! releases found for an artist are ordered and freed of repeats.

use vstd::prelude::*;
use vstd::string::*;

use crate::models::{Album, Artist, ArtistAlbumsResponse, LikedSongsResponse, SavedTrack};
use crate::text::{lemma_lex_le_refl, lemma_lex_le_total, lemma_lex_le_trans, lex_le, lex_lt, text_eq, text_le};

verus! {

/// The first page of the user's liked songs.
pub const LIKED_TRACKS_URL: &'static str = "https://api.spotify.com/v1/me/tracks?limit=50";

/// The URL of the first page of `artist_id`'s releases of group `group`.
pub open spec fn artist_albums_url(artist_id: Seq<char>, group: Seq<char>) -> Seq<char> {
    "https://api.spotify.com/v1/artists/"@ + artist_id + "/albums?limit=50&include_groups="@
        + group + "&market=CA"@
}

/// The first page of the releases of group `group` (such as "album") by
/// `artist_id`.
pub fn artist_albums_first_page(artist_id: &str, group: &str) -> (r: String)
    ensures
        r@ == artist_albums_url(artist_id@, group@),
{
    let mut r = String::from_str("https://api.spotify.com/v1/artists/");
    r.append(artist_id);
    r.append("/albums?limit=50&include_groups=");
    r.append(group);
    r.append("&market=CA");
    r
}

/// The value of the `Authorization` header for `access_token`.
pub fn bearer_header(access_token: &str) -> (r: String)
    ensures
        r@ == "Bearer "@ + access_token@,
{
    let mut r = String::from_str("Bearer ");
    r.append(access_token);
    r
}

/// The release groups an artist is scanned for, in scan order.
pub fn release_groups() -> (r: Vec<&'static str>)
    ensures
        r@.len() == 2,
        r@[0]@ == "album"@,
        r@[1]@ == "single"@,
{
    let mut r: Vec<&'static str> = Vec::new();
    r.push("album");
    r.push("single");
    r
}

/// Whether `artist_id` is one of `album`'s credited artists.
pub open spec fn credits_artist(album: Album, artist_id: Seq<char>) -> bool {
    exists|k: int| 0 <= k < album.artists@.len() && #[trigger] album.artists@[k].id@ == artist_id
}

/// Whether `album` is a release of `artist_id` newer than `last_checked`:
/// released strictly after it, not a compilation, and crediting the artist.
pub open spec fn is_new_release(album: Album, artist_id: Seq<char>, last_checked: Seq<char>) -> bool {
    &&& !lex_le(album.release_date@, last_checked)
    &&& album.album_type@ != "compilation"@
    &&& credits_artist(album, artist_id)
}

/// The new releases among `items`, in page order.
pub open spec fn new_releases_in(items: Seq<Album>, artist_id: Seq<char>, last_checked: Seq<char>) -> Seq<Album>
    decreases items.len(),
{
    if items.len() == 0 {
        Seq::empty()
    } else {
        let before = new_releases_in(items.drop_last(), artist_id, last_checked);
        if is_new_release(items.last(), artist_id, last_checked) {
            before.push(items.last())
        } else {
            before
        }
    }
}

/// Whether some album of `items` was released on or before `last_checked`.
pub open spec fn has_old_release(items: Seq<Album>, last_checked: Seq<char>) -> bool {
    exists|i: int| 0 <= i < items.len() && lex_le(#[trigger] items[i].release_date@, last_checked)
}

/// The page to fetch after `page`: its `next`, unless the page was empty
/// or reached releases already seen.
pub open spec fn page_after(page: ArtistAlbumsResponse, last_checked: Seq<char>) -> Option<String> {
    if page.items@.len() > 0 && !has_old_release(page.items@, last_checked) {
        page.next
    } else {
        None
    }
}

fn credits(album: &Album, artist_id: &str) -> (r: bool)
    ensures
        r == credits_artist(*album, artist_id@),
{
    let n = album.artists.len();
    let mut k: usize = 0;
    while k < n
        invariant
            n == album.artists@.len(),
            k <= n,
            forall|j: int| 0 <= j < k ==> album.artists@[j].id@ != artist_id@,
        decreases n - k,
    {
        if text_eq(album.artists[k].id.as_str(), artist_id) {
            return true;
        }
        k = k + 1;
    }
    false
}

/// Takes one page of an artist's releases: appends to `found` the albums
/// that are new releases of `artist_id` since `last_checked` (YYYY-MM-DD),
/// and returns the URL of the page to fetch next, if any.
pub fn take_album_page(
    artist_id: &str,
    last_checked: &str,
    page: ArtistAlbumsResponse,
    found: &mut Vec<Album>,
) -> (next: Option<String>)
    ensures
        final(found)@ == old(found)@ + new_releases_in(page.items@, artist_id@, last_checked@),
        next == page_after(page, last_checked@),
{
    let ghost items0 = page.items@;
    let ghost found0 = found@;
    let ArtistAlbumsResponse { items, next } = page;
    let mut items = items;
    if items.len() == 0 {
        return None;
    }
    let mut has_old = false;
    let ghost mut k: int = 0;
    while items.len() > 0
        invariant
            0 <= k <= items0.len(),
            items@ == items0.skip(k),
            found@ == found0 + new_releases_in(items0.take(k), artist_id@, last_checked@),
            has_old == has_old_release(items0.take(k), last_checked@),
        decreases items@.len(),
    {
        let album = items.remove(0);
        proof {
            assert(items0.take(k + 1).drop_last() =~= items0.take(k));
            assert(items0.take(k + 1).last() == album);
            assert(items@ =~= items0.skip(k + 1));
        }
        let old_one = text_le(album.release_date.as_str(), last_checked);
        if old_one {
            has_old = true;
            proof {
                assert(items0.take(k + 1)[k] == album);
            }
        } else {
            let is_compilation = text_eq(album.album_type.as_str(), "compilation");
            if !is_compilation && credits(&album, artist_id) {
                found.push(album);
            }
        }
        proof {
            let t = items0.take(k + 1);
            if !old_one && !has_old_release(items0.take(k), last_checked@) {
                assert forall|i: int| 0 <= i < t.len() implies !lex_le(#[trigger] t[i].release_date@, last_checked@) by {
                    if i < k {
                        assert(items0.take(k)[i] == t[i]);
                    }
                }
            }
            if has_old_release(items0.take(k), last_checked@) {
                let i = choose|i: int| 0 <= i < k && lex_le(#[trigger] items0.take(k)[i].release_date@, last_checked@);
                assert(t[i] == items0.take(k)[i]);
            }
            k = k + 1;
        }
    }
    proof {
        assert(items0.take(k) =~= items0);
    }
    if !has_old && next.is_some() {
        next
    } else {
        None
    }
}

/// The artists of `items`' tracks, track after track, each track's artists in
/// credit order.
pub open spec fn track_artists(items: Seq<SavedTrack>) -> Seq<Artist>
    decreases items.len(),
{
    if items.len() == 0 {
        Seq::empty()
    } else {
        track_artists(items.drop_last()) + items.last().track.artists@
    }
}

/// Whether some artist of `list` has id `id`.
pub open spec fn has_artist_id(list: Seq<Artist>, id: Seq<char>) -> bool {
    exists|k: int| 0 <= k < list.len() && #[trigger] list[k].id@ == id
}

/// `known` followed by the artists of `more` whose id is not yet known, in
/// the order they come; of several with one id the first is kept.
pub open spec fn add_new_artists(known: Seq<Artist>, more: Seq<Artist>) -> Seq<Artist>
    decreases more.len(),
{
    if more.len() == 0 {
        known
    } else {
        let before = add_new_artists(known, more.drop_last());
        if has_artist_id(before, more.last().id@) {
            before
        } else {
            before.push(more.last())
        }
    }
}

fn knows_artist(list: &Vec<Artist>, id: &str) -> (r: bool)
    ensures
        r == has_artist_id(list@, id@),
{
    let n = list.len();
    let mut k: usize = 0;
    while k < n
        invariant
            n == list@.len(),
            k <= n,
            forall|j: int| 0 <= j < k ==> list@[j].id@ != id@,
        decreases n - k,
    {
        if text_eq(list[k].id.as_str(), id) {
            return true;
        }
        k = k + 1;
    }
    false
}

/// Takes one page of the user's liked songs: appends to `artists` every
/// artist of the page's tracks whose id it does not hold yet, and returns
/// the URL of the next page, if any.
pub fn take_liked_songs_page(page: LikedSongsResponse, artists: &mut Vec<Artist>) -> (next: Option<
    String,
>)
    ensures
        final(artists)@ == add_new_artists(old(artists)@, track_artists(page.items@)),
        next == page.next,
{
    let ghost items0 = page.items@;
    let LikedSongsResponse { items, next, total: _ } = page;
    let mut items = items;
    let mut all: Vec<Artist> = Vec::new();
    let ghost mut k: int = 0;
    while items.len() > 0
        invariant
            0 <= k <= items0.len(),
            items@ == items0.skip(k),
            all@ == track_artists(items0.take(k)),
        decreases items@.len(),
    {
        let saved = items.remove(0);
        proof {
            assert(items0.take(k + 1).drop_last() =~= items0.take(k));
            assert(items0.take(k + 1).last() == saved);
            assert(items@ =~= items0.skip(k + 1));
        }
        let SavedTrack { added_at: _, track } = saved;
        let mut credited = track.artists;
        all.append(&mut credited);
        proof {
            k = k + 1;
        }
    }
    proof {
        assert(items0.take(k) =~= items0);
    }
    let ghost known0 = artists@;
    let ghost more = all@;
    let ghost mut j: int = 0;
    while all.len() > 0
        invariant
            0 <= j <= more.len(),
            all@ == more.skip(j),
            artists@ == add_new_artists(known0, more.take(j)),
        decreases all@.len(),
    {
        let artist = all.remove(0);
        proof {
            assert(more.take(j + 1).drop_last() =~= more.take(j));
            assert(more.take(j + 1).last() == artist);
            assert(all@ =~= more.skip(j + 1));
        }
        if !knows_artist(artists, artist.id.as_str()) {
            artists.push(artist);
        }
        proof {
            j = j + 1;
        }
    }
    proof {
        assert(more.take(j) =~= more);
    }
    next
}

/// `sorted` with `x` placed after every album released on or after it and
/// before the first one released earlier.
pub open spec fn insert_by_date(sorted: Seq<Album>, x: Album) -> Seq<Album>
    decreases sorted.len(),
{
    if sorted.len() == 0 {
        seq![x]
    } else if lex_lt(sorted[0].release_date@, x.release_date@) {
        seq![x] + sorted
    } else {
        seq![sorted[0]] + insert_by_date(sorted.drop_first(), x)
    }
}

/// `albums` stably sorted newest release first: what `sort_by` with the
/// release dates compared in reverse yields.
pub open spec fn newest_first(albums: Seq<Album>) -> Seq<Album>
    decreases albums.len(),
{
    if albums.len() == 0 {
        Seq::empty()
    } else {
        insert_by_date(newest_first(albums.drop_last()), albums.last())
    }
}

/// Whether some album of `list` has id `id`.
pub open spec fn has_album_id(list: Seq<Album>, id: Seq<char>) -> bool {
    exists|k: int| 0 <= k < list.len() && #[trigger] list[k].id@ == id
}

/// `albums` with every album whose id occurred earlier left out.
pub open spec fn first_per_id(albums: Seq<Album>) -> Seq<Album>
    decreases albums.len(),
{
    if albums.len() == 0 {
        Seq::empty()
    } else {
        let before = first_per_id(albums.drop_last());
        if has_album_id(before, albums.last().id@) {
            before
        } else {
            before.push(albums.last())
        }
    }
}

/// The releases found for an artist, newest first, each id once: of the
/// albums sharing an id, the first of the sorted order stays.
pub open spec fn merged_releases(found: Seq<Album>) -> Seq<Album> {
    first_per_id(newest_first(found))
}

proof fn lemma_insert_at(sorted: Seq<Album>, x: Album, j: int)
    requires
        0 <= j <= sorted.len(),
        forall|k: int| 0 <= k < j ==> !lex_lt(#[trigger] sorted[k].release_date@, x.release_date@),
        j < sorted.len() ==> lex_lt(sorted[j].release_date@, x.release_date@),
    ensures
        insert_by_date(sorted, x) == sorted.insert(j, x),
    decreases sorted.len(),
{
    if sorted.len() == 0 {
        assert(sorted.insert(j, x) =~= seq![x]);
    } else if j == 0 {
        assert(sorted.insert(j, x) =~= seq![x] + sorted);
    } else {
        let rest = sorted.drop_first();
        assert forall|k: int| 0 <= k < j - 1 implies !lex_lt(
            #[trigger] rest[k].release_date@,
            x.release_date@,
        ) by {
            assert(rest[k] == sorted[k + 1]);
        }
        lemma_insert_at(rest, x, j - 1);
        assert(!lex_lt(sorted[0].release_date@, x.release_date@));
        assert(sorted.insert(j, x) =~= seq![sorted[0]] + rest.insert(j - 1, x));
    }
}

/// The releases found for an artist, ordered newest first with repeats of
/// an id left out, as `get_all_new_releases` returns them.
pub fn merge_new_releases(found: Vec<Album>) -> (r: Vec<Album>)
    ensures
        r@ == merged_releases(found@),
{
    let ghost input = found@;
    let mut rest = found;
    let mut sorted: Vec<Album> = Vec::new();
    let ghost mut k: int = 0;
    while rest.len() > 0
        invariant
            0 <= k <= input.len(),
            rest@ == input.skip(k),
            sorted@ == newest_first(input.take(k)),
        decreases rest@.len(),
    {
        let x = rest.remove(0);
        proof {
            assert(input.take(k + 1).drop_last() =~= input.take(k));
            assert(input.take(k + 1).last() == x);
            assert(rest@ =~= input.skip(k + 1));
        }
        let n = sorted.len();
        let mut j: usize = 0;
        while j < n && text_le(x.release_date.as_str(), sorted[j].release_date.as_str())
            invariant
                n == sorted@.len(),
                j <= n,
                forall|i: int| 0 <= i < j ==> !lex_lt(#[trigger] sorted@[i].release_date@, x.release_date@),
            decreases n - j,
        {
            j = j + 1;
        }
        proof {
            lemma_insert_at(sorted@, x, j as int);
        }
        sorted.insert(j, x);
        proof {
            k = k + 1;
        }
    }
    proof {
        assert(input.take(k) =~= input);
    }
    let ghost by_date = sorted@;
    let mut kept: Vec<Album> = Vec::new();
    let ghost mut m: int = 0;
    while sorted.len() > 0
        invariant
            0 <= m <= by_date.len(),
            sorted@ == by_date.skip(m),
            kept@ == first_per_id(by_date.take(m)),
        decreases sorted@.len(),
    {
        let x = sorted.remove(0);
        proof {
            assert(by_date.take(m + 1).drop_last() =~= by_date.take(m));
            assert(by_date.take(m + 1).last() == x);
            assert(sorted@ =~= by_date.skip(m + 1));
        }
        let n = kept.len();
        let mut i: usize = 0;
        let mut seen = false;
        while i < n
            invariant
                n == kept@.len(),
                i <= n,
                seen == (exists|q: int| 0 <= q < i && #[trigger] kept@[q].id@ == x.id@),
            decreases n - i,
        {
            if text_eq(kept[i].id.as_str(), x.id.as_str()) {
                seen = true;
            }
            i = i + 1;
        }
        if !seen {
            kept.push(x);
        }
        proof {
            m = m + 1;
        }
    }
    proof {
        assert(by_date.take(m) =~= by_date);
    }
    kept
}

/// Whether no album of `albums` was released after one before it.
pub open spec fn is_newest_first(albums: Seq<Album>) -> bool {
    forall|i: int, j: int|
        0 <= i < j < albums.len() ==> lex_le(
            #[trigger] albums[j].release_date@,
            #[trigger] albums[i].release_date@,
        )
}

/// Whether no two albums of `albums` share an id.
pub open spec fn ids_distinct(albums: Seq<Album>) -> bool {
    forall|i: int, j: int|
        0 <= i < j < albums.len() ==> #[trigger] albums[i].id@ != #[trigger] albums[j].id@
}

proof fn lemma_insert_contents(sorted: Seq<Album>, x: Album)
    ensures
        insert_by_date(sorted, x).len() == sorted.len() + 1,
        forall|y: Album| #[trigger]
            insert_by_date(sorted, x).contains(y) <==> (sorted.contains(y) || y == x),
    decreases sorted.len(),
{
    let r = insert_by_date(sorted, x);
    if sorted.len() == 0 {
        assert(r =~= seq![x]);
        assert forall|y: Album| r.contains(y) <==> (sorted.contains(y) || y == x) by {
            if y == x {
                assert(r[0] == x);
            }
        }
    } else if lex_lt(sorted[0].release_date@, x.release_date@) {
        assert forall|y: Album| r.contains(y) <==> (sorted.contains(y) || y == x) by {
            if r.contains(y) {
                let i = choose|i: int| 0 <= i < r.len() && r[i] == y;
                if i > 0 {
                    assert(sorted[i - 1] == y);
                }
            }
            if sorted.contains(y) {
                let i = choose|i: int| 0 <= i < sorted.len() && sorted[i] == y;
                assert(r[i + 1] == y);
            }
            if y == x {
                assert(r[0] == x);
            }
        }
    } else {
        let rest = sorted.drop_first();
        lemma_insert_contents(rest, x);
        let t = insert_by_date(rest, x);
        assert forall|y: Album| r.contains(y) <==> (sorted.contains(y) || y == x) by {
            if r.contains(y) {
                let i = choose|i: int| 0 <= i < r.len() && r[i] == y;
                if i == 0 {
                    assert(sorted[0] == y);
                } else {
                    assert(t[i - 1] == y);
                    assert(t.contains(y));
                    if rest.contains(y) {
                        let q = choose|q: int| 0 <= q < rest.len() && rest[q] == y;
                        assert(sorted[q + 1] == y);
                    }
                }
            }
            if sorted.contains(y) {
                let i = choose|i: int| 0 <= i < sorted.len() && sorted[i] == y;
                if i == 0 {
                    assert(r[0] == y);
                } else {
                    assert(rest[i - 1] == y);
                    assert(t.contains(y));
                    let q = choose|q: int| 0 <= q < t.len() && t[q] == y;
                    assert(r[q + 1] == y);
                }
            }
            if y == x {
                assert(t.contains(x));
                let q = choose|q: int| 0 <= q < t.len() && t[q] == x;
                assert(r[q + 1] == x);
            }
        }
    }
}

proof fn lemma_newest_first_contents(albums: Seq<Album>)
    ensures
        newest_first(albums).len() == albums.len(),
        forall|y: Album| #[trigger] newest_first(albums).contains(y) <==> albums.contains(y),
    decreases albums.len(),
{
    if albums.len() > 0 {
        let front = albums.drop_last();
        lemma_newest_first_contents(front);
        lemma_insert_contents(newest_first(front), albums.last());
        assert forall|y: Album| #[trigger] newest_first(albums).contains(y) <==> albums.contains(y) by {
            if front.contains(y) {
                let i = choose|i: int| 0 <= i < front.len() && front[i] == y;
                assert(albums[i] == y);
            }
            if albums.contains(y) {
                let i = choose|i: int| 0 <= i < albums.len() && albums[i] == y;
                if i < albums.len() - 1 {
                    assert(front[i] == y);
                }
            }
        }
    }
}

proof fn lemma_insert_sorted(sorted: Seq<Album>, x: Album)
    requires
        is_newest_first(sorted),
    ensures
        is_newest_first(insert_by_date(sorted, x)),
    decreases sorted.len(),
{
    let r = insert_by_date(sorted, x);
    if sorted.len() == 0 {
        assert(r =~= seq![x]);
    } else if lex_lt(sorted[0].release_date@, x.release_date@) {
        lemma_lex_le_total(sorted[0].release_date@, x.release_date@);
        assert forall|i: int, j: int| 0 <= i < j < r.len() implies lex_le(
            #[trigger] r[j].release_date@,
            #[trigger] r[i].release_date@,
        ) by {
            if i == 0 {
                assert(r[j] == sorted[j - 1]);
                if j - 1 > 0 {
                    assert(lex_le(sorted[j - 1].release_date@, sorted[0].release_date@));
                } else {
                    lemma_lex_le_refl(sorted[0].release_date@);
                }
                lemma_lex_le_trans(
                    sorted[j - 1].release_date@,
                    sorted[0].release_date@,
                    x.release_date@,
                );
            } else {
                assert(r[i] == sorted[i - 1]);
                assert(r[j] == sorted[j - 1]);
            }
        }
    } else {
        let rest = sorted.drop_first();
        assert(is_newest_first(rest)) by {
            assert forall|i: int, j: int| 0 <= i < j < rest.len() implies lex_le(
                #[trigger] rest[j].release_date@,
                #[trigger] rest[i].release_date@,
            ) by {
                assert(rest[i] == sorted[i + 1]);
                assert(rest[j] == sorted[j + 1]);
            }
        }
        lemma_insert_sorted(rest, x);
        lemma_insert_contents(rest, x);
        let t = insert_by_date(rest, x);
        assert forall|i: int, j: int| 0 <= i < j < r.len() implies lex_le(
            #[trigger] r[j].release_date@,
            #[trigger] r[i].release_date@,
        ) by {
            if i == 0 {
                assert(r[j] == t[j - 1]);
                assert(t.contains(t[j - 1]));
                if t[j - 1] == x {
                } else {
                    assert(rest.contains(t[j - 1]));
                    let q = choose|q: int| 0 <= q < rest.len() && rest[q] == t[j - 1];
                    assert(sorted[q + 1] == t[j - 1]);
                }
            } else {
                assert(r[i] == t[i - 1]);
                assert(r[j] == t[j - 1]);
            }
        }
    }
}

proof fn lemma_newest_first_sorted(albums: Seq<Album>)
    ensures
        is_newest_first(newest_first(albums)),
    decreases albums.len(),
{
    if albums.len() > 0 {
        lemma_newest_first_sorted(albums.drop_last());
        lemma_insert_sorted(newest_first(albums.drop_last()), albums.last());
    }
}

proof fn lemma_first_per_id(albums: Seq<Album>)
    ensures
        ids_distinct(first_per_id(albums)),
        forall|y: Album| #[trigger] first_per_id(albums).contains(y) ==> albums.contains(y),
        forall|id: Seq<char>| #[trigger] has_album_id(albums, id) ==> has_album_id(first_per_id(albums), id),
        is_newest_first(albums) ==> is_newest_first(first_per_id(albums)),
    decreases albums.len(),
{
    if albums.len() > 0 {
        let front = albums.drop_last();
        let x = albums.last();
        lemma_first_per_id(front);
        let before = first_per_id(front);
        let r = first_per_id(albums);
        assert forall|y: Album| #[trigger] r.contains(y) implies albums.contains(y) by {
            let i = choose|i: int| 0 <= i < r.len() && r[i] == y;
            if i < before.len() {
                assert(before[i] == y);
                assert(before.contains(y));
                let q = choose|q: int| 0 <= q < front.len() && front[q] == y;
                assert(albums[q] == y);
            } else {
                assert(albums[albums.len() - 1] == y);
            }
        }
        assert forall|id: Seq<char>| #[trigger] has_album_id(albums, id) implies has_album_id(r, id) by {
            let k = choose|k: int| 0 <= k < albums.len() && #[trigger] albums[k].id@ == id;
            if k < albums.len() - 1 {
                assert(front[k].id@ == id);
                assert(has_album_id(front, id));
                let q = choose|q: int| 0 <= q < before.len() && #[trigger] before[q].id@ == id;
                assert(r[q] == before[q]);
            } else if !has_album_id(before, x.id@) {
                assert(r[r.len() - 1] == x);
            }
        }
        if !has_album_id(before, x.id@) {
            assert forall|i: int, j: int| 0 <= i < j < r.len() implies #[trigger] r[i].id@
                != #[trigger] r[j].id@ by {
                assert(r[i] == before[i]);
                if j < before.len() {
                    assert(r[j] == before[j]);
                }
            }
            if is_newest_first(albums) {
                assert(is_newest_first(front)) by {
                    assert forall|i: int, j: int| 0 <= i < j < front.len() implies lex_le(
                        #[trigger] front[j].release_date@,
                        #[trigger] front[i].release_date@,
                    ) by {
                        assert(front[i] == albums[i]);
                        assert(front[j] == albums[j]);
                    }
                }
                assert forall|i: int, j: int| 0 <= i < j < r.len() implies lex_le(
                    #[trigger] r[j].release_date@,
                    #[trigger] r[i].release_date@,
                ) by {
                    assert(r[i] == before[i]);
                    if j < before.len() {
                        assert(r[j] == before[j]);
                    } else {
                        assert(before.contains(before[i]));
                        let q = choose|q: int| 0 <= q < front.len() && front[q] == before[i];
                        assert(albums[q] == before[i]);
                        assert(albums[albums.len() - 1] == x);
                    }
                }
            }
        } else {
            if is_newest_first(albums) {
                assert(is_newest_first(front)) by {
                    assert forall|i: int, j: int| 0 <= i < j < front.len() implies lex_le(
                        #[trigger] front[j].release_date@,
                        #[trigger] front[i].release_date@,
                    ) by {
                        assert(front[i] == albums[i]);
                        assert(front[j] == albums[j]);
                    }
                }
            }
        }
    }
}

/// The releases merged for an artist carry no id twice.
pub proof fn law_merged_ids_distinct(found: Seq<Album>)
    ensures
        ids_distinct(merged_releases(found)),
{
    lemma_first_per_id(newest_first(found));
}

/// The releases merged for an artist come newest first.
pub proof fn law_merged_newest_first(found: Seq<Album>)
    ensures
        is_newest_first(merged_releases(found)),
{
    lemma_newest_first_sorted(found);
    lemma_first_per_id(newest_first(found));
}

/// Merging keeps exactly the ids that were found, and adds no album that
/// was not found.
pub proof fn law_merged_keeps_ids(found: Seq<Album>)
    ensures
        forall|id: Seq<char>| #[trigger]
            has_album_id(merged_releases(found), id) <==> has_album_id(found, id),
        forall|y: Album| #[trigger] merged_releases(found).contains(y) ==> found.contains(y),
{
    let sorted = newest_first(found);
    lemma_newest_first_contents(found);
    lemma_first_per_id(sorted);
    assert forall|id: Seq<char>| #[trigger]
        has_album_id(merged_releases(found), id) <==> has_album_id(found, id) by {
        if has_album_id(found, id) {
            let k = choose|k: int| 0 <= k < found.len() && #[trigger] found[k].id@ == id;
            assert(found.contains(found[k]));
            assert(sorted.contains(found[k]));
            let q = choose|q: int| 0 <= q < sorted.len() && sorted[q] == found[k];
            assert(sorted[q].id@ == id);
            assert(has_album_id(sorted, id));
        }
        if has_album_id(merged_releases(found), id) {
            let m = merged_releases(found);
            let k = choose|k: int| 0 <= k < m.len() && #[trigger] m[k].id@ == id;
            assert(m.contains(m[k]));
            assert(sorted.contains(m[k]));
            assert(found.contains(m[k]));
            let q = choose|q: int| 0 <= q < found.len() && found[q] == m[k];
            assert(found[q].id@ == id);
        }
    }
}

/// Whether no two artists of `list` share an id.
pub open spec fn artist_ids_distinct(list: Seq<Artist>) -> bool {
    forall|i: int, j: int| 0 <= i < j < list.len() ==> #[trigger] list[i].id@ != #[trigger] list[j].id@
}

/// Adding the artists of a page to a list without repeated ids yields a
/// list without repeated ids that starts with the old one, holds every id
/// the page credits, and holds no artist from anywhere else.
pub proof fn law_new_artists(known: Seq<Artist>, more: Seq<Artist>)
    requires
        artist_ids_distinct(known),
    ensures
        artist_ids_distinct(add_new_artists(known, more)),
        add_new_artists(known, more).len() >= known.len(),
        add_new_artists(known, more).take(known.len() as int) == known,
        forall|id: Seq<char>| #[trigger]
            has_artist_id(add_new_artists(known, more), id) <==> (has_artist_id(known, id)
                || has_artist_id(more, id)),
        forall|a: Artist| #[trigger]
            add_new_artists(known, more).contains(a) ==> (known.contains(a) || more.contains(a)),
    decreases more.len(),
{
    let r = add_new_artists(known, more);
    if more.len() == 0 {
        assert(r.take(known.len() as int) =~= known);
    } else {
        let front = more.drop_last();
        let x = more.last();
        law_new_artists(known, front);
        let before = add_new_artists(known, front);
        if !has_artist_id(before, x.id@) {
            assert forall|i: int, j: int| 0 <= i < j < r.len() implies #[trigger] r[i].id@
                != #[trigger] r[j].id@ by {
                assert(r[i] == before[i]);
                if j < before.len() {
                    assert(r[j] == before[j]);
                }
            }
            assert(r.take(known.len() as int) =~= before.take(known.len() as int));
        }
        assert forall|id: Seq<char>| #[trigger] has_artist_id(r, id) <==> (has_artist_id(known, id)
            || has_artist_id(more, id)) by {
            if has_artist_id(front, id) {
                let k = choose|k: int| 0 <= k < front.len() && #[trigger] front[k].id@ == id;
                assert(more[k].id@ == id);
            }
            if has_artist_id(more, id) {
                let k = choose|k: int| 0 <= k < more.len() && #[trigger] more[k].id@ == id;
                if k < front.len() {
                    assert(front[k].id@ == id);
                } else if !has_artist_id(before, x.id@) {
                    assert(r[r.len() - 1].id@ == id);
                }
            }
            if has_artist_id(r, id) {
                let k = choose|k: int| 0 <= k < r.len() && #[trigger] r[k].id@ == id;
                if k < before.len() {
                    assert(before[k].id@ == id);
                } else {
                    assert(more[more.len() - 1].id@ == id);
                }
            }
            if has_artist_id(before, id) {
                let k = choose|k: int| 0 <= k < before.len() && #[trigger] before[k].id@ == id;
                assert(r[k].id@ == id);
            }
        }
        assert forall|a: Artist| #[trigger] r.contains(a) implies (known.contains(a) || more.contains(a)) by {
            let k = choose|k: int| 0 <= k < r.len() && r[k] == a;
            if k < before.len() {
                assert(before[k] == a);
                assert(before.contains(a));
                if front.contains(a) {
                    let q = choose|q: int| 0 <= q < front.len() && front[q] == a;
                    assert(more[q] == a);
                }
            } else {
                assert(more[more.len() - 1] == a);
            }
        }
    }
}

/// Every album a page yields is a new release of the artist, taken from the
/// page, and page order is kept.
pub proof fn law_new_releases_in(items: Seq<Album>, artist_id: Seq<char>, last_checked: Seq<char>)
    ensures
        forall|i: int|
            0 <= i < new_releases_in(items, artist_id, last_checked).len() ==> is_new_release(
                #[trigger] new_releases_in(items, artist_id, last_checked)[i],
                artist_id,
                last_checked,
            ),
        forall|a: Album| #[trigger]
            new_releases_in(items, artist_id, last_checked).contains(a) ==> items.contains(a),
        forall|i: int|
            0 <= i < items.len() && is_new_release(#[trigger] items[i], artist_id, last_checked)
                ==> new_releases_in(items, artist_id, last_checked).contains(items[i]),
    decreases items.len(),
{
    if items.len() > 0 {
        let front = items.drop_last();
        law_new_releases_in(front, artist_id, last_checked);
        let before = new_releases_in(front, artist_id, last_checked);
        let r = new_releases_in(items, artist_id, last_checked);
        assert forall|i: int| 0 <= i < r.len() implies is_new_release(#[trigger] r[i], artist_id, last_checked) by {
            if i < before.len() {
                assert(r[i] == before[i]);
            }
        }
        assert forall|a: Album| #[trigger] r.contains(a) implies items.contains(a) by {
            let i = choose|i: int| 0 <= i < r.len() && r[i] == a;
            if i < before.len() {
                assert(before[i] == a);
                assert(before.contains(a));
                let q = choose|q: int| 0 <= q < front.len() && front[q] == a;
                assert(items[q] == a);
            } else {
                assert(items[items.len() - 1] == a);
            }
        }
        assert forall|i: int|
            0 <= i < items.len() && is_new_release(#[trigger] items[i], artist_id, last_checked) implies r.contains(items[i]) by {
            if i < items.len() - 1 {
                assert(front[i] == items[i]);
                assert(before.contains(items[i]));
                let q = choose|q: int| 0 <= q < before.len() && before[q] == items[i];
                assert(r[q] == items[i]);
            } else {
                assert(r[r.len() - 1] == items[i]);
            }
        }
    }
}

/// Which albums a page of an artist's releases yields, stated over the
/// albums' own fields: exactly those of the page released strictly after
/// `last_checked`, whose type is not "compilation", and that list
/// `artist_id` among their credited artists at any position.
pub proof fn law_album_page_selection(items: Seq<Album>, artist_id: Seq<char>, last_checked: Seq<char>)
    ensures
        forall|a: Album| #[trigger]
            new_releases_in(items, artist_id, last_checked).contains(a) ==> {
                &&& items.contains(a)
                &&& !lex_le(a.release_date@, last_checked)
                &&& a.album_type@ != "compilation"@
                &&& exists|k: int| 0 <= k < a.artists@.len() && #[trigger] a.artists@[k].id@ == artist_id
            },
        forall|i: int, k: int|
            0 <= i < items.len() && 0 <= k < items[i].artists@.len() && !lex_le(
                items[i].release_date@,
                last_checked,
            ) && items[i].album_type@ != "compilation"@ && #[trigger] items[i].artists@[k].id@
                == artist_id ==> new_releases_in(items, artist_id, last_checked).contains(items[i]),
{
    law_new_releases_in(items, artist_id, last_checked);
    let r = new_releases_in(items, artist_id, last_checked);
    assert forall|a: Album| #[trigger] r.contains(a) implies {
        &&& items.contains(a)
        &&& !lex_le(a.release_date@, last_checked)
        &&& a.album_type@ != "compilation"@
        &&& exists|k: int| 0 <= k < a.artists@.len() && #[trigger] a.artists@[k].id@ == artist_id
    } by {
        let j = choose|j: int| 0 <= j < r.len() && r[j] == a;
        assert(is_new_release(r[j], artist_id, last_checked));
    }
    assert forall|i: int, k: int|
        0 <= i < items.len() && 0 <= k < items[i].artists@.len() && !lex_le(
            items[i].release_date@,
            last_checked,
        ) && items[i].album_type@ != "compilation"@ && #[trigger] items[i].artists@[k].id@
            == artist_id implies r.contains(items[i]) by {
        assert(credits_artist(items[i], artist_id));
        assert(is_new_release(items[i], artist_id, last_checked));
    }
}

proof fn lemma_track_artists_ids(items: Seq<SavedTrack>, id: Seq<char>)
    ensures
        has_artist_id(track_artists(items), id) <==> exists|i: int, k: int|
            0 <= i < items.len() && 0 <= k < items[i].track.artists@.len()
                && #[trigger] items[i].track.artists@[k].id@ == id,
    decreases items.len(),
{
    if items.len() > 0 {
        let front = items.drop_last();
        let last = items.last().track.artists@;
        lemma_track_artists_ids(front, id);
        let f = track_artists(front);
        let t = track_artists(items);
        assert(t == f + last);
        if has_artist_id(t, id) {
            let q = choose|q: int| 0 <= q < t.len() && #[trigger] t[q].id@ == id;
            if q < f.len() {
                assert(f[q].id@ == id);
                let (i, k) = choose|i: int, k: int|
                    0 <= i < front.len() && 0 <= k < front[i].track.artists@.len()
                        && #[trigger] front[i].track.artists@[k].id@ == id;
                assert(items[i] == front[i]);
                assert(items[i].track.artists@[k].id@ == id);
            } else {
                let k = q - f.len();
                assert(items[items.len() - 1].track.artists@[k].id@ == id);
            }
        }
        if exists|i: int, k: int|
            0 <= i < items.len() && 0 <= k < items[i].track.artists@.len()
                && #[trigger] items[i].track.artists@[k].id@ == id {
            let (i, k) = choose|i: int, k: int|
                0 <= i < items.len() && 0 <= k < items[i].track.artists@.len()
                    && #[trigger] items[i].track.artists@[k].id@ == id;
            if i < items.len() - 1 {
                assert(front[i] == items[i]);
                assert(front[i].track.artists@[k].id@ == id);
                assert(has_artist_id(f, id));
                let q = choose|q: int| 0 <= q < f.len() && #[trigger] f[q].id@ == id;
                assert(t[q] == f[q]);
            } else {
                assert(t[f.len() + k] == last[k]);
                assert(t[f.len() + k].id@ == id);
            }
        }
    }
}

proof fn lemma_add_new_artists_ids(known: Seq<Artist>, more: Seq<Artist>, id: Seq<char>)
    ensures
        has_artist_id(add_new_artists(known, more), id) <==> (has_artist_id(known, id)
            || has_artist_id(more, id)),
    decreases more.len(),
{
    if more.len() > 0 {
        let front = more.drop_last();
        let x = more.last();
        lemma_add_new_artists_ids(known, front, id);
        let before = add_new_artists(known, front);
        let r = add_new_artists(known, more);
        if has_artist_id(front, id) {
            let k = choose|k: int| 0 <= k < front.len() && #[trigger] front[k].id@ == id;
            assert(more[k].id@ == id);
        }
        if has_artist_id(more, id) {
            let k = choose|k: int| 0 <= k < more.len() && #[trigger] more[k].id@ == id;
            if k < front.len() {
                assert(front[k].id@ == id);
            } else if !has_artist_id(before, x.id@) {
                assert(r[r.len() - 1].id@ == id);
            }
        }
        if has_artist_id(r, id) {
            let k = choose|k: int| 0 <= k < r.len() && #[trigger] r[k].id@ == id;
            if k < before.len() {
                assert(before[k].id@ == id);
            } else {
                assert(more[more.len() - 1].id@ == id);
            }
        }
        if has_artist_id(before, id) {
            let k = choose|k: int| 0 <= k < before.len() && #[trigger] before[k].id@ == id;
            assert(r[k].id@ == id);
        }
    }
}

/// Which artists a page of liked songs adds, stated over the page's own
/// fields: after the page, an id is held exactly when it was held before or
/// it is the id of an artist credited on one of the page's liked tracks.
pub proof fn law_liked_page_artists(known: Seq<Artist>, items: Seq<SavedTrack>)
    ensures
        forall|id: Seq<char>|
            #[trigger] has_artist_id(add_new_artists(known, track_artists(items)), id) <==> (
            has_artist_id(known, id) || exists|i: int, k: int|
                0 <= i < items.len() && 0 <= k < items[i].track.artists@.len()
                    && #[trigger] items[i].track.artists@[k].id@ == id),
{
    assert forall|id: Seq<char>|
        #[trigger] has_artist_id(add_new_artists(known, track_artists(items)), id) <==> (
        has_artist_id(known, id) || exists|i: int, k: int|
            0 <= i < items.len() && 0 <= k < items[i].track.artists@.len()
                && #[trigger] items[i].track.artists@[k].id@ == id) by {
        lemma_add_new_artists_ids(known, track_artists(items), id);
        lemma_track_artists_ids(items, id);
    }
}

} // verus!
