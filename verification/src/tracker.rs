//! The decisions of a tracking run: what to record and queue after scanning
//! an artist, when to back off, how long to pause, when the daily digest is
//! due, and what a library sync writes.

use vstd::prelude::*;
use vstd::string::*;

use crate::models::{Album, Artist};
use crate::notifications::{format_release_html, release_report};
use crate::text::{lemma_lex_le_refl, lemma_lex_le_total, lemma_lex_le_trans, lex_le, text_le};

verus! {

/// How many stale artists one run checks at most.
pub const STALE_ARTISTS_PER_RUN: i32 = 100;

/// How long a rate-limited run grounds the tracker: 23 hours.
pub const RATE_LIMIT_COOLDOWN_SECS: u64 = 82800;

/// The least time between two daily digests: 23 hours.
pub const REPORT_INTERVAL_SECS: i64 = 82800;

/// The release date an artist checked for the first time is given, so that
/// their whole back catalogue is not reported as new.
pub const FIRST_CHECK_BASELINE: &'static str = "2026-02-15";

/// Every this many artists a progress line is written.
pub const PROGRESS_EVERY: u64 = 50;

/// The release date to record for an artist whose stored date is
/// `old_date` before scanning them: the baseline when the artist has never
/// been checked (no date stored), otherwise none, and the scan goes ahead.
pub fn first_check_date(old_date: &str) -> (r: Option<String>)
    ensures
        r is Some <==> old_date@.len() == 0,
        r matches Some(d) ==> d@ == FIRST_CHECK_BASELINE@,
{
    if old_date.is_empty() {
        Some(String::from_str(FIRST_CHECK_BASELINE))
    } else {
        None
    }
}

/// Whether a progress line is due after checking `count` artists.
pub fn progress_due(count: u64) -> (r: bool)
    ensures
        r == (count % 50 == 0),
{
    count % PROGRESS_EVERY == 0
}

/// The pause, in seconds, before the next artist, drawn from the random
/// number `random`: between 5 and 14 seconds.
pub fn pause_seconds(random: u64) -> (r: u64)
    ensures
        r == 5 + random % 10,
        5 <= r <= 14,
{
    5 + random % 10
}

/// A release to be listed in the next digest.
#[derive(Debug)]
pub struct PendingRelease {
    pub artist_name: String,
    pub album_name: String,
    pub release_date: String,
    pub spotify_url: String,
    pub art_url: String,
}

/// How the scan of one artist ended.
pub enum ScanOutcome {
    /// The new releases found, possibly none.
    Releases(Vec<Album>),
    /// Spotify answered 429 Too Many Requests.
    RateLimited,
    /// Any other failure.
    Failed,
    /// A shutdown signal arrived first.
    Interrupted,
}

/// What to do after the scan of one artist.
#[derive(Debug)]
pub struct ScanStep {
    /// The release date to record for the artist, marking them checked.
    pub record_date: Option<String>,
    /// The releases to queue for the digest, in order.
    pub queue: Vec<PendingRelease>,
    /// A cooldown to set, in seconds.
    pub cooldown_secs: Option<u64>,
    /// Whether to end the scan of further artists.
    pub stop: bool,
}

/// The URL of `album`'s first cover image, or the empty text.
pub open spec fn cover_url(album: Album) -> Seq<char> {
    if album.images@.len() > 0 {
        album.images@[0].url@
    } else {
        Seq::empty()
    }
}

/// Whether `p` lists `album` by the artist named `artist_name`.
pub open spec fn lists_release(p: PendingRelease, artist_name: Seq<char>, album: Album) -> bool {
    &&& p.artist_name@ == artist_name
    &&& p.album_name@ == album.name@
    &&& p.release_date@ == album.release_date@
    &&& p.spotify_url@ == album.external_urls.spotify@
    &&& p.art_url@ == cover_url(album)
}

/// The latest release date of `albums`, which is not empty.
pub open spec fn latest_release_date(albums: Seq<Album>) -> Seq<char>
    decreases albums.len(),
{
    if albums.len() <= 1 {
        albums[0].release_date@
    } else {
        let before = latest_release_date(albums.drop_last());
        if lex_le(before, albums.last().release_date@) {
            albums.last().release_date@
        } else {
            before
        }
    }
}

/// The step after scanning the artist named `artist_name`, whose recorded
/// release date is `old_date`, when the scan ended with `outcome`.
pub open spec fn scan_step_result(
    artist_name: Seq<char>,
    old_date: Seq<char>,
    outcome: ScanOutcome,
    r: ScanStep,
) -> bool {
    match outcome {
        ScanOutcome::Releases(found) => {
            &&& r.cooldown_secs is None
            &&& !r.stop
            &&& r.queue@.len() == found@.len()
            &&& forall|i: int|
                0 <= i < found@.len() ==> lists_release(#[trigger] r.queue@[i], artist_name, found@[i])
            &&& r.record_date matches Some(d)
            &&& d@ == (if found@.len() > 0 {
                latest_release_date(found@)
            } else {
                old_date
            })
        },
        ScanOutcome::RateLimited => {
            &&& r.record_date is None
            &&& r.queue@.len() == 0
            &&& r.cooldown_secs == Some(RATE_LIMIT_COOLDOWN_SECS)
            &&& r.stop
        },
        ScanOutcome::Failed => {
            &&& r.record_date matches Some(d)
            &&& d@ == old_date
            &&& r.queue@.len() == 0
            &&& r.cooldown_secs is None
            &&& !r.stop
        },
        ScanOutcome::Interrupted => {
            &&& r.record_date is None
            &&& r.queue@.len() == 0
            &&& r.cooldown_secs is None
            &&& r.stop
        },
    }
}

fn pending_release(artist_name: &str, album: &Album) -> (p: PendingRelease)
    ensures
        lists_release(p, artist_name@, *album),
{
    let art_url = if album.images.len() > 0 {
        album.images[0].url.clone()
    } else {
        String::new()
    };
    PendingRelease {
        artist_name: String::from_str(artist_name),
        album_name: album.name.clone(),
        release_date: album.release_date.clone(),
        spotify_url: album.external_urls.spotify.clone(),
        art_url,
    }
}

fn latest_date(albums: &Vec<Album>) -> (r: String)
    requires
        albums@.len() > 0,
    ensures
        r@ == latest_release_date(albums@),
{
    let n = albums.len();
    let mut best: usize = 0;
    let mut i: usize = 1;
    while i < n
        invariant
            n == albums@.len(),
            1 <= i <= n,
            best < i,
            albums@[best as int].release_date@ == latest_release_date(albums@.take(i as int)),
        decreases n - i,
    {
        proof {
            assert(albums@.take(i + 1).drop_last() =~= albums@.take(i as int));
        }
        if text_le(albums[best].release_date.as_str(), albums[i].release_date.as_str()) {
            best = i;
        }
        i = i + 1;
    }
    assert(albums@.take(n as int) =~= albums@);
    albums[best].release_date.clone()
}

/// What to record, queue and do after scanning the artist named
/// `artist_name` whose recorded release date is `old_date`: new releases
/// advance the recorded date to the latest of them and are queued for the
/// digest; no releases, or a failure, record the old date again so that the
/// artist counts as checked; a rate limit grounds the run for 23 hours and
/// ends it; a shutdown signal ends it.
pub fn scan_step(artist_name: &str, old_date: &str, outcome: ScanOutcome) -> (r: ScanStep)
    ensures
        scan_step_result(artist_name@, old_date@, outcome, r),
{
    match outcome {
        ScanOutcome::Releases(found) => {
            let mut queue: Vec<PendingRelease> = Vec::new();
            let n = found.len();
            let mut i: usize = 0;
            while i < n
                invariant
                    n == found@.len(),
                    i <= n,
                    queue@.len() == i,
                    forall|k: int|
                        0 <= k < i ==> lists_release(#[trigger] queue@[k], artist_name@, found@[k]),
                decreases n - i,
            {
                queue.push(pending_release(artist_name, &found[i]));
                i = i + 1;
            }
            let record = if n > 0 {
                latest_date(&found)
            } else {
                String::from_str(old_date)
            };
            ScanStep { record_date: Some(record), queue, cooldown_secs: None, stop: false }
        },
        ScanOutcome::RateLimited => ScanStep {
            record_date: None,
            queue: Vec::new(),
            cooldown_secs: Some(RATE_LIMIT_COOLDOWN_SECS),
            stop: true,
        },
        ScanOutcome::Failed => ScanStep {
            record_date: Some(String::from_str(old_date)),
            queue: Vec::new(),
            cooldown_secs: None,
            stop: false,
        },
        ScanOutcome::Interrupted => ScanStep {
            record_date: None,
            queue: Vec::new(),
            cooldown_secs: None,
            stop: true,
        },
    }
}

/// The latest release date of a non-empty list of albums is the date of one
/// of them, and no album of the list was released later.
pub proof fn law_latest_release_date(albums: Seq<Album>)
    requires
        albums.len() > 0,
    ensures
        exists|i: int| 0 <= i < albums.len() && #[trigger] albums[i].release_date@ == latest_release_date(albums),
        forall|i: int| 0 <= i < albums.len() ==> lex_le(#[trigger] albums[i].release_date@, latest_release_date(albums)),
    decreases albums.len(),
{
    let latest = latest_release_date(albums);
    if albums.len() == 1 {
        lemma_lex_le_refl(albums[0].release_date@);
        assert(albums[0].release_date@ == latest);
    } else {
        let front = albums.drop_last();
        law_latest_release_date(front);
        let before = latest_release_date(front);
        let x = albums.last().release_date@;
        lemma_lex_le_total(before, x);
        lemma_lex_le_refl(x);
        assert forall|i: int| 0 <= i < albums.len() implies lex_le(#[trigger] albums[i].release_date@, latest) by {
            if i < albums.len() - 1 {
                assert(front[i] == albums[i]);
                if lex_le(before, x) {
                    lemma_lex_le_trans(albums[i].release_date@, before, x);
                }
            }
        }
        if lex_le(before, x) {
            assert(albums[albums.len() - 1].release_date@ == latest);
        } else {
            let k = choose|k: int| 0 <= k < front.len() && #[trigger] front[k].release_date@ == before;
            assert(albums[k].release_date@ == latest);
        }
    }
}

/// After a scan, an artist's recorded release date never goes back: when
/// every release found is newer than the recorded date, as the album pages
/// yield them, the date recorded is newer too; otherwise the old date is
/// recorded again or nothing is recorded.
pub proof fn law_recorded_date_never_goes_back(
    artist_name: Seq<char>,
    old_date: Seq<char>,
    outcome: ScanOutcome,
    r: ScanStep,
)
    requires
        scan_step_result(artist_name, old_date, outcome, r),
        outcome matches ScanOutcome::Releases(found) ==> forall|i: int|
            0 <= i < found@.len() ==> !lex_le(#[trigger] found@[i].release_date@, old_date),
    ensures
        r.record_date matches Some(d) ==> lex_le(old_date, d@),
{
    lemma_lex_le_refl(old_date);
    if let ScanOutcome::Releases(found) = outcome {
        if found@.len() > 0 {
            law_latest_release_date(found@);
            let k = choose|k: int|
                0 <= k < found@.len() && #[trigger] found@[k].release_date@ == latest_release_date(found@);
            lemma_lex_le_total(found@[k].release_date@, old_date);
        }
    }
}

/// A queued release shows the album's first cover image: when the album
/// has any images, the queued art URL is the URL of the first of them,
/// however many there are; only an album without images is queued without
/// art. Every queued entry names the scanned artist and the album's name,
/// date and Spotify link.
pub proof fn law_queued_release_fields(
    artist_name: Seq<char>,
    old_date: Seq<char>,
    outcome: ScanOutcome,
    r: ScanStep,
)
    requires
        scan_step_result(artist_name, old_date, outcome, r),
    ensures
        outcome matches ScanOutcome::Releases(found) ==> {
            &&& r.queue@.len() == found@.len()
            &&& forall|i: int|
                0 <= i < found@.len() ==> {
                    &&& found@[i].images@.len() > 0 ==> (#[trigger] r.queue@[i]).art_url@
                        == found@[i].images@[0].url@
                    &&& found@[i].images@.len() == 0 ==> r.queue@[i].art_url@.len() == 0
                    &&& r.queue@[i].artist_name@ == artist_name
                    &&& r.queue@[i].album_name@ == found@[i].name@
                    &&& r.queue@[i].release_date@ == found@[i].release_date@
                    &&& r.queue@[i].spotify_url@ == found@[i].external_urls.spotify@
                }
        },
        !(outcome is Releases) ==> r.queue@.len() == 0,
{
    if let ScanOutcome::Releases(found) = outcome {
        assert forall|i: int| 0 <= i < found@.len() implies {
            &&& found@[i].images@.len() > 0 ==> (#[trigger] r.queue@[i]).art_url@
                == found@[i].images@[0].url@
            &&& found@[i].images@.len() == 0 ==> r.queue@[i].art_url@.len() == 0
            &&& r.queue@[i].artist_name@ == artist_name
            &&& r.queue@[i].album_name@ == found@[i].name@
            &&& r.queue@[i].release_date@ == found@[i].release_date@
            &&& r.queue@[i].spotify_url@ == found@[i].external_urls.spotify@
        } by {
            assert(lists_release(r.queue@[i], artist_name, found@[i]));
        }
    }
}

/// Whether the daily digest is due at Unix time `now` (seconds), the last
/// one having gone out at `last_report`: at least 23 whole hours later, or
/// at once when none ever went out.
pub fn should_send_report(last_report: Option<i64>, now: i64) -> (r: bool)
    ensures
        r == match last_report {
            None => true,
            Some(t) => now - t >= REPORT_INTERVAL_SECS,
        },
{
    match last_report {
        None => true,
        Some(t) => (now as i128) - (t as i128) >= (REPORT_INTERVAL_SECS as i128),
    }
}

/// What a due digest does with the releases still pending.
pub enum DigestPlan {
    /// Save this HTML page; on success mark the releases sent and record
    /// the time of the digest.
    Write(String),
    /// Nothing pending: only record the time of the digest.
    RecordTimeOnly,
}

/// The digest for the pending releases `(artist, album, Spotify URL, art
/// URL)`: a page listing them, or, when there are none, only the time.
pub fn plan_digest(pending: Vec<(String, String, String, String)>) -> (r: DigestPlan)
    ensures
        pending@.len() == 0 ==> r is RecordTimeOnly,
        pending@.len() > 0 ==> (r matches DigestPlan::Write(html) && html@ == release_report(pending@)),
{
    if pending.len() == 0 {
        DigestPlan::RecordTimeOnly
    } else {
        DigestPlan::Write(format_release_html(pending))
    }
}

/// The database writes of a library sync.
#[derive(Debug)]
pub struct SyncPlan {
    /// `(id, name)` of each liked artist, to insert unless already known.
    pub additions: Vec<(String, String)>,
    /// The ids to keep, every other artist being deleted; none when the
    /// library came back empty, so that an empty answer deletes nothing.
    pub keep_ids: Option<Vec<String>>,
}

/// The writes that bring the artist table in line with the liked artists
/// `artists`.
pub fn plan_library_sync(artists: &Vec<Artist>) -> (r: SyncPlan)
    ensures
        r.additions@.len() == artists@.len(),
        forall|i: int|
            0 <= i < artists@.len() ==> (#[trigger] r.additions@[i]).0@ == artists@[i].id@
                && r.additions@[i].1@ == artists@[i].name@,
        r.keep_ids is Some <==> artists@.len() > 0,
        r.keep_ids matches Some(ids) ==> ids@.len() == artists@.len() && forall|i: int|
            0 <= i < artists@.len() ==> (#[trigger] ids@[i])@ == artists@[i].id@,
{
    let n = artists.len();
    let mut additions: Vec<(String, String)> = Vec::new();
    let mut ids: Vec<String> = Vec::new();
    let mut i: usize = 0;
    while i < n
        invariant
            n == artists@.len(),
            i <= n,
            additions@.len() == i,
            ids@.len() == i,
            forall|k: int|
                0 <= k < i ==> (#[trigger] additions@[k]).0@ == artists@[k].id@ && additions@[k].1@
                    == artists@[k].name@,
            forall|k: int| 0 <= k < i ==> (#[trigger] ids@[k])@ == artists@[k].id@,
        decreases n - i,
    {
        additions.push((artists[i].id.clone(), artists[i].name.clone()));
        ids.push(artists[i].id.clone());
        i = i + 1;
    }
    let keep_ids = if n > 0 {
        Some(ids)
    } else {
        None
    };
    SyncPlan { additions, keep_ids }
}

/// The chrono format a stored time is read with once its UTC offset is
/// appended.
pub const STORED_TIME_FORMAT: &'static str = "%Y-%m-%d %H:%M:%S %z";

/// Whether `y` is a leap year of the Gregorian calendar.
pub open spec fn is_leap_year(y: int) -> bool {
    (y % 4 == 0 && y % 100 != 0) || y % 400 == 0
}

/// The number of days of month `m` (1 to 12) of year `y`.
pub open spec fn days_in_month(y: int, m: int) -> int {
    if m == 2 {
        if is_leap_year(y) {
            29
        } else {
            28
        }
    } else if m == 4 || m == 6 || m == 9 || m == 11 {
        30
    } else {
        31
    }
}

/// The days of year `y` before the first of month `m`.
pub open spec fn days_before_month(y: int, m: int) -> int
    decreases m,
{
    if m <= 1 {
        0
    } else {
        days_before_month(y, m - 1) + days_in_month(y, m - 1)
    }
}

/// The days from 0000-01-01 to the first of January of year `y` (`y >= 0`):
/// 365 for each year and one more for each leap year before `y`.
pub open spec fn days_before_year(y: int) -> int {
    365 * y + (y + 3) / 4 - (y + 99) / 100 + (y + 399) / 400
}

/// The Unix time of the calendar time `y-mo-d h:mi:s` taken in UTC.
pub open spec fn utc_unix_seconds(y: int, mo: int, d: int, h: int, mi: int, s: int) -> int {
    (days_before_year(y) - days_before_year(1970) + days_before_month(y, mo) + d - 1) * 86400 + h
        * 3600 + mi * 60 + s
}

/// Whether `y-mo-d h:mi:s` is a calendar time with a four-digit year and no
/// leap second.
pub open spec fn valid_civil_time(y: int, mo: int, d: int, h: int, mi: int, s: int) -> bool {
    &&& 0 <= y <= 9999
    &&& 1 <= mo <= 12
    &&& 1 <= d <= days_in_month(y, mo)
    &&& 0 <= h <= 23
    &&& 0 <= mi <= 59
    &&& 0 <= s <= 59
}

/// `n` (0 to 99) in two decimal digits.
pub open spec fn two_digits(n: int) -> Seq<char> {
    seq![crate::text::digit_char(n / 10), crate::text::digit_char(n % 10)]
}

/// `n` (0 to 9999) in four decimal digits.
pub open spec fn four_digits(n: int) -> Seq<char> {
    seq![
        crate::text::digit_char(n / 1000),
        crate::text::digit_char((n / 100) % 10),
        crate::text::digit_char((n / 10) % 10),
        crate::text::digit_char(n % 10),
    ]
}

/// The text SQLite's `datetime` gives for `y-mo-d h:mi:s`:
/// "YYYY-MM-DD HH:MM:SS".
pub open spec fn sqlite_time_text(y: int, mo: int, d: int, h: int, mi: int, s: int) -> Seq<char> {
    four_digits(y) + seq!['-'] + two_digits(mo) + seq!['-'] + two_digits(d) + seq![' ']
        + two_digits(h) + seq![':'] + two_digits(mi) + seq![':'] + two_digits(s)
}

/// The UTC offset appended to a stored time before it is parsed.
pub open spec fn utc_offset_suffix() -> Seq<char> {
    seq![' ', '+', '0', '0', '0', '0']
}

/// The Unix time, in whole seconds, of the instant that chrono's
/// `DateTime::parse_from_str` reads from `text` with `format`, or `None`
/// when it refuses the text.
pub uninterp spec fn chrono_parsed_timestamp(text: Seq<char>, format: Seq<char>) -> Option<i64>;

/// Calls `chrono::DateTime::parse_from_str(text, format)` and takes the Unix
/// time of the parsed instant with `DateTime::timestamp`. Of the parse it
/// states one fact: with the format "%Y-%m-%d %H:%M:%S %z", the text of a
/// valid calendar time followed by " +0000" reads as that calendar time in
/// UTC (`timestamp` counts the non-leap seconds since 1970-01-01 00:00:00
/// UTC, and `+0000` is a zero offset), whatever the machine's time zone.
/// What other texts and formats give is left to the name.
#[verifier::external_body]
fn parse_timestamp(text: &str, format: &str) -> (r: Option<i64>)
    ensures
        r == chrono_parsed_timestamp(text@, format@),
        format@ == STORED_TIME_FORMAT@ ==> forall|y: int, mo: int, d: int, h: int, mi: int, s: int|
            #![trigger sqlite_time_text(y, mo, d, h, mi, s)]
            valid_civil_time(y, mo, d, h, mi, s) && text@ == sqlite_time_text(y, mo, d, h, mi, s)
                + utc_offset_suffix() ==> r == Some(utc_unix_seconds(y, mo, d, h, mi, s) as i64),
{
    match chrono::DateTime::parse_from_str(text, format) {
        Ok(dt) => Some(dt.timestamp()),
        Err(_) => None,
    }
}

/// The Unix time of a time stored by SQLite as "YYYY-MM-DD HH:MM:SS" in
/// UTC, or `None` when it cannot be read. A valid stored time reads as that
/// calendar time in UTC.
pub fn parse_stored_time(stored: &str) -> (r: Option<i64>)
    ensures
        r == chrono_parsed_timestamp(stored@ + " +0000"@, STORED_TIME_FORMAT@),
        forall|y: int, mo: int, d: int, h: int, mi: int, s: int|
            #![trigger sqlite_time_text(y, mo, d, h, mi, s)]
            valid_civil_time(y, mo, d, h, mi, s) && stored@ == sqlite_time_text(y, mo, d, h, mi, s)
                ==> r == Some(utc_unix_seconds(y, mo, d, h, mi, s) as i64),
{
    let mut text = String::from_str(stored);
    text.append(" +0000");
    proof {
        reveal_strlit(" +0000");
        assert(" +0000"@ =~= utc_offset_suffix());
    }
    parse_timestamp(text.as_str(), STORED_TIME_FORMAT)
}

/// Unix time counts from 1970-01-01 00:00:00 UTC.
pub proof fn law_unix_epoch()
    ensures
        utc_unix_seconds(1970, 1, 1, 0, 0, 0) == 0,
{
}

/// Each calendar year has 365 days, a leap year 366: the count of days
/// before a year grows by the length of that year.
pub proof fn law_days_before_year(y: int)
    requires
        y >= 0,
    ensures
        days_before_year(y + 1) == days_before_year(y) + if is_leap_year(y) {
            366int
        } else {
            365int
        },
{
}

/// The months of a year add up to the year: the days before January of the
/// next year are the days before December plus December's 31.
pub proof fn law_days_before_month(y: int)
    ensures
        days_before_month(y, 13) == if is_leap_year(y) {
            366int
        } else {
            365int
        },
        days_before_month(y, 1) == 0,
{
    reveal_with_fuel(days_before_month, 13);
}

/// One second after a valid time, within a minute, is one more second of
/// Unix time; the first second of a day follows the last second of the day
/// before, across month and year ends.
pub proof fn law_utc_seconds_advance(y: int, mo: int, d: int, h: int, mi: int, s: int)
    requires
        valid_civil_time(y, mo, d, h, mi, s),
        y < 9999,
    ensures
        s < 59 ==> utc_unix_seconds(y, mo, d, h, mi, s + 1) == utc_unix_seconds(y, mo, d, h, mi, s)
            + 1,
        d < days_in_month(y, mo) ==> utc_unix_seconds(y, mo, d + 1, 0, 0, 0) == utc_unix_seconds(
            y,
            mo,
            d,
            23,
            59,
            59,
        ) + 1,
        d == days_in_month(y, mo) && mo < 12 ==> utc_unix_seconds(y, mo + 1, 1, 0, 0, 0)
            == utc_unix_seconds(y, mo, d, 23, 59, 59) + 1,
        d == days_in_month(y, mo) && mo == 12 ==> utc_unix_seconds(y + 1, 1, 1, 0, 0, 0)
            == utc_unix_seconds(y, mo, d, 23, 59, 59) + 1,
{
    law_days_before_year(y);
    law_days_before_month(y);
    reveal_with_fuel(days_before_month, 13);
}

} // verus!
