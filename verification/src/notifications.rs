//! The daily digest: its HTML, the file it is saved to, and the lines of
//! the run log.

use vstd::prelude::*;
use vstd::string::*;

verus! {

/// The digest's opening: page, card and heading.
pub const REPORT_OPEN: &'static str = "<html><body style='font-family: sans-serif; background-color: #f4f4f4; padding: 20px;'>\
         <div style='max-width: 600px; margin: auto; background: white; padding: 20px; border-radius: 10px; shadow: 0 4px 6px rgba(0,0,0,0.1);'>\
         <h2 style='color: #1DB954; text-align: center;'>🎧 New Music Found!</h2>";

/// The digest's closing.
pub const REPORT_CLOSE: &'static str = "</div></body></html>";

/// A release row up to its cover art URL.
pub const ENTRY_OPEN: &'static str = "<div style='display: flex; align-items: center; border-bottom: 1px solid #eee; padding: 15px 0;'>\
                <img src='";

/// A release row between cover art URL and artist name.
pub const ENTRY_AFTER_ART: &'static str = "' style='width: 80px; height: 80px; border-radius: 4px; margin-right: 15px; object-fit: cover;' />\
                <div style='flex-grow: 1;'>\
                    <strong style='font-size: 16px;'>";

/// A release row between artist name and album name.
pub const ENTRY_AFTER_ARTIST: &'static str = "</strong><br/>\
                    <span style='color: #666;'>";

/// A release row between album name and Spotify URL.
pub const ENTRY_AFTER_ALBUM: &'static str = "</span>\
                </div>\
                <a href='";

/// A release row after its Spotify URL.
pub const ENTRY_CLOSE: &'static str = "' style='background-color: #1DB954; color: white; padding: 10px 16px; text-decoration: none; border-radius: 20px; font-size: 13px; font-weight: bold;'>Listen</a>\
            </div>";

/// The row of one release `(artist, album, Spotify URL, art URL)`.
pub open spec fn release_row(r: (String, String, String, String)) -> Seq<char> {
    ENTRY_OPEN@ + r.3@ + ENTRY_AFTER_ART@ + r.0@ + ENTRY_AFTER_ARTIST@ + r.1@ + ENTRY_AFTER_ALBUM@
        + r.2@ + ENTRY_CLOSE@
}

/// The rows of `releases`, in order.
pub open spec fn release_rows(releases: Seq<(String, String, String, String)>) -> Seq<char>
    decreases releases.len(),
{
    if releases.len() == 0 {
        Seq::empty()
    } else {
        release_rows(releases.drop_last()) + release_row(releases.last())
    }
}

/// The rows of a list are built one release after another: no releases
/// give no rows, and adding a release at the end adds exactly its row at the
/// end, whatever the list's length.
pub proof fn law_release_rows(releases: Seq<(String, String, String, String)>, x: (String, String, String, String))
    ensures
        release_rows(Seq::empty()) == Seq::<char>::empty(),
        release_rows(releases.push(x)) == release_rows(releases) + release_row(x),
        release_row(x) == ENTRY_OPEN@ + x.3@ + ENTRY_AFTER_ART@ + x.0@ + ENTRY_AFTER_ARTIST@ + x.1@
            + ENTRY_AFTER_ALBUM@ + x.2@ + ENTRY_CLOSE@,
{
    assert(releases.push(x).drop_last() =~= releases);
}

/// The digest page listing `releases`.
pub open spec fn release_report(releases: Seq<(String, String, String, String)>) -> Seq<char> {
    REPORT_OPEN@ + release_rows(releases) + REPORT_CLOSE@
}

/// Generates a styled HTML page listing new music releases, one row per
/// release with album art, artist name, album title and a link to Spotify.
///
/// `releases` holds tuples of (artist name, album name, Spotify URL, art URL).
pub fn format_release_html(releases: Vec<(String, String, String, String)>) -> (html: String)
    ensures
        html@ == release_report(releases@),
{
    let mut html = String::from_str(REPORT_OPEN);
    let n = releases.len();
    let mut i: usize = 0;
    while i < n
        invariant
            n == releases@.len(),
            i <= n,
            html@ == REPORT_OPEN@ + release_rows(releases@.take(i as int)),
        decreases n - i,
    {
        let r = &releases[i];
        html.append(ENTRY_OPEN);
        html.append(r.3.as_str());
        html.append(ENTRY_AFTER_ART);
        html.append(r.0.as_str());
        html.append(ENTRY_AFTER_ARTIST);
        html.append(r.1.as_str());
        html.append(ENTRY_AFTER_ALBUM);
        html.append(r.2.as_str());
        html.append(ENTRY_CLOSE);
        proof {
            assert(releases@.take(i + 1).drop_last() =~= releases@.take(i as int));
            assert(releases@.take(i + 1).last() == releases@[i as int]);
        }
        i = i + 1;
    }
    assert(releases@.take(n as int) =~= releases@);
    html.append(REPORT_CLOSE);
    html
}

/// The directory digests are saved in.
pub const REPORTS_DIR: &'static str = "reports";

/// The chrono format of the local time in a digest's file name.
pub const REPORT_STAMP_FORMAT: &'static str = "%Y-%m-%d_%H-%M";

/// The file the run log is appended to.
pub const RUN_LOG_PATH: &'static str = "logs/run_log.txt";

/// The chrono format of the local time that starts a log line.
pub const LOG_STAMP_FORMAT: &'static str = "%Y-%m-%d %H:%M:%S";

/// The path of the digest saved at local time `stamp`.
pub fn report_file_path(stamp: &str) -> (r: String)
    ensures
        r@ == REPORTS_DIR@ + "/report_"@ + stamp@ + ".html"@,
{
    let mut r = String::from_str(REPORTS_DIR);
    r.append("/report_");
    r.append(stamp);
    r.append(".html");
    r
}

/// The run-log line recording `message` at local time `stamp`.
pub fn log_line(stamp: &str, message: &str) -> (r: String)
    ensures
        r@ == "["@ + stamp@ + "] "@ + message@,
{
    let mut r = String::from_str("[");
    r.append(stamp);
    r.append("] ");
    r.append(message);
    r
}

} // verus!
