use spotify_tracker::models::SpotifyRateLimitError;
use spotify_tracker::notifications::{format_release_html, log_line, report_file_path};

const OPEN: &str = "<html><body style='font-family: sans-serif; background-color: #f4f4f4; padding: 20px;'><div style='max-width: 600px; margin: auto; background: white; padding: 20px; border-radius: 10px; shadow: 0 4px 6px rgba(0,0,0,0.1);'><h2 style='color: #1DB954; text-align: center;'>🎧 New Music Found!</h2>";

fn row(artist: &str, album: &str, url: &str, art: &str) -> String {
    format!(
        "<div style='display: flex; align-items: center; border-bottom: 1px solid #eee; padding: 15px 0;'><img src='{}' style='width: 80px; height: 80px; border-radius: 4px; margin-right: 15px; object-fit: cover;' /><div style='flex-grow: 1;'><strong style='font-size: 16px;'>{}</strong><br/><span style='color: #666;'>{}</span></div><a href='{}' style='background-color: #1DB954; color: white; padding: 10px 16px; text-decoration: none; border-radius: 20px; font-size: 13px; font-weight: bold;'>Listen</a></div>",
        art, artist, album, url
    )
}

#[test]
fn empty_digest_has_only_frame() {
    assert_eq!(format_release_html(vec![]), format!("{}</div></body></html>", OPEN));
}

#[test]
fn digest_lists_releases_in_order() {
    let releases = vec![
        ("Artist A".to_string(), "Album A".to_string(), "https://a".to_string(), "https://img/a".to_string()),
        ("Artist B".to_string(), "Single B".to_string(), "https://b".to_string(), "".to_string()),
    ];
    let expected = format!(
        "{}{}{}</div></body></html>",
        OPEN,
        row("Artist A", "Album A", "https://a", "https://img/a"),
        row("Artist B", "Single B", "https://b", "")
    );
    assert_eq!(format_release_html(releases), expected);
}

#[test]
fn report_path_and_log_line() {
    assert_eq!(report_file_path("2026-02-15_08-30"), "reports/report_2026-02-15_08-30.html");
    assert_eq!(log_line("2026-02-15 08:30:00", "Starting scan."), "[2026-02-15 08:30:00] Starting scan.");
}

#[test]
fn rate_limit_error_message() {
    let e = SpotifyRateLimitError { retry_after: 30 };
    assert_eq!(e.message(), "Spotify Rate Limit: Retry after 30s");
}
