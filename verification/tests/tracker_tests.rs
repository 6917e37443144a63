use spotify_tracker::models::{Album, Artist, ExternalUrls, SpotifyImage};
use spotify_tracker::tracker::{
    first_check_date, parse_stored_time, pause_seconds, plan_digest, plan_library_sync, progress_due, scan_step,
    should_send_report, DigestPlan, ScanOutcome, FIRST_CHECK_BASELINE, RATE_LIMIT_COOLDOWN_SECS,
};

fn album(id: &str, date: &str, image: Option<&str>) -> Album {
    Album {
        id: id.to_string(),
        name: format!("album-{}", id),
        release_date: date.to_string(),
        release_date_precision: "day".to_string(),
        album_group: Some("album".to_string()),
        images: image.into_iter().map(|u| SpotifyImage { url: u.to_string(), height: None, width: None }).collect(),
        external_urls: ExternalUrls { spotify: format!("https://open.spotify.com/album/{}", id) },
        artists: vec![Artist { id: "A1".to_string(), name: "Artist".to_string() }],
        total_tracks: 1,
        album_type: "album".to_string(),
    }
}

#[test]
fn first_check_gets_baseline() {
    assert_eq!(first_check_date("").as_deref(), Some("2026-02-15"));
    assert_eq!(FIRST_CHECK_BASELINE, "2026-02-15");
    assert_eq!(first_check_date("2025-05-05"), None);
}

#[test]
fn progress_every_fifty() {
    assert!(progress_due(50));
    assert!(progress_due(100));
    assert!(!progress_due(49));
    assert!(!progress_due(1));
}

#[test]
fn pauses_between_five_and_fourteen_seconds() {
    assert_eq!(pause_seconds(0), 5);
    assert_eq!(pause_seconds(9), 14);
    assert_eq!(pause_seconds(10), 5);
    assert_eq!(pause_seconds(u64::MAX), 5 + u64::MAX % 10);
    for r in [1u64, 123, 999_999, u64::MAX - 1] {
        let p = pause_seconds(r);
        assert!((5..=14).contains(&p));
    }
}

#[test]
fn new_releases_are_recorded_and_queued() {
    let found = vec![album("a", "2026-03-01", Some("img-a")), album("b", "2026-03-09", None), album("c", "2026-03-05", None)];
    let step = scan_step("Artist", "2026-02-15", ScanOutcome::Releases(found));
    assert_eq!(step.record_date.as_deref(), Some("2026-03-09"));
    assert!(!step.stop);
    assert_eq!(step.cooldown_secs, None);
    assert_eq!(step.queue.len(), 3);
    assert_eq!(step.queue[0].artist_name, "Artist");
    assert_eq!(step.queue[0].album_name, "album-a");
    assert_eq!(step.queue[0].release_date, "2026-03-01");
    assert_eq!(step.queue[0].spotify_url, "https://open.spotify.com/album/a");
    assert_eq!(step.queue[0].art_url, "img-a");
    assert_eq!(step.queue[1].art_url, "");
}

#[test]
fn no_releases_records_old_date() {
    let step = scan_step("Artist", "2026-02-15", ScanOutcome::Releases(vec![]));
    assert_eq!(step.record_date.as_deref(), Some("2026-02-15"));
    assert!(step.queue.is_empty());
    assert!(!step.stop);
}

#[test]
fn rate_limit_grounds_for_twenty_three_hours() {
    let step = scan_step("Artist", "2026-02-15", ScanOutcome::RateLimited);
    assert_eq!(step.cooldown_secs, Some(82800));
    assert_eq!(RATE_LIMIT_COOLDOWN_SECS, 23 * 3600);
    assert_eq!(step.record_date, None);
    assert!(step.stop);
}

#[test]
fn failure_marks_artist_checked_and_goes_on() {
    let step = scan_step("Artist", "2026-02-15", ScanOutcome::Failed);
    assert_eq!(step.record_date.as_deref(), Some("2026-02-15"));
    assert!(!step.stop);
    assert_eq!(step.cooldown_secs, None);
}

#[test]
fn interrupt_stops_without_writes() {
    let step = scan_step("Artist", "2026-02-15", ScanOutcome::Interrupted);
    assert_eq!(step.record_date, None);
    assert!(step.queue.is_empty());
    assert!(step.stop);
}

#[test]
fn recorded_date_does_not_go_back() {
    let old = "2026-02-15";
    let step = scan_step("Artist", old, ScanOutcome::Releases(vec![album("a", "2026-02-16", None), album("b", "2026-02-20", None)]));
    let recorded = step.record_date.unwrap();
    assert!(recorded.as_str() >= old);
}

#[test]
fn digest_window_is_twenty_three_hours() {
    assert!(should_send_report(None, 0));
    assert!(should_send_report(Some(1_000), 1_000 + 82_800));
    assert!(!should_send_report(Some(1_000), 1_000 + 82_799));
    assert!(!should_send_report(Some(1_000), 0));
    assert!(should_send_report(Some(i64::MIN), i64::MAX));
    assert!(!should_send_report(Some(i64::MAX), i64::MIN));
}

#[test]
fn digest_plan_depends_on_pending() {
    assert!(matches!(plan_digest(vec![]), DigestPlan::RecordTimeOnly));
    let pending = vec![("A".to_string(), "B".to_string(), "u".to_string(), "i".to_string())];
    match plan_digest(pending) {
        DigestPlan::Write(html) => assert!(html.contains("<img src='i'")),
        DigestPlan::RecordTimeOnly => panic!("expected a page"),
    }
}

#[test]
fn library_sync_plan() {
    let artists = vec![
        Artist { id: "A".to_string(), name: "Alpha".to_string() },
        Artist { id: "B".to_string(), name: "Beta".to_string() },
    ];
    let plan = plan_library_sync(&artists);
    assert_eq!(plan.additions, vec![("A".to_string(), "Alpha".to_string()), ("B".to_string(), "Beta".to_string())]);
    assert_eq!(plan.keep_ids, Some(vec!["A".to_string(), "B".to_string()]));
    let empty = plan_library_sync(&vec![]);
    assert!(empty.additions.is_empty());
    assert_eq!(empty.keep_ids, None);
}

#[test]
fn stored_times_parse_as_utc() {
    assert_eq!(parse_stored_time("2024-01-02 03:04:05"), Some(1_704_164_645));
    assert_eq!(parse_stored_time("1970-01-01 00:00:00"), Some(0));
    assert_eq!(parse_stored_time("not a time"), None);
    assert_eq!(parse_stored_time(""), None);
}
