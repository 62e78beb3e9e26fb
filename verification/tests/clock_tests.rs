use playout_core::clock::{check_sync, get_delta, get_sec_ms, is_close, ms_of_day};
use playout_core::{Config, MS_PER_DAY};

fn test_config() -> Config {
    Config {
        day_start_ms: 21_600_000,
        day_length_ms: 86_400_000,
        length_bounded: true,
        stop_threshold_ms: 11_000,
        sync_threshold_ms: 300_000,
        playlist_root: String::from("/playlists"),
        play_mode: String::from("playlist"),
    }
}

#[test]
fn is_close_within_tolerance() {
    assert!(is_close(5, 3, 2));
    assert!(is_close(3, 5, 2));
    assert!(!is_close(5, 2, 2));
    assert!(is_close(-1000, 1000, 2000));
}

#[test]
fn delta_shortly_after_begin() {
    let c = test_config();
    // 50 seconds into the day's first slot: 50 s late, 86350 s remain
    let (delta, total) = get_delta(&c, 21_600_000, 21_650_000);
    assert_eq!(delta, -50_000);
    assert_eq!(total, 86_350_000);
}

#[test]
fn delta_before_day_start() {
    let c = test_config();
    // well before the 06:00 start the clock still belongs to yesterday
    let (delta, total) = get_delta(&c, 10_000_000, 10_000_000);
    assert_eq!(delta, -MS_PER_DAY);
    assert_eq!(total, 11_600_000);
}

#[test]
fn total_delta_near_midnight_rollover() {
    let mut c = test_config();
    c.day_start_ms = 0;
    // two seconds before midnight on a midnight-started schedule
    let (_, total) = get_delta(&c, 0, 86_398_000);
    assert_eq!(total, 2000);
    assert!(is_close(total, 0, 2000));
}

#[test]
fn check_sync_thresholds() {
    let c = test_config();
    assert_eq!(check_sync(&c, 0), (true, false));
    assert_eq!(check_sync(&c, 300_000), (true, false));
    assert_eq!(check_sync(&c, 300_001), (false, false));
    assert_eq!(check_sync(&c, 600_001), (false, true));
    assert_eq!(check_sync(&c, -600_001), (false, true));
}

#[test]
fn ms_of_day_six_in_the_morning() {
    assert_eq!(ms_of_day(6, 0, 0, 0), 21_600_000);
    assert_eq!(ms_of_day(23, 59, 59, 999_000_000), 86_399_999);
}

#[test]
fn wall_clock_reads_within_a_day() {
    let now = get_sec_ms();
    assert!(0 <= now && now < MS_PER_DAY);
}
