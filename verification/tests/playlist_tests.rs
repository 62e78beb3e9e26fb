use playout_core::date::Date;
use playout_core::media::{gen_source, prepare_program, LoadError, Media};
use playout_core::playlist::{build_playlist, fallback_playlist, loader_request, target_date, FetchedManifest};
use playout_core::{Config, DUMMY_LEN_MS};

fn test_config() -> Config {
    Config {
        day_start_ms: 21_600_000,
        day_length_ms: 86_400_000,
        length_bounded: true,
        stop_threshold_ms: 11_000,
        sync_threshold_ms: 300_000,
        playlist_root: String::from("/playlists"),
        play_mode: String::from("playlist"),
    }
}

fn raw_item(source: &str, seek: i64, out: i64, duration: i64) -> Media {
    let mut m = Media::new(0, String::from(source));
    m.seek = seek;
    m.out = out;
    m.duration = duration;
    m
}

#[test]
fn begins_are_cumulative_playtimes() {
    let items = vec![
        raw_item("a.mp4", 0, 600_000, 600_000),
        raw_item("b.mp4", 0, 300_000, 300_000),
        raw_item("c.mp4", 0, 900_000, 900_000),
    ];
    let p = prepare_program(items, 21_600_000).expect("a clean manifest is scheduled");
    assert_eq!(p.len(), 3);
    assert_eq!(p[0].begin, Some(21_600_000));
    assert_eq!(p[1].begin, Some(22_200_000));
    assert_eq!(p[2].begin, Some(22_500_000));
    assert_eq!(p[0].index, Some(0));
    assert_eq!(p[1].index, Some(1));
    assert_eq!(p[2].index, Some(2));
    // begins never step backwards
    assert!(p[0].begin <= p[1].begin && p[1].begin <= p[2].begin);
}

#[test]
fn begins_respect_seek_offsets() {
    let items = vec![
        raw_item("a.mp4", 100_000, 600_000, 600_000),
        raw_item("b.mp4", 0, 300_000, 300_000),
    ];
    let p = prepare_program(items, 21_600_000).expect("a clean manifest is scheduled");
    // the first slot is only 500 s long
    assert_eq!(p[1].begin, Some(22_100_000));
}

#[test]
fn short_durations_are_raised_to_the_end_offset() {
    let items = vec![raw_item("a.mp4", 0, 600_000, 0)];
    let p = prepare_program(items, 0).expect("a clean manifest is scheduled");
    assert_eq!(p[0].duration, 600_000);
}

#[test]
fn impossible_slices_are_rejected() {
    let items = vec![
        raw_item("a.mp4", 0, 600_000, 600_000),
        raw_item("b.mp4", 300_000, 300_000, 300_000),
    ];
    match prepare_program(items, 0) {
        Err(LoadError::InvalidItem { index }) => assert_eq!(index, 1),
        _ => panic!("an empty slice must be rejected"),
    }
}

#[test]
fn more_than_a_day_is_rejected() {
    let items = vec![
        raw_item("a.mp4", 0, 86_400_000, 86_400_000),
        raw_item("b.mp4", 0, 1000, 1000),
    ];
    assert!(matches!(prepare_program(items, 0), Err(LoadError::TooLong)));
}

#[test]
fn manifest_paths_follow_the_date() {
    let c = test_config();
    let req = loader_request(&c, Date { year: 2022, month: 3, day: 5 });
    assert_eq!(req.path, "/playlists/2022/03/05.json");
    assert!(!req.remote);

    let mut c2 = test_config();
    c2.playlist_root = String::from("https://example.com/lists");
    let req = loader_request(&c2, Date { year: 2022, month: 12, day: 31 });
    assert_eq!(req.path, "https://example.com/lists/2022/12/31.json");
    assert!(req.remote);

    let mut c3 = test_config();
    c3.playlist_root = String::from("httpx://example.com");
    let req = loader_request(&c3, Date { year: 2022, month: 1, day: 1 });
    assert!(!req.remote);
}

#[test]
fn rollover_targets_tomorrow() {
    let c = test_config();
    let today = Date { year: 2022, month: 3, day: 5 };
    assert_eq!(target_date(&c, today, 0), today);
    assert_eq!(target_date(&c, today, 86_399_999), today);
    assert_eq!(target_date(&c, today, 86_400_000), Date { year: 2022, month: 3, day: 6 });
}

#[test]
fn missing_manifest_yields_one_filler() {
    let c = test_config();
    let today = Date { year: 2022, month: 3, day: 5 };
    let pl = build_playlist(&c, today, None, 0, 21_650_000);
    assert!(pl.current_file.is_none());
    assert_eq!(pl.program.len(), 1);
    assert_eq!(pl.program[0].begin, Some(21_650_000));
    assert_eq!(pl.program[0].out, 86_350_000);
    assert!(pl.program[0].source.starts_with("color="));
}

#[test]
fn fallback_filler_is_at_least_a_second() {
    let mut c = test_config();
    c.day_start_ms = 0;
    // right at the day's end less than a second remains
    let pl = fallback_playlist(&c, Date { year: 2022, month: 3, day: 5 }, 86_399_900);
    assert_eq!(pl.program[0].out, DUMMY_LEN_MS);
}

#[test]
fn unusable_manifest_yields_the_fallback() {
    let c = test_config();
    let today = Date { year: 2022, month: 3, day: 5 };
    let fetched = FetchedManifest {
        date: today,
        items: vec![raw_item("a.mp4", 500, 400, 600_000)],
        path: String::from("/playlists/2022/03/05.json"),
        modified: Some(String::from("mod-1")),
    };
    let pl = build_playlist(&c, today, Some(fetched), 0, 21_650_000);
    assert!(pl.current_file.is_none());
    assert_eq!(pl.program.len(), 1);

    let empty = FetchedManifest {
        date: today,
        items: vec![],
        path: String::from("/playlists/2022/03/05.json"),
        modified: None,
    };
    let pl = build_playlist(&c, today, Some(empty), 0, 21_650_000);
    assert!(pl.current_file.is_none());
}

#[test]
fn usable_manifest_keeps_its_origin() {
    let c = test_config();
    let today = Date { year: 2022, month: 3, day: 5 };
    let fetched = FetchedManifest {
        date: today,
        items: vec![raw_item("a.mp4", 0, 600_000, 600_000)],
        path: String::from("/playlists/2022/03/05.json"),
        modified: Some(String::from("mod-1")),
    };
    let pl = build_playlist(&c, today, Some(fetched), 0, 21_650_000);
    assert_eq!(pl.current_file, Some(String::from("/playlists/2022/03/05.json")));
    assert_eq!(pl.modified, Some(String::from("mod-1")));
    assert_eq!(pl.start_sec_ms, 21_600_000);
    assert_eq!(pl.date, today);
}

#[test]
fn source_commands_play_the_slice() {
    let mut node = raw_item("a.mp4", 50_000, 600_000, 600_000);
    node.begin = Some(21_600_000);
    let with_cmd = gen_source(node, true);
    assert_eq!(with_cmd.source, "a.mp4");
    assert_eq!(
        with_cmd.cmd,
        Some(vec![
            String::from("-ss"),
            String::from("50.000"),
            String::from("-i"),
            String::from("a.mp4"),
            String::from("-t"),
            String::from("550.000"),
        ])
    );

    let mut gone = raw_item("missing.mp4", 0, 20_000, 20_000);
    gone.begin = Some(21_600_000);
    let filler = gen_source(gone, false);
    assert_eq!(filler.source, "color=c=#121212:size=1024x576:duration=20.000");
    assert_eq!(
        filler.cmd,
        Some(vec![
            String::from("-f"),
            String::from("lavfi"),
            String::from("-i"),
            String::from("color=c=#121212:size=1024x576:duration=20.000"),
        ])
    );
}
