use playout_core::date::Date;
use playout_core::media::Media;
use playout_core::playlist::{build_playlist, FetchedManifest, Playlist};
use playout_core::program::{CurrentProgram, SourceEvent};
use playout_core::{Config, DUMMY_LEN_MS};

fn test_config() -> Config {
    Config {
        day_start_ms: 21_600_000,
        day_length_ms: 86_400_000,
        length_bounded: true,
        stop_threshold_ms: 11_000,
        sync_threshold_ms: 300_000,
        playlist_root: String::from("/playlists"),
        play_mode: String::from("playlist"),
    }
}

fn raw_item(source: &str, seek: i64, out: i64, duration: i64) -> Media {
    let mut m = Media::new(0, String::from(source));
    m.seek = seek;
    m.out = out;
    m.duration = duration;
    m
}

fn day() -> Date {
    Date { year: 2022, month: 3, day: 5 }
}

fn three_item_playlist(c: &Config, now: i64) -> Playlist {
    let fetched = FetchedManifest {
        date: day(),
        items: vec![
            raw_item("a.mp4", 0, 600_000, 600_000),
            raw_item("b.mp4", 0, 300_000, 300_000),
            raw_item("c.mp4", 0, 900_000, 900_000),
        ],
        path: String::from("/playlists/2022/03/05.json"),
        modified: Some(String::from("mod-1")),
    };
    build_playlist(c, day(), Some(fetched), 0, now)
}

#[test]
fn normal_playback() {
    let c = test_config();
    let now = 21_650_000;
    let (mut prog, write) = CurrentProgram::new(c.clone(), three_item_playlist(&c, now), None);
    assert_eq!(write, Some((0, day())));
    assert!(prog.list_init);

    // first call: align mid-clip into item 0
    let m0 = prog.init_clip(now).expect("item 0 covers 06:00:50");
    assert_eq!(m0.index, Some(0));
    assert_eq!(m0.seek, 50_000);
    assert_eq!(m0.out, 600_000);
    assert_eq!(m0.process, Some(true));
    assert!(!prog.list_init);
    assert_eq!(prog.index, 1);

    // second call: item 1, playing on schedule
    let (m1, fatal) = prog.emit_normal(22_200_000);
    assert!(!fatal);
    assert_eq!(m1.index, Some(1));
    assert_eq!(m1.seek, 0);
    assert_eq!(m1.out, 300_000);
    assert_eq!(m1.process, Some(true));
    assert_eq!(prog.index, 2);

    // third call: item 2
    let (m2, _) = prog.emit_normal(22_500_000);
    assert_eq!(m2.index, Some(2));
    assert_eq!(m2.out, 900_000);
    assert_eq!(m2.process, Some(true));
}

#[test]
fn init_mid_clip() {
    let c = test_config();
    let now = 22_300_000;
    let (mut prog, _) = CurrentProgram::new(c.clone(), three_item_playlist(&c, now), None);
    let m = prog.init_clip(now).expect("item 1 covers 06:11:40");
    assert_eq!(m.index, Some(1));
    assert_eq!(m.seek, 100_000);
    assert_eq!(m.out, 300_000);
    assert_eq!(m.process, Some(true));
}

#[test]
fn short_playlist_fill_at_init() {
    let c = test_config();
    // a playlist covering only 1800 s of an 86400 s day, seen after its end
    let fetched = FetchedManifest {
        date: day(),
        items: vec![raw_item("a.mp4", 0, 1_800_000, 1_800_000)],
        path: String::from("/playlists/2022/03/05.json"),
        modified: Some(String::from("mod-1")),
    };
    let now = 23_500_000;
    let pl = build_playlist(&c, day(), Some(fetched), 0, now);
    let (mut prog, _) = CurrentProgram::new(c.clone(), pl, None);

    assert!(prog.init_clip(now).is_none());
    prog.stage_last_node();
    assert_eq!(prog.playlist_due(now), None);
    assert!(!prog.list_reaches_day_end());

    let filler = prog.fill_dummy(now);
    assert_eq!(filler.duration, DUMMY_LEN_MS);
    assert_eq!(filler.out, DUMMY_LEN_MS);
    assert_eq!(filler.begin, Some(now));
    assert_eq!(filler.process, Some(true));
    assert_eq!(prog.nodes.len(), 2);
    assert_eq!(prog.index, 2);
}

#[test]
fn short_playlist_fill_when_exhausted() {
    let c = test_config();
    let now = 23_500_000;
    let (mut prog, _) = CurrentProgram::new(c.clone(), three_item_playlist(&c, now), None);
    prog.list_init = false;
    prog.index = 3;
    let prev = prog.json_path.clone();

    let filler = prog.emit_exhausted(now, &prev);
    // 84500 s remain: far over the stop threshold, so a filler is appended
    assert_eq!(filler.duration, DUMMY_LEN_MS);
    assert_eq!(filler.out, DUMMY_LEN_MS);
    assert_eq!(filler.begin, Some(now));
    assert_eq!(filler.process, Some(true));
    assert_eq!(filler.source, "");
    assert_eq!(prog.nodes.len(), 4);
    assert_eq!(prog.index, 4);
}

#[test]
fn exhausted_program_starts_over_when_the_day_is_done() {
    let mut c = test_config();
    c.day_start_ms = 0;
    c.day_length_ms = 2_400_000;
    // the program fills its whole 2400 s slot, and the slot is over
    let fetched = FetchedManifest {
        date: day(),
        items: vec![
            raw_item("a.mp4", 0, 1_200_000, 1_200_000),
            raw_item("b.mp4", 0, 1_200_000, 1_200_000),
        ],
        path: String::from("/playlists/2022/03/05.json"),
        modified: Some(String::from("mod-1")),
    };
    let pl = build_playlist(&c, day(), Some(fetched), 0, 0);
    let (mut prog, _) = CurrentProgram::new(c.clone(), pl, None);
    prog.list_init = false;
    prog.index = 2;
    let prev = prog.json_path.clone();

    // 2405 s into the day: total remaining is -5000, within no fill branch
    let m = prog.emit_exhausted(2_405_000, &prev);
    assert_eq!(m.index, Some(0));
    assert_eq!(m.source, "a.mp4");
    assert_eq!(prog.index, 1);
    assert_eq!(prog.nodes.len(), 2);
}

#[test]
fn hot_reload_follows_the_token() {
    let c = test_config();
    let now = 22_300_000;
    let (mut prog, _) = CurrentProgram::new(c.clone(), three_item_playlist(&c, now), None);
    prog.list_init = false;
    prog.index = 2;

    // unchanged token: the refresh changes nothing
    let token = String::from("mod-1");
    assert!(!prog.needs_reload(&token));
    let before_index = prog.index;
    let before_len = prog.nodes.len();
    let before_mod = prog.json_mod.clone();
    prog.check_update(SourceEvent::Fresh(token), now);
    assert_eq!(prog.index, before_index);
    assert_eq!(prog.nodes.len(), before_len);
    assert_eq!(prog.json_mod, before_mod);
    assert!(!prog.list_init);

    // changed token: reload, re-align to the covering clip, advance by one
    let token = String::from("mod-2");
    assert!(prog.needs_reload(&token));
    let mut reloaded = three_item_playlist(&c, now);
    reloaded.modified = Some(String::from("mod-2"));
    prog.check_update(SourceEvent::Changed(token, reloaded), now);
    assert_eq!(prog.json_mod, Some(String::from("mod-2")));
    // 22300 s lies within item 1, so the cursor lands one past it
    assert_eq!(prog.index, 2);
    assert!(!prog.list_init);
}

#[test]
fn transient_remote_error_skips_the_cycle() {
    let c = test_config();
    let now = 22_300_000;
    let (mut prog, _) = CurrentProgram::new(c.clone(), three_item_playlist(&c, now), None);
    prog.list_init = false;
    prog.index = 2;

    // the source could not be checked: nothing changes, the check is retried
    prog.check_update(SourceEvent::Skip, now);
    assert_eq!(prog.index, 2);
    assert_eq!(prog.nodes.len(), 3);
    assert_eq!(prog.json_path, Some(String::from("/playlists/2022/03/05.json")));
    assert_eq!(prog.json_mod, Some(String::from("mod-1")));
    assert!(!prog.list_init);
}

#[test]
fn vanished_source_turns_into_a_filler() {
    let c = test_config();
    let now = 22_300_000;
    let (mut prog, _) = CurrentProgram::new(c.clone(), three_item_playlist(&c, now), None);
    prog.list_init = false;
    prog.index = 2;

    prog.check_update(SourceEvent::Vanished, now);
    assert!(prog.json_path.is_none());
    assert!(prog.list_init);
    assert_eq!(prog.index, 0);
    assert_eq!(prog.nodes.len(), 1);
    assert_eq!(prog.nodes[0].begin, Some(now));
    assert_eq!(prog.nodes[0].out, DUMMY_LEN_MS);
}

#[test]
fn refresh_without_origin_adopts_the_loaded_playlist() {
    let c = test_config();
    let now = 22_300_000;
    let mut broken = three_item_playlist(&c, now);
    broken.current_file = None;
    broken.modified = None;
    let (mut prog, _) = CurrentProgram::new(c.clone(), broken, None);
    assert!(prog.json_path.is_none());

    let found = three_item_playlist(&c, now);
    prog.check_update(SourceEvent::NoPath(found), now);
    assert_eq!(prog.json_path, Some(String::from("/playlists/2022/03/05.json")));
    assert_eq!(prog.json_mod, Some(String::from("mod-1")));
    assert_eq!(prog.nodes.len(), 3);
}

#[test]
fn day_rollover_loads_tomorrow() {
    let mut c = test_config();
    c.day_start_ms = 0;
    let fetched = FetchedManifest {
        date: day(),
        items: vec![raw_item("a.mp4", 0, 86_400_000, 86_400_000)],
        path: String::from("/playlists/2022/03/05.json"),
        modified: Some(String::from("mod-1")),
    };
    let now = 86_398_000;
    let pl = build_playlist(&c, day(), Some(fetched), 0, now);
    let (mut prog, _) = CurrentProgram::new(c.clone(), pl, None);

    // two seconds before midnight the playing clip still covers the moment
    let m = prog.init_clip(now).expect("the day-long clip covers the moment");
    assert_eq!(m.index, Some(0));

    let next_start = prog.playlist_due(now).expect("the next day is due");
    assert!(next_start >= c.day_length_ms);

    let tomorrow = Date { year: 2022, month: 3, day: 6 };
    let fetched2 = FetchedManifest {
        date: tomorrow,
        items: vec![raw_item("d.mp4", 0, 600_000, 600_000)],
        path: String::from("/playlists/2022/03/06.json"),
        modified: Some(String::from("mod-7")),
    };
    let pl2 = build_playlist(&c, day(), Some(fetched2), next_start, now);
    let status = prog.apply_next_playlist(pl2);
    assert_eq!(status, (0, tomorrow));
    assert_eq!(prog.index, 0);
    assert_eq!(prog.time_shift_ms, 0);
    assert_eq!(prog.current_date, tomorrow);
    assert_eq!(prog.json_path, Some(String::from("/playlists/2022/03/06.json")));
    assert_eq!(prog.nodes.len(), 1);
}

#[test]
fn advertisement_neighbours_are_flagged() {
    let c = test_config();
    let now = 21_650_000;
    let mut ad = raw_item("spot.mp4", 0, 30_000, 30_000);
    ad.category = Some(String::from("advertisement"));
    let fetched = FetchedManifest {
        date: day(),
        items: vec![
            raw_item("a.mp4", 0, 600_000, 600_000),
            ad,
            raw_item("c.mp4", 0, 900_000, 900_000),
        ],
        path: String::from("/playlists/2022/03/05.json"),
        modified: Some(String::from("mod-1")),
    };
    let pl = build_playlist(&c, day(), Some(fetched), 0, now);
    let (mut prog, _) = CurrentProgram::new(c.clone(), pl, None);
    prog.list_init = false;

    let (m0, _) = prog.emit_normal(21_650_000);
    assert_eq!(m0.next_ad, Some(true));
    assert_eq!(m0.last_ad, Some(false));

    let (m1, _) = prog.emit_normal(22_200_000);
    assert_eq!(m1.next_ad, Some(false));
    assert_eq!(m1.last_ad, Some(false));

    let (m2, _) = prog.emit_normal(22_230_000);
    assert_eq!(m2.last_ad, Some(true));
    assert_eq!(m2.next_ad, Some(false));
}

#[test]
fn far_out_of_sync_clip_is_skipped_and_fatal() {
    let c = test_config();
    let now = 22_300_000;
    let (mut prog, _) = CurrentProgram::new(c.clone(), three_item_playlist(&c, now), None);
    prog.list_init = false;
    prog.index = 0;

    // item 0 is 700 s late: beyond twice the 300 s sync threshold
    let (m, fatal) = prog.emit_normal(now);
    assert_eq!(m.process, Some(false));
    assert_eq!(m.cmd, None);
    assert!(fatal);
}

#[test]
fn slightly_late_clip_still_plays() {
    let c = test_config();
    // item 1 is 100 s late: within the 300 s sync threshold
    let now = 22_300_000;
    let (mut prog, _) = CurrentProgram::new(c.clone(), three_item_playlist(&c, now), None);
    prog.list_init = false;
    prog.index = 1;

    let (m, fatal) = prog.emit_normal(now);
    assert!(!fatal);
    assert_eq!(m.process, Some(true));
    assert_eq!(m.index, Some(1));
}

#[test]
fn stale_playlist_start_keeps_init_state() {
    let c = test_config();
    // before the day started, the clock belongs to yesterday's slot
    let now = 21_000_000;
    let (mut prog, _) = CurrentProgram::new(c.clone(), three_item_playlist(&c, now), None);
    // the clock reads as now + day_length, far past every item
    assert!(prog.init_clip(now).is_none());
    assert!(prog.list_init);
}
