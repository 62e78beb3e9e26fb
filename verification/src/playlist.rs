//! Playlist loading: where a day's manifest lives, and how its raw items
//! become the day's scheduled program — or a filler when nothing usable is
//! there.

use vstd::prelude::*;

use crate::{Config, DUMMY_LEN_MS, MS_PER_DAY, valid_config};
use crate::clock::{get_delta, spec_get_delta};
use crate::date::{Date, next_date, spec_next_date, valid_date};
use crate::media::{
    Media, admissible_item, gen_dummy, node_ok, playtime, prepare_program, prog_view, program_ok,
    scheduled, spec_dummy_source, with_schedule,
};

verus! {

/// The text begins with an HTTP or HTTPS scheme.
pub open spec fn spec_is_url(s: Seq<char>) -> bool {
    (s.len() >= 7 && s.subrange(0, 7) == "http://"@) || (s.len() >= 8 && s.subrange(0, 8)
        == "https://"@)
}

/// Relies on `regex::Regex::is_match` with the anchored pattern
/// `^https?://.*`: it matches exactly the strings that begin with `http://`
/// or `https://`.
#[verifier::external_body]
fn is_remote_match(path: &str) -> (r: bool)
    ensures
        r == spec_is_url(path@),
{
    regex::Regex::new(r"^https?://.*").unwrap().is_match(path)
}

/// Where to fetch a playlist: over HTTP, or from the local filesystem.
pub struct FetchRequest {
    /// The path is a URL and must be fetched over HTTP.
    pub remote: bool,
    /// The resolved path or URL of the day's manifest.
    pub path: String,
}

/// The manifest location for a date under a root: `root/YYYY/MM/DD.json`.
pub open spec fn spec_playlist_path(root: Seq<char>, d: Date) -> Seq<char> {
    root + "/"@ + crate::numfmt::pad4(d.year as int) + "/"@ + crate::numfmt::pad2(d.month as int)
        + "/"@ + crate::numfmt::pad2(d.day as int) + ".json"@
}

/// Resolve where the manifest of the given day lives, and whether it must be
/// fetched over HTTP.
pub fn loader_request(c: &Config, d: Date) -> (r: FetchRequest)
    requires
        valid_date(d),
    ensures
        r.path@ == spec_playlist_path(c.playlist_root@, d),
        r.remote == spec_is_url(c.playlist_root@),
{
    proof {
        reveal_strlit("/");
        reveal_strlit(".json");
    }
    let remote = is_remote_match(c.playlist_root.as_str());
    let a = c.playlist_root.clone().concat("/");
    let b = a.concat(crate::numfmt::fmt_pad4(d.year).as_str());
    let e = b.concat("/");
    let f = e.concat(crate::numfmt::fmt_pad2(d.month).as_str());
    let g = f.concat("/");
    let h = g.concat(crate::numfmt::fmt_pad2(d.day).as_str());
    let path = h.concat(".json");
    proof {
        assert(path@ =~= spec_playlist_path(c.playlist_root@, d));
    }
    FetchRequest { remote, path }
}

/// A day's playlist as the scheduler holds it.
pub struct Playlist {
    /// The day this playlist is for.
    pub date: Date,
    /// Second-of-day (in milliseconds) at which slot 0 begins.
    pub start_sec_ms: i64,
    /// The scheduled items, in play order.
    pub program: Vec<Media>,
    /// Resolved origin path or URL; absent when no manifest was found.
    pub current_file: Option<String>,
    /// The origin's freshness token: a file modification time or a
    /// `Last-Modified` header, carried verbatim.
    pub modified: Option<String>,
}

/// A raw manifest as fetched and decoded, before scheduling.
pub struct FetchedManifest {
    /// The day the manifest names.
    pub date: Date,
    /// Its items, with `seek`, `out` and `duration` read as milliseconds.
    pub items: Vec<Media>,
    /// Where it was found.
    pub path: String,
    /// Its freshness token at fetch time.
    pub modified: Option<String>,
}

/// What the scheduler relies on of a loaded playlist.
pub open spec fn playlist_ok(pl: Playlist) -> bool {
    &&& program_ok(prog_view(pl.program@))
    &&& pl.program@.len() >= 1
    &&& 0 <= pl.start_sec_ms < MS_PER_DAY
    &&& valid_date(pl.date)
}

/// The day a load aimed at `next_start_ms` belongs to: today, or tomorrow
/// once the next start lies past the end of the day.
pub open spec fn spec_target_date(c: Config, today: Date, next_start_ms: int) -> Date {
    if next_start_ms >= c.day_length_ms {
        spec_next_date(today)
    } else {
        today
    }
}

/// Which day's playlist a load aimed at `next_start_ms` must fetch.
pub fn target_date(c: &Config, today: Date, next_start_ms: i64) -> (r: Date)
    requires
        valid_config(*c),
        valid_date(today),
        today.year < 9999,
    ensures
        r == spec_target_date(*c, today, next_start_ms as int),
        valid_date(r),
{
    if next_start_ms >= c.day_length_ms {
        next_date(today)
    } else {
        today
    }
}

/// The length of the filler that stands in for a missing playlist: the rest
/// of today's slot, at least one second and at most one day.
pub open spec fn spec_fallback_len(c: Config, now: int) -> int {
    let total = spec_get_delta(c, now, now).1;
    if total < 1000 {
        DUMMY_LEN_MS as int
    } else if total > MS_PER_DAY {
        MS_PER_DAY as int
    } else {
        total
    }
}

/// The playlist that stands in when no manifest can be used: one synthetic
/// item covering the remainder of today's slot, and no origin file, which
/// tells the iterator to keep looking for a real playlist.
pub fn fallback_playlist(c: &Config, date: Date, now_ms: i64) -> (r: Playlist)
    requires
        valid_config(*c),
        valid_date(date),
        0 <= now_ms < MS_PER_DAY,
    ensures
        playlist_ok(r),
        r.date == date,
        r.current_file is None,
        r.modified is None,
        r.start_sec_ms == c.day_start_ms,
        r.program@.len() == 1,
        prog_view(r.program@)[0].begin == Some(now_ms as int),
        prog_view(r.program@)[0].out == spec_fallback_len(*c, now_ms as int),
        prog_view(r.program@)[0].duration == spec_fallback_len(*c, now_ms as int),
        prog_view(r.program@)[0].seek == 0,
        prog_view(r.program@)[0].source == spec_dummy_source(spec_fallback_len(*c, now_ms as int)),
{
    let (_, total) = get_delta(c, now_ms, now_ms);
    let len = if total < 1000 {
        DUMMY_LEN_MS
    } else if total > MS_PER_DAY {
        MS_PER_DAY
    } else {
        total
    };
    let (source, cmd) = gen_dummy(len);
    let mut media = Media::new(0, source);
    media.begin = Some(now_ms);
    media.duration = len;
    media.out = len;
    media.cmd = Some(cmd);
    let mut program: Vec<Media> = Vec::new();
    program.push(media);
    Playlist {
        date,
        start_sec_ms: c.day_start_ms,
        program,
        current_file: None,
        modified: None,
    }
}

/// Turn a fetched manifest — or the lack of one — into the day's playlist.
/// A usable manifest is scheduled as its program says; a missing or
/// unusable one (an impossible item, more content than a day, or nothing
/// scheduled at all) yields the synthetic fallback.
pub fn build_playlist(
    c: &Config,
    today: Date,
    fetched: Option<FetchedManifest>,
    next_start_ms: i64,
    now_ms: i64,
) -> (r: Playlist)
    requires
        valid_config(*c),
        valid_date(today),
        today.year < 9999,
        0 <= now_ms < MS_PER_DAY,
    ensures
        playlist_ok(r),
        r.start_sec_ms == c.day_start_ms,
        fetched is None ==> r.current_file is None,
        r.current_file is None ==> {
            &&& r.date == spec_target_date(*c, today, next_start_ms as int)
            &&& r.modified is None
            &&& r.program@.len() == 1
            &&& prog_view(r.program@)[0].begin == Some(now_ms as int)
            &&& prog_view(r.program@)[0].out == spec_fallback_len(*c, now_ms as int)
            &&& prog_view(r.program@)[0].seek == 0
        },
        r.current_file is Some ==> scheduled(prog_view(r.program@), r.start_sec_ms as int),
        fetched matches Some(f) ==> (r.current_file is Some ==> {
            &&& r.date == f.date
            &&& r.current_file == Some(f.path)
            &&& r.modified == f.modified
            &&& r.program@.len() == f.items@.len()
            &&& forall|i: int|
                0 <= i < r.program@.len() ==> #[trigger] prog_view(r.program@)[i] == with_schedule(
                    prog_view(f.items@)[i],
                    i,
                    c.day_start_ms + playtime(prog_view(f.items@), i),
                )
        }),
        fetched matches Some(f) ==> ((valid_date(f.date) && f.items@.len() >= 1 && (forall|i: int|
            0 <= i < f.items@.len() ==> admissible_item(#[trigger] prog_view(f.items@)[i]))
            && playtime(prog_view(f.items@), f.items@.len() as int) <= MS_PER_DAY)
            ==> r.current_file is Some),
{
    let target = target_date(c, today, next_start_ms);
    match fetched {
        None => fallback_playlist(c, target, now_ms),
        Some(f) => {
            if f.items.len() == 0 {
                return fallback_playlist(c, target, now_ms);
            }
            if !(1 <= f.date.month && f.date.month <= 12 && 1 <= f.date.day && f.date.day
                <= crate::date::days_in_month(f.date.year, f.date.month) && 1 <= f.date.year
                && f.date.year <= 9999) {
                return fallback_playlist(c, target, now_ms);
            }
            let ghost items_ghost = f.items@;
            match prepare_program(f.items, c.day_start_ms) {
                Ok(program) => {
                    proof {
                        assert forall|i: int| 0 <= i < program@.len() implies node_ok(
                            #[trigger] prog_view(program@)[i],
                        ) by {
                            let views = prog_view(items_ghost);
                            assert(forall|j: int|
                                0 <= j < views.len() ==> #[trigger] (views[j].out - views[j].seek)
                                    >= 0);
                            crate::media::lemma_playtime_monotone(views, 0, i);
                            crate::media::lemma_playtime_monotone(views, i, views.len() as int);
                        }
                    }
                    Playlist {
                        date: f.date,
                        start_sec_ms: c.day_start_ms,
                        program,
                        current_file: Some(f.path),
                        modified: f.modified,
                    }
                },
                Err(_) => fallback_playlist(c, target, now_ms),
            }
        },
    }
}

} // verus!
