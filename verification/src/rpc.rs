//! The control plane: operator commands that move the schedule and queries
//! that describe it. The HTTP server lives outside; this module holds the
//! decisions and the state they change.

use vstd::prelude::*;

use crate::{Config, MS_PER_DAY};
use crate::clock::{get_delta, spec_get_delta};
use crate::date::Date;
use crate::media::{Media, MediaView, clone_media, node_ok, prog_view};
use crate::numfmt::{sec_to_time, time_text};
use crate::program::{CurrentProgram, cur_ok, wf};

verus! {

/// An operator command that mutates the scheduler.
pub enum ControlCommand {
    /// Skip forward to the clip under the cursor.
    Next,
    /// Jump back to the clip before the playing one.
    Back,
    /// Return the playout to its original, clock-aligned state.
    Reset,
}

/// A query about the schedule's surroundings.
pub enum MediaQuery {
    /// The clip last emitted.
    Current,
    /// The clip the cursor stands on.
    Next,
    /// The clip before the playing one.
    Last,
}

/// What an operator command came to.
pub enum ControlOutcome {
    /// The cursor moved; the decoder must be restarted on `media`, the shift
    /// persisted as `status` says.
    Moved { to_next: bool, shifted_ms: i64, media: Media, status: (i64, Date) },
    /// The playout state was reset; persist `status`.
    ResetDone { status: (i64, Date) },
    /// The decoder is not running, so nothing was moved.
    MoveFailed,
    /// The cursor does not allow the move.
    OutOfRange,
}

/// What a move to the item at `i` does to the scheduler: the drift of that
/// item's begin becomes the persisted time shift for the playing day.
pub open spec fn spec_move_shift(p: CurrentProgram, i: int, now: int) -> int {
    let b = match prog_view(p.nodes@)[i].begin {
        Some(b) => b,
        None => 0,
    };
    spec_get_delta(p.config, b, now).0
}

/// Apply an operator command. `decoder_alive` says whether a decoder process
/// is there to be signalled; without one, moves and resets fail. A `Next`
/// needs the cursor within the program; a `Back` needs at least two emitted
/// items to step behind.
pub fn player_control(
    prog: &mut CurrentProgram,
    cmd: ControlCommand,
    decoder_alive: bool,
    now_ms: i64,
) -> (r: ControlOutcome)
    requires
        wf(*old(prog)),
        0 <= now_ms < MS_PER_DAY,
    ensures
        wf(*final(prog)),
        match cmd {
            ControlCommand::Next => {
                if old(prog).index >= old(prog).nodes@.len() {
                    r is OutOfRange && *final(prog) == *old(prog)
                } else if !decoder_alive {
                    r is MoveFailed && *final(prog) == *old(prog)
                } else {
                    let shift = spec_move_shift(*old(prog), old(prog).index as int, now_ms as int);
                    &&& r matches ControlOutcome::Moved { to_next, shifted_ms, media, status }
                        && to_next == true && shifted_ms as int == shift && media@ == prog_view(
                        old(prog).nodes@,
                    )[old(prog).index as int] && status == (shifted_ms, old(prog).current_date)
                    &&& *final(prog) == (CurrentProgram {
                        time_shift_ms: final(prog).time_shift_ms,
                        stat_date: Some(old(prog).current_date),
                        ..*old(prog)
                    })
                    &&& final(prog).time_shift_ms as int == shift
                }
            },
            ControlCommand::Back => {
                if !(old(prog).index > 1 && old(prog).nodes@.len() > 1 && old(prog).index - 2 < old(
                    prog,
                ).nodes@.len()) {
                    r is OutOfRange && *final(prog) == *old(prog)
                } else if !decoder_alive {
                    r is MoveFailed && *final(prog) == *old(prog)
                } else {
                    let shift = spec_move_shift(
                        *old(prog),
                        old(prog).index - 2,
                        now_ms as int,
                    );
                    &&& r matches ControlOutcome::Moved { to_next, shifted_ms, media, status }
                        && to_next == false && shifted_ms as int == shift && media@ == prog_view(
                        old(prog).nodes@,
                    )[old(prog).index - 2] && status == (shifted_ms, old(prog).current_date)
                    &&& *final(prog) == (CurrentProgram {
                        time_shift_ms: final(prog).time_shift_ms,
                        stat_date: Some(old(prog).current_date),
                        index: (old(prog).index - 2) as usize,
                        ..*old(prog)
                    })
                    &&& final(prog).time_shift_ms as int == shift
                }
            },
            ControlCommand::Reset => {
                if !decoder_alive {
                    r is MoveFailed && *final(prog) == *old(prog)
                } else {
                    &&& r matches ControlOutcome::ResetDone { status } && status == (
                        0i64,
                        old(prog).current_date,
                    )
                    &&& *final(prog) == (CurrentProgram {
                        time_shift_ms: 0,
                        stat_date: Some(old(prog).current_date),
                        list_init: true,
                        ..*old(prog)
                    })
                }
            },
        },
{
    match cmd {
        ControlCommand::Next => {
            let index = prog.index;
            if index >= prog.nodes.len() {
                return ControlOutcome::OutOfRange;
            }
            if !decoder_alive {
                return ControlOutcome::MoveFailed;
            }
            proof {
                assert(node_ok(prog_view(prog.nodes@)[index as int]));
            }
            let media = clone_media(&prog.nodes[index]);
            let begin = match media.begin {
                Some(b) => b,
                None => 0,
            };
            let (delta, _) = get_delta(&prog.config, begin, now_ms);
            prog.time_shift_ms = delta;
            prog.stat_date = Some(prog.current_date);
            ControlOutcome::Moved {
                to_next: true,
                shifted_ms: delta,
                media,
                status: (delta, prog.current_date),
            }
        },
        ControlCommand::Back => {
            let index = prog.index;
            if !(index > 1 && prog.nodes.len() > 1 && index - 2 < prog.nodes.len()) {
                return ControlOutcome::OutOfRange;
            }
            if !decoder_alive {
                return ControlOutcome::MoveFailed;
            }
            proof {
                assert(node_ok(prog_view(prog.nodes@)[index - 2]));
            }
            let media = clone_media(&prog.nodes[index - 2]);
            prog.index = index - 2;
            let begin = match media.begin {
                Some(b) => b,
                None => 0,
            };
            let (delta, _) = get_delta(&prog.config, begin, now_ms);
            prog.time_shift_ms = delta;
            prog.stat_date = Some(prog.current_date);
            ControlOutcome::Moved {
                to_next: false,
                shifted_ms: delta,
                media,
                status: (delta, prog.current_date),
            }
        },
        ControlCommand::Reset => {
            if !decoder_alive {
                return ControlOutcome::MoveFailed;
            }
            prog.time_shift_ms = 0;
            prog.stat_date = Some(prog.current_date);
            prog.list_init = true;
            ControlOutcome::ResetDone { status: (0, prog.current_date) }
        },
    }
}

/// What a query reports about one clip.
pub struct MediaInfo {
    /// The configured playback mode, echoed back.
    pub play_mode: String,
    /// The clip's slot number.
    pub index: Option<usize>,
    /// Its scheduled begin, milliseconds of the day; zero when unscheduled.
    pub start_ms: i64,
    /// The begin as a clock reading, for scheduled clips.
    pub start_time: Option<String>,
    /// How long the clip has been playing.
    pub played_ms: i64,
    /// How much of it remains.
    pub remaining_ms: i64,
    /// The clip itself.
    pub media: Media,
}

/// The record describes the clip against the clock: the configured mode,
/// the clip itself, its begin, and — for a scheduled clip — its begin as a
/// clock reading, how long it has played and how much of it remains.
pub open spec fn info_describes(c: Config, m: MediaView, now: int, info: MediaInfo) -> bool {
    let begin: int = match m.begin {
        Some(b) => b,
        None => 0,
    };
    &&& info.play_mode@ == c.play_mode@
    &&& info.index == m.index
    &&& info.media@ == m
    &&& info.start_ms as int == begin
    &&& (begin > 0 ==> info.played_ms == now - begin && info.remaining_ms == m.out - (now - begin)
        && (info.start_time matches Some(t) && t@ == time_text(begin)))
    &&& (begin <= 0 ==> info.played_ms == 0 && info.remaining_ms == 0 && info.start_time is None)
}

/// Describe one clip against the clock: its begin, how much of it has
/// played, and how much remains.
pub fn media_info(c: &Config, media: Media, now_ms: i64) -> (r: MediaInfo)
    requires
        cur_ok(media@),
        0 <= now_ms < MS_PER_DAY,
    ensures
        info_describes(*c, media@, now_ms as int, r),
{
    let begin = match media.begin {
        Some(b) => b,
        None => 0,
    };
    let (start_time, played_ms, remaining_ms) = if begin > 0 {
        let played = now_ms - begin;
        (Some(sec_to_time(begin)), played, media.out - played)
    } else {
        (None, 0, 0)
    };
    MediaInfo {
        play_mode: c.play_mode.clone(),
        index: media.index,
        start_ms: begin,
        start_time,
        played_ms,
        remaining_ms,
        media,
    }
}

/// Answer a query about the schedule. `current` is the clip last handed to
/// the decoder, which the player loop holds. A query off the program's edge
/// is answered with nothing.
pub fn media_query(
    prog: &CurrentProgram,
    q: MediaQuery,
    current: Option<&Media>,
    now_ms: i64,
) -> (r: Option<MediaInfo>)
    requires
        wf(*prog),
        current matches Some(m) ==> cur_ok(m@),
        0 <= now_ms < MS_PER_DAY,
    ensures
        match q {
            MediaQuery::Current => (r is Some) == (current is Some) && (r matches Some(info)
                ==> info_describes(prog.config, current->Some_0@, now_ms as int, info)),
            MediaQuery::Next => (r is Some) == (prog.index < prog.nodes@.len()) && (
            r matches Some(info) ==> info_describes(
                prog.config,
                prog_view(prog.nodes@)[prog.index as int],
                now_ms as int,
                info,
            )),
            MediaQuery::Last => (r is Some) == (prog.index > 1 && prog.index - 2
                < prog.nodes@.len()) && (r matches Some(info) ==> info_describes(
                prog.config,
                prog_view(prog.nodes@)[prog.index - 2],
                now_ms as int,
                info,
            )),
        },
{
    match q {
        MediaQuery::Current => {
            match current {
                Some(m) => Some(media_info(&prog.config, clone_media(m), now_ms)),
                None => None,
            }
        },
        MediaQuery::Next => {
            if prog.index < prog.nodes.len() {
                proof {
                    assert(node_ok(prog_view(prog.nodes@)[prog.index as int]));
                }
                Some(media_info(&prog.config, clone_media(&prog.nodes[prog.index]), now_ms))
            } else {
                None
            }
        },
        MediaQuery::Last => {
            if prog.index > 1 && prog.index - 2 < prog.nodes.len() {
                proof {
                    assert(node_ok(prog_view(prog.nodes@)[prog.index - 2]));
                }
                Some(media_info(&prog.config, clone_media(&prog.nodes[prog.index - 2]), now_ms))
            } else {
                None
            }
        },
    }
}

} // verus!
