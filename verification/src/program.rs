//! The schedule iterator's state machine: the loaded day, the cursor into
//! it, and the transitions that refresh, align, roll over and emit. All
//! I/O — fetching manifests, statting files, reading the clock — happens
//! outside; each transition takes the facts it needs as plain values.

use vstd::prelude::*;

use crate::{Config, DUMMY_LEN_MS, MS_PER_DAY, valid_config};
use crate::clock::{get_delta, spec_get_delta, spec_is_close, is_close};
use crate::date::{Date, valid_date};
use crate::media::{
    Media, MediaView, clone_media, lemma_begins_monotone, node_ok, prog_view, program_ok,
    scheduled, spec_handle_list_init, spec_timed_source, timed_source, handle_list_init,
    valid_slot,
};
use crate::playlist::{Playlist, playlist_ok};
use crate::status::valid_shift;

verus! {

/// What the scheduler relies on of the item it last emitted.
pub open spec fn cur_ok(m: MediaView) -> bool {
    &&& (m.begin matches Some(b) ==> 0 <= b < 3 * MS_PER_DAY)
    &&& -MS_PER_DAY <= m.seek <= 3 * MS_PER_DAY
    &&& -MS_PER_DAY <= m.out <= 3 * MS_PER_DAY
    &&& -MS_PER_DAY <= m.duration <= 3 * MS_PER_DAY
}

/// The iterator over the current day's program.
pub struct CurrentProgram {
    /// The configuration the process was started with.
    pub config: Config,
    /// Second-of-day (in milliseconds) at which the loaded playlist begins.
    pub start_sec_ms: i64,
    /// Freshness token of the loaded manifest.
    pub json_mod: Option<String>,
    /// Origin path or URL of the loaded manifest; absent while none is loaded.
    pub json_path: Option<String>,
    /// The day of the loaded manifest.
    pub json_date: Date,
    /// The day's program.
    pub nodes: Vec<Media>,
    /// The item last prepared for emission.
    pub current_node: Media,
    /// The cursor into `nodes`.
    pub index: usize,
    /// The iterator has yet to align itself to the wall clock.
    pub list_init: bool,
    /// The operator-applied drift, from the status store.
    pub time_shift_ms: i64,
    /// The day `time_shift_ms` applies to, from the status store.
    pub stat_date: Option<Date>,
    /// The day of the playlist currently playing.
    pub current_date: Date,
}

/// The state every transition preserves.
pub open spec fn wf(p: CurrentProgram) -> bool {
    &&& valid_config(p.config)
    &&& program_ok(prog_view(p.nodes@))
    &&& p.nodes@.len() >= 1
    &&& 0 <= p.start_sec_ms < MS_PER_DAY
    &&& valid_shift(p.time_shift_ms as int)
    &&& cur_ok(p.current_node@)
    &&& valid_date(p.current_date)
    &&& valid_date(p.json_date)
    &&& (p.stat_date matches Some(d) ==> valid_date(d))
}

/// The wall clock as the scheduler reads it: a moment before the day's
/// start still belongs to the previous schedule day.
pub open spec fn spec_current_time(p: CurrentProgram, now: int) -> int {
    if now < p.start_sec_ms {
        now + p.config.day_length_ms
    } else {
        now
    }
}

/// The moment the alignment scan aims at: the schedule time, plus the
/// operator's shift while it still applies to the playing day.
pub open spec fn spec_align_time(p: CurrentProgram, now: int) -> int {
    let t = spec_current_time(p, now);
    if p.stat_date == Some(p.current_date) && p.time_shift_ms != 0 {
        t + p.time_shift_ms
    } else {
        t
    }
}

/// The first item from `i` on that is still running at time `t`: the first
/// whose begin plus slice length lies past `t`.
pub open spec fn first_covering(s: Seq<MediaView>, t: int, i: int) -> Option<int>
    decreases s.len() - i
        when 0 <= i <= s.len()
{
    if i >= s.len() {
        None
    } else if s[i].begin->Some_0 + s[i].out - s[i].seek > t {
        Some(i)
    } else {
        first_covering(s, t, i + 1)
    }
}

/// A found covering item lies within the program.
pub proof fn lemma_first_covering_range(s: Seq<MediaView>, t: int, i: int)
    requires
        0 <= i <= s.len(),
        first_covering(s, t, i) is Some,
    ensures
        i <= first_covering(s, t, i)->Some_0 < s.len(),
    decreases s.len() - i,
{
    if i < s.len() && !(s[i].begin->Some_0 + s[i].out - s[i].seek > t) {
        lemma_first_covering_range(s, t, i + 1);
    }
}

/// Scan a program for the item covering time `t`.
fn find_covering(nodes: &Vec<Media>, t: i64) -> (r: Option<usize>)
    requires
        program_ok(prog_view(nodes@)),
    ensures
        match r {
            Some(i) => first_covering(prog_view(nodes@), t as int, 0) == Some(i as int) && i
                < nodes@.len(),
            None => first_covering(prog_view(nodes@), t as int, 0) is None,
        },
{
    let ghost views = prog_view(nodes@);
    let mut i: usize = 0;
    while i < nodes.len()
        invariant
            0 <= i <= nodes@.len(),
            views == prog_view(nodes@),
            program_ok(views),
            first_covering(views, t as int, 0) == first_covering(views, t as int, i as int),
        decreases nodes@.len() - i,
    {
        let node = &nodes[i];
        proof {
            assert(node_ok(views[i as int]));
        }
        let begin = match node.begin {
            Some(b) => b,
            None => 0,
        };
        if begin + node.out - node.seek > t {
            return Some(i);
        }
        i = i + 1;
    }
    None
}

/// What the operator loop hands a refresh cycle: the outcome of looking at
/// the playlist source.
pub enum SourceEvent {
    /// No origin is known; a playlist was loaded from the configured source.
    NoPath(Playlist),
    /// The origin's freshness token, unchanged since the last load.
    Fresh(String),
    /// The origin's freshness token changed; the playlist was reloaded.
    Changed(String, Playlist),
    /// The local origin file has vanished from disk.
    Vanished,
    /// The source could not be checked this time (a transient remote error):
    /// the cycle is skipped and retried on the next call.
    Skip,
}

impl CurrentProgram {
    /// Start the iterator on a freshly loaded playlist and the persisted
    /// status. Returns the new state, and the status record to persist when
    /// the stored day does not match the playlist's day.
    pub fn new(config: Config, pl: Playlist, status: Option<(i64, Date)>) -> (r: (
        CurrentProgram,
        Option<(i64, Date)>,
    ))
        requires
            valid_config(config),
            playlist_ok(pl),
            status matches Some(s) ==> valid_shift(s.0 as int) && valid_date(s.1),
        ensures
            wf(r.0),
            r.0.config == config,
            r.0.start_sec_ms == pl.start_sec_ms,
            r.0.json_mod == pl.modified,
            r.0.json_path == pl.current_file,
            r.0.json_date == pl.date,
            r.0.nodes == pl.program,
            r.0.index == 0,
            r.0.list_init == true,
            r.0.current_date == pl.date,
            r.0.time_shift_ms == (match status {
                Some(s) => s.0,
                None => 0,
            }),
            r.0.stat_date == (match status {
                Some(s) => Some(s.1),
                None => None::<Date>,
            }),
            r.1 == (if status matches Some(s) && s.1 == pl.date {
                None::<(i64, Date)>
            } else {
                Some((0i64, pl.date))
            }),
    {
        let (shift, date) = match status {
            Some((t, d)) => (t, Some(d)),
            None => (0, None),
        };
        let write = match &date {
            Some(d) => {
                if d.year == pl.date.year && d.month == pl.date.month && d.day == pl.date.day {
                    None
                } else {
                    Some((0i64, pl.date))
                }
            },
            None => Some((0i64, pl.date)),
        };
        let prog = CurrentProgram {
            config,
            start_sec_ms: pl.start_sec_ms,
            json_mod: pl.modified,
            json_path: pl.current_file,
            json_date: pl.date,
            nodes: pl.program,
            current_node: Media::new(0, String::new()),
            index: 0,
            list_init: true,
            time_shift_ms: shift,
            stat_date: date,
            current_date: pl.date,
        };
        (prog, write)
    }

    /// Whether a freshness token seen now calls for a reload: it does
    /// whenever it is not the very token remembered from the last load.
    pub fn needs_reload(&self, token: &String) -> (r: bool)
        ensures
            r == !(self.json_mod matches Some(m) && m@ == token@),
    {
        match &self.json_mod {
            Some(m) => !m.eq(token),
            None => true,
        }
    }

    /// The wall clock as the scheduler reads it (see `spec_current_time`).
    pub fn get_current_time(&self, now_ms: i64) -> (r: i64)
        requires
            wf(*self),
            0 <= now_ms < MS_PER_DAY,
        ensures
            r == spec_current_time(*self, now_ms as int),
            0 <= r <= 2 * MS_PER_DAY,
    {
        if now_ms < self.start_sec_ms {
            now_ms + self.config.day_length_ms
        } else {
            now_ms
        }
    }

    /// Align the cursor to the item covering the present moment: the scan of
    /// `get_current_clip`. When some item covers it, the cursor moves there
    /// and the iterator leaves its init state; otherwise nothing changes.
    pub fn align_to_now(&mut self, now_ms: i64)
        requires
            wf(*old(self)),
            0 <= now_ms < MS_PER_DAY,
        ensures
            wf(*final(self)),
            match first_covering(
                prog_view(old(self).nodes@),
                spec_align_time(*old(self), now_ms as int),
                0,
            ) {
                Some(i) => *final(self) == (CurrentProgram {
                    index: i as usize,
                    list_init: false,
                    ..*old(self)
                }),
                None => *final(self) == *old(self),
            },
    {
        let t0 = self.get_current_time(now_ms);
        let applies = match &self.stat_date {
            Some(d) => d.year == self.current_date.year && d.month == self.current_date.month
                && d.day == self.current_date.day,
            None => false,
        };
        let t = if applies && self.time_shift_ms != 0 {
            t0 + self.time_shift_ms
        } else {
            t0
        };
        proof {
            assert(self.stat_date == Some(self.current_date) <==> (
            self.stat_date matches Some(d) && d.year == self.current_date.year && d.month
                == self.current_date.month && d.day == self.current_date.day));
            assert(t as int == spec_align_time(*self, now_ms as int));
        }
        match find_covering(&self.nodes, t) {
            Some(i) => {
                self.index = i;
                self.list_init = false;
            },
            None => {},
        }
    }

    /// One refresh cycle: apply what a look at the playlist source found.
    /// An unchanged token — or a check that could not be made this time —
    /// leaves the state exactly as it was; a reload swaps the program in and
    /// re-aligns the cursor past the playing item; a local origin gone from
    /// disk is replaced by a single filler and the iterator returns to its
    /// init state.
    pub fn check_update(&mut self, ev: SourceEvent, now_ms: i64)
        requires
            wf(*old(self)),
            0 <= now_ms < MS_PER_DAY,
            ev matches SourceEvent::NoPath(pl) ==> old(self).json_path is None && playlist_ok(pl),
            ev matches SourceEvent::Fresh(t) ==> old(self).json_path is Some && (old(
                self,
            ).json_mod matches Some(m) && m@ == t@),
            ev matches SourceEvent::Changed(t, pl) ==> old(self).json_path is Some && playlist_ok(
                pl,
            ) && !(old(self).json_mod matches Some(m) && m@ == t@),
            ev matches SourceEvent::Vanished ==> old(self).json_path is Some,
        ensures
            wf(*final(self)),
            ev is Skip ==> *final(self) == *old(self),
            ev matches SourceEvent::Fresh(t) ==> *final(self) == *old(self),
            ev matches SourceEvent::NoPath(pl) ==> *final(self) == (CurrentProgram {
                json_path: pl.current_file,
                json_mod: pl.modified,
                nodes: pl.program,
                ..*old(self)
            }),
            ev matches SourceEvent::Changed(t, pl) ==> {
                let mid = CurrentProgram { json_mod: pl.modified, nodes: pl.program, ..*old(self) };
                match first_covering(
                    prog_view(pl.program@),
                    spec_align_time(mid, now_ms as int),
                    0,
                ) {
                    Some(i) => *final(self) == (CurrentProgram {
                        index: (i + 1) as usize,
                        list_init: false,
                        ..mid
                    }),
                    None => *final(self) == (CurrentProgram {
                        index: if mid.index < usize::MAX {
                            (mid.index + 1) as usize
                        } else {
                            mid.index
                        },
                        ..mid
                    }),
                }
            },
            ev matches SourceEvent::Vanished ==> {
                &&& final(self).nodes@.len() == 1
                &&& prog_view(final(self).nodes@)[0] == (MediaView {
                    index: Some(0),
                    source: Seq::<char>::empty(),
                    seek: 0,
                    out: DUMMY_LEN_MS as int,
                    duration: DUMMY_LEN_MS as int,
                    begin: Some(now_ms as int),
                    category: None,
                    last_ad: None,
                    next_ad: None,
                    process: None,
                    cmd: None,
                })
                &&& final(self).current_node@ == prog_view(final(self).nodes@)[0]
                &&& *final(self) == (CurrentProgram {
                    json_path: None,
                    list_init: true,
                    index: 0,
                    nodes: final(self).nodes,
                    current_node: final(self).current_node,
                    ..*old(self)
                })
            },
    {
        match ev {
            SourceEvent::Fresh(_) => {},
            SourceEvent::Skip => {},
            SourceEvent::NoPath(pl) => {
                self.json_path = pl.current_file;
                self.json_mod = pl.modified;
                self.nodes = pl.program;
            },
            SourceEvent::Changed(_, pl) => {
                self.json_mod = pl.modified;
                self.nodes = pl.program;
                let ghost mid = *self;
                self.align_to_now(now_ms);
                proof {
                    let found = first_covering(
                        prog_view(mid.nodes@),
                        spec_align_time(mid, now_ms as int),
                        0,
                    );
                    if found is Some {
                        lemma_first_covering_range(
                            prog_view(mid.nodes@),
                            spec_align_time(mid, now_ms as int),
                            0,
                        );
                        assert(found->Some_0 < mid.nodes@.len());
                        assert(mid.nodes@.len() == vstd::std_specs::vec::spec_vec_len(
                            &mid.nodes,
                        ));
                        assert(found->Some_0 + 1 <= usize::MAX);
                    }
                }
                if self.index < usize::MAX {
                    self.index = self.index + 1;
                }
            },
            SourceEvent::Vanished => {
                let mut media = Media::new(0, String::new());
                media.begin = Some(now_ms);
                media.duration = DUMMY_LEN_MS;
                media.out = DUMMY_LEN_MS;
                self.json_path = None;
                let copy = clone_media(&media);
                let mut nodes: Vec<Media> = Vec::new();
                nodes.push(media);
                self.nodes = nodes;
                self.current_node = copy;
                self.list_init = true;
                self.index = 0;
            },
        }
    }

    /// Prepare the clip the wall clock stands in, when there is one: align
    /// the cursor, take that item, move its seek point to the present moment
    /// within it, clamp it against the day's end, and mark it to play if a
    /// real slice is left. The cursor moves past the taken item.
    pub fn init_clip(&mut self, now_ms: i64) -> (r: Option<Media>)
        requires
            wf(*old(self)),
            old(self).list_init == true,
            0 <= now_ms < MS_PER_DAY,
        ensures
            wf(*final(self)),
            match first_covering(
                prog_view(old(self).nodes@),
                spec_align_time(*old(self), now_ms as int),
                0,
            ) {
                Some(i) => r matches Some(m) && m@ == spec_init_node(*old(self), now_ms as int)
                    && final(self).current_node@ == m@ && *final(self) == (CurrentProgram {
                    index: (i + 1) as usize,
                    list_init: false,
                    current_node: final(self).current_node,
                    ..*old(self)
                }),
                None => r is None && *final(self) == *old(self),
            },
            r matches Some(m) ==> (m@.process == Some(true) ==> valid_slot(m@)),
    {
        let ghost views = prog_view(self.nodes@);
        let ghost t_align = spec_align_time(*self, now_ms as int);
        self.align_to_now(now_ms);
        if !self.list_init {
            proof {
                lemma_first_covering_range(views, t_align, 0);
                assert(self.nodes@.len() == vstd::std_specs::vec::spec_vec_len(&self.nodes));
            }
            let i = self.index;
            let t = self.get_current_time(now_ms);
            let mut node = clone_media(&self.nodes[i]);
            let begin = match node.begin {
                Some(b) => b,
                None => 0,
            };
            let mut sk = t - begin;
            if sk < 0 {
                sk = 0;
            }
            node.seek = sk;
            let mut node = handle_list_init(&self.config, node, now_ms);
            let playable = 0 <= node.seek && node.seek < node.out && node.out <= node.duration;
            node.process = Some(playable);
            self.index = i + 1;
            self.current_node = clone_media(&node);
            Some(node)
        } else {
            None
        }
    }

    /// Make the last item of the program the reference item, as the
    /// exhausted-at-init path does before asking whether the next day is due.
    pub fn stage_last_node(&mut self)
        requires
            wf(*old(self)),
        ensures
            wf(*final(self)),
            *final(self) == (CurrentProgram {
                current_node: final(self).current_node,
                ..*old(self)
            }),
            final(self).current_node@ == prog_view(old(self).nodes@)[old(self).nodes@.len() - 1],
    {
        let last = self.nodes.len() - 1;
        proof {
            assert(node_ok(prog_view(self.nodes@)[last as int]));
        }
        self.current_node = clone_media(&self.nodes[last]);
    }

    /// Whether the program on hand reaches the end of the schedule day: its
    /// last item's begin plus duration lies at or past day start plus length.
    pub fn list_reaches_day_end(&self) -> (r: bool)
        requires
            wf(*self),
        ensures
            r == (prog_view(self.nodes@)[self.nodes@.len() - 1].begin->Some_0 + prog_view(
                self.nodes@,
            )[self.nodes@.len() - 1].duration >= self.config.day_length_ms
                + self.config.day_start_ms),
    {
        let last = self.nodes.len() - 1;
        let node = &self.nodes[last];
        let begin = match node.begin {
            Some(b) => b,
            None => 0,
        };
        begin + node.duration >= self.config.day_length_ms + self.config.day_start_ms
    }

    /// Fill the gap between a too-short program and the day's end with a
    /// synthetic item starting now: it is appended to the program and the
    /// cursor set past it. When less than a filler's length remains, the
    /// iterator leaves its init state. The filler is never shorter than one
    /// second.
    pub fn fill_dummy(&mut self, now_ms: i64) -> (r: Media)
        requires
            wf(*old(self)),
            0 <= now_ms < MS_PER_DAY,
        ensures
            wf(*final(self)),
            r@ == spec_fill_node(*old(self), now_ms as int),
            r@.process == Some(true) ==> valid_slot(r@),
            final(self).current_node@ == r@,
            prog_view(final(self).nodes@) == prog_view(old(self).nodes@).push(r@),
            final(self).index == old(self).nodes@.len() + 1,
            final(self).list_init == (old(self).list_init && !(DUMMY_LEN_MS > spec_get_delta(
                old(self).config,
                now_ms as int,
                now_ms as int,
            ).1)),
            *final(self) == (CurrentProgram {
                nodes: final(self).nodes,
                current_node: final(self).current_node,
                index: final(self).index,
                list_init: final(self).list_init,
                ..*old(self)
            }),
    {
        let (_, total) = get_delta(&self.config, now_ms, now_ms);
        let mut duration = DUMMY_LEN_MS;
        if DUMMY_LEN_MS > total {
            duration = total;
            self.list_init = false;
        }
        if duration < 1000 {
            duration = 1000;
        }
        let mut current_time = now_ms;
        if self.config.day_start_ms > current_time {
            current_time = current_time + self.config.day_length_ms + 1000;
        }
        let mut media = Media::new(0, String::new());
        media.begin = Some(current_time);
        media.duration = duration;
        media.out = duration;
        media.process = Some(true);
        let copy = clone_media(&media);
        let ghost prev = self.nodes@;
        self.nodes.push(media);
        proof {
            assert(forall|j: int|
                0 <= j < prev.len() ==> #[trigger] prog_view(self.nodes@)[j] == prog_view(
                    prev,
                )[j]);
            assert(prog_view(self.nodes@) =~= prog_view(prev).push(copy@));
        }
        self.index = self.nodes.len();
        self.current_node = copy;
        clone_media(&self.current_node)
    }

    /// Ask whether the next day's playlist is due; when it is, the returned
    /// offset says where within the schedule the next playlist would start,
    /// and the operator loop must load it and apply it. Before anything was
    /// emitted there is no reference item and nothing is due.
    pub fn playlist_due(&self, now_ms: i64) -> (r: Option<i64>)
        requires
            wf(*self),
            0 <= now_ms < MS_PER_DAY,
        ensures
            self.current_node@.begin is None ==> r is None,
            self.current_node@.begin is Some ==> {
                &&& (r is Some) == spec_playlist_due(*self, now_ms as int)
                &&& (r matches Some(v) ==> v as int == spec_next_start(*self, now_ms as int))
            },
    {
        let begin = match &self.current_node.begin {
            Some(b) => *b,
            None => {
                return None;
            },
        };
        let (delta, total) = get_delta(&self.config, now_ms, now_ms);
        let duration = if self.current_node.duration > self.current_node.out {
            self.current_node.duration
        } else {
            self.current_node.out
        };
        let mut next_start = begin - self.config.day_start_ms + duration + delta;
        if self.index == self.nodes.len() - 1 {
            next_start = next_start + self.config.stop_threshold_ms;
        }
        if next_start >= self.config.day_length_ms || is_close(total, 0, 2000) || is_close(
            total,
            self.config.day_length_ms,
            2000,
        ) {
            Some(next_start)
        } else {
            None
        }
    }

    /// Swap in the next day's playlist: its program replaces the current one,
    /// the cursor returns to the first slot, the shift is zeroed, and the
    /// playing day becomes the playlist's day. When the playlist has no
    /// origin file the iterator returns to its init state. Returns the
    /// status record to persist.
    pub fn apply_next_playlist(&mut self, pl: Playlist) -> (r: (i64, Date))
        requires
            wf(*old(self)),
            playlist_ok(pl),
        ensures
            wf(*final(self)),
            *final(self) == (CurrentProgram {
                current_date: pl.date,
                time_shift_ms: 0,
                json_path: pl.current_file,
                json_mod: pl.modified,
                json_date: pl.date,
                nodes: pl.program,
                index: 0,
                list_init: old(self).list_init || pl.current_file is None,
                ..*old(self)
            }),
            r == (0i64, pl.date),
    {
        let date = pl.date;
        let no_file = match &pl.current_file {
            Some(_) => false,
            None => true,
        };
        self.current_date = date;
        self.time_shift_ms = 0;
        self.json_path = pl.current_file;
        self.json_mod = pl.modified;
        self.json_date = date;
        self.nodes = pl.program;
        self.index = 0;
        if no_file {
            self.list_init = true;
        }
        (0, date)
    }
}

/// The next playlist's would-be start offset within the schedule day,
/// measured from the reference item.
pub open spec fn spec_next_start(p: CurrentProgram, now: int) -> int {
    let m = p.current_node@;
    let dur = if m.duration > m.out {
        m.duration
    } else {
        m.out
    };
    let base = m.begin->Some_0 - p.config.day_start_ms + dur + spec_get_delta(
        p.config,
        now,
        now,
    ).0;
    if p.index == p.nodes@.len() - 1 {
        base + p.config.stop_threshold_ms
    } else {
        base
    }
}

/// The next day's playlist is due: the reference item runs to the day's
/// end (with grace for the last item), or the day's remainder is within
/// two seconds of zero or of a full day.
pub open spec fn spec_playlist_due(p: CurrentProgram, now: int) -> bool {
    let total = spec_get_delta(p.config, now, now).1;
    spec_next_start(p, now) >= p.config.day_length_ms || spec_is_close(total, 0, 2000)
        || spec_is_close(total, p.config.day_length_ms as int, 2000)
}

/// What the init path emits for the covering item: the item with its seek
/// point moved to the present moment, clamped against the day's end, and
/// marked to play exactly when a real slice is left.
pub open spec fn spec_init_node(p: CurrentProgram, now: int) -> MediaView {
    let views = prog_view(p.nodes@);
    let i = first_covering(views, spec_align_time(p, now), 0)->Some_0;
    let t = spec_current_time(p, now);
    let v = views[i];
    let sk = if t - v.begin->Some_0 < 0 {
        0
    } else {
        t - v.begin->Some_0
    };
    let clamped = spec_handle_list_init(
        MediaView { seek: sk, ..v },
        spec_get_delta(p.config, v.begin->Some_0, now).1,
    );
    MediaView { process: Some(valid_slot(clamped)), ..clamped }
}

/// Whether the item is tagged as an advertisement.
fn is_ad(m: &Media) -> (r: bool)
    ensures
        r == (m@.category == Some("advertisement"@)),
{
    match &m.category {
        Some(c) => c.eq(&String::from_str("advertisement")),
        None => false,
    }
}

/// Two optional strings carry the same text.
pub open spec fn opt_str_eq(a: Option<String>, b: Option<String>) -> bool {
    match (a, b) {
        (Some(x), Some(y)) => x@ == y@,
        (None, None) => true,
        _ => false,
    }
}

/// An emitted item with its neighbour-advertisement flags: each flag is set,
/// and holds exactly whether the neighbouring slot in the program is tagged
/// as an advertisement — a flag carried in from an earlier emission is
/// overwritten, never kept stale.
pub open spec fn spec_with_ads(m: MediaView, s: Seq<MediaView>, i: int) -> MediaView {
    let next_ad = Some(i + 1 < s.len() && s[i + 1].category == Some("advertisement"@));
    let last_ad = Some(0 < i && i < s.len() && s[i - 1].category == Some("advertisement"@));
    MediaView { next_ad, last_ad, ..m }
}

/// What the exhausted path emits when the day ran short: a synthetic item at
/// the present moment, no longer than the filler length, carrying the
/// last-emitted item's advertisement flag.
pub open spec fn spec_tail_fill_node(p: CurrentProgram, now: int) -> MediaView {
    let total = spec_get_delta(p.config, p.config.day_start_ms as int, now).1;
    let mag = if total < 0 {
        -total
    } else {
        total
    };
    let d = if mag > DUMMY_LEN_MS {
        DUMMY_LEN_MS as int
    } else {
        mag
    };
    MediaView {
        index: Some(p.index),
        source: Seq::<char>::empty(),
        seek: 0,
        out: d,
        duration: d,
        begin: Some(now),
        category: None,
        last_ad: p.current_node@.last_ad,
        next_ad: None,
        process: Some(true),
        cmd: None,
    }
}

impl CurrentProgram {
    /// Emit the item under the cursor: gate it against the clock, raise its
    /// neighbour-advertisement flags, and advance the cursor. `r.1` reports a
    /// fatal drift, on which the playout should terminate.
    pub fn emit_normal(&mut self, now_ms: i64) -> (r: (Media, bool))
        requires
            wf(*old(self)),
            !old(self).list_init,
            old(self).index < old(self).nodes@.len(),
            0 <= now_ms < MS_PER_DAY,
        ensures
            wf(*final(self)),
            r.0@ == spec_with_ads(
                spec_timed_source(
                    prog_view(old(self).nodes@)[old(self).index as int],
                    old(self).config,
                    old(self).index == old(self).nodes@.len() - 1,
                    old(self).stat_date == Some(old(self).current_date),
                    old(self).time_shift_ms as int,
                    now_ms as int,
                ),
                prog_view(old(self).nodes@),
                old(self).index as int,
            ),
            r.0@.process == Some(true) ==> valid_slot(r.0@),
            final(self).current_node@ == r.0@,
            *final(self) == (CurrentProgram {
                index: (old(self).index + 1) as usize,
                current_node: final(self).current_node,
                ..*old(self)
            }),
            r.1 == {
                let m = prog_view(old(self).nodes@)[old(self).index as int];
                let delta = spec_get_delta(old(self).config, m.begin->Some_0, now_ms as int).0;
                let shifted = if old(self).stat_date == Some(old(self).current_date) && old(
                    self,
                ).time_shift_ms != 0 {
                    delta - old(self).time_shift_ms
                } else {
                    delta
                };
                old(self).config.length_bounded && !crate::clock::spec_in_sync(
                    old(self).config,
                    shifted,
                ) && crate::clock::spec_sync_fatal(old(self).config, shifted)
            },
    {
        let i = self.index;
        proof {
            assert(node_ok(prog_view(self.nodes@)[i as int]));
        }
        let is_last = i == self.nodes.len() - 1;
        let shift_applies = match &self.stat_date {
            Some(d) => d.year == self.current_date.year && d.month == self.current_date.month
                && d.day == self.current_date.day,
            None => false,
        };
        proof {
            assert(shift_applies == (self.stat_date == Some(self.current_date)));
        }
        let node = clone_media(&self.nodes[i]);
        let (mut new_node, fatal) = timed_source(
            node,
            &self.config,
            is_last,
            shift_applies,
            self.time_shift_ms,
            now_ms,
        );
        let next_is_ad = i + 1 < self.nodes.len() && is_ad(&self.nodes[i + 1]);
        let last_is_ad = i > 0 && is_ad(&self.nodes[i - 1]);
        new_node.next_ad = Some(next_is_ad);
        new_node.last_ad = Some(last_is_ad);
        self.current_node = clone_media(&new_node);
        self.index = i + 1;
        (new_node, fatal)
    }

    /// Emit once the cursor has run off the program's end. When the source
    /// did not change underneath and the day still has more than the grace
    /// threshold to run, the gap is filled with a synthetic item appended to
    /// the program; otherwise the program starts over at its first item.
    /// `prev_path` is the origin path as it was before this call's refresh.
    pub fn emit_exhausted(&mut self, now_ms: i64, prev_path: &Option<String>) -> (r: Media)
        requires
            wf(*old(self)),
            old(self).index >= old(self).nodes@.len(),
            old(self).index < usize::MAX,
            0 <= now_ms < MS_PER_DAY,
        ensures
            wf(*final(self)),
            r@.process == Some(true) ==> valid_slot(r@),
            final(self).current_node@ == r@,
            ({
                let total = spec_get_delta(
                    old(self).config,
                    old(self).config.day_start_ms as int,
                    now_ms as int,
                ).1;
                let shortfall = total > old(self).config.stop_threshold_ms || total < -old(
                    self,
                ).config.stop_threshold_ms;
                if opt_str_eq(*prev_path, old(self).json_path) && shortfall {
                    r@ == spec_tail_fill_node(*old(self), now_ms as int) && prog_view(
                        final(self).nodes@,
                    ) == prog_view(old(self).nodes@).push(r@) && *final(self) == (CurrentProgram {
                        index: (old(self).index + 1) as usize,
                        nodes: final(self).nodes,
                        current_node: final(self).current_node,
                        ..*old(self)
                    })
                } else {
                    r@ == (MediaView {
                        last_ad: old(self).current_node@.last_ad,
                        next_ad: spec_with_ads(
                            prog_view(old(self).nodes@)[0],
                            prog_view(old(self).nodes@),
                            0,
                        ).next_ad,
                        ..prog_view(old(self).nodes@)[0]
                    }) && *final(self) == (CurrentProgram {
                        index: 1usize,
                        current_node: final(self).current_node,
                        ..*old(self)
                    })
                }
            }),
    {
        let unchanged = match (prev_path, &self.json_path) {
            (Some(a), Some(b)) => a.eq(b),
            (None, None) => true,
            _ => false,
        };
        let (_, total) = get_delta(&self.config, self.config.day_start_ms, now_ms);
        let last_ad_saved = self.current_node.last_ad;
        if unchanged && (total > self.config.stop_threshold_ms || total
            < -self.config.stop_threshold_ms) {
            let mut media = Media::new(self.index, String::new());
            media.begin = Some(now_ms);
            let mut d = total;
            if d < 0 {
                d = -d;
            }
            if d > DUMMY_LEN_MS {
                d = DUMMY_LEN_MS;
            }
            media.duration = d;
            media.out = d;
            media.process = Some(true);
            media.last_ad = last_ad_saved;
            let copy = clone_media(&media);
            let ghost prev = self.nodes@;
            self.nodes.push(media);
            proof {
                assert(forall|j: int|
                    0 <= j < prev.len() ==> #[trigger] prog_view(self.nodes@)[j] == prog_view(
                        prev,
                    )[j]);
                assert(prog_view(self.nodes@) =~= prog_view(prev).push(copy@));
            }
            self.index = self.index + 1;
            self.current_node = copy;
            clone_media(&self.current_node)
        } else {
            proof {
                assert(node_ok(prog_view(self.nodes@)[0]));
            }
            let mut node = clone_media(&self.nodes[0]);
            node.next_ad = Some(1 < self.nodes.len() && is_ad(&self.nodes[1]));
            node.last_ad = last_ad_saved;
            self.index = 1;
            self.current_node = clone_media(&node);
            node
        }
    }
}

/// Within one day, absent operator commands, the begins the iterator emits
/// never decrease. The cursor only advances between normal emissions, so two
/// emissions in order come from cursor positions `i <= j`; the clip gate and
/// the advertisement flags keep each item's begin unchanged; and along a
/// scheduled program of real slices the begins never step backwards. The two
/// emissions below are written exactly as `emit_normal` pins them, for any
/// clock readings and shift settings of the two calls.
pub proof fn lemma_emitted_begins_monotone(
    p: CurrentProgram,
    i: int,
    j: int,
    last_i: bool,
    last_j: bool,
    applies_i: bool,
    applies_j: bool,
    shift_i: int,
    shift_j: int,
    now_i: int,
    now_j: int,
)
    requires
        program_ok(prog_view(p.nodes@)),
        scheduled(prog_view(p.nodes@), p.start_sec_ms as int),
        0 <= i <= j < p.nodes@.len(),
    ensures
        ({
            let views = prog_view(p.nodes@);
            let mi = spec_with_ads(
                spec_timed_source(views[i], p.config, last_i, applies_i, shift_i, now_i),
                views,
                i,
            );
            let mj = spec_with_ads(
                spec_timed_source(views[j], p.config, last_j, applies_j, shift_j, now_j),
                views,
                j,
            );
            mi.begin matches Some(bi) && mj.begin matches Some(bj) && bi <= bj
        }),
{
    let views = prog_view(p.nodes@);
    assert(forall|k: int| 0 <= k < views.len() ==> valid_slot(#[trigger] views[k])) by {
        assert(forall|k: int| 0 <= k < views.len() ==> node_ok(#[trigger] views[k]));
    }
    lemma_begins_monotone(views, p.start_sec_ms as int, i, j);
    assert(spec_timed_source(views[i], p.config, last_i, applies_i, shift_i, now_i).begin
        == views[i].begin);
    assert(spec_timed_source(views[j], p.config, last_j, applies_j, shift_j, now_j).begin
        == views[j].begin);
}

/// What the gap filler looks like: a synthetic item starting now (shifted a
/// day when the day has not begun), covering the day's remainder up to the
/// filler length, and at least one second.
pub open spec fn spec_fill_node(p: CurrentProgram, now: int) -> MediaView {
    let total = spec_get_delta(p.config, now, now).1;
    let d0 = if DUMMY_LEN_MS > total {
        total
    } else {
        DUMMY_LEN_MS as int
    };
    let d = if d0 < 1000 {
        1000
    } else {
        d0
    };
    let b = if p.config.day_start_ms > now {
        now + p.config.day_length_ms + 1000
    } else {
        now
    };
    MediaView {
        index: Some(0),
        source: Seq::<char>::empty(),
        seek: 0,
        out: d,
        duration: d,
        begin: Some(b),
        category: None,
        last_ad: None,
        next_ad: None,
        process: Some(true),
        cmd: None,
    }
}

} // verus!
