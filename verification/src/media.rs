//! Media items: one scheduled clip, the per-day program built from a
//! manifest, and the clip gating that decides what is emitted.

use vstd::prelude::*;

use crate::{Config, MS_PER_DAY, valid_config};
use crate::clock::{check_sync, get_delta, spec_get_delta, spec_in_sync, spec_sync_fatal};
use crate::numfmt::{fmt_ms, ms_text};

verus! {

/// The mathematical content of a media item.
pub struct MediaView {
    pub index: Option<usize>,
    pub source: Seq<char>,
    pub seek: int,
    pub out: int,
    pub duration: int,
    pub begin: Option<int>,
    pub category: Option<Seq<char>>,
    pub last_ad: Option<bool>,
    pub next_ad: Option<bool>,
    pub process: Option<bool>,
    pub cmd: Option<Seq<Seq<char>>>,
}

/// One scheduled clip. Times are milliseconds; `seek` and `out` are offsets
/// into the source, `begin` a second-of-day scaled to milliseconds.
pub struct Media {
    /// Ordinal position within the current playlist.
    pub index: Option<usize>,
    /// Path or URL of the media content; empty for a fill slot.
    pub source: String,
    /// Where playback begins within the source.
    pub seek: i64,
    /// Where playback ends within the source.
    pub out: i64,
    /// Intrinsic length of the source.
    pub duration: i64,
    /// Scheduled start, as milliseconds of the day.
    pub begin: Option<i64>,
    /// Optional tag; `advertisement` is recognized.
    pub category: Option<String>,
    /// Whether the previous clip is an advertisement.
    pub last_ad: Option<bool>,
    /// Whether the following clip is an advertisement.
    pub next_ad: Option<bool>,
    /// Whether the decoder shall play this item (`false`: skip it).
    pub process: Option<bool>,
    /// Prepared decoder arguments.
    pub cmd: Option<Vec<String>>,
}

/// The character sequences of a list of strings.
pub open spec fn strings_view(v: Seq<String>) -> Seq<Seq<char>> {
    v.map_values(|x: String| x@)
}

impl View for Media {
    type V = MediaView;

    open spec fn view(&self) -> MediaView {
        MediaView {
            index: self.index,
            source: self.source@,
            seek: self.seek as int,
            out: self.out as int,
            duration: self.duration as int,
            begin: match self.begin {
                Some(b) => Some(b as int),
                None => None,
            },
            category: match self.category {
                Some(c) => Some(c@),
                None => None,
            },
            last_ad: self.last_ad,
            next_ad: self.next_ad,
            process: self.process,
            cmd: match self.cmd {
                Some(c) => Some(strings_view(c@)),
                None => None,
            },
        }
    }
}

impl Media {
    /// A fresh, unscheduled item for the given slot and source.
    pub fn new(index: usize, source: String) -> (r: Media)
        ensures
            r@ == (MediaView {
                index: Some(index),
                source: source@,
                seek: 0,
                out: 0,
                duration: 0,
                begin: None,
                category: None,
                last_ad: None,
                next_ad: None,
                process: None,
                cmd: None,
            }),
    {
        Media {
            index: Some(index),
            source,
            seek: 0,
            out: 0,
            duration: 0,
            begin: None,
            category: None,
            last_ad: None,
            next_ad: None,
            process: None,
            cmd: None,
        }
    }
}

/// An exact copy of a list of strings.
fn clone_strings(v: &Vec<String>) -> (r: Vec<String>)
    ensures
        strings_view(r@) == strings_view(v@),
{
    let mut r: Vec<String> = Vec::new();
    let mut i: usize = 0;
    while i < v.len()
        invariant
            0 <= i <= v.len(),
            r@.len() == i,
            forall|j: int| 0 <= j < i ==> r@[j]@ == v@[j]@,
        decreases v.len() - i,
    {
        r.push(v[i].clone());
        i = i + 1;
    }
    proof {
        assert(strings_view(r@) =~= strings_view(v@));
    }
    r
}

/// An exact copy of a media item.
pub fn clone_media(m: &Media) -> (r: Media)
    ensures
        r@ == m@,
{
    let r = Media {
        index: m.index,
        source: m.source.clone(),
        seek: m.seek,
        out: m.out,
        duration: m.duration,
        begin: m.begin,
        category: match &m.category {
            Some(c) => Some(c.clone()),
            None => None,
        },
        last_ad: m.last_ad,
        next_ad: m.next_ad,
        process: m.process,
        cmd: match &m.cmd {
            Some(c) => Some(clone_strings(c)),
            None => None,
        },
    };
    r
}

/// The clip's offsets name a real, non-empty slice of its source.
pub open spec fn valid_slot(m: MediaView) -> bool {
    0 <= m.seek < m.out <= m.duration
}

/// A manifest item the loader accepts: a real slice, no longer than a day,
/// of a source no longer than a day.
pub open spec fn admissible_item(m: MediaView) -> bool {
    0 <= m.seek < m.out <= MS_PER_DAY && m.duration <= MS_PER_DAY
}

/// What the scheduler relies on of every node it holds: a scheduled begin
/// within reach of the schedule arithmetic, a slot number, and a real slice
/// no longer than a day.
pub open spec fn node_ok(m: MediaView) -> bool {
    &&& m.begin matches Some(b) && 0 <= b < 3 * MS_PER_DAY
    &&& m.index is Some
    &&& valid_slot(m)
    &&& m.out <= MS_PER_DAY
    &&& m.duration <= MS_PER_DAY
}

/// Every node of the program is one the scheduler can work on.
pub open spec fn program_ok(s: Seq<MediaView>) -> bool {
    forall|i: int| 0 <= i < s.len() ==> node_ok(#[trigger] s[i])
}

/// The views of a program.
pub open spec fn prog_view(v: Seq<Media>) -> Seq<MediaView> {
    v.map_values(|m: Media| m@)
}

/// Total play time of the first `n` items: the sum of their `out - seek`.
pub open spec fn playtime(s: Seq<MediaView>, n: int) -> int
    decreases n,
{
    if n <= 0 {
        0
    } else {
        playtime(s, n - 1) + (s[n - 1].out - s[n - 1].seek)
    }
}

/// Play time grows with the number of items, as long as the counted items
/// are real slices.
pub proof fn lemma_playtime_monotone(s: Seq<MediaView>, a: int, b: int)
    requires
        0 <= a <= b,
        forall|j: int| a <= j < b ==> #[trigger] s[j].out - s[j].seek >= 0,
    ensures
        playtime(s, a) <= playtime(s, b),
    decreases b - a,
{
    if a < b {
        lemma_playtime_monotone(s, a, b - 1);
    }
}

/// Play time only reads each item's `out` and `seek`.
pub proof fn lemma_playtime_congruent(a: Seq<MediaView>, b: Seq<MediaView>, n: int)
    requires
        forall|j: int|
            0 <= j < n ==> #[trigger] a[j].out == b[j].out && a[j].seek == b[j].seek,
    ensures
        playtime(a, n) == playtime(b, n),
    decreases n,
{
    if n > 0 {
        lemma_playtime_congruent(a, b, n - 1);
    }
}

/// An item as the loader schedules it: its slot number, its begin second,
/// and a duration no shorter than its end offset.
pub open spec fn with_schedule(m: MediaView, i: int, begin: int) -> MediaView {
    MediaView {
        index: Some(i as usize),
        begin: Some(begin),
        duration: if m.duration < m.out {
            m.out
        } else {
            m.duration
        },
        ..m
    }
}

/// Every item of the program begins exactly where the play time of the items
/// before it ends.
pub open spec fn scheduled(s: Seq<MediaView>, start: int) -> bool {
    forall|i: int|
        0 <= i < s.len() ==> #[trigger] s[i].begin == Some(start + playtime(s, i))
}

/// Why a manifest was rejected.
#[derive(Debug, PartialEq, Eq)]
pub enum LoadError {
    /// The item at this position is not a real slice of its source.
    InvalidItem { index: usize },
    /// The program's total play time exceeds one day.
    TooLong,
}

/// Assign slot numbers and begin seconds to a manifest's items: item `i`
/// begins at `start_ms` plus the play time of the items before it. Items
/// whose stated duration falls short of their end offset get it raised to
/// the end offset. A manifest with an impossible slice or more than a day
/// of content is rejected.
pub fn prepare_program(items: Vec<Media>, start_ms: i64) -> (r: Result<Vec<Media>, LoadError>)
    requires
        0 <= start_ms < MS_PER_DAY,
    ensures
        (r is Ok) <==> ((forall|i: int|
            0 <= i < items@.len() ==> admissible_item(#[trigger] prog_view(items@)[i])) && playtime(
            prog_view(items@),
            items@.len() as int,
        ) <= MS_PER_DAY),
        r matches Ok(p) ==> {
            &&& p@.len() == items@.len()
            &&& forall|i: int|
                0 <= i < p@.len() ==> #[trigger] prog_view(p@)[i] == with_schedule(
                    prog_view(items@)[i],
                    i,
                    start_ms + playtime(prog_view(items@), i),
                )
            &&& scheduled(prog_view(p@), start_ms as int)
        },
        r matches Err(LoadError::InvalidItem { index }) ==> !admissible_item(
            prog_view(items@)[index as int],
        ) && (forall|j: int|
            0 <= j < index ==> admissible_item(#[trigger] prog_view(items@)[j])),
        r is Err ==> (r matches Err(LoadError::InvalidItem { index }) ==> index < items@.len()),
{
    let ghost views = prog_view(items@);
    let n = items.len();
    let mut out: Vec<Media> = Vec::new();
    let mut acc: i64 = 0;
    let mut i: usize = 0;
    while i < n
        invariant
            0 <= i <= n,
            n == items@.len(),
            views == prog_view(items@),
            0 <= start_ms < MS_PER_DAY,
            acc == playtime(views, i as int),
            0 <= acc <= MS_PER_DAY,
            forall|j: int| 0 <= j < i ==> admissible_item(#[trigger] views[j]),
            out@.len() == i,
            forall|j: int|
                0 <= j < i ==> #[trigger] prog_view(out@)[j] == with_schedule(
                    views[j],
                    j,
                    start_ms + playtime(views, j),
                ),
        decreases n - i,
    {
        let item = &items[i];
        proof {
            assert(views[i as int] == item@);
        }
        if !(0 <= item.seek && item.seek < item.out && item.out <= MS_PER_DAY && item.duration
            <= MS_PER_DAY) {
            proof {
                assert(!admissible_item(views[i as int]));
            }
            return Err(LoadError::InvalidItem { index: i });
        }
        let slot = item.out - item.seek;
        if acc > MS_PER_DAY - slot {
            proof {
                assert(playtime(views, i + 1) > MS_PER_DAY);
                if (forall|k: int| 0 <= k < n ==> admissible_item(#[trigger] views[k])) {
                    lemma_playtime_monotone(views, i + 1, n as int);
                    assert(playtime(views, n as int) > MS_PER_DAY);
                }
            }
            return Err(LoadError::TooLong);
        }
        let mut node = clone_media(item);
        node.index = Some(i);
        node.begin = Some(start_ms + acc);
        if node.duration < node.out {
            node.duration = node.out;
        }
        proof {
            assert(node@ == with_schedule(views[i as int], i as int, start_ms + acc));
        }
        let ghost prev = out@;
        out.push(node);
        acc = acc + slot;
        proof {
            assert(forall|j: int| 0 <= j < i ==> out@[j] == prev[j]);
            assert(forall|j: int|
                0 <= j < i ==> #[trigger] prog_view(out@)[j] == prog_view(prev)[j]);
            assert(prog_view(out@)[i as int] == node@);
        }
        i = i + 1;
    }
    proof {
        assert(forall|j: int|
            0 <= j < n ==> #[trigger] prog_view(out@)[j].out == views[j].out && prog_view(
                out@,
            )[j].seek == views[j].seek);
        assert(forall|j: int| 0 <= j < n ==> #[trigger] prog_view(out@)[j].begin == Some(
            start_ms + playtime(views, j),
        ));
        assert forall|j: int| 0 <= j < n implies #[trigger] prog_view(out@)[j].begin == Some(
            start_ms + playtime(prog_view(out@), j),
        ) by {
            lemma_playtime_congruent(prog_view(out@), views, j);
        }
    }
    Ok(out)
}

/// The decoder arguments for a slice of a source: a seek where one is
/// needed, the input, and the slice's length.
pub open spec fn spec_cmd(source: Seq<char>, seek: int, out: int) -> Seq<Seq<char>> {
    (if seek > 0 {
        seq!["-ss"@, ms_text(seek)]
    } else {
        Seq::<Seq<char>>::empty()
    }) + seq!["-i"@, source] + seq!["-t"@, ms_text(out - seek)]
}

/// Build the decoder argument list that plays `source` from `seek` to `out`.
pub fn seek_and_length(source: &String, seek: i64, out: i64) -> (r: Vec<String>)
    requires
        0 <= seek <= out,
    ensures
        strings_view(r@) == spec_cmd(source@, seek as int, out as int),
{
    proof {
        reveal_strlit("-ss");
        reveal_strlit("-i");
        reveal_strlit("-t");
    }
    let mut r: Vec<String> = Vec::new();
    if seek > 0 {
        r.push(String::from_str("-ss"));
        r.push(fmt_ms(seek));
    }
    r.push(String::from_str("-i"));
    r.push(source.clone());
    r.push(String::from_str("-t"));
    r.push(fmt_ms(out - seek));
    proof {
        assert(strings_view(r@) =~= spec_cmd(source@, seek as int, out as int));
    }
    r
}

/// The synthetic filler source covering a slot of the given length.
pub open spec fn spec_dummy_source(len: int) -> Seq<char> {
    "color=c=#121212:size=1024x576:duration="@ + ms_text(len)
}

/// The decoder arguments that play the synthetic filler.
pub open spec fn spec_dummy_cmd(len: int) -> Seq<Seq<char>> {
    seq!["-f"@, "lavfi"@, "-i"@, spec_dummy_source(len)]
}

/// A synthetic color-pattern source of the given length, with the decoder
/// arguments that play it.
pub fn gen_dummy(len: i64) -> (r: (String, Vec<String>))
    requires
        0 <= len,
    ensures
        r.0@ == spec_dummy_source(len as int),
        strings_view(r.1@) == spec_dummy_cmd(len as int),
{
    proof {
        reveal_strlit("color=c=#121212:size=1024x576:duration=");
        reveal_strlit("-f");
        reveal_strlit("lavfi");
        reveal_strlit("-i");
    }
    let source = String::from_str("color=c=#121212:size=1024x576:duration=").concat(
        fmt_ms(len).as_str(),
    );
    proof {
        assert(source@ =~= spec_dummy_source(len as int));
    }
    let mut cmd: Vec<String> = Vec::new();
    cmd.push(String::from_str("-f"));
    cmd.push(String::from_str("lavfi"));
    cmd.push(String::from_str("-i"));
    cmd.push(source.clone());
    proof {
        assert(strings_view(cmd@) =~= spec_dummy_cmd(len as int));
    }
    (source, cmd)
}

/// What `gen_source` yields: the item with its decoder command, or with the
/// filler substituted when its source cannot be played.
pub open spec fn spec_gen_source(m: MediaView, source_ok: bool) -> MediaView {
    if source_ok {
        MediaView { cmd: Some(spec_cmd(m.source, m.seek, m.out)), ..m }
    } else {
        MediaView {
            source: spec_dummy_source(m.out - m.seek),
            cmd: Some(spec_dummy_cmd(m.out - m.seek)),
            ..m
        }
    }
}

/// Attach the decoder command to an item. `source_ok` says whether the item's
/// source exists and is playable, which only the caller can know; when it is
/// false, the synthetic filler of the slot's length takes the source's place.
pub fn gen_source(node: Media, source_ok: bool) -> (r: Media)
    requires
        0 <= node@.seek <= node@.out,
    ensures
        r@ == spec_gen_source(node@, source_ok),
{
    let mut node = node;
    if source_ok {
        let cmd = seek_and_length(&node.source, node.seek, node.out);
        node.cmd = Some(cmd);
    } else {
        let (source, cmd) = gen_dummy(node.out - node.seek);
        node.source = source;
        node.cmd = Some(cmd);
    }
    node
}

/// What clamping an item against the end of its day yields: the end offset
/// pulled in so the item does not play past the remaining slot.
pub open spec fn spec_handle_list_init(m: MediaView, total_delta: int) -> MediaView {
    if m.out - m.seek > total_delta {
        MediaView { out: total_delta + m.seek, ..m }
    } else {
        m
    }
}

/// Clamp a freshly aligned item so it does not run past the end of the day:
/// its slice keeps at most `total_delta` milliseconds.
pub fn handle_list_init(c: &Config, node: Media, now_ms: i64) -> (r: Media)
    requires
        valid_config(*c),
        node@.begin matches Some(b) && -MS_PER_DAY <= b < 3 * MS_PER_DAY,
        -MS_PER_DAY <= node@.seek <= 3 * MS_PER_DAY,
        -MS_PER_DAY <= node@.out <= 3 * MS_PER_DAY,
        0 <= now_ms < MS_PER_DAY,
    ensures
        r@ == spec_handle_list_init(
            node@,
            spec_get_delta(*c, node@.begin->Some_0, now_ms as int).1,
        ),
{
    let begin = match node.begin {
        Some(b) => b,
        None => 0,
    };
    let (_, total_delta) = get_delta(c, begin, now_ms);
    let mut node = node;
    if node.out - node.seek > total_delta {
        node.out = total_delta + node.seek;
    }
    node
}

/// What ending a playlist on this item yields: the end offset cut to the
/// remaining play time, the item skipped when less than a second is left.
pub open spec fn spec_handle_list_end(m: MediaView, total: int) -> MediaView {
    let out = if m.seek > 0 {
        if m.seek + total > m.duration {
            m.duration
        } else {
            m.seek + total
        }
    } else {
        if total > m.duration {
            m.duration
        } else {
            total
        }
    };
    if m.duration > total && total > 1000 && m.duration - m.seek >= total {
        MediaView { out, process: Some(true), ..m }
    } else if m.duration > total && total < 1000 {
        MediaView { out, process: Some(false), ..m }
    } else {
        MediaView { process: Some(true), ..m }
    }
}

/// Cut the last item of a day to the remaining play time. An item whose cut
/// slice would fall under one second is marked to be skipped.
pub fn handle_list_end(node: Media, total: i64) -> (r: Media)
    requires
        valid_slot(node@),
        node@.out <= MS_PER_DAY,
        node@.duration <= MS_PER_DAY,
        0 < total <= MS_PER_DAY,
    ensures
        r@ == spec_handle_list_end(node@, total as int),
        r@.process == Some(true) ==> valid_slot(r@),
{
    let mut node = node;
    let mut out: i64 = if node.seek > 0 {
        node.seek + total
    } else {
        total
    };
    if out > node.duration {
        out = node.duration;
    }
    if node.duration > total && total > 1000 && node.duration - node.seek >= total {
        node.out = out;
        node.process = Some(true);
    } else if node.duration > total && total < 1000 {
        node.out = out;
        node.process = Some(false);
    } else {
        node.process = Some(true);
    }
    node
}

/// What the clip gate yields for an item: the item marked to play, marked to
/// be skipped, or cut down to the remaining play time.
pub open spec fn spec_timed_source(
    m: MediaView,
    c: Config,
    last: bool,
    shift_applies: bool,
    shift: int,
    now: int,
) -> MediaView {
    let delta = spec_get_delta(c, m.begin->Some_0, now).0;
    let total = spec_get_delta(c, m.begin->Some_0, now).1;
    let shifted = if shift_applies && shift != 0 {
        delta - shift
    } else {
        delta
    };
    if c.length_bounded && !spec_in_sync(c, shifted) {
        MediaView { process: Some(false), cmd: None, ..m }
    } else if (total > m.out - m.seek && !last) || (m.index matches Some(i) && i < 2)
        || !c.length_bounded {
        MediaView { process: Some(true), ..m }
    } else if total <= 0 {
        MediaView { process: Some(false), ..m }
    } else if total < m.duration - m.seek || last {
        spec_handle_list_end(m, total)
    } else {
        MediaView { process: Some(false), ..m }
    }
}

/// Gate one scheduled item against the clock: judge its drift (shifted by the
/// operator's persisted time shift when it applies to today), mark it to play
/// or to be skipped, and cut it down when the day is ending. `r.1` reports a
/// fatal drift: the playout should terminate.
pub fn timed_source(
    node: Media,
    c: &Config,
    last: bool,
    shift_applies: bool,
    shift: i64,
    now_ms: i64,
) -> (r: (Media, bool))
    requires
        valid_config(*c),
        node@.begin matches Some(b) && 0 <= b < 3 * MS_PER_DAY,
        node@.index is Some,
        valid_slot(node@),
        node@.out <= MS_PER_DAY,
        node@.duration <= MS_PER_DAY,
        -4 * MS_PER_DAY < shift < 4 * MS_PER_DAY,
        0 <= now_ms < MS_PER_DAY,
    ensures
        r.0@ == spec_timed_source(node@, *c, last, shift_applies, shift as int, now_ms as int),
        r.0@.process == Some(true) ==> valid_slot(r.0@),
        r.1 == {
            let delta = spec_get_delta(*c, node@.begin->Some_0, now_ms as int).0;
            let shifted = if shift_applies && shift != 0 {
                delta - shift
            } else {
                delta
            };
            c.length_bounded && !spec_in_sync(*c, shifted) && spec_sync_fatal(*c, shifted)
        },
{
    let begin = match node.begin {
        Some(b) => b,
        None => 0,
    };
    let (delta, total_delta) = get_delta(c, begin, now_ms);
    let shifted_delta = if shift_applies && shift != 0 {
        delta - shift
    } else {
        delta
    };
    if c.length_bounded {
        let (in_sync, fatal) = check_sync(c, shifted_delta);
        if !in_sync {
            let mut new_node = node;
            new_node.process = Some(false);
            new_node.cmd = None;
            return (new_node, fatal);
        }
    }
    let index_low = match node.index {
        Some(i) => i < 2,
        None => false,
    };
    if (total_delta > node.out - node.seek && !last) || index_low || !c.length_bounded {
        let mut new_node = node;
        new_node.process = Some(true);
        (new_node, false)
    } else if total_delta <= 0 {
        let mut new_node = node;
        new_node.process = Some(false);
        (new_node, false)
    } else if total_delta < node.duration - node.seek || last {
        (handle_list_end(node, total_delta), false)
    } else {
        let mut new_node = node;
        new_node.process = Some(false);
        (new_node, false)
    }
}

/// Begins never step backwards along a scheduled program of real slices.
pub proof fn lemma_begins_monotone(s: Seq<MediaView>, start: int, i: int, j: int)
    requires
        scheduled(s, start),
        forall|k: int| 0 <= k < s.len() ==> valid_slot(#[trigger] s[k]),
        0 <= i <= j < s.len(),
    ensures
        s[i].begin matches Some(bi) && s[j].begin matches Some(bj) && bi <= bj,
{
    assert(forall|k: int| i <= k < j ==> #[trigger] s[k].out - s[k].seek >= 0);
    lemma_playtime_monotone(s, i, j);
}

} // verus!
