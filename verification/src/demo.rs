//! A recorded demo and its highlights: where its files are, who recorded it
//! on which map, its killstreaks and bookmarks, and the lines that describe
//! them in the `_events.txt` file of the demos folder.
use vstd::prelude::*;
use crate::calendar::{civil_date, civil_from_days};
use crate::bookmark::{bookmarks_text_readable, text_bookmarks, BookmarkError, Bookmarks};
use crate::demofile::DemoHeaderInfo;
use crate::killstreak::{kill_ticks, recorded_streaks, Killstreaks, StreakView};
use crate::matchdata::{MatchSummary, MatchView};
use crate::paths::{file_stem_text, path_file_stem, demo_dir_and_relative_path, demos_dir, path_push, push_component, relative_demo_path};
use crate::player::{class_known, reported_class, user_id_for, Player};
use crate::text::{chars_of, contains_seq, decimal, extend_chars, find_seq, join_chars, join_seq, lemma_split_nonempty, push_decimal, push_signed_decimal, push_str, push_zero_padded, signed_decimal, split_chars, split_seq, string_of, string_views, utf8_len, utf8_len_upto, views_of, zero_pad};

verus! {

/// A demo with what the highlight logic needs of it.
#[derive(Debug)]
pub struct Demo {
    pub dir: String,
    pub absolute_path: String,
    pub relative_path: String,
    pub player: Player,
    pub events_file: String,
    pub date: String,
    pub state: MatchSummary,
    pub map: String,
}

/// The killstreaks and bookmarks of a demo.
#[derive(Debug, Clone, Default)]
pub struct Highlights {
    pub killstreaks: Killstreaks,
    pub bookmarks: Bookmarks,
}

/// The date a demo file was created `secs` seconds after the Unix epoch, in
/// UTC, as `YYYY-MM-DD` of the Gregorian calendar.
pub open spec fn creation_date_text(secs: nat) -> Seq<char> {
    let d = civil_date(secs / 86400);
    zero_pad(decimal(d.0 as nat), 4) + "-"@ + zero_pad(decimal(d.1 as nat), 2) + "-"@ + zero_pad(
        decimal(d.2),
        2,
    )
}

/// The date a demo file was created, `secs` seconds after the epoch.
pub fn format_creation_date(secs: u64) -> (r: String)
    ensures
        r@ == creation_date_text(secs as nat),
{
    let (year, month, day) = civil_from_days(secs / 86400);
    let mut out: Vec<char> = Vec::new();
    push_zero_padded(&mut out, year, 4);
    push_str(&mut out, "-");
    push_zero_padded(&mut out, month, 2);
    push_str(&mut out, "-");
    push_zero_padded(&mut out, day, 2);
    string_of(&out)
}

/// The name of a recording in a demo file's stem: the stem without its last
/// `-`-separated piece (the map's name).
pub open spec fn demo_name_of_stem(stem: Seq<char>) -> Seq<char> {
    join_seq(split_seq(stem, '-').drop_last(), "-"@)
}

/// The name of a recording from a demo file's stem.
pub fn demo_name_from_stem(stem: &str) -> (r: String)
    ensures
        r@ == demo_name_of_stem(stem@),
{
    let sv = chars_of(stem);
    let mut parts = split_chars(&sv, '-');
    proof {
        lemma_split_nonempty(sv@, '-');
    }
    let ghost all = parts@;
    parts.pop();
    assert(views_of(parts@) =~= views_of(all).drop_last());
    let sep = chars_of("-");
    string_of(&join_chars(&parts, &sep))
}

/// The lines of `lines` that do not mention `name`.
pub open spec fn kept_lines(lines: Seq<Seq<char>>, name: Seq<char>) -> Seq<Seq<char>>
    decreases lines.len(),
{
    if lines.len() == 0 {
        Seq::empty()
    } else {
        let prev = kept_lines(lines.drop_last(), name);
        if contains_seq(lines.last(), name) {
            prev
        } else {
            prev.push(lines.last())
        }
    }
}

/// How many of `lines` are empty.
pub open spec fn count_empty(lines: Seq<Seq<char>>) -> nat
    decreases lines.len(),
{
    if lines.len() == 0 {
        0
    } else {
        count_empty(lines.drop_last()) + if lines.last().len() == 0 { 1nat } else { 0nat }
    }
}

/// `block` written `n` times.
pub open spec fn repeat_text(block: Seq<char>, n: nat) -> Seq<char>
    decreases n,
{
    if n == 0 {
        Seq::empty()
    } else {
        repeat_text(block, (n - 1) as nat) + block
    }
}

/// The lines of an events file that are kept when a recording's highlights
/// are written: those that do not mention the recording's name.
pub open spec fn kept_event_lines(existing: Seq<char>, name: Seq<char>) -> Seq<Seq<char>> {
    kept_lines(split_seq(existing, '\n'), name)
}

/// The new events file: the old one without the lines that mention the
/// recording, then the recording's block once for each empty line kept.
pub open spec fn events_contents(existing: Seq<char>, name: Seq<char>, block: Seq<char>) -> Seq<char> {
    let kept = kept_event_lines(existing, name);
    join_seq(kept, "\n"@) + repeat_text(block, count_empty(kept))
}

/// The events file after writing a recording's block: lines mentioning the
/// recording `name` go, and `block` follows once for each empty line kept.
pub fn events_file_contents(existing: &str, name: &str, block: &Vec<char>) -> (r: String)
    ensures
        r@ == events_contents(existing@, name@, block@),
{
    let ev = chars_of(existing);
    let nv = chars_of(name);
    let lines = split_chars(&ev, '\n');
    let ghost ls = views_of(lines@);
    let mut kept: Vec<Vec<char>> = Vec::new();
    let mut empties: usize = 0;
    let mut i: usize = 0;
    while i < lines.len()
        invariant
            i <= lines@.len(),
            ls == views_of(lines@),
            ls.len() == lines@.len(),
            views_of(kept@) == kept_lines(ls.take(i as int), nv@),
            empties as nat == count_empty(views_of(kept@)),
            empties <= i,
        decreases lines.len() - i,
    {
        assert(ls.take(i + 1).drop_last() =~= ls.take(i as int));
        assert(ls.take(i + 1).last() == lines@[i as int]@);
        let mention = find_seq(&lines[i], &nv).is_some();
        if !mention {
            let line = lines[i].clone();
            let empty = line.len() == 0;
            let ghost before = views_of(kept@);
            kept.push(line);
            assert(views_of(kept@) =~= before.push(lines@[i as int]@));
            assert(views_of(kept@).drop_last() =~= before);
            if empty {
                empties = empties + 1;
            }
        }
        i = i + 1;
    }
    assert(ls.take(ls.len() as int) =~= ls);
    let nl = chars_of("\n");
    let mut out = join_chars(&kept, &nl);
    let ghost joined = out@;
    let mut k: usize = 0;
    while k < empties
        invariant
            k <= empties,
            out@ == joined + repeat_text(block@, k as nat),
        decreases empties - k,
    {
        extend_chars(&mut out, block);
        k = k + 1;
    }
    string_of(&out)
}

/// The first part of a recording's header line: date, map and class.
pub open spec fn header_text(date: Seq<char>, map: Seq<char>, class: Seq<char>) -> Seq<char> {
    "["@ + date + "] "@ + map + " "@ + class
}

/// `n` spaces.
pub open spec fn spaces(n: nat) -> Seq<char> {
    Seq::new(n, |i: int| ' ')
}

/// Width in bytes that a header is padded to before the command that plays
/// the demo.
pub const HEADER_WIDTH: usize = 65;

/// A recording's header line: its header padded to `HEADER_WIDTH` bytes, then
/// the console command that plays the demo.
pub open spec fn header_line(header: Seq<char>, relative_path: Seq<char>) -> Seq<char> {
    header + spaces((HEADER_WIDTH - utf8_len(header)) as nat) + "playdemo "@ + relative_path + "\n"@
}

/// Ticks shown in the events file lead the highlight by 500 ticks; the
/// subtraction wraps around at 2^32.
pub open spec fn shown_tick_u32(t: u32) -> nat {
    if t >= 500 {
        (t - 500) as nat
    } else {
        (t + 0x1_0000_0000 - 500) as nat
    }
}

/// A bookmark's tick as shown: 500 ticks earlier, wrapping around.
pub open spec fn shown_tick_i64(t: i64) -> int {
    if t >= i64::MIN + 500 {
        t - 500
    } else {
        t + 0x1_0000_0000_0000_0000 - 500
    }
}

/// The line of a killstreak: its number of kills, its tick span and its
/// length in seconds (`seconds`, already formatted).
pub open spec fn killstreak_line(date: Seq<char>, s: StreakView, seconds: Seq<char>) -> Seq<char> {
    "["@ + date + "] Killstreak "@ + decimal(s.ticks.len()) + " "@ + decimal(shown_tick_u32(s.start_tick))
        + "-"@ + decimal(s.end_tick as nat) + " ["@ + seconds + " seconds]\n"@
}

/// The line of a bookmark.
pub open spec fn bookmark_line(date: Seq<char>, tick: i64) -> Seq<char> {
    "["@ + date + "] Bookmark at "@ + signed_decimal(shown_tick_i64(tick)) + "\n"@
}

/// The lines of the killstreaks, in order, the `k`-th with `seconds[k]`.
pub open spec fn killstreak_lines(date: Seq<char>, streaks: Seq<StreakView>, seconds: Seq<Seq<char>>) -> Seq<char>
    decreases streaks.len(),
{
    if streaks.len() == 0 {
        Seq::empty()
    } else {
        killstreak_lines(date, streaks.drop_last(), seconds) + killstreak_line(
            date,
            streaks.last(),
            seconds[streaks.len() - 1],
        )
    }
}

/// The lines of the bookmarks, in order.
pub open spec fn bookmark_lines(date: Seq<char>, ticks: Seq<i64>) -> Seq<char>
    decreases ticks.len(),
{
    if ticks.len() == 0 {
        Seq::empty()
    } else {
        bookmark_lines(date, ticks.drop_last()) + bookmark_line(date, ticks.last())
    }
}

/// The killstreak lines of a block are one line per killstreak, in order:
/// the `k`-th line describes the `k`-th streak with the `k`-th length.
pub proof fn lemma_one_line_per_killstreak(date: Seq<char>, streaks: Seq<StreakView>, seconds: Seq<Seq<char>>)
    ensures
        killstreak_lines(date, streaks, seconds) == Seq::new(
            streaks.len(),
            |k: int| killstreak_line(date, streaks[k], seconds[k]),
        ).flatten(),
    decreases streaks.len(),
{
    let lines = Seq::new(streaks.len(), |k: int| killstreak_line(date, streaks[k], seconds[k]));
    if streaks.len() == 0 {
        assert(lines =~= Seq::<Seq<char>>::empty());
    } else {
        let n = streaks.len() - 1;
        lemma_one_line_per_killstreak(date, streaks.drop_last(), seconds);
        let before = Seq::new(
            streaks.drop_last().len(),
            |k: int| killstreak_line(date, streaks.drop_last()[k], seconds[k]),
        );
        assert(lines =~= before.push(killstreak_line(date, streaks.last(), seconds[n])));
        before.lemma_flatten_push(killstreak_line(date, streaks.last(), seconds[n]));
    }
}

/// The bookmark lines of a block are one line per bookmark, in order.
pub proof fn lemma_one_line_per_bookmark(date: Seq<char>, ticks: Seq<i64>)
    ensures
        bookmark_lines(date, ticks) == Seq::new(ticks.len(), |j: int| bookmark_line(date, ticks[j])).flatten(),
    decreases ticks.len(),
{
    let lines = Seq::new(ticks.len(), |j: int| bookmark_line(date, ticks[j]));
    if ticks.len() == 0 {
        assert(lines =~= Seq::<Seq<char>>::empty());
    } else {
        lemma_one_line_per_bookmark(date, ticks.drop_last());
        let before = Seq::new(ticks.drop_last().len(), |j: int| bookmark_line(date, ticks.drop_last()[j]));
        assert(lines =~= before.push(bookmark_line(date, ticks.last())));
        before.lemma_flatten_push(bookmark_line(date, ticks.last()));
    }
}

impl Demo {
    /// The header of this demo's block: date, map and class.
    pub open spec fn header_spec(&self) -> Seq<char> {
        header_text(self.date@, self.map@, self.player.class@)
    }

    /// This demo's block in the events file: header line, killstreak lines,
    /// bookmark lines, and a closing `>` line.
    pub open spec fn block_spec(&self, h: Highlights, seconds: Seq<Seq<char>>) -> Seq<char> {
        header_line(self.header_spec(), self.relative_path@) + killstreak_lines(
            self.date@,
            h.killstreaks.streak_views(),
            seconds,
        ) + bookmark_lines(self.date@, h.bookmarks.ticks()) + ">\n"@
    }
}

/// A demo's block is its header line, then one line per killstreak of the
/// highlights, in order and each with its length, then one line per bookmark,
/// in order, then the closing `>` line.
pub proof fn lemma_block_lines(d: Demo, h: Highlights, seconds: Seq<Seq<char>>)
    ensures
        d.block_spec(h, seconds) == header_line(d.header_spec(), d.relative_path@) + Seq::new(
            h.killstreaks.killstreaks@.len(),
            |k: int| killstreak_line(d.date@, h.killstreaks.killstreaks@[k].streak_view(), seconds[k]),
        ).flatten() + Seq::new(
            h.bookmarks.bookmarks@.len(),
            |j: int| bookmark_line(d.date@, h.bookmarks.bookmarks@[j].tick),
        ).flatten() + ">\n"@,
{
    let streaks = h.killstreaks.streak_views();
    let ticks = h.bookmarks.ticks();
    lemma_one_line_per_killstreak(d.date@, streaks, seconds);
    lemma_one_line_per_bookmark(d.date@, ticks);
    assert(Seq::new(streaks.len(), |k: int| killstreak_line(d.date@, streaks[k], seconds[k])) =~= Seq::new(
        h.killstreaks.killstreaks@.len(),
        |k: int| killstreak_line(d.date@, h.killstreaks.killstreaks@[k].streak_view(), seconds[k]),
    ));
    assert(Seq::new(ticks.len(), |j: int| bookmark_line(d.date@, ticks[j])) =~= Seq::new(
        h.bookmarks.bookmarks@.len(),
        |j: int| bookmark_line(d.date@, h.bookmarks.bookmarks@[j].tick),
    ));
}

/// The highlights hold nothing to write.
pub open spec fn no_highlights(h: Highlights) -> bool {
    h.bookmarks.bookmarks@.len() == 0 && h.killstreaks.killstreaks@.len() == 0
}

/// What writing the highlights of the demo at `path` does to an events file:
/// nothing when there are none; the new contents otherwise.
pub open spec fn written_events(d: Demo, h: Highlights, existing: Seq<char>, seconds: Seq<Seq<char>>) -> Option<Seq<char>> {
    if no_highlights(h) {
        None
    } else {
        Some(events_contents(
            existing,
            demo_name_of_stem(path_file_stem(d.absolute_path@)->0),
            d.block_spec(h, seconds),
        ))
    }
}

/// The highlights can be written: the demo path has a file stem, and the
/// header fits its width if a block is to be written.
pub open spec fn writable(d: Demo, h: Highlights, existing: Seq<char>) -> bool {
    !no_highlights(h) ==> {
        &&& path_file_stem(d.absolute_path@) is Some
        &&& count_empty(
            kept_event_lines(existing, demo_name_of_stem(path_file_stem(d.absolute_path@)->0)),
        ) > 0 ==> utf8_len(d.header_spec()) <= HEADER_WIDTH
    }
}

/// Why the highlights of a demo cannot be written.
#[derive(Debug, Clone, Copy, PartialEq, Eq, Structural)]
pub enum WriteError {
    /// The demo path has no file stem.
    NoFileName,
    /// The header of the block is wider than `HEADER_WIDTH` bytes.
    HeaderTooLong,
}

fn push_u32(out: &mut Vec<char>, n: u32)
    ensures
        final(out)@ == old(out)@ + decimal(n as nat),
{
    push_decimal(out, n as u64);
}

impl Default for Demo {
    /// The demo of nowhere, used when a demo cannot be read: every text empty,
    /// nobody recording, no match.
    fn default() -> (r: Demo)
        ensures
            r.dir@ == Seq::<char>::empty(),
            r.absolute_path@ == Seq::<char>::empty(),
            r.relative_path@ == Seq::<char>::empty(),
            r.events_file@ == Seq::<char>::empty(),
            r.date@ == Seq::<char>::empty(),
            r.map@ == Seq::<char>::empty(),
            r.player.username@ == Seq::<char>::empty(),
            r.player.user_id == 0,
            r.player.class@ == ""@,
            r.state@.users.len() == 0,
            r.state@.deaths.len() == 0,
    {
        Demo {
            dir: String::new(),
            absolute_path: String::new(),
            relative_path: String::new(),
            player: Player::default(),
            events_file: String::new(),
            date: String::new(),
            state: MatchSummary::default(),
            map: String::new(),
        }
    }
}

impl Demo {
    /// The demo at `path` (without extension), recorded by the header's nick
    /// on the header's map, created `created_secs` seconds after the epoch.
    pub fn new(path: &str, header: DemoHeaderInfo, state: MatchSummary, created_secs: u64) -> (r: Demo)
        requires
            class_known(state@.users, user_id_for(state@.users, header.nick@)),
        ensures
            r.dir@ == demos_dir(path@),
            r.events_file@ == path_push(demos_dir(path@), "_events.txt"@),
            r.absolute_path@ == path@,
            r.relative_path@ == relative_demo_path(path@),
            r.date@ == creation_date_text(created_secs as nat),
            r.map == header.map,
            r.state@ == state@,
            r.player.username@ == header.nick@,
            r.player.user_id == user_id_for(state@.users, header.nick@),
            r.player.class@ == reported_class(state@.users, r.player.user_id),
    {
        let (dir, relative_path) = demo_dir_and_relative_path(path);
        let mut events = chars_of(dir.as_str());
        let name = chars_of("_events.txt");
        push_component(&mut events, &name);
        let player = Player::new(&state, header.nick);
        Demo {
            dir,
            absolute_path: String::from_str(path),
            relative_path,
            player,
            events_file: string_of(&events),
            date: format_creation_date(created_secs),
            state,
            map: header.map,
        }
    }

    /// The killstreaks of the recording player and the bookmarks of the
    /// events document `bookmark_json`.
    pub fn collect_highlights(&self, bookmark_json: &str) -> (r: Result<Highlights, BookmarkError>)
        requires
            kill_ticks(self.state@.deaths, self.player.user_id).len() > 0,
        ensures
            r matches Ok(h) ==> bookmarks_text_readable(bookmark_json@) && h.bookmarks.ticks()
                == text_bookmarks(bookmark_json@) && h.killstreaks.streak_views() == recorded_streaks(
                kill_ticks(self.state@.deaths, self.player.user_id),
            ),
            r is Err <==> !bookmarks_text_readable(bookmark_json@),
    {
        let bookmarks = Bookmarks::read(bookmark_json)?;
        let killstreaks = Killstreaks::new(&self.player, &self.state);
        Ok(Highlights { killstreaks, bookmarks })
    }

    /// This demo's block in the events file; `seconds[k]` is the length of
    /// the `k`-th killstreak in seconds, formatted.
    pub fn highlights_block(&self, highlights: &Highlights, seconds: &Vec<String>) -> (r: Vec<char>)
        requires
            seconds@.len() == highlights.killstreaks.killstreaks@.len(),
            utf8_len(self.header_spec()) <= HEADER_WIDTH,
        ensures
            r@ == self.block_spec(*highlights, string_views(seconds@)),
    {
        let h = self.header_chars();
        let width = match utf8_len_upto(&h, HEADER_WIDTH) {
            Some(w) => w,
            None => HEADER_WIDTH,
        };
        let mut out = h;
        let mut k: usize = width;
        let ghost start = out@;
        while k < HEADER_WIDTH
            invariant
                width <= k <= HEADER_WIDTH,
                out@ == start + spaces((k - width) as nat),
            decreases HEADER_WIDTH - k,
        {
            out.push(' ');
            assert(out@ =~= start + spaces((k + 1 - width) as nat));
            k = k + 1;
        }
        push_str(&mut out, "playdemo ");
        push_str(&mut out, self.relative_path.as_str());
        push_str(&mut out, "\n");
        assert(out@ =~= header_line(self.header_spec(), self.relative_path@));
        let ghost streaks = highlights.killstreaks.streak_views();
        let ghost secs = string_views(seconds@);
        let ghost head = out@;
        let mut i: usize = 0;
        while i < highlights.killstreaks.killstreaks.len()
            invariant
                i <= highlights.killstreaks.killstreaks@.len(),
                seconds@.len() == highlights.killstreaks.killstreaks@.len(),
                streaks == highlights.killstreaks.streak_views(),
                secs == string_views(seconds@),
                out@ == head + killstreak_lines(self.date@, streaks.take(i as int), secs),
            decreases highlights.killstreaks.killstreaks.len() - i,
        {
            let ks = &highlights.killstreaks.killstreaks[i];
            assert(streaks.take(i + 1).drop_last() =~= streaks.take(i as int));
            assert(streaks.take(i + 1).last() == ks.streak_view());
            let ghost line_start = out@;
            push_str(&mut out, "[");
            push_str(&mut out, self.date.as_str());
            push_str(&mut out, "] Killstreak ");
            push_decimal(&mut out, ks.kills.kills.len() as u64);
            push_str(&mut out, " ");
            let shown: u32 = if ks.start_tick >= 500 {
                ks.start_tick - 500
            } else {
                ks.start_tick + (u32::MAX - 499)
            };
            push_u32(&mut out, shown);
            push_str(&mut out, "-");
            push_u32(&mut out, ks.end_tick);
            push_str(&mut out, " [");
            push_str(&mut out, seconds[i].as_str());
            push_str(&mut out, " seconds]\n");
            proof {
                assert(ks.kills.ticks().len() == ks.kills.kills@.len());
                assert(secs[i as int] == seconds@[i as int]@);
                assert(out@ =~= line_start + killstreak_line(self.date@, ks.streak_view(), secs[i as int]));
            }
            i = i + 1;
        }
        assert(streaks.take(streaks.len() as int) =~= streaks);
        let ghost mid = out@;
        let ghost ticks = highlights.bookmarks.ticks();
        let mut j: usize = 0;
        while j < highlights.bookmarks.bookmarks.len()
            invariant
                j <= highlights.bookmarks.bookmarks@.len(),
                ticks == highlights.bookmarks.ticks(),
                out@ == mid + bookmark_lines(self.date@, ticks.take(j as int)),
            decreases highlights.bookmarks.bookmarks.len() - j,
        {
            let t = highlights.bookmarks.bookmarks[j].tick;
            assert(ticks.take(j + 1).drop_last() =~= ticks.take(j as int));
            assert(ticks.take(j + 1).last() == t);
            let ghost line_start = out@;
            push_str(&mut out, "[");
            push_str(&mut out, self.date.as_str());
            push_str(&mut out, "] Bookmark at ");
            let shown: i64 = if t >= i64::MIN + 500 {
                t - 500
            } else {
                (i64::MAX - 499) + (t - i64::MIN)
            };
            push_signed_decimal(&mut out, shown);
            push_str(&mut out, "\n");
            assert(out@ =~= line_start + bookmark_line(self.date@, t));
            j = j + 1;
        }
        assert(ticks.take(ticks.len() as int) =~= ticks);
        push_str(&mut out, ">\n");
        out
    }

    /// The events file after writing this demo's highlights into `existing`,
    /// or `None` when there is nothing to write.
    pub fn write_highlights(&self, highlights: &Highlights, existing: &str, seconds: &Vec<String>) -> (r: Option<String>)
        requires
            seconds@.len() == highlights.killstreaks.killstreaks@.len(),
            writable(*self, *highlights, existing@),
        ensures
            r matches Some(t) ==> written_events(*self, *highlights, existing@, string_views(seconds@))
                == Some(t@),
            r is None ==> written_events(*self, *highlights, existing@, string_views(seconds@)) is None,
    {
        match self.try_write_highlights(highlights, existing, seconds) {
            Ok(r) => r,
            Err(_) => None,
        }
    }

    /// Like `write_highlights`, but tells when the highlights cannot be
    /// written instead of requiring that they can.
    pub fn try_write_highlights(&self, highlights: &Highlights, existing: &str, seconds: &Vec<String>) -> (r: Result<Option<String>, WriteError>)
        requires
            seconds@.len() == highlights.killstreaks.killstreaks@.len(),
        ensures
            r is Ok <==> writable(*self, *highlights, existing@),
            r matches Ok(Some(t)) ==> written_events(*self, *highlights, existing@, string_views(seconds@))
                == Some(t@),
            r matches Ok(None) ==> written_events(*self, *highlights, existing@, string_views(seconds@)) is None,
            r == Err::<Option<String>, WriteError>(WriteError::NoFileName) <==> !no_highlights(*highlights)
                && path_file_stem(self.absolute_path@) is None,
    {
        if highlights.bookmarks.bookmarks.len() == 0 && highlights.killstreaks.killstreaks.len() == 0 {
            return Ok(None);
        }
        let stem = match file_stem_text(self.absolute_path.as_str()) {
            Some(s) => s,
            None => {
                return Err(WriteError::NoFileName);
            },
        };
        let name = demo_name_from_stem(stem.as_str());
        let empty_block: Vec<char> = Vec::new();
        let needs_block = self.block_needed(existing, name.as_str());
        if !needs_block {
            proof {
                assert(repeat_text(Seq::<char>::empty(), 0) == Seq::<char>::empty());
            }
            let unchanged = events_file_contents(existing, name.as_str(), &empty_block);
            return Ok(Some(unchanged));
        }
        let h = self.header_chars();
        if utf8_len_upto(&h, HEADER_WIDTH).is_none() {
            return Err(WriteError::HeaderTooLong);
        }
        let block = self.highlights_block(highlights, seconds);
        Ok(Some(events_file_contents(existing, name.as_str(), &block)))
    }

    /// The header of this demo's block: date, map and class.
    fn header_chars(&self) -> (r: Vec<char>)
        ensures
            r@ == self.header_spec(),
    {
        let mut h: Vec<char> = Vec::new();
        push_str(&mut h, "[");
        push_str(&mut h, self.date.as_str());
        push_str(&mut h, "] ");
        push_str(&mut h, self.map.as_str());
        push_str(&mut h, " ");
        push_str(&mut h, self.player.class);
        assert(h@ =~= self.header_spec());
        h
    }

    /// Whether writing into `existing` keeps some empty line, so that the
    /// block of the recording `name` is written at all.
    fn block_needed(&self, existing: &str, name: &str) -> (r: bool)
        ensures
            r == (count_empty(kept_event_lines(existing@, name@)) > 0),
    {
        let ev = chars_of(existing);
        let nv = chars_of(name);
        let lines = split_chars(&ev, '\n');
        let ghost ls = views_of(lines@);
        let mut found = false;
        let mut i: usize = 0;
        while i < lines.len()
            invariant
                i <= lines@.len(),
                ls == views_of(lines@),
                ls.len() == lines@.len(),
                found == (count_empty(kept_lines(ls.take(i as int), nv@)) > 0),
            decreases lines.len() - i,
        {
            assert(ls.take(i + 1).drop_last() =~= ls.take(i as int));
            assert(ls.take(i + 1).last() == lines@[i as int]@);
            let mention = find_seq(&lines[i], &nv).is_some();
            if !mention && lines[i].len() == 0 {
                found = true;
            }
            proof {
                let kp = kept_lines(ls.take(i as int), nv@);
                if !mention {
                    assert(kept_lines(ls.take(i + 1), nv@).drop_last() =~= kp);
                }
            }
            i = i + 1;
        }
        assert(ls.take(ls.len() as int) =~= ls);
        found
    }
}

} // verus!
