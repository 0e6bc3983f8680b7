//! Kills of the recording player and the killstreaks they form.
//!
//! Two kills belong to the same streak when the second comes at most
//! `KILL_INTERVAL_TICKS` ticks after the first: the interval is 15 seconds and a
//! tick lasts 0.015 seconds.
use vstd::prelude::*;
use crate::matchdata::{DeathRecord, MatchSummary};
use crate::player::Player;

verus! {

/// Longest gap, in ticks, between two kills of one streak (15 s of 0.015 s ticks).
pub const KILL_INTERVAL_TICKS: u32 = 1000;

/// Fewest kills that a recorded streak has.
pub const MIN_STREAK_KILLS: usize = 4;

/// One kill of the recording player, at a demo tick.
#[derive(Clone, Copy, Debug, Default)]
pub struct Kill {
    pub tick: u32,
}

/// The kills of the recording player, in demo order.
#[derive(Clone, Debug, Default)]
pub struct Kills {
    pub kills: Vec<Kill>,
}

/// A run of kills in quick succession: its kills, the tick of the first and
/// the tick of the last.
#[derive(Clone, Debug, Default)]
pub struct Killstreak {
    pub kills: Kills,
    pub start_tick: u32,
    pub end_tick: u32,
}

/// The recorded killstreaks of a demo, in order.
#[derive(Clone, Debug, Default)]
pub struct Killstreaks {
    pub killstreaks: Vec<Killstreak>,
}

/// A killstreak as mathematical values: the ticks of its kills, its first and
/// its last tick.
pub struct StreakView {
    pub ticks: Seq<u32>,
    pub start_tick: u32,
    pub end_tick: u32,
}

impl Kills {
    /// The ticks of the kills, in order.
    pub open spec fn ticks(&self) -> Seq<u32> {
        self.kills@.map_values(|k: Kill| k.tick)
    }
}

impl Killstreak {
    pub open spec fn streak_view(&self) -> StreakView {
        StreakView { ticks: self.kills.ticks(), start_tick: self.start_tick, end_tick: self.end_tick }
    }
}

impl Killstreaks {
    pub open spec fn streak_views(&self) -> Seq<StreakView> {
        self.killstreaks@.map_values(|k: Killstreak| k.streak_view())
    }
}

/// A kill at `next` follows one at `prev` closely enough to continue a streak
/// (a kill that comes earlier than the previous one always does).
pub open spec fn within_interval(prev: u32, next: u32) -> bool {
    next as int - prev as int <= KILL_INTERVAL_TICKS as int
}

/// The kill at index `i` starts a new run: the gap before it is too long.
pub open spec fn is_break(t: Seq<u32>, i: int) -> bool {
    0 < i < t.len() && !within_interval(t[i - 1], t[i])
}

/// Index of the first kill of the run that the kill at index `i` belongs to.
pub open spec fn run_start(t: Seq<u32>, i: int) -> int
    decreases i,
{
    if i <= 0 {
        0
    } else if is_break(t, i) {
        i
    } else {
        run_start(t, i - 1)
    }
}

/// The streak made of the kills at indices `s..e`.
pub open spec fn streak_of(t: Seq<u32>, s: int, e: int) -> StreakView {
    StreakView { ticks: t.subrange(s, e), start_tick: t[s], end_tick: t[e - 1] }
}

/// The streaks closed by a break at an index below `n`: every run of at least
/// `MIN_STREAK_KILLS` kills that ends before such a break, in order.
pub open spec fn closed_streaks(t: Seq<u32>, n: int) -> Seq<StreakView>
    decreases n,
{
    if n <= 1 {
        Seq::empty()
    } else {
        let prev = closed_streaks(t, n - 1);
        let b = n - 1;
        let s = run_start(t, b - 1);
        if is_break(t, b) && b - s >= MIN_STREAK_KILLS as int {
            prev.push(streak_of(t, s, b))
        } else {
            prev
        }
    }
}

/// The streaks recorded for a kill sequence. The last run is never recorded,
/// since no break closes it.
pub open spec fn recorded_streaks(t: Seq<u32>) -> Seq<StreakView> {
    closed_streaks(t, t.len() as int)
}

/// Ticks of the deaths among `deaths` that are kills by `user_id` of someone
/// else, in order.
pub open spec fn kill_ticks(deaths: Seq<DeathRecord>, user_id: u16) -> Seq<u32>
    decreases deaths.len(),
{
    if deaths.len() == 0 {
        Seq::empty()
    } else {
        let prev = kill_ticks(deaths.drop_last(), user_id);
        let d = deaths.last();
        if d.killer == user_id && d.killer != d.victim {
            prev.push(d.tick)
        } else {
            prev
        }
    }
}

/// A death is a kill by the player with user id `user_id`: they are its
/// killer and someone else its victim.
pub open spec fn kill_by(user_id: u16) -> spec_fn(DeathRecord) -> bool {
    |d: DeathRecord| d.killer == user_id && d.victim != user_id
}

/// The tick of a death.
pub open spec fn death_tick() -> spec_fn(DeathRecord) -> u32 {
    |d: DeathRecord| d.tick
}

/// Every death in which the player killed someone else gives exactly one
/// kill, in demo order, two such deaths in one tick included: the kill ticks
/// are the ticks of those deaths, and there are as many kills as such deaths.
pub proof fn lemma_one_kill_per_death(deaths: Seq<DeathRecord>, user_id: u16)
    ensures
        kill_ticks(deaths, user_id) == deaths.filter(kill_by(user_id)).map_values(death_tick()),
        kill_ticks(deaths, user_id).len() == deaths.filter(kill_by(user_id)).len(),
    decreases deaths.len(),
{
    reveal(Seq::filter);
    if deaths.len() > 0 {
        lemma_one_kill_per_death(deaths.drop_last(), user_id);
        let prev = deaths.drop_last().filter(kill_by(user_id));
        if kill_by(user_id)(deaths.last()) {
            assert(deaths.filter(kill_by(user_id)) == prev.push(deaths.last()));
            assert(prev.push(deaths.last()).map_values(death_tick()) =~= prev.map_values(death_tick()).push(
                deaths.last().tick,
            ));
        } else {
            assert(deaths.filter(kill_by(user_id)) == prev);
        }
    } else {
        assert(deaths.filter(kill_by(user_id)) == deaths);
        assert(deaths.map_values(death_tick()) =~= Seq::<u32>::empty());
    }
}

impl Kills {
    /// The kills of `player` in the match: every death whose killer is the
    /// player and whose victim is someone else, in demo order.
    pub fn new(player: &Player, state: &MatchSummary) -> (r: Kills)
        ensures
            r.ticks() == kill_ticks(state@.deaths, player.user_id),
            r.ticks() == state@.deaths.filter(kill_by(player.user_id)).map_values(death_tick()),
    {
        proof {
            lemma_one_kill_per_death(state@.deaths, player.user_id);
        }
        let mut kills: Vec<Kill> = Vec::new();
        let mut i: usize = 0;
        while i < state.deaths.len()
            invariant
                i <= state.deaths.len(),
                kills@.map_values(|k: Kill| k.tick) == kill_ticks(
                    state.deaths@.take(i as int),
                    player.user_id,
                ),
            decreases state.deaths.len() - i,
        {
            let death = state.deaths[i];
            assert(state.deaths@.take(i + 1).drop_last() =~= state.deaths@.take(i as int));
            if death.killer == player.user_id && death.killer != death.victim {
                kills.push(Kill { tick: death.tick });
            }
            assert(kills@.map_values(|k: Kill| k.tick) =~= kill_ticks(
                state.deaths@.take(i + 1),
                player.user_id,
            ));
            i = i + 1;
        }
        assert(state.deaths@.take(state.deaths.len() as int) =~= state.deaths@);
        Kills { kills }
    }
}

/// How many kills the player with user id `user_id` made in the match.
pub fn kill_count(state: &MatchSummary, user_id: u16) -> (r: usize)
    ensures
        r == kill_ticks(state@.deaths, user_id).len(),
        r == state@.deaths.filter(kill_by(user_id)).len(),
{
    proof {
        lemma_one_kill_per_death(state@.deaths, user_id);
    }
    let mut n: usize = 0;
    let mut i: usize = 0;
    while i < state.deaths.len()
        invariant
            i <= state.deaths.len(),
            n == kill_ticks(state.deaths@.take(i as int), user_id).len(),
            n <= i,
        decreases state.deaths.len() - i,
    {
        let death = state.deaths[i];
        assert(state.deaths@.take(i + 1).drop_last() =~= state.deaths@.take(i as int));
        if death.killer == user_id && death.killer != death.victim {
            n = n + 1;
        }
        i = i + 1;
    }
    assert(state.deaths@.take(state.deaths.len() as int) =~= state.deaths@);
    n
}

/// `next` continues a streak whose last kill came at `prev`.
fn continues_streak(prev: u32, next: u32) -> (r: bool)
    ensures
        r == within_interval(prev, next),
{
    next <= prev || next - prev <= KILL_INTERVAL_TICKS
}

proof fn lemma_run_start_bounds(t: Seq<u32>, i: int)
    requires
        0 <= i < t.len(),
    ensures
        0 <= run_start(t, i) <= i,
        run_start(t, i) == 0 || is_break(t, run_start(t, i)),
        forall|j: int| run_start(t, i) < j <= i ==> !is_break(t, j),
    decreases i,
{
    if i > 0 && !is_break(t, i) {
        lemma_run_start_bounds(t, i - 1);
    }
}

/// The kills at indices `s..e` form a whole run that a break closes: the run
/// starts the kill list or follows a break, has no break inside, and the kill
/// at `e` comes too late to extend it.
pub open spec fn closed_run(t: Seq<u32>, s: int, e: int) -> bool {
    &&& 0 <= s < e < t.len()
    &&& s == 0 || is_break(t, s)
    &&& forall|j: int| s < j < e ==> !is_break(t, j)
    &&& is_break(t, e)
}

proof fn lemma_closed_streak_run(t: Seq<u32>, n: int, k: int) -> (r: (int, int))
    requires
        n <= t.len(),
        0 <= k < closed_streaks(t, n).len(),
    ensures
        closed_run(t, r.0, r.1),
        r.1 - r.0 >= MIN_STREAK_KILLS as int,
        r.1 < n,
        closed_streaks(t, n)[k] == streak_of(t, r.0, r.1),
    decreases n,
{
    let b = n - 1;
    let prev = closed_streaks(t, n - 1);
    lemma_run_start_bounds(t, b - 1);
    let s = run_start(t, b - 1);
    if k < prev.len() {
        assert(closed_streaks(t, n)[k] == prev[k]);
        lemma_closed_streak_run(t, n - 1, k)
    } else {
        assert(closed_run(t, s, b));
        (s, b)
    }
}

proof fn lemma_closed_streaks_prefix(t: Seq<u32>, n: int, m: int)
    requires
        n <= m,
    ensures
        closed_streaks(t, n).len() <= closed_streaks(t, m).len(),
        forall|k: int|
            0 <= k < closed_streaks(t, n).len() ==> #[trigger] closed_streaks(t, m)[k] == closed_streaks(
                t,
                n,
            )[k],
    decreases m - n,
{
    if m > n {
        lemma_closed_streaks_prefix(t, n, m - 1);
    }
}

proof fn lemma_run_start_of_closed_run(t: Seq<u32>, s: int, i: int)
    requires
        0 <= s <= i < t.len(),
        s == 0 || is_break(t, s),
        forall|j: int| s < j <= i ==> !is_break(t, j),
    ensures
        run_start(t, i) == s,
    decreases i,
{
    if i > s {
        lemma_run_start_of_closed_run(t, s, i - 1);
    }
}

/// `v` is the streak of a whole run of at least `MIN_STREAK_KILLS` kills of `t`
/// that a break closes.
pub open spec fn is_closed_run_streak(t: Seq<u32>, v: StreakView) -> bool {
    exists|s: int, e: int|
        #![trigger streak_of(t, s, e)]
        closed_run(t, s, e) && e - s >= MIN_STREAK_KILLS as int && v == streak_of(t, s, e)
}

/// `v` is one of the streaks recorded for `t`.
pub open spec fn is_recorded(t: Seq<u32>, v: StreakView) -> bool {
    exists|k: int| 0 <= k < recorded_streaks(t).len() && #[trigger] recorded_streaks(t)[k] == v
}

/// Every recorded killstreak is a whole run of at least `MIN_STREAK_KILLS`
/// kills, each within `KILL_INTERVAL_TICKS` of the one before it, that a
/// later kill closes by coming too late; its start and end ticks are its first
/// and last kill. Conversely every such run is recorded.
pub proof fn lemma_recorded_streaks_are_closed_runs(t: Seq<u32>)
    ensures
        forall|k: int|
            0 <= k < recorded_streaks(t).len() ==> is_closed_run_streak(
                t,
                #[trigger] recorded_streaks(t)[k],
            ),
        forall|s: int, e: int|
            closed_run(t, s, e) && e - s >= MIN_STREAK_KILLS as int ==> is_recorded(
                t,
                #[trigger] streak_of(t, s, e),
            ),
{
    assert forall|k: int| 0 <= k < recorded_streaks(t).len() implies is_closed_run_streak(
        t,
        #[trigger] recorded_streaks(t)[k],
    ) by {
        let (s, e) = lemma_closed_streak_run(t, t.len() as int, k);
        assert(streak_of(t, s, e) == recorded_streaks(t)[k]);
    }
    assert forall|s: int, e: int|
        closed_run(t, s, e) && e - s >= MIN_STREAK_KILLS as int implies is_recorded(
            t,
            #[trigger] streak_of(t, s, e),
        ) by {
        lemma_run_start_of_closed_run(t, s, e - 1);
        let c = closed_streaks(t, e + 1);
        assert(c == closed_streaks(t, e).push(streak_of(t, s, e)));
        lemma_closed_streaks_prefix(t, e + 1, t.len() as int);
        assert(c[c.len() - 1] == streak_of(t, s, e));
        assert(recorded_streaks(t)[c.len() - 1] == c[c.len() - 1]);
    }
}

/// Within a recorded killstreak there are at least `MIN_STREAK_KILLS` kills,
/// each within `KILL_INTERVAL_TICKS` of the previous one, and its start and end
/// ticks are the ticks of its first and last kill.
pub proof fn lemma_recorded_streak_shape(t: Seq<u32>, k: int)
    requires
        0 <= k < recorded_streaks(t).len(),
    ensures
        recorded_streaks(t)[k].ticks.len() >= MIN_STREAK_KILLS,
        recorded_streaks(t)[k].start_tick == recorded_streaks(t)[k].ticks[0],
        recorded_streaks(t)[k].end_tick == recorded_streaks(t)[k].ticks.last(),
        forall|j: int|
            0 < j < recorded_streaks(t)[k].ticks.len() ==> within_interval(
                #[trigger] recorded_streaks(t)[k].ticks[j - 1],
                recorded_streaks(t)[k].ticks[j],
            ),
{
    let (s, e) = lemma_closed_streak_run(t, t.len() as int, k);
    let v = recorded_streaks(t)[k];
    assert forall|j: int| 0 < j < v.ticks.len() implies within_interval(
        #[trigger] v.ticks[j - 1],
        v.ticks[j],
    ) by {
        assert(!is_break(t, s + j));
    }
}

impl Killstreaks {
    /// The killstreaks of `player` in the match.
    pub fn new(player: &Player, state: &MatchSummary) -> (r: Killstreaks)
        requires
            kill_ticks(state@.deaths, player.user_id).len() > 0,
        ensures
            r.streak_views() == recorded_streaks(kill_ticks(state@.deaths, player.user_id)),
    {
        let kills = Kills::new(player, state);
        Self::from_kills(&kills)
    }

    /// Splits the kills into runs, each kill at most `KILL_INTERVAL_TICKS`
    /// after the previous one, and records each run of at least
    /// `MIN_STREAK_KILLS` kills that a longer gap closes.
    pub fn from_kills(kills: &Kills) -> (r: Killstreaks)
        requires
            kills.kills@.len() > 0,
        ensures
            r.streak_views() == recorded_streaks(kills.ticks()),
    {
        let ghost t = kills.ticks();
        let n = kills.kills.len();
        let mut killstreaks: Vec<Killstreak> = Vec::new();
        let mut streak_kills: Vec<Kill> = Vec::new();
        let mut start_tick: u32 = kills.kills[0].tick;
        let mut end_tick: u32 = 0;
        let mut last_kill: Kill = kills.kills[0];
        let mut i: usize = 1;
        while i < n
            invariant
                1 <= i <= n,
                n == kills.kills@.len(),
                t == kills.ticks(),
                t.len() == n,
                last_kill.tick == t[i - 1],
                0 <= run_start(t, i - 1) <= i - 1,
                streak_kills@.map_values(|k: Kill| k.tick) == t.subrange(run_start(t, i - 1), i - 1),
                start_tick == t[run_start(t, i - 1)],
                end_tick == (if i - 1 > run_start(t, i - 1) { t[i - 1] } else { 0 }),
                killstreaks@.map_values(|k: Killstreak| k.streak_view()) == closed_streaks(t, i as int),
            decreases n - i,
        {
            let current_kill = kills.kills[i];
            assert(current_kill.tick == t[i as int]);
            let ghost rs = run_start(t, i - 1);
            let ghost before = streak_kills@;
            assert(before.map_values(|k: Kill| k.tick).len() == before.len());
            assert(before.len() == i - 1 - rs);
            streak_kills.push(last_kill);
            assert(streak_kills@ == before.push(last_kill));
            assert forall|j: int| 0 <= j < i - rs implies streak_kills@.map_values(|k: Kill| k.tick)[j]
                == t.subrange(rs, i as int)[j] by {
                if j < i - 1 - rs {
                    assert(streak_kills@[j] == before[j]);
                    assert(before.map_values(|k: Kill| k.tick)[j] == t.subrange(rs, i - 1)[j]);
                }
            }
            assert(streak_kills@.map_values(|k: Kill| k.tick) =~= t.subrange(rs, i as int));
            if continues_streak(last_kill.tick, current_kill.tick) {
                end_tick = current_kill.tick;
                assert(run_start(t, i as int) == rs);
            } else {
                if streak_kills.len() >= MIN_STREAK_KILLS {
                    let streak = Killstreak {
                        kills: Kills { kills: streak_kills.clone() },
                        start_tick,
                        end_tick,
                    };
                    killstreaks.push(streak);
                    assert(killstreaks@.map_values(|k: Killstreak| k.streak_view()) =~= closed_streaks(
                        t,
                        i as int + 1,
                    ));
                }
                streak_kills = Vec::new();
                start_tick = current_kill.tick;
                end_tick = 0;
                assert(run_start(t, i as int) == i);
            }
            last_kill = current_kill;
            i = i + 1;
        }
        Killstreaks { killstreaks }
    }
}

} // verus!
