use rust_prec::killstreak::{Kill, Kills, Killstreaks, KILL_INTERVAL_TICKS};
use rust_prec::matchdata::{DeathRecord, MatchSummary, UserRecord};
use rust_prec::player::Player;

fn kills(ticks: &[u32]) -> Kills {
    Kills { kills: ticks.iter().map(|t| Kill { tick: *t }).collect() }
}

fn spans(k: &Killstreaks) -> Vec<(usize, u32, u32)> {
    k.killstreaks.iter().map(|s| (s.kills.kills.len(), s.start_tick, s.end_tick)).collect()
}

#[test]
fn a_run_of_four_closed_by_a_gap_is_a_streak() {
    let k = Killstreaks::from_kills(&kills(&[0, 100, 200, 300, 2000]));
    assert_eq!(spans(&k), vec![(4, 0, 300)]);
    let ticks: Vec<u32> = k.killstreaks[0].kills.kills.iter().map(|k| k.tick).collect();
    assert_eq!(ticks, vec![0, 100, 200, 300]);
}

#[test]
fn the_last_run_is_never_recorded() {
    assert!(Killstreaks::from_kills(&kills(&[0, 100, 200, 300])).killstreaks.is_empty());
    assert!(Killstreaks::from_kills(&kills(&[5])).killstreaks.is_empty());
}

#[test]
fn runs_of_three_are_not_streaks() {
    let k = Killstreaks::from_kills(&kills(&[0, 10, 20, 5000, 5010, 5020, 5030, 5040, 9000]));
    assert_eq!(spans(&k), vec![(5, 5000, 5040)]);
}

#[test]
fn a_gap_of_exactly_the_interval_continues_the_streak() {
    let k = Killstreaks::from_kills(&kills(&[0, 1000, 2000, 3000, 4001]));
    assert_eq!(spans(&k), vec![(4, 0, 3000)]);
    let k = Killstreaks::from_kills(&kills(&[0, 1001, 2002, 3003, 4004, 9999]));
    assert!(k.killstreaks.is_empty());
}

#[test]
fn several_streaks_in_order() {
    let k = Killstreaks::from_kills(&kills(&[
        10, 20, 30, 40, 50, 3000, 3001, 3002, 3003, 6000, 7000, 8000, 9000, 20000,
    ]));
    assert_eq!(spans(&k), vec![(5, 10, 50), (4, 3000, 3003), (4, 6000, 9000)]);
}

#[test]
fn earlier_ticks_continue_a_streak() {
    let k = Killstreaks::from_kills(&kills(&[500, 400, 300, 200, 5000]));
    assert_eq!(spans(&k), vec![(4, 500, 200)]);
}

#[test]
fn interval_in_ticks_matches_fifteen_seconds_of_ticks() {
    const KILL_INTERVAL: f64 = 15.0;
    const TICK: f64 = 0.015;
    let samples: Vec<(u32, u32)> = (0..3000u32)
        .map(|d| (1_000_000, 1_000_000 + d))
        .chain((0..3000u32).map(|d| (1_000_000 + d, 1_000_000)))
        .chain([(0, u32::MAX), (u32::MAX, 0), (4_000_000_000, 4_000_001_000), (7, 1008)])
        .collect();
    for (last, cur) in samples {
        let by_float = (f64::from(cur) - f64::from(last)) * TICK <= KILL_INTERVAL;
        let by_ticks = (cur as i64) - (last as i64) <= KILL_INTERVAL_TICKS as i64;
        assert_eq!(by_float, by_ticks, "{} {}", last, cur);
    }
}

fn user(id: u16, name: &str) -> UserRecord {
    let mut class_spawns = [0u16; 10];
    class_spawns[2] = 3;
    UserRecord { user_id: id, name: name.to_string(), class_spawns }
}

#[test]
fn kills_are_the_players_kills_of_others() {
    let state = MatchSummary {
        users: vec![user(3, "me"), user(4, "you")],
        deaths: vec![
            DeathRecord { killer: 3, victim: 4, tick: 10 },
            DeathRecord { killer: 4, victim: 3, tick: 20 },
            DeathRecord { killer: 3, victim: 3, tick: 30 },
            DeathRecord { killer: 3, victim: 5, tick: 40 },
        ],
    };
    let player = Player::new(&state, "me".to_string());
    let k = Kills::new(&player, &state);
    let ticks: Vec<u32> = k.kills.iter().map(|k| k.tick).collect();
    assert_eq!(ticks, vec![10, 40]);
}

#[test]
fn killstreaks_of_a_player() {
    let mut deaths = Vec::new();
    for t in [100u32, 200, 300, 400, 5000] {
        deaths.push(DeathRecord { killer: 3, victim: 4, tick: t });
        deaths.push(DeathRecord { killer: 4, victim: 3, tick: t + 1 });
    }
    let state = MatchSummary { users: vec![user(3, "me"), user(4, "you")], deaths };
    let me = Player::new(&state, "me".to_string());
    assert_eq!(spans(&Killstreaks::new(&me, &state)), vec![(4, 100, 400)]);
    let you = Player::new(&state, "you".to_string());
    assert_eq!(spans(&Killstreaks::new(&you, &state)), vec![(4, 101, 401)]);
}
