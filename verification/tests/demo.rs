use rust_prec::bookmark::{Bookmark, Bookmarks};
use rust_prec::demo::{demo_name_from_stem, events_file_contents, format_creation_date, Demo, Highlights, WriteError};
use rust_prec::demofile::DemoHeaderInfo;
use rust_prec::killstreak::{Kill, Kills, Killstreaks};
use rust_prec::matchdata::{DeathRecord, MatchSummary, UserRecord};
use std::path::PathBuf;

const PATH: &str = "/home/deity/.steam/steam/steamapps/common/Team Fortress 2/tf/demos/2024/2024-08/2024-08-23_22-40-25-cp_process_f12";

fn state() -> MatchSummary {
    let mut spawns = [0u16; 10];
    spawns[3] = 4;
    MatchSummary {
        users: vec![UserRecord { user_id: 9, name: "deity".to_string(), class_spawns: spawns }],
        deaths: vec![DeathRecord { killer: 9, victim: 2, tick: 700 }],
    }
}

fn demo(path: &str, map: &str, secs: u64) -> Demo {
    let header = DemoHeaderInfo { nick: "deity".to_string(), map: map.to_string() };
    Demo::new(path, header, state(), secs)
}

/// The Gregorian date of `seconds` after the epoch, by the days-to-civil
/// algorithm of era arithmetic.
fn reference_date(seconds: u64) -> String {
    let z = (seconds / 86400) as i64 + 719468;
    let era = z.div_euclid(146097);
    let doe = z - era * 146097;
    let yoe = (doe - doe / 1460 + doe / 36524 - doe / 146096) / 365;
    let y = yoe + era * 400;
    let doy = doe - (365 * yoe + yoe / 4 - yoe / 100);
    let mp = (5 * doy + 2) / 153;
    let d = doy - (153 * mp + 2) / 5 + 1;
    let m = if mp < 10 { mp + 3 } else { mp - 9 };
    let y = if m <= 2 { y + 1 } else { y };
    format!("{:04}-{:02}-{:02}", y, m, d)
}

#[test]
fn creation_dates() {
    assert_eq!(format_creation_date(0), "1970-01-01");
    assert_eq!(format_creation_date(1699222294), "2023-11-05");
    assert_eq!(format_creation_date(1724452825), "2024-08-23");
    assert_eq!(format_creation_date(86400 * 364), "1970-12-31");
    assert_eq!(format_creation_date(86400 * 365), "1971-01-01");
    assert_eq!(format_creation_date(86400 * 400), "1971-02-05");
    assert_eq!(format_creation_date(951782400), "2000-02-29");
    assert_eq!(format_creation_date(951868800), "2000-03-01");
    assert_eq!(format_creation_date(4102444800), "2100-01-01");
    for s in [1u64, 86399, 86400, 31535999, 31536000, 2_000_000_000, 12_622_780_800, u64::MAX] {
        assert_eq!(format_creation_date(s), reference_date(s));
    }
}

#[test]
fn demo_paths() {
    let d = demo(PATH, "cp_process_f12", 0);
    assert_eq!(d.dir, "/home/deity/.steam/steam/steamapps/common/Team Fortress 2/tf/demos");
    assert_eq!(d.events_file, "/home/deity/.steam/steam/steamapps/common/Team Fortress 2/tf/demos/_events.txt");
    assert_eq!(d.relative_path, "demos/2024/2024-08/2024-08-23_22-40-25-cp_process_f12");
    assert_eq!(d.absolute_path, PATH);
    assert_eq!(d.map, "cp_process_f12");
    assert_eq!(d.player.class, "soldier");
    assert_eq!(d.player.user_id, 9);
    assert_eq!(d.date, "1970-01-01");
}

/// Folder and relative path as the original builds them with `PathBuf`.
fn reference_paths(path: &str) -> (PathBuf, PathBuf) {
    let mut dir = PathBuf::from("/");
    for part in path.split("/") {
        if part == "demos" {
            dir.push(&part);
            break;
        }
        dir.push(&part);
    }
    let mut rel_path = PathBuf::new();
    let mut dem = false;
    for part in path.split("/") {
        if part == "demos" || dem {
            dem = true;
            rel_path.push(&part);
        }
    }
    (dir, rel_path)
}

#[test]
fn demo_paths_agree_with_pathbuf() {
    for p in [PATH, "/a//demos/b", "relative/x", "/no/folder/here", "/x/demos/", "/demos/demos/y", "", "/", "a/./demos/../b"] {
        let d = demo(p, "m", 0);
        let (dir, rel) = reference_paths(p);
        assert_eq!(PathBuf::from(&d.dir), dir, "{}", p);
        assert_eq!(d.dir, dir.to_str().unwrap(), "{}", p);
        assert_eq!(d.relative_path, rel.to_str().unwrap(), "{}", p);
        assert_eq!(d.events_file, dir.join("_events.txt").to_str().unwrap(), "{}", p);
    }
}

#[test]
fn demo_names() {
    assert_eq!(demo_name_from_stem("2024-08-23_22-40-25-cp_process_f12"), "2024-08-23_22-40-25");
    assert_eq!(demo_name_from_stem("nodash"), "");
    assert_eq!(demo_name_from_stem("a-b"), "a");
}

fn highlights() -> Highlights {
    let kills = Kills { kills: [1000u32, 1200, 1500, 2000, 2300, 9000].iter().map(|t| Kill { tick: *t }).collect() };
    Highlights {
        killstreaks: Killstreaks::from_kills(&kills),
        bookmarks: Bookmarks { bookmarks: vec![Bookmark { tick: 41689 }, Bookmark { tick: 100 }] },
    }
}

/// The events file as the original writes it.
fn reference_write(d: &Demo, h: &Highlights, contents: &str, seconds: &[String]) -> String {
    let mut lines: Vec<&str> = contents.split('\n').collect();
    let abs = PathBuf::from(&d.absolute_path);
    let parts: Vec<&str> = abs.file_stem().unwrap().to_str().unwrap().split('-').collect();
    let demo_name = parts[..parts.len() - 1].join("-");
    lines.retain(|line| !line.contains(&demo_name));
    let mut out = lines.join("\n");
    for line in lines {
        if line.is_empty() {
            let header = format!("[{}] {} {}", d.date, d.map, d.player.class);
            let header = format!("{}{}playdemo {}\n", header, " ".repeat(65 - header.len()), d.relative_path);
            out.push_str(&header);
            for (k, killstreak) in h.killstreaks.killstreaks.iter().enumerate() {
                out.push_str(&format!(
                    "[{}] Killstreak {} {}-{} [{} seconds]\n",
                    d.date,
                    killstreak.kills.kills.len(),
                    killstreak.start_tick.wrapping_sub(500),
                    killstreak.end_tick,
                    seconds[k]
                ));
            }
            for bookmark in &h.bookmarks.bookmarks {
                out.push_str(&format!("[{}] Bookmark at {}\n", d.date, bookmark.tick.wrapping_sub(500)));
            }
            out.push_str(">\n");
        }
    }
    out
}

#[test]
fn events_file_block() {
    let d = demo(PATH, "cp_process_f12", 1724452825);
    let h = highlights();
    let seconds = vec!["19.50".to_string()];
    let out = d.write_highlights(&h, ">\n", &seconds).unwrap();
    let date = reference_date(1724452825);
    let header = format!("[{}] cp_process_f12 soldier", date);
    let expected = format!(
        ">\n{}{}playdemo demos/2024/2024-08/2024-08-23_22-40-25-cp_process_f12\n[{d}] Killstreak 5 500-2300 [19.50 seconds]\n[{d}] Bookmark at 41189\n[{d}] Bookmark at -400\n>\n",
        header,
        " ".repeat(65 - header.len()),
        d = date
    );
    assert_eq!(out, expected);
    assert_eq!(out, reference_write(&d, &h, ">\n", &seconds));
}

#[test]
fn old_lines_of_the_recording_are_replaced() {
    let d = demo(PATH, "cp_process_f12", 1724452825);
    let h = highlights();
    let seconds = vec!["19.50".to_string()];
    let existing = ">\n[2024/08/23 22:48] Bookmark (\"2024-08-23_22-40-25\" at 20000)\nkept line\n\n>\n";
    let out = d.write_highlights(&h, existing, &seconds).unwrap();
    assert_eq!(out, reference_write(&d, &h, existing, &seconds));
    assert!(out.starts_with(">\nkept line\n\n>\n"));
    assert_eq!(out.matches("playdemo").count(), 2);
}

#[test]
fn nothing_to_write_without_highlights() {
    let d = demo(PATH, "cp_process_f12", 0);
    let h = Highlights { killstreaks: Killstreaks { killstreaks: vec![] }, bookmarks: Bookmarks { bookmarks: vec![] } };
    assert_eq!(d.write_highlights(&h, ">\n", &vec![]), None);
}

#[test]
fn small_start_ticks_wrap_around() {
    let d = demo(PATH, "m", 0);
    let kills = Kills { kills: [10u32, 20, 30, 40, 9000].iter().map(|t| Kill { tick: *t }).collect() };
    let h = Highlights { killstreaks: Killstreaks::from_kills(&kills), bookmarks: Bookmarks { bookmarks: vec![Bookmark { tick: i64::MIN }] } };
    let seconds = vec!["0.45".to_string()];
    let out = d.write_highlights(&h, "", &seconds).unwrap();
    assert!(out.contains(" Killstreak 4 4294966806-40 [0.45 seconds]\n"));
    assert!(out.contains(&format!(" Bookmark at {}\n", i64::MIN.wrapping_sub(500))));
    assert_eq!(out, reference_write(&d, &h, "", &seconds));
}

#[test]
fn headers_wider_than_the_column_cannot_be_written() {
    let long_map = "m".repeat(60);
    let d = demo(PATH, &long_map, 0);
    let h = highlights();
    let seconds = vec!["1.00".to_string()];
    assert_eq!(d.try_write_highlights(&h, ">\n", &seconds), Err(WriteError::HeaderTooLong));
    assert_eq!(d.try_write_highlights(&h, ">", &seconds), Ok(Some(">".to_string())));
    let nameless = demo("/", "m", 0);
    assert_eq!(nameless.try_write_highlights(&h, ">\n", &seconds), Err(WriteError::NoFileName));
}

#[test]
fn header_width_counts_bytes() {
    let map = "é".repeat(20);
    let d = demo(PATH, &map, 0);
    let h = highlights();
    let seconds = vec!["1.00".to_string()];
    let out = d.write_highlights(&h, "\n", &seconds).unwrap();
    assert_eq!(out, reference_write(&d, &h, "\n", &seconds));
}

#[test]
fn events_contents_repeat_the_block_per_empty_line() {
    let block: Vec<char> = "B\n".chars().collect();
    assert_eq!(events_file_contents("a\n\nx-name\n", "name", &block), "a\n\nB\nB\n");
    assert_eq!(events_file_contents("", "n", &block), "B\n");
    assert_eq!(events_file_contents("abc", "", &block), "");
}

#[test]
fn highlights_of_a_demo() {
    let d = demo(PATH, "m", 0);
    let h = d.collect_highlights(r#"{"events": [{"name": "Bookmark", "tick": 800}]}"#).unwrap();
    assert_eq!(h.bookmarks.bookmarks.len(), 1);
    assert_eq!(h.bookmarks.bookmarks[0].tick, 800);
    assert!(h.killstreaks.killstreaks.is_empty());
    assert!(d.collect_highlights("nope").is_err());
}

#[test]
fn default_demo_is_empty() {
    let d = Demo::default();
    assert_eq!(d.dir, "");
    assert_eq!(d.player.user_id, 0);
    assert!(d.state.users.is_empty());
}

#[test]
fn readme_events_block() {
    let path = "/home/deity/.steam/steam/steamapps/common/Team Fortress 2/tf/demos/2023/2023-11/2023-11-05_22-11-34-pl_upward_f10";
    let mut spawns = [0u16; 10];
    spawns[2] = 3;
    let state = MatchSummary {
        users: vec![UserRecord { user_id: 4, name: "deity".to_string(), class_spawns: spawns }],
        deaths: vec![],
    };
    let header = DemoHeaderInfo { nick: "deity".to_string(), map: "pl_upward_f10".to_string() };
    let d = Demo::new(path, header, state, 1699222294);
    let kills = Kills { kills: [39190u32, 39500, 39900, 40200, 40589, 50000].iter().map(|t| Kill { tick: *t }).collect() };
    let h = Highlights {
        killstreaks: Killstreaks::from_kills(&kills),
        bookmarks: Bookmarks { bookmarks: vec![Bookmark { tick: 41689 }] },
    };
    let seconds = vec![format!("{:.2}", (40589.0 - 38690.0) * 0.015f64)];
    assert_eq!(seconds[0], "28.48");
    let out = d.write_highlights(&h, ">\n", &seconds).unwrap();
    let expected = ">\n[2023-11-05] pl_upward_f10 sniper                                playdemo demos/2023/2023-11/2023-11-05_22-11-34-pl_upward_f10\n[2023-11-05] Killstreak 5 38690-40589 [28.48 seconds]\n[2023-11-05] Bookmark at 41189\n>\n";
    assert_eq!(out, expected);
}
