use rust_prec::demofile::{header_map, parse_demo, HeaderError, HEADER_SIZE};
use rust_prec::launch::launch_options_with_flags;
use rust_prec::paths::{join_path, log_path, tf_path};
use rust_prec::screenshot::{newest_screenshot, png_path, ScreenshotEntry};
use rust_prec::watcher::{EndOfLog, LineCursor};
use std::path::Path;

fn header_bytes(map: &[u8]) -> Vec<u8> {
    let mut b = vec![0u8; HEADER_SIZE];
    b[..8].copy_from_slice(b"HL2DEMO\0");
    b[276..281].copy_from_slice(b"deity");
    b[536..536 + map.len()].copy_from_slice(map);
    b
}

#[test]
fn map_name_from_a_demo_header() {
    assert_eq!(header_map(&header_bytes(b"cp_process_f12")), Ok("cp_process_f12".to_string()));
    assert_eq!(header_map(&header_bytes(b"")), Ok(String::new()));
}

#[test]
fn header_text_must_be_utf8() {
    assert_eq!(header_map(&header_bytes(&[0xff, 0x41])), Err(HeaderError));
    let mut b = header_bytes(b"koth");
    b[900] = 0xc3;
    assert_eq!(header_map(&b), Err(HeaderError));
    let mut c = header_bytes(b"koth");
    c[700] = b'x';
    assert_eq!(header_map(&c), Ok(format!("koth{}x", "\0".repeat(700 - 536 - 4))));
}

#[test]
fn garbage_is_not_a_demo() {
    assert!(parse_demo(&vec![1, 2, 3]).is_err());
    assert!(parse_demo(&vec![]).is_err());
}

#[test]
fn steam_paths() {
    assert_eq!(tf_path("/home/u/.steam/steam"), "/home/u/.steam/steam/steamapps/common/Team Fortress 2/tf");
    assert_eq!(log_path("/s/"), "/s/steamapps/common/Team Fortress 2/tf/console.log");
    assert_eq!(join_path("/tf", "/abs"), "/abs");
    for (a, b) in [("/tf", "demos/x"), ("", "a"), ("/", "b"), ("x/", "y"), ("p", ""), ("q", "/r")] {
        assert_eq!(join_path(a, b), Path::new(a).join(b).to_str().unwrap());
    }
}

fn entry(name: &str, secs: u64) -> ScreenshotEntry {
    ScreenshotEntry { file_name: name.to_string(), modified_secs: secs }
}

#[test]
fn newest_tga_screenshot() {
    let entries = vec![entry("a.tga", 5), entry("b.png", 9), entry("c.tga", 7), entry("d.tga", 7)];
    assert_eq!(newest_screenshot(&entries), Some(2));
    assert_eq!(newest_screenshot(&vec![entry("a.png", 5), entry("b.tga", 0)]), None);
    assert_eq!(newest_screenshot(&vec![]), None);
}

#[test]
fn png_copies() {
    assert_eq!(png_path("/tf/screenshots/cp_0001.tga"), "/tf/screenshots/cp_0001.png");
    assert_eq!(png_path("/tf/screenshots/noext"), "/tf/screenshots/noext.png");
}

#[test]
fn log_cursor() {
    let mut c = LineCursor::new(42, 100);
    c.advance(20);
    assert_eq!(c, LineCursor { ino: 42, pos: 120 });
    assert_eq!(c.at_end(42), EndOfLog::Wait);
    assert_eq!(c.at_end(43), EndOfLog::Rotated);
    let mut d = LineCursor::new(1, u64::MAX - 1);
    d.advance(5);
    assert_eq!(d.pos, 3);
}

#[test]
fn launch_options() {
    assert_eq!(
        launch_options_with_flags("-novid"),
        Some("-novid -condebug -conclearlog -usercon".to_string())
    );
    assert_eq!(launch_options_with_flags("-novid -condebug -conclearlog -usercon -high"), None);
    assert_eq!(launch_options_with_flags(""), Some(" -condebug -conclearlog -usercon".to_string()));
}

#[test]
fn launch_options_are_added_once() {
    let once = launch_options_with_flags("-novid -high").unwrap();
    assert_eq!(launch_options_with_flags(&once), None);
}

/// The last named piece of a path, as the library's contract reads
/// `Path::file_name`.
fn stated_file_name(p: &str) -> Option<String> {
    let parts: Vec<&str> = p.split('/').filter(|s| !s.is_empty() && *s != ".").collect();
    match parts.last() {
        Some(last) if *last != ".." => Some(last.to_string()),
        _ => None,
    }
}

fn stated_stem_and_extension(p: &str) -> (Option<String>, Option<String>) {
    match stated_file_name(p) {
        None => (None, None),
        Some(name) => match name.rfind('.') {
            Some(i) if i > 0 => (Some(name[..i].to_string()), Some(name[i + 1..].to_string())),
            _ => (Some(name), None),
        },
    }
}

#[test]
fn path_names_as_stated() {
    let paths = [
        "", "/", "//", ".", "..", "./", "a", "a/", "a/.", "a/./", "./a", "a/..", "a/b..", "/x/y.dem",
        "/x/y.tar.gz", "/x/.bashrc", "/x/a.", "/x/..a", "//a//b//", "a/./.", "./.", "x/.../", "/tf/demos/2024-08-23_22-40-25",
    ];
    for p in paths {
        let path = Path::new(p);
        let name = path.file_name().map(|s| s.to_str().unwrap().to_string());
        let stem = path.file_stem().map(|s| s.to_str().unwrap().to_string());
        let ext = path.extension().map(|s| s.to_str().unwrap().to_string());
        assert_eq!(name, stated_file_name(p), "{:?}", p);
        assert_eq!((stem, ext), stated_stem_and_extension(p), "{:?}", p);
    }
}

#[test]
fn png_copies_of_odd_paths() {
    assert_eq!(png_path("/"), "/");
    assert_eq!(png_path("/tf/screenshots/.."), "/tf/screenshots/..");
    assert_eq!(Path::new(&png_path("/tf/shot.tga/")).extension().unwrap(), "png");
    assert_eq!(png_path("/tf/.hidden"), "/tf/.hidden.png");
}
