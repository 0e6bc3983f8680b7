use rust_prec::record::{date_folder_of, highlight_demo_path, InvalidDemoPath, RecordPlan};

#[test]
fn recordings_are_filed_by_year_and_month() {
    let p = RecordPlan::new("/tf/demos/2023-11-05_22-11-34").unwrap();
    assert_eq!(p.name, "2023-11-05_22-11-34");
    assert_eq!(p.base_dir, "/tf/demos");
    assert_eq!(p.header_file, "/tf/demos/2023-11-05_22-11-34.dem");
    assert_eq!(p.target_dir, "/tf/demos/2023/2023-11");
}

#[test]
fn files_of_the_recording_move_with_the_map_in_their_name() {
    let p = RecordPlan::new("/tf/demos/2023-11-05_22-11-34").unwrap();
    assert!(p.is_recording_file("2023-11-05_22-11-34.dem"));
    assert!(p.is_recording_file("2023-11-05_22-11-34.json"));
    assert!(!p.is_recording_file("2023-11-05_22-11-3.dem"));
    assert_eq!(
        p.moved_path("/tf/demos/2023-11-05_22-11-34.dem", "pl_upward_f10"),
        "/tf/demos/2023/2023-11/2023-11-05_22-11-34-pl_upward_f10.dem"
    );
    assert_eq!(
        p.moved_path("/tf/demos/2023-11-05_22-11-34", "koth"),
        "/tf/demos/2023/2023-11/2023-11-05_22-11-34-koth."
    );
    assert_eq!(p.highlight_path("koth"), "/tf/demos/2023/2023-11/2023-11-05_22-11-34-koth");
}

#[test]
fn paths_that_cannot_be_filed() {
    assert_eq!(RecordPlan::new("/tf/demos/nodate").unwrap_err(), InvalidDemoPath);
    assert_eq!(RecordPlan::new("/").unwrap_err(), InvalidDemoPath);
    assert_eq!(RecordPlan::new("/tf/demos/..").unwrap_err(), InvalidDemoPath);
    assert!(RecordPlan::new("x-y").is_ok());
}

#[test]
fn date_folders() {
    assert_eq!(date_folder_of("2024-08-23_22-40-25"), Some("2024/2024-08".to_string()));
    assert_eq!(date_folder_of("a-"), Some("a/a-".to_string()));
    assert_eq!(date_folder_of("none"), None);
}

#[test]
fn dem_extensions_are_trimmed() {
    assert_eq!(highlight_demo_path("/d/x-map.dem"), "/d/x-map");
    assert_eq!(highlight_demo_path("/d/x.dem.dem"), "/d/x");
    assert_eq!(highlight_demo_path("/d/x.demo"), "/d/x.demo");
}

#[test]
fn only_names_without_a_date_are_refused() {
    assert!(RecordPlan::new("/tf/demos/demo").is_err());
    assert!(RecordPlan::new("/").is_err());
    assert!(RecordPlan::new("/tf/demos/..").is_err());
    let p = RecordPlan::new("2024-08-23_22-40-25").unwrap();
    assert_eq!(p.base_dir, "");
    assert_eq!(p.target_dir, "2024/2024-08");
    assert!(RecordPlan::new("/tf/demos/2024-08-23_22-40-25/").is_ok());
}
