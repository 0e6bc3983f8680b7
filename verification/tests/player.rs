use rust_prec::matchdata::{MatchSummary, PlayerClass, UserRecord};
use rust_prec::player::{main_class, string_from_class, Player};

fn user(id: u16, name: &str, spawns: [u16; 10]) -> UserRecord {
    UserRecord { user_id: id, name: name.to_string(), class_spawns: spawns }
}

#[test]
fn player_found_by_name_with_main_class() {
    let state = MatchSummary {
        users: vec![
            user(2, "other", [0, 5, 0, 0, 0, 0, 0, 0, 0, 0]),
            user(7, "me", [0, 1, 4, 0, 0, 4, 0, 0, 0, 2]),
        ],
        deaths: vec![],
    };
    let p = Player::new(&state, "me".to_string());
    assert_eq!(p.user_id, 7);
    assert_eq!(p.class, "sniper");
    assert_eq!(p.username, "me");
}

#[test]
fn unknown_player_has_id_zero_and_class_other() {
    let state = MatchSummary { users: vec![user(2, "other", [0, 5, 0, 0, 0, 0, 0, 0, 0, 0])], deaths: vec![] };
    let p = Player::new(&state, "me".to_string());
    assert_eq!(p.user_id, 0);
    assert_eq!(p.class, "other");
}

#[test]
fn first_user_of_a_name_wins() {
    let state = MatchSummary {
        users: vec![
            user(4, "twin", [0, 0, 0, 0, 0, 0, 0, 9, 0, 0]),
            user(5, "twin", [0, 0, 0, 0, 0, 0, 0, 0, 9, 0]),
        ],
        deaths: vec![],
    };
    let p = Player::new(&state, "twin".to_string());
    assert_eq!(p.user_id, 4);
    assert_eq!(p.class, "pyro");
}

#[test]
fn main_class_prefers_lowest_number_on_ties() {
    assert_eq!(main_class(&[0, 0, 3, 3, 0, 0, 0, 0, 0, 0]), Some(2));
    assert_eq!(main_class(&[1, 0, 0, 0, 0, 0, 0, 0, 0, 2]), Some(9));
    assert_eq!(main_class(&[0; 10]), None);
}

#[test]
fn class_names() {
    assert_eq!(string_from_class(PlayerClass::Scout), "scout");
    assert_eq!(string_from_class(PlayerClass::Demoman), "demoman");
    assert_eq!(string_from_class(PlayerClass::Engineer), "engineer");
    assert_eq!(string_from_class(PlayerClass::Other), "other");
}
