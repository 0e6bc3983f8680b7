//! Plain-value model of what a parsed demo tells about a match: the players
//! seen, the classes they spawned as, and every death.
use vstd::prelude::*;

verus! {

/// The playable classes, numbered as the demo format numbers them.
#[derive(Clone, Copy, Debug, PartialEq, Eq, Structural)]
pub enum PlayerClass {
    Other,
    Scout,
    Sniper,
    Soldier,
    Demoman,
    Medic,
    Heavy,
    Pyro,
    Spy,
    Engineer,
}

/// The class with the given number in the demo format (index into a spawn table).
pub open spec fn class_of_index(i: int) -> PlayerClass {
    if i == 1 {
        PlayerClass::Scout
    } else if i == 2 {
        PlayerClass::Sniper
    } else if i == 3 {
        PlayerClass::Soldier
    } else if i == 4 {
        PlayerClass::Demoman
    } else if i == 5 {
        PlayerClass::Medic
    } else if i == 6 {
        PlayerClass::Heavy
    } else if i == 7 {
        PlayerClass::Pyro
    } else if i == 8 {
        PlayerClass::Spy
    } else if i == 9 {
        PlayerClass::Engineer
    } else {
        PlayerClass::Other
    }
}

/// The class numbered `i` (numbers outside 1..=9 give `Other`).
pub fn class_from_index(i: usize) -> (c: PlayerClass)
    ensures
        c == class_of_index(i as int),
{
    match i {
        1 => PlayerClass::Scout,
        2 => PlayerClass::Sniper,
        3 => PlayerClass::Soldier,
        4 => PlayerClass::Demoman,
        5 => PlayerClass::Medic,
        6 => PlayerClass::Heavy,
        7 => PlayerClass::Pyro,
        8 => PlayerClass::Spy,
        9 => PlayerClass::Engineer,
        _ => PlayerClass::Other,
    }
}

/// One death: who killed whom, and at which demo tick.
#[derive(Clone, Copy, Debug, PartialEq, Eq, Structural)]
pub struct DeathRecord {
    pub killer: u16,
    pub victim: u16,
    pub tick: u32,
}

/// One player of the match: user id, name, and how often they spawned as each
/// class (indexed by class number).
#[derive(Clone, Debug)]
pub struct UserRecord {
    pub user_id: u16,
    pub name: String,
    pub class_spawns: [u16; 10],
}

/// The match as the highlight logic reads it: players in increasing user-id
/// order, and deaths in the order they happened in the demo.
#[derive(Clone, Debug)]
pub struct MatchSummary {
    pub users: Vec<UserRecord>,
    pub deaths: Vec<DeathRecord>,
}

/// What a user record holds, as mathematical values.
pub struct UserView {
    pub user_id: u16,
    pub name: Seq<char>,
    pub class_spawns: Seq<u16>,
}

/// What a match summary holds, as mathematical values.
pub struct MatchView {
    pub users: Seq<UserView>,
    pub deaths: Seq<DeathRecord>,
}

impl View for UserRecord {
    type V = UserView;

    open spec fn view(&self) -> UserView {
        UserView { user_id: self.user_id, name: self.name@, class_spawns: self.class_spawns@ }
    }
}

impl View for MatchSummary {
    type V = MatchView;

    open spec fn view(&self) -> MatchView {
        MatchView { users: self.users@.map_values(|u: UserRecord| u@), deaths: self.deaths@ }
    }
}

impl Default for MatchSummary {
    /// A match with no users and no deaths.
    fn default() -> (r: MatchSummary)
        ensures
            r.users@.len() == 0,
            r.deaths@.len() == 0,
    {
        MatchSummary { users: Vec::new(), deaths: Vec::new() }
    }
}

} // verus!
