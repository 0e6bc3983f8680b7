//! The recording player: found by name among the match's users, with the
//! class they spawned as most often.
use vstd::prelude::*;
use crate::matchdata::{class_from_index, class_of_index, MatchSummary, PlayerClass, UserView};

verus! {

/// The recording player of a demo.
#[derive(Debug)]
pub struct Player {
    pub username: String,
    pub user_id: u16,
    pub class: &'static str,
}

/// The lower-case name the events file uses for a class.
pub open spec fn class_name(c: PlayerClass) -> Seq<char> {
    match c {
        PlayerClass::Scout => "scout"@,
        PlayerClass::Soldier => "soldier"@,
        PlayerClass::Pyro => "pyro"@,
        PlayerClass::Demoman => "demoman"@,
        PlayerClass::Heavy => "heavy"@,
        PlayerClass::Engineer => "engineer"@,
        PlayerClass::Medic => "medic"@,
        PlayerClass::Sniper => "sniper"@,
        PlayerClass::Spy => "spy"@,
        PlayerClass::Other => "other"@,
    }
}

/// Index of the first of the first `n` users whose name is `name`.
pub open spec fn first_named(users: Seq<UserView>, name: Seq<char>, n: int) -> Option<int>
    decreases n,
{
    if n <= 0 {
        None
    } else {
        match first_named(users, name, n - 1) {
            Some(k) => Some(k),
            None => if users[n - 1].name == name { Some(n - 1) } else { None },
        }
    }
}

/// Index of the first of the first `n` users whose user id is `id`.
pub open spec fn first_with_id(users: Seq<UserView>, id: u16, n: int) -> Option<int>
    decreases n,
{
    if n <= 0 {
        None
    } else {
        match first_with_id(users, id, n - 1) {
            Some(k) => Some(k),
            None => if users[n - 1].user_id == id { Some(n - 1) } else { None },
        }
    }
}

/// The user id of the first user named `name`, or 0 when nobody has that name.
pub open spec fn user_id_for(users: Seq<UserView>, name: Seq<char>) -> u16 {
    match first_named(users, name, users.len() as int) {
        Some(k) => users[k].user_id,
        None => 0,
    }
}

/// `k` is the class number with the most spawns; among equal counts the lowest
/// number wins, and the count is positive.
pub open spec fn is_main_class(counts: Seq<u16>, k: int) -> bool {
    &&& 0 <= k < counts.len()
    &&& counts[k] > 0
    &&& forall|j: int| 0 <= j < counts.len() ==> counts[j] <= counts[k]
    &&& forall|j: int| 0 <= j < k ==> counts[j] < counts[k]
}

/// Some class was spawned as at least once.
pub open spec fn spawned_at_all(counts: Seq<u16>) -> bool {
    exists|j: int| 0 <= j < counts.len() && counts[j] > 0
}

/// The class that the player with user id `id` is reported as: the main class
/// of the first user with that id, or `Other` when no user has it.
pub open spec fn reported_class(users: Seq<UserView>, id: u16) -> Seq<char> {
    match first_with_id(users, id, users.len() as int) {
        Some(k) => class_name(
            class_of_index(choose|c: int| is_main_class(users[k].class_spawns, c)),
        ),
        None => "other"@,
    }
}

/// The player with user id `id` exists only if they spawned as some class:
/// reporting their class needs it.
pub open spec fn class_known(users: Seq<UserView>, id: u16) -> bool {
    match first_with_id(users, id, users.len() as int) {
        Some(k) => spawned_at_all(users[k].class_spawns),
        None => true,
    }
}

/// Each class is reported by its own lower-case name, found by the class's
/// number in the game: 1 scout, 2 sniper, 3 soldier, 4 demoman, 5 medic,
/// 6 heavy, 7 pyro, 8 spy, 9 engineer, and any other number "other"; no two
/// classes share a name.
pub proof fn lemma_class_names()
    ensures
        class_name(class_of_index(1)) == "scout"@,
        class_name(class_of_index(2)) == "sniper"@,
        class_name(class_of_index(3)) == "soldier"@,
        class_name(class_of_index(4)) == "demoman"@,
        class_name(class_of_index(5)) == "medic"@,
        class_name(class_of_index(6)) == "heavy"@,
        class_name(class_of_index(7)) == "pyro"@,
        class_name(class_of_index(8)) == "spy"@,
        class_name(class_of_index(9)) == "engineer"@,
        forall|i: int| !(1 <= i <= 9) ==> class_name(#[trigger] class_of_index(i)) == "other"@,
        forall|a: PlayerClass, b: PlayerClass| a != b ==> class_name(a) != class_name(b),
{
    reveal_strlit("scout");
    reveal_strlit("sniper");
    reveal_strlit("soldier");
    reveal_strlit("demoman");
    reveal_strlit("medic");
    reveal_strlit("heavy");
    reveal_strlit("pyro");
    reveal_strlit("spy");
    reveal_strlit("engineer");
    reveal_strlit("other");
    assert forall|a: PlayerClass, b: PlayerClass| a != b implies class_name(a) != class_name(b) by {
        if class_name(a) == class_name(b) {
            assert(class_name(a).len() == class_name(b).len());
            assert(class_name(a)[0] == class_name(b)[0]);
            assert(class_name(a)[1] == class_name(b)[1]);
        }
    }
}

/// The name the events file uses for class `class`.
pub fn string_from_class(class: PlayerClass) -> (r: &'static str)
    ensures
        r@ == class_name(class),
{
    match class {
        PlayerClass::Scout => "scout",
        PlayerClass::Soldier => "soldier",
        PlayerClass::Pyro => "pyro",
        PlayerClass::Demoman => "demoman",
        PlayerClass::Heavy => "heavy",
        PlayerClass::Engineer => "engineer",
        PlayerClass::Medic => "medic",
        PlayerClass::Sniper => "sniper",
        PlayerClass::Spy => "spy",
        PlayerClass::Other => "other",
    }
}

/// The number of the class spawned as most often (lowest number on ties), or
/// `None` when every count is zero.
pub fn main_class(counts: &[u16; 10]) -> (r: Option<usize>)
    ensures
        r matches Some(k) ==> is_main_class(counts@, k as int),
        r is None <==> !spawned_at_all(counts@),
{
    let mut max_value: u16 = 0;
    let mut max_class: Option<usize> = None;
    let mut i: usize = 0;
    while i < 10
        invariant
            i <= 10,
            counts@.len() == 10,
            forall|j: int| 0 <= j < i ==> counts@[j] <= max_value,
            max_class is None <==> max_value == 0,
            max_class matches Some(k) ==> {
                &&& k < i
                &&& counts@[k as int] == max_value
                &&& forall|j: int| 0 <= j < k ==> counts@[j] < max_value
            },
        decreases 10 - i,
    {
        let value = counts[i];
        if value > max_value {
            max_value = value;
            max_class = Some(i);
        }
        i = i + 1;
    }
    if max_class.is_none() {
        assert forall|j: int| 0 <= j < counts@.len() implies !(counts@[j] > 0) by {}
    }
    max_class
}

/// Whether the class of the player named `username` can be reported: either
/// nobody has the user id found for that name, or that user spawned as some
/// class.
pub fn class_is_known(state: &MatchSummary, username: &str) -> (r: bool)
    ensures
        r == class_known(state@.users, user_id_for(state@.users, username@)),
{
    let mut probe = Player { username: String::from_str(username), user_id: 0, class: "" };
    probe.get_id(state);
    let id = probe.user_id;
    let ghost users = state@.users;
    let mut i: usize = 0;
    while i < state.users.len()
        invariant
            i <= state.users.len(),
            users == state@.users,
            users.len() == state.users@.len(),
            first_with_id(users, id, i as int) is None,
            id == user_id_for(users, username@),
        decreases state.users.len() - i,
    {
        assert(users[i as int] == state.users@[i as int]@);
        if state.users[i].user_id == id {
            proof {
                lemma_first_with_id_stable(users, id, i as int + 1, users.len() as int);
            }
            return main_class(&state.users[i].class_spawns).is_some();
        }
        i = i + 1;
    }
    true
}

impl Default for Player {
    /// A player of nobody: no name, user id 0, no class.
    fn default() -> (r: Player)
        ensures
            r.username@ == Seq::<char>::empty(),
            r.user_id == 0,
            r.class@ == ""@,
    {
        Player { username: String::new(), user_id: 0, class: "" }
    }
}

impl Player {
    /// Finds the recording player `username` in the match: their user id
    /// (0 when nobody has that name) and the class they played most.
    pub fn new(state: &MatchSummary, username: String) -> (r: Player)
        requires
            class_known(state@.users, user_id_for(state@.users, username@)),
        ensures
            r.username@ == username@,
            r.user_id == user_id_for(state@.users, username@),
            r.class@ == reported_class(state@.users, r.user_id),
    {
        let mut player = Player { username, user_id: 0, class: "other" };
        player.get_id(state);
        player.get_class(state);
        player
    }

    fn get_class(&mut self, state: &MatchSummary)
        requires
            class_known(state@.users, old(self).user_id),
        ensures
            final(self).username == old(self).username,
            final(self).user_id == old(self).user_id,
            final(self).class@ == reported_class(state@.users, old(self).user_id),
    {
        let ghost users = state@.users;
        let mut i: usize = 0;
        while i < state.users.len()
            invariant
                i <= state.users.len(),
                users == state@.users,
                users.len() == state.users@.len(),
                first_with_id(users, self.user_id, i as int) is None,
                self.username == old(self).username,
                self.user_id == old(self).user_id,
                class_known(users, self.user_id),
            decreases state.users.len() - i,
        {
            assert(users[i as int] == state.users@[i as int]@);
            if state.users[i].user_id == self.user_id {
                let best = main_class(&state.users[i].class_spawns);
                proof {
                    lemma_first_with_id_stable(users, self.user_id, i as int + 1, users.len() as int);
                }
                match best {
                    Some(k) => {
                        proof {
                            lemma_main_class_unique(users[i as int].class_spawns, k as int);
                        }
                        self.class = string_from_class(class_from_index(k));
                    },
                    None => {
                        proof {
                            assert(!spawned_at_all(users[i as int].class_spawns));
                        }
                        self.class = "other";
                    },
                }
                return;
            }
            i = i + 1;
        }
        self.class = string_from_class(PlayerClass::Other);
    }

    fn get_id(&mut self, state: &MatchSummary)
        ensures
            final(self).username == old(self).username,
            final(self).class == old(self).class,
            final(self).user_id == user_id_for(state@.users, old(self).username@),
    {
        let ghost users = state@.users;
        let mut i: usize = 0;
        while i < state.users.len()
            invariant
                i <= state.users.len(),
                users == state@.users,
                users.len() == state.users@.len(),
                first_named(users, self.username@, i as int) is None,
                self.username == old(self).username,
                self.class == old(self).class,
            decreases state.users.len() - i,
        {
            assert(users[i as int] == state.users@[i as int]@);
            if state.users[i].name == self.username {
                proof {
                    lemma_first_named_stable(users, self.username@, i as int + 1, users.len() as int);
                }
                self.user_id = state.users[i].user_id;
                return;
            }
            i = i + 1;
        }
        self.user_id = 0;
    }
}

proof fn lemma_first_named_stable(users: Seq<UserView>, name: Seq<char>, m: int, n: int)
    requires
        0 <= m <= n,
        first_named(users, name, m) is Some,
    ensures
        first_named(users, name, n) == first_named(users, name, m),
    decreases n - m,
{
    if n > m {
        lemma_first_named_stable(users, name, m, n - 1);
    }
}

proof fn lemma_first_with_id_stable(users: Seq<UserView>, id: u16, m: int, n: int)
    requires
        0 <= m <= n,
        first_with_id(users, id, m) is Some,
    ensures
        first_with_id(users, id, n) == first_with_id(users, id, m),
    decreases n - m,
{
    if n > m {
        lemma_first_with_id_stable(users, id, m, n - 1);
    }
}

/// The main class, when there is one, is unique.
proof fn lemma_main_class_unique(counts: Seq<u16>, k: int)
    requires
        is_main_class(counts, k),
    ensures
        (choose|c: int| is_main_class(counts, c)) == k,
{
    let c = choose|c: int| is_main_class(counts, c);
    assert(is_main_class(counts, c));
    if c < k {
        assert(counts[c] < counts[k]);
    } else if c > k {
        assert(counts[k] < counts[c]);
    }
}

} // verus!
