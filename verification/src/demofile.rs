//! Reading demo files: the map name in a demo's fixed-size header, and the
//! whole demo parsed by tf_demo_parser into a match summary.
use vstd::prelude::*;
use vstd::utf8::{decode_utf8, valid_utf8};
use crate::matchdata::{DeathRecord, MatchSummary, MatchView, UserRecord};
use crate::text::{trim_end_matches, trim_end_matches_seq, string_of};

verus! {

/// Size in bytes of a demo file's header.
pub const HEADER_SIZE: usize = 1072;

/// Offsets of the header's text fields: demo type, server, nick, map, game.
pub const DEMO_TYPE_FIELD: (usize, usize) = (0, 8);
pub const SERVER_FIELD: (usize, usize) = (16, 276);
pub const NICK_FIELD: (usize, usize) = (276, 536);
pub const MAP_FIELD: (usize, usize) = (536, 796);
pub const GAME_FIELD: (usize, usize) = (796, 1056);

/// A header text field that is not UTF-8.
#[derive(Debug, Clone, Copy, PartialEq, Eq, Structural)]
pub struct HeaderError;

/// The text of the header field at bytes `a..b`: the field decoded as UTF-8,
/// without trailing NUL characters; `None` when it is not UTF-8.
pub open spec fn header_field(bytes: Seq<u8>, a: int, b: int) -> Option<Seq<char>> {
    let raw = bytes.subrange(a, b);
    if valid_utf8(raw) {
        Some(trim_end_matches_seq(decode_utf8(raw), seq!['\0']))
    } else {
        None
    }
}

/// The map named by a demo header: read only when every text field of the
/// header is UTF-8.
pub open spec fn header_map_name(bytes: Seq<u8>) -> Option<Seq<char>> {
    if header_field(bytes, 0, 8) is Some && header_field(bytes, 16, 276) is Some && header_field(
        bytes,
        276,
        536,
    ) is Some && header_field(bytes, 536, 796) is Some && header_field(bytes, 796, 1056) is Some {
        header_field(bytes, 536, 796)
    } else {
        None
    }
}

/// The text that `bytes` encode as UTF-8 (`std::str::from_utf8`), or `None`
/// when they are not UTF-8.
#[verifier::external_body]
fn utf8_text(bytes: &[u8]) -> (r: Option<String>)
    ensures
        r is Some <==> valid_utf8(bytes@),
        r matches Some(s) ==> s@ == decode_utf8(bytes@),
{
    match std::str::from_utf8(bytes) {
        Ok(s) => Some(s.to_string()),
        Err(_) => None,
    }
}

/// The bytes at `a..b`.
fn byte_range(bytes: &Vec<u8>, a: usize, b: usize) -> (r: Vec<u8>)
    requires
        a <= b <= bytes@.len(),
    ensures
        r@ == bytes@.subrange(a as int, b as int),
{
    let mut r: Vec<u8> = Vec::new();
    let mut i = a;
    while i < b
        invariant
            a <= i <= b <= bytes@.len(),
            r@ == bytes@.subrange(a as int, i as int),
        decreases b - i,
    {
        r.push(bytes[i]);
        assert(r@ =~= bytes@.subrange(a as int, i + 1));
        i = i + 1;
    }
    r
}

/// The text of the header field at bytes `field.0..field.1`.
fn read_header_field(bytes: &Vec<u8>, field: (usize, usize)) -> (r: Option<String>)
    requires
        field.0 <= field.1 <= bytes@.len(),
    ensures
        r matches Some(s) ==> header_field(bytes@, field.0 as int, field.1 as int) == Some(s@),
        r is None ==> header_field(bytes@, field.0 as int, field.1 as int) is None,
{
    let raw = byte_range(bytes, field.0, field.1);
    match utf8_text(raw.as_slice()) {
        Some(text) => {
            let chars = crate::text::chars_of(text.as_str());
            let nul = crate::text::chars_of("\0");
            proof {
                reveal_strlit("\0");
            }
            assert(nul@ == seq!['\0']);
            Some(string_of(&trim_end_matches(&chars, &nul)))
        },
        None => None,
    }
}

/// The map named by a demo file's header, `bytes` being the header.
pub fn header_map(bytes: &Vec<u8>) -> (r: Result<String, HeaderError>)
    requires
        bytes@.len() == HEADER_SIZE,
    ensures
        r matches Ok(m) ==> header_map_name(bytes@) == Some(m@),
        r is Err ==> header_map_name(bytes@) is None,
{
    let demo_type = read_header_field(bytes, DEMO_TYPE_FIELD);
    let server = read_header_field(bytes, SERVER_FIELD);
    let nick = read_header_field(bytes, NICK_FIELD);
    let map = read_header_field(bytes, MAP_FIELD);
    let game = read_header_field(bytes, GAME_FIELD);
    if demo_type.is_none() || server.is_none() || nick.is_none() || game.is_none() {
        return Err(HeaderError);
    }
    match map {
        Some(m) => Ok(m),
        None => Err(HeaderError),
    }
}

/// What the demo's header says about its recording: the nick of the
/// recording player and the map.
#[derive(Debug, Clone)]
pub struct DemoHeaderInfo {
    pub nick: String,
    pub map: String,
}

/// A demo that tf_demo_parser could not parse.
#[derive(Debug, Clone, Copy, PartialEq, Eq, Structural)]
pub struct DemoParseError;

#[verifier::external_type_specification]
#[verifier::external_body]
pub struct ExParseError(tf_demo_parser::ParseError);

#[verifier::external_type_specification]
#[verifier::external_body]
pub struct ExMatchState(tf_demo_parser::MatchState);

/// What tf_demo_parser makes of the demo `bytes`: the recording player's
/// nick, the map, and the match; `None` when it cannot parse them.
pub uninterp spec fn parsed_demo(bytes: Seq<u8>) -> Option<(Seq<char>, Seq<char>, MatchView)>;

/// The match summary of tf_demo_parser's match state, converted value by
/// value: users in the state's (user id) order, each with its spawn count per
/// class number, and the deaths in order.
#[verifier::external_body]
fn summary_from_state(state: tf_demo_parser::MatchState) -> MatchSummary {
    let mut users = Vec::new();
    for (id, info) in state.users {
        let mut class_spawns = [0u16; 10];
        for (class, count) in info.classes.iter() {
            class_spawns[class as u8 as usize] = count;
        }
        users.push(UserRecord { user_id: u16::from(id), name: info.name, class_spawns });
    }
    let deaths = state.deaths.iter().map(|d| DeathRecord {
        killer: u16::from(d.killer), victim: u16::from(d.victim), tick: u32::from(d.tick) }).collect();
    MatchSummary { users, deaths }
}

/// Parses the demo `bytes` with tf_demo_parser (`DemoParser::parse`). The
/// result is claimed to depend on the bytes alone, named `parsed_demo`.
#[verifier::external_body]
fn tf_parse(bytes: &[u8]) -> (r: Result<(DemoHeaderInfo, MatchSummary), tf_demo_parser::ParseError>)
    ensures
        r is Ok <==> parsed_demo(bytes@) is Some,
        r matches Ok(p) ==> parsed_demo(bytes@) == Some((p.0.nick@, p.0.map@, p.1@)),
{
    let demo = tf_demo_parser::Demo::new(bytes);
    match tf_demo_parser::DemoParser::new(demo.get_stream()).parse() {
        Ok((header, state)) => Ok((DemoHeaderInfo { nick: header.nick, map: header.map },
            summary_from_state(state))),
        Err(e) => Err(e),
    }
}

/// Parses a whole demo file: its header and what happened in the match.
pub fn parse_demo(bytes: &Vec<u8>) -> (r: Result<(DemoHeaderInfo, MatchSummary), DemoParseError>)
    ensures
        r is Err <==> parsed_demo(bytes@) is None,
        r matches Ok(p) ==> parsed_demo(bytes@) == Some((p.0.nick@, p.0.map@, p.1@)),
{
    match tf_parse(bytes.as_slice()) {
        Ok(p) => Ok(p),
        Err(_) => Err(DemoParseError),
    }
}

} // verus!
