//! Bookmarks that the player set while recording, read from the JSON events
//! file the game writes beside each demo.
use vstd::prelude::*;
use crate::json::{field, field_or_null, parse_json, parsed_json, JsonValue};
use crate::text::same_text;

verus! {

/// A bookmark, at a demo tick.
#[derive(Default, Debug, Clone, Copy)]
pub struct Bookmark {
    pub tick: i64,
}

/// The bookmarks of a demo, in the order of the events file.
#[derive(Default, Debug, Clone)]
pub struct Bookmarks {
    pub bookmarks: Vec<Bookmark>,
}

/// Why an events document yields no bookmark list.
#[derive(Debug, Clone, Copy, PartialEq, Eq, Structural)]
pub enum BookmarkError {
    /// The text is not a JSON document.
    InvalidJson,
    /// The document's `events` member is not an array.
    EventsNotArray,
}

/// The event is a bookmark: its `name` is the string `Bookmark` and its `tick`
/// an integer.
pub open spec fn is_bookmark_event(e: JsonValue) -> bool {
    &&& field_or_null(e, "name"@) matches JsonValue::Str(s) && s@ == "Bookmark"@
    &&& field_or_null(e, "tick"@) matches JsonValue::Number(Some(_))
}

/// The tick of a bookmark event.
pub open spec fn event_tick(e: JsonValue) -> i64 {
    match field_or_null(e, "tick"@) {
        JsonValue::Number(Some(t)) => t,
        _ => 0,
    }
}

/// Ticks of the bookmark events among `events`, in order.
pub open spec fn bookmark_ticks(events: Seq<JsonValue>) -> Seq<i64>
    decreases events.len(),
{
    if events.len() == 0 {
        Seq::empty()
    } else {
        let prev = bookmark_ticks(events.drop_last());
        if is_bookmark_event(events.last()) {
            prev.push(event_tick(events.last()))
        } else {
            prev
        }
    }
}

/// An event named `Bookmark` whose `tick` is an integer.
pub open spec fn named_bookmark() -> spec_fn(JsonValue) -> bool {
    |e: JsonValue|
        (field_or_null(e, "name"@) matches JsonValue::Str(s) && s@ == "Bookmark"@) && (field_or_null(
            e,
            "tick"@,
        ) matches JsonValue::Number(Some(_)))
}

/// The integer `tick` of an event.
pub open spec fn tick_of() -> spec_fn(JsonValue) -> i64 {
    |e: JsonValue|
        match field_or_null(e, "tick"@) {
            JsonValue::Number(Some(t)) => t,
            _ => 0,
        }
}

/// Every event named `Bookmark` with an integer tick gives exactly one
/// bookmark at that tick, in the order of the events, without any cap: there
/// are as many bookmarks as such events.
pub proof fn lemma_one_bookmark_per_event(events: Seq<JsonValue>)
    ensures
        bookmark_ticks(events) == events.filter(named_bookmark()).map_values(tick_of()),
        bookmark_ticks(events).len() == events.filter(named_bookmark()).len(),
    decreases events.len(),
{
    reveal(Seq::filter);
    if events.len() > 0 {
        lemma_one_bookmark_per_event(events.drop_last());
        let prev = events.drop_last().filter(named_bookmark());
        if named_bookmark()(events.last()) {
            assert(events.filter(named_bookmark()) == prev.push(events.last()));
            assert(prev.push(events.last()).map_values(tick_of()) =~= prev.map_values(tick_of()).push(
                tick_of()(events.last()),
            ));
        } else {
            assert(events.filter(named_bookmark()) == prev);
        }
    } else {
        assert(events.filter(named_bookmark()) == events);
        assert(events.map_values(tick_of()) =~= Seq::<i64>::empty());
    }
}

/// The document can be read for bookmarks: an `events` member, if present,
/// is an array.
pub open spec fn events_readable(root: JsonValue) -> bool {
    field(root, "events"@) matches Some(e) ==> e is Array
}

/// Ticks of the bookmarks of a document: those of the bookmark events of its
/// `events` array; none when it has no `events` member.
pub open spec fn document_bookmarks(root: JsonValue) -> Seq<i64> {
    match field(root, "events"@) {
        Some(JsonValue::Array(events)) => bookmark_ticks(events@),
        _ => Seq::empty(),
    }
}

/// Text that can be read for bookmarks: a JSON document whose `events`
/// member, if any, is an array.
pub open spec fn bookmarks_text_readable(text: Seq<char>) -> bool {
    parsed_json(text) matches Some(root) && events_readable(root)
}

/// Ticks of the bookmarks of a readable events text.
pub open spec fn text_bookmarks(text: Seq<char>) -> Seq<i64> {
    document_bookmarks(parsed_json(text)->0)
}

impl Bookmarks {
    /// The ticks of the bookmarks, in order.
    pub open spec fn ticks(&self) -> Seq<i64> {
        self.bookmarks@.map_values(|b: Bookmark| b.tick)
    }

    /// The bookmarks of the events document `json_text`.
    pub fn new(json_text: &str) -> (r: Bookmarks)
        requires
            bookmarks_text_readable(json_text@),
        ensures
            r.ticks() == text_bookmarks(json_text@),
    {
        let mut bookmarks = Bookmarks { bookmarks: Vec::new() };
        bookmarks.get_bookmarks(json_text);
        assert(bookmarks.ticks() =~= text_bookmarks(json_text@));
        bookmarks
    }

    /// Appends the bookmarks of the events document `json_text`.
    pub fn get_bookmarks(&mut self, json_text: &str)
        requires
            bookmarks_text_readable(json_text@),
        ensures
            final(self).ticks() == old(self).ticks() + text_bookmarks(json_text@),
    {
        let root = match parse_json(json_text) {
            Ok(v) => v,
            Err(_) => {
                return;
            },
        };
        let found = bookmarks_from_json(&root);
        let mut i: usize = 0;
        let ghost start = self.ticks();
        while i < found.len()
            invariant
                i <= found@.len(),
                self.ticks() == start + found@.map_values(|b: Bookmark| b.tick).take(i as int),
            decreases found.len() - i,
        {
            let ghost before = self.bookmarks@;
            self.bookmarks.push(found[i]);
            assert(self.bookmarks@ == before.push(found@[i as int]));
            assert(before.map_values(|b: Bookmark| b.tick).push(found@[i as int].tick) =~= self.ticks());
            assert(self.ticks() =~= start + found@.map_values(|b: Bookmark| b.tick).take(i + 1));
            i = i + 1;
        }
        assert(found@.map_values(|b: Bookmark| b.tick).take(found@.len() as int) =~= found@.map_values(
            |b: Bookmark| b.tick,
        ));
    }

    /// The bookmarks of `json_text`, or why it has none to give.
    pub fn read(json_text: &str) -> (r: Result<Bookmarks, BookmarkError>)
        ensures
            r matches Ok(b) ==> bookmarks_text_readable(json_text@) && b.ticks() == text_bookmarks(
                json_text@,
            ),
            r == Err::<Bookmarks, _>(BookmarkError::InvalidJson) <==> parsed_json(json_text@) is None,
            r == Err::<Bookmarks, _>(BookmarkError::EventsNotArray) <==> (parsed_json(json_text@) matches Some(
                root,
            ) && !events_readable(root)),
    {
        match parse_json(json_text) {
            Err(_) => Err(BookmarkError::InvalidJson),
            Ok(root) => {
                if !events_are_readable(&root) {
                    Err(BookmarkError::EventsNotArray)
                } else {
                    Ok(Bookmarks::new(json_text))
                }
            },
        }
    }
}

/// Whether the document can be read for bookmarks.
pub fn events_are_readable(root: &JsonValue) -> (r: bool)
    ensures
        r == events_readable(*root),
{
    match root.get("events") {
        Some(JsonValue::Array(_)) => true,
        Some(_) => false,
        None => true,
    }
}

/// Whether `e` is a bookmark event, and its tick.
fn bookmark_event_tick(e: &JsonValue) -> (r: Option<i64>)
    ensures
        r is Some <==> is_bookmark_event(*e),
        r matches Some(t) ==> t == event_tick(*e),
{
    let name = match e.get("name") {
        Some(v) => v.as_str(),
        None => None,
    };
    let is_bookmark = match name {
        Some(s) => same_text(s.as_str(), "Bookmark"),
        None => false,
    };
    if !is_bookmark {
        return None;
    }
    match e.get("tick") {
        Some(v) => v.as_i64(),
        None => None,
    }
}

/// The bookmarks of a readable events document, in order.
pub fn bookmarks_from_json(root: &JsonValue) -> (r: Vec<Bookmark>)
    requires
        events_readable(*root),
    ensures
        r@.map_values(|b: Bookmark| b.tick) == document_bookmarks(*root),
{
    let mut found: Vec<Bookmark> = Vec::new();
    match root.get("events") {
        Some(JsonValue::Array(events)) => {
            let mut i: usize = 0;
            while i < events.len()
                invariant
                    i <= events@.len(),
                    found@.map_values(|b: Bookmark| b.tick) == bookmark_ticks(events@.take(i as int)),
                decreases events.len() - i,
            {
                assert(events@.take(i + 1).drop_last() =~= events@.take(i as int));
                assert(events@.take(i + 1).last() == events@[i as int]);
                match bookmark_event_tick(&events[i]) {
                    Some(t) => {
                        found.push(Bookmark { tick: t });
                    },
                    None => {},
                }
                assert(found@.map_values(|b: Bookmark| b.tick) =~= bookmark_ticks(
                    events@.take(i + 1),
                ));
                i = i + 1;
            }
            assert(events@.take(events@.len() as int) =~= events@);
        },
        _ => {
            assert(found@.map_values(|b: Bookmark| b.tick) =~= Seq::<i64>::empty());
        },
    }
    found
}

} // verus!
