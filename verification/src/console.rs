//! Reading the game's console log: which chat lines start or stop a
//! recording, which console command answers them, and what the game's reply
//! to that command asks for next.
use vstd::prelude::*;
use crate::throttle::Throttler;
use crate::text::{chars_of, contains, contains_seq, find_seq, slice_chars, string_of, trim, trim_seq};

verus! {

/// What a console line asks the recorder to do.
#[derive(Clone, Copy, PartialEq, Eq, Debug, Structural)]
pub enum ConsoleEvent {
    Record,
    Stop,
}

/// The chat line announces that a match starts (SOAP's deathmatch plugin
/// unloads, or P-REC's start message).
pub open spec fn announces_start(chat: Seq<char>) -> bool {
    contains_seq(chat, "[SOAP] Soap DM unloaded."@) || contains_seq(chat, "[P-REC] Recording..."@)
}

/// The chat line announces that a match ends (logs.tf upload, or P-REC's stop
/// message).
pub open spec fn announces_stop(chat: Seq<char>) -> bool {
    contains_seq(chat, "[LogsTF] Uploading logs..."@) || contains_seq(chat, "[P-REC] Stop record."@)
}

/// The event a chat line announces; a start announcement wins over a stop one.
pub open spec fn chat_event(chat: Seq<char>) -> Option<ConsoleEvent> {
    if announces_start(chat) {
        Some(ConsoleEvent::Record)
    } else if announces_stop(chat) {
        Some(ConsoleEvent::Stop)
    } else {
        None
    }
}

/// The console command that carries out an event.
pub open spec fn command_of(event: ConsoleEvent) -> Seq<char> {
    match event {
        ConsoleEvent::Record => "ds_record"@,
        ConsoleEvent::Stop => "ds_stop"@,
    }
}

/// The prefix of the game's reply that names the demo just written.
pub open spec fn end_recording_marker() -> Seq<char> {
    "(Demo Support) End recording "@
}

/// The demo path that a reply to a console command names: what follows the
/// first end-of-recording marker in the trimmed reply.
pub open spec fn recorded_path_of(response: Seq<char>) -> Option<Seq<char>> {
    let t = trim_seq(response);
    let m = end_recording_marker();
    if contains_seq(t, m) {
        let i = choose|i: int| crate::text::occurs_at(t, m, i) && forall|j: int|
            0 <= j < i ==> !crate::text::occurs_at(t, m, j);
        Some(t.subrange(i + m.len(), t.len() as int))
    } else {
        None
    }
}

/// What the recorder does once the game answered a command.
pub struct ResponseActions {
    /// Take the screenshot of the scoreboard and status.
    pub take_status_screenshot: bool,
    /// The demo that the game finished writing, relative to the game folder.
    pub recorded_demo: Option<String>,
}

impl ConsoleEvent {
    /// The event that a chat line of the console log announces, if any.
    pub fn from_chat(chat: &str) -> (r: Option<Self>)
        ensures
            r == chat_event(chat@),
    {
        let soap_unloaded = contains(chat, "[SOAP] Soap DM unloaded.");
        let prec_recording = contains(chat, "[P-REC] Recording...");
        let logs_uploading = contains(chat, "[LogsTF] Uploading logs...");
        let prec_stop = contains(chat, "[P-REC] Stop record.");
        if soap_unloaded || prec_recording {
            Some(ConsoleEvent::Record)
        } else if logs_uploading || prec_stop {
            Some(ConsoleEvent::Stop)
        } else {
            None
        }
    }

    /// The console command that carries out the event.
    pub fn command(&self) -> (r: &'static str)
        ensures
            r@ == command_of(*self),
    {
        match self {
            ConsoleEvent::Record => "ds_record",
            ConsoleEvent::Stop => "ds_stop",
        }
    }

    /// What to do after the game answered this event's command with
    /// `response`: after starting a recording, take the status screenshot;
    /// when the reply names a finished demo, process that demo.
    pub fn after_response(&self, response: &str) -> (r: ResponseActions)
        ensures
            r.take_status_screenshot == (command_of(*self) == "ds_record"@),
            r.recorded_demo matches Some(p) ==> recorded_path_of(response@) == Some(p@),
            r.recorded_demo is None ==> recorded_path_of(response@) is None,
    {
        let take = *self == ConsoleEvent::Record;
        proof {
            reveal_strlit("ds_record");
            reveal_strlit("ds_stop");
            assert(command_of(ConsoleEvent::Stop) != "ds_record"@) by {
                assert(command_of(ConsoleEvent::Stop).len() != "ds_record"@.len());
            }
        }
        ResponseActions { take_status_screenshot: take, recorded_demo: recorded_demo_path(response) }
    }
}

/// The demo path named by a reply to a console command, if it names one.
pub fn recorded_demo_path(response: &str) -> (r: Option<String>)
    ensures
        r matches Some(p) ==> recorded_path_of(response@) == Some(p@),
        r is None ==> recorded_path_of(response@) is None,
{
    let t = chars_of(trim(response).as_str());
    let m = chars_of("(Demo Support) End recording ");
    match find_seq(&t, &m) {
        Some(i) => {
            let ghost j = choose|j: int| crate::text::occurs_at(t@, m@, j) && forall|k: int|
                0 <= k < j ==> !crate::text::occurs_at(t@, m@, k);
            proof {
                if j < i {
                } else if j > i {
                }
                assert(j == i);
                assert(i + m@.len() <= t@.len() && t@.len() == t.len() && m@.len() == m.len());
            }
            Some(string_of(&slice_chars(&t, i + m.len(), t.len())))
        },
        None => None,
    }
}

/// The event a line of the console log triggers: the event its trimmed text
/// announces, if the throttler lets it through.
pub fn next_event(throttler: &mut Throttler, line: &str) -> (r: Option<ConsoleEvent>)
    ensures
        chat_event(trim_seq(line@)) is None ==> r is None && *final(throttler) == *old(throttler),
        r matches Some(e) ==> chat_event(trim_seq(line@)) == Some(e),
        old(throttler).last_spec() is None && chat_event(trim_seq(line@)) is Some ==> r
            == chat_event(trim_seq(line@)),
        r is Some ==> final(throttler).last_spec() is Some,
        r is None ==> *final(throttler) == *old(throttler),
        final(throttler).interval_spec() == old(throttler).interval_spec(),
{
    let trimmed = trim(line);
    match ConsoleEvent::from_chat(trimmed.as_str()) {
        Some(event) => throttler.debounce(event),
        None => None,
    }
}

} // verus!
