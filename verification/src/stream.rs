//! Decoding of the daemon's streams: a body of newline-delimited JSON records
//! arrives in chunks, and every line of a chunk that decodes becomes an event.

use vstd::prelude::*;
use vstd::slice::slice_subrange;
use vstd::string::*;
use crate::api::Traffic;
use crate::event::{AppEvent, EventView};

verus! {

/// The byte that ends a line.
pub const NEWLINE: u8 = 10;

/// The byte that may stand before the one that ends a line.
pub const CARRIAGE_RETURN: u8 = 13;

/// The place of the first newline in `bytes`, or their length where there is
/// none.
pub open spec fn first_newline(bytes: Seq<u8>) -> nat
    decreases bytes.len(),
{
    if bytes.len() == 0 || bytes[0] == NEWLINE {
        0
    } else {
        1 + first_newline(bytes.drop_first())
    }
}

/// A line without the carriage return that stood before its newline.
pub open spec fn strip_carriage_return(line: Seq<u8>) -> Seq<u8> {
    if line.len() > 0 && line.last() == CARRIAGE_RETURN {
        line.drop_last()
    } else {
        line
    }
}

/// The lines of `bytes`. A line ends with a newline, or with a carriage return
/// and a newline, neither of which belongs to it. What follows the last
/// newline is a line too, unless it is empty.
pub open spec fn lines_of(bytes: Seq<u8>) -> Seq<Seq<u8>>
    decreases bytes.len(),
{
    let end = first_newline(bytes) as int;
    if bytes.len() == 0 {
        Seq::empty()
    } else if end >= bytes.len() {
        seq![bytes]
    } else {
        seq![strip_carriage_return(bytes.take(end))] + lines_of(bytes.skip(end + 1))
    }
}

/// The first newline is where the first newline is.
proof fn lemma_first_newline(bytes: Seq<u8>, at: int)
    requires
        0 <= at <= bytes.len(),
        forall|j: int| 0 <= j < at ==> bytes[j] != NEWLINE,
        at == bytes.len() || bytes[at] == NEWLINE,
    ensures
        first_newline(bytes) == at,
    decreases at,
{
    if at > 0 {
        let rest = bytes.drop_first();
        assert forall|j: int| 0 <= j < at - 1 implies rest[j] != NEWLINE by {
            assert(rest[j] == bytes[j + 1]);
        }
        lemma_first_newline(rest, at - 1);
    }
}

/// What the lines of a chunk are in contracts.
pub open spec fn line_views(lines: Seq<&[u8]>) -> Seq<Seq<u8>> {
    lines.map_values(|line: &[u8]| line@)
}

/// Splits a chunk into its lines.
pub fn split_lines(bytes: &[u8]) -> (lines: Vec<&[u8]>)
    ensures
        line_views(lines@) == lines_of(bytes@),
{
    let mut lines: Vec<&[u8]> = Vec::new();
    let mut start: usize = 0;
    let mut at: usize = 0;
    proof {
        assert(bytes@.skip(0) =~= bytes@);
        assert(line_views(lines@) + lines_of(bytes@) =~= lines_of(bytes@));
    }
    while at < bytes.len()
        invariant
            start <= at <= bytes.len(),
            forall|j: int| start <= j < at ==> bytes@[j] != NEWLINE,
            lines_of(bytes@) == line_views(lines@) + lines_of(bytes@.skip(start as int)),
        decreases bytes.len() - at,
    {
        if bytes[at] == NEWLINE {
            let end = if at > start && bytes[at - 1] == CARRIAGE_RETURN {
                at - 1
            } else {
                at
            };
            let line = slice_subrange(bytes, start, end);
            let ghost done = line_views(lines@);
            lines.push(line);
            proof {
                let rest = bytes@.skip(start as int);
                lemma_first_newline(rest, at - start);
                assert(rest.take(at - start) =~= bytes@.subrange(start as int, at as int));
                assert(line@ =~= strip_carriage_return(rest.take(at - start)));
                assert(rest.skip(at - start + 1) =~= bytes@.skip(at + 1));
                assert(line_views(lines@) =~= done.push(line@));
                assert(lines_of(bytes@) =~= done.push(line@) + lines_of(bytes@.skip(at + 1)));
            }
            start = at + 1;
        }
        at += 1;
    }
    if start < bytes.len() {
        let line = slice_subrange(bytes, start, bytes.len());
        let ghost done = line_views(lines@);
        lines.push(line);
        proof {
            let rest = bytes@.skip(start as int);
            lemma_first_newline(rest, rest.len() as int);
            assert(line@ =~= rest);
            assert(line_views(lines@) =~= done.push(line@));
        }
    } else {
        proof {
            assert(lines_of(bytes@.skip(start as int)) =~= Seq::empty());
        }
    }
    lines
}

/// The text that std's lossy UTF-8 decoding makes of `bytes`.
pub uninterp spec fn utf8_lossy(bytes: Seq<u8>) -> Seq<char>;

/// The string that is member `key` of the JSON object `text`; nothing where
/// `text` is not one JSON value, or no object, or has no such member, or has
/// one that is no string.
pub uninterp spec fn json_string_member(text: Seq<char>, key: Seq<char>) -> Option<Seq<char>>;

/// The number that is member `key` of the JSON object `text`; nothing where
/// `text` is not one JSON value, or no object, or has no such member, or has
/// one that is no integer from 0 to 2^64 - 1.
pub uninterp spec fn json_u64_member(text: Seq<char>, key: Seq<char>) -> Option<u64>;

/// Calls `String::from_utf8_lossy` of std, which turns bytes into text and
/// puts U+FFFD where they are not UTF-8. The contract names the text, and
/// says that bytes which are UTF-8 give the text they encode.
#[verifier::external_body]
fn lossy_text(bytes: &[u8]) -> (text: String)
    ensures
        text@ == utf8_lossy(bytes@),
        vstd::utf8::valid_utf8(bytes@) ==> text@ == vstd::utf8::decode_utf8(bytes@),
{
    String::from_utf8_lossy(bytes).into_owned()
}

/// Calls `serde_json::from_str` for a `serde_json::Value`, looks `key` up in
/// it with `Value::get`, and hands out the member if it is a
/// `Value::String`. The contract only names the result.
#[verifier::external_body]
fn string_member(text: &str, key: &str) -> (member: Option<String>)
    ensures
        member.deep_view() == json_string_member(text@, key@),
{
    match serde_json::from_str::<serde_json::Value>(text) {
        Ok(value) => match value.get(key) {
            Some(serde_json::Value::String(member)) => Some(member.clone()),
            _ => None,
        },
        Err(_) => None,
    }
}

/// Calls `serde_json::from_str` for a `serde_json::Value`, looks `key` up in
/// it with `Value::get`, and hands out what `Value::as_u64` makes of the
/// member. The contract only names the result.
#[verifier::external_body]
fn u64_member(text: &str, key: &str) -> (member: Option<u64>)
    ensures
        member == json_u64_member(text@, key@),
{
    match serde_json::from_str::<serde_json::Value>(text) {
        Ok(value) => match value.get(key) {
            Some(member) => member.as_u64(),
            None => None,
        },
        Err(_) => None,
    }
}

/// A sample needs both of its counters.
pub open spec fn traffic_of_members(up: Option<u64>, down: Option<u64>) -> Option<Traffic> {
    match (up, down) {
        (Some(up), Some(down)) => Some(Traffic { up, down }),
        _ => None,
    }
}

/// The sample that a line of the traffic stream holds: a JSON object with
/// the numbers `up` and `down`.
pub open spec fn traffic_of_line(text: Seq<char>) -> Option<Traffic> {
    traffic_of_members(json_u64_member(text, "up"@), json_u64_member(text, "down"@))
}

/// The message that a line of the log stream holds: the string `payload` of
/// a JSON object.
pub open spec fn log_of_line(text: Seq<char>) -> Option<Seq<char>> {
    json_string_member(text, "payload"@)
}

/// The event of a line of the traffic stream, if the line decodes.
pub open spec fn traffic_event_of(line: Seq<u8>) -> Option<EventView> {
    match traffic_of_line(utf8_lossy(line)) {
        Some(traffic) => Some(EventView::Traffic(traffic)),
        None => None,
    }
}

/// The event of a line of the log stream, if the line decodes.
pub open spec fn log_event_of(line: Seq<u8>) -> Option<EventView> {
    match log_of_line(utf8_lossy(line)) {
        Some(message) => Some(EventView::Log(message)),
        None => None,
    }
}

/// The events of a chunk of the traffic stream: one for each line that
/// decodes, in the order of the lines.
pub open spec fn traffic_events_of(chunk: Seq<u8>) -> Seq<EventView> {
    lines_of(chunk).filter_map(|line: Seq<u8>| traffic_event_of(line))
}

/// The events of a chunk of the log stream: one for each line that decodes,
/// in the order of the lines.
pub open spec fn log_events_of(chunk: Seq<u8>) -> Seq<EventView> {
    lines_of(chunk).filter_map(|line: Seq<u8>| log_event_of(line))
}

/// What a list of events is in contracts.
pub open spec fn event_views(events: Seq<AppEvent>) -> Seq<EventView> {
    events.map_values(|event: AppEvent| event@)
}

/// A chunk of one ended line and a rest without a newline has these two
/// lines, or the first alone where the rest is empty.
pub proof fn lemma_lines_of_line_and_rest(first: Seq<u8>, rest: Seq<u8>)
    requires
        forall|i: int| 0 <= i < first.len() ==> first[i] != NEWLINE,
        forall|i: int| 0 <= i < rest.len() ==> rest[i] != NEWLINE,
    ensures
        lines_of(first + seq![NEWLINE] + rest) == if rest.len() == 0 {
            seq![strip_carriage_return(first)]
        } else {
            seq![strip_carriage_return(first), rest]
        },
{
    let chunk = first + seq![NEWLINE] + rest;
    lemma_first_newline(chunk, first.len() as int);
    assert(chunk.take(first.len() as int) =~= first);
    assert(chunk.skip(first.len() as int + 1) =~= rest);
    lemma_first_newline(rest, rest.len() as int);
    assert(lines_of(chunk) == seq![strip_carriage_return(first)] + lines_of(rest));
    if rest.len() == 0 {
        assert(lines_of(rest) =~= Seq::empty());
        assert(lines_of(chunk) =~= seq![strip_carriage_return(first)]);
    } else {
        assert(lines_of(rest) =~= seq![rest]);
        assert(lines_of(chunk) =~= seq![strip_carriage_return(first), rest]);
    }
}

/// Of a chunk that holds one line that decodes, and behind it a truncated
/// record that does not, the first line's event comes out and nothing else.
pub proof fn lemma_truncated_traffic_is_skipped(first: Seq<u8>, rest: Seq<u8>)
    requires
        forall|i: int| 0 <= i < first.len() ==> first[i] != NEWLINE,
        forall|i: int| 0 <= i < rest.len() ==> rest[i] != NEWLINE,
        traffic_event_of(strip_carriage_return(first)).is_some(),
        traffic_event_of(rest).is_none(),
    ensures
        traffic_events_of(first + seq![NEWLINE] + rest) == seq![
            traffic_event_of(strip_carriage_return(first)).unwrap(),
        ],
{
    lemma_lines_of_line_and_rest(first, rest);
    reveal_with_fuel(Seq::filter_map, 3);
    let pick = |line: Seq<u8>| traffic_event_of(line);
    let lines = lines_of(first + seq![NEWLINE] + rest);
    if rest.len() > 0 {
        assert(lines.drop_last() =~= seq![strip_carriage_return(first)]);
    }
    assert(seq![strip_carriage_return(first)].drop_last() =~= Seq::<Seq<u8>>::empty());
    assert(lines.filter_map(pick) =~= seq![
        traffic_event_of(strip_carriage_return(first)).unwrap(),
    ]);
}

/// Of a chunk that holds one log line that decodes, and behind it a truncated
/// record that does not, the first line's event comes out and nothing else.
pub proof fn lemma_truncated_log_is_skipped(first: Seq<u8>, rest: Seq<u8>)
    requires
        forall|i: int| 0 <= i < first.len() ==> first[i] != NEWLINE,
        forall|i: int| 0 <= i < rest.len() ==> rest[i] != NEWLINE,
        log_event_of(strip_carriage_return(first)).is_some(),
        log_event_of(rest).is_none(),
    ensures
        log_events_of(first + seq![NEWLINE] + rest) == seq![
            log_event_of(strip_carriage_return(first)).unwrap(),
        ],
{
    lemma_lines_of_line_and_rest(first, rest);
    reveal_with_fuel(Seq::filter_map, 3);
    let pick = |line: Seq<u8>| log_event_of(line);
    let lines = lines_of(first + seq![NEWLINE] + rest);
    if rest.len() > 0 {
        assert(lines.drop_last() =~= seq![strip_carriage_return(first)]);
    }
    assert(seq![strip_carriage_return(first)].drop_last() =~= Seq::<Seq<u8>>::empty());
    assert(lines.filter_map(pick) =~= seq![log_event_of(strip_carriage_return(first)).unwrap()]);
}

/// Makes a sample of the two counters of a line, where both are there.
pub fn traffic_from_members(up: Option<u64>, down: Option<u64>) -> (traffic: Option<Traffic>)
    ensures
        traffic == traffic_of_members(up, down),
{
    match (up, down) {
        (Some(up), Some(down)) => Some(Traffic { up, down }),
        _ => None,
    }
}

/// Decodes one line of the traffic stream.
pub fn decode_traffic(line: &str) -> (traffic: Option<Traffic>)
    ensures
        traffic == traffic_of_line(line@),
{
    let up = u64_member(line, "up");
    let down = u64_member(line, "down");
    traffic_from_members(up, down)
}

/// Decodes one line of the log stream.
pub fn decode_log(line: &str) -> (message: Option<String>)
    ensures
        message.deep_view() == log_of_line(line@),
{
    string_member(line, "payload")
}

/// Decodes a chunk of the traffic stream. Lines that do not decode are
/// skipped.
pub fn traffic_events(chunk: &[u8]) -> (events: Vec<AppEvent>)
    ensures
        event_views(events@) == traffic_events_of(chunk@),
{
    let lines = split_lines(chunk);
    let mut events: Vec<AppEvent> = Vec::new();
    let ghost all = lines_of(chunk@);
    let ghost pick = |line: Seq<u8>| traffic_event_of(line);
    let mut i: usize = 0;
    proof {
        assert(all.take(0) =~= Seq::empty());
        assert(event_views(events@) =~= Seq::empty());
    }
    while i < lines.len()
        invariant
            i <= lines.len(),
            all == line_views(lines@),
            pick == |line: Seq<u8>| traffic_event_of(line),
            event_views(events@) == all.take(i as int).filter_map(pick),
        decreases lines.len() - i,
    {
        let text = lossy_text(lines[i]);
        let ghost done = event_views(events@);
        proof {
            all.lemma_filter_map_take_succ(pick, i as int);
            assert(all[i as int] == lines@[i as int]@);
        }
        match decode_traffic(text.as_str()) {
            Some(traffic) => {
                events.push(AppEvent::Traffic(traffic));
                proof {
                    assert(event_views(events@) =~= done + seq![EventView::Traffic(traffic)]);
                }
            },
            None => {},
        }
        i += 1;
    }
    proof {
        assert(all.take(i as int) =~= all);
    }
    events
}

/// Decodes a chunk of the log stream. Lines that do not decode are skipped.
pub fn log_events(chunk: &[u8]) -> (events: Vec<AppEvent>)
    ensures
        event_views(events@) == log_events_of(chunk@),
{
    let lines = split_lines(chunk);
    let mut events: Vec<AppEvent> = Vec::new();
    let ghost all = lines_of(chunk@);
    let ghost pick = |line: Seq<u8>| log_event_of(line);
    let mut i: usize = 0;
    proof {
        assert(all.take(0) =~= Seq::empty());
        assert(event_views(events@) =~= Seq::empty());
    }
    while i < lines.len()
        invariant
            i <= lines.len(),
            all == line_views(lines@),
            pick == |line: Seq<u8>| log_event_of(line),
            event_views(events@) == all.take(i as int).filter_map(pick),
        decreases lines.len() - i,
    {
        let text = lossy_text(lines[i]);
        let ghost done = event_views(events@);
        proof {
            all.lemma_filter_map_take_succ(pick, i as int);
            assert(all[i as int] == lines@[i as int]@);
        }
        match decode_log(text.as_str()) {
            Some(message) => {
                let ghost shown = message@;
                events.push(AppEvent::Log(message));
                proof {
                    assert(event_views(events@) =~= done + seq![EventView::Log(shown)]);
                }
            },
            None => {},
        }
        i += 1;
    }
    proof {
        assert(all.take(i as int) =~= all);
    }
    events
}

/// Why a chunk gave no sample.
#[derive(Clone, Copy, Debug, PartialEq, Eq, Structural)]
pub enum TrafficError {
    /// The chunk's first line does not decode.
    Malformed,
    /// The chunk has no line.
    NoData,
}

/// The sample of a chunk's first line.
pub open spec fn first_traffic_of(chunk: Seq<u8>) -> Result<Traffic, TrafficError> {
    if lines_of(chunk).len() == 0 {
        Err(TrafficError::NoData)
    } else {
        match traffic_of_line(utf8_lossy(lines_of(chunk)[0])) {
            Some(traffic) => Ok(traffic),
            None => Err(TrafficError::Malformed),
        }
    }
}

/// Decodes the first line of a chunk of the traffic stream, for a reading
/// of the current rates.
pub fn first_traffic(chunk: &[u8]) -> (traffic: Result<Traffic, TrafficError>)
    ensures
        traffic == first_traffic_of(chunk@),
{
    let lines = split_lines(chunk);
    if lines.len() == 0 {
        return Err(TrafficError::NoData);
    }
    assert(lines_of(chunk@)[0] == lines@[0]@);
    let text = lossy_text(lines[0]);
    match decode_traffic(text.as_str()) {
        Some(traffic) => Ok(traffic),
        None => Err(TrafficError::Malformed),
    }
}

} // verus!
