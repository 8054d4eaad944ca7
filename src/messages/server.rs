//! Messages that originate from the server.
//!
//! `ReceivedMessage` holds each message the server may send; which one a line
//! holds is decided by its shape, tried in a fixed order: greeting, then
//! reply, then event.
use crate::json::{
    get, get_in, i64_of, json_parse, key, member, member_in, parse_json, str_of, strings_of,
    take_member, to_i64, to_str, to_strings, to_u64, to_usize, u64_of, usize_of, Json, JsonView,
};
use vstd::prelude::*;

verus! {

/// The initial message sent when a connection opens. The server processes
/// commands only once the client has answered it with its capabilities.
#[derive(Debug)]
pub struct Greeting {
    pub qmp: Qmp,
}

/// Used by `Greeting`.
#[derive(Debug)]
pub struct Qmp {
    pub version: Version,
    pub capabilities: Vec<String>,
}

/// Used by `Greeting`.
#[derive(Debug)]
pub struct Version {
    pub qemu: Qemu,
    pub package: String,
}

/// Used by `Greeting`.
#[derive(Clone, Copy, Debug)]
pub struct Qemu {
    pub micro: u64,
    pub minor: u64,
    pub major: u64,
}

/// The server's answer to a command. It carries the command's id where the
/// command had one.
#[derive(Debug)]
pub struct Return {
    pub ret: Json,
    pub id: Option<usize>,
}

/// A notification the server sends on its own.
#[derive(Debug)]
pub struct Event {
    pub timestamp: Timestamp,
    pub event: String,
    pub data: Json,
}

/// When an event happened.
#[derive(Clone, Copy, Debug)]
pub struct Timestamp {
    pub seconds: i64,
    pub microseconds: i64,
}

/// Any message the server sends.
#[derive(Debug)]
pub enum ReceivedMessage {
    Greeting(Box<Greeting>),
    Return(Box<Return>),
    Event(Box<Event>),
}

/// Why a line is not a message.
#[derive(Debug)]
pub enum ParseFailure {
    /// The line is not one JSON document.
    NotJson,
    /// The line is JSON but has none of the three shapes.
    UnknownShape,
}

/// A line that could not be decoded, with the line itself.
#[derive(Debug)]
pub struct ParseError {
    pub line: String,
    pub cause: ParseFailure,
}

pub struct GreetingView {
    pub qemu: Qemu,
    pub package: Seq<char>,
    pub capabilities: Seq<Seq<char>>,
}

pub struct ReturnView {
    pub ret: JsonView,
    pub id: Option<usize>,
}

pub struct EventView {
    pub timestamp: Timestamp,
    pub event: Seq<char>,
    pub data: JsonView,
}

pub enum ReceivedView {
    Greeting(GreetingView),
    Return(ReturnView),
    Event(EventView),
}

impl View for Greeting {
    type V = GreetingView;

    open spec fn view(&self) -> GreetingView {
        GreetingView {
            qemu: self.qmp.version.qemu,
            package: self.qmp.version.package@,
            capabilities: self.qmp.capabilities@.map_values(|s: String| s@),
        }
    }
}

impl View for Return {
    type V = ReturnView;

    open spec fn view(&self) -> ReturnView {
        ReturnView { ret: self.ret@, id: self.id }
    }
}

impl View for Event {
    type V = EventView;

    open spec fn view(&self) -> EventView {
        EventView { timestamp: self.timestamp, event: self.event@, data: self.data@ }
    }
}

impl View for ReceivedMessage {
    type V = ReceivedView;

    open spec fn view(&self) -> ReceivedView {
        match self {
            ReceivedMessage::Greeting(g) => ReceivedView::Greeting(g@),
            ReceivedMessage::Return(r) => ReceivedView::Return(r@),
            ReceivedMessage::Event(e) => ReceivedView::Event(e@),
        }
    }
}

/// The greeting held by `j`:
/// `{"QMP": {"version": {"qemu": {"micro", "minor", "major"}, "package"}, "capabilities"}}`.
pub open spec fn greeting_of(j: JsonView) -> Option<GreetingView> {
    let qmp = get(j, "QMP"@);
    let version = get_in(qmp, "version"@);
    let qemu = get_in(version, "qemu"@);
    let micro = u64_of(get_in(qemu, "micro"@));
    let minor = u64_of(get_in(qemu, "minor"@));
    let major = u64_of(get_in(qemu, "major"@));
    let package = str_of(get_in(version, "package"@));
    let capabilities = strings_of(get_in(qmp, "capabilities"@));
    if micro is Some && minor is Some && major is Some && package is Some && capabilities is Some {
        Some(
            GreetingView {
                qemu: Qemu { micro: micro->0, minor: minor->0, major: major->0 },
                package: package->0,
                capabilities: capabilities->0,
            },
        )
    } else {
        None
    }
}

/// The reply held by `j`: `{"return": <any>, "id": <integer, optional>}`.
/// A missing or null id is no id.
pub open spec fn reply_of(j: JsonView) -> Option<ReturnView> {
    match (get(j, "return"@), get(j, "id"@)) {
        (Some(ret), None) => Some(ReturnView { ret, id: None }),
        (Some(ret), Some(JsonView::Null)) => Some(ReturnView { ret, id: None }),
        (Some(ret), Some(id)) => match usize_of(Some(id)) {
            Some(n) => Some(ReturnView { ret, id: Some(n) }),
            None => None,
        },
        _ => None,
    }
}

/// The event held by `j`:
/// `{"timestamp": {"seconds", "microseconds"}, "event": <string>, "data": <any>}`.
pub open spec fn event_of(j: JsonView) -> Option<EventView> {
    let timestamp = get(j, "timestamp"@);
    let seconds = i64_of(get_in(timestamp, "seconds"@));
    let microseconds = i64_of(get_in(timestamp, "microseconds"@));
    let event = str_of(get(j, "event"@));
    let data = get(j, "data"@);
    if seconds is Some && microseconds is Some && event is Some && data is Some {
        Some(
            EventView {
                timestamp: Timestamp { seconds: seconds->0, microseconds: microseconds->0 },
                event: event->0,
                data: data->0,
            },
        )
    } else {
        None
    }
}

/// The message held by `j`: the first of greeting, reply and event whose
/// shape it has.
pub open spec fn classify(j: JsonView) -> Option<ReceivedView> {
    if let Some(g) = greeting_of(j) {
        Some(ReceivedView::Greeting(g))
    } else if let Some(r) = reply_of(j) {
        Some(ReceivedView::Return(r))
    } else if let Some(e) = event_of(j) {
        Some(ReceivedView::Event(e))
    } else {
        None
    }
}

/// What a line decodes to: `Ok` with the message that its JSON value holds,
/// or `Err` with the cause.
pub open spec fn decoded(line: Seq<char>) -> Result<ReceivedView, ParseFailure> {
    match json_parse(line) {
        None => Err(ParseFailure::NotJson),
        Some(v) => match classify(v) {
            Some(m) => Ok(m),
            None => Err(ParseFailure::UnknownShape),
        },
    }
}

fn greeting_from(j: &Json) -> (r: Option<Greeting>)
    ensures
        match r {
            Some(g) => greeting_of(j@) == Some(g@),
            None => greeting_of(j@) is None,
        },
{
    let qmp = member_in(Some(j), &key("QMP"));
    let version = member_in(qmp, &key("version"));
    let qemu = member_in(version, &key("qemu"));
    let micro = to_u64(member_in(qemu, &key("micro")));
    let minor = to_u64(member_in(qemu, &key("minor")));
    let major = to_u64(member_in(qemu, &key("major")));
    let package = to_str(member_in(version, &key("package")));
    let capabilities = to_strings(member_in(qmp, &key("capabilities")));
    match (micro, minor, major, package, capabilities) {
        (Some(micro), Some(minor), Some(major), Some(package), Some(capabilities)) => Some(
            Greeting {
                qmp: Qmp {
                    version: Version { qemu: Qemu { micro, minor, major }, package },
                    capabilities,
                },
            },
        ),
        _ => None,
    }
}

/// The id of the reply that `j` holds, where it holds one.
fn reply_id(j: &Json) -> (r: Option<Option<usize>>)
    ensures
        match r {
            Some(id) => reply_of(j@) is Some && reply_of(j@)->0.id == id,
            None => reply_of(j@) is None,
        },
{
    if member_in(Some(j), &key("return")).is_none() {
        return None;
    }
    match member_in(Some(j), &key("id")) {
        None => Some(None),
        Some(Json::Null) => Some(None),
        Some(id) => match to_usize(Some(id)) {
            Some(n) => Some(Some(n)),
            None => None,
        },
    }
}

/// The timestamp and name of the event that `j` holds, where it holds one.
fn event_head(j: &Json) -> (r: Option<(Timestamp, String)>)
    ensures
        match r {
            Some((t, name)) => event_of(j@) is Some && event_of(j@)->0.timestamp == t
                && event_of(j@)->0.event == name@,
            None => event_of(j@) is None,
        },
{
    let timestamp = member_in(Some(j), &key("timestamp"));
    let seconds = to_i64(member_in(timestamp, &key("seconds")));
    let microseconds = to_i64(member_in(timestamp, &key("microseconds")));
    let event = to_str(member_in(Some(j), &key("event")));
    let has_data = member_in(Some(j), &key("data")).is_some();
    match (seconds, microseconds, event) {
        (Some(seconds), Some(microseconds), Some(event)) => if has_data {
            Some((Timestamp { seconds, microseconds }, event))
        } else {
            None
        },
        _ => None,
    }
}

impl ReceivedMessage {
    /// The message that the JSON value `j` holds, if it has one of the shapes.
    pub fn from_json(j: Json) -> (r: Option<ReceivedMessage>)
        ensures
            match r {
                Some(m) => classify(j@) == Some(m@),
                None => classify(j@) is None,
            },
    {
        if let Some(g) = greeting_from(&j) {
            return Some(ReceivedMessage::Greeting(Box::new(g)));
        }
        if let Some(id) = reply_id(&j) {
            return match take_member(j, &key("return")) {
                Some(ret) => Some(ReceivedMessage::Return(Box::new(Return { ret, id }))),
                None => None,
            };
        }
        if let Some((timestamp, event)) = event_head(&j) {
            return match take_member(j, &key("data")) {
                Some(data) => Some(ReceivedMessage::Event(Box::new(Event { timestamp, event, data }))),
                None => None,
            };
        }
        None
    }
}

/// Takes one line of JSON text and decodes the message it holds.
pub fn parse(data: String) -> (r: Result<ReceivedMessage, ParseError>)
    ensures
        match r {
            Ok(m) => decoded(data@) == Ok::<ReceivedView, ParseFailure>(m@),
            Err(e) => e.line == data && decoded(data@) == Err::<ReceivedView, ParseFailure>(e.cause),
        },
{
    match parse_json(data.as_str()) {
        None => Err(ParseError { line: data, cause: ParseFailure::NotJson }),
        Some(j) => match ReceivedMessage::from_json(j) {
            Some(m) => Ok(m),
            None => Err(ParseError { line: data, cause: ParseFailure::UnknownShape }),
        },
    }
}


/// The JSON object of a reply to the command with id `id`.
pub open spec fn reply_json(ret: JsonView, id: usize) -> JsonView {
    JsonView::Object(seq![("return"@, ret), ("id"@, JsonView::PosInt(id as u64))])
}

/// An integer as JSON: non-negative integers and negative ones are kept apart.
pub open spec fn int_json(n: i64) -> JsonView {
    if n >= 0 {
        JsonView::PosInt(n as u64)
    } else {
        JsonView::NegInt(n)
    }
}

/// The JSON object of an event.
pub open spec fn event_json(timestamp: Timestamp, event: Seq<char>, data: JsonView) -> JsonView {
    JsonView::Object(
        seq![
            (
                "timestamp"@,
                JsonView::Object(
                    seq![
                        ("seconds"@, int_json(timestamp.seconds)),
                        ("microseconds"@, int_json(timestamp.microseconds)),
                    ],
                ),
            ),
            ("event"@, JsonView::Str(event)),
            ("data"@, data),
        ],
    )
}

/// A reply that carries any value and an id decodes as a reply with that same
/// value and id; in particular a reply wrapping a command's arguments gives
/// those arguments back exactly.
pub proof fn lemma_reply_round_trip(ret: JsonView, id: usize)
    ensures
        classify(reply_json(ret, id)) == Some(ReceivedView::Return(ReturnView { ret, id: Some(id) })),
{
    reveal_strlit("QMP");
    reveal_strlit("return");
    reveal_strlit("id");
    let e = seq![("return"@, ret), ("id"@, JsonView::PosInt(id as u64))];
    assert("QMP"@.len() == 3 && "return"@.len() == 6 && "id"@.len() == 2);
    let e1 = e.subrange(1, 2);
    assert(e1[0] == e[1]);
    assert(e1.subrange(1, 1) =~= Seq::<(Seq<char>, JsonView)>::empty());
    assert(e[0].0 != "QMP"@ && e1[0].0 != "QMP"@ && e[0].0 != "id"@);
    assert(member(e1.subrange(1, 1), "QMP"@) is None);
    assert(member(e1, "QMP"@) is None);
    assert(member(e, "QMP"@) is None);
    assert(member(e, "id"@) == member(e1, "id"@));
    assert(member(e, "id"@) == Some(JsonView::PosInt(id as u64)));
}


/// An event's JSON object decodes as that same event: timestamp, name and
/// payload are kept exactly.
pub proof fn lemma_event_round_trip(timestamp: Timestamp, event: Seq<char>, data: JsonView)
    ensures
        classify(event_json(timestamp, event, data)) == Some(
            ReceivedView::Event(EventView { timestamp, event, data }),
        ),
{
    reveal_strlit("QMP");
    reveal_strlit("return");
    reveal_strlit("timestamp");
    reveal_strlit("seconds");
    reveal_strlit("microseconds");
    reveal_strlit("event");
    reveal_strlit("data");
    assert("QMP"@.len() == 3 && "return"@.len() == 6 && "timestamp"@.len() == 9);
    assert("seconds"@.len() == 7 && "microseconds"@.len() == 12);
    assert("event"@.len() == 5 && "data"@.len() == 4);
    let t = seq![
        ("seconds"@, int_json(timestamp.seconds)),
        ("microseconds"@, int_json(timestamp.microseconds)),
    ];
    let e = seq![
        ("timestamp"@, JsonView::Object(t)),
        ("event"@, JsonView::Str(event)),
        ("data"@, data),
    ];
    let e1 = e.subrange(1, 3);
    let e2 = e1.subrange(1, 2);
    let e3 = e2.subrange(1, 1);
    let t1 = t.subrange(1, 2);
    assert(e1[0] == e[1] && e1[1] == e[2] && e2[0] == e[2] && t1[0] == t[1]);
    assert(e3 =~= Seq::<(Seq<char>, JsonView)>::empty());
    assert(e[0].0 != "QMP"@ && e1[0].0 != "QMP"@ && e2[0].0 != "QMP"@);
    assert(e[0].0 != "return"@ && e1[0].0 != "return"@ && e2[0].0 != "return"@);
    assert(e[0].0 != "event"@ && e[0].0 != "data"@ && e1[0].0 != "data"@);
    assert(t[0].0 != "microseconds"@);
    assert(member(e3, "QMP"@) is None && member(e3, "return"@) is None);
    assert(member(e2, "QMP"@) is None && member(e2, "return"@) is None);
    assert(member(e1, "QMP"@) is None && member(e1, "return"@) is None);
    assert(member(e, "QMP"@) is None);
    assert(member(e, "return"@) is None);
    assert(member(e, "event"@) == member(e1, "event"@));
    assert(member(e, "data"@) == member(e1, "data"@));
    assert(member(e1, "data"@) == member(e2, "data"@));
    assert(member(t, "microseconds"@) == member(t1, "microseconds"@));
    assert(i64_of(Some(int_json(timestamp.seconds))) == Some(timestamp.seconds));
    assert(i64_of(Some(int_json(timestamp.microseconds))) == Some(timestamp.microseconds));
}

} // verus!
