//! Messages that originate from the client: the commands it sends.
use crate::json::{
    entries_view, get, items_view, json_parse, json_render, key, lemma_entries_view,
    lemma_items_view, member, member_in, parse_json, render_json, str_of, take_member, to_str,
    to_usize, usize_of, Json, JsonView,
};
use vstd::prelude::*;

verus! {

/// A command: its name, its arguments, and the id that its reply will carry.
#[derive(Debug)]
pub struct Message {
    pub execute: String,
    pub arguments: Vec<(String, Json)>,
    pub id: usize,
}

/// A message whose arguments hold a number that JSON text cannot carry.
#[derive(Debug)]
pub enum EncodeError {
    Unrepresentable,
}

pub struct CommandView {
    pub execute: Seq<char>,
    pub arguments: Seq<(Seq<char>, JsonView)>,
    pub id: usize,
}

impl View for Message {
    type V = CommandView;

    open spec fn view(&self) -> CommandView {
        CommandView { execute: self.execute@, arguments: entries_view(self.arguments@), id: self.id }
    }
}

/// The JSON object a command is sent as:
/// `{"execute": <command>, "arguments": <object>, "id": <integer>}`.
pub open spec fn command_json(c: CommandView) -> JsonView {
    JsonView::Object(
        seq![
            ("execute"@, JsonView::Str(c.execute)),
            ("arguments"@, JsonView::Object(c.arguments)),
            ("id"@, JsonView::PosInt(c.id as u64)),
        ],
    )
}

/// The command held by the JSON value `j`.
pub open spec fn command_of(j: JsonView) -> Option<CommandView> {
    let execute = str_of(get(j, "execute"@));
    let id = usize_of(get(j, "id"@));
    match get(j, "arguments"@) {
        Some(JsonView::Object(arguments)) => if execute is Some && id is Some {
            Some(CommandView { execute: execute->0, arguments, id: id->0 })
        } else {
            None
        },
        _ => None,
    }
}

/// The capability negotiation command, which enables out-of-band execution.
pub open spec fn capabilities_view(id: usize) -> CommandView {
    CommandView {
        execute: "qmp_capabilities"@,
        arguments: seq![("enable"@, JsonView::Array(seq![JsonView::Str("oob"@)]))],
        id,
    }
}

impl Message {
    pub fn new(command: String, arguments: Vec<(String, Json)>, id: usize) -> (r: Message)
        ensures
            r.execute == command,
            r.arguments == arguments,
            r.id == id,
    {
        Message { execute: command, arguments, id }
    }

    /// The JSON object this command is sent as.
    pub fn to_json(self) -> (r: Json)
        ensures
            r@ == command_json(self@),
    {
        let entries = vec![
            (key("execute"), Json::Str(self.execute)),
            (key("arguments"), Json::Object(self.arguments)),
            (key("id"), Json::PosInt(self.id as u64)),
        ];
        proof {
            lemma_entries_view(entries@);
        }
        let r = Json::Object(entries);
        assert(r@ == command_json(self@)) by {
            assert(entries_view(entries@) =~= seq![
                ("execute"@, JsonView::Str(self.execute@)),
                ("arguments"@, JsonView::Object(entries_view(self.arguments@))),
                ("id"@, JsonView::PosInt(self.id as u64)),
            ]);
        }
        r
    }

    /// The command as one line of compact JSON text, without the line end.
    pub fn encode(self) -> (r: Result<String, EncodeError>)
        ensures
            match json_render(command_json(self@)) {
                Some(t) => r is Ok && r->Ok_0@ == t,
                None => r is Err,
            },
    {
        let j = self.to_json();
        match render_json(&j) {
            Some(t) => Ok(t),
            None => Err(EncodeError::Unrepresentable),
        }
    }

    /// The command held by the JSON value `j`.
    pub fn from_json(j: Json) -> (r: Option<Message>)
        ensures
            match r {
                Some(m) => command_of(j@) == Some(m@),
                None => command_of(j@) is None,
            },
    {
        let execute = to_str(member_in(Some(&j), &key("execute")));
        let id = to_usize(member_in(Some(&j), &key("id")));
        let is_object = match member_in(Some(&j), &key("arguments")) {
            Some(Json::Object(_)) => true,
            _ => false,
        };
        match (execute, id) {
            (Some(execute), Some(id)) => if is_object {
                match take_member(j, &key("arguments")) {
                    Some(Json::Object(arguments)) => Some(Message { execute, arguments, id }),
                    _ => None,
                }
            } else {
                None
            },
            _ => None,
        }
    }

    /// The command held by one line of JSON text.
    pub fn decode(text: &str) -> (r: Option<Message>)
        ensures
            match r {
                Some(m) => json_parse(text@) is Some && command_of(json_parse(text@)->0) == Some(m@),
                None => json_parse(text@) is None || command_of(json_parse(text@)->0) is None,
            },
    {
        match parse_json(text) {
            Some(j) => Message::from_json(j),
            None => None,
        }
    }
}

/// The capability negotiation command with id `id`: it enables out-of-band
/// execution, and the server expects it in answer to its greeting.
pub fn capabilities(id: usize) -> (r: Message)
    ensures
        r@ == capabilities_view(id),
{
    let items = vec![Json::Str(key("oob"))];
    let arguments = vec![(key("enable"), Json::Array(items))];
    let r = Message::new(key("qmp_capabilities"), arguments, id);
    proof {
        lemma_entries_view(arguments@);
        lemma_items_view(items@);
    }
    assert(r@ == capabilities_view(id)) by {
        assert(items_view(items@) =~= seq![JsonView::Str("oob"@)]);
        assert(entries_view(arguments@) =~= seq![("enable"@, JsonView::Array(seq![JsonView::Str("oob"@)]))]);
    }
    r
}


/// A command's JSON object reads back as the same command: the name, the
/// arguments and the id are kept exactly.
pub proof fn lemma_command_round_trip(c: CommandView)
    ensures
        command_of(command_json(c)) == Some(c),
{
    reveal_strlit("execute");
    reveal_strlit("arguments");
    reveal_strlit("id");
    let e = seq![
        ("execute"@, JsonView::Str(c.execute)),
        ("arguments"@, JsonView::Object(c.arguments)),
        ("id"@, JsonView::PosInt(c.id as u64)),
    ];
    assert("execute"@.len() == 7 && "arguments"@.len() == 9 && "id"@.len() == 2);
    let e1 = e.subrange(1, 3);
    let e2 = e1.subrange(1, 2);
    assert(e2[0] == e[2]);
    assert(e1[0] == e[1]);
    assert(member(e, "execute"@) == Some(JsonView::Str(c.execute)));
    assert(e[0].0 != "arguments"@);
    assert(member(e, "arguments"@) == member(e1, "arguments"@));
    assert(member(e1, "arguments"@) == Some(JsonView::Object(c.arguments)));
    assert(e[0].0 != "id"@ && e1[0].0 != "id"@);
    assert(member(e, "id"@) == member(e1, "id"@));
    assert(member(e1, "id"@) == member(e2, "id"@));
    assert(member(e2, "id"@) == Some(JsonView::PosInt(c.id as u64)));
}

} // verus!
