//! JSON-RPC messages: building them, and telling them apart.

use crate::codec::{from_bytes, json_bytes, json_parse, json_text, max_depth, to_bytes, to_text};
use crate::framing::{frame, framed};
use crate::json::{
    is_integer_text, is_plain, no_members, number_tree, Json, JsonObject, JsonTree,
};
use crate::text::{decimal, is_digit, lemma_decimal, text_eq};
use vstd::prelude::*;
use vstd::utf8::*;

verus! {

/// A request.
pub open spec fn request_tree(id: nat, method: Seq<char>, params: JsonTree) -> JsonTree {
    JsonTree::Object(
        no_members().insert("jsonrpc"@, JsonTree::Str("2.0"@)).insert("id"@, number_tree(id)).insert(
            "method"@,
            JsonTree::Str(method),
        ).insert("params"@, params),
    )
}

/// A notification: a message that has no id and gets no answer.
pub open spec fn notification_tree(method: Seq<char>, params: JsonTree) -> JsonTree {
    JsonTree::Object(
        no_members().insert("jsonrpc"@, JsonTree::Str("2.0"@)).insert(
            "method"@,
            JsonTree::Str(method),
        ).insert("params"@, params),
    )
}

/// Builds a request.
pub fn request(id: u64, method: &str, params: Json) -> (r: Json)
    ensures
        r@ == request_tree(id as nat, method@, params@),
{
    Json::Object(
        JsonObject::new().with("jsonrpc", Json::string("2.0")).with("id", Json::number(id)).with(
            "method",
            Json::string(method),
        ).with("params", params),
    )
}

/// Builds a notification.
pub fn notification(method: &str, params: Json) -> (r: Json)
    ensures
        r@ == notification_tree(method@, params@),
{
    Json::Object(
        JsonObject::new().with("jsonrpc", Json::string("2.0")).with(
            "method",
            Json::string(method),
        ).with("params", params),
    )
}

/// The frame around a message's text.
pub open spec fn framed_message(message: JsonTree) -> Seq<u8> {
    framed(json_bytes(message))
}

/// Writes a message and puts the frame around it. Who takes the payload out of the frame
/// reads the message back, where it is plain.
pub fn frame_message(message: Json) -> (r: Vec<u8>)
    ensures
        r@ == framed_message(message@),
        is_plain(message@, max_depth()) ==> json_parse(json_bytes(message@)) == Some(message@),
{
    let payload: Vec<u8> = to_bytes(message);
    frame(payload.as_slice())
}

/// Whether a message calls a method.
pub open spec fn calls(message: JsonTree, method: Seq<char>) -> bool {
    message.get_str("method"@) == Some(method)
}

/// Whether a message calls a method.
pub fn is_method_value(v: &Json, method: &str) -> (r: bool)
    ensures
        r == calls(v@, method@),
{
    match v.get_str("method") {
        Some(m) => text_eq(m, method),
        None => false,
    }
}

/// Whether bytes are a message that calls a method.
pub fn is_method(body: &[u8], method: &str) -> (r: bool)
    ensures
        r == (match json_parse(body@) {
            Some(t) => calls(t, method@),
            None => false,
        }),
{
    match from_bytes(body) {
        Ok(v) => is_method_value(&v, method),
        Err(_) => false,
    }
}

/// What a message is, going by the members that it has.
#[derive(Debug, Clone, Copy, PartialEq, Eq, Structural)]
pub enum FrameKind {
    Request,
    Notification,
    Response,
    Error,
    Unknown,
}

/// What a message is, going by the members that it has.
pub open spec fn kind_of(message: JsonTree) -> FrameKind {
    if message.get("method"@) is Some {
        if message.get("id"@) is Some {
            FrameKind::Request
        } else {
            FrameKind::Notification
        }
    } else if message.get("result"@) is Some {
        FrameKind::Response
    } else if message.get("error"@) is Some {
        FrameKind::Error
    } else {
        FrameKind::Unknown
    }
}

/// Tells what a message is, going by the members that it has.
pub fn frame_kind(v: &Json) -> (r: FrameKind)
    ensures
        r == kind_of(v@),
{
    if v.get("method").is_some() {
        if v.get("id").is_some() {
            FrameKind::Request
        } else {
            FrameKind::Notification
        }
    } else if v.get("result").is_some() {
        FrameKind::Response
    } else if v.get("error").is_some() {
        FrameKind::Error
    } else {
        FrameKind::Unknown
    }
}

/// The part of a message that says the most of it: its parameters, else its result, else
/// its error.
pub open spec fn payload_of(message: JsonTree) -> Option<JsonTree> {
    if message.get("params"@) is Some {
        message.get("params"@)
    } else if message.get("result"@) is Some {
        message.get("result"@)
    } else {
        message.get("error"@)
    }
}

/// The part of a message that says the most of it: its parameters, else its result, else
/// its error.
pub fn frame_payload(v: &Json) -> (r: Option<&Json>)
    ensures
        match r {
            Some(j) => payload_of(v@) == Some(j@),
            None => payload_of(v@) is None,
        },
{
    match v.get("params") {
        Some(j) => Some(j),
        None => match v.get("result") {
            Some(j) => Some(j),
            None => v.get("error"),
        },
    }
}

impl FrameKind {
    /// The name of the kind.
    pub open spec fn name(self) -> Seq<char> {
        match self {
            FrameKind::Request => "request"@,
            FrameKind::Notification => "notif"@,
            FrameKind::Response => "response"@,
            FrameKind::Error => "error"@,
            FrameKind::Unknown => "?"@,
        }
    }

    /// The name of the kind.
    pub fn label(self) -> (r: &'static str)
        ensures
            r@ == self.name(),
    {
        match self {
            FrameKind::Request => "request",
            FrameKind::Notification => "notif",
            FrameKind::Response => "response",
            FrameKind::Error => "error",
            FrameKind::Unknown => "?",
        }
    }
}

/// What a log line says of a message.
#[derive(Debug)]
pub struct FrameSummary {
    pub kind: FrameKind,
    /// The text of the id.
    pub id: Option<String>,
    /// The method that the message calls.
    pub method: Option<String>,
    /// The text of the part of the message that says the most of it; empty where it has
    /// none.
    pub payload: String,
}

/// The text of a value that may be absent.
pub open spec fn written(t: Option<JsonTree>) -> Option<Seq<char>> {
    match t {
        Some(t) => Some(json_text(t)),
        None => None,
    }
}

/// The characters of a string that may be absent.
pub open spec fn characters(s: Option<String>) -> Option<Seq<char>> {
    match s {
        Some(s) => Some(s@),
        None => None,
    }
}

/// Sums up a message for a log line.
pub fn trace_frame(v: &Json) -> (r: FrameSummary)
    ensures
        r.kind == kind_of(v@),
        characters(r.id) == written(v@.get("id"@)),
        characters(r.method) == v@.get_str("method"@),
        r.payload@ == (match payload_of(v@) {
            Some(t) => json_text(t),
            None => Seq::empty(),
        }),
{
    let id: Option<String> = match v.get("id") {
        Some(id) => Some(to_text(id.copy())),
        None => None,
    };
    let method: Option<String> = match v.get_str("method") {
        Some(method) => Some(method.to_owned()),
        None => None,
    };
    let payload: String = match frame_payload(v) {
        Some(payload) => to_text(payload.copy()),
        None => String::new(),
    };
    FrameSummary { kind: frame_kind(v), id, method, payload }
}

/// The members of a request are what it was built from.
pub proof fn law_request_members(id: nat, method: Seq<char>, params: JsonTree)
    ensures
        ({
            let message = request_tree(id, method, params);
            &&& message.get("id"@) == Some(number_tree(id))
            &&& calls(message, method)
            &&& message.get("params"@) == Some(params)
            &&& kind_of(message) == FrameKind::Request
        }),
{
    reveal_strlit("jsonrpc");
    reveal_strlit("id");
    reveal_strlit("method");
    reveal_strlit("params");
    assert("id"@.len() != "method"@.len());
    assert("params"@.len() == "method"@.len() && "params"@[0] != "method"@[0]);
}

/// The members of a notification are what it was built from, and it has no id.
pub proof fn law_notification_members(method: Seq<char>, params: JsonTree)
    ensures
        ({
            let message = notification_tree(method, params);
            &&& message.get("id"@) is None
            &&& calls(message, method)
            &&& message.get("params"@) == Some(params)
            &&& kind_of(message) == FrameKind::Notification
        }),
{
    reveal_strlit("jsonrpc");
    reveal_strlit("id");
    reveal_strlit("method");
    reveal_strlit("params");
    assert("id"@.len() != "method"@.len() && "id"@.len() != "jsonrpc"@.len());
    assert("params"@.len() == "method"@.len() && "params"@[0] != "method"@[0]);
    assert("id"@ != "params"@ && "id"@ != "method"@ && "id"@ != "jsonrpc"@);
}

/// A decimal numeral is the text of an integer.
pub proof fn lemma_decimal_is_integer(n: nat)
    ensures
        is_integer_text(decimal(n)),
{
    lemma_decimal(n);
    assert(is_digit(decimal(n)[0]));
}

/// A request with plain parameters is plain.
pub proof fn lemma_request_is_plain(id: nat, method: Seq<char>, params: JsonTree, depth: nat)
    requires
        is_plain(params, depth),
    ensures
        is_plain(request_tree(id, method, params), depth + 1),
{
    reveal_with_fuel(is_plain, 2);
    lemma_decimal_is_integer(id);
}

/// A notification with plain parameters is plain.
pub proof fn lemma_notification_is_plain(method: Seq<char>, params: JsonTree, depth: nat)
    requires
        is_plain(params, depth),
    ensures
        is_plain(notification_tree(method, params), depth + 1),
{
    reveal_with_fuel(is_plain, 2);
}

/// A request is an object of four members: the version of the protocol, the id, the method
/// and the parameters, each as it was given.
pub proof fn law_request_is_its_members(
    id: nat,
    method: Seq<char>,
    params: JsonTree,
    key: Seq<char>,
)
    ensures
        ({
            let message = request_tree(id, method, params);
            &&& message is Object
            &&& message.get("jsonrpc"@) == Some(JsonTree::Str("2.0"@))
            &&& message.get("id"@) == Some(JsonTree::Number(decimal(id)))
            &&& message.get("method"@) == Some(JsonTree::Str(method))
            &&& message.get("params"@) == Some(params)
            &&& message.get(key) is Some ==> key == "jsonrpc"@ || key == "id"@ || key == "method"@
                || key == "params"@
        }),
{
    lemma_member_names_differ();
}

/// A notification is an object of three members: the version of the protocol, the method and
/// the parameters, each as it was given.
pub proof fn law_notification_is_its_members(
    method: Seq<char>,
    params: JsonTree,
    key: Seq<char>,
)
    ensures
        ({
            let message = notification_tree(method, params);
            &&& message is Object
            &&& message.get("jsonrpc"@) == Some(JsonTree::Str("2.0"@))
            &&& message.get("method"@) == Some(JsonTree::Str(method))
            &&& message.get("params"@) == Some(params)
            &&& message.get(key) is Some ==> key == "jsonrpc"@ || key == "method"@ || key
                == "params"@
        }),
{
    lemma_member_names_differ();
}

/// The names of a message's members differ.
proof fn lemma_member_names_differ()
    ensures
        "jsonrpc"@.len() == 7,
        "id"@.len() == 2,
        "method"@.len() == 6,
        "params"@.len() == 6,
        "method"@[0] == 'm',
        "params"@[0] == 'p',
{
    reveal_strlit("jsonrpc");
    reveal_strlit("id");
    reveal_strlit("method");
    reveal_strlit("params");
}

/// A message calls the method that its member `method` names, and no other.
pub proof fn law_calls_go_by_the_method(message: JsonTree, method: Seq<char>)
    ensures
        calls(message, method) <==> message.get("method"@) == Some(JsonTree::Str(method)),
{
}

/// The kind of a message goes by which of the four members it has.
pub proof fn law_kinds_go_by_the_members(message: JsonTree)
    ensures
        kind_of(message) == FrameKind::Request <==> message.get("method"@) is Some && message.get(
            "id"@,
        ) is Some,
        kind_of(message) == FrameKind::Notification <==> message.get("method"@) is Some
            && message.get("id"@) is None,
        kind_of(message) == FrameKind::Response <==> message.get("method"@) is None && message.get(
            "result"@,
        ) is Some,
        kind_of(message) == FrameKind::Error <==> message.get("method"@) is None && message.get(
            "result"@,
        ) is None && message.get("error"@) is Some,
{
}

/// What a log line shows of a message is its parameters, else its result, else its error.
pub proof fn law_payload_is_what_says_most(message: JsonTree)
    ensures
        message.get("params"@) is Some ==> payload_of(message) == message.get("params"@),
        message.get("params"@) is None && message.get("result"@) is Some ==> payload_of(message)
            == message.get("result"@),
        message.get("params"@) is None && message.get("result"@) is None ==> payload_of(message)
            == message.get("error"@),
{
}

/// Kinds are named apart from each other.
pub proof fn law_kinds_are_named()
    ensures
        FrameKind::Request.name() == "request"@,
        FrameKind::Notification.name() == "notif"@,
        FrameKind::Response.name() == "response"@,
        FrameKind::Error.name() == "error"@,
        FrameKind::Unknown.name() == "?"@,
{
}

/// The frame of a message holds the message's text and nothing else.
pub proof fn law_frames_hold_the_text(message: JsonTree)
    ensures
        framed_message(message) == framed(encode_utf8(json_text(message))),
        written(Some(message)) == Some(json_text(message)),
        written(None) is None,
{
}

} // verus!
