//! Progress reports to the editor. A report belongs to a token, a plain string such as
//! `alzed.download.1`: it is created once, begins, may report on the way, and ends.

use crate::codec::{json_bytes, json_parse, max_depth};
use crate::framing::framed;
use crate::json::{
    is_plain, lemma_plain_deeper, no_members, number_tree, Json, JsonObject, JsonTree,
};
use crate::rpc::{
    calls, frame_message, framed_message, kind_of, law_notification_is_its_members,
    law_notification_members, law_request_is_its_members, lemma_decimal_is_integer,
    lemma_notification_is_plain, lemma_request_is_plain, notification, notification_tree, request,
    request_tree, FrameKind,
};
use crate::text::decimal;
use vstd::prelude::*;

verus! {

/// The text of a message that may be absent.
pub open spec fn text_of(message: Option<&str>) -> Option<Seq<char>> {
    match message {
        Some(m) => Some(m@),
        None => None,
    }
}

/// Members, with a message where there is one.
pub open spec fn with_message(
    members: Map<Seq<char>, JsonTree>,
    message: Option<Seq<char>>,
) -> Map<Seq<char>, JsonTree> {
    match message {
        Some(m) => members.insert("message"@, JsonTree::Str(m)),
        None => members,
    }
}

/// What a report says at its beginning.
pub open spec fn begin_value(title: Seq<char>, message: Option<Seq<char>>) -> JsonTree {
    JsonTree::Object(
        with_message(
            no_members().insert("kind"@, JsonTree::Str("begin"@)).insert(
                "title"@,
                JsonTree::Str(title),
            ).insert("cancellable"@, JsonTree::Bool(false)),
            message,
        ),
    )
}

/// The percentage that is reported: never more than all.
pub open spec fn capped(percentage: u32) -> nat {
    if percentage <= 100 {
        percentage as nat
    } else {
        100
    }
}

/// What a report says on the way.
pub open spec fn report_value(percentage: Option<u32>, message: Option<Seq<char>>) -> JsonTree {
    let members = no_members().insert("kind"@, JsonTree::Str("report"@));
    JsonTree::Object(
        with_message(
            match percentage {
                Some(p) => members.insert("percentage"@, number_tree(capped(p))),
                None => members,
            },
            message,
        ),
    )
}

/// What a report says at its end.
pub open spec fn end_value(message: Option<Seq<char>>) -> JsonTree {
    JsonTree::Object(
        with_message(no_members().insert("kind"@, JsonTree::Str("end"@)), message),
    )
}

/// The request to make a token known.
pub open spec fn create_message(request_id: nat, token: Seq<char>) -> JsonTree {
    request_tree(
        request_id,
        "window/workDoneProgress/create"@,
        JsonTree::Object(no_members().insert("token"@, JsonTree::Str(token))),
    )
}

/// The notification of what the report of a token says.
pub open spec fn progress_message(token: Seq<char>, value: JsonTree) -> JsonTree {
    notification_tree(
        "$/progress"@,
        JsonTree::Object(
            no_members().insert("token"@, JsonTree::Str(token)).insert("value"@, value),
        ),
    )
}

/// Whether these bytes are the frame of a message whose text reads back as the message.
pub open spec fn carries(frame: Seq<u8>, message: JsonTree) -> bool {
    &&& frame == framed_message(message)
    &&& json_parse(json_bytes(message)) == Some(message)
}

/// Sets the message, where there is one.
fn add_message(members: JsonObject, message: Option<&str>) -> (r: JsonObject)
    ensures
        r@ == with_message(members@, text_of(message)),
{
    match message {
        Some(m) => members.with("message", Json::string(m)),
        None => members,
    }
}

/// Builds what a report says at its beginning.
pub fn begin_report(title: &str, message: Option<&str>) -> (r: Json)
    ensures
        r@ == begin_value(title@, text_of(message)),
{
    let members: JsonObject = JsonObject::new().with("kind", Json::string("begin")).with(
        "title",
        Json::string(title),
    ).with("cancellable", Json::Bool(false));
    Json::Object(add_message(members, message))
}

/// Builds what a report says on the way.
pub fn further_report(percentage: Option<u32>, message: Option<&str>) -> (r: Json)
    ensures
        r@ == report_value(percentage, text_of(message)),
{
    let mut members: JsonObject = JsonObject::new().with("kind", Json::string("report"));
    if let Some(p) = percentage {
        let shown: u64 = if p <= 100 {
            p as u64
        } else {
            100
        };
        members = members.with("percentage", Json::number(shown));
    }
    Json::Object(add_message(members, message))
}

/// Builds what a report says at its end.
pub fn end_report(message: Option<&str>) -> (r: Json)
    ensures
        r@ == end_value(text_of(message)),
{
    let members: JsonObject = JsonObject::new().with("kind", Json::string("end"));
    Json::Object(add_message(members, message))
}

/// Builds the request to make a token known.
pub fn create_request(request_id: u64, token: &str) -> (r: Json)
    ensures
        r@ == create_message(request_id as nat, token@),
{
    request(
        request_id,
        "window/workDoneProgress/create",
        Json::Object(JsonObject::new().with("token", Json::string(token))),
    )
}

/// Builds the notification of what the report of a token says.
pub fn progress_notification(token: &str, value: Json) -> (r: Json)
    ensures
        r@ == progress_message(token@, value@),
{
    notification(
        "$/progress",
        Json::Object(JsonObject::new().with("token", Json::string(token)).with("value", value)),
    )
}

/// Makes the frame with the request to make a token known, and hands back the id of the
/// request, by which the caller can tell the editor's answer.
pub fn create(request_id: u64, token: &str) -> (r: (u64, Vec<u8>))
    ensures
        r.0 == request_id,
        carries(r.1@, create_message(request_id as nat, token@)),
{
    proof {
        let params = JsonTree::Object(no_members().insert("token"@, JsonTree::Str(token@)));
        reveal_with_fuel(is_plain, 2);
        lemma_request_is_plain(
            request_id as nat,
            "window/workDoneProgress/create"@,
            params,
            (max_depth() - 1) as nat,
        );
    }
    (request_id, frame_message(create_request(request_id, token)))
}

/// Makes the frame with the notification that a report begins.
pub fn begin(token: &str, title: &str, message: Option<&str>) -> (r: Vec<u8>)
    ensures
        carries(r@, progress_message(token@, begin_value(title@, text_of(message)))),
{
    proof {
        reveal_with_fuel(is_plain, 2);
    }
    send_notification(token, begin_report(title, message))
}

/// Makes the frame with the notification of how far a report has come.
pub fn report(token: &str, percentage: Option<u32>, message: Option<&str>) -> (r: Vec<u8>)
    ensures
        carries(r@, progress_message(token@, report_value(percentage, text_of(message)))),
{
    proof {
        reveal_with_fuel(is_plain, 2);
        if let Some(p) = percentage {
            lemma_decimal_is_integer(capped(p));
        }
    }
    send_notification(token, further_report(percentage, message))
}

/// Makes the frame with the notification that a report ends.
pub fn end(token: &str, message: Option<&str>) -> (r: Vec<u8>)
    ensures
        carries(r@, progress_message(token@, end_value(text_of(message)))),
{
    proof {
        reveal_with_fuel(is_plain, 2);
    }
    send_notification(token, end_report(message))
}

/// Makes the frame with the notification of what the report of a token says.
fn send_notification(token: &str, value: Json) -> (r: Vec<u8>)
    requires
        is_plain(value@, 1),
    ensures
        carries(r@, progress_message(token@, value@)),
{
    proof {
        let depth = (max_depth() - 1) as nat;
        let params = JsonTree::Object(
            no_members().insert("token"@, JsonTree::Str(token@)).insert("value"@, value@),
        );
        lemma_plain_deeper(value@, 1, (depth - 1) as nat);
        assert(is_plain(JsonTree::Str(token@), (depth - 1) as nat));
        assert(is_plain(params, depth));
        lemma_notification_is_plain("$/progress"@, params, depth);
    }
    frame_message(progress_notification(token, value))
}

/// A report says which token it is for and what it says, and asks for no answer.
pub proof fn law_reports_name_their_token(token: Seq<char>, value: JsonTree)
    ensures
        ({
            let message = progress_message(token, value);
            &&& kind_of(message) == FrameKind::Notification
            &&& calls(message, "$/progress"@)
            &&& message.get("params"@) matches Some(params)
            &&& params.get_str("token"@) == Some(token)
            &&& params.get("value"@) == Some(value)
        }),
{
    let params = JsonTree::Object(
        no_members().insert("token"@, JsonTree::Str(token)).insert("value"@, value),
    );
    law_notification_members("$/progress"@, params);
    reveal_strlit("token");
    reveal_strlit("value");
    assert("token"@[0] != "value"@[0]);
}

/// What a report says on the way: how far it has come, never more than all, and its message,
/// each where it is given.
pub proof fn law_percentages_are_capped(percentage: Option<u32>, message: Option<Seq<char>>)
    ensures
        ({
            let value = report_value(percentage, message);
            &&& value.get_str("kind"@) == Some("report"@)
            &&& value.get_str("message"@) == message
            &&& value.get("percentage"@) == (match percentage {
                Some(p) => Some(number_tree(capped(p))),
                None => None,
            })
            &&& percentage matches Some(p) ==> capped(p) <= 100
        }),
{
    reveal_strlit("kind");
    reveal_strlit("percentage");
    reveal_strlit("message");
    assert("kind"@.len() == 4 && "percentage"@.len() == 10 && "message"@.len() == 7);
}

/// A report begins with its title and cannot be cancelled; its message is there where one is
/// given, as it is given.
pub proof fn law_beginnings_say_title_and_message(
    title: Seq<char>,
    message: Option<Seq<char>>,
    key: Seq<char>,
)
    ensures
        ({
            let value = begin_value(title, message);
            &&& value is Object
            &&& value.get("kind"@) == Some(JsonTree::Str("begin"@))
            &&& value.get("title"@) == Some(JsonTree::Str(title))
            &&& value.get("cancellable"@) == Some(JsonTree::Bool(false))
            &&& message matches Some(m) ==> value.get("message"@) == Some(JsonTree::Str(m))
            &&& message is None ==> value.get("message"@) is None
            &&& value.get(key) is Some ==> key == "kind"@ || key == "title"@ || key
                == "cancellable"@ || key == "message"@
        }),
{
    reveal_strlit("kind");
    reveal_strlit("title");
    reveal_strlit("cancellable");
    reveal_strlit("message");
    assert("kind"@.len() == 4 && "title"@.len() == 5 && "cancellable"@.len() == 11
        && "message"@.len() == 7);
}

/// A report on the way says how far it has come, up to a hundred, and its message, each
/// where it is given, and nothing else.
pub proof fn law_reports_say_percentage_and_message(
    percentage: Option<u32>,
    message: Option<Seq<char>>,
    key: Seq<char>,
)
    ensures
        ({
            let value = report_value(percentage, message);
            &&& value is Object
            &&& value.get("kind"@) == Some(JsonTree::Str("report"@))
            &&& percentage matches Some(p) ==> p <= 100 ==> value.get("percentage"@) == Some(
                JsonTree::Number(decimal(p as nat)),
            )
            &&& percentage matches Some(p) ==> p > 100 ==> value.get("percentage"@) == Some(
                JsonTree::Number(decimal(100)),
            )
            &&& percentage is None ==> value.get("percentage"@) is None
            &&& message matches Some(m) ==> value.get("message"@) == Some(JsonTree::Str(m))
            &&& message is None ==> value.get("message"@) is None
            &&& value.get(key) is Some ==> key == "kind"@ || key == "percentage"@ || key
                == "message"@
        }),
{
    reveal_strlit("kind");
    reveal_strlit("percentage");
    reveal_strlit("message");
    assert("kind"@.len() == 4 && "percentage"@.len() == 10 && "message"@.len() == 7);
}

/// A report ends with its message, where one is given.
pub proof fn law_ends_say_the_message(message: Option<Seq<char>>, key: Seq<char>)
    ensures
        ({
            let value = end_value(message);
            &&& value is Object
            &&& value.get("kind"@) == Some(JsonTree::Str("end"@))
            &&& message matches Some(m) ==> value.get("message"@) == Some(JsonTree::Str(m))
            &&& message is None ==> value.get("message"@) is None
            &&& value.get(key) is Some ==> key == "kind"@ || key == "message"@
        }),
{
    reveal_strlit("kind");
    reveal_strlit("message");
    assert("kind"@.len() == 4 && "message"@.len() == 7);
}

/// A token is made known by a request that names it, and reported on by notifications that
/// name it and what is said.
pub proof fn law_tokens_are_named_as_they_are(
    request_id: nat,
    token: Seq<char>,
    value: JsonTree,
    key: Seq<char>,
)
    ensures
        ({
            let message = create_message(request_id, token);
            &&& message.get("jsonrpc"@) == Some(JsonTree::Str("2.0"@))
            &&& message.get("id"@) == Some(JsonTree::Number(decimal(request_id)))
            &&& message.get("method"@) == Some(JsonTree::Str("window/workDoneProgress/create"@))
            &&& message.get("params"@) matches Some(params)
            &&& params is Object
            &&& params.get("token"@) == Some(JsonTree::Str(token))
            &&& params.get(key) is Some ==> key == "token"@
        }),
        ({
            let message = progress_message(token, value);
            &&& message.get("jsonrpc"@) == Some(JsonTree::Str("2.0"@))
            &&& message.get("id"@) is None
            &&& message.get("method"@) == Some(JsonTree::Str("$/progress"@))
            &&& message.get("params"@) matches Some(params)
            &&& params is Object
            &&& params.get("token"@) == Some(JsonTree::Str(token))
            &&& params.get("value"@) == Some(value)
            &&& params.get(key) is Some ==> key == "token"@ || key == "value"@
        }),
{
    let made = JsonTree::Object(no_members().insert("token"@, JsonTree::Str(token)));
    let said = JsonTree::Object(
        no_members().insert("token"@, JsonTree::Str(token)).insert("value"@, value),
    );
    law_request_is_its_members(request_id, "window/workDoneProgress/create"@, made, key);
    law_notification_is_its_members("$/progress"@, said, key);
    law_notification_members("$/progress"@, said);
    reveal_strlit("token");
    reveal_strlit("value");
    assert("token"@[0] != "value"@[0]);
}

/// Bytes carry a message where they are its frame and its text reads back.
pub proof fn law_what_carries_a_message(frame: Seq<u8>, message: JsonTree)
    requires
        carries(frame, message),
    ensures
        frame == framed(json_bytes(message)),
        json_parse(json_bytes(message)) == Some(message),
{
}

/// The text of a message is what was given.
pub proof fn law_messages_are_what_was_given(message: &str)
    ensures
        text_of(Some(message)) == Some(message@),
        text_of(None) is None,
{
}

} // verus!
