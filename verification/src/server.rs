//! Messages from the AL server to the editor.

use crate::codec::{
    from_bytes, json_bytes, json_parse, json_text, max_depth, to_bytes, to_text,
};
use crate::framing::{frame, framed};
use crate::json::{
    id_text, is_plain, json_id_to_string, no_members, number_tree, tree_of, Json, JsonTree,
};
use crate::rpc::{calls, is_method_value};
use crate::session::{
    bridge_id, law_low_ids_are_not_the_bridges, law_new_ids_are_fresh, Session, SessionModel,
    BRIDGE_ID_BASE,
};
use crate::text::decimal;
use vstd::prelude::*;

verus! {

/// What a message from the AL server tells the bridge itself.
#[derive(Debug)]
pub enum ServerEvent {
    /// Nothing.
    Nothing,
    /// The answer to a request of the bridge: whether it is an error, and the text of the
    /// error or of the result, which is empty where there is none.
    Answered { method: String, failed: bool, detail: String },
    /// A project is loaded: the AL server's features respond from now on.
    ProjectLoaded { folder: String },
}

/// `ServerEvent` as mathematics.
pub ghost enum EventModel {
    Nothing,
    Answered { method: Seq<char>, failed: bool, detail: Seq<char> },
    ProjectLoaded { folder: Seq<char> },
}

impl View for ServerEvent {
    type V = EventModel;

    open spec fn view(&self) -> EventModel {
        match self {
            ServerEvent::Nothing => EventModel::Nothing,
            ServerEvent::Answered { method, failed, detail } => EventModel::Answered {
                method: method@,
                failed: *failed,
                detail: detail@,
            },
            ServerEvent::ProjectLoaded { folder } => EventModel::ProjectLoaded { folder: folder@ },
        }
    }
}

/// What is to be done about a message from the AL server.
#[derive(Debug)]
pub struct ServerStep {
    /// The frame to send to the editor, if any.
    pub to_client: Option<Vec<u8>>,
    /// What the message tells the bridge itself.
    pub event: ServerEvent,
}

/// The id of the request that a message answers. Both sides number their own requests, so a
/// message that calls a method answers none, whatever its id is.
pub open spec fn answered_id(message: JsonTree) -> Option<Seq<char>> {
    if message.get_str("method"@) is None {
        id_text(message.get("id"@))
    } else {
        None
    }
}

/// Tells the id of the request that a message answers.
pub fn read_answered_id(v: &Json) -> (r: Option<String>)
    ensures
        match r {
            Some(id) => answered_id(v@) == Some(id@),
            None => answered_id(v@) is None,
        },
{
    if v.get_str("method").is_none() {
        json_id_to_string(v.get("id"))
    } else {
        None
    }
}

/// Whether a message is the answer to a request of the bridge.
pub open spec fn answers_bridge(s: SessionModel, message: JsonTree) -> bool {
    match answered_id(message) {
        Some(id) => s.inflight.contains_key(id),
        None => false,
    }
}

/// Whether a message is the answer to a hover request of the editor.
pub open spec fn answers_hover(s: SessionModel, message: JsonTree) -> bool {
    match answered_id(message) {
        Some(id) => s.hover_ids.contains(id),
        None => false,
    }
}

/// Whether the result of a message is an object without members.
pub open spec fn has_empty_result(message: JsonTree) -> bool {
    message.get("result"@) == Some(JsonTree::Object(no_members()))
}

/// A message with `null` for its result.
pub open spec fn with_null_result(message: JsonTree) -> JsonTree {
    match message {
        JsonTree::Object(m) => JsonTree::Object(m.insert("result"@, JsonTree::Null)),
        _ => message,
    }
}

/// The session without the hover request that a message answers.
pub open spec fn hover_settled(s: SessionModel, message: JsonTree) -> SessionModel {
    match answered_id(message) {
        Some(id) => SessionModel { hover_ids: s.hover_ids.remove(id), ..s },
        None => s,
    }
}

/// The payload that the editor gets in place of the AL server's: the same bytes, but for an
/// empty hover, for which the AL server says `{}` and the editor expects `null`.
pub open spec fn normalized(s: SessionModel, message: JsonTree, body: Seq<u8>) -> Seq<u8> {
    if answers_hover(s, message) && has_empty_result(message) {
        json_bytes(with_null_result(message))
    } else {
        body
    }
}

/// The message with `null` for its result, where that is an object without members.
pub fn null_for_empty_result(v: &Json) -> (r: Option<Json>)
    ensures
        match r {
            Some(j) => has_empty_result(v@) && j@ == with_null_result(v@),
            None => !has_empty_result(v@),
        },
{
    let empty: bool = match v.get("result") {
        Some(Json::Object(o)) => o.is_empty(),
        _ => false,
    };
    if !empty {
        return None;
    }
    match v.copy() {
        Json::Object(o) => Some(Json::Object(o.with("result", Json::Null))),
        other => Some(other),
    }
}

/// A plain message stays plain with `null` for its result.
proof fn lemma_null_result_is_plain(message: JsonTree, depth: nat)
    ensures
        is_plain(message, depth) ==> is_plain(with_null_result(message), depth),
{
    reveal_with_fuel(is_plain, 2);
}

/// Settles the hover request that a message answers, and puts `null` for its result where
/// that is an object without members.
pub fn maybe_normalize_hover(v: &Json, body: &[u8], session: &mut Session) -> (r: Vec<u8>)
    ensures
        r@ == normalized(old(session)@, v@, body@),
        final(session)@ == hover_settled(old(session)@, v@),
        old(session)@.valid() ==> final(session)@.valid(),
        answers_hover(old(session)@, v@) && has_empty_result(v@) && is_plain(v@, max_depth())
            ==> json_parse(r@) == Some(with_null_result(v@)),
{
    let is_hover: bool = match read_answered_id(v) {
        Some(id) => session.take_hover(id.as_str()),
        None => false,
    };
    if is_hover {
        if let Some(patched) = null_for_empty_result(v) {
            proof {
                lemma_null_result_is_plain(v@, max_depth());
            }
            return to_bytes(patched);
        }
    }
    vstd::slice::slice_to_vec(body)
}

/// The folder that a message says is loaded.
pub open spec fn loaded_folder(message: JsonTree) -> Seq<char> {
    match message.get("params"@) {
        Some(params) => match params.get_str("activeProjectFolder"@) {
            Some(folder) => folder,
            None => "<unknown>"@,
        },
        None => "<unknown>"@,
    }
}

/// What an answer says: the text of its error, else of its result.
pub open spec fn answer_detail(message: JsonTree) -> Seq<char> {
    match message.get("error"@) {
        Some(error) => json_text(error),
        None => match message.get("result"@) {
            Some(result) => json_text(result),
            None => Seq::empty(),
        },
    }
}

/// Tells what an answer says.
fn read_answer_detail(v: &Json) -> (r: String)
    ensures
        r@ == answer_detail(v@),
{
    match v.get("error") {
        Some(error) => to_text(error.copy()),
        None => match v.get("result") {
            Some(result) => to_text(result.copy()),
            None => String::new(),
        },
    }
}

/// What a message from the AL server tells the bridge itself.
pub open spec fn event_of(s: SessionModel, message: JsonTree) -> EventModel {
    if answers_bridge(s, message) {
        EventModel::Answered {
            method: s.inflight[answered_id(message)->0],
            failed: message.get("error"@) is Some,
            detail: answer_detail(message),
        }
    } else if calls(message, "al/activeProjectLoaded"@) {
        EventModel::ProjectLoaded { folder: loaded_folder(message) }
    } else {
        EventModel::Nothing
    }
}

/// The payload that the editor gets for one of the AL server's that reads as `parsed`, or
/// is no JSON. The answer to a request of the bridge is not for the editor.
pub open spec fn forwarded_to_client(
    s: SessionModel,
    body: Seq<u8>,
    parsed: Option<JsonTree>,
) -> Option<Seq<u8>> {
    match parsed {
        None => Some(body),
        Some(t) => if answers_bridge(s, t) {
            None
        } else {
            Some(normalized(s, t, body))
        },
    }
}

/// The session after a payload from the AL server.
pub open spec fn session_after_server(s: SessionModel, parsed: Option<JsonTree>) -> SessionModel {
    match parsed {
        None => s,
        Some(t) => if answers_bridge(s, t) {
            SessionModel { inflight: s.inflight.remove(answered_id(t)->0), ..s }
        } else {
            hover_settled(s, t)
        },
    }
}

/// The folder that a message says is loaded.
fn read_loaded_folder(v: &Json) -> (r: String)
    ensures
        r@ == loaded_folder(v@),
{
    match v.get("params") {
        Some(params) => match params.get_str("activeProjectFolder") {
            Some(folder) => folder.to_owned(),
            None => "<unknown>".to_owned(),
        },
        None => "<unknown>".to_owned(),
    }
}

/// Takes a payload from the AL server that reads as `parsed`, or is no JSON.
pub fn server_message(session: &mut Session, body: &[u8], parsed: Option<&Json>) -> (r: ServerStep)
    ensures
        final(session)@ == session_after_server(old(session)@, tree_of(parsed)),
        old(session)@.valid() ==> final(session)@.valid(),
        match (r.to_client, forwarded_to_client(old(session)@, body@, tree_of(parsed))) {
            (Some(sent), Some(payload)) => sent@ == framed(payload),
            (None, None) => true,
            _ => false,
        },
        r.event@ == (match parsed {
            Some(v) => event_of(old(session)@, v@),
            None => EventModel::Nothing,
        }),
        match tree_of(parsed) {
            Some(t) => !answers_bridge(old(session)@, t) && answers_hover(old(session)@, t)
                && has_empty_result(t) && is_plain(t, max_depth()) ==> json_parse(
                json_bytes(with_null_result(t)),
            ) == Some(with_null_result(t)),
            None => true,
        },
{
    let v: &Json = match parsed {
        Some(v) => v,
        None => {
            return ServerStep { to_client: Some(frame(body)), event: ServerEvent::Nothing };
        },
    };
    if let Some(id) = read_answered_id(v) {
        if let Some(method) = session.take_inflight(id.as_str()) {
            let failed: bool = v.get("error").is_some();
            return ServerStep {
                to_client: None,
                event: ServerEvent::Answered { method, failed, detail: read_answer_detail(v) },
            };
        }
        assert(session@ =~= old(session)@) by {
            assert(old(session)@.inflight.remove(id@) =~= old(session)@.inflight);
        }
    }
    let event: ServerEvent = if is_method_value(v, "al/activeProjectLoaded") {
        ServerEvent::ProjectLoaded { folder: read_loaded_folder(v) }
    } else {
        ServerEvent::Nothing
    };
    let payload: Vec<u8> = maybe_normalize_hover(v, body, session);
    ServerStep { to_client: Some(frame(payload.as_slice())), event }
}

/// Takes a payload from the AL server.
pub fn server_to_client(session: &mut Session, body: &[u8]) -> (r: ServerStep)
    ensures
        final(session)@ == session_after_server(old(session)@, json_parse(body@)),
        old(session)@.valid() ==> final(session)@.valid(),
        match (r.to_client, forwarded_to_client(old(session)@, body@, json_parse(body@))) {
            (Some(sent), Some(payload)) => sent@ == framed(payload),
            (None, None) => true,
            _ => false,
        },
        r.event@ == (match json_parse(body@) {
            Some(t) => event_of(old(session)@, t),
            None => EventModel::Nothing,
        }),
        match json_parse(body@) {
            Some(t) => !answers_bridge(old(session)@, t) && answers_hover(old(session)@, t)
                && has_empty_result(t) && is_plain(t, max_depth()) ==> json_parse(
                json_bytes(with_null_result(t)),
            ) == Some(with_null_result(t)),
            None => true,
        },
{
    match from_bytes(body) {
        Ok(v) => server_message(session, body, Some(&v)),
        Err(_) => server_message(session, body, None),
    }
}

/// The answer to a request of the bridge never reaches the editor, and is expected once.
pub proof fn law_bridge_answers_stay_inside(s: SessionModel, body: Seq<u8>, message: JsonTree)
    requires
        answers_bridge(s, message),
    ensures
        forwarded_to_client(s, body, Some(message)) is None,
        !answers_bridge(session_after_server(s, Some(message)), message),
{
}

/// Every other message of the AL server reaches the editor as it is, byte for byte, but for
/// an empty hover.
pub proof fn law_other_server_messages_pass_unchanged(
    s: SessionModel,
    body: Seq<u8>,
    parsed: Option<JsonTree>,
)
    requires
        match parsed {
            Some(t) => !answers_bridge(s, t) && !(answers_hover(s, t) && has_empty_result(t)),
            None => true,
        },
    ensures
        forwarded_to_client(s, body, parsed) == Some(body),
{
}

/// The answer to a request of the editor reaches the editor, whatever the id is that the
/// editor chose, unless it is one that the bridge chooses.
pub proof fn law_answers_to_other_ids_reach_the_editor(
    s: SessionModel,
    body: Seq<u8>,
    message: JsonTree,
    id: Seq<char>,
)
    requires
        s.valid(),
        id_text(message.get("id"@)) == Some(id),
        forall|n: nat| id != #[trigger] bridge_id(n),
    ensures
        !answers_bridge(s, message),
        forwarded_to_client(s, body, Some(message)) == Some(normalized(s, message, body)),
        session_after_server(s, Some(message)).inflight == s.inflight,
{
}

/// The answer to a request of the editor reaches the editor, where the editor counts its
/// requests and stays below the ids of the bridge.
pub proof fn law_answers_to_the_editor_reach_it(
    s: SessionModel,
    body: Seq<u8>,
    message: JsonTree,
    id: nat,
)
    requires
        s.valid(),
        message.get("id"@) == Some(number_tree(id)),
        id < BRIDGE_ID_BASE,
    ensures
        forwarded_to_client(s, body, Some(message)) == Some(normalized(s, message, body)),
        session_after_server(s, Some(message)).inflight == s.inflight,
{
    law_low_ids_are_not_the_bridges(id);
    law_answers_to_other_ids_reach_the_editor(s, body, message, decimal(id));
}

/// A request of the AL server reaches the editor as it is and changes nothing, even where
/// its id is that of a request the other way.
pub proof fn law_server_requests_pass_unchanged(s: SessionModel, body: Seq<u8>, message: JsonTree)
    requires
        message.get_str("method"@) is Some,
    ensures
        forwarded_to_client(s, body, Some(message)) == Some(body),
        session_after_server(s, Some(message)) == s,
{
}

/// A message without an id, such as diagnostics that the AL server publishes, always reaches
/// the editor as it is.
pub proof fn law_notifications_pass_unchanged(s: SessionModel, body: Seq<u8>, message: JsonTree)
    requires
        message.get("id"@) is None,
    ensures
        forwarded_to_client(s, body, Some(message)) == Some(body),
        session_after_server(s, Some(message)) == s,
{
}

/// An answer with `null` for its result has `null` for its result, and its other members
/// are what they were.
pub proof fn law_only_the_result_changes(message: JsonTree, key: Seq<char>)
    requires
        has_empty_result(message),
    ensures
        with_null_result(message).get("result"@) == Some(JsonTree::Null),
        key != "result"@ ==> with_null_result(message).get(key) == message.get(key),
{
}

/// The AL server's empty answer to a hover request that is remembered reaches the editor
/// with `null` for its result, and settles the request.
pub proof fn law_empty_hovers_become_null(
    s: SessionModel,
    answer: JsonTree,
    body: Seq<u8>,
    id: Seq<char>,
)
    requires
        s.hover_ids.contains(id),
        answered_id(answer) == Some(id),
        !answers_bridge(s, answer),
        has_empty_result(answer),
    ensures
        forwarded_to_client(s, body, Some(answer)) == Some(json_bytes(with_null_result(answer))),
        !session_after_server(s, Some(answer)).hover_ids.contains(id),
{
}

/// A hover request stays remembered under every message of the AL server but its answer.
pub proof fn law_server_messages_keep_hovers(s: SessionModel, message: JsonTree, id: Seq<char>)
    requires
        s.hover_ids.contains(id),
        message.get_str("method"@) is Some || id_text(message.get("id"@)) != Some(id),
    ensures
        session_after_server(s, Some(message)).hover_ids.contains(id),
{
}

/// A request of the bridge stays expected under every message of the AL server but its
/// answer.
pub proof fn law_server_messages_keep_requests(s: SessionModel, message: JsonTree, id: Seq<char>)
    requires
        s.inflight.contains_key(id),
        message.get_str("method"@) is Some || id_text(message.get("id"@)) != Some(id),
    ensures
        session_after_server(s, Some(message)).inflight.contains_key(id),
        session_after_server(s, Some(message)).inflight[id] == s.inflight[id],
{
}

/// The answer to a request of the bridge finds the method of the request, whatever the
/// result is, and leaves nothing behind but that one more id is used.
pub proof fn law_answers_find_their_requests(s: SessionModel, method: Seq<char>, answer: JsonTree)
    requires
        s.valid(),
        answer.get("id"@) == Some(number_tree(s.next_id())),
        answer.get_str("method"@) is None,
    ensures
        answers_bridge(s.requested(method), answer),
        event_of(s.requested(method), answer) == (EventModel::Answered {
            method,
            failed: answer.get("error"@) is Some,
            detail: answer_detail(answer),
        }),
        session_after_server(s.requested(method), Some(answer)) == (SessionModel {
            issued: s.issued + 1,
            ..s
        }),
{
    law_new_ids_are_fresh(s);
    assert(s.inflight.insert(decimal(s.next_id()), method).remove(decimal(s.next_id()))
        =~= s.inflight);
}

/// No message of the AL server makes a session invalid, or uses up ids, or changes the
/// workspace folders.
pub proof fn law_server_messages_keep_sessions_valid(s: SessionModel, parsed: Option<JsonTree>)
    ensures
        s.valid() ==> session_after_server(s, parsed).valid(),
        session_after_server(s, parsed).issued == s.issued,
        session_after_server(s, parsed).folders == s.folders,
{
}

/// A result is empty where it is an object that has no member, and nowhere else.
pub proof fn law_empty_results_have_no_members(message: JsonTree, m: Map<Seq<char>, JsonTree>)
    ensures
        has_empty_result(message) <==> message.get("result"@) == Some(
            JsonTree::Object(Map::empty()),
        ),
        message.get("result"@) == Some(JsonTree::Object(m)) && (exists|key: Seq<char>|
            m.contains_key(key)) ==> !has_empty_result(message),
{
}

/// A hover that says something reaches the editor byte for byte, whatever it says: where
/// the result is an object that has a member, or is no object, the message is passed on as
/// it is, unless it answers the bridge.
pub proof fn law_hovers_that_say_something_pass_unchanged(
    s: SessionModel,
    body: Seq<u8>,
    message: JsonTree,
    m: Map<Seq<char>, JsonTree>,
    key: Seq<char>,
)
    requires
        !answers_bridge(s, message),
        ({
            ||| message.get("result"@) == Some(JsonTree::Object(m)) && m.contains_key(key)
            ||| !(message.get("result"@) matches Some(JsonTree::Object(_)))
        }),
    ensures
        forwarded_to_client(s, body, Some(message)) == Some(body),
{
    law_empty_results_have_no_members(message, m);
}

/// A hover that says nothing reaches the editor with `null` for its result and with its
/// other members as they are: where the result is an object without members, and the id is
/// that of a hover request that is remembered.
pub proof fn law_hovers_that_say_nothing_become_null(
    s: SessionModel,
    body: Seq<u8>,
    members: Map<Seq<char>, JsonTree>,
    id: Seq<char>,
)
    requires
        members.contains_key("result"@),
        members["result"@] == JsonTree::Object(Map::empty()),
        members.contains_key("id"@),
        members["id"@] == JsonTree::Str(id) || members["id"@] == JsonTree::Number(id),
        !(members.contains_key("method"@) && members["method"@] is Str),
        s.hover_ids.contains(id),
        !s.inflight.contains_key(id),
    ensures
        forwarded_to_client(s, body, Some(JsonTree::Object(members))) == Some(
            json_bytes(JsonTree::Object(members.insert("result"@, JsonTree::Null))),
        ),
{
}

/// A message whose id is that of no hover request that is remembered is passed on as it is,
/// unless it answers the bridge.
pub proof fn law_what_is_no_hover_passes_unchanged(
    s: SessionModel,
    body: Seq<u8>,
    message: JsonTree,
)
    requires
        !answers_bridge(s, message),
        forall|id: Seq<char>| #[trigger]
            s.hover_ids.contains(id) ==> message.get("id"@) != Some(JsonTree::Str(id))
                && message.get("id"@) != Some(JsonTree::Number(id)),
    ensures
        forwarded_to_client(s, body, Some(message)) == Some(body),
{
}

/// A message answers the request with its id where it calls no method.
pub proof fn law_answers_go_by_id_and_method(s: SessionModel, message: JsonTree, id: Seq<char>)
    ensures
        answered_id(message) == Some(id) <==> {
            &&& message.get("id"@) == Some(JsonTree::Str(id)) || message.get("id"@) == Some(
                JsonTree::Number(id),
            )
            &&& !(message.get("method"@) matches Some(JsonTree::Str(_)))
        },
        answers_bridge(s, message) <==> exists|own: Seq<char>| #[trigger]
            s.inflight.contains_key(own) && answered_id(message) == Some(own),
        answers_hover(s, message) <==> exists|own: Seq<char>| #[trigger]
            s.hover_ids.contains(own) && answered_id(message) == Some(own),
{
    if answers_bridge(s, message) {
        assert(s.inflight.contains_key(answered_id(message)->0));
    }
    if answers_hover(s, message) {
        assert(s.hover_ids.contains(answered_id(message)->0));
    }
}

/// What a message of the AL server makes the bridge forget: of its own requests the one
/// that is answered, else of the hover requests the one that is answered, and nothing else.
pub proof fn law_what_is_forgotten_of_server_messages(
    s: SessionModel,
    message: JsonTree,
    id: Seq<char>,
)
    ensures
        ({
            let t = session_after_server(s, Some(message));
            let inside = exists|own: Seq<char>| #[trigger]
                s.inflight.contains_key(own) && answered_id(message) == Some(own);
            &&& t.inflight.contains_key(id) <==> s.inflight.contains_key(id) && answered_id(message)
                != Some(id)
            &&& t.inflight.contains_key(id) ==> t.inflight[id] == s.inflight[id]
            &&& t.hover_ids.contains(id) <==> s.hover_ids.contains(id) && (inside || answered_id(
                message,
            ) != Some(id))
            &&& t.folders == s.folders
            &&& t.issued == s.issued
        }),
        session_after_server(s, None) == s,
{
    law_answers_go_by_id_and_method(s, message, id);
}

/// What the bridge is told: by an answer to its request the request's method, whether there
/// is an error, and the text of the error or else of the result; else by
/// `al/activeProjectLoaded` the folder.
pub proof fn law_what_server_messages_tell(
    s: SessionModel,
    message: JsonTree,
    id: Seq<char>,
    error: JsonTree,
    result: JsonTree,
    params: JsonTree,
    folder: Seq<char>,
)
    ensures
        ({
            let event = event_of(s, message);
            let inside = s.inflight.contains_key(id) && answered_id(message) == Some(id);
            let loaded = message.get("method"@) == Some(
                JsonTree::Str("al/activeProjectLoaded"@),
            );
            &&& inside && message.get("error"@) == Some(error) ==> event == (
            EventModel::Answered { method: s.inflight[id], failed: true, detail: json_text(error) })
            &&& inside && message.get("error"@) is None && message.get("result"@) == Some(result)
                ==> event == (EventModel::Answered {
                method: s.inflight[id],
                failed: false,
                detail: json_text(result),
            })
            &&& inside && message.get("error"@) is None && message.get("result"@) is None ==> event
                == (EventModel::Answered {
                method: s.inflight[id],
                failed: false,
                detail: Seq::empty(),
            })
            &&& loaded && message.get("params"@) == Some(params) && params.get(
                "activeProjectFolder"@,
            ) == Some(JsonTree::Str(folder)) ==> event == (EventModel::ProjectLoaded { folder })
            &&& loaded && message.get("params"@) == Some(params) && !(params.get(
                "activeProjectFolder"@,
            ) matches Some(JsonTree::Str(_))) ==> event == (EventModel::ProjectLoaded {
                folder: "<unknown>"@,
            })
            &&& loaded && message.get("params"@) is None ==> event == (EventModel::ProjectLoaded {
                folder: "<unknown>"@,
            })
            &&& !loaded && !answers_bridge(s, message) ==> event == EventModel::Nothing
        }),
{
}

/// The payload that is passed on, in full: none for an answer to the bridge, the message
/// with `null` for an empty hover, and the bytes as they came for all else.
pub proof fn law_what_reaches_the_editor(s: SessionModel, body: Seq<u8>, message: JsonTree)
    ensures
        forwarded_to_client(s, body, None) == Some(body),
        answers_bridge(s, message) <==> forwarded_to_client(s, body, Some(message)) is None,
        forwarded_to_client(s, body, Some(message)) is Some ==> {
            ||| forwarded_to_client(s, body, Some(message)) == Some(body)
            ||| answers_hover(s, message) && message.get("result"@) == Some(
                JsonTree::Object(Map::empty()),
            ) && forwarded_to_client(s, body, Some(message)) == Some(
                json_bytes(with_null_result(message)),
            )
        },
{
}

/// Putting `null` for the result changes the result and no other member.
pub proof fn law_null_is_put_for_the_result_alone(
    members: Map<Seq<char>, JsonTree>,
    key: Seq<char>,
)
    ensures
        with_null_result(JsonTree::Object(members)) == JsonTree::Object(
            members.insert("result"@, JsonTree::Null),
        ),
        with_null_result(JsonTree::Object(members)).get("result"@) == Some(JsonTree::Null),
        key != "result"@ ==> with_null_result(JsonTree::Object(members)).get(key)
            == JsonTree::Object(members).get(key),
{
}

} // verus!
