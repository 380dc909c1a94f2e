//! What holds over whole runs of the bridge, however messages and requests follow each
//! other.

use crate::client::{law_hover_requests_are_remembered, noted, session_after_client};
use crate::codec::json_bytes;
use crate::json::{id_text, number_tree, JsonTree};
use crate::rpc::calls;
use crate::server::{
    answered_id, forwarded_to_client, has_empty_result, law_answers_to_other_ids_reach_the_editor,
    session_after_server, with_null_result,
};
use crate::session::{
    bridge_id, law_low_ids_are_not_the_bridges, law_new_ids_are_fresh,
    law_requests_keep_sessions_valid, SessionModel, BRIDGE_ID_BASE,
};
use crate::text::decimal;
use vstd::prelude::*;

verus! {

/// What can happen to a session.
pub ghost enum Happening {
    /// A payload comes from the editor and reads as this, or is no JSON.
    FromEditor(Option<JsonTree>),
    /// A payload comes from the AL server and reads as this, or is no JSON.
    FromServer(Option<JsonTree>),
    /// The bridge makes a request.
    Requested(Seq<char>),
}

/// The session after something happened.
pub open spec fn after_one(s: SessionModel, h: Happening) -> SessionModel {
    match h {
        Happening::FromEditor(parsed) => session_after_client(s, parsed),
        Happening::FromServer(parsed) => session_after_server(s, parsed),
        Happening::Requested(method) => s.requested(method),
    }
}

/// The session after a run.
pub open spec fn after(s: SessionModel, run: Seq<Happening>) -> SessionModel
    decreases run.len(),
{
    if run.len() == 0 {
        s
    } else {
        after_one(after(s, run.drop_last()), run.last())
    }
}

/// Whether no message of a run answers the request with an id.
pub open spec fn leaves_open(run: Seq<Happening>, id: Seq<char>) -> bool {
    forall|i: int|
        0 <= i < run.len() ==> match #[trigger] run[i] {
            Happening::FromServer(Some(message)) => answered_id(message) != Some(id),
            _ => true,
        }
}

/// A run keeps a session valid.
pub proof fn law_runs_keep_sessions_valid(s: SessionModel, run: Seq<Happening>)
    requires
        s.valid(),
    ensures
        after(s, run).valid(),
    decreases run.len(),
{
    if run.len() > 0 {
        let before = after(s, run.drop_last());
        law_runs_keep_sessions_valid(s, run.drop_last());
        if let Happening::Requested(method) = run.last() {
            law_requests_keep_sessions_valid(before, method);
        }
    }
}

/// A hover request is remembered until it is answered.
pub proof fn law_hovers_wait_for_their_answer(
    s: SessionModel,
    run: Seq<Happening>,
    id: Seq<char>,
)
    requires
        s.hover_ids.contains(id),
        leaves_open(run, id),
    ensures
        after(s, run).hover_ids.contains(id),
    decreases run.len(),
{
    if run.len() > 0 {
        assert(leaves_open(run.drop_last(), id)) by {
            assert forall|i: int| 0 <= i < run.drop_last().len() implies #[trigger] run.drop_last()[i]
                == run[i] by {}
        }
        law_hovers_wait_for_their_answer(s, run.drop_last(), id);
        assert(run[run.len() - 1] == run.last());
    }
}

/// A request of the bridge is expected to be answered until it is.
pub proof fn law_requests_wait_for_their_answer(
    s: SessionModel,
    run: Seq<Happening>,
    id: Seq<char>,
)
    requires
        s.valid(),
        s.inflight.contains_key(id),
        leaves_open(run, id),
    ensures
        after(s, run).inflight.contains_key(id),
        after(s, run).inflight[id] == s.inflight[id],
    decreases run.len(),
{
    if run.len() > 0 {
        let before = after(s, run.drop_last());
        assert(leaves_open(run.drop_last(), id)) by {
            assert forall|i: int| 0 <= i < run.drop_last().len() implies #[trigger] run.drop_last()[i]
                == run[i] by {}
        }
        law_requests_wait_for_their_answer(s, run.drop_last(), id);
        law_runs_keep_sessions_valid(s, run.drop_last());
        law_new_ids_are_fresh(before);
        assert(run[run.len() - 1] == run.last());
    }
}

/// The empty answer to a hover request reaches the editor with `null` for its result,
/// whatever happens between the two, and whatever the id is that the editor chose, unless
/// it is one that the bridge chooses.
pub proof fn law_empty_hovers_with_other_ids_become_null(
    s: SessionModel,
    request: JsonTree,
    run: Seq<Happening>,
    answer: JsonTree,
    body: Seq<u8>,
    id: Seq<char>,
)
    requires
        s.valid(),
        calls(request, "textDocument/hover"@),
        id_text(request.get("id"@)) == Some(id),
        forall|n: nat| id != #[trigger] bridge_id(n),
        leaves_open(run, id),
        answered_id(answer) == Some(id),
        has_empty_result(answer),
    ensures
        forwarded_to_client(after(noted(s, request), run), body, Some(answer)) == Some(
            json_bytes(with_null_result(answer)),
        ),
{
    let start = noted(s, request);
    law_hover_requests_are_remembered(s, request, id);
    law_hovers_wait_for_their_answer(start, run, id);
    law_runs_keep_sessions_valid(start, run);
    law_answers_to_other_ids_reach_the_editor(after(start, run), body, answer, id);
}

/// The empty answer to a hover request reaches the editor with `null` for its result,
/// whatever happens between the two, where the editor counts its requests and stays below
/// the ids of the bridge.
pub proof fn law_empty_hovers_always_become_null(
    s: SessionModel,
    request: JsonTree,
    run: Seq<Happening>,
    answer: JsonTree,
    body: Seq<u8>,
    id: nat,
)
    requires
        s.valid(),
        calls(request, "textDocument/hover"@),
        request.get("id"@) == Some(number_tree(id)),
        id < BRIDGE_ID_BASE,
        leaves_open(run, decimal(id)),
        answered_id(answer) == Some(decimal(id)),
        has_empty_result(answer),
    ensures
        forwarded_to_client(after(noted(s, request), run), body, Some(answer)) == Some(
            json_bytes(with_null_result(answer)),
        ),
{
    law_low_ids_are_not_the_bridges(id);
    law_empty_hovers_with_other_ids_become_null(s, request, run, answer, body, decimal(id));
}

/// A run is what happened in it, one after the other: each message of the editor, each
/// message of the AL server and each request of the bridge does to the session what it does
/// alone.
pub proof fn law_runs_go_step_by_step(
    s: SessionModel,
    run: Seq<Happening>,
    parsed: Option<JsonTree>,
    method: Seq<char>,
)
    ensures
        after(s, Seq::empty()) == s,
        after(s, run.push(Happening::FromEditor(parsed))) == session_after_client(
            after(s, run),
            parsed,
        ),
        after(s, run.push(Happening::FromServer(parsed))) == session_after_server(
            after(s, run),
            parsed,
        ),
        after(s, run.push(Happening::Requested(method))) == after(s, run).requested(method),
{
    assert(run.push(Happening::FromEditor(parsed)).drop_last() =~= run);
    assert(run.push(Happening::FromServer(parsed)).drop_last() =~= run);
    assert(run.push(Happening::Requested(method)).drop_last() =~= run);
}

/// A run leaves a request open where none of its messages answers it.
pub proof fn law_what_leaves_a_request_open(
    run: Seq<Happening>,
    message: JsonTree,
    id: Seq<char>,
    other: Happening,
)
    ensures
        leaves_open(Seq::empty(), id),
        leaves_open(run, id) && answered_id(message) != Some(id) ==> leaves_open(
            run.push(Happening::FromServer(Some(message))),
            id,
        ),
        leaves_open(run, id) && !(other is FromServer) ==> leaves_open(run.push(other), id),
{
    let answered = run.push(Happening::FromServer(Some(message)));
    if leaves_open(run, id) && answered_id(message) != Some(id) {
        assert forall|i: int| 0 <= i < answered.len() implies match #[trigger] answered[i] {
            Happening::FromServer(Some(m)) => answered_id(m) != Some(id),
            _ => true,
        } by {
            if i < run.len() {
                assert(answered[i] == run[i]);
            }
        }
    }
    if leaves_open(run, id) && !(other is FromServer) {
        let t = run.push(other);
        assert forall|i: int| 0 <= i < t.len() implies match #[trigger] t[i] {
            Happening::FromServer(Some(m)) => answered_id(m) != Some(id),
            _ => true,
        } by {
            if i < run.len() {
                assert(t[i] == run[i]);
            }
        }
    }
}

} // verus!
