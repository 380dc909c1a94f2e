//! Messages from the editor to the AL server.

use crate::codec::{from_bytes, json_bytes, json_parse, max_depth};
use crate::framing::{frame, framed};
use crate::json::{id_text, is_plain, json_id_to_string, tree_of, trees, Json, JsonTree};
use crate::paths::{may_be_project_path, project_path};
use crate::rpc::{calls, is_method_value};
use crate::session::{folder_models, FolderModel, Session, SessionModel, WorkspaceFolder};
use crate::settings::{rewrite_did_change_configuration, rewritten};
use crate::text::{basename, uri_basename};
use vstd::prelude::*;

verus! {

/// The workspace folder that a value describes: an object with the strings `uri` and
/// `name`, or an array of just these two strings.
pub open spec fn described_folder(t: JsonTree) -> Option<FolderModel> {
    match t {
        JsonTree::Object(_) => match (t.get_str("uri"@), t.get_str("name"@)) {
            (Some(uri), Some(name)) => Some(FolderModel { uri, name }),
            _ => None,
        },
        JsonTree::Array(a) => if a.len() == 2 {
            match (a[0].as_str(), a[1].as_str()) {
                (Some(uri), Some(name)) => Some(FolderModel { uri, name }),
                _ => None,
            }
        } else {
            None
        },
        _ => None,
    }
}

/// The workspace folders that values describe, in their order; values that describe none
/// are passed over.
pub open spec fn described_folders(s: Seq<JsonTree>) -> Seq<FolderModel>
    decreases s.len(),
{
    if s.len() == 0 {
        Seq::empty()
    } else {
        match described_folder(s.last()) {
            Some(f) => described_folders(s.drop_last()).push(f),
            None => described_folders(s.drop_last()),
        }
    }
}

/// The workspace folders that the editor names in its `initialize` request: its
/// `workspaceFolders` where that is an array, else the one folder of its `rootUri`.
pub open spec fn initial_folders(initialize: JsonTree) -> Seq<FolderModel> {
    match initialize.get("params"@) {
        None => Seq::empty(),
        Some(params) => match params.get("workspaceFolders"@) {
            Some(JsonTree::Array(a)) => described_folders(a),
            _ => match params.get_str("rootUri"@) {
                Some(uri) => seq![FolderModel { uri, name: basename(uri) }],
                None => Seq::empty(),
            },
        },
    }
}

/// The workspace folder that a value describes.
fn read_folder(v: &Json) -> (r: Option<WorkspaceFolder>)
    ensures
        match r {
            Some(f) => described_folder(v@) == Some(f@),
            None => described_folder(v@) is None,
        },
{
    let (uri, name): (Option<&str>, Option<&str>) = match v {
        Json::Object(_) => (v.get_str("uri"), v.get_str("name")),
        Json::Array(a) => {
            proof {
                Json::lemma_array(*a);
            }
            if a.len() == 2 {
                (a[0].as_str(), a[1].as_str())
            } else {
                (None, None)
            }
        },
        _ => (None, None),
    };
    match (uri, name) {
        (Some(uri), Some(name)) => Some(
            WorkspaceFolder { uri: uri.to_owned(), name: name.to_owned() },
        ),
        _ => None,
    }
}

/// The workspace folders that the editor names in its `initialize` request.
pub fn extract_workspace_folders(initialize: &Json) -> (r: Vec<WorkspaceFolder>)
    ensures
        folder_models(r@) == initial_folders(initialize@),
{
    let mut out: Vec<WorkspaceFolder> = Vec::new();
    let params: &Json = match initialize.get("params") {
        Some(params) => params,
        None => {
            assert(folder_models(out@) =~= Seq::empty());
            return out;
        },
    };
    let listed: Option<&Vec<Json>> = match params.get("workspaceFolders") {
        Some(f) => f.as_array(),
        None => None,
    };
    if let Some(folders) = listed {
        let mut i: usize = 0;
        assert(folder_models(out@) =~= described_folders(trees(folders@).take(0)));
        while i < folders.len()
            invariant
                i <= folders@.len(),
                folder_models(out@) == described_folders(trees(folders@).take(i as int)),
            decreases folders@.len() - i,
        {
            let ghost so_far = folder_models(out@);
            if let Some(folder) = read_folder(&folders[i]) {
                out.push(folder);
                assert(folder_models(out@) =~= so_far.push(folder@));
            }
            i += 1;
            assert(trees(folders@).take(i as int).drop_last() =~= trees(folders@).take(i - 1));
        }
        assert(trees(folders@).take(i as int) =~= trees(folders@));
        return out;
    }
    if let Some(root_uri) = params.get_str("rootUri") {
        let name: String = uri_basename(root_uri);
        out.push(WorkspaceFolder { uri: root_uri.to_owned(), name });
    }
    assert(folder_models(out@) =~= initial_folders(initialize@));
    out
}

/// What the bridge remembers of a message from the editor: the id of a hover request, and
/// the workspace folders of an `initialize` request that names any.
pub open spec fn noted(s: SessionModel, message: JsonTree) -> SessionModel {
    match id_text(message.get("id"@)) {
        Some(id) if calls(message, "textDocument/hover"@) => SessionModel {
            hover_ids: s.hover_ids.insert(id),
            ..s
        },
        _ => if calls(message, "initialize"@) && initial_folders(message).len() > 0 {
            SessionModel { folders: initial_folders(message), ..s }
        } else {
            s
        },
    }
}

/// Notes in the session what the bridge has to remember of a message from the editor.
pub fn inspect_client_frame(v: &Json, session: &mut Session)
    ensures
        final(session)@ == noted(old(session)@, v@),
        old(session)@.valid() ==> final(session)@.valid(),
{
    proof {
        reveal_strlit("textDocument/hover");
        reveal_strlit("initialize");
        assert("textDocument/hover"@.len() != "initialize"@.len());
    }
    if let Some(id) = json_id_to_string(v.get("id")) {
        if is_method_value(v, "textDocument/hover") {
            session.track_hover(id);
        }
    }
    if is_method_value(v, "initialize") {
        let folders: Vec<WorkspaceFolder> = extract_workspace_folders(v);
        if folders.len() > 0 {
            session.set_workspace_folders(folders);
        }
    }
}

/// What is to be done about a message from the editor.
#[derive(Debug)]
pub struct ClientStep {
    /// The frame to send to the AL server.
    pub to_server: Vec<u8>,
    /// Whether the editor is ready now, so that the projects are to be loaded.
    pub start_handshake: bool,
}

/// Whether the payload is a message that changes settings.
pub open spec fn changes_settings(parsed: Option<JsonTree>) -> bool {
    match parsed {
        Some(t) => calls(t, "workspace/didChangeConfiguration"@),
        None => false,
    }
}

/// The payload that the AL server gets in place of the editor's: the same bytes, but for a
/// message that changes settings.
pub open spec fn forwarded_to_server(
    body: Seq<u8>,
    parsed: Option<JsonTree>,
    project: Seq<char>,
    separator: char,
) -> Seq<u8> {
    match parsed {
        Some(t) if changes_settings(parsed) => json_bytes(rewritten(t, project, separator)),
        _ => body,
    }
}

/// Whether the AL server reads back what a plain message that changes settings was rewritten
/// to.
pub open spec fn reads_back(
    parsed: Option<JsonTree>,
    project: Seq<char>,
    separator: char,
) -> bool {
    match parsed {
        Some(t) => changes_settings(parsed) && is_plain(t, max_depth()) ==> json_parse(
            json_bytes(rewritten(t, project, separator)),
        ) == Some(rewritten(t, project, separator)),
        None => true,
    }
}

/// Whether the payload is the editor's word that it is initialized.
pub open spec fn says_initialized(parsed: Option<JsonTree>) -> bool {
    match parsed {
        Some(t) => calls(t, "initialized"@),
        None => false,
    }
}

/// The session after a payload from the editor.
pub open spec fn session_after_client(s: SessionModel, parsed: Option<JsonTree>) -> SessionModel {
    match parsed {
        Some(t) => noted(s, t),
        None => s,
    }
}

/// Takes a payload from the editor that reads as `parsed`, or is no JSON, where the path of
/// the project is `project`.
pub fn client_message(
    session: &mut Session,
    body: &[u8],
    parsed: Option<&Json>,
    project: &str,
    separator: char,
) -> (r: ClientStep)
    ensures
        final(session)@ == session_after_client(old(session)@, tree_of(parsed)),
        old(session)@.valid() ==> final(session)@.valid(),
        r.to_server@ == framed(forwarded_to_server(body@, tree_of(parsed), project@, separator)),
        r.start_handshake == says_initialized(tree_of(parsed)),
        reads_back(tree_of(parsed), project@, separator),
{
    match parsed {
        Some(v) => {
            inspect_client_frame(v, session);
            let to_server: Vec<u8> = if is_method_value(v, "workspace/didChangeConfiguration") {
                frame(rewrite_did_change_configuration(v, project, separator).as_slice())
            } else {
                frame(body)
            };
            ClientStep { to_server, start_handshake: is_method_value(v, "initialized") }
        },
        None => ClientStep { to_server: frame(body), start_handshake: false },
    }
}

/// Takes a payload from the editor. Where it changes settings, the path of the project is
/// what the first workspace folder stands for on this platform.
pub fn client_to_server(session: &mut Session, body: &[u8], separator: char) -> (r: ClientStep)
    ensures
        final(session)@ == session_after_client(old(session)@, json_parse(body@)),
        old(session)@.valid() ==> final(session)@.valid(),
        r.start_handshake == says_initialized(json_parse(body@)),
        exists|project: Seq<char>|
            (changes_settings(json_parse(body@)) ==> may_be_project_path(
                old(session)@.folders,
                project,
            )) && r.to_server@ == framed(
                #[trigger] forwarded_to_server(body@, json_parse(body@), project, separator),
            ) && reads_back(json_parse(body@), project, separator),
{
    let parsed: Option<Json> = match from_bytes(body) {
        Ok(v) => Some(v),
        Err(_) => None,
    };
    match &parsed {
        Some(v) => {
            let project: String = if is_method_value(v, "workspace/didChangeConfiguration") {
                project_path(session.workspace_folders())
            } else {
                String::new()
            };
            client_message(session, body, Some(v), project.as_str(), separator)
        },
        None => client_message(session, body, None, "", separator),
    }
}

/// Every message of the editor reaches the AL server as it is, byte for byte, but for those
/// that change settings.
pub proof fn law_other_client_messages_pass_unchanged(
    body: Seq<u8>,
    parsed: Option<JsonTree>,
    project: Seq<char>,
    separator: char,
)
    requires
        !changes_settings(parsed),
    ensures
        forwarded_to_server(body, parsed, project, separator) == body,
{
}

/// A hover request is remembered until it is answered; nothing else of the session changes.
pub proof fn law_hover_requests_are_remembered(s: SessionModel, message: JsonTree, id: Seq<char>)
    requires
        calls(message, "textDocument/hover"@),
        id_text(message.get("id"@)) == Some(id),
    ensures
        noted(s, message) == (SessionModel { hover_ids: s.hover_ids.insert(id), ..s }),
{
}

/// A hover request stays remembered under every message of the editor.
pub proof fn law_client_messages_keep_hovers(
    s: SessionModel,
    parsed: Option<JsonTree>,
    id: Seq<char>,
)
    requires
        s.hover_ids.contains(id),
    ensures
        session_after_client(s, parsed).hover_ids.contains(id),
{
}

/// Messages from the editor neither use up ids of the bridge nor answer its requests.
pub proof fn law_client_messages_leave_requests_alone(s: SessionModel, parsed: Option<JsonTree>)
    ensures
        session_after_client(s, parsed).inflight == s.inflight,
        session_after_client(s, parsed).issued == s.issued,
{
}

/// A value describes a folder where it gives the folder's URI and name as strings: by name,
/// or as an array of just the two. Both are taken character for character.
pub proof fn law_folders_are_described_by_uri_and_name(t: JsonTree, folder: FolderModel)
    ensures
        described_folder(t) == Some(folder) <==> {
            ||| t is Object && t.get("uri"@) == Some(JsonTree::Str(folder.uri)) && t.get("name"@)
                == Some(JsonTree::Str(folder.name))
            ||| t matches JsonTree::Array(a) && a.len() == 2 && a[0] == JsonTree::Str(folder.uri)
                && a[1] == JsonTree::Str(folder.name)
        },
{
}

/// The folders that the editor lists are captured as they are: in their order, each with
/// the URI and the name that the editor gave it.
pub proof fn law_listed_folders_are_captured_as_they_are(
    initialize: JsonTree,
    params: JsonTree,
    listed: Seq<JsonTree>,
    k: int,
)
    requires
        initialize.get("params"@) == Some(params),
        params.get("workspaceFolders"@) == Some(JsonTree::Array(listed)),
        forall|i: int|
            0 <= i < listed.len() ==> (#[trigger] listed[i]).get_str("uri"@) is Some
                && listed[i].get_str("name"@) is Some,
        0 <= k < listed.len(),
    ensures
        initial_folders(initialize).len() == listed.len(),
        Some(initial_folders(initialize)[k].uri) == listed[k].get_str("uri"@),
        Some(initial_folders(initialize)[k].name) == listed[k].get_str("name"@),
{
    lemma_all_described(listed, k);
}

/// Values that all describe folders describe as many folders, each in its place.
proof fn lemma_all_described(listed: Seq<JsonTree>, k: int)
    requires
        forall|i: int|
            0 <= i < listed.len() ==> (#[trigger] listed[i]).get_str("uri"@) is Some
                && listed[i].get_str("name"@) is Some,
        0 <= k < listed.len(),
    ensures
        described_folders(listed).len() == listed.len(),
        Some(described_folders(listed)[k].uri) == listed[k].get_str("uri"@),
        Some(described_folders(listed)[k].name) == listed[k].get_str("name"@),
    decreases listed.len(),
{
    let before = listed.drop_last();
    assert(listed[listed.len() - 1] == listed.last());
    assert forall|i: int| 0 <= i < before.len() implies (#[trigger] before[i]).get_str("uri"@)
        is Some && before[i].get_str("name"@) is Some by {
        assert(before[i] == listed[i]);
    }
    if before.len() > 0 {
        lemma_all_described(
            before,
            if k < before.len() {
                k
            } else {
                0
            },
        );
    } else {
        assert(described_folders(before).len() == 0);
    }
}

/// A value that describes no folder is passed over, and what is captured of the others
/// stays.
pub proof fn law_other_values_are_passed_over(
    listed: Seq<JsonTree>,
    value: JsonTree,
    folder: FolderModel,
)
    ensures
        described_folders(Seq::empty()).len() == 0,
        described_folder(value) == Some(folder) ==> described_folders(listed.push(value))
            == described_folders(listed).push(folder),
        described_folder(value) is None ==> described_folders(listed.push(value))
            == described_folders(listed),
{
    assert(listed.push(value).drop_last() =~= listed);
}

/// Where no folders are listed the root is the only folder, with its URI as it is; a
/// message that names neither names none.
pub proof fn law_the_root_is_captured_as_it_is(
    initialize: JsonTree,
    params: JsonTree,
    listed: Seq<JsonTree>,
    root: Seq<char>,
)
    ensures
        initialize.get("params"@) is None ==> initial_folders(initialize).len() == 0,
        initialize.get("params"@) == Some(params) && params.get("workspaceFolders"@) == Some(
            JsonTree::Array(listed),
        ) ==> initial_folders(initialize) == described_folders(listed),
        initialize.get("params"@) == Some(params) && !(params.get("workspaceFolders"@) matches Some(
            JsonTree::Array(_),
        )) && params.get("rootUri"@) == Some(JsonTree::Str(root)) ==> initial_folders(
            initialize,
        ).len() == 1 && initial_folders(initialize)[0].uri == root && initial_folders(
            initialize,
        )[0].name == basename(root),
        initialize.get("params"@) == Some(params) && !(params.get("workspaceFolders"@) matches Some(
            JsonTree::Array(_),
        )) && !(params.get("rootUri"@) matches Some(JsonTree::Str(_))) ==> initial_folders(
            initialize,
        ).len() == 0,
{
}

/// What is remembered of a message of the editor: of a hover request its id, and of an
/// `initialize` request the folders that it names, if any; of every other message nothing.
pub proof fn law_what_is_remembered_of_client_messages(
    s: SessionModel,
    message: JsonTree,
    id: Seq<char>,
)
    ensures
        ({
            let t = noted(s, message);
            let method = message.get("method"@);
            let own = message.get("id"@);
            &&& t.hover_ids.contains(id) <==> {
                ||| s.hover_ids.contains(id)
                ||| method == Some(JsonTree::Str("textDocument/hover"@)) && (own == Some(
                    JsonTree::Str(id),
                ) || own == Some(JsonTree::Number(id)))
            }
            &&& method == Some(JsonTree::Str("initialize"@)) && initial_folders(message).len() > 0
                ==> t.folders == initial_folders(message)
            &&& method != Some(JsonTree::Str("initialize"@)) || initial_folders(message).len() == 0
                ==> t.folders == s.folders
            &&& t.inflight == s.inflight
            &&& t.issued == s.issued
        }),
        session_after_client(s, Some(message)) == noted(s, message),
        session_after_client(s, None) == s,
{
    reveal_strlit("textDocument/hover");
    reveal_strlit("initialize");
    assert("textDocument/hover"@.len() != "initialize"@.len());
}

/// Only the notification that settings have changed is rewritten, and only the editor's
/// word that it is initialized starts the handshake.
pub proof fn law_what_is_done_about_client_messages(
    body: Seq<u8>,
    message: JsonTree,
    project: Seq<char>,
    separator: char,
)
    ensures
        ({
            let method = message.get("method"@);
            let sent = forwarded_to_server(body, Some(message), project, separator);
            &&& method == Some(JsonTree::Str("workspace/didChangeConfiguration"@)) ==> sent
                == json_bytes(rewritten(message, project, separator))
            &&& method != Some(JsonTree::Str("workspace/didChangeConfiguration"@)) ==> sent == body
            &&& says_initialized(Some(message)) <==> method == Some(JsonTree::Str("initialized"@))
            &&& changes_settings(Some(message)) <==> method == Some(
                JsonTree::Str("workspace/didChangeConfiguration"@),
            )
        }),
        forwarded_to_server(body, None, project, separator) == body,
        !says_initialized(None),
        !changes_settings(None),
{
}

/// What it means that rewritten settings read back: the AL server reads of the payload the
/// message that was meant.
pub proof fn law_what_reading_back_means(
    message: JsonTree,
    project: Seq<char>,
    separator: char,
)
    requires
        reads_back(Some(message), project, separator),
        message.get("method"@) == Some(JsonTree::Str("workspace/didChangeConfiguration"@)),
        is_plain(message, max_depth()),
    ensures
        json_parse(json_bytes(rewritten(message, project, separator))) == Some(
            rewritten(message, project, separator),
        ),
{
}

} // verus!
