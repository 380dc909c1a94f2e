//! Loading the AL projects of the workspace: without it the AL server stays idle.

use crate::codec::{json_bytes, json_parse, max_depth};
use crate::framing::framed;
use crate::json::{is_plain, no_members, Json, JsonObject, JsonTree};
use crate::paths::{may_be_path_of, path_text, path_to_text, uri_to_path};
use crate::rpc::{
    frame_message, framed_message, law_request_is_its_members, lemma_request_is_plain, request,
    request_tree,
};
use crate::session::{
    folder_models, law_new_ids_are_fresh, law_requests_keep_sessions_valid, FolderModel, Session,
    SessionModel, WorkspaceFolder,
};
use crate::settings::{
    al_settings, build_al_settings, configuration_changed, configuration_message,
    law_settings_are_announced_as_they_are, law_settings_are_their_members,
    lemma_configuration_is_plain, lemma_settings_are_plain,
};
use crate::text::decimal;
use std::path::PathBuf;
use vstd::prelude::*;

verus! {

/// A workspace folder that holds an AL project.
#[derive(Debug)]
pub struct Project {
    /// The folder.
    pub path: PathBuf,
    /// The text of its `app.json`.
    pub manifest: String,
}

/// A project as mathematics.
pub ghost struct ProjectModel {
    pub path: Seq<char>,
    pub manifest: Seq<char>,
}

impl View for Project {
    type V = ProjectModel;

    open spec fn view(&self) -> ProjectModel {
        ProjectModel { path: path_text(self.path), manifest: self.manifest@ }
    }
}

/// Projects as mathematics.
pub open spec fn project_models(s: Seq<Project>) -> Seq<ProjectModel> {
    Seq::new(s.len(), |i: int| s[i]@)
}

/// Whether these may be the paths of workspace folders, in the order of the folders; a
/// folder whose URI stands for no path is passed over.
pub open spec fn may_be_folder_paths(folders: Seq<FolderModel>, paths: Seq<PathBuf>) -> bool
    decreases folders.len(),
{
    if folders.len() == 0 {
        paths.len() == 0
    } else {
        ||| may_be_path_of(folders.last().uri, None) && may_be_folder_paths(
            folders.drop_last(),
            paths,
        )
        ||| paths.len() > 0 && may_be_path_of(folders.last().uri, Some(paths.last()))
            && may_be_folder_paths(folders.drop_last(), paths.drop_last())
    }
}

/// The paths of workspace folders, in the order of the folders.
pub fn folder_paths(folders: &Vec<WorkspaceFolder>) -> (r: Vec<PathBuf>)
    ensures
        may_be_folder_paths(folder_models(folders@), r@),
{
    let ghost models = folder_models(folders@);
    let mut out: Vec<PathBuf> = Vec::new();
    let mut i: usize = 0;
    while i < folders.len()
        invariant
            i <= folders@.len(),
            models == folder_models(folders@),
            may_be_folder_paths(models.take(i as int), out@),
        decreases folders@.len() - i,
    {
        let ghost before = out@;
        if let Some(path) = uri_to_path(folders[i].uri.as_str()) {
            out.push(path);
            assert(out@.drop_last() =~= before);
        }
        i += 1;
        assert(models.take(i as int).drop_last() =~= models.take(i - 1));
        assert(models.take(i as int).last() == folders@[i - 1]@);
    }
    assert(models.take(i as int) =~= models);
    out
}

/// The projects among folders of which it is known whether a manifest could be read, in the
/// order of the folders: a folder without one holds no AL project and is passed over.
pub open spec fn projects_among(folders: Seq<(PathBuf, Option<String>)>) -> Seq<ProjectModel>
    decreases folders.len(),
{
    if folders.len() == 0 {
        Seq::empty()
    } else {
        match folders.last().1 {
            Some(manifest) => projects_among(folders.drop_last()).push(
                ProjectModel { path: path_text(folders.last().0), manifest: manifest@ },
            ),
            None => projects_among(folders.drop_last()),
        }
    }
}

/// Picks the projects among folders, where each comes with the text of its `app.json`, if
/// that could be read.
pub fn pick_projects(folders: Vec<(PathBuf, Option<String>)>) -> (r: Vec<Project>)
    ensures
        project_models(r@) == projects_among(folders@),
{
    let mut out: Vec<Project> = Vec::new();
    assert(project_models(out@) =~= projects_among(folders@.take(0)));
    for folder in it: folders.into_iter()
        invariant
            it.seq() == folders@,
            project_models(out@) == projects_among(folders@.take(it.index())),
    {
        let ghost before = project_models(out@);
        let ghost k = it.index();
        assert(folder == folders@[k]);
        assert(folders@.take(k + 1).drop_last() =~= folders@.take(k));
        if let (path, Some(manifest)) = folder {
            out.push(Project { path, manifest });
            assert(project_models(out@) =~= before.push(out@.last()@));
        }
    }
    assert(folders@.take(folders@.len() as int) =~= folders@);
    out
}

/// The settings of a project of which the user has said nothing.
pub open spec fn initial_settings(project: Seq<char>, separator: char) -> JsonTree {
    al_settings(project, JsonTree::Object(no_members()), separator)
}

/// The request to load a project's manifest.
pub open spec fn manifest_message(id: nat, project: ProjectModel) -> JsonTree {
    request_tree(
        id,
        "al/loadManifest"@,
        JsonTree::Object(
            no_members().insert("projectFolder"@, JsonTree::Str(project.path)).insert(
                "manifest"@,
                JsonTree::Str(project.manifest),
            ),
        ),
    )
}

/// The request to make a project the active one, at which the AL server starts to analyze
/// it.
pub open spec fn activation_message(id: nat, project: Seq<char>, settings: JsonTree) -> JsonTree {
    request_tree(
        id,
        "al/setActiveWorkspace"@,
        JsonTree::Object(
            no_members().insert("currentWorkspaceFolderPath"@, JsonTree::Str(project)).insert(
                "settings"@,
                settings,
            ),
        ),
    )
}

/// The messages that load a project: its manifest, its settings, and the call that makes it
/// active.
pub open spec fn project_messages(
    s: SessionModel,
    project: ProjectModel,
    separator: char,
) -> Seq<JsonTree> {
    seq![
        manifest_message(s.next_id(), project),
        configuration_message(initial_settings(project.path, separator)),
        activation_message(
            s.next_id() + 1,
            project.path,
            initial_settings(project.path, separator),
        ),
    ]
}

/// The session after the messages that load a project.
pub open spec fn session_after_project(s: SessionModel) -> SessionModel {
    s.requested("al/loadManifest"@).requested("al/setActiveWorkspace"@)
}

/// Builds the request to load a project's manifest.
pub fn load_manifest(id: u64, project_folder: &str, manifest: &str) -> (r: Json)
    ensures
        r@ == manifest_message(
            id as nat,
            (ProjectModel { path: project_folder@, manifest: manifest@ }),
        ),
{
    request(
        id,
        "al/loadManifest",
        Json::Object(
            JsonObject::new().with("projectFolder", Json::string(project_folder)).with(
                "manifest",
                Json::string(manifest),
            ),
        ),
    )
}

/// Builds the request to make a project the active one.
pub fn set_active_workspace(id: u64, project_folder: &str, settings: Json) -> (r: Json)
    ensures
        r@ == activation_message(id as nat, project_folder@, settings@),
{
    request(
        id,
        "al/setActiveWorkspace",
        Json::Object(
            JsonObject::new().with("currentWorkspaceFolderPath", Json::string(project_folder)).with(
                "settings",
                settings,
            ),
        ),
    )
}

/// The frames of messages.
pub open spec fn framed_messages(messages: Seq<JsonTree>) -> Seq<Seq<u8>> {
    Seq::new(messages.len(), |i: int| framed_message(messages[i]))
}

/// The bytes of frames.
pub open spec fn frames(s: Seq<Vec<u8>>) -> Seq<Seq<u8>> {
    Seq::new(s.len(), |i: int| s[i]@)
}

/// Whether the text of each message reads back as the message.
pub open spec fn read_back(messages: Seq<JsonTree>) -> bool {
    forall|i: int|
        0 <= i < messages.len() ==> json_parse(json_bytes(#[trigger] messages[i])) == Some(
            messages[i],
        )
}

/// The messages that load a project are plain.
proof fn lemma_project_messages_are_plain(s: SessionModel, project: ProjectModel, separator: char)
    ensures
        forall|i: int|
            0 <= i < 3 ==> is_plain(
                #[trigger] project_messages(s, project, separator)[i],
                max_depth(),
            ),
{
    let settings = initial_settings(project.path, separator);
    let depth: nat = (max_depth() - 3) as nat;
    lemma_settings_are_plain(project.path, JsonTree::Object(no_members()), separator, depth);
    lemma_configuration_is_plain(settings, depth + 1);
    let activated = JsonTree::Object(
        no_members().insert("currentWorkspaceFolderPath"@, JsonTree::Str(project.path)).insert(
            "settings"@,
            settings,
        ),
    );
    assert(is_plain(activated, depth + 2)) by {
        reveal_with_fuel(is_plain, 2);
    }
    lemma_request_is_plain(s.next_id() + 1, "al/setActiveWorkspace"@, activated, depth + 2);
    let described = JsonTree::Object(
        no_members().insert("projectFolder"@, JsonTree::Str(project.path)).insert(
            "manifest"@,
            JsonTree::Str(project.manifest),
        ),
    );
    assert(is_plain(described, depth + 2)) by {
        reveal_with_fuel(is_plain, 2);
    }
    lemma_request_is_plain(s.next_id(), "al/loadManifest"@, described, depth + 2);
}

/// Makes the frames that load a project, in the order in which they are to be sent.
pub fn load_project(session: &mut Session, project: &Project, separator: char) -> (r: Vec<Vec<u8>>)
    requires
        old(session)@.has_ids(2),
    ensures
        frames(r@) == framed_messages(project_messages(old(session)@, project@, separator)),
        final(session)@ == session_after_project(old(session)@),
        old(session)@.valid() ==> final(session)@.valid(),
        read_back(project_messages(old(session)@, project@, separator)),
{
    proof {
        lemma_project_messages_are_plain(session@, project@, separator);
    }
    let ghost messages = project_messages(session@, project@, separator);
    let path: String = path_to_text(&project.path);
    let nothing: Json = Json::Object(JsonObject::new());
    let mut out: Vec<Vec<u8>> = Vec::new();

    let id: u64 = session.alloc_id("al/loadManifest");
    out.push(frame_message(load_manifest(id, path.as_str(), project.manifest.as_str())));

    let settings: Json = build_al_settings(path.as_str(), &nothing, separator);
    out.push(frame_message(configuration_changed(settings.copy())));

    let active_id: u64 = session.alloc_id("al/setActiveWorkspace");
    out.push(frame_message(set_active_workspace(active_id, path.as_str(), settings)));

    assert(frames(out@) =~= framed_messages(messages));
    out
}

/// The messages that load projects, one project after the other.
pub open spec fn handshake_messages(
    s: SessionModel,
    projects: Seq<ProjectModel>,
    separator: char,
) -> Seq<JsonTree>
    decreases projects.len(),
{
    if projects.len() == 0 {
        Seq::empty()
    } else {
        let before = projects.drop_last();
        handshake_messages(s, before, separator) + project_messages(
            session_after_handshake(s, before.len()),
            projects.last(),
            separator,
        )
    }
}

/// The session after the messages that load `n` projects.
pub open spec fn session_after_handshake(s: SessionModel, n: nat) -> SessionModel
    decreases n,
{
    if n == 0 {
        s
    } else {
        session_after_project(session_after_handshake(s, (n - 1) as nat))
    }
}

/// Loading `n` projects takes two ids for each, and nothing but requests is new.
pub proof fn law_handshake_takes_two_ids_each(s: SessionModel, n: nat)
    ensures
        session_after_handshake(s, n).issued == s.issued + 2 * n,
        session_after_handshake(s, n).folders == s.folders,
        session_after_handshake(s, n).hover_ids == s.hover_ids,
    decreases n,
{
    if n > 0 {
        law_handshake_takes_two_ids_each(s, (n - 1) as nat);
    }
}

/// Makes the frames that load projects, in the order in which they are to be sent.
pub fn run_handshake(session: &mut Session, projects: &Vec<Project>, separator: char) -> (r: Vec<
    Vec<u8>,
>)
    requires
        old(session)@.has_ids(2 * projects@.len()),
    ensures
        frames(r@) == framed_messages(
            handshake_messages(old(session)@, project_models(projects@), separator),
        ),
        final(session)@ == session_after_handshake(old(session)@, projects@.len()),
        old(session)@.valid() ==> final(session)@.valid(),
        read_back(handshake_messages(old(session)@, project_models(projects@), separator)),
{
    let ghost s = session@;
    let ghost models = project_models(projects@);
    let mut out: Vec<Vec<u8>> = Vec::new();
    let mut i: usize = 0;
    assert(frames(out@) =~= framed_messages(handshake_messages(s, models.take(0), separator)));
    while i < projects.len()
        invariant
            i <= projects@.len(),
            models == project_models(projects@),
            s.has_ids(2 * projects@.len()),
            s == old(session)@,
            session@ == session_after_handshake(s, i as nat),
            s.valid() ==> session@.valid(),
            frames(out@) == framed_messages(handshake_messages(s, models.take(i as int), separator)),
            read_back(handshake_messages(s, models.take(i as int), separator)),
        decreases projects@.len() - i,
    {
        let ghost sent = out@;
        let ghost first = handshake_messages(s, models.take(i as int), separator);
        let ghost second = project_messages(session@, models[i as int], separator);
        proof {
            law_handshake_takes_two_ids_each(s, i as nat);
        }
        let mut more: Vec<Vec<u8>> = load_project(session, &projects[i], separator);
        let ghost new = more@;
        out.append(&mut more);
        i += 1;
        proof {
            assert(models.take(i as int).drop_last() =~= models.take(i - 1));
            assert(handshake_messages(s, models.take(i as int), separator) == first + second);
            assert(out@ == sent + new);
            assert(frames(out@) =~= frames(sent) + frames(new));
            assert(framed_messages(first + second) =~= framed_messages(first) + framed_messages(
                second,
            ));
            assert(read_back(first + second)) by {
                assert forall|k: int| 0 <= k < (first + second).len() implies json_parse(
                    json_bytes(#[trigger] (first + second)[k]),
                ) == Some((first + second)[k]) by {
                    if k < first.len() {
                        assert((first + second)[k] == first[k]);
                    } else {
                        assert((first + second)[k] == second[k - first.len()]);
                    }
                }
            }
        }
    }
    assert(models.take(i as int) =~= models);
    out
}

/// The projects are loaded in their order, each with three messages: its manifest, its
/// settings, and only then the call that makes it active. No two requests have one id.
pub proof fn law_projects_are_loaded_in_order(
    s: SessionModel,
    projects: Seq<ProjectModel>,
    separator: char,
    k: int,
)
    requires
        0 <= k < projects.len(),
    ensures
        ({
            let messages = handshake_messages(s, projects, separator);
            let project = projects[k];
            let settings = initial_settings(project.path, separator);
            let id = s.next_id() + 2 * k as nat;
            &&& messages.len() == 3 * projects.len()
            &&& messages[3 * k] == manifest_message(id, project)
            &&& messages[3 * k + 1] == configuration_message(settings)
            &&& messages[3 * k + 2] == activation_message(id + 1, project.path, settings)
        }),
    decreases projects.len(),
{
    let before = projects.drop_last();
    lemma_handshake_len(s, projects, separator);
    lemma_handshake_len(s, before, separator);
    law_handshake_takes_two_ids_each(s, before.len());
    if k < before.len() {
        law_projects_are_loaded_in_order(s, before, separator, k);
    }
}

/// There are three messages for each project.
proof fn lemma_handshake_len(s: SessionModel, projects: Seq<ProjectModel>, separator: char)
    ensures
        handshake_messages(s, projects, separator).len() == 3 * projects.len(),
    decreases projects.len(),
{
    if projects.len() > 0 {
        lemma_handshake_len(s, projects.drop_last(), separator);
    }
}

/// After the projects are loaded, the answers to all the requests that did it are expected,
/// and so are those that were expected before.
pub proof fn law_handshake_answers_are_expected(s: SessionModel, n: nat, k: nat, id: Seq<char>)
    requires
        s.valid(),
        k < n,
    ensures
        ({
            let inflight = session_after_handshake(s, n).inflight;
            let load = decimal(s.next_id() + 2 * k);
            let activate = decimal(s.next_id() + 2 * k + 1);
            &&& inflight.contains_key(load) && inflight[load] == "al/loadManifest"@
            &&& inflight.contains_key(activate) && inflight[activate] == "al/setActiveWorkspace"@
            &&& s.inflight.contains_key(id) ==> inflight.contains_key(id) && inflight[id]
                == s.inflight[id]
        }),
        session_after_handshake(s, n).valid(),
    decreases n,
{
    let m = (n - 1) as nat;
    let before = session_after_handshake(s, m);
    law_handshake_takes_two_ids_each(s, m);
    lemma_handshake_keeps(s, m, id);
    let between = before.requested("al/loadManifest"@);
    law_requests_keep_sessions_valid(before, "al/loadManifest"@);
    law_requests_keep_sessions_valid(between, "al/setActiveWorkspace"@);
    law_new_ids_are_fresh(before);
    law_new_ids_are_fresh(between);
    if k < m {
        law_handshake_answers_are_expected(s, m, k, id);
    }
}

/// Loading projects keeps a session valid and the answers expected that were.
proof fn lemma_handshake_keeps(s: SessionModel, n: nat, id: Seq<char>)
    requires
        s.valid(),
    ensures
        session_after_handshake(s, n).valid(),
        s.inflight.contains_key(id) ==> session_after_handshake(s, n).inflight.contains_key(id)
            && session_after_handshake(s, n).inflight[id] == s.inflight[id],
    decreases n,
{
    if n > 0 {
        let m = (n - 1) as nat;
        lemma_handshake_keeps(s, m, id);
        let before = session_after_handshake(s, m);
        let between = before.requested("al/loadManifest"@);
        law_requests_keep_sessions_valid(before, "al/loadManifest"@);
        law_requests_keep_sessions_valid(between, "al/setActiveWorkspace"@);
        law_new_ids_are_fresh(before);
        law_new_ids_are_fresh(between);
    }
}

/// The request to load a manifest names the project's folder by its whole path and holds
/// the text of its `app.json`, character for character, and nothing else.
pub proof fn law_manifests_are_sent_as_they_are(id: nat, project: ProjectModel, key: Seq<char>)
    ensures
        ({
            let message = manifest_message(id, project);
            &&& message.get("jsonrpc"@) == Some(JsonTree::Str("2.0"@))
            &&& message.get("id"@) == Some(JsonTree::Number(decimal(id)))
            &&& message.get("method"@) == Some(JsonTree::Str("al/loadManifest"@))
            &&& message.get("params"@) matches Some(params)
            &&& params is Object
            &&& params.get("projectFolder"@) == Some(JsonTree::Str(project.path))
            &&& params.get("manifest"@) == Some(JsonTree::Str(project.manifest))
            &&& params.get(key) is Some ==> key == "projectFolder"@ || key == "manifest"@
        }),
{
    reveal_strlit("projectFolder");
    reveal_strlit("manifest");
    assert("projectFolder"@.len() != "manifest"@.len());
    let folder = no_members().insert("projectFolder"@, JsonTree::Str(project.path));
    let params = JsonTree::Object(folder.insert("manifest"@, JsonTree::Str(project.manifest)));
    law_request_is_its_members(id, "al/loadManifest"@, params, "params"@);
}

/// The request to make a project active names its folder by its whole path, and holds the
/// settings as they are, and nothing else.
pub proof fn law_projects_are_activated_by_path(
    id: nat,
    project: Seq<char>,
    settings: JsonTree,
    key: Seq<char>,
)
    ensures
        ({
            let message = activation_message(id, project, settings);
            &&& message.get("jsonrpc"@) == Some(JsonTree::Str("2.0"@))
            &&& message.get("id"@) == Some(JsonTree::Number(decimal(id)))
            &&& message.get("method"@) == Some(JsonTree::Str("al/setActiveWorkspace"@))
            &&& message.get("params"@) matches Some(params)
            &&& params is Object
            &&& params.get("currentWorkspaceFolderPath"@) == Some(JsonTree::Str(project))
            &&& params.get("settings"@) == Some(settings)
            &&& params.get(key) is Some ==> key == "currentWorkspaceFolderPath"@ || key
                == "settings"@
        }),
{
    reveal_strlit("currentWorkspaceFolderPath");
    reveal_strlit("settings");
    assert("currentWorkspaceFolderPath"@.len() != "settings"@.len());
    let params = JsonTree::Object(
        no_members().insert("currentWorkspaceFolderPath"@, JsonTree::Str(project)).insert(
            "settings"@,
            settings,
        ),
    );
    law_request_is_its_members(id, "al/setActiveWorkspace"@, params, "params"@);
}

/// What the AL server is told of each project of the workspace: first its folder and its
/// manifest, then its settings, then that it is the active one, all by its whole path.
pub proof fn law_every_project_is_told_by_path_and_manifest(
    s: SessionModel,
    projects: Seq<ProjectModel>,
    separator: char,
    k: int,
)
    requires
        0 <= k < projects.len(),
    ensures
        ({
            let messages = handshake_messages(s, projects, separator);
            let path = projects[k].path;
            let load = messages[3 * k];
            let configure = messages[3 * k + 1];
            let activate = messages[3 * k + 2];
            let id = 900_000_000 + s.issued + 2 * k as nat;
            let settings = configure.get("params"@)->0.get("settings"@)->0;
            &&& messages.len() == 3 * projects.len()
            &&& load.get("method"@) == Some(JsonTree::Str("al/loadManifest"@))
            &&& load.get("id"@) == Some(JsonTree::Number(decimal(id)))
            &&& load.get("params"@)->0.get("projectFolder"@) == Some(JsonTree::Str(path))
            &&& load.get("params"@)->0.get("manifest"@) == Some(
                JsonTree::Str(projects[k].manifest),
            )
            &&& configure.get("method"@) == Some(JsonTree::Str("workspace/didChangeConfiguration"@))
            &&& configure.get("id"@) is None
            &&& settings == al_settings(path, JsonTree::Object(Map::empty()), separator)
            &&& settings.get("workspacePath"@) == Some(JsonTree::Str(path))
            &&& activate.get("method"@) == Some(JsonTree::Str("al/setActiveWorkspace"@))
            &&& activate.get("id"@) == Some(JsonTree::Number(decimal(id + 1)))
            &&& activate.get("params"@)->0.get("currentWorkspaceFolderPath"@) == Some(
                JsonTree::Str(path),
            )
            &&& activate.get("params"@)->0.get("settings"@) == Some(settings)
        }),
{
    let project = projects[k];
    let settings = initial_settings(project.path, separator);
    let id = s.next_id() + 2 * k as nat;
    law_projects_are_loaded_in_order(s, projects, separator, k);
    law_manifests_are_sent_as_they_are(id, project, "manifest"@);
    law_settings_are_announced_as_they_are(settings, "settings"@);
    law_projects_are_activated_by_path(id + 1, project.path, settings, "settings"@);
    law_settings_are_their_members(
        project.path,
        JsonTree::Object(Map::empty()),
        separator,
        "workspacePath"@,
    );
}

/// One project is loaded as a workspace of it alone is.
pub proof fn law_a_project_is_loaded_as_a_workspace_of_one(
    s: SessionModel,
    project: ProjectModel,
    separator: char,
)
    ensures
        project_messages(s, project, separator) == handshake_messages(
            s,
            seq![project],
            separator,
        ),
        session_after_project(s) == session_after_handshake(s, 1),
{
    let projects = seq![project];
    assert(projects.drop_last() =~= Seq::empty());
    reveal_with_fuel(handshake_messages, 2);
    reveal_with_fuel(session_after_handshake, 2);
    assert(handshake_messages(s, projects, separator) =~= project_messages(s, project, separator));
}

/// Loading projects goes project by project, each from where the one before left the
/// session.
pub proof fn law_projects_are_loaded_one_by_one(
    s: SessionModel,
    projects: Seq<ProjectModel>,
    project: ProjectModel,
    separator: char,
)
    ensures
        handshake_messages(s, Seq::empty(), separator).len() == 0,
        session_after_handshake(s, 0) == s,
        handshake_messages(s, projects.push(project), separator) == handshake_messages(
            s,
            projects,
            separator,
        ) + project_messages(session_after_handshake(s, projects.len()), project, separator),
        session_after_handshake(s, projects.len() + 1) == session_after_handshake(
            s,
            projects.len(),
        ).requested("al/loadManifest"@).requested("al/setActiveWorkspace"@),
{
    assert(projects.push(project).drop_last() =~= projects);
}

/// A project is the text of its path and of its manifest, and a row of projects is each of
/// them in its place.
pub proof fn law_projects_are_path_and_manifest(projects: Seq<Project>, i: int)
    requires
        0 <= i < projects.len(),
    ensures
        project_models(projects).len() == projects.len(),
        project_models(projects)[i].path == path_text(projects[i].path),
        project_models(projects)[i].manifest == projects[i].manifest@,
{
}

/// A folder with a manifest is a project, with that path and that manifest, behind those
/// before it; a folder without one is passed over.
pub proof fn law_folders_with_a_manifest_are_projects(
    folders: Seq<(PathBuf, Option<String>)>,
    path: PathBuf,
    manifest: String,
)
    ensures
        projects_among(Seq::empty()).len() == 0,
        projects_among(folders.push((path, None))) == projects_among(folders),
        projects_among(folders.push((path, Some(manifest)))) == projects_among(folders).push(
            ProjectModel { path: path_text(path), manifest: manifest@ },
        ),
{
    assert(folders.push((path, None)).drop_last() =~= folders);
    assert(folders.push((path, Some(manifest))).drop_last() =~= folders);
}

/// A folder's path comes behind those of the folders before it; a folder whose URI stands
/// for no path is passed over.
pub proof fn law_folder_paths_keep_their_order(
    folders: Seq<FolderModel>,
    folder: FolderModel,
    paths: Seq<PathBuf>,
)
    ensures
        may_be_folder_paths(Seq::empty(), paths) <==> paths.len() == 0,
        may_be_folder_paths(folders.push(folder), paths) <==> {
            ||| may_be_path_of(folder.uri, None) && may_be_folder_paths(folders, paths)
            ||| paths.len() > 0 && may_be_path_of(folder.uri, Some(paths.last()))
                && may_be_folder_paths(folders, paths.drop_last())
        },
{
    assert(folders.push(folder).drop_last() =~= folders);
}

/// The frames that are sent are those of the messages, one for each and in their order.
pub proof fn law_frames_are_those_of_the_messages(
    sent: Seq<Vec<u8>>,
    messages: Seq<JsonTree>,
    i: int,
)
    requires
        frames(sent) == framed_messages(messages),
        0 <= i < messages.len(),
    ensures
        sent.len() == messages.len(),
        sent[i]@ == framed(json_bytes(messages[i])),
        read_back(messages) ==> json_parse(json_bytes(messages[i])) == Some(messages[i]),
{
    assert(frames(sent).len() == sent.len());
    assert(framed_messages(messages)[i] == framed_message(messages[i]));
    assert(frames(sent)[i] == sent[i]@);
}

} // verus!
