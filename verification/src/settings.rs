//! The workspace settings, in the shape that the AL server expects.

use crate::codec::{json_bytes, json_parse, max_depth, to_bytes};
use crate::json::{is_plain, no_members, trees, Json, JsonObject, JsonTree};
use crate::rpc::{
    law_notification_is_its_members, law_notification_members, lemma_notification_is_plain,
    notification, notification_tree,
};
use crate::text::push_char;
use vstd::prelude::*;
use vstd::string::*;

verus! {

/// The member of the overrides, or a default where they have none.
pub open spec fn picked(overrides: JsonTree, key: Seq<char>, default: JsonTree) -> JsonTree {
    match overrides.get(key) {
        Some(t) => t,
        None => default,
    }
}

/// Where packages are cached by default: `.alpackages` in the project folder.
pub open spec fn default_package_cache(project: Seq<char>, separator: char) -> Seq<char> {
    if project.len() == 0 {
        ".alpackages"@
    } else {
        project.push(separator) + ".alpackages"@
    }
}

/// Where packages are cached. The user names one place or a row of them; anything else is
/// passed over for the default.
pub open spec fn package_cache_paths(
    project: Seq<char>,
    overrides: JsonTree,
    separator: char,
) -> JsonTree {
    match overrides.get("packageCachePath"@) {
        Some(JsonTree::Str(s)) => JsonTree::Array(seq![JsonTree::Str(s)]),
        Some(JsonTree::Array(a)) => JsonTree::Array(a),
        _ => JsonTree::Array(seq![JsonTree::Str(default_package_cache(project, separator))]),
    }
}

/// The part of the settings that the user can override.
pub open spec fn al_resource(project: Seq<char>, overrides: JsonTree, separator: char) -> Map<
    Seq<char>,
    JsonTree,
> {
    no_members().insert(
        "assemblyProbingPaths"@,
        picked(
            overrides,
            "assemblyProbingPaths"@,
            JsonTree::Array(seq![JsonTree::Str("./.netpackages"@)]),
        ),
    ).insert(
        "codeAnalyzers"@,
        picked(overrides, "codeAnalyzers"@, JsonTree::Array(Seq::empty())),
    ).insert(
        "enableCodeAnalysis"@,
        picked(overrides, "enableCodeAnalysis"@, JsonTree::Bool(false)),
    ).insert(
        "backgroundCodeAnalysis"@,
        picked(overrides, "backgroundCodeAnalysis"@, JsonTree::Str("Project"@)),
    ).insert(
        "packageCachePaths"@,
        package_cache_paths(project, overrides, separator),
    ).insert("ruleSetPath"@, picked(overrides, "ruleSetPath"@, JsonTree::Str(""@))).insert(
        "enableCodeActions"@,
        picked(overrides, "enableCodeActions"@, JsonTree::Bool(true)),
    ).insert(
        "incrementalBuild"@,
        picked(overrides, "incrementalBuild"@, JsonTree::Bool(false)),
    ).insert(
        "enableCodeLensExternalUsage"@,
        picked(overrides, "enableCodeLensExternalUsage"@, JsonTree::Bool(false)),
    ).insert(
        "outputAnalyzerStatistics"@,
        picked(overrides, "outputAnalyzerStatistics"@, JsonTree::Bool(false)),
    ).insert(
        "enableExternalRulesets"@,
        picked(overrides, "enableExternalRulesets"@, JsonTree::Bool(false)),
    ).insert("namespaceTemplate"@, picked(overrides, "namespaceTemplate"@, JsonTree::Str(""@)))
}

/// The settings of a project for the AL server.
pub open spec fn al_settings(
    project: Seq<char>,
    overrides: JsonTree,
    separator: char,
) -> JsonTree {
    JsonTree::Object(
        no_members().insert("workspacePath"@, JsonTree::Str(project)).insert(
            "alResourceConfigurationSettings"@,
            JsonTree::Object(al_resource(project, overrides, separator)),
        ).insert("setActiveWorkspace"@, JsonTree::Bool(true)).insert(
            "dependencyParentWorkspacePath"@,
            JsonTree::Null,
        ).insert("expectedProjectReferenceDefinitions"@, JsonTree::Array(Seq::empty())).insert(
            "activeWorkspaceClosure"@,
            JsonTree::Array(Seq::empty()),
        ),
    )
}

/// The member of the overrides, or a default where they have none.
fn pick(overrides: &Json, key: &str, default: Json) -> (r: Json)
    ensures
        r@ == picked(overrides@, key@, default@),
{
    match overrides.get(key) {
        Some(j) => j.copy(),
        None => default,
    }
}

/// The array of one string.
fn array_of_one(s: &str) -> (r: Json)
    ensures
        r@ == JsonTree::Array(seq![JsonTree::Str(s@)]),
{
    let mut a: Vec<Json> = Vec::new();
    a.push(Json::string(s));
    assert(trees(a@) =~= seq![JsonTree::Str(s@)]);
    Json::array(a)
}

/// The settings of the project in the folder `project_path` for the AL server, where
/// `user_overrides` are the settings that the user made and `separator` is what the
/// platform puts between the parts of a path.
pub fn build_al_settings(project_path: &str, user_overrides: &Json, separator: char) -> (r: Json)
    ensures
        r@ == al_settings(project_path@, user_overrides@, separator),
{
    let mut package_cache: String = project_path.to_owned();
    if !project_path.is_empty() {
        push_char(&mut package_cache, separator);
    }
    package_cache.append(".alpackages");
    assert(package_cache@ =~= default_package_cache(project_path@, separator));
    let package_cache_paths: Json = match user_overrides.get("packageCachePath") {
        Some(j) => match j {
            Json::Str(s) => array_of_one(s.as_str()),
            Json::Array(_) => j.copy(),
            _ => array_of_one(package_cache.as_str()),
        },
        None => array_of_one(package_cache.as_str()),
    };
    let o: &Json = user_overrides;
    let al_resource: JsonObject = JsonObject::new().with(
        "assemblyProbingPaths",
        pick(o, "assemblyProbingPaths", array_of_one("./.netpackages")),
    ).with("codeAnalyzers", pick(o, "codeAnalyzers", Json::empty_array())).with(
        "enableCodeAnalysis",
        pick(o, "enableCodeAnalysis", Json::Bool(false)),
    ).with(
        "backgroundCodeAnalysis",
        pick(o, "backgroundCodeAnalysis", Json::string("Project")),
    ).with("packageCachePaths", package_cache_paths).with(
        "ruleSetPath",
        pick(o, "ruleSetPath", Json::string("")),
    ).with("enableCodeActions", pick(o, "enableCodeActions", Json::Bool(true))).with(
        "incrementalBuild",
        pick(o, "incrementalBuild", Json::Bool(false)),
    ).with(
        "enableCodeLensExternalUsage",
        pick(o, "enableCodeLensExternalUsage", Json::Bool(false)),
    ).with(
        "outputAnalyzerStatistics",
        pick(o, "outputAnalyzerStatistics", Json::Bool(false)),
    ).with("enableExternalRulesets", pick(o, "enableExternalRulesets", Json::Bool(false))).with(
        "namespaceTemplate",
        pick(o, "namespaceTemplate", Json::string("")),
    );
    Json::Object(
        JsonObject::new().with("workspacePath", Json::string(project_path)).with(
            "alResourceConfigurationSettings",
            Json::Object(al_resource),
        ).with("setActiveWorkspace", Json::Bool(true)).with(
            "dependencyParentWorkspacePath",
            Json::Null,
        ).with("expectedProjectReferenceDefinitions", Json::empty_array()).with(
            "activeWorkspaceClosure",
            Json::empty_array(),
        ),
    )
}

/// The settings that the editor sent for the AL server: the `al` part of them, or none
/// where there is no such part.
pub open spec fn sent_overrides(message: JsonTree) -> JsonTree {
    match message.get("params"@) {
        Some(params) => match params.get("settings"@) {
            Some(settings) => match settings.get("al"@) {
                Some(al) => al,
                None => JsonTree::Object(no_members()),
            },
            None => JsonTree::Object(no_members()),
        },
        None => JsonTree::Object(no_members()),
    }
}

/// The notification that settings have changed.
pub open spec fn configuration_message(settings: JsonTree) -> JsonTree {
    notification_tree(
        "workspace/didChangeConfiguration"@,
        JsonTree::Object(no_members().insert("settings"@, settings)),
    )
}

/// Builds the notification that settings have changed.
pub fn configuration_changed(settings: Json) -> (r: Json)
    ensures
        r@ == configuration_message(settings@),
{
    notification(
        "workspace/didChangeConfiguration",
        Json::Object(JsonObject::new().with("settings", settings)),
    )
}

/// What becomes of the editor's notification that settings have changed: the editor keeps
/// the settings for the AL server under `al`, flat, and the AL server expects the whole
/// structure of its own.
pub open spec fn rewritten(message: JsonTree, project: Seq<char>, separator: char) -> JsonTree {
    configuration_message(al_settings(project, sent_overrides(message), separator))
}

/// Rewrites the editor's notification that settings have changed.
pub fn rewritten_configuration(v: &Json, project_path: &str, separator: char) -> (r: Json)
    ensures
        r@ == rewritten(v@, project_path@, separator),
{
    let nothing: Json = Json::Object(JsonObject::new());
    let user_al: &Json = match v.get("params") {
        Some(params) => match params.get("settings") {
            Some(settings) => match settings.get("al") {
                Some(al) => al,
                None => &nothing,
            },
            None => &nothing,
        },
        None => &nothing,
    };
    configuration_changed(build_al_settings(project_path, user_al, separator))
}

/// Rewrites the editor's notification that settings have changed, to bytes.
pub fn rewrite_did_change_configuration(v: &Json, project_path: &str, separator: char) -> (r: Vec<
    u8,
>)
    ensures
        r@ == json_bytes(rewritten(v@, project_path@, separator)),
        is_plain(v@, max_depth()) ==> json_parse(r@) == Some(
            rewritten(v@, project_path@, separator),
        ),
{
    proof {
        if is_plain(v@, max_depth()) {
            lemma_rewritten_is_plain(v@, project_path@, separator, max_depth());
        }
    }
    to_bytes(rewritten_configuration(v, project_path, separator))
}

/// The settings are plain where the overrides are.
pub proof fn lemma_settings_are_plain(
    project: Seq<char>,
    overrides: JsonTree,
    separator: char,
    depth: nat,
)
    requires
        is_plain(overrides, depth),
        depth >= 2,
    ensures
        is_plain(al_settings(project, overrides, separator), depth + 1),
{
    let inner = (depth - 1) as nat;
    assert forall|key: Seq<char>, default: JsonTree| is_plain(default, inner) implies is_plain(
        #[trigger] picked(overrides, key, default),
        inner,
    ) by {
        assert(is_plain(overrides, depth));
    }
    assert forall|s: Seq<char>| #[trigger] is_plain(
        JsonTree::Array(seq![JsonTree::Str(s)]),
        inner,
    ) by {
        reveal_with_fuel(is_plain, 2);
    }
    assert(is_plain(JsonTree::Array(Seq::empty()), inner));
    assert(is_plain(package_cache_paths(project, overrides, separator), inner)) by {
        assert(is_plain(overrides, depth));
    }
    let resource = al_resource(project, overrides, separator);
    assert(is_plain(JsonTree::Object(resource), depth)) by {
        assert forall|key: Seq<char>| #[trigger] resource.contains_key(key) implies is_plain(
            resource[key],
            inner,
        ) by {}
    }
    let settings = al_settings(project, overrides, separator);
    assert(is_plain(JsonTree::Array(Seq::empty()), depth));
    assert forall|key: Seq<char>| #[trigger] settings->Object_0.contains_key(key) implies is_plain(
        settings->Object_0[key],
        depth,
    ) by {}
}

/// The notification that settings have changed is plain where the settings are.
pub proof fn lemma_configuration_is_plain(settings: JsonTree, depth: nat)
    requires
        is_plain(settings, depth),
    ensures
        is_plain(configuration_message(settings), depth + 2),
{
    let params = JsonTree::Object(no_members().insert("settings"@, settings));
    assert(is_plain(params, depth + 1));
    lemma_notification_is_plain("workspace/didChangeConfiguration"@, params, depth + 1);
}

/// A plain message that settings have changed stays plain.
proof fn lemma_rewritten_is_plain(
    message: JsonTree,
    project: Seq<char>,
    separator: char,
    depth: nat,
)
    requires
        is_plain(message, depth),
        depth >= 5,
    ensures
        is_plain(rewritten(message, project, separator), depth),
{
    let inner = (depth - 3) as nat;
    let overrides = sent_overrides(message);
    reveal_with_fuel(is_plain, 4);
    assert(is_plain(overrides, inner));
    lemma_settings_are_plain(project, overrides, separator, inner);
    lemma_configuration_is_plain(al_settings(project, overrides, separator), inner + 1);
}

/// The settings that are passed on as the user made them.
pub open spec fn is_passed_on(key: Seq<char>) -> bool {
    ||| key == "assemblyProbingPaths"@
    ||| key == "codeAnalyzers"@
    ||| key == "enableCodeAnalysis"@
    ||| key == "backgroundCodeAnalysis"@
    ||| key == "ruleSetPath"@
    ||| key == "enableCodeActions"@
    ||| key == "incrementalBuild"@
    ||| key == "enableCodeLensExternalUsage"@
    ||| key == "outputAnalyzerStatistics"@
    ||| key == "enableExternalRulesets"@
    ||| key == "namespaceTemplate"@
}

/// A setting that the user made reaches the AL server as it was made.
pub proof fn law_overrides_are_passed_on(
    project: Seq<char>,
    overrides: JsonTree,
    separator: char,
    key: Seq<char>,
)
    requires
        is_passed_on(key),
        overrides.get(key) is Some,
    ensures
        al_resource(project, overrides, separator).contains_key(key),
        Some(al_resource(project, overrides, separator)[key]) == overrides.get(key),
{
    lemma_keys_differ();
}

/// The keys of the settings differ.
proof fn lemma_keys_differ()
    ensures
        "assemblyProbingPaths"@.len() == 20,
        "codeAnalyzers"@.len() == 13,
        "enableCodeAnalysis"@.len() == 18,
        "backgroundCodeAnalysis"@.len() == 22,
        "packageCachePaths"@.len() == 17,
        "ruleSetPath"@.len() == 11,
        "enableCodeActions"@.len() == 17,
        "incrementalBuild"@.len() == 16,
        "enableCodeLensExternalUsage"@.len() == 27,
        "outputAnalyzerStatistics"@.len() == 24,
        "enableExternalRulesets"@.len() == 22,
        "namespaceTemplate"@.len() == 17,
        "backgroundCodeAnalysis"@[0] == 'b',
        "enableExternalRulesets"@[0] == 'e',
        "packageCachePaths"@[0] == 'p',
        "enableCodeActions"@[0] == 'e',
        "namespaceTemplate"@[0] == 'n',
{
    reveal_strlit("assemblyProbingPaths");
    reveal_strlit("codeAnalyzers");
    reveal_strlit("enableCodeAnalysis");
    reveal_strlit("backgroundCodeAnalysis");
    reveal_strlit("packageCachePaths");
    reveal_strlit("ruleSetPath");
    reveal_strlit("enableCodeActions");
    reveal_strlit("incrementalBuild");
    reveal_strlit("enableCodeLensExternalUsage");
    reveal_strlit("outputAnalyzerStatistics");
    reveal_strlit("enableExternalRulesets");
    reveal_strlit("namespaceTemplate");
}

/// Only the settings that the AL server knows count: overrides that agree on those give the
/// same settings.
pub proof fn law_unknown_overrides_do_not_count(
    project: Seq<char>,
    a: JsonTree,
    b: JsonTree,
    separator: char,
)
    requires
        forall|key: Seq<char>|
            is_passed_on(key) || key == "packageCachePath"@ ==> #[trigger] a.get(key) == b.get(key),
    ensures
        al_settings(project, a, separator) == al_settings(project, b, separator),
{
}

/// The user's package cache is taken as it was set: a string is the one place, whatever it
/// says, and an array is all the places. Only without either is there a default: the folder
/// `.alpackages` in the project.
pub proof fn law_package_cache_is_the_users(
    project: Seq<char>,
    overrides: JsonTree,
    separator: char,
    place: Seq<char>,
    places: Seq<JsonTree>,
)
    ensures
        ({
            let settings = al_settings(project, overrides, separator);
            let resource = settings.get("alResourceConfigurationSettings"@)->0;
            let cache = resource.get("packageCachePaths"@);
            let chosen = overrides.get("packageCachePath"@);
            &&& chosen == Some(JsonTree::Str(place)) ==> cache == Some(
                JsonTree::Array(seq![JsonTree::Str(place)]),
            )
            &&& chosen == Some(JsonTree::Array(places)) ==> cache == Some(JsonTree::Array(places))
            &&& !(chosen matches Some(JsonTree::Str(_))) && !(chosen matches Some(
                JsonTree::Array(_),
            )) ==> cache == Some(
                JsonTree::Array(
                    seq![
                        JsonTree::Str(
                            if project.len() == 0 {
                                ".alpackages"@
                            } else {
                                project + seq![separator] + ".alpackages"@
                            },
                        ),
                    ],
                ),
            )
        }),
{
    lemma_keys_differ();
    lemma_outer_keys_differ();
    assert(project.push(separator) + ".alpackages"@ =~= project + seq![separator]
        + ".alpackages"@);
}

/// The keys of the outer settings differ.
proof fn lemma_outer_keys_differ()
    ensures
        "workspacePath"@.len() == 13,
        "alResourceConfigurationSettings"@.len() == 31,
        "setActiveWorkspace"@.len() == 18,
        "dependencyParentWorkspacePath"@.len() == 29,
        "expectedProjectReferenceDefinitions"@.len() == 35,
        "activeWorkspaceClosure"@.len() == 22,
{
    reveal_strlit("workspacePath");
    reveal_strlit("alResourceConfigurationSettings");
    reveal_strlit("setActiveWorkspace");
    reveal_strlit("dependencyParentWorkspacePath");
    reveal_strlit("expectedProjectReferenceDefinitions");
    reveal_strlit("activeWorkspaceClosure");
}

/// The settings name the project folder as it is given, make the project the active one,
/// hold the part that the user can override, and nothing else.
pub proof fn law_settings_are_their_members(
    project: Seq<char>,
    overrides: JsonTree,
    separator: char,
    key: Seq<char>,
)
    ensures
        ({
            let settings = al_settings(project, overrides, separator);
            &&& settings is Object
            &&& settings.get_str("workspacePath"@) == Some(project)
            &&& settings.get("alResourceConfigurationSettings"@) matches Some(JsonTree::Object(_))
            &&& settings.get("setActiveWorkspace"@) == Some(JsonTree::Bool(true))
            &&& settings.get("dependencyParentWorkspacePath"@) == Some(JsonTree::Null)
            &&& settings.get("expectedProjectReferenceDefinitions"@) == Some(
                JsonTree::Array(Seq::empty()),
            )
            &&& settings.get("activeWorkspaceClosure"@) == Some(JsonTree::Array(Seq::empty()))
            &&& settings.get(key) is Some ==> {
                ||| key == "workspacePath"@
                ||| key == "alResourceConfigurationSettings"@
                ||| key == "setActiveWorkspace"@
                ||| key == "dependencyParentWorkspacePath"@
                ||| key == "expectedProjectReferenceDefinitions"@
                ||| key == "activeWorkspaceClosure"@
            }
        }),
{
    lemma_outer_keys_differ();
}

/// Each setting that the user can override is what the user made it, and a default where
/// the user made none; there are no others but the package cache.
pub proof fn law_each_setting_is_the_users_or_its_default(
    project: Seq<char>,
    overrides: JsonTree,
    separator: char,
    key: Seq<char>,
    default: JsonTree,
)
    ensures
        ({
            let settings = al_settings(project, overrides, separator);
            let resource = settings.get("alResourceConfigurationSettings"@)->0;
            let known = {
                ||| key == "assemblyProbingPaths"@ && default == JsonTree::Array(
                    seq![JsonTree::Str("./.netpackages"@)],
                )
                ||| key == "codeAnalyzers"@ && default == JsonTree::Array(Seq::empty())
                ||| key == "enableCodeAnalysis"@ && default == JsonTree::Bool(false)
                ||| key == "backgroundCodeAnalysis"@ && default == JsonTree::Str("Project"@)
                ||| key == "ruleSetPath"@ && default == JsonTree::Str(""@)
                ||| key == "enableCodeActions"@ && default == JsonTree::Bool(true)
                ||| key == "incrementalBuild"@ && default == JsonTree::Bool(false)
                ||| key == "enableCodeLensExternalUsage"@ && default == JsonTree::Bool(false)
                ||| key == "outputAnalyzerStatistics"@ && default == JsonTree::Bool(false)
                ||| key == "enableExternalRulesets"@ && default == JsonTree::Bool(false)
                ||| key == "namespaceTemplate"@ && default == JsonTree::Str(""@)
            };
            &&& known && overrides.get(key) is Some ==> resource.get(key) == overrides.get(key)
            &&& known && overrides.get(key) is None ==> resource.get(key) == Some(default)
            &&& resource.get(key) is Some ==> {
                ||| key == "assemblyProbingPaths"@
                ||| key == "codeAnalyzers"@
                ||| key == "enableCodeAnalysis"@
                ||| key == "backgroundCodeAnalysis"@
                ||| key == "packageCachePaths"@
                ||| key == "ruleSetPath"@
                ||| key == "enableCodeActions"@
                ||| key == "incrementalBuild"@
                ||| key == "enableCodeLensExternalUsage"@
                ||| key == "outputAnalyzerStatistics"@
                ||| key == "enableExternalRulesets"@
                ||| key == "namespaceTemplate"@
            }
        }),
{
    lemma_keys_differ();
    lemma_outer_keys_differ();
}

/// The overrides are what the editor's message holds at `params.settings.al`; a message
/// without that has none.
pub proof fn law_overrides_are_the_al_part(
    message: JsonTree,
    params: JsonTree,
    settings: JsonTree,
    al: JsonTree,
)
    ensures
        message.get("params"@) == Some(params) && params.get("settings"@) == Some(settings)
            && settings.get("al"@) == Some(al) ==> sent_overrides(message) == al,
        message.get("params"@) is None ==> sent_overrides(message) == JsonTree::Object(
            Map::empty(),
        ),
        message.get("params"@) == Some(params) && params.get("settings"@) is None
            ==> sent_overrides(message) == JsonTree::Object(Map::empty()),
        message.get("params"@) == Some(params) && params.get("settings"@) == Some(settings)
            && settings.get("al"@) is None ==> sent_overrides(message) == JsonTree::Object(
            Map::empty(),
        ),
{
}

/// The AL server is told of settings by a notification whose parameters are just them.
pub proof fn law_settings_are_announced_as_they_are(settings: JsonTree, key: Seq<char>)
    ensures
        ({
            let message = configuration_message(settings);
            &&& message.get("id"@) is None
            &&& message.get("jsonrpc"@) == Some(JsonTree::Str("2.0"@))
            &&& message.get("method"@) == Some(JsonTree::Str("workspace/didChangeConfiguration"@))
            &&& message.get("params"@) matches Some(params)
            &&& params is Object
            &&& params.get("settings"@) == Some(settings)
            &&& params.get(key) is Some ==> key == "settings"@
        }),
{
    let params = JsonTree::Object(no_members().insert("settings"@, settings));
    law_notification_members("workspace/didChangeConfiguration"@, params);
    law_notification_is_its_members("workspace/didChangeConfiguration"@, params, key);
}

/// A setting that the user makes in the editor stands in what the AL server is told, under
/// the same name and with the same value.
pub proof fn law_rewriting_keeps_the_users_settings(
    message: JsonTree,
    project: Seq<char>,
    separator: char,
)
    ensures
        ({
            let sent = rewritten(message, project, separator);
            let settings = sent.get("params"@)->0.get("settings"@);
            &&& sent.get("method"@) == Some(JsonTree::Str("workspace/didChangeConfiguration"@))
            &&& sent.get("id"@) is None
            &&& settings == Some(al_settings(project, sent_overrides(message), separator))
        }),
{
    let settings = al_settings(project, sent_overrides(message), separator);
    law_settings_are_announced_as_they_are(settings, "settings"@);
}

} // verus!
