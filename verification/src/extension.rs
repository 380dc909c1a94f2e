//! How the editor's extension finds the bridge, and what it tells the editor of settings.

use crate::json::{no_members, Json, JsonObject, JsonTree};
use crate::rpc::law_notification_members;
use crate::settings::{configuration_message, sent_overrides};
use crate::text::text_eq;
use vstd::prelude::*;

verus! {

/// The part of the editor's settings for the language server that says which binary to run.
#[derive(Debug)]
pub struct BinarySettings {
    pub path: Option<String>,
    pub arguments: Option<Vec<String>>,
}

/// The editor's extension for AL.
#[derive(Debug, Clone, Copy)]
pub struct AlExtension;

/// Environment variables as mathematics.
pub open spec fn variables(env: Seq<(String, String)>) -> Seq<(Seq<char>, Seq<char>)> {
    Seq::new(env.len(), |i: int| (env[i].0@, env[i].1@))
}

/// The value of a variable: that of the first entry with its name, unless that is empty.
pub open spec fn variable(env: Seq<(Seq<char>, Seq<char>)>, key: Seq<char>) -> Option<Seq<char>>
    decreases env.len(),
{
    if env.len() == 0 {
        None
    } else if env[0].0 == key {
        if env[0].1.len() == 0 {
            None
        } else {
            Some(env[0].1)
        }
    } else {
        variable(env.skip(1), key)
    }
}

/// Looks up an environment variable. An empty one counts as not set.
pub fn env_var(env: &[(String, String)], key: &str) -> (r: Option<String>)
    ensures
        match r {
            Some(v) => variable(variables(env@), key@) == Some(v@),
            None => variable(variables(env@), key@) is None,
        },
{
    let ghost all = variables(env@);
    let mut i: usize = 0;
    assert(all.skip(0) =~= all);
    while i < env.len()
        invariant
            i <= env@.len(),
            all == variables(env@),
            variable(all, key@) == variable(all.skip(i as int), key@),
        decreases env@.len() - i,
    {
        assert(all.skip(i as int)[0] == all[i as int]);
        assert(all.skip(i as int).skip(1) =~= all.skip(i + 1));
        if text_eq(env[i].0.as_str(), key) {
            if env[i].1.as_str().is_empty() {
                return None;
            }
            return Some(env[i].1.clone());
        }
        i += 1;
    }
    None
}

/// A command as mathematics: the binary and its arguments.
pub ghost struct CommandModel {
    pub path: Seq<char>,
    pub args: Seq<String>,
}

/// The command that starts the bridge: what the settings name, with the arguments that they
/// give; else the binary that `ALZED_BRIDGE_PATH` names; else the one that was found on the
/// `PATH`.
pub open spec fn bridge_command(
    binary: Option<BinarySettings>,
    env: Seq<(Seq<char>, Seq<char>)>,
    on_path: Option<String>,
) -> Option<CommandModel> {
    match binary {
        Some(BinarySettings { path: Some(path), arguments }) => Some(
            CommandModel {
                path: path@,
                args: match arguments {
                    Some(args) => args@,
                    None => Seq::empty(),
                },
            },
        ),
        _ => match variable(env, "ALZED_BRIDGE_PATH"@) {
            Some(path) => Some(CommandModel { path, args: Seq::empty() }),
            None => match on_path {
                Some(path) => Some(CommandModel { path: path@, args: Seq::empty() }),
                None => None,
            },
        },
    }
}

impl AlExtension {
    /// Finds the command that starts the bridge, where `on_path` is the bridge that was
    /// found on the `PATH`; or says how to install it.
    pub fn resolve_language_server_binary(
        &self,
        binary: Option<BinarySettings>,
        env: &[(String, String)],
        on_path: Option<String>,
    ) -> (r: Result<(String, Vec<String>), String>)
        ensures
            match bridge_command(binary, variables(env@), on_path) {
                Some(command) => r matches Ok((path, args)) && path@ == command.path && args@
                    == command.args,
                None => r matches Err(message) && message@ == missing_server_text(),
            },
    {
        if let Some(BinarySettings { path: Some(path), arguments }) = binary {
            let args: Vec<String> = match arguments {
                Some(args) => args,
                None => Vec::new(),
            };
            return Ok((path, args));
        }
        if let Some(path) = env_var(env, "ALZED_BRIDGE_PATH") {
            return Ok((path, Vec::new()));
        }
        if let Some(path) = on_path {
            return Ok((path, Vec::new()));
        }
        Err(missing_server_message())
    }
}

/// The settings for the AL server as the editor is to send them: under `al`, and empty
/// where the user made none.
pub open spec fn wrapped_settings(settings: Option<JsonTree>) -> JsonTree {
    JsonTree::Object(
        no_members().insert(
            "al"@,
            match settings {
                Some(t) => t,
                None => JsonTree::Object(no_members()),
            },
        ),
    )
}

/// The tree of settings that may be absent.
pub open spec fn settings_tree(settings: Option<Json>) -> Option<JsonTree> {
    match settings {
        Some(j) => Some(j@),
        None => None,
    }
}

/// Builds the settings for the AL server as the editor is to send them.
pub fn workspace_configuration(settings: Option<Json>) -> (r: Json)
    ensures
        r@ == wrapped_settings(settings_tree(settings)),
{
    let user_settings: Json = match settings {
        Some(j) => j,
        None => Json::Object(JsonObject::new()),
    };
    Json::Object(JsonObject::new().with("al", user_settings))
}

/// What the user is told where the bridge is not found.
pub open spec fn missing_server_text() -> Seq<char> {
    "alzed-bridge not found.

ALzed runs a small native binary, alzed-bridge, that performs the AL
handshake and proxies LSP to Microsoft's AL Language Server. Both are
installed separately (neither is bundled). Point Zed at the bridge and
tell it where the MS AL server lives:

  \"lsp\": {
    \"al\": {
      \"binary\": {
        \"path\": \"/absolute/path/to/alzed-bridge\",
        \"arguments\": [
          \"--al-server\",
          \"/path/to/Microsoft.Dynamics.Nav.EditorServices.Host\"
        ]
      }
    }
  }

Alternatively, put alzed-bridge on your PATH and export ALZED_AL_SERVER
(pointing at the MS AL server), or set ALZED_BRIDGE_PATH to the bridge.

Get the bridge from the GitHub release (or build it); the MS AL server
ships inside the official VS Code AL extension (ms-dynamics-smb.al) under
bin/<platform>/. See README.md for the full setup."@
}

/// What the user is told where the bridge is not found.
pub fn missing_server_message() -> (r: String)
    ensures
        r@ == missing_server_text(),
{
    "alzed-bridge not found.

ALzed runs a small native binary, alzed-bridge, that performs the AL
handshake and proxies LSP to Microsoft's AL Language Server. Both are
installed separately (neither is bundled). Point Zed at the bridge and
tell it where the MS AL server lives:

  \"lsp\": {
    \"al\": {
      \"binary\": {
        \"path\": \"/absolute/path/to/alzed-bridge\",
        \"arguments\": [
          \"--al-server\",
          \"/path/to/Microsoft.Dynamics.Nav.EditorServices.Host\"
        ]
      }
    }
  }

Alternatively, put alzed-bridge on your PATH and export ALZED_AL_SERVER
(pointing at the MS AL server), or set ALZED_BRIDGE_PATH to the bridge.

Get the bridge from the GitHub release (or build it); the MS AL server
ships inside the official VS Code AL extension (ms-dynamics-smb.al) under
bin/<platform>/. See README.md for the full setup.".to_owned()
}

/// The settings that the extension wraps are the overrides that the bridge takes out of the
/// editor's message again.
pub proof fn law_settings_reach_the_bridge(settings: Option<JsonTree>)
    ensures
        sent_overrides(configuration_message(wrapped_settings(settings))) == (match settings {
            Some(t) => t,
            None => JsonTree::Object(no_members()),
        }),
{
    law_notification_members(
        "workspace/didChangeConfiguration"@,
        JsonTree::Object(no_members().insert("settings"@, wrapped_settings(settings))),
    );
}

/// A path in the settings wins over every other, and only it comes with arguments.
pub proof fn law_settings_win(
    binary: Option<BinarySettings>,
    env: Seq<(Seq<char>, Seq<char>)>,
    on_path: Option<String>,
    other_env: Seq<(Seq<char>, Seq<char>)>,
    other_path: Option<String>,
)
    ensures
        binary matches Some(b) && b.path is Some ==> bridge_command(binary, env, on_path)
            == bridge_command(binary, other_env, other_path),
        !(binary matches Some(b) && b.path is Some) ==> match bridge_command(
            binary,
            env,
            on_path,
        ) {
            Some(command) => command.args.len() == 0,
            None => variable(env, "ALZED_BRIDGE_PATH"@) is None && on_path is None,
        },
{
}

/// The empty variable counts as not set: the bridge on the `PATH` is used.
pub proof fn law_empty_variable_counts_as_not_set(
    env: Seq<(Seq<char>, Seq<char>)>,
    path: String,
)
    requires
        env.len() > 0,
        env[0] == ("ALZED_BRIDGE_PATH"@, Seq::<char>::empty()),
    ensures
        bridge_command(None, env, Some(path)) == Some(
            CommandModel { path: path@, args: Seq::empty() },
        ),
{
}

/// The value of a variable is that of the first entry with its name, as it is, unless that
/// is empty; without such an entry it has none.
pub proof fn law_the_first_entry_counts(
    env: Seq<(Seq<char>, Seq<char>)>,
    key: Seq<char>,
    i: int,
)
    ensures
        0 <= i < env.len() && env[i].0 == key && (forall|j: int|
            0 <= j < i ==> (#[trigger] env[j]).0 != key) ==> {
            &&& env[i].1.len() > 0 ==> variable(env, key) == Some(env[i].1)
            &&& env[i].1.len() == 0 ==> variable(env, key) is None
        },
        (forall|j: int| 0 <= j < env.len() ==> (#[trigger] env[j]).0 != key) ==> variable(env, key)
            is None,
    decreases env.len(),
{
    if env.len() > 0 {
        let rest = env.skip(1);
        law_the_first_entry_counts(rest, key, i - 1);
        assert forall|j: int| 0 <= j < rest.len() implies #[trigger] rest[j] == env[j + 1] by {}
        if 0 < i < env.len() {
            assert(rest[i - 1] == env[i]);
        }
    }
}

/// The environment is its entries, each as it is.
pub proof fn law_variables_are_the_entries(env: Seq<(String, String)>, i: int)
    requires
        0 <= i < env.len(),
    ensures
        variables(env).len() == env.len(),
        variables(env)[i].0 == env[i].0@,
        variables(env)[i].1 == env[i].1@,
{
}

/// Which command starts the bridge: that of the settings, with their arguments; else that of
/// the variable; else that on the `PATH`, both without arguments; else none. Each path is
/// taken as it is.
pub proof fn law_where_the_bridge_is_found(
    binary: BinarySettings,
    path: String,
    env: Seq<(Seq<char>, Seq<char>)>,
    value: Seq<char>,
    on_path: String,
)
    ensures
        binary.path == Some(path) ==> {
            &&& bridge_command(Some(binary), env, None) matches Some(command)
            &&& command.path == path@
            &&& binary.arguments matches Some(args) ==> command.args == args@
            &&& binary.arguments is None ==> command.args.len() == 0
        },
        binary.path is None ==> bridge_command(Some(binary), env, Some(on_path)) == bridge_command(
            None,
            env,
            Some(on_path),
        ) && bridge_command(Some(binary), env, None) == bridge_command(None, env, None),
        variable(env, "ALZED_BRIDGE_PATH"@) == Some(value) ==> {
            &&& bridge_command(None, env, Some(on_path)) matches Some(command)
            &&& command.path == value
            &&& command.args.len() == 0
            &&& bridge_command(None, env, None) == bridge_command(None, env, Some(on_path))
        },
        variable(env, "ALZED_BRIDGE_PATH"@) is None ==> {
            &&& bridge_command(None, env, Some(on_path)) matches Some(command)
            &&& command.path == on_path@
            &&& command.args.len() == 0
            &&& bridge_command(None, env, None) is None
        },
{
}

/// The editor is handed the user's settings under `al` and nothing else: as they are, or
/// empty where there are none.
pub proof fn law_settings_are_wrapped_as_they_are(settings: JsonTree, key: Seq<char>)
    ensures
        wrapped_settings(Some(settings)) is Object,
        wrapped_settings(Some(settings)).get("al"@) == Some(settings),
        wrapped_settings(None).get("al"@) == Some(JsonTree::Object(Map::empty())),
        wrapped_settings(Some(settings)).get(key) is Some ==> key == "al"@,
        wrapped_settings(None).get(key) is Some ==> key == "al"@,
{
}

/// The tree of settings is that of the value, where there is one.
pub proof fn law_settings_are_the_value(settings: Json)
    ensures
        settings_tree(Some(settings)) == Some(settings@),
        settings_tree(None) is None,
{
}

} // verus!
