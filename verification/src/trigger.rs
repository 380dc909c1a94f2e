//! Commands that the user gives through a trigger file.

use crate::codec::{json_bytes, json_parse, max_depth, JsonError};
use crate::json::{is_plain, lemma_plain_deeper, no_members, Json, JsonObject, JsonTree};
use crate::jsonc::{jsonc_tree, parse_jsonc};
use crate::rpc::{
    frame_message, framed_message, law_request_is_its_members, lemma_request_is_plain, request,
    request_tree,
};
use crate::session::Session;
use crate::text::{decimal, text_eq};
use vstd::prelude::*;
use vstd::string::*;

verus! {

/// What a trigger file asks for.
#[derive(Debug, Clone, Copy, PartialEq, Eq, Structural)]
pub enum Trigger {
    DownloadSymbols,
    CheckSymbols,
    Unknown,
}

/// What a command asks for.
pub open spec fn trigger_of(command: Seq<char>) -> Trigger {
    if command == "download-symbols"@ {
        Trigger::DownloadSymbols
    } else if command == "check-symbols"@ {
        Trigger::CheckSymbols
    } else {
        Trigger::Unknown
    }
}

/// Tells what a command asks for.
pub fn handle_trigger(cmd: &str) -> (r: Trigger)
    ensures
        r == trigger_of(cmd@),
{
    if text_eq(cmd, "download-symbols") {
        Trigger::DownloadSymbols
    } else if text_eq(cmd, "check-symbols") {
        Trigger::CheckSymbols
    } else {
        Trigger::Unknown
    }
}

/// Why symbols cannot be downloaded.
#[derive(Debug)]
pub enum TriggerError {
    /// The launch file is not JSON with comments.
    BadLaunchFile(JsonError),
    /// The launch file names no configuration.
    NoConfigurations,
}

impl TriggerError {
    /// What the error says of the launch file at `path`.
    pub open spec fn text(self, path: Seq<char>) -> Seq<char> {
        match self {
            TriggerError::BadLaunchFile(_) => "parsing "@ + path,
            TriggerError::NoConfigurations => "launch.json has no configurations[]"@,
        }
    }

    /// Says what is wrong with the launch file at `path`.
    pub fn message(&self, path: &str) -> (r: String)
        ensures
            r@ == self.text(path@),
    {
        match self {
            TriggerError::BadLaunchFile(_) => {
                let mut out: String = "parsing ".to_owned();
                out.append(path);
                out
            },
            TriggerError::NoConfigurations => "launch.json has no configurations[]".to_owned(),
        }
    }
}

/// The configuration that symbols are downloaded for: the first one of a launch file.
pub open spec fn first_configuration(launch: JsonTree) -> Option<JsonTree> {
    match launch.get("configurations"@) {
        Some(JsonTree::Array(a)) => if a.len() > 0 {
            Some(a[0])
        } else {
            None
        },
        _ => None,
    }
}

/// Picks the configuration that symbols are downloaded for.
pub fn pick_configuration(launch: &Json) -> (r: Option<&Json>)
    ensures
        match r {
            Some(config) => first_configuration(launch@) == Some(config@),
            None => first_configuration(launch@) is None,
        },
{
    match launch.get("configurations") {
        Some(c) => match c.as_array() {
            Some(a) => if a.len() > 0 {
                Some(&a[0])
            } else {
                None
            },
            None => None,
        },
        None => None,
    }
}

/// The request to download the symbols for a configuration.
pub open spec fn download_message(id: nat, config: JsonTree) -> JsonTree {
    request_tree(id, "al/downloadSymbols"@, config)
}

/// The request to check the symbols.
pub open spec fn check_message(id: nat) -> JsonTree {
    request_tree(id, "al/checkSymbols"@, JsonTree::Object(no_members()))
}

/// Makes the request to download the symbols for the first configuration of a launch file
/// that reads as `launch`, where it has one.
pub fn download_symbols(session: &mut Session, launch: &Json) -> (r: Option<Json>)
    requires
        old(session)@.has_ids(1),
    ensures
        match (r, first_configuration(launch@)) {
            (Some(message), Some(config)) => message@ == download_message(
                old(session)@.next_id(),
                config,
            ) && final(session)@ == old(session)@.requested("al/downloadSymbols"@),
            (None, None) => final(session)@ == old(session)@,
            _ => false,
        },
        old(session)@.valid() ==> final(session)@.valid(),
{
    match pick_configuration(launch) {
        Some(config) => {
            let id: u64 = session.alloc_id("al/downloadSymbols");
            Some(request(id, "al/downloadSymbols", config.copy()))
        },
        None => None,
    }
}

/// What comes of the wish to download symbols.
pub ghost enum Download {
    /// The launch file could not be read.
    BadLaunchFile,
    /// The launch file names no configuration.
    NoConfigurations,
    /// The symbols for this configuration are asked for.
    For(JsonTree),
}

/// What comes of the wish to download symbols, where the launch file reads as `launch`.
pub open spec fn download_of(launch: Option<JsonTree>) -> Download {
    match launch {
        None => Download::BadLaunchFile,
        Some(t) => match first_configuration(t) {
            None => Download::NoConfigurations,
            Some(config) => Download::For(config),
        },
    }
}

/// Makes the frame with the request to download the symbols for the first configuration of
/// a launch file with the given text.
pub fn trigger_download_symbols(session: &mut Session, launch_text: &str) -> (r: Result<
    Vec<u8>,
    TriggerError,
>)
    requires
        old(session)@.has_ids(1),
    ensures
        match download_of(jsonc_tree(launch_text@)) {
            Download::BadLaunchFile => r matches Err(TriggerError::BadLaunchFile(_)),
            Download::NoConfigurations => r matches Err(TriggerError::NoConfigurations),
            Download::For(config) => r matches Ok(frame) && frame@ == framed_message(
                download_message(old(session)@.next_id(), config),
            ),
        },
        match jsonc_tree(launch_text@) {
            None => r matches Err(TriggerError::BadLaunchFile(_)) && final(session)@ == old(
                session,
            )@,
            Some(launch) => match first_configuration(launch) {
                None => r matches Err(TriggerError::NoConfigurations) && final(session)@ == old(
                    session,
                )@,
                Some(config) => {
                    let message = download_message(old(session)@.next_id(), config);
                    &&& r matches Ok(frame)
                    &&& frame@ == framed_message(message)
                    &&& final(session)@ == old(session)@.requested("al/downloadSymbols"@)
                    &&& is_plain(launch, max_depth()) ==> json_parse(json_bytes(message)) == Some(
                        message,
                    )
                },
            },
        },
        old(session)@.valid() ==> final(session)@.valid(),
{
    let launch: Json = match parse_jsonc(launch_text) {
        Ok(launch) => launch,
        Err(e) => {
            return Err(TriggerError::BadLaunchFile(e));
        },
    };
    let ghost id = session@.next_id();
    match download_symbols(session, &launch) {
        Some(message) => {
            proof {
                if is_plain(launch@, max_depth()) {
                    lemma_download_is_plain(id, launch@, max_depth());
                }
            }
            Ok(frame_message(message))
        },
        None => Err(TriggerError::NoConfigurations),
    }
}

/// The request to download symbols is plain where the launch file is.
proof fn lemma_download_is_plain(id: nat, launch: JsonTree, depth: nat)
    requires
        is_plain(launch, depth),
        first_configuration(launch) is Some,
    ensures
        is_plain(download_message(id, first_configuration(launch)->0), depth),
{
    let configurations = launch.get("configurations"@)->0;
    let config = first_configuration(launch)->0;
    assert(is_plain(configurations, (depth - 1) as nat));
    assert(is_plain(config, (depth - 2) as nat));
    lemma_plain_deeper(config, (depth - 2) as nat, (depth - 1) as nat);
    lemma_request_is_plain(id, "al/downloadSymbols"@, config, (depth - 1) as nat);
}

/// Makes the request to check the symbols.
pub fn check_symbols(session: &mut Session) -> (r: Json)
    requires
        old(session)@.has_ids(1),
    ensures
        r@ == check_message(old(session)@.next_id()),
        final(session)@ == old(session)@.requested("al/checkSymbols"@),
        old(session)@.valid() ==> final(session)@.valid(),
{
    let id: u64 = session.alloc_id("al/checkSymbols");
    request(id, "al/checkSymbols", Json::Object(JsonObject::new()))
}

/// Makes the frame with the request to check the symbols.
pub fn trigger_check_symbols(session: &mut Session) -> (r: Vec<u8>)
    requires
        old(session)@.has_ids(1),
    ensures
        r@ == framed_message(check_message(old(session)@.next_id())),
        final(session)@ == old(session)@.requested("al/checkSymbols"@),
        old(session)@.valid() ==> final(session)@.valid(),
        json_parse(json_bytes(check_message(old(session)@.next_id()))) == Some(
            check_message(old(session)@.next_id()),
        ),
{
    proof {
        let nothing = JsonTree::Object(no_members());
        let depth = (max_depth() - 1) as nat;
        assert(is_plain(nothing, depth));
        lemma_request_is_plain(session@.next_id(), "al/checkSymbols"@, nothing, depth);
    }
    frame_message(check_symbols(session))
}

/// Symbols are downloaded for the first configuration of the launch file, whatever the
/// configurations hold; without one there is nothing to download them for.
pub proof fn law_first_configuration_counts(launch: JsonTree, configurations: Seq<JsonTree>)
    ensures
        launch.get("configurations"@) == Some(JsonTree::Array(configurations))
            && configurations.len() > 0 ==> first_configuration(launch) == Some(configurations[0]),
        launch.get("configurations"@) == Some(JsonTree::Array(Seq::empty()))
            ==> first_configuration(launch) is None,
        !(launch.get("configurations"@) matches Some(JsonTree::Array(_))) ==> first_configuration(
            launch,
        ) is None,
{
}

/// Further configurations, and other members of the launch file, change nothing.
pub proof fn law_other_configurations_do_not_count(
    one: Map<Seq<char>, JsonTree>,
    two: Map<Seq<char>, JsonTree>,
    first: JsonTree,
    rest: Seq<JsonTree>,
    other: Seq<JsonTree>,
)
    requires
        one.contains_key("configurations"@),
        two.contains_key("configurations"@),
        one["configurations"@] == JsonTree::Array(seq![first] + rest),
        two["configurations"@] == JsonTree::Array(seq![first] + other),
    ensures
        first_configuration(JsonTree::Object(one)) == Some(first),
        first_configuration(JsonTree::Object(one)) == first_configuration(JsonTree::Object(two)),
{
    assert((seq![first] + rest)[0] == first);
    assert((seq![first] + other)[0] == first);
}

/// The request to download symbols has the configuration for its parameters, as it is.
pub proof fn law_downloads_send_the_configuration(id: nat, config: JsonTree, key: Seq<char>)
    ensures
        ({
            let message = download_message(id, config);
            &&& message.get("jsonrpc"@) == Some(JsonTree::Str("2.0"@))
            &&& message.get("id"@) == Some(JsonTree::Number(decimal(id)))
            &&& message.get("method"@) == Some(JsonTree::Str("al/downloadSymbols"@))
            &&& message.get("params"@) == Some(config)
            &&& message.get(key) is Some ==> key == "jsonrpc"@ || key == "id"@ || key == "method"@
                || key == "params"@
        }),
{
    law_request_is_its_members(id, "al/downloadSymbols"@, config, key);
}

/// The request to check symbols has empty parameters.
pub proof fn law_checks_send_nothing(id: nat, key: Seq<char>)
    ensures
        ({
            let message = check_message(id);
            &&& message.get("jsonrpc"@) == Some(JsonTree::Str("2.0"@))
            &&& message.get("id"@) == Some(JsonTree::Number(decimal(id)))
            &&& message.get("method"@) == Some(JsonTree::Str("al/checkSymbols"@))
            &&& message.get("params"@) == Some(JsonTree::Object(Map::empty()))
            &&& message.get(key) is Some ==> key == "jsonrpc"@ || key == "id"@ || key == "method"@
                || key == "params"@
        }),
{
    law_request_is_its_members(id, "al/checkSymbols"@, JsonTree::Object(Map::empty()), key);
}

/// Each command asks for one thing, and no other text asks for it.
pub proof fn law_commands_are_told_apart(command: Seq<char>)
    ensures
        trigger_of(command) == Trigger::DownloadSymbols <==> command == "download-symbols"@,
        trigger_of(command) == Trigger::CheckSymbols <==> command == "check-symbols"@,
{
    reveal_strlit("download-symbols");
    reveal_strlit("check-symbols");
    assert("download-symbols"@.len() != "check-symbols"@.len());
}

/// An error says which file could not be read, or that it names no configuration.
pub proof fn law_trigger_errors_say_what_is_wrong(e: JsonError, path: Seq<char>)
    ensures
        TriggerError::BadLaunchFile(e).text(path) == "parsing "@ + path,
        TriggerError::NoConfigurations.text(path) == "launch.json has no configurations[]"@,
{
}

/// Symbols are asked for exactly where the launch file can be read and its configurations
/// are an array that holds any: for the first of them, as it is.
pub proof fn law_when_symbols_are_downloaded(launch: JsonTree, configurations: Seq<JsonTree>)
    ensures
        download_of(None) == Download::BadLaunchFile,
        launch.get("configurations"@) == Some(JsonTree::Array(configurations))
            && configurations.len() > 0 ==> download_of(Some(launch)) == Download::For(
            configurations[0],
        ),
        launch.get("configurations"@) == Some(JsonTree::Array(configurations))
            && configurations.len() == 0 ==> download_of(Some(launch))
            == Download::NoConfigurations,
        !(launch.get("configurations"@) matches Some(JsonTree::Array(_))) ==> download_of(
            Some(launch),
        ) == Download::NoConfigurations,
{
}

} // verus!
