use alzed::codec::{from_bytes, into_value, to_text};
use alzed::extension::{
    env_var, missing_server_message, workspace_configuration, AlExtension, BinarySettings,
};
use alzed::framing::read_frame;
use alzed::json::Json;
use alzed::progress::{
    begin, begin_report, create, create_request, end, end_report, further_report,
    progress_notification, report,
};
use alzed::snippets::{
    build_item, build_items, completion_items, inject_into_completion, BodyShape, RawSnippet,
};
use serde_json::Value;

fn read(text: &str) -> Json {
    from_bytes(text.as_bytes()).unwrap()
}

fn value(text: &str) -> Value {
    serde_json::from_str(text).unwrap()
}

fn payload(frame: &[u8]) -> Value {
    serde_json::from_slice(&read_frame(frame).unwrap().0).unwrap()
}

fn snippet(prefix: &str, lines: &[&str], description: Option<&str>) -> RawSnippet {
    RawSnippet {
        prefix: prefix.to_string(),
        body: BodyShape::Lines(lines.iter().map(|s| s.to_string()).collect()),
        description: description.map(|s| s.to_string()),
    }
}

#[test]
fn progress_is_created() {
    let (id, frame) = create(5, "alzed.build.1");
    assert_eq!(id, 5);
    assert_eq!(
        payload(&frame),
        value(
            r#"{"jsonrpc":"2.0","id":5,"method":"window/workDoneProgress/create","params":{"token":"alzed.build.1"}}"#
        )
    );
    assert_eq!(
        payload(&create(12, "alzed.download.1").1),
        value(
            r#"{"jsonrpc":"2.0","id":12,"method":"window/workDoneProgress/create","params":{"token":"alzed.download.1"}}"#
        )
    );
    assert_eq!(
        to_text(create_request(1, "t")),
        r#"{"id":1,"jsonrpc":"2.0","method":"window/workDoneProgress/create","params":{"token":"t"}}"#
    );
}

#[test]
fn progress_begins() {
    assert_eq!(
        payload(&begin("t", "Downloading", Some("now"))),
        value(
            r#"{"jsonrpc":"2.0","method":"$/progress","params":{"token":"t","value":{"kind":"begin","title":"Downloading","cancellable":false,"message":"now"}}}"#
        )
    );
    assert_eq!(
        to_text(begin_report("T", None)),
        r#"{"cancellable":false,"kind":"begin","title":"T"}"#
    );
}

#[test]
fn progress_is_reported_up_to_all() {
    assert_eq!(
        payload(&report("t", Some(250), None)),
        value(
            r#"{"jsonrpc":"2.0","method":"$/progress","params":{"token":"t","value":{"kind":"report","percentage":100}}}"#
        )
    );
    assert_eq!(to_text(further_report(Some(100), None)), r#"{"kind":"report","percentage":100}"#);
    assert_eq!(
        to_text(further_report(Some(0), Some("m"))),
        r#"{"kind":"report","message":"m","percentage":0}"#
    );
    assert_eq!(to_text(further_report(None, None)), r#"{"kind":"report"}"#);
}

#[test]
fn progress_ends() {
    assert_eq!(
        payload(&end("t", Some("done"))),
        value(
            r#"{"jsonrpc":"2.0","method":"$/progress","params":{"token":"t","value":{"kind":"end","message":"done"}}}"#
        )
    );
    assert_eq!(to_text(end_report(None)), r#"{"kind":"end"}"#);
    assert_eq!(
        to_text(progress_notification("t", Json::Null)),
        r#"{"jsonrpc":"2.0","method":"$/progress","params":{"token":"t","value":null}}"#
    );
}

#[test]
fn bodies_are_joined_by_line_breaks() {
    assert_eq!(snippet("p", &["a", "", "b"], None).body.joined(), "a\n\nb");
    assert_eq!(snippet("p", &[], None).body.joined(), "");
    assert_eq!(BodyShape::OneLine("x\ny".to_string()).joined(), "x\ny");
}

#[test]
fn snippets_become_completions() {
    let snip = snippet("ttable", &["table ${1:id}", "{", "}"], Some("A table"));
    assert_eq!(
        into_value(build_item("Snippet: Table", &snip)),
        value(
            r#"{
                "label": "ttable",
                "kind": 15,
                "detail": "A table",
                "insertText": "table ${1:id}\n{\n}",
                "insertTextFormat": 2,
                "filterText": "ttable",
                "sortText": "0_ttable",
                "documentation": {
                    "kind": "markdown",
                    "value": "```al\ntable ${1:id}\n{\n}\n```"
                }
            }"#
        )
    );
}

#[test]
fn snippets_are_described_by_their_names_else() {
    let snippets = vec![
        ("First".to_string(), snippet("a", &["x"], None)),
        ("Second".to_string(), snippet("b", &["y"], Some(""))),
    ];
    let items = build_items(&snippets);
    assert_eq!(items.len(), 2);
    assert_eq!(items[0].get_str("detail"), Some("First"));
    assert_eq!(items[1].get_str("detail"), Some(""));
    assert_eq!(completion_items(Some(&snippets)).len(), 2);
    assert!(completion_items(None).is_empty());
}

#[test]
fn snippets_come_before_what_is_offered() {
    let snippets = vec![read("\"s\""), read("\"t\"")];
    let injected = |text: &str| to_text(inject_into_completion(&snippets, &read(text)));
    assert_eq!(
        injected(r#"{"id":1,"result":null}"#),
        r#"{"id":1,"result":{"isIncomplete":false,"items":["s","t"]}}"#
    );
    assert_eq!(
        injected(r#"{"id":1,"result":[1,2]}"#),
        r#"{"id":1,"result":{"isIncomplete":false,"items":["s","t",1,2]}}"#
    );
    assert_eq!(
        injected(r#"{"result":{"isIncomplete":true,"items":[1],"itemDefaults":{}}}"#),
        r#"{"result":{"isIncomplete":false,"items":["s","t",1]}}"#
    );
    assert_eq!(
        injected(r#"{"result":{"items":"none"}}"#),
        r#"{"result":{"isIncomplete":false,"items":["s","t"]}}"#
    );
}

#[test]
fn other_answers_stay_as_they_are() {
    let snippets = vec![read("\"s\"")];
    for text in [
        r#"{"error":{"code":1},"id":1}"#,
        r#"{"id":1,"result":true}"#,
        r#"{"id":1,"result":"text"}"#,
        r#"[{"result":null}]"#,
        "null",
    ] {
        assert_eq!(to_text(inject_into_completion(&snippets, &read(text))), text);
    }
    let text = r#"{"id":1,"result":null}"#;
    assert_eq!(to_text(inject_into_completion(&Vec::new(), &read(text))), text);
}

fn env(list: &[(&str, &str)]) -> Vec<(String, String)> {
    list.iter().map(|(k, v)| (k.to_string(), v.to_string())).collect()
}

#[test]
fn variables_are_looked_up() {
    let vars = env(&[("A", "1"), ("B", ""), ("A", "2"), ("B", "3")]);
    assert_eq!(env_var(&vars, "A"), Some("1".to_string()));
    assert_eq!(env_var(&vars, "B"), None);
    assert_eq!(env_var(&vars, "a"), None);
    assert_eq!(env_var(&[], "A"), None);
}

#[test]
fn the_settings_name_the_bridge() {
    let binary = BinarySettings {
        path: Some("/bridge".to_string()),
        arguments: Some(vec!["--al-server".to_string(), "/al".to_string()]),
    };
    let vars = env(&[("ALZED_BRIDGE_PATH", "/other")]);
    let found = AlExtension.resolve_language_server_binary(Some(binary), &vars, Some("/w".to_string()));
    assert_eq!(
        found,
        Ok(("/bridge".to_string(), vec!["--al-server".to_string(), "/al".to_string()]))
    );
    let binary = BinarySettings { path: Some("/bridge".to_string()), arguments: None };
    let found = AlExtension.resolve_language_server_binary(Some(binary), &[], None);
    assert_eq!(found, Ok(("/bridge".to_string(), vec![])));
}

#[test]
fn the_environment_names_the_bridge_else() {
    let vars = env(&[("ALZED_BRIDGE_PATH", "/other")]);
    let binary = BinarySettings { path: None, arguments: Some(vec!["lost".to_string()]) };
    let found = AlExtension.resolve_language_server_binary(Some(binary), &vars, Some("/w".to_string()));
    assert_eq!(found, Ok(("/other".to_string(), vec![])));
}

#[test]
fn the_bridge_is_found_on_the_path_else() {
    let vars = env(&[("ALZED_BRIDGE_PATH", "")]);
    let found = AlExtension.resolve_language_server_binary(None, &vars, Some("/w".to_string()));
    assert_eq!(found, Ok(("/w".to_string(), vec![])));
    let found = AlExtension.resolve_language_server_binary(None, &vars, None);
    assert_eq!(found, Err(missing_server_message()));
}

#[test]
fn the_user_is_told_how_to_install_the_bridge() {
    let lines = [
        "alzed-bridge not found.",
        "",
        "ALzed runs a small native binary, alzed-bridge, that performs the AL",
        "handshake and proxies LSP to Microsoft's AL Language Server. Both are",
        "installed separately (neither is bundled). Point Zed at the bridge and",
        "tell it where the MS AL server lives:",
        "",
        "  \"lsp\": {",
        "    \"al\": {",
        "      \"binary\": {",
        "        \"path\": \"/absolute/path/to/alzed-bridge\",",
        "        \"arguments\": [",
        "          \"--al-server\",",
        "          \"/path/to/Microsoft.Dynamics.Nav.EditorServices.Host\"",
        "        ]",
        "      }",
        "    }",
        "  }",
        "",
        "Alternatively, put alzed-bridge on your PATH and export ALZED_AL_SERVER",
        "(pointing at the MS AL server), or set ALZED_BRIDGE_PATH to the bridge.",
        "",
        "Get the bridge from the GitHub release (or build it); the MS AL server",
        "ships inside the official VS Code AL extension (ms-dynamics-smb.al) under",
        "bin/<platform>/. See README.md for the full setup.",
    ];
    assert_eq!(missing_server_message(), lines.join("\n"));
}

#[test]
fn settings_are_wrapped_for_the_editor() {
    assert_eq!(to_text(workspace_configuration(None)), r#"{"al":{}}"#);
    assert_eq!(to_text(workspace_configuration(Some(read("[1]")))), r#"{"al":[1]}"#);
    assert_eq!(to_text(workspace_configuration(Some(Json::Null))), r#"{"al":null}"#);
}
