use alzed::client::{client_message, client_to_server, extract_workspace_folders, inspect_client_frame};
use alzed::codec::{from_bytes, to_text};
use alzed::framing::{frame, read_frame};
use alzed::json::Json;
use alzed::paths::{project_path, uri_to_path};
use alzed::server::{
    maybe_normalize_hover, null_for_empty_result, read_answered_id, server_message,
    server_to_client, ServerEvent,
};
use alzed::session::{Session, WorkspaceFolder, BRIDGE_ID_BASE};
use serde_json::Value;
use std::path::PathBuf;

fn read(text: &str) -> Json {
    from_bytes(text.as_bytes()).unwrap()
}

fn folders(text: &str) -> Vec<(String, String)> {
    let found = extract_workspace_folders(&read(text));
    found.into_iter().map(|f| (f.uri, f.name)).collect()
}

fn names(list: &[(&str, &str)]) -> Vec<(String, String)> {
    list.iter().map(|(a, b)| (a.to_string(), b.to_string())).collect()
}

fn payload(frame: &[u8]) -> Value {
    serde_json::from_slice(&read_frame(frame).unwrap().0).unwrap()
}

#[test]
fn ids_of_the_bridge_start_high_and_count_up() {
    let mut session = Session::default();
    assert!(session.has_ids(1));
    assert_eq!(BRIDGE_ID_BASE, 900_000_000);
    assert_eq!(session.alloc_id("a"), 900_000_000);
    assert_eq!(session.alloc_id("b"), 900_000_001);
    assert_eq!(session.take_inflight("900000000"), Some("a".to_string()));
    assert_eq!(session.take_inflight("900000000"), None);
    assert_eq!(session.take_inflight("900000001"), Some("b".to_string()));
    assert_eq!(session.alloc_id("c"), 900_000_002);
}

#[test]
fn ids_run_out_at_the_end_of_the_integers() {
    let session = Session::default();
    assert!(session.has_ids(0));
    assert!(session.has_ids(u64::MAX - BRIDGE_ID_BASE));
    assert!(session.has_ids(u64::MAX - BRIDGE_ID_BASE + 1));
    assert!(!session.has_ids(u64::MAX - BRIDGE_ID_BASE + 2));
}

#[test]
fn hover_requests_are_remembered_once() {
    let mut session = Session::default();
    session.track_hover("5".to_string());
    session.track_hover("5".to_string());
    assert!(!session.take_hover("6"));
    assert!(session.take_hover("5"));
    assert!(!session.take_hover("5"));
}

#[test]
fn workspace_folders_are_listed() {
    assert_eq!(
        folders(
            r#"{"params":{"rootUri":"file:///r","workspaceFolders":[
                {"uri":"file:///a","name":"A","extra":1},
                {"uri":"file:///b"},
                ["file:///c","C"],
                ["file:///d","D","more"],
                {"uri":1,"name":"E"},
                "file:///f",
                {"uri":"file:///g","name":"G"}
            ]}}"#
        ),
        names(&[("file:///a", "A"), ("file:///c", "C"), ("file:///g", "G")])
    );
}

#[test]
fn the_root_is_the_only_folder_where_none_are_listed() {
    assert_eq!(
        folders(r#"{"params":{"rootUri":"file:///home/me/proj/","workspaceFolders":null}}"#),
        names(&[("file:///home/me/proj/", "proj")])
    );
    assert_eq!(folders(r#"{"params":{"rootUri":"file:///a","workspaceFolders":[]}}"#), names(&[]));
    assert_eq!(folders(r#"{"params":{"rootUri":null}}"#), names(&[]));
    assert_eq!(folders(r#"{"params":{}}"#), names(&[]));
    assert_eq!(folders("{}"), names(&[]));
}

#[test]
fn initialize_sets_the_folders_where_it_names_any() {
    let mut session = Session::default();
    inspect_client_frame(
        &read(r#"{"id":0,"method":"initialize","params":{"rootUri":"file:///a"}}"#),
        &mut session,
    );
    assert_eq!(session.workspace_folders().len(), 1);
    assert_eq!(session.workspace_folders()[0].name, "a");
    inspect_client_frame(&read(r#"{"id":1,"method":"initialize","params":{}}"#), &mut session);
    assert_eq!(session.workspace_folders()[0].uri, "file:///a");
    inspect_client_frame(
        &read(r#"{"method":"other","params":{"rootUri":"file:///b"}}"#),
        &mut session,
    );
    assert_eq!(session.workspace_folders()[0].uri, "file:///a");
}

#[test]
fn client_messages_pass_unchanged() {
    let mut session = Session::default();
    let body = br#"{ "id" : 3,  "method":"textDocument/definition" }"#;
    let step = client_to_server(&mut session, body, '/');
    assert_eq!(step.to_server, frame(body));
    assert!(!step.start_handshake);
    let step = client_to_server(&mut session, b"not json", '/');
    assert_eq!(step.to_server, frame(b"not json"));
    assert!(!step.start_handshake);
}

#[test]
fn initialized_starts_the_handshake() {
    let mut session = Session::default();
    let body = br#"{"jsonrpc":"2.0","method":"initialized","params":{}}"#;
    let step = client_to_server(&mut session, body, '/');
    assert_eq!(step.to_server, frame(body));
    assert!(step.start_handshake);
    let body = br#"{"jsonrpc":"2.0","id":1,"method":"initialize","params":{}}"#;
    assert!(!client_to_server(&mut session, body, '/').start_handshake);
}

#[test]
fn changed_settings_are_rewritten_on_the_way() {
    let mut session = Session::default();
    client_to_server(
        &mut session,
        br#"{"id":0,"method":"initialize","params":{"rootUri":"file:///home/my%20proj"}}"#,
        '/',
    );
    let step = client_to_server(
        &mut session,
        br#"{"method":"workspace/didChangeConfiguration","params":{"settings":{"al":{"ruleSetPath":"r"}}}}"#,
        '/',
    );
    let sent = payload(&step.to_server);
    assert_eq!(sent["method"], "workspace/didChangeConfiguration");
    let settings = &sent["params"]["settings"];
    assert_eq!(settings["workspacePath"], "/home/my proj");
    let resource = &settings["alResourceConfigurationSettings"];
    assert_eq!(resource["ruleSetPath"], "r");
    assert_eq!(resource["packageCachePaths"][0], "/home/my proj/.alpackages");
}

#[test]
fn client_messages_are_taken_as_they_were_parsed() {
    let mut session = Session::default();
    let v = read(r#"{"method":"workspace/didChangeConfiguration"}"#);
    let step = client_message(&mut session, b"body", Some(&v), "/p", '/');
    assert_eq!(payload(&step.to_server)["params"]["settings"]["workspacePath"], "/p");
    let step = client_message(&mut session, b"body", None, "/p", '/');
    assert_eq!(step.to_server, frame(b"body"));
}

#[test]
fn file_uris_stand_for_paths() {
    assert_eq!(uri_to_path("file:///home/a%20b"), Some(PathBuf::from("/home/a b")));
    assert_eq!(uri_to_path("FILE:///x"), Some(PathBuf::from("/x")));
    assert_eq!(uri_to_path("http://host/x"), None);
    assert_eq!(uri_to_path("untitled:Untitled-1"), None);
    assert_eq!(uri_to_path("/home/x"), None);
    assert_eq!(uri_to_path("file://host/x"), None);
    assert_eq!(uri_to_path("file://host/"), None);
    assert_eq!(uri_to_path("file://localhost/x/y"), Some(PathBuf::from("/x/y")));
    assert_eq!(uri_to_path("file:///%2Fx"), Some(PathBuf::from("//x")));
}

#[test]
fn a_drive_alone_stands_for_its_root() {
    for uri in ["file:///C:", "file:///c%3A", "file:///C:?q", "file://localhost/C:", "file:///C:/"] {
        let path = uri_to_path(uri).unwrap();
        assert!(path.is_absolute());
        let text = path.to_string_lossy().to_lowercase();
        assert_eq!(text, "/c:/");
    }
    assert_eq!(uri_to_path("file:///C:/x").unwrap().to_string_lossy(), "/C:/x");
    assert_eq!(uri_to_path("file:///C%3x").unwrap().to_string_lossy(), "/C%3x");
}

#[test]
fn the_project_path_is_that_of_the_first_folder() {
    let folder = |uri: &str| WorkspaceFolder { uri: uri.to_string(), name: String::new() };
    assert_eq!(project_path(&vec![folder("file:///a"), folder("file:///b")]), "/a");
    assert_eq!(project_path(&vec![folder("zed:///a"), folder("file:///b")]), "");
    assert_eq!(project_path(&Vec::new()), "");
}

#[test]
fn server_messages_pass_unchanged() {
    let mut session = Session::default();
    for body in [
        &br#"{ "id":4, "result": {} }"#[..],
        br#"{"method":"textDocument/publishDiagnostics","params":{}}"#,
        br#"{"id":"x","method":"client/registerCapability"}"#,
        b"no json",
    ] {
        let step = server_to_client(&mut session, body);
        assert_eq!(step.to_client, Some(frame(body)));
        assert!(matches!(step.event, ServerEvent::Nothing));
    }
}

#[test]
fn empty_hovers_become_null() {
    let mut session = Session::default();
    client_to_server(&mut session, br#"{"id":4,"method":"textDocument/hover"}"#, '/');
    let step = server_to_client(&mut session, br#"{"jsonrpc":"2.0","id":4,"result":{},"x":[1]}"#);
    assert_eq!(
        step.to_client,
        Some(frame(br#"{"id":4,"jsonrpc":"2.0","result":null,"x":[1]}"#))
    );
    let again = br#"{"jsonrpc":"2.0","id":4,"result":{}}"#;
    assert_eq!(server_to_client(&mut session, again).to_client, Some(frame(again)));
}

#[test]
fn a_request_of_the_server_with_the_id_of_a_hover_is_no_answer() {
    let mut session = Session::default();
    session.track_hover("1".to_string());
    let request = read(r#"{"jsonrpc":"2.0","id":1,"method":"workspace/configuration","params":{}}"#);
    assert_eq!(maybe_normalize_hover(&request, b"as sent", &mut session), b"as sent".to_vec());
    let answer = read(r#"{"jsonrpc":"2.0","id":1,"result":{}}"#);
    assert_eq!(
        maybe_normalize_hover(&answer, b"as sent", &mut session),
        br#"{"id":1,"jsonrpc":"2.0","result":null}"#.to_vec()
    );
}

#[test]
fn a_hover_waits_for_its_answer() {
    let mut session = Session::default();
    client_to_server(&mut session, br#"{"id":1,"method":"textDocument/hover"}"#, '/');
    client_to_server(&mut session, br#"{"id":2,"method":"textDocument/hover"}"#, '/');
    client_to_server(&mut session, br#"{"id":1,"result":null}"#, '/');
    session.alloc_id("al/checkSymbols");
    server_to_client(&mut session, br#"{"id":2,"result":{}}"#);
    server_to_client(&mut session, br#"{"id":1,"method":"window/showMessageRequest"}"#);
    server_to_client(&mut session, br#"{"id":900000000,"result":{}}"#);
    let step = server_to_client(&mut session, br#"{"id":1,"result":{}}"#);
    assert_eq!(step.to_client, Some(frame(br#"{"id":1,"result":null}"#)));
}

#[test]
fn a_request_of_the_server_with_an_id_of_the_bridge_passes() {
    let mut session = Session::default();
    session.alloc_id("al/loadManifest");
    let body = br#"{"id":900000000,"method":"workspace/configuration","params":{}}"#;
    let step = server_to_client(&mut session, body);
    assert_eq!(step.to_client, Some(frame(body)));
    assert!(matches!(step.event, ServerEvent::Nothing));
    assert_eq!(session.take_inflight("900000000"), Some("al/loadManifest".to_string()));
}

#[test]
fn a_method_that_is_no_string_is_no_call() {
    let mut session = Session::default();
    session.track_hover("1".to_string());
    let step = server_to_client(&mut session, br#"{"id":1,"method":null,"result":{}}"#);
    assert_eq!(step.to_client, Some(frame(br#"{"id":1,"method":null,"result":null}"#)));
    assert_eq!(read_answered_id(&read(r#"{"id":1,"method":7}"#)), Some("1".to_string()));
}

#[test]
fn a_hover_with_a_string_for_its_id_is_answered() {
    let mut session = Session::default();
    client_to_server(&mut session, br#"{"id":"h-1","method":"textDocument/hover"}"#, '/');
    session.alloc_id("al/checkSymbols");
    let step = server_to_client(&mut session, br#"{"id":"h-1","result":{}}"#);
    assert_eq!(step.to_client, Some(frame(br#"{"id":"h-1","result":null}"#)));
}

#[test]
fn only_messages_without_a_method_answer_a_request() {
    assert_eq!(read_answered_id(&read(r#"{"id":1,"result":2}"#)), Some("1".to_string()));
    assert_eq!(read_answered_id(&read(r#"{"id":"a","error":{}}"#)), Some("a".to_string()));
    assert_eq!(read_answered_id(&read(r#"{"id":1,"method":"m"}"#)), None);
    assert_eq!(read_answered_id(&read(r#"{"result":2}"#)), None);
}

#[test]
fn other_hovers_pass_unchanged() {
    for body in [
        &br#"{"id":4, "result":{"contents":"x"}}"#[..],
        br#"{"id":4, "result":null}"#,
        br#"{"id":4, "result":[]}"#,
        br#"{"id":4, "error":{}}"#,
    ] {
        let mut session = Session::default();
        client_to_server(&mut session, br#"{"id":4,"method":"textDocument/hover"}"#, '/');
        assert_eq!(server_to_client(&mut session, body).to_client, Some(frame(body)));
        assert!(!session.take_hover("4"));
    }
}

#[test]
fn hovers_are_normalized_on_their_own() {
    let mut session = Session::default();
    session.track_hover("h".to_string());
    let v = read(r#"{"id":"h","result":{}}"#);
    assert_eq!(
        maybe_normalize_hover(&v, b"as sent", &mut session),
        br#"{"id":"h","result":null}"#.to_vec()
    );
    assert_eq!(maybe_normalize_hover(&v, b"as sent", &mut session), b"as sent".to_vec());
    assert_eq!(to_text(null_for_empty_result(&v).unwrap()), r#"{"id":"h","result":null}"#);
    assert!(null_for_empty_result(&read(r#"{"result":{"a":1}}"#)).is_none());
    assert!(null_for_empty_result(&read("[]")).is_none());
}

#[test]
fn answers_to_the_bridge_stay_inside() {
    let mut session = Session::default();
    let id = session.alloc_id("al/loadManifest");
    let body = format!("{{\"id\":{},\"result\":{{\"success\":true}}}}", id);
    let step = server_to_client(&mut session, body.as_bytes());
    assert!(step.to_client.is_none());
    match step.event {
        ServerEvent::Answered { method, failed, detail } => {
            assert_eq!(method, "al/loadManifest");
            assert!(!failed);
            assert_eq!(detail, r#"{"success":true}"#);
        }
        other => panic!("{:?}", other),
    }
    let step = server_to_client(&mut session, body.as_bytes());
    assert_eq!(step.to_client, Some(frame(body.as_bytes())));
}

#[test]
fn failed_requests_of_the_bridge_are_told_apart() {
    let mut session = Session::default();
    session.alloc_id("m");
    session.alloc_id("n");
    let v = read(r#"{"id":"900000000","error":{"code":-1},"result":1}"#);
    match server_message(&mut session, b"", Some(&v)).event {
        ServerEvent::Answered { method, failed, detail } => {
            assert_eq!(method, "m");
            assert!(failed);
            assert_eq!(detail, r#"{"code":-1}"#);
        }
        other => panic!("{:?}", other),
    }
    match server_message(&mut session, b"", Some(&read(r#"{"id":900000001}"#))).event {
        ServerEvent::Answered { method, failed, detail } => {
            assert_eq!(method, "n");
            assert!(!failed);
            assert_eq!(detail, "");
        }
        other => panic!("{:?}", other),
    }
}

#[test]
fn loaded_projects_are_noticed_and_passed_on() {
    let mut session = Session::default();
    let body = br#"{"method":"al/activeProjectLoaded","params":{"activeProjectFolder":"/p"}}"#;
    let step = server_to_client(&mut session, body);
    assert_eq!(step.to_client, Some(frame(body)));
    assert!(matches!(step.event, ServerEvent::ProjectLoaded { folder } if folder == "/p"));
    let body = br#"{"method":"al/activeProjectLoaded"}"#;
    let step = server_to_client(&mut session, body);
    assert_eq!(step.to_client, Some(frame(body)));
    assert!(matches!(step.event, ServerEvent::ProjectLoaded { folder } if folder == "<unknown>"));
}

#[test]
fn answers_to_the_editor_reach_it() {
    let mut session = Session::default();
    session.alloc_id("al/loadManifest");
    let body = br#"{"id":899999999,"result":[]}"#;
    assert_eq!(server_to_client(&mut session, body).to_client, Some(frame(body)));
    assert_eq!(session.take_inflight("900000000"), Some("al/loadManifest".to_string()));
}

#[test]
fn an_id_of_the_editor_that_the_bridge_uses_is_taken_for_its_own() {
    let mut session = Session::default();
    session.alloc_id("al/loadManifest");
    let body = br#"{"id":"900000000","result":[]}"#;
    assert!(server_to_client(&mut session, body).to_client.is_none());
}
