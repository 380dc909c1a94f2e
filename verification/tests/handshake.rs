use alzed::codec::{from_bytes, into_value, to_text};
use alzed::framing::read_frame;
use alzed::handshake::{
    folder_paths, load_manifest, load_project, pick_projects, run_handshake, set_active_workspace,
    Project,
};
use alzed::json::{Json, JsonObject};
use alzed::server::{server_to_client, ServerEvent};
use alzed::session::{Session, WorkspaceFolder};
use alzed::settings::build_al_settings;
use alzed::trigger::{
    check_symbols, download_symbols, handle_trigger, pick_configuration, trigger_check_symbols,
    trigger_download_symbols, Trigger, TriggerError,
};
use serde_json::Value;
use std::path::PathBuf;

fn read(text: &str) -> Json {
    from_bytes(text.as_bytes()).unwrap()
}

fn payload(frame: &[u8]) -> Value {
    serde_json::from_slice(&read_frame(frame).unwrap().0).unwrap()
}

fn project(path: &str, manifest: &str) -> Project {
    Project { path: PathBuf::from(path), manifest: manifest.to_string() }
}

#[test]
fn folders_that_are_no_files_are_passed_over() {
    let folder = |uri: &str| WorkspaceFolder { uri: uri.to_string(), name: String::new() };
    let paths = folder_paths(&vec![folder("file:///a"), folder("ssh://h/b"), folder("file:///c")]);
    assert_eq!(paths, vec![PathBuf::from("/a"), PathBuf::from("/c")]);
    assert!(folder_paths(&Vec::new()).is_empty());
}

#[test]
fn folders_without_a_manifest_are_no_projects() {
    let projects = pick_projects(vec![
        (PathBuf::from("/a"), Some("A".to_string())),
        (PathBuf::from("/b"), None),
        (PathBuf::from("/c"), Some(String::new())),
    ]);
    let found: Vec<(PathBuf, String)> = projects.into_iter().map(|p| (p.path, p.manifest)).collect();
    assert_eq!(
        found,
        vec![(PathBuf::from("/a"), "A".to_string()), (PathBuf::from("/c"), String::new())]
    );
}

#[test]
fn a_project_is_loaded_with_three_messages() {
    let mut session = Session::default();
    let frames = load_project(&mut session, &project("/p", "{\"id\": \"x\"}"), '/');
    let settings = into_value(build_al_settings("/p", &Json::Object(JsonObject::new()), '/'));
    assert_eq!(frames.len(), 3);

    let first = payload(&frames[0]);
    assert_eq!(first["jsonrpc"], "2.0");
    assert_eq!(first["id"], 900_000_000);
    assert_eq!(first["method"], "al/loadManifest");
    assert_eq!(first["params"]["projectFolder"], "/p");
    assert_eq!(first["params"]["manifest"], "{\"id\": \"x\"}");

    let second = payload(&frames[1]);
    assert!(second.get("id").is_none());
    assert_eq!(second["method"], "workspace/didChangeConfiguration");
    assert_eq!(second["params"]["settings"], settings);

    let third = payload(&frames[2]);
    assert_eq!(third["id"], 900_000_001);
    assert_eq!(third["method"], "al/setActiveWorkspace");
    assert_eq!(third["params"]["currentWorkspaceFolderPath"], "/p");
    assert_eq!(third["params"]["settings"], settings);
}

#[test]
fn projects_are_loaded_in_order() {
    let mut session = Session::default();
    let projects = vec![project("/a", "A"), project("/b", "B")];
    let frames = run_handshake(&mut session, &projects, '/');
    let methods: Vec<Value> = frames.iter().map(|f| payload(f)["method"].clone()).collect();
    let each = ["al/loadManifest", "workspace/didChangeConfiguration", "al/setActiveWorkspace"];
    assert_eq!(methods, [each, each].concat());
    assert_eq!(payload(&frames[3])["params"]["projectFolder"], "/b");
    assert_eq!(payload(&frames[3])["id"], 900_000_002);
    assert_eq!(payload(&frames[5])["id"], 900_000_003);
    assert!(run_handshake(&mut session, &Vec::new(), '/').is_empty());
    assert_eq!(session.alloc_id("next"), 900_000_004);
}

#[test]
fn answers_to_the_handshake_are_expected() {
    let mut session = Session::default();
    run_handshake(&mut session, &vec![project("/a", "A")], '/');
    for (id, expected) in [("900000000", "al/loadManifest"), ("900000001", "al/setActiveWorkspace")] {
        let body = format!("{{\"id\":{},\"result\":null}}", id);
        let step = server_to_client(&mut session, body.as_bytes());
        assert!(step.to_client.is_none());
        assert!(matches!(step.event, ServerEvent::Answered { method, .. } if method == expected));
    }
}

#[test]
fn handshake_requests_are_built() {
    assert_eq!(
        to_text(load_manifest(1, "/p", "m")),
        r#"{"id":1,"jsonrpc":"2.0","method":"al/loadManifest","params":{"manifest":"m","projectFolder":"/p"}}"#
    );
    assert_eq!(
        to_text(set_active_workspace(2, "/p", read("{}"))),
        r#"{"id":2,"jsonrpc":"2.0","method":"al/setActiveWorkspace","params":{"currentWorkspaceFolderPath":"/p","settings":{}}}"#
    );
}

#[test]
fn triggers_are_told_apart() {
    assert_eq!(handle_trigger("download-symbols"), Trigger::DownloadSymbols);
    assert_eq!(handle_trigger("check-symbols"), Trigger::CheckSymbols);
    assert_eq!(handle_trigger("publish"), Trigger::Unknown);
    assert_eq!(handle_trigger(""), Trigger::Unknown);
    assert_eq!(handle_trigger("Download-Symbols"), Trigger::Unknown);
}

#[test]
fn symbols_are_downloaded_for_the_first_configuration() {
    let mut session = Session::default();
    let text = "{ // launch\n \"configurations\": [ {\"name\": \"one\", \"port\": 7049,}, {\"name\": \"two\"} ] }";
    let frame = trigger_download_symbols(&mut session, text).unwrap();
    assert_eq!(
        payload(&frame),
        serde_json::from_str::<Value>(
            r#"{"jsonrpc":"2.0","id":900000000,"method":"al/downloadSymbols","params":{"name":"one","port":7049}}"#
        )
        .unwrap()
    );
    assert_eq!(session.take_inflight("900000000"), Some("al/downloadSymbols".to_string()));
}

#[test]
fn a_launch_file_without_configurations_is_refused() {
    let mut session = Session::default();
    for text in ["{}", "{\"configurations\": []}", "{\"configurations\": {}}", "[1]"] {
        let error = trigger_download_symbols(&mut session, text).unwrap_err();
        assert!(matches!(error, TriggerError::NoConfigurations));
        assert_eq!(error.message("/p/launch.json"), "launch.json has no configurations[]");
    }
    let error = trigger_download_symbols(&mut session, "{").unwrap_err();
    assert!(matches!(error, TriggerError::BadLaunchFile(_)));
    assert_eq!(error.message("/p/launch.json"), "parsing /p/launch.json");
    assert_eq!(session.alloc_id("first"), 900_000_000);
}

#[test]
fn download_requests_are_built() {
    let mut session = Session::default();
    let launch = read(r#"{"configurations":[null]}"#);
    assert_eq!(to_text(pick_configuration(&launch).unwrap().copy()), "null");
    assert_eq!(
        to_text(download_symbols(&mut session, &launch).unwrap()),
        r#"{"id":900000000,"jsonrpc":"2.0","method":"al/downloadSymbols","params":null}"#
    );
    assert!(download_symbols(&mut session, &read("{}")).is_none());
}

#[test]
fn symbols_are_checked() {
    let mut session = Session::default();
    assert_eq!(
        to_text(check_symbols(&mut session)),
        r#"{"id":900000000,"jsonrpc":"2.0","method":"al/checkSymbols","params":{}}"#
    );
    let sent = payload(&trigger_check_symbols(&mut session));
    assert_eq!(sent["id"], 900_000_001);
    assert_eq!(sent["method"], "al/checkSymbols");
    assert_eq!(sent["params"], serde_json::from_str::<Value>("{}").unwrap());
}
