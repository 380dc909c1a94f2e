use alzed::codec::{from_bytes, into_value, to_text};
use alzed::json::{Json, JsonObject};
use alzed::settings::{
    build_al_settings, configuration_changed, rewrite_did_change_configuration,
    rewritten_configuration,
};
use serde_json::Value;

fn read(text: &str) -> Json {
    from_bytes(text.as_bytes()).unwrap()
}

fn value(text: &str) -> Value {
    serde_json::from_str(text).unwrap()
}

fn resource(settings: Json) -> Value {
    into_value(settings)["alResourceConfigurationSettings"].clone()
}

#[test]
fn default_settings() {
    let settings = build_al_settings("/home/me/proj", &Json::Object(JsonObject::new()), '/');
    assert_eq!(
        into_value(settings),
        value(
            r#"{
                "workspacePath": "/home/me/proj",
                "alResourceConfigurationSettings": {
                    "assemblyProbingPaths": ["./.netpackages"],
                    "codeAnalyzers": [],
                    "enableCodeAnalysis": false,
                    "backgroundCodeAnalysis": "Project",
                    "packageCachePaths": ["/home/me/proj/.alpackages"],
                    "ruleSetPath": "",
                    "enableCodeActions": true,
                    "incrementalBuild": false,
                    "enableCodeLensExternalUsage": false,
                    "outputAnalyzerStatistics": false,
                    "enableExternalRulesets": false,
                    "namespaceTemplate": ""
                },
                "setActiveWorkspace": true,
                "dependencyParentWorkspacePath": null,
                "expectedProjectReferenceDefinitions": [],
                "activeWorkspaceClosure": []
            }"#
        )
    );
}

#[test]
fn the_package_cache_lies_in_the_project() {
    let none = Json::Object(JsonObject::new());
    assert_eq!(
        resource(build_al_settings("C:\\proj", &none, '\\'))["packageCachePaths"],
        value(r#"["C:\\proj\\.alpackages"]"#)
    );
    assert_eq!(
        resource(build_al_settings("", &none, '/'))["packageCachePaths"],
        value(r#"[".alpackages"]"#)
    );
}

#[test]
fn the_user_names_one_package_cache_or_several() {
    let caches = |overrides: &str| {
        resource(build_al_settings("/p", &read(overrides), '/'))["packageCachePaths"].clone()
    };
    assert_eq!(caches(r#"{"packageCachePath":"/c"}"#), value(r#"["/c"]"#));
    assert_eq!(caches(r#"{"packageCachePath":["/c",1]}"#), value(r#"["/c",1]"#));
    assert_eq!(caches(r#"{"packageCachePath":null}"#), value(r#"["/p/.alpackages"]"#));
    assert_eq!(caches(r#"{"packageCachePaths":["/c"]}"#), value(r#"["/p/.alpackages"]"#));
}

#[test]
fn overrides_are_passed_on_as_they_are() {
    let overrides = r#"{
        "assemblyProbingPaths": "one",
        "codeAnalyzers": ["${CodeCop}"],
        "enableCodeAnalysis": true,
        "backgroundCodeAnalysis": null,
        "ruleSetPath": "r.json",
        "enableCodeActions": 0,
        "incrementalBuild": true,
        "enableCodeLensExternalUsage": true,
        "outputAnalyzerStatistics": true,
        "enableExternalRulesets": true,
        "namespaceTemplate": {"x": 1}
    }"#;
    let got = resource(build_al_settings("/p", &read(overrides), '/'));
    let expected = value(overrides);
    for (key, setting) in expected.as_object().unwrap() {
        assert_eq!(&got[key], setting);
    }
}

#[test]
fn unknown_overrides_do_not_count() {
    let plain = build_al_settings("/p", &read("{}"), '/');
    for overrides in ["{\"unknown\": 1, \"workspacePath\": \"x\"}", "[1]", "null", "\"text\""] {
        let settings = build_al_settings("/p", &read(overrides), '/');
        assert_eq!(to_text(settings), to_text(plain.copy()));
    }
}

#[test]
fn changed_settings_are_announced() {
    assert_eq!(
        to_text(configuration_changed(read("[1]"))),
        r#"{"jsonrpc":"2.0","method":"workspace/didChangeConfiguration","params":{"settings":[1]}}"#
    );
}

#[test]
fn the_al_part_of_the_settings_is_rewritten() {
    let message = read(
        r#"{"jsonrpc":"2.0","method":"workspace/didChangeConfiguration","params":{"settings":{"al":{"enableCodeAnalysis":true}}}}"#,
    );
    let rewritten = into_value(rewritten_configuration(&message, "/p", '/'));
    assert_eq!(rewritten["method"], "workspace/didChangeConfiguration");
    assert!(rewritten.get("id").is_none());
    let settings = &rewritten["params"]["settings"];
    assert_eq!(settings["workspacePath"], "/p");
    assert_eq!(settings["alResourceConfigurationSettings"]["enableCodeAnalysis"], true);
    assert!(settings.get("al").is_none());
}

#[test]
fn rewritten_settings_read_back() {
    let message = read(r#"{"params":{"settings":{"al":{"codeAnalyzers":["a"]}}}}"#);
    let bytes = rewrite_did_change_configuration(&message, "/p", '/');
    assert_eq!(
        serde_json::from_slice::<Value>(&bytes).unwrap(),
        into_value(rewritten_configuration(&message, "/p", '/'))
    );
}

#[test]
fn settings_without_an_al_part_are_the_defaults() {
    let defaults = to_text(configuration_changed(build_al_settings("/p", &read("{}"), '/')));
    for message in [
        "{}",
        r#"{"params":{}}"#,
        r#"{"params":{"settings":null}}"#,
        r#"{"params":{"settings":{"other":{"enableCodeAnalysis":true}}}}"#,
    ] {
        assert_eq!(to_text(rewritten_configuration(&read(message), "/p", '/')), defaults);
    }
}
