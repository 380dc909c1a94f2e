use alzed::config::{help_text, Config, ConfigError, Invocation, ServerPath};

fn args(list: &[&str]) -> Vec<String> {
    list.iter().map(|s| s.to_string()).collect()
}

fn run(list: &[&str], in_environment: bool) -> Config {
    match Config::from_env_and_args(&args(list), in_environment) {
        Ok(Invocation::Run(config)) => config,
        other => panic!("{:?}", other),
    }
}

#[test]
fn the_server_path_is_given() {
    let config = run(&["--al-server", "/opt/al"], false);
    assert!(matches!(config.al_server_path, ServerPath::Given(p) if p == "/opt/al"));
    assert!(config.al_server_args.is_empty());
}

#[test]
fn the_server_path_comes_from_the_environment() {
    let config = run(&["--", "--al-server", "x"], true);
    assert!(matches!(config.al_server_path, ServerPath::FromEnvironment));
    assert_eq!(config.al_server_args, args(&["--al-server", "x"]));
}

#[test]
fn what_is_given_wins_over_the_environment() {
    let config = run(&["--al-server", "--help"], true);
    assert!(matches!(config.al_server_path, ServerPath::Given(p) if p == "--help"));
}

#[test]
fn server_arguments_pass_through() {
    let config = run(&["--al-server", "p", "--", "--help", "--", "-x"], false);
    assert!(matches!(config.al_server_path, ServerPath::Given(p) if p == "p"));
    assert_eq!(config.al_server_args, args(&["--help", "--", "-x"]));
    assert!(run(&["--al-server", "p", "--"], false).al_server_args.is_empty());
}

#[test]
fn the_last_server_path_counts() {
    let config = run(&["--al-server", "a", "--al-server", "b"], false);
    assert!(matches!(config.al_server_path, ServerPath::Given(p) if p == "b"));
}

#[test]
fn a_server_path_that_is_missing_unsets_the_one_before() {
    let result = Config::from_env_and_args(&args(&["--al-server", "a", "--al-server"]), false);
    assert!(matches!(result, Err(ConfigError::NoServerPath)));
    let config = run(&["--al-server", "a", "--al-server"], true);
    assert!(matches!(config.al_server_path, ServerPath::FromEnvironment));
}

#[test]
fn help_is_asked_for() {
    for list in [&["--help"][..], &["-h"], &["--al-server", "a", "-h", "--bad"]] {
        assert!(matches!(Config::from_env_and_args(&args(list), false), Ok(Invocation::Help)));
    }
}

#[test]
fn unknown_arguments_are_refused() {
    let result = Config::from_env_and_args(&args(&["--al-server", "a", "--verbose", "-h"]), true);
    let error = result.unwrap_err();
    assert!(matches!(&error, ConfigError::UnknownArgument(a) if a == "--verbose"));
    assert_eq!(error.message(), "unknown argument: --verbose");
}

#[test]
fn a_server_path_is_needed() {
    let error = Config::from_env_and_args(&args(&[]), false).unwrap_err();
    assert!(matches!(error, ConfigError::NoServerPath));
    assert_eq!(
        error.message(),
        "AL Language Server path not set. Pass --al-server <path> or set ALZED_AL_SERVER."
    );
}

#[test]
fn the_help_text_names_the_version() {
    let text = help_text("0.2.0");
    assert!(text.starts_with("alzed-bridge 0.2.0\n\nBridges vanilla LSP (from Zed)"));
    assert!(text.contains("\n    ALZED_AL_SERVER    Path to Microsoft"));
    assert!(text.ends_with("to see every LSP frame.\n"));
}
