//! The command line of the bridge.

use crate::text::{text_eq, texts};
use vstd::prelude::*;
use vstd::string::*;

verus! {

/// Where the path of the AL server comes from.
#[derive(Debug)]
pub enum ServerPath {
    /// It is given on the command line.
    Given(String),
    /// It is the value of the environment variable `ALZED_AL_SERVER`.
    FromEnvironment,
}

/// How to start the AL server.
#[derive(Debug)]
pub struct Config {
    pub al_server_path: ServerPath,
    pub al_server_args: Vec<String>,
}

/// What the command line asks for.
#[derive(Debug)]
pub enum Invocation {
    /// To bridge an editor and an AL server.
    Run(Config),
    /// To print the help text.
    Help,
}

/// What is wrong with the command line.
#[derive(Debug)]
pub enum ConfigError {
    /// An argument that means nothing.
    UnknownArgument(String),
    /// No path of the AL server, neither on the command line nor in the environment.
    NoServerPath,
}

/// What the arguments alone ask for.
pub ghost enum Arguments {
    Run { path: Option<Seq<char>>, server_args: Seq<Seq<char>> },
    Help,
    Unknown(Seq<char>),
}

/// What arguments ask for, where `path` is the path of the AL server that those before them
/// gave. The last `--al-server` counts; what follows `--` is for the AL server; `--help`
/// and an unknown argument count as soon as they come.
pub open spec fn read_arguments(args: Seq<Seq<char>>, path: Option<Seq<char>>) -> Arguments
    decreases args.len(),
{
    if args.len() == 0 {
        Arguments::Run { path, server_args: Seq::empty() }
    } else if args[0] == "--al-server"@ {
        if args.len() == 1 {
            Arguments::Run { path: None, server_args: Seq::empty() }
        } else {
            read_arguments(args.skip(2), Some(args[1]))
        }
    } else if args[0] == "--"@ {
        Arguments::Run { path, server_args: args.skip(1) }
    } else if args[0] == "--help"@ || args[0] == "-h"@ {
        Arguments::Help
    } else {
        Arguments::Unknown(args[0])
    }
}

/// The text of an argument that may be absent.
spec fn given(path: Option<String>) -> Option<Seq<char>> {
    match path {
        Some(p) => Some(p@),
        None => None,
    }
}

/// What comes of the command line.
pub ghost enum Startup {
    /// The bridge runs; without a path the environment has it.
    Run { path: Option<Seq<char>>, server_args: Seq<Seq<char>> },
    Help,
    Unknown(Seq<char>),
    NoServerPath,
}

/// What comes of arguments, where the environment has a path or has none.
pub open spec fn startup(args: Seq<Seq<char>>, in_environment: bool) -> Startup {
    match read_arguments(args, None) {
        Arguments::Help => Startup::Help,
        Arguments::Unknown(arg) => Startup::Unknown(arg),
        Arguments::Run { path, server_args } => if path is None && !in_environment {
            Startup::NoServerPath
        } else {
            Startup::Run { path, server_args }
        },
    }
}

/// What a result of reading the command line says.
pub open spec fn outcome(r: Result<Invocation, ConfigError>) -> Startup {
    match r {
        Ok(Invocation::Help) => Startup::Help,
        Ok(Invocation::Run(config)) => Startup::Run {
            path: match config.al_server_path {
                ServerPath::Given(path) => Some(path@),
                ServerPath::FromEnvironment => None,
            },
            server_args: texts(config.al_server_args@),
        },
        Err(ConfigError::UnknownArgument(arg)) => Startup::Unknown(arg@),
        Err(ConfigError::NoServerPath) => Startup::NoServerPath,
    }
}

impl Config {
    /// Reads the command line, without the name of the program; `in_environment` says
    /// whether `ALZED_AL_SERVER` is set.
    pub fn from_env_and_args(args: &Vec<String>, in_environment: bool) -> (r: Result<
        Invocation,
        ConfigError,
    >)
        ensures
            outcome(r) == startup(texts(args@), in_environment),
            match read_arguments(texts(args@), None) {
                Arguments::Help => r matches Ok(Invocation::Help),
                Arguments::Unknown(arg) => r matches Err(ConfigError::UnknownArgument(a)) && a@
                    == arg,
                Arguments::Run { path: Some(path), server_args } => {
                    &&& r matches Ok(Invocation::Run(config))
                    &&& config.al_server_path matches ServerPath::Given(p)
                    &&& p@ == path
                    &&& texts(config.al_server_args@) == server_args
                },
                Arguments::Run { path: None, server_args } => if in_environment {
                    &&& r matches Ok(Invocation::Run(config))
                    &&& config.al_server_path is FromEnvironment
                    &&& texts(config.al_server_args@) == server_args
                } else {
                    r matches Err(ConfigError::NoServerPath)
                },
            },
    {
        let ghost all = texts(args@);
        let mut path: Option<String> = None;
        let mut al_server_args: Vec<String> = Vec::new();
        let mut i: usize = 0;
        let mut reading: bool = true;
        assert(all.skip(0) =~= all);
        assert(texts(al_server_args@) =~= Seq::empty());
        while reading && i < args.len()
            invariant
                i <= args@.len(),
                all == texts(args@),
                reading ==> read_arguments(all, None) == read_arguments(
                    all.skip(i as int),
                    given(path),
                ),
                reading ==> texts(al_server_args@) == Seq::<Seq<char>>::empty(),
                !reading ==> read_arguments(all, None) == (Arguments::Run {
                    path: given(path),
                    server_args: texts(al_server_args@),
                }),
            decreases args@.len() - i, reading as int,
        {
            let arg: &str = args[i].as_str();
            assert(all.skip(i as int)[0] == arg@);
            if text_eq(arg, "--al-server") {
                if args.len() - i > 1 {
                    path = Some(args[i + 1].clone());
                    assert(all.skip(i as int).skip(2) =~= all.skip(i + 2));
                    i += 2;
                } else {
                    path = None;
                    reading = false;
                }
            } else if text_eq(arg, "--") {
                let mut j: usize = i + 1;
                while j < args.len()
                    invariant
                        i + 1 <= j <= args@.len(),
                        all == texts(args@),
                        texts(al_server_args@) == all.subrange(i + 1, j as int),
                    decreases args@.len() - j,
                {
                    let ghost before = texts(al_server_args@);
                    al_server_args.push(args[j].clone());
                    assert(texts(al_server_args@) =~= before.push(all[j as int]));
                    j += 1;
                }
                assert(all.subrange(i + 1, j as int) =~= all.skip(i as int).skip(1));
                reading = false;
            } else if text_eq(arg, "--help") || text_eq(arg, "-h") {
                return Ok(Invocation::Help);
            } else {
                return Err(ConfigError::UnknownArgument(arg.to_owned()));
            }
        }
        match path {
            Some(p) => Ok(
                Invocation::Run(Config { al_server_path: ServerPath::Given(p), al_server_args }),
            ),
            None => if in_environment {
                Ok(
                    Invocation::Run(
                        Config { al_server_path: ServerPath::FromEnvironment, al_server_args },
                    ),
                )
            } else {
                Err(ConfigError::NoServerPath)
            },
        }
    }
}

impl ConfigError {
    /// What the error says.
    pub open spec fn text(self) -> Seq<char> {
        match self {
            ConfigError::UnknownArgument(arg) => "unknown argument: "@ + arg@,
            ConfigError::NoServerPath =>
                "AL Language Server path not set. Pass --al-server <path> or set ALZED_AL_SERVER."@,
        }
    }

    /// Says what is wrong.
    pub fn message(&self) -> (r: String)
        ensures
            r@ == self.text(),
    {
        match self {
            ConfigError::UnknownArgument(arg) => {
                let mut out: String = "unknown argument: ".to_owned();
                out.append(arg.as_str());
                out
            },
            ConfigError::NoServerPath =>
                "AL Language Server path not set. Pass --al-server <path> or set ALZED_AL_SERVER.".to_owned(),
        }
    }
}

/// The help text.
pub open spec fn help(version: Seq<char>) -> Seq<char> {
    "alzed-bridge "@ + version + "

Bridges vanilla LSP (from Zed) <-> al/* LSP variant (from Microsoft AL Language Server).

USAGE:
    alzed-bridge --al-server <PATH-TO-EditorServices.Host> [-- <server args>...]

ENV:
    ALZED_AL_SERVER    Path to Microsoft.Dynamics.Nav.EditorServices.Host(.exe)
                       Used if --al-server is not provided.
    RUST_LOG           Tracing filter (default: info). Try
                       RUST_LOG=alzed_bridge=debug for handshake details, or
                       RUST_LOG=alzed_bridge=trace to see every LSP frame.
"@
}

/// Writes the help text of the given version of the bridge.
pub fn help_text(version: &str) -> (r: String)
    ensures
        r@ == help(version@),
{
    let mut out: String = "alzed-bridge ".to_owned();
    out.append(version);
    out.append("

Bridges vanilla LSP (from Zed) <-> al/* LSP variant (from Microsoft AL Language Server).

USAGE:
    alzed-bridge --al-server <PATH-TO-EditorServices.Host> [-- <server args>...]

ENV:
    ALZED_AL_SERVER    Path to Microsoft.Dynamics.Nav.EditorServices.Host(.exe)
                       Used if --al-server is not provided.
    RUST_LOG           Tracing filter (default: info). Try
                       RUST_LOG=alzed_bridge=debug for handshake details, or
                       RUST_LOG=alzed_bridge=trace to see every LSP frame.
");
    out
}

/// The path behind `--al-server` is taken, and what follows `--` goes to the AL server as it
/// is, even where it looks like an argument of the bridge.
pub proof fn law_server_arguments_pass_through(path: Seq<char>, server_args: Seq<Seq<char>>)
    ensures
        read_arguments(seq!["--al-server"@, path, "--"@] + server_args, None) == (Arguments::Run {
            path: Some(path),
            server_args,
        }),
{
    let args = seq!["--al-server"@, path, "--"@] + server_args;
    reveal_strlit("--al-server");
    reveal_strlit("--");
    assert("--al-server"@.len() != "--"@.len());
    assert(args.skip(2) =~= seq!["--"@] + server_args);
    assert(args.skip(2).skip(1) =~= server_args);
    assert(read_arguments(args, None) == read_arguments(args.skip(2), Some(path)));
}

/// Of two paths that are given for the AL server the later one counts.
pub proof fn law_last_server_path_counts(
    first: Seq<char>,
    second: Seq<char>,
    rest: Seq<Seq<char>>,
    path: Option<Seq<char>>,
)
    ensures
        read_arguments(seq!["--al-server"@, first, "--al-server"@, second] + rest, path)
            == read_arguments(seq!["--al-server"@, second] + rest, path),
{
    let args = seq!["--al-server"@, first, "--al-server"@, second] + rest;
    let short = seq!["--al-server"@, second] + rest;
    assert(args.skip(2) =~= short);
    assert(read_arguments(args, path) == read_arguments(short, Some(first)));
    assert(read_arguments(short, Some(first)) == read_arguments(short.skip(2), Some(second)));
}

/// Arguments are read one by one: each form means one thing, and what it takes is taken as
/// it is.
pub proof fn law_arguments_are_read_one_by_one(
    first: Seq<char>,
    second: Seq<char>,
    rest: Seq<Seq<char>>,
    path: Option<Seq<char>>,
)
    ensures
        read_arguments(Seq::empty(), path) == (Arguments::Run { path, server_args: Seq::empty() }),
        read_arguments(seq!["--al-server"@], path) == (Arguments::Run {
            path: None,
            server_args: Seq::empty(),
        }),
        read_arguments(seq!["--al-server"@, second] + rest, path) == read_arguments(
            rest,
            Some(second),
        ),
        read_arguments(seq!["--"@] + rest, path) == (Arguments::Run { path, server_args: rest }),
        read_arguments(seq!["--help"@] + rest, path) == Arguments::Help,
        read_arguments(seq!["-h"@] + rest, path) == Arguments::Help,
        first != "--al-server"@ && first != "--"@ && first != "--help"@ && first != "-h"@
            ==> read_arguments(seq![first] + rest, path) == Arguments::Unknown(first),
{
    reveal_strlit("--al-server");
    reveal_strlit("--");
    reveal_strlit("--help");
    reveal_strlit("-h");
    assert("--al-server"@.len() == 11 && "--"@.len() == 2 && "--help"@.len() == 6 && "-h"@.len()
        == 2);
    assert("--"@[1] == '-' && "-h"@[1] == 'h');
    let given = seq!["--al-server"@, second] + rest;
    assert(given.skip(2) =~= rest);
    assert(given[0] == "--al-server"@ && given[1] == second);
    assert((seq!["--"@] + rest).skip(1) =~= rest);
    assert((seq!["--"@] + rest)[0] == "--"@);
    assert((seq!["--help"@] + rest)[0] == "--help"@);
    assert((seq!["-h"@] + rest)[0] == "-h"@);
    assert((seq![first] + rest)[0] == first);
}

/// The bridge starts with the path that is given, whatever the environment has; with none
/// it goes by the environment, and without that it does not start.
pub proof fn law_a_given_path_is_taken(
    args: Seq<Seq<char>>,
    in_environment: bool,
    path: Seq<char>,
    server_args: Seq<Seq<char>>,
    arg: Seq<char>,
)
    ensures
        read_arguments(args, None) == (Arguments::Run { path: Some(path), server_args }) ==> startup(
            args,
            in_environment,
        ) == (Startup::Run { path: Some(path), server_args }),
        read_arguments(args, None) == (Arguments::Run { path: None, server_args }) ==> startup(
            args,
            true,
        ) == (Startup::Run { path: None, server_args }) && startup(args, false)
            == Startup::NoServerPath,
        read_arguments(args, None) == Arguments::Help ==> startup(args, in_environment)
            == Startup::Help,
        read_arguments(args, None) == Arguments::Unknown(arg) ==> startup(args, in_environment)
            == Startup::Unknown(arg),
{
}

/// A result says what it holds.
pub proof fn law_outcomes_say_what_they_hold(config: Config, path: String, arg: String)
    ensures
        outcome(Ok(Invocation::Help)) == Startup::Help,
        outcome(Err(ConfigError::UnknownArgument(arg))) == Startup::Unknown(arg@),
        outcome(Err(ConfigError::NoServerPath)) == Startup::NoServerPath,
        config.al_server_path == ServerPath::Given(path) ==> outcome(Ok(Invocation::Run(config)))
            == (Startup::Run { path: Some(path@), server_args: texts(config.al_server_args@) }),
        config.al_server_path == ServerPath::FromEnvironment ==> outcome(
            Ok(Invocation::Run(config)),
        ) == (Startup::Run { path: None, server_args: texts(config.al_server_args@) }),
{
}

/// An error names the argument that it is about.
pub proof fn law_config_errors_name_the_argument(arg: String)
    ensures
        ConfigError::UnknownArgument(arg).text() == "unknown argument: "@ + arg@,
{
}

/// The help texts of two versions differ in the version alone.
pub proof fn law_help_differs_in_the_version_alone(one: Seq<char>, two: Seq<char>)
    ensures
        help(one).take(13 + one.len() as int) == "alzed-bridge "@ + one,
        help(one).skip(13 + one.len() as int) == help(two).skip(13 + two.len() as int),
{
    reveal_strlit("alzed-bridge ");
    assert(help(one).take(13 + one.len() as int) =~= "alzed-bridge "@ + one);
    assert(help(one).skip(13 + one.len() as int) =~= help(two).skip(13 + two.len() as int));
}

} // verus!
