//! The command line's arguments, as plain data. Parsing them is done by the
//! application.

use vstd::prelude::*;

use crate::config::Config;
use crate::error::AgentError;
use crate::model_http::HttpConfig;
use crate::path::{is_absolute, path_is_absolute};
use crate::policy::PolicyLevel;

verus! {

/// The agent's command-line arguments.
#[derive(Debug, Clone)]
pub struct CliArgs {
    /// The task instruction (needed when no subcommand is given).
    pub instruction: Option<String>,
    /// The workspace's absolute path; it must exist.
    pub workspace: Option<String>,
    /// The most loop turns.
    pub max_turns: u32,
    /// The policy level.
    pub policy: CliPolicyLevel,
    /// The tools allowed.
    pub tools: Vec<String>,
    /// Skip confirmations.
    pub yes: bool,
    /// JSON output instead of text.
    pub json: bool,
    /// A transcript to resume from.
    pub resume: Option<String>,
    /// Use the scripted fake model.
    pub fake_model: bool,
    /// The OpenAI-compatible endpoint.
    pub endpoint: Option<String>,
    /// The model name.
    pub model: Option<String>,
    /// The API key.
    pub api_key: Option<String>,
    /// A subcommand.
    pub command: Option<CliCommand>,
}

/// The subcommands.
#[derive(Debug, Clone)]
pub enum CliCommand {
    /// The bench framework.
    Bench(BenchCli),
    /// The first-run setup wizard.
    Setup(SetupCli),
}

/// Arguments of `aura setup`.
#[derive(Debug, Clone)]
pub struct SetupCli {
    /// The setup subcommand.
    pub command: SetupCommand,
}

/// Subcommands of `aura setup`.
#[derive(Debug, Clone, Copy, PartialEq, Eq)]
pub enum SetupCommand {
    /// Start the interactive wizard.
    Wizard,
}

/// Arguments of `aura bench`.
#[derive(Debug, Clone)]
pub struct BenchCli {
    /// The bench subcommand.
    pub command: BenchCommand,
}

/// Subcommands of `aura bench`.
#[derive(Debug, Clone)]
pub enum BenchCommand {
    /// Run bench tasks.
    Run {
        tasks: Option<String>,
        agent: String,
        parallel: Option<usize>,
        timeout: u64,
        output: Option<String>,
        sandbox: Option<String>,
    },
    /// Write a report.
    Report { dir: String },
    /// Start a new task skeleton.
    Init { name: String },
    /// List the tasks.
    List {},
    /// Compare two runs.
    Diff { base_dir: String, current_dir: String },
}

/// The policy level as the command line names it.
#[derive(Debug, Clone, Copy, PartialEq, Eq, Structural)]
pub enum CliPolicyLevel {
    /// Every side effect needs a confirmation.
    Strict,
    /// The default.
    Balanced,
    /// Only device writes and system directories are blocked.
    Permissive,
}

/// The policy level a command-line level stands for.
pub open spec fn level_of(l: CliPolicyLevel) -> PolicyLevel {
    match l {
        CliPolicyLevel::Strict => PolicyLevel::Strict,
        CliPolicyLevel::Balanced => PolicyLevel::Balanced,
        CliPolicyLevel::Permissive => PolicyLevel::Permissive,
    }
}

impl From<CliPolicyLevel> for PolicyLevel {
    fn from(level: CliPolicyLevel) -> (r: Self) {
        match level {
            CliPolicyLevel::Strict => PolicyLevel::Strict,
            CliPolicyLevel::Balanced => PolicyLevel::Balanced,
            CliPolicyLevel::Permissive => PolicyLevel::Permissive,
        }
    }
}

impl vstd::std_specs::convert::FromSpecImpl<CliPolicyLevel> for PolicyLevel {
    open spec fn obeys_from_spec() -> bool {
        true
    }

    open spec fn from_spec(v: CliPolicyLevel) -> PolicyLevel {
        level_of(v)
    }
}

} // verus!

verus! {

/// The refusal of a workspace that is missing or not absolute.
pub open spec fn workspace_refusal(path: Seq<char>, exists: bool) -> Option<Seq<char>> {
    if !exists {
        Some("workspace does not exist: "@ + path)
    } else if !is_absolute(path) {
        Some("workspace must be absolute: "@ + path)
    } else {
        None
    }
}

/// Accepts the workspace `path` (whether it exists is asked of the file
/// system by the caller): it must exist and be absolute.
pub fn check_workspace(path: &str, exists: bool) -> (r: Result<String, AgentError>)
    ensures
        match workspace_refusal(path@, exists) {
            None => r matches Ok(p) && p@ == path@,
            Some(m) => r matches Err(AgentError::InvalidRequest(x)) && x@ == m,
        },
{
    if !exists {
        let mut m = String::from_str("workspace does not exist: ");
        m.append(path);
        return Err(AgentError::InvalidRequest(m));
    }
    if !path_is_absolute(path) {
        let mut m = String::from_str("workspace must be absolute: ");
        m.append(path);
        return Err(AgentError::InvalidRequest(m));
    }
    Ok(String::from_str(path))
}

/// The model a run talks to.
#[derive(Debug, Clone)]
pub enum ModelChoice {
    /// The scripted fake model (no network).
    Fake,
    /// An OpenAI-compatible HTTP model.
    Http(HttpConfig),
}

/// The first value given, as text.
pub open spec fn first_given(a: Option<String>, b: Option<String>, c: Option<String>) -> Option<Seq<char>> {
    match a {
        Some(x) => Some(x@),
        None => match b {
            Some(x) => Some(x@),
            None => match c {
                Some(x) => Some(x@),
                None => None,
            },
        },
    }
}

fn first_of(a: &Option<String>, b: &Option<String>, c: Option<String>) -> (r: Option<String>)
    ensures
        match r {
            Some(x) => first_given(*a, *b, c) == Some(x@),
            None => first_given(*a, *b, c) is None,
        },
{
    match a {
        Some(x) => Some(String::from_str(x.as_str())),
        None => match b {
            Some(x) => Some(String::from_str(x.as_str())),
            None => c,
        },
    }
}

/// Chooses the model: the fake one when `--fake-model` is given; else the
/// HTTP model when an endpoint, a model and an API key are all known (each
/// from the command line, else the configuration file; the key else from
/// `AURA_API_KEY`, passed as `env_api_key`); else the fake one.
pub fn choose_model(args: &CliArgs, config: &Config, env_api_key: Option<String>) -> (r: ModelChoice)
    ensures
        args.fake_model ==> r is Fake,
        !args.fake_model ==> ({
            let e = first_given(args.endpoint, config.endpoint, None);
            let m = first_given(args.model, config.model, None);
            let k = first_given(args.api_key, config.api_key, env_api_key);
            if e is Some && m is Some && k is Some {
                r matches ModelChoice::Http(c) && c.endpoint@ == e->Some_0 && c.model@ == m->Some_0
                    && c.api_key@ == k->Some_0 && c.path@ == "/v1/chat/completions"@
            } else {
                r is Fake
            }
        }),
{
    if args.fake_model {
        return ModelChoice::Fake;
    }
    let endpoint = first_of(&args.endpoint, &config.endpoint, None);
    let model = first_of(&args.model, &config.model, None);
    let api_key = first_of(&args.api_key, &config.api_key, env_api_key);
    match (endpoint, model, api_key) {
        (Some(e), Some(m), Some(k)) => ModelChoice::Http(HttpConfig::new(e, m, k)),
        _ => ModelChoice::Fake,
    }
}

} // verus!
