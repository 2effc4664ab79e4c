//! Variables and paths inside a bench workspace.

use vstd::prelude::*;

use crate::bench::spec::{SetupAction, VerifySpec};
use crate::path::{components, is_absolute, join, path_join, path_is_absolute, Comp};
use crate::paths::split_file_name;
use crate::text::{replace_all, replace_text};

verus! {

/// Errors of bench workspaces.
#[derive(Debug)]
pub enum WorkspaceError {
    /// The temporary directory could not be created.
    CreateTempDir(String),
    /// A setup action failed.
    Setup(String),
}

impl WorkspaceError {
    /// The text of the error.
    pub fn to_text(&self) -> (s: String)
        ensures
            s@ == match self {
                WorkspaceError::CreateTempDir(m) => "failed to create temp dir: "@ + m@,
                WorkspaceError::Setup(m) => "setup action failed: "@ + m@,
            },
    {
        match self {
            WorkspaceError::CreateTempDir(m) => {
                let mut s = String::from_str("failed to create temp dir: ");
                s.append(m.as_str());
                s
            },
            WorkspaceError::Setup(m) => {
                let mut s = String::from_str("setup action failed: ");
                s.append(m.as_str());
                s
            },
        }
    }
}

/// `input` with `${AURA_WORKSPACE}` and then `${AURA_TEMP_DIR}` replaced by the root.
pub open spec fn substituted(input: Seq<char>, root: Seq<char>) -> Seq<char> {
    replace_all(replace_all(input, "${AURA_WORKSPACE}"@, root), "${AURA_TEMP_DIR}"@, root)
}

/// Replaces the workspace variables in `input` by the workspace root.
pub fn substitute_vars(input: &str, root: &str) -> (r: String)
    ensures
        r@ == substituted(input@, root@),
{
    proof {
        reveal_strlit("${AURA_WORKSPACE}");
        reveal_strlit("${AURA_TEMP_DIR}");
    }
    let a = replace_text(input, "${AURA_WORKSPACE}", root);
    replace_text(a.as_str(), "${AURA_TEMP_DIR}", root)
}

/// A path inside the workspace: variables replaced, then joined to the root
/// unless absolute.
pub fn resolve_path(root: &str, rel: &str) -> (r: String)
    ensures
        r@ == (if is_absolute(substituted(rel@, root@)) {
            substituted(rel@, root@)
        } else {
            join(root@, substituted(rel@, root@))
        }),
{
    let resolved = substitute_vars(rel, root);
    if path_is_absolute(resolved.as_str()) {
        resolved
    } else {
        path_join(root, resolved.as_str())
    }
}

/// One step of preparing a workspace, with its paths resolved: the
/// application performs it.
#[derive(Debug, Clone, PartialEq, Eq)]
pub enum SetupStep {
    /// Write `content` to the file `path` (creating its directory).
    Write { path: String, content: String },
    /// Create the directory `path` and its parents.
    Mkdir { path: String },
    /// Copy the file `from` to `to` (creating the directory of `to`).
    Copy { from: String, to: String },
    /// `git clone --depth <depth> <url> <dest>`.
    Clone { url: String, depth: u32, dest: String },
}

/// The name a clone of `url` gets: its last component when that is a plain
/// name (`Path::file_name`), else `repo`.
pub open spec fn clone_name(url: Seq<char>) -> Seq<char> {
    let cs = components(url);
    if cs.len() > 0 && cs.last() is Normal {
        cs.last()->Normal_0
    } else {
        "repo"@
    }
}

/// The step for one setup action in the workspace `root`: written, created
/// and copied-to paths are joined to the root; the copied-from path and the
/// repository have their variables replaced; a clone goes into the root
/// under the repository's name.
pub fn setup_step(root: &str, action: &SetupAction) -> (r: SetupStep)
    ensures
        match *action {
            SetupAction::Write { path, content } => r matches SetupStep::Write { path: p, content: c } && p@
                == join(root@, path@) && c@ == content@,
            SetupAction::Mkdir { path } => r matches SetupStep::Mkdir { path: p } && p@ == join(root@, path@),
            SetupAction::Copy { from, to } => r matches SetupStep::Copy { from: f, to: t } && f@ == substituted(
                from@,
                root@,
            ) && t@ == join(root@, to@),
            SetupAction::Clone { repo, depth } => r matches SetupStep::Clone { url, depth: d, dest } && url@
                == substituted(repo@, root@) && d == depth && dest@ == join(root@, clone_name(url@)),
        },
{
    match action {
        SetupAction::Write { path, content } => SetupStep::Write {
            path: path_join(root, path.as_str()),
            content: String::from_str(content.as_str()),
        },
        SetupAction::Mkdir { path } => SetupStep::Mkdir { path: path_join(root, path.as_str()) },
        SetupAction::Copy { from, to } => SetupStep::Copy {
            from: substitute_vars(from.as_str(), root),
            to: path_join(root, to.as_str()),
        },
        SetupAction::Clone { repo, depth } => {
            let url = substitute_vars(repo.as_str(), root);
            let name = match split_file_name(url.as_str()) {
                Some((_, n)) => n,
                None => String::from_str("repo"),
            };
            proof {
                reveal_strlit("repo");
            }
            let dest = path_join(root, name.as_str());
            SetupStep::Clone { url, depth: *depth, dest }
        },
    }
}

/// How a task's result is verified, with its paths resolved: the
/// application runs it and reads the exit code.
#[derive(Debug, Clone, PartialEq, Eq)]
pub enum VerifyStep {
    /// Run `command` with `sh -c` in `cwd`; its exit code is the result.
    Shell { command: String, cwd: String },
    /// The result is 0 when `path` is a file, else 1.
    FileExists { path: String },
    /// Passes (0).
    Pass,
}

/// How to verify a task in the workspace `root`: a command has its
/// variables replaced and its directory resolved; `cargo test --quiet` and
/// `cargo fmt --check` run in the root with their output merged; a git-diff
/// check passes.
pub fn verify_step(root: &str, spec: &VerifySpec) -> (r: VerifyStep)
    ensures
        match *spec {
            VerifySpec::Command { command, cwd, .. } => r matches VerifyStep::Shell { command: c, cwd: d } && c@
                == substituted(command@, root@) && d@ == (if is_absolute(substituted(cwd@, root@)) {
                substituted(cwd@, root@)
            } else {
                join(root@, substituted(cwd@, root@))
            }),
            VerifySpec::FileExists { path } => r matches VerifyStep::FileExists { path: p } && p@ == (if is_absolute(
                substituted(path@, root@),
            ) {
                substituted(path@, root@)
            } else {
                join(root@, substituted(path@, root@))
            }),
            VerifySpec::CargoTest { .. } => r matches VerifyStep::Shell { command: c, cwd: d } && c@
                == "cargo test --quiet 2>&1"@ && d@ == root@,
            VerifySpec::CargoFmt => r matches VerifyStep::Shell { command: c, cwd: d } && c@ == "cargo fmt --check 2>&1"@
                && d@ == root@,
            VerifySpec::GitDiff { .. } => r is Pass,
        },
{
    match spec {
        VerifySpec::Command { command, cwd, .. } => VerifyStep::Shell {
            command: substitute_vars(command.as_str(), root),
            cwd: resolve_path(root, cwd.as_str()),
        },
        VerifySpec::FileExists { path } => VerifyStep::FileExists { path: resolve_path(root, path.as_str()) },
        VerifySpec::CargoTest { .. } => VerifyStep::Shell {
            command: String::from_str("cargo test --quiet 2>&1"),
            cwd: String::from_str(root),
        },
        VerifySpec::CargoFmt => VerifyStep::Shell {
            command: String::from_str("cargo fmt --check 2>&1"),
            cwd: String::from_str(root),
        },
        VerifySpec::GitDiff { .. } => VerifyStep::Pass,
    }
}

} // verus!
