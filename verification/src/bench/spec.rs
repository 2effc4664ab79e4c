//! Bench task specifications.

use vstd::prelude::*;

use crate::error::AgentError;
use crate::path::{join, path_join};

verus! {

/// One bench task.
#[derive(Debug, Clone)]
pub struct TaskSpec {
    /// Unique id (lower-case kebab-case).
    pub id: String,
    /// Human-readable name.
    pub name: String,
    /// Longer description.
    pub description: Option<String>,
    /// Difficulty.
    pub difficulty: Difficulty,
    /// Category (for grouped statistics).
    pub category: Category,
    /// Skills the task needs (for filtering).
    pub skills: Vec<String>,
    /// Preparation steps.
    pub setup: Vec<SetupAction>,
    /// The instruction given to the agent.
    pub instruction: String,
    /// How the result is checked.
    pub verify: VerifySpec,
    /// A reference answer, if any.
    pub reference: Option<ReferenceSpec>,
    /// Tags (for filtering).
    pub tags: Vec<String>,
}

/// Difficulty level.
#[derive(Debug, Clone, Copy, PartialEq, Eq, Structural)]
pub enum Difficulty {
    Easy,
    Medium,
    Hard,
}

impl Difficulty {
    /// The level's name (what `Display` prints).
    pub fn to_text(&self) -> (s: &'static str)
        ensures
            s@ == match self {
                Difficulty::Easy => "easy"@,
                Difficulty::Medium => "medium"@,
                Difficulty::Hard => "hard"@,
            },
    {
        match self {
            Difficulty::Easy => "easy",
            Difficulty::Medium => "medium",
            Difficulty::Hard => "hard",
        }
    }
}

/// Task category.
#[derive(Debug, Clone, PartialEq, Eq, Hash, Structural)]
pub enum Category {
    Testing,
    Bugfix,
    Refactor,
    Feature,
    Docs,
    Infra,
    Unknown,
}

impl Category {
    /// The category's name (what `Display` prints).
    pub fn to_text(&self) -> (s: &'static str)
        ensures
            s@ == match self {
                Category::Testing => "testing"@,
                Category::Bugfix => "bugfix"@,
                Category::Refactor => "refactor"@,
                Category::Feature => "feature"@,
                Category::Docs => "docs"@,
                Category::Infra => "infra"@,
                Category::Unknown => "unknown"@,
            },
    {
        match self {
            Category::Testing => "testing",
            Category::Bugfix => "bugfix",
            Category::Refactor => "refactor",
            Category::Feature => "feature",
            Category::Docs => "docs",
            Category::Infra => "infra",
            Category::Unknown => "unknown",
        }
    }
}

/// A preparation step.
#[derive(Debug, Clone)]
pub enum SetupAction {
    /// Write a file.
    Write { path: String, content: String },
    /// Create a directory.
    Mkdir { path: String },
    /// Copy a file in.
    Copy { from: String, to: String },
    /// Clone a git repository.
    Clone { repo: String, depth: u32 },
}

/// How a task's result is checked.
#[derive(Debug, Clone)]
pub enum VerifySpec {
    /// A shell command; passes with exit code 0.
    Command { command: String, cwd: String, timeout_seconds: u64 },
    /// A file must exist.
    FileExists { path: String },
    /// `cargo test` must pass.
    CargoTest { timeout_seconds: u64 },
    /// `cargo fmt --check` must pass.
    CargoFmt,
    /// A git diff check (always passes for now).
    GitDiff { pattern: Option<String> },
}

/// A reference answer.
#[derive(Debug, Clone)]
pub struct ReferenceSpec {
    pub file: Option<String>,
    pub coverage_target: Option<u8>,
}

/// The clone depth when a task gives none.
pub fn default_clone_depth() -> (d: u32)
    ensures
        d == 1,
{
    1
}

/// The verify command's working directory when a task gives none.
pub fn default_cwd() -> (s: String)
    ensures
        s@ == "${AURA_WORKSPACE}"@,
{
    String::from_str("${AURA_WORKSPACE}")
}

/// The verify timeout in seconds when a task gives none.
pub fn default_timeout() -> (t: u64)
    ensures
        t == 60,
{
    60
}

} // verus!

verus! {

/// The YAML skeleton of a new task named `name`.
pub open spec fn task_template_text(name: Seq<char>) -> Seq<char> {
    "id: "@ + name + "\nname: \"Task: "@ + name
        + "\"\ndescription: |\n  Brief description of what this "@
        + "task tests.\ndifficulty: easy\ncategory: feature\nskills: []\nsetup:\n  - action: mkdir\n    path: src\ninstruction: |\n  Write a hello world program in "@
        + "Rust that prints \"Hello, "@
        + name
        + "!\".\nverify:\n  type: command\n  command: \"cargo run --quiet\"\n  cwd: \"${AURA_WORKSPACE}\"\n  timeout_seconds: 30\ntags:\n  - beginner\n"@
}

/// The YAML skeleton that `aura bench init` writes for a new task.
pub fn bench_task_template(name: &str) -> (s: String)
    ensures
        s@ == task_template_text(name@),
{
    let mut s = String::from_str("id: ");
    s.append(name);
    s.append("\nname: \"Task: ");
    s.append(name);
    s.append(
        "\"\ndescription: |\n  Brief description of what this ",
    );
    s.append(
        "task tests.\ndifficulty: easy\ncategory: feature\nskills: []\nsetup:\n  - action: mkdir\n    path: src\ninstruction: |\n  Write a hello world program in ",
    );
    s.append("Rust that prints \"Hello, ");
    s.append(name);
    s.append(
        "!\".\nverify:\n  type: command\n  command: \"cargo run --quiet\"\n  cwd: \"${AURA_WORKSPACE}\"\n  timeout_seconds: 30\ntags:\n  - beginner\n",
    );
    s
}

/// Where `aura bench init` writes the task `name`: `<name>.yaml` in
/// `bench/tasks`. An empty name is refused.
pub fn task_file_path(name: &str) -> (r: Result<String, AgentError>)
    ensures
        name@.len() == 0 ==> (r matches Err(AgentError::InvalidRequest(m)) && m@ == "task name cannot be empty"@),
        name@.len() > 0 ==> (r matches Ok(p) && p@ == join("bench/tasks"@, name@ + ".yaml"@)),
{
    if name.unicode_len() == 0 {
        return Err(AgentError::InvalidRequest(String::from_str("task name cannot be empty")));
    }
    let mut file = String::from_str(name);
    file.append(".yaml");
    Ok(path_join("bench/tasks", file.as_str()))
}

} // verus!
