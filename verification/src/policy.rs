//! Capabilities and the policy evaluator.
//!
//! - A `Capability` is the smallest permission a tool declares.
//! - A `Policy` decides whether a task holds the capabilities a tool needs and
//!   whether a command may run; high-risk commands are found by `precheck`.

use vstd::prelude::*;

use crate::error::AgentError;
use crate::paths::{check_within, escape_message};
use crate::path::starts_with;
use crate::precheck::{
    analyze, regex_find_all, spec_categories, spec_joined, PrecheckResult, RiskTier,
};
use crate::text::{debug_list, debug_list_string, str_eq};

verus! {

/// A permission that a tool may need.
#[derive(Debug, Clone, Copy, PartialEq, Eq, Hash, Structural)]
pub enum Capability {
    /// Read files and list directories.
    FsRead,
    /// Write files.
    FsWrite,
    /// Run commands.
    Exec,
    /// Make HTTP requests.
    Http,
    /// Create and manage sessions.
    Session,
    /// Send events to a sink.
    Events,
    /// Draw a user interface.
    Ui,
}

impl Capability {
    /// The name of the capability, as `Debug` prints it.
    pub open spec fn spec_name(self) -> Seq<char> {
        match self {
            Capability::FsRead => "FsRead"@,
            Capability::FsWrite => "FsWrite"@,
            Capability::Exec => "Exec"@,
            Capability::Http => "Http"@,
            Capability::Session => "Session"@,
            Capability::Events => "Events"@,
            Capability::Ui => "Ui"@,
        }
    }

    /// The name of the capability, as `Debug` prints it.
    pub fn name(self) -> (r: &'static str)
        ensures
            r@ == self.spec_name(),
    {
        match self {
            Capability::FsRead => "FsRead",
            Capability::FsWrite => "FsWrite",
            Capability::Exec => "Exec",
            Capability::Http => "Http",
            Capability::Session => "Session",
            Capability::Events => "Events",
            Capability::Ui => "Ui",
        }
    }
}

/// The policy level.
#[derive(Debug, Clone, Copy, PartialEq, Eq, Structural)]
pub enum PolicyLevel {
    /// Every side effect needs a confirmation; only low-risk commands run.
    Strict,
    /// The default: refuses high-risk commands and paths outside the workspace.
    Balanced,
    /// Refuses only device writes and changes to system directories.
    Permissive,
}

/// The name of a risk tier, as `Debug` prints it.
pub open spec fn tier_name(t: RiskTier) -> Seq<char> {
    match t {
        RiskTier::Low => "Low"@,
        RiskTier::Medium => "Medium"@,
        RiskTier::High => "High"@,
    }
}

fn tier_str(t: RiskTier) -> (r: &'static str)
    ensures
        r@ == tier_name(t),
{
    match t {
        RiskTier::Low => "Low",
        RiskTier::Medium => "Medium",
        RiskTier::High => "High",
    }
}

/// The capabilities granted by default: read, write, exec and session.
pub open spec fn default_grants() -> Set<Capability> {
    set![Capability::FsRead, Capability::FsWrite, Capability::Exec, Capability::Session]
}

/// The policy evaluator.
#[derive(Debug, Clone)]
pub struct Policy {
    level: PolicyLevel,
    granted: Vec<Capability>,
    workspace: String,
}

/// Whether the permissive level refuses a command with these high-risk
/// categories: only a device write or a change to a system directory.
pub open spec fn permissive_blocks(cats: Seq<Seq<char>>) -> bool {
    cats.contains("device-write"@) || cats.contains("system-dir"@)
}

/// The outcome of `evaluate_command` for a level and an argv.
pub open spec fn command_verdict(level: PolicyLevel, argv: Seq<String>) -> Result<(), Seq<char>> {
    let cats = spec_categories(spec_joined(argv));
    let tier = if cats.len() > 0 {
        RiskTier::High
    } else {
        RiskTier::Low
    };
    let refusal = "high-risk command blocked: categories="@ + debug_list(cats);
    if level == PolicyLevel::Strict && tier != RiskTier::Low {
        Err("strict policy blocks tier="@ + tier_name(tier) + " command"@)
    } else if level == PolicyLevel::Permissive {
        if permissive_blocks(cats) {
            Err(refusal)
        } else {
            Ok(())
        }
    } else if tier == RiskTier::High {
        Err(refusal)
    } else {
        Ok(())
    }
}

/// Whether `items` holds `s`.
fn contains_str(items: &[String], s: &str) -> (b: bool)
    ensures
        b == items@.map_values(|x: String| x@).contains(s@),
{
    let ghost its = items@.map_values(|x: String| x@);
    let mut i: usize = 0;
    while i < items.len()
        invariant
            i <= items.len(),
            its == items@.map_values(|x: String| x@),
            forall|j: int| 0 <= j < i ==> its[j] != s@,
        decreases items.len() - i,
    {
        if str_eq(items[i].as_str(), s) {
            assert(its[i as int] == s@);
            return true;
        }
        i = i + 1;
    }
    false
}

/// The first capability in `required` that is not in `granted`, if any.
pub open spec fn first_missing(required: Seq<Capability>, granted: Set<Capability>) -> Option<Capability>
    decreases required.len(),
{
    if required.len() == 0 {
        None
    } else if !granted.contains(required[0]) {
        Some(required[0])
    } else {
        first_missing(required.skip(1), granted)
    }
}

impl Policy {
    /// The level.
    pub closed spec fn spec_level(self) -> PolicyLevel {
        self.level
    }

    /// The granted capabilities.
    pub closed spec fn spec_granted(self) -> Set<Capability> {
        self.granted@.to_set()
    }

    /// The workspace.
    pub closed spec fn spec_workspace(self) -> Seq<char> {
        self.workspace@
    }

    /// The balanced default: read, write, exec and session granted.
    pub fn balanced(workspace: String) -> (p: Self)
        ensures
            p.spec_level() == PolicyLevel::Balanced,
            p.spec_granted() == default_grants(),
            p.spec_workspace() == workspace@,
    {
        let mut granted: Vec<Capability> = Vec::new();
        granted.push(Capability::FsRead);
        granted.push(Capability::FsWrite);
        granted.push(Capability::Exec);
        granted.push(Capability::Session);
        let p = Policy { level: PolicyLevel::Balanced, granted, workspace };
        proof {
            let s = p.granted@;
            assert(s.to_set() =~= default_grants()) by {
                assert forall|c: Capability| #[trigger] s.to_set().contains(c) == default_grants().contains(c) by {
                    if default_grants().contains(c) {
                        if c == Capability::FsRead { assert(s[0] == c); }
                        if c == Capability::FsWrite { assert(s[1] == c); }
                        if c == Capability::Exec { assert(s[2] == c); }
                        if c == Capability::Session { assert(s[3] == c); }
                    }
                }
            }
        }
        p
    }

    /// Like `balanced`, at the strict level.
    pub fn strict(workspace: String) -> (p: Self)
        ensures
            p.spec_level() == PolicyLevel::Strict,
            p.spec_granted() == default_grants(),
            p.spec_workspace() == workspace@,
    {
        let mut p = Self::balanced(workspace);
        p.level = PolicyLevel::Strict;
        p
    }

    /// Like `balanced`, at the permissive level.
    pub fn permissive(workspace: String) -> (p: Self)
        ensures
            p.spec_level() == PolicyLevel::Permissive,
            p.spec_granted() == default_grants(),
            p.spec_workspace() == workspace@,
    {
        let mut p = Self::balanced(workspace);
        p.level = PolicyLevel::Permissive;
        p
    }

    /// The policy level.
    pub fn level(&self) -> (l: PolicyLevel)
        ensures
            l == self.spec_level(),
    {
        self.level
    }

    /// The granted capabilities.
    pub fn granted(&self) -> (g: &[Capability])
        ensures
            g@.to_set() == self.spec_granted(),
    {
        self.granted.as_slice()
    }

    /// The workspace path.
    pub fn workspace(&self) -> (w: &str)
        ensures
            w@ == self.spec_workspace(),
    {
        self.workspace.as_str()
    }

    /// Checks that every capability a tool requires is granted; the first
    /// missing one is reported as `CommandPolicy`.
    pub fn evaluate_capabilities(&self, tool_name: &str, required: &[Capability]) -> (r: Result<
        (),
        AgentError,
    >)
        ensures
            match first_missing(required@, self.spec_granted()) {
                None => r is Ok,
                Some(c) => r matches Err(AgentError::CommandPolicy(m)) && m@ == "tool "@
                    + tool_name@ + " requires "@ + c.spec_name() + " which is not granted"@,
            },
    {
        let mut i: usize = 0;
        assert(required@.skip(0) =~= required@);
        while i < required.len()
            invariant
                i <= required.len(),
                first_missing(required@, self.spec_granted()) == first_missing(
                    required@.skip(i as int),
                    self.spec_granted(),
                ),
            decreases required.len() - i,
        {
            let c = required[i];
            let mut found = false;
            let mut j: usize = 0;
            while j < self.granted.len()
                invariant
                    j <= self.granted.len(),
                    found == exists|k: int| 0 <= k < j && self.granted@[k] == c,
                decreases self.granted.len() - j,
            {
                if self.granted[j] == c {
                    found = true;
                }
                j = j + 1;
            }
            assert(found == self.spec_granted().contains(c));
            assert(required@.skip(i as int)[0] == c);
            if !found {
                let mut m = String::from_str("tool ");
                m.append(tool_name);
                m.append(" requires ");
                m.append(c.name());
                m.append(" which is not granted");
                return Err(AgentError::CommandPolicy(m));
            }
            assert(required@.skip(i as int).skip(1) =~= required@.skip(i + 1));
            i = i + 1;
        }
        Ok(())
    }

    /// Checks that a resolved path lies inside the workspace (canonical form
    /// `ws_canonical`); the error names `path` and this policy's workspace.
    pub fn evaluate_path(&self, resolved: String, ws_canonical: &str, path: &str) -> (r: Result<
        String,
        AgentError,
    >)
        ensures
            starts_with(resolved@, ws_canonical@) ==> r == Ok::<String, AgentError>(resolved),
            !starts_with(resolved@, ws_canonical@) ==> (r matches Err(AgentError::PathPolicy(m))
                && m@ == escape_message(path@, self.spec_workspace())),
    {
        check_within(resolved, ws_canonical, path, self.workspace.as_str())
    }

    /// Decides whether a command may run: the strict level refuses anything
    /// not low-risk, the balanced level refuses high-risk commands, and the
    /// permissive level refuses only device writes and system-directory
    /// changes.
    pub fn evaluate_command(&self, argv: &[String]) -> (r: Result<(), AgentError>)
        ensures
            match command_verdict(self.spec_level(), argv@) {
                Ok(()) => r is Ok,
                Err(msg) => r matches Err(AgentError::CommandPolicy(m)) && m@ == msg,
            },
    {
        let result = match analyze(argv) {
            Ok(res) => res,
            Err(e) => {
                return Err(e);
            },
        };
        if self.level == PolicyLevel::Strict && result.tier != RiskTier::Low {
            let mut m = String::from_str("strict policy blocks tier=");
            m.append(tier_str(result.tier));
            m.append(" command");
            return Err(AgentError::CommandPolicy(m));
        }
        let blocked = if self.level == PolicyLevel::Permissive {
            let cats = result.categories.as_slice();
            contains_str(cats, "device-write") || contains_str(cats, "system-dir")
        } else {
            result.tier == RiskTier::High
        };
        if blocked {
            let mut m = String::from_str("high-risk command blocked: categories=");
            let cats = debug_list_string(result.categories.as_slice());
            m.append(cats.as_str());
            return Err(AgentError::CommandPolicy(m));
        }
        Ok(())
    }

    /// Whether a tool call needs a confirmation first: always at the strict
    /// level, otherwise when the tool says so.
    pub fn needs_confirmation(&self, tool_needs_confirmation: bool) -> (r: Result<bool, AgentError>)
        ensures
            r == Ok::<bool, AgentError>(self.spec_level() == PolicyLevel::Strict
                || tool_needs_confirmation),
    {
        if self.level == PolicyLevel::Strict {
            return Ok(true);
        }
        Ok(tool_needs_confirmation)
    }
}

/// The levels are ordered: a command that the strict level accepts is
/// accepted by the balanced level, and one that the balanced level accepts is
/// accepted by the permissive level.
pub proof fn law_strict_is_strictest(argv: Seq<String>)
    ensures
        command_verdict(PolicyLevel::Strict, argv) is Ok ==> command_verdict(PolicyLevel::Balanced, argv) is Ok,
        command_verdict(PolicyLevel::Balanced, argv) is Ok ==> command_verdict(PolicyLevel::Permissive, argv) is Ok,
{
}

/// The permissive level refuses a command exactly when it writes to a device
/// or changes a system directory.
pub proof fn law_permissive_refuses_only_devices_and_system_dirs(argv: Seq<String>)
    ensures
        command_verdict(PolicyLevel::Permissive, argv) is Err <==> permissive_blocks(
            spec_categories(spec_joined(argv)),
        ),
{
}

/// A command with no high-risk hit is accepted at every level.
pub proof fn law_low_risk_commands_run(level: PolicyLevel, argv: Seq<String>)
    requires
        spec_categories(spec_joined(argv)).len() == 0,
    ensures
        command_verdict(level, argv) is Ok,
{
}

} // verus!
