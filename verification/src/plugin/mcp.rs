//! MCP server configuration (the `mcpServers` block of `plugin.json`) and its
//! transport rules.
//!
//! Parsing the JSON and asking the file system for canonical paths is done by
//! the application; a canonical path that the file system gave is handed in
//! as a pair `(path, canonical path)`, and a path with no such pair is
//! normalized by text alone.

use vstd::prelude::*;

use crate::error::AgentError;
use crate::path::{components, from_comps, join, normalize, normalize_path, path_join, path_starts_with, starts_with};
use crate::text::str_eq;

verus! {

/// MCP transport types.
#[derive(Debug, Clone, Copy, PartialEq, Eq, Structural)]
pub enum McpTransport {
    /// A local process spoken to over stdio.
    Stdio,
    /// Streamable HTTP.
    StreamableHttp,
    /// Server-sent events.
    Sse,
}

/// A single MCP server entry.
#[derive(Debug, Clone)]
pub struct McpServerEntry {
    /// Transport type.
    pub transport: McpTransport,
    /// Command to execute (stdio only).
    pub command: Option<String>,
    /// Command arguments (stdio only).
    pub args: Vec<String>,
    /// Environment variables (stdio only), as name and value.
    pub env: Vec<(String, String)>,
    /// Working directory (stdio only): `./` or within the plugin root.
    pub cwd: Option<String>,
    /// Server URL (streamable-http and sse only).
    pub url: Option<String>,
    /// HTTP headers (streamable-http and sse only).
    pub headers: Vec<String>,
}

/// The MCP servers of a plugin, by name.
#[derive(Debug, Clone)]
pub struct McpConfig {
    /// Named server entries (name, entry); each name once (see [`McpConfig::wf`]).
    pub mcp_servers: Vec<(String, McpServerEntry)>,
}

/// Whether no name occurs twice among the first items of the pairs.
pub open spec fn names_unique<T>(pairs: Seq<(String, T)>) -> bool {
    forall|i: int, j: int| 0 <= i < j < pairs.len() ==> #[trigger] pairs[i].0@ != #[trigger] pairs[j].0@
}

impl McpConfig {
    /// A configuration as read from its JSON object: each server name once,
    /// and each server's environment names each variable once.
    pub open spec fn wf(self) -> bool {
        &&& names_unique(self.mcp_servers@)
        &&& forall|i: int| 0 <= i < self.mcp_servers@.len() ==> names_unique(
            (#[trigger] self.mcp_servers@[i]).1.env@,
        )
    }
}

/// The transport's name as `Debug` prints it.
pub open spec fn transport_name(t: McpTransport) -> Seq<char> {
    match t {
        McpTransport::Stdio => "Stdio"@,
        McpTransport::StreamableHttp => "StreamableHttp"@,
        McpTransport::Sse => "Sse"@,
    }
}

/// The canonical path that the file system gave for `p`, if any (the first pair for `p`).
pub open spec fn lookup(table: Seq<(String, String)>, p: Seq<char>) -> Option<Seq<char>>
    decreases table.len(),
{
    if table.len() == 0 {
        None
    } else if table[0].0@ == p {
        Some(table[0].1@)
    } else {
        lookup(table.drop_first(), p)
    }
}

/// The canonical form of `p`: what the file system gave, else `fallback`.
pub open spec fn canonical_or(table: Seq<(String, String)>, p: Seq<char>, fallback: Seq<char>) -> Seq<
    char,
> {
    match lookup(table, p) {
        Some(c) => c,
        None => fallback,
    }
}

/// Whether a working directory leaves the plugin root: `./` never does; any
/// other is joined to the root, canonicalized (or else normalized by text) and
/// must have the canonical root as a component-wise prefix.
pub open spec fn cwd_escapes(cwd: Seq<char>, root: Seq<char>, table: Seq<(String, String)>) -> bool {
    let resolved = join(root, cwd);
    let normalized = canonical_or(table, resolved, from_comps(normalize(components(resolved))));
    let canonical_root = canonical_or(table, root, root);
    cwd != "./"@ && !starts_with(normalized, canonical_root)
}

/// Whether an environment sets `PLUGIN_ROOT` or `PLUGIN_DATA`.
pub open spec fn has_reserved_env(env: Seq<(String, String)>) -> bool {
    exists|i: int|
        0 <= i < env.len() && (#[trigger] env[i].0@ == "PLUGIN_ROOT"@ || env[i].0@ == "PLUGIN_DATA"@)
}

/// The start of every refusal of server `name`.
pub open spec fn server_label(name: Seq<char>) -> Seq<char> {
    "MCP server `"@ + name + "` "@
}

/// Why a server entry is refused, if it is.
pub open spec fn entry_refusal(
    e: McpServerEntry,
    name: Seq<char>,
    root: Seq<char>,
    table: Seq<(String, String)>,
) -> Option<Seq<char>> {
    let label = server_label(name);
    match e.transport {
        McpTransport::Stdio => if e.command is None {
            Some(label + "(stdio) requires a `command`"@)
        } else if e.url is Some {
            Some(label + "(stdio) must not have a `url`"@)
        } else if e.headers@.len() > 0 {
            Some(label + "(stdio) must not have `headers`"@)
        } else if e.cwd is Some && cwd_escapes(e.cwd->0@, root, table) {
            Some(label + "cwd `"@ + e.cwd->0@ + "` escapes plugin root"@)
        } else if has_reserved_env(e.env@) {
            Some(label + "env cannot override `PLUGIN_ROOT` or `PLUGIN_DATA`"@)
        } else {
            None
        },
        _ => {
            let t = "("@ + transport_name(e.transport) + ") "@;
            if e.url is None {
                Some(label + t + "requires a `url`"@)
            } else if e.command is Some {
                Some(label + t + "must not have a `command`"@)
            } else if e.args@.len() > 0 {
                Some(label + t + "must not have `args`"@)
            } else if e.cwd is Some {
                Some(label + t + "must not have `cwd`"@)
            } else if e.env@.len() > 0 {
                Some(label + t + "must not have `env`"@)
            } else {
                None
            }
        },
    }
}

/// The refusal of the first refused server, in list order.
pub open spec fn first_refusal(
    servers: Seq<(String, McpServerEntry)>,
    root: Seq<char>,
    table: Seq<(String, String)>,
) -> Option<Seq<char>>
    decreases servers.len(),
{
    if servers.len() == 0 {
        None
    } else {
        match entry_refusal(servers[0].1, servers[0].0@, root, table) {
            Some(m) => Some(m),
            None => first_refusal(servers.drop_first(), root, table),
        }
    }
}

fn lookup_canonical(table: &[(String, String)], p: &str) -> (r: Option<String>)
    ensures
        match r {
            Some(c) => lookup(table@, p@) == Some(c@),
            None => lookup(table@, p@) is None,
        },
{
    let mut i: usize = 0;
    assert(table@.skip(0) =~= table@);
    while i < table.len()
        invariant
            i <= table@.len(),
            lookup(table@, p@) == lookup(table@.skip(i as int), p@),
        decreases table@.len() - i,
    {
        assert(table@.skip(i as int).drop_first() =~= table@.skip(i + 1));
        if str_eq(table[i].0.as_str(), p) {
            return Some(table[i].1.clone());
        }
        i = i + 1;
    }
    None
}

fn label(name: &str) -> (s: String)
    ensures
        s@ == server_label(name@),
{
    let mut s = String::from_str("MCP server `");
    s.append(name);
    s.append("` ");
    s
}

fn with_transport(name: &str, t: McpTransport) -> (s: String)
    ensures
        s@ == server_label(name@) + "("@ + transport_name(t) + ") "@,
{
    let mut s = label(name);
    s.append("(");
    match t {
        McpTransport::Stdio => s.append("Stdio"),
        McpTransport::StreamableHttp => s.append("StreamableHttp"),
        McpTransport::Sse => s.append("Sse"),
    }
    s.append(") ");
    s
}

fn refuse(mut head: String, tail: &str) -> (r: Result<(), AgentError>)
    ensures
        r matches Err(AgentError::InvalidArguments(m)) && m@ == head@ + tail@,
{
    head.append(tail);
    Err(AgentError::InvalidArguments(head))
}

fn is_reserved(key: &str) -> (b: bool)
    ensures
        b == (key@ == "PLUGIN_ROOT"@ || key@ == "PLUGIN_DATA"@),
{
    str_eq(key, "PLUGIN_ROOT") || str_eq(key, "PLUGIN_DATA")
}

fn any_reserved(env: &Vec<(String, String)>) -> (b: bool)
    ensures
        b == has_reserved_env(env@),
{
    let mut i: usize = 0;
    while i < env.len()
        invariant
            i <= env@.len(),
            forall|j: int| 0 <= j < i ==> !(#[trigger] env@[j].0@ == "PLUGIN_ROOT"@ || env@[j].0@ == "PLUGIN_DATA"@),
        decreases env@.len() - i,
    {
        if is_reserved(env[i].0.as_str()) {
            return true;
        }
        i = i + 1;
    }
    false
}

/// Whether a working directory leaves the plugin root (see [`cwd_escapes`]).
pub fn cwd_escapes_root(cwd: &str, plugin_root: &str, canonical: &[(String, String)]) -> (b: bool)
    ensures
        b == cwd_escapes(cwd@, plugin_root@, canonical@),
{
    if str_eq(cwd, "./") {
        return false;
    }
    let resolved = path_join(plugin_root, cwd);
    let normalized = match lookup_canonical(canonical, resolved.as_str()) {
        Some(c) => c,
        None => normalize_path(resolved.as_str()),
    };
    let root = match lookup_canonical(canonical, plugin_root) {
        Some(c) => c,
        None => String::from_str(plugin_root),
    };
    !path_starts_with(normalized.as_str(), root.as_str())
}

impl McpServerEntry {
    /// Checks the transport's rules: stdio needs a `command`, has no `url`
    /// and no `headers`, keeps its `cwd` inside the plugin root and does not set `PLUGIN_ROOT` or
    /// `PLUGIN_DATA`; the HTTP transports need a `url` and have no `command`,
    /// `args`, `cwd` or `env`. `canonical` holds the canonical paths that the
    /// file system gave.
    pub fn validate(&self, name: &str, plugin_root: &str, canonical: &[(String, String)]) -> (r: Result<
        (),
        AgentError,
    >)
        ensures
            r is Ok <==> entry_refusal(*self, name@, plugin_root@, canonical@) is None,
            r matches Err(e) ==> (e matches AgentError::InvalidArguments(m) && m@ == entry_refusal(
                *self,
                name@,
                plugin_root@,
                canonical@,
            )->0),
    {
        match self.transport {
            McpTransport::Stdio => {
                if self.command.is_none() {
                    return refuse(label(name), "(stdio) requires a `command`");
                }
                if self.url.is_some() {
                    return refuse(label(name), "(stdio) must not have a `url`");
                }
                if self.headers.len() > 0 {
                    return refuse(label(name), "(stdio) must not have `headers`");
                }
                if let Some(cwd) = &self.cwd {
                    if cwd_escapes_root(cwd.as_str(), plugin_root, canonical) {
                        let mut head = label(name);
                        head.append("cwd `");
                        head.append(cwd.as_str());
                        return refuse(head, "` escapes plugin root");
                    }
                }
                if any_reserved(&self.env) {
                    return refuse(label(name), "env cannot override `PLUGIN_ROOT` or `PLUGIN_DATA`");
                }
                Ok(())
            },
            t => {
                if self.url.is_none() {
                    return refuse(with_transport(name, t), "requires a `url`");
                }
                if self.command.is_some() {
                    return refuse(with_transport(name, t), "must not have a `command`");
                }
                if self.args.len() > 0 {
                    return refuse(with_transport(name, t), "must not have `args`");
                }
                if self.cwd.is_some() {
                    return refuse(with_transport(name, t), "must not have `cwd`");
                }
                if self.env.len() > 0 {
                    return refuse(with_transport(name, t), "must not have `env`");
                }
                Ok(())
            },
        }
    }
}

impl McpConfig {
    /// Checks every server entry; the refusal is that of the first refused
    /// server in list order.
    pub fn validate(&self, plugin_root: &str, canonical: &[(String, String)]) -> (r: Result<(), AgentError>)
        requires
            self.wf(),
        ensures
            r is Ok <==> first_refusal(self.mcp_servers@, plugin_root@, canonical@) is None,
            r matches Err(e) ==> (e matches AgentError::InvalidArguments(m) && m@ == first_refusal(
                self.mcp_servers@,
                plugin_root@,
                canonical@,
            )->0),
    {
        let ghost s = self.mcp_servers@;
        let mut i: usize = 0;
        assert(s.skip(0) =~= s);
        while i < self.mcp_servers.len()
            invariant
                s == self.mcp_servers@,
                i <= s.len(),
                first_refusal(s, plugin_root@, canonical@) == first_refusal(
                    s.skip(i as int),
                    plugin_root@,
                    canonical@,
                ),
            decreases s.len() - i,
        {
            assert(s.skip(i as int).drop_first() =~= s.skip(i + 1));
            let (name, entry) = &self.mcp_servers[i];
            match entry.validate(name.as_str(), plugin_root, canonical) {
                Err(e) => {
                    return Err(e);
                },
                Ok(()) => {},
            }
            i = i + 1;
        }
        Ok(())
    }

    /// The names of all servers, in list order; each once.
    pub fn server_names(&self) -> (r: Vec<&str>)
        requires
            self.wf(),
        ensures
            forall|i: int, j: int| 0 <= i < j < r@.len() ==> (#[trigger] r@[i])@ != (#[trigger] r@[j])@,
            r@.len() == self.mcp_servers@.len(),
            forall|i: int| 0 <= i < r@.len() ==> #[trigger] r@[i]@ == self.mcp_servers@[i].0@,
    {
        let mut r: Vec<&str> = Vec::new();
        let mut i: usize = 0;
        while i < self.mcp_servers.len()
            invariant
                i <= self.mcp_servers@.len(),
                r@.len() == i,
                forall|j: int| 0 <= j < i ==> #[trigger] r@[j]@ == self.mcp_servers@[j].0@,
            decreases self.mcp_servers@.len() - i,
        {
            r.push(self.mcp_servers[i].0.as_str());
            i = i + 1;
        }
        r
    }
}

/// A configuration is accepted exactly when every one of its servers is.
pub proof fn law_config_accepted_iff_every_server_is(
    servers: Seq<(String, McpServerEntry)>,
    root: Seq<char>,
    table: Seq<(String, String)>,
)
    ensures
        first_refusal(servers, root, table) is None <==> forall|i: int|
            0 <= i < servers.len() ==> (#[trigger] entry_refusal(servers[i].1, servers[i].0@, root, table)) is None,
    decreases servers.len(),
{
    if servers.len() > 0 {
        let rest = servers.drop_first();
        law_config_accepted_iff_every_server_is(rest, root, table);
        if first_refusal(servers, root, table) is None {
            assert forall|i: int| 0 <= i < servers.len() implies (#[trigger] entry_refusal(
                servers[i].1,
                servers[i].0@,
                root,
                table,
            )) is None by {
                if i > 0 {
                    assert(servers[i] == rest[i - 1]);
                }
            }
        } else {
            if entry_refusal(servers[0].1, servers[0].0@, root, table) is None {
                let j = choose|j: int| 0 <= j < rest.len() && !(entry_refusal(rest[j].1, rest[j].0@, root, table) is None);
                assert(servers[j + 1] == rest[j]);
            }
        }
    }
}

/// A stdio server whose working directory is `./` never leaves the plugin root.
pub proof fn law_dot_slash_cwd_stays_inside(root: Seq<char>, table: Seq<(String, String)>)
    ensures
        !cwd_escapes("./"@, root, table),
{
}

} // verus!
