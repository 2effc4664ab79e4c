use aura::plugin::lifecycle::{PluginLifecycle, PluginState};
use aura::plugin::manifest::{is_valid_plugin_name, Author, PluginManifest};
use aura::plugin::mcp::{McpConfig, McpServerEntry, McpTransport};
use aura::plugin::resolver::{parse_skill_frontmatter, PluginResolver};

fn manifest(name: &str, version: &str) -> PluginManifest {
    PluginManifest {
        name: name.to_string(),
        version: version.to_string(),
        description: "test".to_string(),
        author: None,
        homepage: None,
        repository: None,
        license: None,
        keywords: Vec::new(),
    }
}

#[test]
fn test_install_and_list() {
    let mut lifecycle = PluginLifecycle::new();
    lifecycle.install(manifest("test-plugin", "1.0.0"), "/tmp/p".to_string()).unwrap();
    assert!(lifecycle.is_installed("test-plugin"));
    assert!(lifecycle.is_enabled("test-plugin"));
    let list = lifecycle.list();
    assert_eq!(list.len(), 1);
    assert_eq!(list[0].0, "test-plugin");
    assert_eq!(list[0].1, PluginState::Enabled);
}

#[test]
fn test_install_duplicate_fails() {
    let mut lifecycle = PluginLifecycle::new();
    lifecycle.install(manifest("dup-plugin", "1.0.0"), "/tmp/a".to_string()).unwrap();
    let result = lifecycle.install(manifest("dup-plugin", "1.0.0"), "/tmp/b".to_string());
    assert!(result.is_err());
}

#[test]
fn test_uninstall() {
    let mut lifecycle = PluginLifecycle::new();
    lifecycle.install(manifest("removable", "1.0.0"), "/tmp/r".to_string()).unwrap();
    assert!(lifecycle.is_installed("removable"));
    lifecycle.uninstall("removable").unwrap();
    assert!(!lifecycle.is_installed("removable"));
    assert_eq!(lifecycle.state("removable"), PluginState::NotInstalled);
}

#[test]
fn test_uninstall_not_installed_fails() {
    let mut lifecycle = PluginLifecycle::new();
    let result = lifecycle.uninstall("nonexistent");
    assert!(result.is_err());
}

#[test]
fn test_enable_disable() {
    let mut lifecycle = PluginLifecycle::new();
    lifecycle.install(manifest("toggle", "1.0.0"), "/tmp/t".to_string()).unwrap();
    assert!(lifecycle.is_enabled("toggle"));
    lifecycle.disable("toggle").unwrap();
    assert!(!lifecycle.is_enabled("toggle"));
    assert_eq!(lifecycle.state("toggle"), PluginState::Disabled);
    lifecycle.enable("toggle").unwrap();
    assert!(lifecycle.is_enabled("toggle"));
}

#[test]
fn test_enable_already_enabled_fails() {
    let mut lifecycle = PluginLifecycle::new();
    lifecycle.install(manifest("on-plugin", "1.0.0"), "/tmp/on".to_string()).unwrap();
    assert!(lifecycle.enable("on-plugin").is_err());
}

#[test]
fn test_disable_already_disabled_fails() {
    let mut lifecycle = PluginLifecycle::new();
    lifecycle.install(manifest("off-plugin", "1.0.0"), "/tmp/off".to_string()).unwrap();
    lifecycle.disable("off-plugin").unwrap();
    assert!(lifecycle.disable("off-plugin").is_err());
}

#[test]
fn test_state_not_installed() {
    let lifecycle = PluginLifecycle::new();
    assert_eq!(lifecycle.state("ghost"), PluginState::NotInstalled);
}

#[test]
fn test_manifest_retrieval() {
    let mut lifecycle = PluginLifecycle::new();
    lifecycle.install(manifest("manifest-test", "1.0.0"), "/tmp/m".to_string()).unwrap();
    let m = lifecycle.manifest("manifest-test").unwrap();
    assert_eq!(m.name, "manifest-test");
    assert_eq!(m.version, "1.0.0");
    assert_eq!(lifecycle.install_path("manifest-test").map(|p| p.as_str()), Some("/tmp/m"));
}

#[test]
fn install_then_uninstall_leaves_nothing() {
    let mut lifecycle = PluginLifecycle::new();
    lifecycle.install(manifest("beta", "1.0.0"), "/tmp/b".to_string()).unwrap();
    lifecycle.install(manifest("alpha", "2.0.0"), "/tmp/a".to_string()).unwrap();
    let names: Vec<String> = lifecycle.list().into_iter().map(|t| t.0).collect();
    assert_eq!(names, vec!["alpha", "beta"]);
    lifecycle.uninstall("alpha").unwrap();
    let names: Vec<String> = lifecycle.list().into_iter().map(|t| t.0).collect();
    assert_eq!(names, vec!["beta"]);
}

#[test]
fn install_invalid_manifest_is_refused() {
    let mut lifecycle = PluginLifecycle::new();
    assert!(lifecycle.install(manifest("Bad", "1.0.0"), "/tmp/x".to_string()).is_err());
    assert!(!lifecycle.is_installed("Bad"));
}

#[test]
fn test_parse_valid_manifest() {
    let m = PluginManifest {
        name: "my-plugin".to_string(),
        version: "1.0.0".to_string(),
        description: "A test plugin".to_string(),
        author: Some(Author { name: "Test".into(), email: Some("test@example.com".into()), url: None }),
        homepage: None,
        repository: None,
        license: Some("MIT".into()),
        keywords: vec!["coding".into(), "rust".into()],
    };
    assert!(m.validate().is_ok());
    assert_eq!(m.license.as_deref(), Some("MIT"));
}

#[test]
fn test_name_validation_valid() {
    for name in &["my-plugin", "foo", "a", "a1", "my.plugin", "a-b-c"] {
        assert!(is_valid_plugin_name(name), "name `{name}` should be valid");
        assert!(manifest(name, "1.0.0").validate().is_ok());
    }
}

#[test]
fn test_name_validation_invalid() {
    for name in &["--foo", "foo--bar", "..foo", "foo..bar", "-foo", "foo-", "Foo", "UPPER", ""] {
        assert!(!is_valid_plugin_name(name), "name `{name}` should be invalid");
        assert!(manifest(name, "1.0.0").validate().is_err());
    }
}

#[test]
fn test_version_empty_rejected() {
    assert!(manifest("valid", "").validate().is_err());
}

fn stdio(command: Option<&str>) -> McpServerEntry {
    McpServerEntry {
        transport: McpTransport::Stdio,
        command: command.map(String::from),
        args: Vec::new(),
        env: Vec::new(),
        cwd: None,
        url: None,
        headers: Vec::new(),
    }
}

fn http(transport: McpTransport, url: Option<&str>) -> McpServerEntry {
    McpServerEntry {
        transport,
        command: None,
        args: Vec::new(),
        env: Vec::new(),
        cwd: None,
        url: url.map(String::from),
        headers: Vec::new(),
    }
}

fn config(entries: Vec<(&str, McpServerEntry)>) -> McpConfig {
    McpConfig { mcp_servers: entries.into_iter().map(|(n, e)| (n.to_string(), e)).collect() }
}

#[test]
fn test_stdio_requires_command() {
    let cfg = config(vec![("bad", stdio(None))]);
    let err = cfg.validate("/tmp/plugin", &[]).unwrap_err();
    assert_eq!(
        err,
        aura::error::AgentError::InvalidArguments("MCP server `bad` (stdio) requires a `command`".into())
    );
}

#[test]
fn test_stdio_rejects_url() {
    let mut e = stdio(Some("foo"));
    e.url = Some("http://x".into());
    assert!(config(vec![("bad", e)]).validate("/tmp/plugin", &[]).is_err());
}

#[test]
fn stdio_rejects_headers() {
    let mut e = stdio(Some("foo"));
    e.headers = vec!["Authorization: Bearer x".into()];
    assert_eq!(
        config(vec![("bad", e)]).validate("/tmp/plugin", &[]).unwrap_err(),
        aura::error::AgentError::InvalidArguments("MCP server `bad` (stdio) must not have `headers`".into())
    );
}

#[test]
fn test_stdio_rejects_plugin_root_env() {
    let mut e = stdio(Some("foo"));
    e.env = vec![("PLUGIN_ROOT".into(), "/escaped".into())];
    assert!(config(vec![("evil", e)]).validate("/tmp/plugin", &[]).is_err());
}

#[test]
fn test_stdio_rejects_plugin_data_env() {
    let mut e = stdio(Some("foo"));
    e.env = vec![("PLUGIN_DATA".into(), "/escaped".into())];
    assert!(config(vec![("evil", e)]).validate("/tmp/plugin", &[]).is_err());
}

#[test]
fn test_stdio_cwd_escapes_root() {
    let mut e = stdio(Some("foo"));
    e.cwd = Some("../../etc".into());
    let err = config(vec![("bad", e)]).validate("/tmp/plugin", &[]).unwrap_err();
    assert_eq!(
        err,
        aura::error::AgentError::InvalidArguments("MCP server `bad` cwd `../../etc` escapes plugin root".into())
    );
}

#[test]
fn stdio_cwd_inside_root_is_accepted() {
    let mut e = stdio(Some("foo"));
    e.cwd = Some("./subdir/../lib".into());
    assert!(config(vec![("good", e)]).validate("/tmp/plugin", &[]).is_ok());
}

#[test]
fn cwd_uses_canonical_paths_when_given() {
    let mut e = stdio(Some("foo"));
    e.cwd = Some("link".into());
    let canonical = vec![("/tmp/plugin/link".to_string(), "/elsewhere".to_string())];
    assert!(config(vec![("bad", e)]).validate("/tmp/plugin", &canonical).is_err());
}

#[test]
fn test_http_requires_url() {
    let err = config(vec![("bad", http(McpTransport::StreamableHttp, None))])
        .validate("/tmp/plugin", &[])
        .unwrap_err();
    assert_eq!(
        err,
        aura::error::AgentError::InvalidArguments("MCP server `bad` (StreamableHttp) requires a `url`".into())
    );
}

#[test]
fn test_http_rejects_command() {
    let mut e = http(McpTransport::StreamableHttp, Some("http://x"));
    e.command = Some("foo".into());
    assert!(config(vec![("bad", e)]).validate("/tmp/plugin", &[]).is_err());
}

#[test]
fn test_http_rejects_cwd() {
    let mut e = http(McpTransport::Sse, Some("http://x"));
    e.cwd = Some("./".into());
    let err = config(vec![("bad", e)]).validate("/tmp/plugin", &[]).unwrap_err();
    assert_eq!(
        err,
        aura::error::AgentError::InvalidArguments("MCP server `bad` (Sse) must not have `cwd`".into())
    );
}

#[test]
fn test_http_rejects_env() {
    let mut e = http(McpTransport::Sse, Some("http://x"));
    e.env = vec![("FOO".into(), "bar".into())];
    assert!(config(vec![("bad", e)]).validate("/tmp/plugin", &[]).is_err());
}

#[test]
fn test_valid_stdio_config() {
    let mut e = stdio(Some("npx"));
    e.args = vec!["-y".into(), "server".into()];
    e.env = vec![("PATH".into(), "/usr/bin".into())];
    e.cwd = Some("./".into());
    assert!(config(vec![("good", e)]).validate("/tmp/plugin", &[]).is_ok());
}

#[test]
fn test_valid_http_config() {
    let mut e = http(McpTransport::StreamableHttp, Some("http://localhost:8080/mcp"));
    e.headers = vec!["Auth: Bearer xxx".into()];
    assert!(config(vec![("good", e)]).validate("/tmp/plugin", &[]).is_ok());
}

#[test]
fn test_server_names() {
    let cfg = config(vec![("alpha", stdio(Some("a"))), ("beta", http(McpTransport::Sse, Some("http://b")))]);
    let mut names = cfg.server_names();
    names.sort_unstable();
    assert_eq!(names, vec!["alpha", "beta"]);
}

#[test]
fn test_empty_mcp_servers() {
    let cfg = config(Vec::new());
    assert!(cfg.mcp_servers.is_empty());
    assert!(cfg.validate("/tmp/plugin", &[]).is_ok());
}

#[test]
fn test_parse_skill_frontmatter_valid() {
    let content = "---\nname: test-skill\ndescription: Does testing\n---\n\nBody here";
    let (name, desc) = parse_skill_frontmatter(content);
    assert_eq!(name, "test-skill");
    assert_eq!(desc, "Does testing");
}

#[test]
fn test_parse_skill_frontmatter_no_frontmatter() {
    let content = "# Just a heading\nNo frontmatter here.";
    let (name, desc) = parse_skill_frontmatter(content);
    assert_eq!(name, "unnamed-skill");
    assert!(desc.is_empty());
}

#[test]
fn test_parse_skill_frontmatter_missing_name() {
    let content = "---\ndescription: No name here\n---\n";
    let (name, desc) = parse_skill_frontmatter(content);
    assert_eq!(name, "unnamed-skill");
    assert_eq!(desc, "No name here");
}

#[test]
fn frontmatter_with_crlf_and_unclosed_block() {
    let (name, desc) = parse_skill_frontmatter("  \r\n---\r\nname:  spaced \r\ndescription: d: e\r\n---");
    assert_eq!(name, "spaced");
    assert_eq!(desc, "d: e");
    let (name, desc) = parse_skill_frontmatter("---\nname: open\n");
    assert_eq!(name, "unnamed-skill");
    assert_eq!(desc, "");
}

#[test]
fn skills_are_sorted_by_name() {
    let resolver = PluginResolver::new();
    let found = vec![
        ("/p/skills/b/SKILL.md".to_string(), "---\nname: beta\ndescription: second\n---\n".to_string()),
        ("/p/skills/a/SKILL.md".to_string(), "---\nname: alpha\ndescription: first\n---\n".to_string()),
        ("/p/skills/c/SKILL.md".to_string(), "# No frontmatter\n".to_string()),
    ];
    let skills = resolver.collect_skills(found);
    let names: Vec<&str> = skills.iter().map(|s| s.name.as_str()).collect();
    assert_eq!(names, vec!["alpha", "beta", "unnamed-skill"]);
    assert_eq!(skills[0].path, "/p/skills/a/SKILL.md");
    assert_eq!(skills[0].description, "first");
}

#[test]
fn plugin_dirs_are_sorted() {
    let resolver = PluginResolver::new();
    let dirs = resolver.order_plugins(vec!["/x/plugin-b".into(), "/x/plugin-a".into()]);
    assert_eq!(dirs, vec!["/x/plugin-a", "/x/plugin-b"]);
}

#[test]
fn no_skill_files_give_no_skills() {
    let resolver = PluginResolver::new();
    assert!(resolver.collect_skills(Vec::new()).is_empty());
}

#[test]
fn no_plugin_dirs_give_none() {
    let resolver = PluginResolver::new();
    assert!(resolver.order_plugins(Vec::new()).is_empty());
}

#[test]
fn test_stdio_cwd_within_root() {
    let mut e = stdio(Some("foo"));
    e.cwd = Some("./subdir".into());
    let canonical = vec![
        ("/tmp/plugin".to_string(), "/private/tmp/plugin".to_string()),
        ("/tmp/plugin/./subdir".to_string(), "/private/tmp/plugin/subdir".to_string()),
    ];
    assert!(config(vec![("good", e)]).validate("/tmp/plugin", &canonical).is_ok());
}
