use aura::error::AgentError;
use aura::tools::files::{check_under, lines_of, refuse_sensitive};
use aura::tools::{FindFilesTool, GrepFilesTool, ListDirTool, ReadFileTool, RunCommandTool, WriteFileTool};

#[test]
fn sensitive_paths_are_refused() {
    assert_eq!(
        refuse_sensitive("/ws/.env").unwrap_err(),
        AgentError::PathPolicy("sensitive path refused: /ws/.env".into())
    );
    assert!(refuse_sensitive("/ws/keys/server.pem").is_err());
    assert!(refuse_sensitive("/ws/src/main.rs").is_ok());
}

#[test]
fn search_roots_stay_under_the_workspace() {
    assert_eq!(check_under("/ws/src".into(), "/ws", "path"), Ok("/ws/src".to_string()));
    assert_eq!(
        check_under("/etc".into(), "/ws", "working_directory").unwrap_err(),
        AgentError::PathPolicy("working_directory /etc escapes workspace".into())
    );
    assert!(check_under("/wsx/a".into(), "/ws", "path").is_err());
}

#[test]
fn read_file_size_limit() {
    let tool = ReadFileTool::new();
    assert!(tool.check_size("/ws/a", 1_000_000).is_ok());
    assert_eq!(
        tool.check_size("/ws/a", 1_000_001).unwrap_err(),
        AgentError::Context("file /ws/a exceeds 1000000 bytes".into())
    );
}

#[test]
fn read_file_output_and_refusals() {
    let tool = ReadFileTool::new();
    let o = tool.file_output("/ws/a.txt", "héllo\n".as_bytes()).unwrap();
    assert!(o.success);
    assert_eq!(o.content, "File: /ws/a.txt\n\nhéllo\n");
    assert_eq!(
        tool.file_output("/ws/b.bin", &[104, 0, 105]).unwrap_err(),
        AgentError::Context("binary file /ws/b.bin not readable as text".into())
    );
    assert_eq!(
        tool.file_output("/ws/c.txt", &[0xff, 0xfe]).unwrap_err(),
        AgentError::Context("/ws/c.txt is not valid UTF-8".into())
    );
}

#[test]
fn write_file_limit_and_reply() {
    let tool = WriteFileTool::new();
    assert!(tool.check_content("é").is_ok());
    let o = tool.written("/ws/x.txt", "héllo");
    assert!(o.success);
    assert_eq!(o.content, "Written 6 bytes to /ws/x.txt");
    let big = "a".repeat(tool.max_bytes + 1);
    assert_eq!(
        tool.check_content(&big).unwrap_err(),
        AgentError::Context(format!("content exceeds {} bytes", tool.max_bytes))
    );
}

#[test]
fn list_dir_sorts_pads_and_hides() {
    let tool = ListDirTool::new();
    let entries = vec![
        ("src".to_string(), true),
        (".git".to_string(), true),
        ("Cargo.toml".to_string(), false),
    ];
    let o = tool.listing("/ws", &entries);
    assert!(o.success);
    let expected = format!("/ws\n{:<40} [file]\n{:<40} [dir]", "Cargo.toml", "src");
    assert_eq!(o.content, expected);
    let o = tool.listing("/ws/empty", &[(".hidden".to_string(), false)]);
    assert_eq!(o.content, "(empty directory: /ws/empty)");
}

#[test]
fn find_files_matching_and_reply() {
    let tool = FindFilesTool::new();
    assert!(tool.matches("Main.RS", "main"));
    assert!(!tool.matches("lib.rs", "main"));
    let o = tool.found_output("main", "/ws", &[]);
    assert_eq!(o.content, "No files matching 'main' under /ws");
    let o = tool.found_output("main", "/ws", &["src/main.rs".to_string(), "b/main.c".to_string()]);
    assert_eq!(o.content, "Found 2 files:\n\nsrc/main.rs\nb/main.c");
}

#[test]
fn lines_follow_str_lines() {
    for text in ["", "a", "a\n", "a\r\nb", "a\n\nb\r", "\n", "x\ry\n\r\n"] {
        let got = lines_of(text);
        let want: Vec<String> = text.lines().map(String::from).collect();
        assert_eq!(got, want, "text {text:?}");
    }
}

#[test]
fn grep_scans_lines_up_to_the_limit() {
    let mut tool = GrepFilesTool::new();
    let mut results = Vec::new();
    tool.scan_file("/ws/a.rs", "fn Main() {}\nlet x = 1;\nmain();\n", "main", &mut results);
    assert_eq!(results, vec!["/ws/a.rs:1:fn Main() {}".to_string(), "/ws/a.rs:3:main();".to_string()]);
    tool.max_lines = 3;
    tool.scan_file("/ws/b.rs", "main\nmain\nmain\n", "main", &mut results);
    assert_eq!(results.len(), 3);
    assert_eq!(results[2], "/ws/b.rs:1:main");
    let o = tool.found_output("main", "/ws", &results);
    assert!(o.content.starts_with("Found 3 matches:\n\n/ws/a.rs:1:fn Main() {}\n"));
    assert_eq!(tool.found_output("zzz", "/ws", &[]).content, "No matches for 'zzz' under /ws");
}

#[test]
fn high_risk_commands_are_blocked() {
    let tool = RunCommandTool::new();
    let argv = vec!["rm".to_string(), "-rf".to_string(), "/".to_string()];
    let e = tool.precheck(&argv).unwrap_err();
    match e {
        AgentError::CommandPolicy(m) => assert!(m.starts_with("high-risk command blocked: categories=[\""), "{m}"),
        other => panic!("unexpected {other:?}"),
    }
    assert!(tool.precheck(&["ls".to_string(), "-la".to_string()]).is_ok());
}
