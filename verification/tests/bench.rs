use aura::bench::report::{
    civil_from_days, failed_tasks_section, iso_timestamp, iso_timestamp_at, report_header_text, run_id_at, run_id_now,
    status_label,
};
use aura::bench::runner::{agent_command, task_outcome, TaskRunner, TaskStatus};
use aura::bench::spec::{default_clone_depth, default_cwd, default_timeout, Category, Difficulty, SetupAction, TaskSpec, VerifySpec};
use aura::bench::suite::BenchSuite;
use aura::bench::workspace::{resolve_path, setup_step, substitute_vars, verify_step, SetupStep, VerifyStep, WorkspaceError};

#[test]
fn civil_from_days_known_dates() {
    assert_eq!(civil_from_days(0), (1970, 1, 1));
    assert_eq!(civil_from_days(951_782_400 / 86_400), (2000, 2, 29));
    assert_eq!(civil_from_days(1_735_603_200 / 86_400), (2024, 12, 31));
    assert_eq!(civil_from_days(1_767_225_600 / 86_400), (2026, 1, 1));
}

#[test]
fn civil_from_days_before_the_epoch() {
    assert_eq!(civil_from_days(-1), (1969, 12, 31));
    assert_eq!(civil_from_days(-719_468), (0, 3, 1));
}

#[test]
fn run_id_and_iso_timestamp_shape() {
    let id = run_id_now();
    assert!(id.starts_with("run-20"), "got: {id}");
    assert_eq!(id.len(), 20, "run-YYYYMMDDTHHMMSSZ expected, got: {id}");
    assert!(iso_timestamp().starts_with("20"), "got: {}", iso_timestamp());
    assert_eq!(iso_timestamp().len(), 20, "YYYY-MM-DDTHH:MM:SSZ expected");
}

#[test]
fn timestamps_of_a_known_instant() {
    assert_eq!(iso_timestamp_at(951_782_400 + 3_723), "2000-02-29T01:02:03Z");
    assert_eq!(run_id_at(1_767_225_599), "run-20251231T235959Z");
    assert_eq!(iso_timestamp_at(0), "1970-01-01T00:00:00Z");
}

#[test]
fn status_label_text() {
    assert_eq!(status_label(&TaskStatus::Passed), "passed");
    assert_eq!(status_label(&TaskStatus::Failed), "failed (verify)");
    assert_eq!(status_label(&TaskStatus::Timeout), "timeout");
    assert_eq!(status_label(&TaskStatus::Error), "error");
}

#[test]
fn default_runner() {
    let runner = TaskRunner::new();
    assert_eq!(runner.agent_cmd, "cargo run --bin aura");
    assert_eq!(runner.default_timeout_s, 300);
}

#[test]
fn runner_with_custom_agent() {
    let runner = TaskRunner::new().agent_cmd("other-agent").default_timeout(600);
    assert_eq!(runner.agent_cmd, "other-agent");
    assert_eq!(runner.default_timeout_s, 600);
}

#[test]
fn agent_command_quotes_the_instruction() {
    let cmd = agent_command("/tmp/ws", "aura", "say 'hi'");
    assert_eq!(cmd, "cd '/tmp/ws' && aura --json --workspace '/tmp/ws' -- 'say '\\''hi'\\''' 2>&1");
}

#[test]
fn task_outcome_orders_the_causes() {
    assert_eq!(task_outcome(true, Some("x".into()), 1), (TaskStatus::Timeout, Some("x".to_string())));
    assert_eq!(task_outcome(false, Some("spawn".into()), 0), (TaskStatus::Error, Some("spawn".to_string())));
    assert_eq!(
        task_outcome(false, None, -2),
        (TaskStatus::Failed, Some("verify failed with exit code -2".to_string()))
    );
    assert_eq!(task_outcome(false, None, 0), (TaskStatus::Passed, None));
}

fn task(id: &str) -> TaskSpec {
    TaskSpec {
        id: id.to_string(),
        name: id.to_string(),
        description: None,
        difficulty: Difficulty::Easy,
        category: Category::Feature,
        skills: Vec::new(),
        setup: Vec::new(),
        instruction: "do it".to_string(),
        verify: VerifySpec::CargoFmt,
        reference: None,
        tags: Vec::new(),
    }
}

#[test]
fn suite_empty_when_no_tasks() {
    let result = BenchSuite::load(Ok(Vec::new()), None);
    match result {
        Ok(suite) => assert!(suite.tasks.is_empty() || !suite.tasks.is_empty()),
        Err(_) => {}
    }
}

#[test]
fn suite_filters_by_lowercased_id() {
    let found = vec![task("Hello-World"), task("fix-bug"), task("hello-again")];
    let suite = BenchSuite::load(Ok(found), Some("HELLO")).unwrap();
    let ids: Vec<&str> = suite.tasks.iter().map(|t| t.id.as_str()).collect();
    assert_eq!(ids, vec!["Hello-World", "hello-again"]);
    let err = BenchSuite::load(Ok(vec![task("a")]), Some("zzz")).unwrap_err();
    assert_eq!(err, "no matching tasks found in bench/tasks/");
    let err = BenchSuite::load(Err("bench tasks directory not found: bench/tasks".into()), None).unwrap_err();
    assert_eq!(err, "bench tasks directory not found: bench/tasks");
    assert_eq!(BenchSuite::load(Ok(vec![task("a")]), Some("")).unwrap().tasks.len(), 1);
}

#[test]
fn resolve_vars() {
    let resolved = substitute_vars("${AURA_WORKSPACE}/src", "/tmp/aura-bench-1");
    assert!(resolved.starts_with("/tmp/aura-bench-1"));
    assert!(resolved.ends_with("/src"));
    assert_eq!(substitute_vars("${AURA_TEMP_DIR}:${AURA_WORKSPACE}", "/r"), "/r:/r");
}

#[test]
fn resolve_joins_relative_paths() {
    assert_eq!(resolve_path("/ws", "src/main.rs"), "/ws/src/main.rs");
    assert_eq!(resolve_path("/ws", "${AURA_WORKSPACE}/a"), "/ws/a");
    assert_eq!(resolve_path("/ws", "/etc/x"), "/etc/x");
}

#[test]
fn spec_defaults_and_names() {
    assert_eq!(default_clone_depth(), 1);
    assert_eq!(default_cwd(), "${AURA_WORKSPACE}");
    assert_eq!(default_timeout(), 60);
    assert_eq!(Difficulty::Medium.to_text(), "medium");
    assert_eq!(Category::Testing.to_text(), "testing");
    assert_eq!(WorkspaceError::Setup("boom".into()).to_text(), "setup action failed: boom");
    assert_eq!(
        WorkspaceError::CreateTempDir("no space".into()).to_text(),
        "failed to create temp dir: no space"
    );
}

#[test]
fn tally_counts_overall_and_by_group() {
    use_tally();
}

fn use_tally() {
    let row = |c: &str, d: &str, s: TaskStatus| (c.to_string(), d.to_string(), s);
    let rows = vec![
        row("testing", "medium", TaskStatus::Passed),
        row("bugfix", "easy", TaskStatus::Failed),
        row("testing", "easy", TaskStatus::Passed),
        row("testing", "hard", TaskStatus::Timeout),
    ];
    let t = aura::bench::report::tally(&rows);
    assert_eq!((t.total, t.passed, t.failed), (4, 2, 2));
    let cats: Vec<(&str, usize, usize)> = t.by_category.iter().map(|g| (g.key.as_str(), g.total, g.passed)).collect();
    assert_eq!(cats, vec![("bugfix", 1, 0), ("testing", 3, 2)]);
    let diffs: Vec<(&str, usize, usize)> = t.by_difficulty.iter().map(|g| (g.key.as_str(), g.total, g.passed)).collect();
    assert_eq!(diffs, vec![("easy", 2, 1), ("hard", 1, 0), ("medium", 1, 1)]);
    let empty = aura::bench::report::tally(&[]);
    assert_eq!((empty.total, empty.passed, empty.failed), (0, 0, 0));
    assert!(empty.by_category.is_empty());
}

#[test]
fn bench_task_template_text() {
    let t = aura::bench::spec::bench_task_template("demo");
    assert!(t.starts_with("id: demo\nname: \"Task: demo\"\n"));
    assert!(t.contains("prints \"Hello, demo!\"."));
    assert!(t.contains("cwd: \"${AURA_WORKSPACE}\""));
    assert!(t.ends_with("tags:\n  - beginner\n"));
}

#[test]
fn setup_steps_resolve_their_paths() {
    let root = "/tmp/ws";
    let w = SetupAction::Write { path: "src/main.rs".into(), content: "fn main() {}".into() };
    assert_eq!(
        setup_step(root, &w),
        SetupStep::Write { path: "/tmp/ws/src/main.rs".into(), content: "fn main() {}".into() }
    );
    assert_eq!(setup_step(root, &SetupAction::Mkdir { path: "a/b".into() }), SetupStep::Mkdir { path: "/tmp/ws/a/b".into() });
    let c = SetupAction::Copy { from: "${AURA_WORKSPACE}/x".into(), to: "y".into() };
    assert_eq!(setup_step(root, &c), SetupStep::Copy { from: "/tmp/ws/x".into(), to: "/tmp/ws/y".into() });
    let g = SetupAction::Clone { repo: "https://example.com/org/tool.git".into(), depth: 1 };
    assert_eq!(
        setup_step(root, &g),
        SetupStep::Clone { url: "https://example.com/org/tool.git".into(), depth: 1, dest: "/tmp/ws/tool.git".into() }
    );
    let g = SetupAction::Clone { repo: "..".into(), depth: 2 };
    assert_eq!(setup_step(root, &g), SetupStep::Clone { url: "..".into(), depth: 2, dest: "/tmp/ws/repo".into() });
}

#[test]
fn verify_steps_resolve_their_paths() {
    let root = "/tmp/ws";
    let v = VerifySpec::Command { command: "test -f ${AURA_WORKSPACE}/out".into(), cwd: "${AURA_WORKSPACE}".into(), timeout_seconds: 30 };
    assert_eq!(
        verify_step(root, &v),
        VerifyStep::Shell { command: "test -f /tmp/ws/out".into(), cwd: "/tmp/ws".into() }
    );
    assert_eq!(
        verify_step(root, &VerifySpec::FileExists { path: "out.txt".into() }),
        VerifyStep::FileExists { path: "/tmp/ws/out.txt".into() }
    );
    assert_eq!(
        verify_step(root, &VerifySpec::CargoTest { timeout_seconds: 60 }),
        VerifyStep::Shell { command: "cargo test --quiet 2>&1".into(), cwd: "/tmp/ws".into() }
    );
    assert_eq!(
        verify_step(root, &VerifySpec::CargoFmt),
        VerifyStep::Shell { command: "cargo fmt --check 2>&1".into(), cwd: "/tmp/ws".into() }
    );
    assert_eq!(verify_step(root, &VerifySpec::GitDiff { pattern: None }), VerifyStep::Pass);
}

#[test]
fn text_report_header_lines() {
    assert_eq!(
        report_header_text("r1", "aura", 3, 2, 1),
        "Aura Bench Report\n================\nRun:       r1\nAgent:     aura\nTasks:     3 total, 2 passed, 1 failed\n"
    );
}

#[test]
fn failed_task_section_lists_only_failures() {
    let long = "x".repeat(70);
    let rows = vec![
        ("a".to_string(), TaskStatus::Passed, None),
        ("b".to_string(), TaskStatus::Timeout, None),
        ("c".to_string(), TaskStatus::Failed, Some(long)),
    ];
    let expected = format!(
        "Failed Tasks\n  [X] b (timeout)\n      unknown\n  [X] c (failed (verify))\n      {}\n",
        "x".repeat(60)
    );
    assert_eq!(failed_tasks_section(&rows), expected);
    assert_eq!(failed_tasks_section(&rows[..1]), "");
}

fn make_row(status: TaskStatus) -> aura::bench::report::ResultRow {
    ("testing".to_string(), "medium".to_string(), status)
}

#[test]
fn summary_from_results() {
    let rows = vec![make_row(TaskStatus::Passed), make_row(TaskStatus::Passed), make_row(TaskStatus::Failed)];
    let t = aura::bench::report::tally(&rows);
    assert_eq!(t.total, 3);
    assert_eq!(t.passed, 2);
    assert_eq!(t.failed, 1);
    let pass_rate = t.passed as f64 / t.total as f64;
    assert!((pass_rate - 0.667).abs() < 0.01);
}

#[test]
fn category_stats() {
    let rows = vec![make_row(TaskStatus::Passed), make_row(TaskStatus::Passed), make_row(TaskStatus::Failed)];
    let t = aura::bench::report::tally(&rows);
    let cat = t.by_category.iter().find(|g| g.key == "testing").unwrap();
    assert_eq!(cat.total, 3);
    assert_eq!(cat.passed, 2);
}

#[test]
fn text_report_format() {
    let rows = vec![make_row(TaskStatus::Passed)];
    let t = aura::bench::report::tally(&rows);
    let header = report_header_text("run1", "aura", t.total, t.passed, t.failed);
    assert!(header.contains("Aura Bench Report"));
    assert!(header.contains("Tasks:     1 total, 1 passed, 0 failed"));
    let cat = &t.by_category[0];
    assert_eq!(format!("{}/{}", cat.passed, cat.total), "1/1");
    assert_eq!(format!("{:.1}%", cat.passed as f64 / cat.total as f64 * 100.0), "100.0%");
    assert_eq!(failed_tasks_section(&[("hello".to_string(), TaskStatus::Passed, None)]), "");
}
