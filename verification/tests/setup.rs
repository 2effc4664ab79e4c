use aura::error::AgentError;
use aura::setup::keychain::{keychain_failure, ACCOUNT};
use aura::setup::needs_onboarding;
use aura::setup::providers::{all, default_for_id, lookup, validate_invariants};
use aura::setup::tui::app::{update, App, Message, State};
use aura::setup::tui::keys::{key_to_message, move_highlight, KeyPress};

#[test]
fn account_is_constant() {
    assert_eq!(ACCOUNT, "aura");
}

#[test]
fn keychain_errors_are_tool_failures() {
    assert_eq!(keychain_failure("no entry"), AgentError::ToolFailed("keychain: no entry".into()));
}

#[test]
fn needs_onboarding_is_false_in_slice1() {
    assert!(!needs_onboarding());
}

#[test]
fn tui_app_new_accepts_provider_list() {
    let _app = App::new(all());
}

#[test]
fn catalog_parses_and_has_4_providers() {
    assert_eq!(all().len(), 4);
}

#[test]
fn all_required_providers_present() {
    let providers = all();
    let ids: Vec<&str> = providers.iter().map(|p| p.id.as_str()).collect();
    for want in ["deepseek", "minimax", "kimi", "custom"] {
        assert!(ids.contains(&want), "missing provider {want}");
    }
}

#[test]
fn deepseek_lookup() {
    let p = lookup("deepseek").expect("deepseek must exist");
    assert_eq!(p.display_name, "DeepSeek");
    assert_eq!(p.endpoint, "https://api.deepseek.com");
    assert_eq!(p.default_model, "deepseek-chat");
    assert_eq!(p.env_var, "DEEPSEEK_API_KEY");
    assert_eq!(p.keychain_service, "aura-deepseek");
}

#[test]
fn minimax_lookup() {
    let p = lookup("minimax").expect("minimax must exist");
    assert_eq!(p.endpoint, "https://api.minimaxi.com");
    assert_eq!(p.default_model, "MiniMax-Text-01");
}

#[test]
fn kimi_lookup() {
    let p = lookup("kimi").expect("kimi must exist");
    assert_eq!(p.endpoint, "https://api.moonshot.cn");
    assert_eq!(p.default_model, "moonshot-v1-8k");
}

#[test]
fn custom_is_retained() {
    let p = lookup("custom").expect("custom must exist");
    assert!(p.endpoint.is_empty());
    assert!(p.default_model.is_empty());
}

#[test]
fn unknown_lookup_errors() {
    let err = lookup("nope").unwrap_err();
    assert!(matches!(err, AgentError::UnknownTool(_)));
    assert_eq!(err, AgentError::UnknownTool("unknown provider: nope".into()));
}

#[test]
fn default_for_id_returns_triple() {
    let (ep, model, env) = default_for_id("deepseek").expect("deepseek");
    assert_eq!(ep, "https://api.deepseek.com");
    assert_eq!(model, "deepseek-chat");
    assert_eq!(env, "DEEPSEEK_API_KEY");
}

#[test]
fn default_for_id_unknown_is_none() {
    assert!(default_for_id("nope").is_none());
}

#[test]
fn catalog_invariants_hold() {
    let problems = validate_invariants();
    assert!(problems.is_empty(), "catalog invariant violations: {problems:?}");
}

#[test]
fn catalog_problems_are_reported() {
    let mut ps = all();
    ps.push(ps[0].clone());
    ps[1].endpoint = String::new();
    let problems = aura::setup::providers::catalog_problems(&ps);
    assert_eq!(
        problems,
        vec![
            "non-custom provider minimax must have endpoint + default_model".to_string(),
            "duplicate id: deepseek".to_string(),
            "duplicate env_var: DEEPSEEK_API_KEY (provider deepseek)".to_string(),
            "duplicate keychain_service: aura-deepseek (provider deepseek)".to_string(),
        ]
    );
}

#[test]
fn endpoints_are_base_urls_not_paths() {
    for p in all() {
        if p.id != "custom" {
            assert!(!p.endpoint.contains("/v1"), "endpoint for {} must be base URL, got {}", p.id, p.endpoint);
        }
    }
}

fn test_app() -> App {
    App::new(all())
}

#[test]
fn initial_state_is_pick_provider() {
    let app = test_app();
    assert_eq!(app.state, State::PickProvider);
    assert_eq!(app.selected, 0);
    assert_eq!(app.providers.len(), 4);
}

#[test]
fn select_provider_transitions_to_enter_key() {
    let app = update(Message::SelectProvider(1), test_app());
    assert_eq!(app.state, State::EnterApiKey);
    assert_eq!(app.selected, 1);
    assert_eq!(app.current_provider().map(|p| p.id.as_str()), Some("minimax"));
}

#[test]
fn select_out_of_range_ignored() {
    let app = update(Message::SelectProvider(99), test_app());
    assert_eq!(app.state, State::PickProvider);
    assert_eq!(app.selected, 0);
}

#[test]
fn char_append_masked_input() {
    let mut app = update(Message::SelectProvider(0), test_app());
    app = update(Message::Char('s'), app);
    app = update(Message::Char('k'), app);
    assert_eq!(app.input, "sk");
}

#[test]
fn backspace_removes_last_char() {
    let mut app = update(Message::SelectProvider(0), test_app());
    app = update(Message::Char('a'), app);
    app = update(Message::Char('b'), app);
    app = update(Message::Backspace, app);
    assert_eq!(app.input, "a");
}

#[test]
fn clear_empties_input() {
    let mut app = update(Message::SelectProvider(0), test_app());
    app = update(Message::Char('x'), app);
    app = update(Message::Clear, app);
    assert_eq!(app.input, "");
}

#[test]
fn submit_empty_input_errors() {
    let app = update(Message::SelectProvider(0), test_app());
    let app = update(Message::Submit, app);
    assert_eq!(app.state, State::Error);
    assert_eq!(app.error.as_deref(), Some("API key cannot be empty"));
}

#[test]
fn submit_nonempty_transitions_to_saving() {
    let app = update(Message::SelectProvider(0), test_app());
    let app = update(Message::Char('k'), app);
    let app = update(Message::Submit, app);
    assert_eq!(app.state, State::Saving);
}

#[test]
fn commit_ok_transitions_to_done() {
    let app = update(Message::SelectProvider(0), test_app());
    let app = update(Message::Char('k'), app);
    let app = update(Message::Submit, app);
    let app = update(Message::CommitDone(Ok(())), app);
    assert_eq!(app.state, State::Done);
}

#[test]
fn commit_err_transitions_to_error() {
    let app = update(Message::SelectProvider(0), test_app());
    let app = update(Message::Char('k'), app);
    let app = update(Message::Submit, app);
    let app = update(Message::CommitDone(Err("keychain failed".into())), app);
    assert_eq!(app.state, State::Error);
    assert_eq!(app.error.as_deref(), Some("keychain failed"));
}

#[test]
fn control_char_ignored() {
    let app = update(Message::SelectProvider(0), test_app());
    let app = update(Message::Char('\u{1b}'), app);
    assert_eq!(app.input, "");
}

#[test]
fn cancel_ignored_in_pick_provider() {
    let app = update(Message::Cancel, test_app());
    assert_eq!(app.state, State::PickProvider);
}

#[test]
fn wizard_state_flow_with_mock_commit() {
    let mut app = App::new(all());
    app = update(Message::SelectProvider(0), app);
    assert_eq!(app.state, State::EnterApiKey);
    for c in "sk-test".chars() {
        app = update(Message::Char(c), app);
    }
    app = update(Message::Submit, app);
    assert_eq!(app.state, State::Saving);
    app = update(Message::CommitDone(Ok(())), app);
    assert_eq!(app.state, State::Done);
}

#[test]
fn backspace_undoes_a_typed_char() {
    let mut app = update(Message::SelectProvider(2), test_app());
    app = update(Message::Char('q'), app);
    app = update(Message::Char('é'), app);
    app = update(Message::Backspace, app);
    assert_eq!(app.input, "q");
}

#[test]
fn tui_run_is_not_implemented() {
    let mut out = std::io::stdout();
    assert!(matches!(aura::setup::tui::run(&mut out), Err(AgentError::NotImplemented(_))));
}

#[test]
fn keys_pick_a_provider() {
    let app = App::new(all());
    assert_eq!(key_to_message(KeyPress::Char('2'), &app), Some(Message::SelectProvider(1)));
    assert_eq!(key_to_message(KeyPress::Char('x'), &app), None);
    assert_eq!(key_to_message(KeyPress::Esc, &app), Some(Message::Cancel));
    let app = move_highlight(app, KeyPress::Down);
    assert_eq!(app.selected, 1);
    assert_eq!(key_to_message(KeyPress::Enter, &app), Some(Message::SelectProvider(1)));
    let app = move_highlight(app, KeyPress::Up);
    let app = move_highlight(app, KeyPress::Up);
    assert_eq!(app.selected, 0);
    let n = app.providers.len();
    let mut app = app;
    for _ in 0..n + 2 {
        app = move_highlight(app, KeyPress::Down);
    }
    assert_eq!(app.selected, n - 1);
}

#[test]
fn keys_edit_the_api_key() {
    let app = update(Message::SelectProvider(0), App::new(all()));
    assert_eq!(key_to_message(KeyPress::Char('7'), &app), Some(Message::Char('7')));
    assert_eq!(key_to_message(KeyPress::Ctrl('u'), &app), Some(Message::Clear));
    assert_eq!(key_to_message(KeyPress::Ctrl('c'), &app), None);
    assert_eq!(key_to_message(KeyPress::Backspace, &app), Some(Message::Backspace));
    assert_eq!(key_to_message(KeyPress::Enter, &app), Some(Message::Submit));
    assert_eq!(key_to_message(KeyPress::Up, &app), None);
}
