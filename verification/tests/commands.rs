//! The slash commands, their completion and the registry.

use std::sync::Arc;

use sven_tui::commands::builtin::{
    ClearCommand, ModeCommand, ModelCommand, NewCommand, RefreshCommand,
};
use sven_tui::commands::completion::{
    filter_and_rank, fuzzy_score, CompletionItem, CompletionManager,
};
use sven_tui::commands::parser::ParsedCommand;
use sven_tui::commands::registry::{Command, CommandRegistry};
use sven_tui::commands::skill::{
    make_agent_slash_commands, make_command_slash_commands, resolve_unique_name_sep,
    truncate_description, AgentInfo, SkillCommand, SkillInfo, MAX_DESCRIPTION_LEN,
};
use sven_tui::commands::{AgentMode, CommandContext, ImmediateAction, SlashCommand};
use sven_tui::StringHashSet;

fn context(provider: &str, model: &str) -> CommandContext {
    CommandContext {
        providers: vec![],
        catalog: vec![],
        drivers: vec![],
        mcp_servers: vec![],
        current_model_provider: provider.into(),
        current_model_name: model.into(),
    }
}

// ── clear ──

#[test]
fn execute_returns_clear_chat_action() {
    let result = ClearCommand.execute(vec![]);
    assert!(
        matches!(result.immediate_action, Some(ImmediateAction::ClearChat)),
        "clear must return ImmediateAction::ClearChat"
    );
}

#[test]
fn clear_execute_ignores_args() {
    let result = ClearCommand.execute(vec!["all".into()]);
    assert!(matches!(result.immediate_action, Some(ImmediateAction::ClearChat)));
}

#[test]
fn clear_execute_does_not_set_model_mode_or_message() {
    let result = ClearCommand.execute(vec![]);
    assert!(result.model_override.is_none());
    assert!(result.mode_override.is_none());
    assert!(result.message_to_send.is_none());
}

// ── mode ──

#[test]
fn execute_research_sets_research_mode() {
    let result = ModeCommand.execute(vec!["research".into()]);
    assert_eq!(result.mode_override, Some(AgentMode::Research));
}

#[test]
fn execute_plan_sets_plan_mode() {
    let result = ModeCommand.execute(vec!["plan".into()]);
    assert_eq!(result.mode_override, Some(AgentMode::Plan));
}

#[test]
fn execute_agent_sets_agent_mode() {
    let result = ModeCommand.execute(vec!["agent".into()]);
    assert_eq!(result.mode_override, Some(AgentMode::Agent));
}

#[test]
fn execute_unknown_mode_returns_no_override() {
    // An unrecognised mode name must not silently set any override.
    let result = ModeCommand.execute(vec!["invalid".into()]);
    assert!(
        result.mode_override.is_none(),
        "unknown mode must not set override"
    );
}

#[test]
fn execute_empty_args_returns_no_override() {
    let result = ModeCommand.execute(vec![]);
    assert!(result.mode_override.is_none());
}

#[test]
fn execute_does_not_set_model_or_immediate_action() {
    let result = ModeCommand.execute(vec!["plan".into()]);
    assert!(result.model_override.is_none());
    assert!(result.immediate_action.is_none());
    assert!(result.message_to_send.is_none());
}

#[test]
fn complete_returns_all_three_modes_when_filter_is_empty() {
    let ctx = context("openai", "gpt-4o");
    let items = ModeCommand.complete(0, "", &ctx);
    let names: Vec<&str> = items.iter().map(|i| i.value.as_str()).collect();
    assert!(names.contains(&"research"), "research must be listed");
    assert!(names.contains(&"plan"), "plan must be listed");
    assert!(names.contains(&"agent"), "agent must be listed");
}

#[test]
fn complete_filters_by_prefix() {
    let ctx = context("openai", "gpt-4o");
    let items = ModeCommand.complete(0, "res", &ctx);
    assert_eq!(items.len(), 1);
    assert_eq!(items[0].value, "research");
}

#[test]
fn complete_wrong_arg_index_returns_empty() {
    let ctx = context("openai", "gpt-4o");
    assert!(ModeCommand.complete(1, "", &ctx).is_empty());
}

// ── model ──

#[test]
fn execute_bare_model_name_sets_override() {
    let result = ModelCommand.execute(vec!["gpt-4o".into()]);
    assert_eq!(result.model_override.as_deref(), Some("gpt-4o"));
    assert!(result.mode_override.is_none());
    assert!(result.immediate_action.is_none());
}

#[test]
fn execute_provider_slash_model_sets_override() {
    let result = ModelCommand.execute(vec!["anthropic/opus-4-6".into()]);
    assert_eq!(
        result.model_override.as_deref(),
        Some("anthropic/opus-4-6")
    );
}

#[test]
fn execute_openai_catalog_model_sets_override() {
    let result = ModelCommand.execute(vec!["openai/gpt-4o".into()]);
    assert_eq!(result.model_override.as_deref(), Some("openai/gpt-4o"));
}

#[test]
fn execute_named_custom_provider_sets_override() {
    let result = ModelCommand.execute(vec!["my_ollama".into()]);
    assert_eq!(result.model_override.as_deref(), Some("my_ollama"));
}

#[test]
fn execute_empty_arg_list_returns_no_override() {
    let result = ModelCommand.execute(vec![]);
    assert!(result.model_override.is_none(), "no override when no args");
}

#[test]
fn execute_empty_string_arg_returns_no_override() {
    // Happens when user presses Enter after "/model " with nothing typed.
    let result = ModelCommand.execute(vec!["".into()]);
    assert!(
        result.model_override.is_none(),
        "empty string must not set override"
    );
}

#[test]
fn execute_does_not_set_mode_or_immediate_action() {
    let result = ModelCommand.execute(vec!["gpt-4o".into()]);
    assert!(result.mode_override.is_none());
    assert!(result.immediate_action.is_none());
    assert!(result.message_to_send.is_none());
}

// ── new ──

#[test]
fn execute_returns_new_conversation_action() {
    let result = NewCommand.execute(vec![]);
    assert!(
        matches!(
            result.immediate_action,
            Some(ImmediateAction::NewConversation)
        ),
        "new must return ImmediateAction::NewConversation"
    );
}

#[test]
fn new_execute_ignores_args() {
    let result = NewCommand.execute(vec!["confirm".into()]);
    assert!(matches!(
        result.immediate_action,
        Some(ImmediateAction::NewConversation)
    ));
}

#[test]
fn new_execute_does_not_set_model_mode_or_message() {
    let result = NewCommand.execute(vec![]);
    assert!(result.model_override.is_none());
    assert!(result.mode_override.is_none());
    assert!(result.message_to_send.is_none());
}

// ── refresh ──

#[test]
fn execute_returns_refresh_skills_action() {
    let result = RefreshCommand.execute(vec![]);
    assert!(
        matches!(
            result.immediate_action,
            Some(ImmediateAction::RefreshSkills)
        ),
        "refresh must return ImmediateAction::RefreshSkills"
    );
}

#[test]
fn refresh_execute_does_not_set_model_mode_or_message() {
    let result = RefreshCommand.execute(vec![]);
    assert!(result.model_override.is_none());
    assert!(result.mode_override.is_none());
    assert!(result.message_to_send.is_none());
}

// ── completion ──

#[test]
fn fuzzy_score_exact_match_is_high() {
    let score = fuzzy_score("model", "model").unwrap();
    assert!(score > 10, "exact match should score high: {score}");
}

#[test]
fn fuzzy_score_prefix_matches() {
    assert!(fuzzy_score("mod", "model").is_some());
    assert!(fuzzy_score("mod", "mode").is_some());
}

#[test]
fn fuzzy_score_no_match_returns_none() {
    assert!(fuzzy_score("xyz", "model").is_none());
    assert!(fuzzy_score("zzz", "mode").is_none());
}

#[test]
fn fuzzy_score_empty_pattern_always_matches() {
    assert_eq!(fuzzy_score("", "anything"), Some(0));
}

#[test]
fn fuzzy_score_case_insensitive() {
    assert!(fuzzy_score("MOD", "model").is_some());
    assert!(fuzzy_score("mod", "MODEL").is_some());
}

#[test]
fn fuzzy_score_consecutive_bonus() {
    let consec = fuzzy_score("mo", "mode").unwrap();
    let spread = fuzzy_score("me", "model").unwrap();
    // "mo" in "mode" is consecutive from start; "me" spans chars — consec should score higher
    assert!(consec >= spread, "consecutive match should score at least as high");
}

#[test]
fn filter_and_rank_empty_filter_returns_all_sorted() {
    let items = vec![
        CompletionItem::simple("quit"),
        CompletionItem::simple("mode"),
        CompletionItem::simple("model"),
    ];
    let result = filter_and_rank(items, "");
    assert_eq!(result[0].value, "mode");
    assert_eq!(result[1].value, "model");
    assert_eq!(result[2].value, "quit");
}

#[test]
fn filter_and_rank_filters_non_matches() {
    let items = vec![
        CompletionItem::simple("model"),
        CompletionItem::simple("mode"),
        CompletionItem::simple("quit"),
    ];
    let result = filter_and_rank(items, "mod");
    assert_eq!(result.len(), 2);
    assert!(result.iter().all(|i| i.value.starts_with("mod")));
}

#[test]
fn every_consecutive_match_earns_a_bonus() {
    assert_eq!(fuzzy_score("el", "model"), Some(5));
    assert_eq!(fuzzy_score("mo", "model"), Some(10));
    assert_eq!(fuzzy_score("ml", "model"), Some(7));
    assert_eq!(fuzzy_score("bc", "a-bc"), Some(7));
}

#[test]
fn filtering_keeps_the_matches_and_settles_at_once() {
    let items = || {
        vec![
            CompletionItem::with_desc("alpha", "model of alpha", ""),
            CompletionItem::simple("mode"),
            CompletionItem::simple("model"),
            CompletionItem::simple("mode"),
            CompletionItem::simple("quit"),
        ]
    };
    let once = filter_and_rank(items(), "mode");
    let values: Vec<&str> = once.iter().map(|i| i.value.as_str()).collect();
    assert_eq!(values, vec!["alpha", "mode", "mode", "model"]);
    for i in &once {
        let v = fuzzy_score("mode", &i.value).unwrap_or(0);
        let d = fuzzy_score("mode", &i.display).unwrap_or(0);
        assert_eq!(i.score, v.max(d));
    }
    assert_eq!(filter_and_rank(filter_and_rank(items(), "mode"), "mode"), once);
    let all = filter_and_rank(items(), "");
    assert_eq!(all.len(), 5);
    assert_eq!(filter_and_rank(filter_and_rank(items(), ""), ""), all);
}

#[test]
fn filter_and_rank_sorts_by_score_descending() {
    let items = vec![
        CompletionItem::simple("anthropic/opus"),
        CompletionItem::simple("mode"),
    ];
    // "mod" matches "mode" much better than "anthropic/opus"
    let result = filter_and_rank(items, "mode");
    assert_eq!(result[0].value, "mode");
}

/// Regression: CompletionManager must NOT re-rank arg completions.
/// A second filter_and_rank with empty partial alphabetically sorts items,
/// displacing pinned entries (e.g. the current model at index 0).
#[test]
fn get_completions_preserves_cmd_complete_ordering() {

    let registry = Arc::new(CommandRegistry::with_builtins());
    let manager = CompletionManager::new(registry);

    // Simulate "/model " (empty partial) — the current model should be first.
    let parsed = ParsedCommand::CompletingArgs {
        command: "model".to_string(),
        arg_index: 0,
        partial: "".to_string(),
    };
    let ctx = context("openai", "gpt-4o");
    let items = manager.get_completions(&parsed, &ctx);
    assert!(!items.is_empty(), "must return completions for /model");
    assert_eq!(
        items[0].value, "openai/gpt-4o",
        "current model must be the first completion item, got: {:?}",
        items.iter().take(3).map(|i| &i.value).collect::<Vec<_>>()
    );
    assert!(
        items[0].display.contains("current"),
        "first item display must mention (current)"
    );
}

// ── registry ──

#[test]
fn with_builtins_registers_core_commands() {
    let reg = CommandRegistry::with_builtins();
    assert!(reg.get("model").is_some(), "model command must be registered");
    assert!(reg.get("provider").is_some(), "provider command must be registered");
    assert!(reg.get("mode").is_some(), "mode command must be registered");
    assert!(reg.get("quit").is_some(), "quit command must be registered");
    assert!(reg.get("abort").is_some(), "abort command must be registered");
    assert!(reg.get("clear").is_some(), "clear command must be registered");
}

#[test]
fn register_replaces_existing_command() {
    let mut reg = CommandRegistry::with_builtins();
    reg.register(Command::Skill(SkillCommand {
        name: "model".into(),
        description: "dummy".into(),
        content: String::new(),
        skill_dir: String::new(),
    }));
    let cmd = reg.get("model").unwrap();
    assert_eq!(cmd.description(), "dummy");
}

#[test]
fn names_returns_sorted_list() {
    let reg = CommandRegistry::with_builtins();
    let names = reg.names();
    let mut sorted = names.clone();
    sorted.sort_unstable();
    assert_eq!(names, sorted, "names() must return a sorted list");
}

#[test]
fn all_built_in_commands_are_registered() {
    let reg = CommandRegistry::with_builtins();
    let names = [
        "abort", "clear", "context", "mcp", "mode", "model", "new", "peers", "provider", "quit",
        "refresh", "skills", "subagents", "tools",
    ];
    assert_eq!(reg.names(), names);
    for name in names {
        assert_eq!(reg.get(name).unwrap().name(), name);
    }
}

// ── skills and agents ──


fn make_cmd(name: &str, description: &str, content: &str) -> SkillCommand {
    SkillCommand {
        name: name.to_string(),
        description: truncate_description(description, MAX_DESCRIPTION_LEN),
        content: content.to_string(),
        skill_dir: "/tmp".to_string(),
    }
}

fn make_agent(name: &str, description: &str, content: &str, model: Option<&str>) -> AgentInfo {
    AgentInfo {
        name: name.to_string(),
        description: description.to_string(),
        model: model.map(|s| s.to_string()),
        content: content.to_string(),
    }
}

// ── SkillCommand::execute ─────────────────────────────────────────────────

#[test]
fn execute_no_args_returns_content() {
    let cmd = make_cmd("sven/plan", "Plan.", "## Instructions\n\nDo things.");
    let result = cmd.execute(vec![]);
    assert_eq!(
        result.message_to_send.as_deref(),
        Some("## Instructions\n\nDo things.")
    );
    assert!(result.model_override.is_none());
    assert!(result.mode_override.is_none());
    assert!(result.immediate_action.is_none());
}

#[test]
fn execute_with_task_appends_task() {
    let cmd = make_cmd("sven/plan", "Plan.", "## Instructions\n\nDo things.");
    let result = cmd.execute(vec!["fix the CI".to_string()]);
    let msg = result.message_to_send.unwrap();
    assert!(msg.contains("## Instructions"));
    assert!(msg.contains("Task: fix the CI"));
}

#[test]
fn execute_multi_word_task_joined() {
    let cmd = make_cmd("deploy", "Deploy.", "Deploy content.");
    let result = cmd.execute(vec![
        "push".to_string(),
        "to".to_string(),
        "prod".to_string(),
    ]);
    assert!(result
        .message_to_send
        .unwrap()
        .contains("Task: push to prod"));
}

#[test]
fn execute_whitespace_only_args_treated_as_no_task() {
    let cmd = make_cmd("deploy", "Deploy.", "Deploy content.");
    let result = cmd.execute(vec!["  ".to_string()]);
    assert_eq!(result.message_to_send.as_deref(), Some("Deploy content."));
}

#[test]
fn complete_returns_empty() {
    let cmd = make_cmd("test", "Test.", "body");
    assert!(cmd.complete(0, "partial", &context("", "")).is_empty());
}

#[test]
fn description_truncated_to_100_chars() {
    let long_desc = "x".repeat(120);
    let cmd = make_cmd("cmd", &long_desc, "body");
    assert!(cmd.description.chars().count() <= MAX_DESCRIPTION_LEN);
}

// ── make_command_slash_commands ───────────────────────────────────────────

#[test]
fn command_hyphens_preserved() {
    let info = SkillInfo {
        command: "review-code".to_string(),
        description: "Review code.".to_string(),
        skill_dir: "/tmp".to_string(),
        content: "body".to_string(),
    };
    let cmds = make_command_slash_commands(&vec![info]);
    assert_eq!(cmds[0].name, "review-code");
}

#[test]
fn command_duplicates_get_hyphen_suffix() {
    let make = |cmd: &str| SkillInfo {
        command: cmd.to_string(),
        description: "D.".to_string(),
        skill_dir: "/tmp".to_string(),
        content: "b".to_string(),
    };
    let cmds = make_command_slash_commands(&vec![make("deploy"), make("deploy")]);
    assert_eq!(cmds.len(), 2);
    let names: Vec<&str> = cmds.iter().map(|c| c.name.as_str()).collect();
    assert!(names.contains(&"deploy"));
    assert!(names.contains(&"deploy-2"));
}

// ── AgentCommand ─────────────────────────────────────────────────────────

#[test]
fn agent_command_injects_prompt() {
    let agent = make_agent("verifier", "Validates work.", "You verify.", None);
    let cmds = make_agent_slash_commands(&vec![agent]);
    let result = cmds[0].execute(vec!["check auth".to_string()]);
    let msg = result.message_to_send.unwrap();
    assert!(msg.contains("You verify."));
    assert!(msg.contains("Task: check auth"));
}

#[test]
fn agent_command_carries_model_override() {
    let agent = make_agent("fast-agent", "Fast.", "body", Some("fast"));
    let cmds = make_agent_slash_commands(&vec![agent]);
    assert_eq!(cmds[0].model_override.as_deref(), Some("fast"));
}

#[test]
fn agent_command_no_model_when_inherit() {
    let agent = AgentInfo {
        name: "agent".to_string(),
        description: "D.".to_string(),
        model: None, // already normalised by parse_agent_file
        content: "body".to_string(),
    };
    let cmds = make_agent_slash_commands(&vec![agent]);
    assert!(cmds[0].model_override.is_none());
}

#[test]
fn agent_name_lowercased() {
    let agent = make_agent("Security-Auditor", "Security.", "body", None);
    let cmds = make_agent_slash_commands(&vec![agent]);
    assert_eq!(cmds[0].name, "security-auditor");
}

#[test]
fn only_the_file_name_of_a_command_is_lowered() {
    let found = |command: &str| SkillInfo {
        command: command.into(),
        description: String::new(),
        content: String::new(),
        skill_dir: String::new(),
    };
    let cmds = make_command_slash_commands(&vec![found("Team/Review-Code"), found("Deploy")]);
    assert_eq!(cmds[0].name, "Team/review-code");
    assert_eq!(cmds[1].name, "deploy");
}

// ── resolve_unique_name_sep ───────────────────────────────────────────────

#[test]
fn resolve_unique_underscore_sep() {
    let mut used = StringHashSet::new();
    assert_eq!(
        resolve_unique_name_sep("foo".to_string(), '_', &mut used),
        "foo"
    );
    assert_eq!(
        resolve_unique_name_sep("foo".to_string(), '_', &mut used),
        "foo_2"
    );
    assert_eq!(
        resolve_unique_name_sep("foo".to_string(), '_', &mut used),
        "foo_3"
    );
}

#[test]
fn resolve_unique_hyphen_sep() {
    let mut used = StringHashSet::new();
    assert_eq!(
        resolve_unique_name_sep("bar".to_string(), '-', &mut used),
        "bar"
    );
    assert_eq!(
        resolve_unique_name_sep("bar".to_string(), '-', &mut used),
        "bar-2"
    );
}
