use codex_tui::diff_render::StyledLine;
use codex_tui::history_cell::{
    home_relative_display, new_background_event, new_diff_output, new_error_event, new_exec_command_generic,
    new_patch_apply_failure, new_patch_apply_success, new_plan_update, new_prompts_output, new_status_output,
    new_user_prompt, output_lines, pretty_provider_name, title_case, AccountInfo, CommandOutput, PlanItemArg,
    SandboxKind, StatusConfig, StatusUsage, StepStatus, UpdatePlanArgs,
};
use codex_tui::history_cell::{
    completed_mcp_tool_call_lines, new_active_mcp_tool_call, new_completed_mcp_tool_call, McpContent, McpInvocation,
};
use codex_tui::diff_render::PatchEventType;
use codex_tui::history_cell::{exec_command_lines, new_parsed_command, new_patch_event, ParsedCommand};
use codex_tui::insert_history::{Color, BOLD, CROSSED_OUT, DIM};

fn line_text(l: &StyledLine) -> String {
    l.spans.iter().map(|s| s.content.as_str()).collect::<String>()
}

fn lines_to_single_string(lines: &[StyledLine]) -> String {
    lines.iter().map(line_text).collect::<Vec<_>>().join("\n")
}

fn texts(lines: &[StyledLine]) -> Vec<String> {
    lines.iter().map(line_text).collect()
}

#[test]
fn plan_update_renders_history_cell() {
    let update = UpdatePlanArgs {
        explanation: Some("Adapting plan".to_string()),
        plan: vec![
            PlanItemArg { step: "Explore codebase".into(), status: StepStatus::Completed },
            PlanItemArg { step: "Implement feature".into(), status: StepStatus::InProgress },
            PlanItemArg { step: "Write tests".into(), status: StepStatus::Pending },
        ],
    };
    let cells = new_plan_update(update);
    assert!(!cells.is_empty(), "expected plan update cell to be sent");
    let blob = lines_to_single_string(&cells);
    assert!(blob.contains("Update plan"), "missing plan header: {blob:?}");
    assert!(blob.contains("Explore codebase"));
    assert!(blob.contains("Implement feature"));
    assert!(blob.contains("Write tests"));
}

#[test]
fn plan_update_progress_bar_and_styles() {
    let update = UpdatePlanArgs {
        explanation: Some("  first\nsecond  ".to_string()),
        plan: vec![
            PlanItemArg { step: "a".into(), status: StepStatus::Completed },
            PlanItemArg { step: "b".into(), status: StepStatus::InProgress },
            PlanItemArg { step: "c".into(), status: StepStatus::Pending },
        ],
    };
    let lines = new_plan_update(update);
    // 1 of 3 completed: (10 + 1) / 3 = 3 filled cells.
    assert_eq!(line_text(&lines[0]), "📋 Update plan [███░░░░░░░] 1/3");
    assert_eq!(
        texts(&lines[1..]),
        vec!["note", "first", "second", "  └ ✔ a", "    □ b", "    □ c", ""]
    );
    assert_eq!(lines[4].spans[3].add_modifier, CROSSED_OUT | DIM);
    assert_eq!(lines[5].spans[3].fg, Some(Color::Blue));
    assert_eq!(lines[5].spans[3].add_modifier, BOLD);
    assert_eq!(lines[6].spans[3].add_modifier, DIM);
}

#[test]
fn plan_update_without_steps() {
    let lines = new_plan_update(UpdatePlanArgs { explanation: Some("   ".into()), plan: vec![] });
    assert_eq!(texts(&lines), vec!["📋 Update plan [░░░░░░░░░░] 0/0", "(no steps provided)", ""]);
}

#[test]
fn plan_update_all_done_fills_bar() {
    let plan = (0..7).map(|i| PlanItemArg { step: format!("s{i}"), status: StepStatus::Completed }).collect();
    let lines = new_plan_update(UpdatePlanArgs { explanation: None, plan });
    assert_eq!(line_text(&lines[0]), "📋 Update plan [██████████] 7/7");
}

#[test]
fn output_lines_short_output_is_shown_whole() {
    let out = CommandOutput { exit_code: 0, stdout: "a\nb\nc\n".into(), stderr: "err".into() };
    assert_eq!(texts(&output_lines(Some(&out), false, true)), vec!["  └ a", "    b", "    c"]);
    assert_eq!(texts(&output_lines(Some(&out), false, false)), vec!["    a", "    b", "    c"]);
    assert!(output_lines(Some(&out), true, true).is_empty());
    assert!(output_lines(None, false, true).is_empty());
    let lines = output_lines(Some(&out), false, true);
    assert_eq!(lines[0].spans[1].add_modifier & DIM, DIM);
}

#[test]
fn output_lines_failure_shows_stderr() {
    let out = CommandOutput { exit_code: 2, stdout: "ignored".into(), stderr: "boom".into() };
    assert_eq!(texts(&output_lines(Some(&out), true, true)), vec!["  └ boom"]);
}

#[test]
fn output_lines_long_output_is_elided() {
    let stdout = (1..=12).map(|i| format!("l{i}")).collect::<Vec<_>>().join("\n");
    let out = CommandOutput { exit_code: 0, stdout, stderr: String::new() };
    assert_eq!(
        texts(&output_lines(Some(&out), false, true)),
        vec![
            "  └ l1", "    l2", "    l3", "    l4", "    l5", "… +2 lines", "    l8", "    l9", "    l10",
            "    l11", "    l12"
        ]
    );
    // Ten lines are still shown whole.
    let stdout = (1..=10).map(|i| format!("l{i}")).collect::<Vec<_>>().join("\n");
    let out = CommandOutput { exit_code: 0, stdout, stderr: String::new() };
    assert_eq!(output_lines(Some(&out), false, true).len(), 10);
}

#[test]
fn patch_apply_success_counts_hidden_lines() {
    let lines = new_patch_apply_success("1\n2\n3\n4\n5\n6\n7\n".into());
    assert_eq!(
        texts(&lines),
        vec!["✓ Applied patch", "  └ 1", "    2", "    3", "    4", "    5", "", "... +2 lines", ""]
    );
    assert_eq!(lines[0].spans[0].fg, Some(Color::Magenta));
    assert_eq!(texts(&new_patch_apply_success("  \n".into())), vec!["✓ Applied patch", ""]);
}

#[test]
fn patch_apply_failure_shows_error_output() {
    assert_eq!(
        texts(&new_patch_apply_failure("bad hunk\n".into())),
        vec!["✘ Failed to apply patch", "  └ bad hunk", ""]
    );
    assert_eq!(texts(&new_patch_apply_failure(" \n\t".into())), vec!["✘ Failed to apply patch", ""]);
}

#[test]
fn title_case_and_provider_names() {
    assert_eq!(title_case("hELLO wORLD"), "Hello world");
    assert_eq!(title_case(""), "");
    assert_eq!(title_case("ß"), "SS");
    assert_eq!(pretty_provider_name("OpenAI"), "OpenAI");
    assert_eq!(pretty_provider_name("openai"), "OpenAI");
    assert_eq!(pretty_provider_name("azure"), "Azure");
    assert_eq!(pretty_provider_name("OLLAMA"), "Ollama");
}

#[test]
fn home_relative_display_cases() {
    assert_eq!(home_relative_display(Some("code/project"), "/home/u/code/project"), "~/code/project");
    assert_eq!(home_relative_display(Some(""), "/home/u"), "~");
    assert_eq!(home_relative_display(None, "/srv/x"), "/srv/x");
}

fn status_config() -> StatusConfig {
    StatusConfig {
        cwd: "/home/u/proj".into(),
        cwd_relative_to_home: Some("proj".into()),
        model: "gpt-5".into(),
        model_provider_id: "openai".into(),
        sandbox: SandboxKind::WorkspaceWrite,
        config_entries: vec![
            ("approval".into(), "on-request".into()),
            ("reasoning effort".into(), "HIGH".into()),
            ("approval".into(), "never".into()),
        ],
    }
}

#[test]
fn status_output_lists_sections() {
    let usage = StatusUsage { non_cached_input: 100, cached_input_tokens: Some(20), output_tokens: 7, blended_total: 107 };
    let account = AccountInfo { email: Some("a@b.c".into()), openai_api_key: None, plan_type: Some("pLUS".into()) };
    let lines = new_status_output(&status_config(), Some(account), &usage, Some("abc-123".into()));
    assert_eq!(
        texts(&lines),
        vec![
            "/status",
            "📂 Workspace",
            "  • Path: ~/proj",
            "  • Approval Mode: on-request",
            "  • Sandbox: workspace-write",
            "  • Session ID: abc-123",
            "",
            "👤 Account",
            "  • Signed in with ChatGPT",
            "  • Login: a@b.c",
            "  • Plan: Plus",
            "",
            "🧠 Model",
            "  • Name: gpt-5",
            "  • Provider: OpenAI",
            "  • Reasoning Effort: High",
            "",
            "📊 Token Usage",
            "  • Input: 100 (+ 20 cached)",
            "  • Output: 7",
            "  • Total: 107",
            "",
        ]
    );
}

#[test]
fn status_output_with_api_key_and_no_account_details() {
    let usage = StatusUsage { non_cached_input: 1, cached_input_tokens: Some(0), output_tokens: 2, blended_total: 3 };
    let account = AccountInfo { email: None, openai_api_key: Some("sk-x".into()), plan_type: None };
    let lines = new_status_output(&status_config(), Some(account), &usage, None);
    let t = texts(&lines);
    assert!(t.contains(&"  • Using API key. Run codex login to use ChatGPT plan".to_string()));
    assert!(!t.iter().any(|l| l.starts_with("  • Session ID")));
    assert!(t.contains(&"  • Input: 1".to_string()));
    let without = new_status_output(&status_config(), None, &usage, None);
    assert!(!texts(&without).iter().any(|l| l.contains("Account")));
    let unknown = AccountInfo { email: None, openai_api_key: Some(String::new()), plan_type: None };
    let t = texts(&new_status_output(&status_config(), Some(unknown), &usage, None));
    assert!(t.contains(&"  • Plan: Unknown".to_string()));
}

#[test]
fn exec_command_generic_lines() {
    let cmd = vec!["bash".to_string(), "-lc".to_string(), "echo one\necho two".to_string()];
    let out = CommandOutput { exit_code: 1, stdout: String::new(), stderr: "oops".into() };
    let lines = new_exec_command_generic(&cmd, Some(&out), None);
    assert_eq!(texts(&lines), vec!["⚡ Running echo one", "echo two", "  └ oops"]);
    let running = new_exec_command_generic(&vec!["ls".to_string(), "a b".to_string()], None, Some(3));
    assert_eq!(texts(&running), vec!["⚡ Running • 3s ls 'a b'"]);
}

#[test]
fn simple_cells() {
    assert_eq!(texts(&new_user_prompt("hi\nthere".into())), vec!["user", "hi", "there", ""]);
    assert_eq!(texts(&new_error_event("bad".into())), vec!["🖐 bad", ""]);
    assert_eq!(texts(&new_background_event("x\ny".into())), vec!["event", "x", "y", ""]);
    assert_eq!(texts(&new_diff_output("  ".into())), vec!["/diff", "No changes detected.", ""]);
    assert_eq!(texts(&new_diff_output("+a\n-b".into())), vec!["/diff", "+a", "-b", ""]);
    let prompts = new_prompts_output();
    assert_eq!(prompts.len(), 9);
    assert_eq!(line_text(&prompts[2]), " 1. Explain this codebase");
}

const PNG_1X1: &str = "iVBORw0KGgoAAAANSUhEUgAAAAEAAAABCAQAAAC1HAwCAAAAC0lEQVR42mNkYAAAAAYAAjCB0C8AAAAASUVORK5CYII=";

fn invocation() -> McpInvocation {
    McpInvocation { server: "srv".into(), tool: "search".into(), arguments: Some("{ \"q\" : [1, 2] }".into()) }
}

#[test]
fn mcp_active_call_shows_compact_arguments() {
    let lines = new_active_mcp_tool_call(invocation());
    assert_eq!(texts(&lines), vec!["tool running...", "srv.search({\"q\":[1,2]})", ""]);
    assert_eq!(lines[1].spans[0].fg, Some(Color::Blue));
}

#[test]
fn mcp_completed_call_lists_result_pieces() {
    let result = Ok(vec![
        McpContent::Text("hello".into()),
        McpContent::Audio,
        McpContent::ResourceLink { uri: "file:///x".into() },
        McpContent::EmbeddedResource { uri: "mem://y".into() },
    ]);
    let lines = new_completed_mcp_tool_call(80, invocation(), "1.2s", true, result);
    assert_eq!(
        texts(&lines),
        vec![
            "tool success, duration: 1.2s",
            "srv.search({\"q\":[1,2]})",
            "",
            "hello",
            "<audio content>",
            "link: file:///x",
            "embedded resource: mem://y",
            ""
        ]
    );
    assert_eq!(lines[0].spans[2].fg, Some(Color::Green));
}

#[test]
fn mcp_failed_call_shows_error() {
    let inv = McpInvocation { server: "s".into(), tool: "t".into(), arguments: None };
    let lines = new_completed_mcp_tool_call(80, inv, "3s", false, Err("boom".into()));
    assert_eq!(texts(&lines), vec!["tool failed, duration: 3s", "s.t()", "Error: boom"]);
    assert_eq!(lines[2].spans[0].add_modifier, BOLD);
}

#[test]
fn mcp_image_result_is_omitted_only_when_it_decodes() {
    let inv = McpInvocation { server: "s".into(), tool: "t".into(), arguments: None };
    let ok = new_completed_mcp_tool_call(80, inv.clone(), "1s", true, Ok(vec![McpContent::Image { data: PNG_1X1.into() }]));
    assert_eq!(texts(&ok), vec!["tool result (image output omitted)", ""]);
    let bad = new_completed_mcp_tool_call(80, inv, "1s", true, Ok(vec![McpContent::Image { data: "!!".into() }]));
    assert_eq!(texts(&bad), vec!["tool success, duration: 1s", "s.t()", "", "<image content>", ""]);
}

#[test]
fn parsed_command_with_newlines_starts_each_line_at_origin() {
    let parsed = vec![ParsedCommand::Unknown { cmd: "printf 'foo\nbar'".to_string() }];
    let lines = exec_command_lines(&vec![], &parsed, None, None, Color::LightBlue);
    assert!(lines.len() >= 3);
    assert_eq!(lines[1].spans[0].content, "  └ ");
    assert_eq!(lines[2].spans[0].content, "    ");
}

#[test]
fn parsed_commands_show_what_they_do() {
    let parsed = vec![
        ParsedCommand::Read { cmd: "cat a.rs".into(), name: "a.rs".into() },
        ParsedCommand::Search { cmd: "rg foo src".into(), query: Some("foo".into()), path: Some("src".into()) },
        ParsedCommand::ListFiles { cmd: "ls".into(), path: None },
    ];
    let running = new_parsed_command(&parsed, None, Some(4), Color::LightBlue);
    assert_eq!(
        texts(&running),
        vec!["\u{2699}\u{fe0e} Working • 4s", "  └ 📖 a.rs", "    🔎 foo in src", "    📂 ls", ""]
    );
    assert_eq!(running[1].spans[1].fg, Some(Color::LightBlue));
    let ok = CommandOutput { exit_code: 0, stdout: "x".into(), stderr: String::new() };
    assert_eq!(line_text(&new_parsed_command(&parsed, Some(&ok), None, Color::LightBlue)[0]), "✓ Completed");
    let failed = CommandOutput { exit_code: -2, stdout: String::new(), stderr: "nope".into() };
    let lines = new_parsed_command(&parsed, Some(&failed), None, Color::LightBlue);
    assert_eq!(line_text(&lines[0]), "✗ Failed (exit -2)");
    assert_eq!(line_text(&lines[4]), "    nope");
}

#[test]
fn patch_events_show_summary_or_title() {
    use_patch_events();
}

fn use_patch_events() {
    let changes = vec![codex_tui::diff_render::ChangedFile {
        path: "a.txt".into(),
        change: codex_tui::diff_render::FileChange::Add { content: "x\n".into() },
        original: None,
    }];
    let proposed = new_patch_event(PatchEventType::ApprovalRequest, &changes, 80);
    assert_eq!(line_text(&proposed[0]), "proposed patch to 1 file (+1 -0)");
    assert_eq!(line_text(proposed.last().unwrap()), "");
    let manual = new_patch_event(PatchEventType::ApplyBegin { auto_approved: false }, &changes, 80);
    assert_eq!(texts(&manual), vec!["\u{270f}\u{fe0f} Applying patch", ""]);
    let auto = new_patch_event(PatchEventType::ApplyBegin { auto_approved: true }, &changes, 80);
    assert!(line_text(&auto[0]).starts_with("\u{270f}\u{fe0f} Applying patch to 1 file"));
}

#[test]
fn mcp_result_lines_follow_the_image_outcome() {
    let inv = McpInvocation { server: "s".into(), tool: "t".into(), arguments: None };
    let content = Ok(vec![McpContent::Image { data: "AAAA".into() }]);
    let omitted = completed_mcp_tool_call_lines(80, inv.clone(), "2s", true, content.clone(), true);
    assert_eq!(texts(&omitted), vec!["tool result (image output omitted)", ""]);
    let shown = completed_mcp_tool_call_lines(80, inv, "2s", false, content, false);
    assert_eq!(texts(&shown), vec!["tool failed, duration: 2s", "s.t()", "", "<image content>", ""]);
}

#[test]
fn non_png_image_data_is_not_decoded() {
    // JPEG magic bytes (FF D8 FF E0): not handed to the image decoder.
    let inv = McpInvocation { server: "s".into(), tool: "t".into(), arguments: None };
    let r = new_completed_mcp_tool_call(80, inv, "1s", true, Ok(vec![McpContent::Image { data: "/9j/4AAQSkZJRg==".into() }]));
    assert_eq!(texts(&r), vec!["tool success, duration: 1s", "s.t()", "", "<image content>", ""]);
}
