use codex_tui::command_popup::CommandPopup;
use codex_tui::slash_command::{built_in_slash_commands, SlashCommand};

#[test]
fn filter_includes_init_when_typing_prefix() {
    let mut popup = CommandPopup::new();
    popup.on_composer_text_change("/in".to_string());
    let matches = popup.filtered_commands();
    assert!(
        matches.iter().any(|cmd| cmd.command() == "init"),
        "expected '/init' to appear among filtered commands"
    );
}

#[test]
fn selecting_init_by_exact_match() {
    let mut popup = CommandPopup::new();
    popup.on_composer_text_change("/init".to_string());
    match popup.selected_command() {
        Some(cmd) => assert_eq!(cmd.command(), "init"),
        None => panic!("expected a selected command for exact match"),
    }
}

#[test]
fn empty_filter_lists_every_command_in_order() {
    let mut popup = CommandPopup::new();
    popup.on_composer_text_change("/".to_string());
    let names: Vec<&str> = popup.filtered_commands().iter().map(|c| c.command()).collect();
    let all: Vec<&str> = built_in_slash_commands().iter().map(|(n, _)| *n).collect();
    assert_eq!(names, all);
}

#[test]
fn exact_name_lists_only_that_command() {
    let mut popup = CommandPopup::new();
    popup.on_composer_text_change("/compact".to_string());
    assert_eq!(popup.filtered_commands(), vec![SlashCommand::Compact]);
}

#[test]
fn no_match_clears_selection() {
    let mut popup = CommandPopup::new();
    popup.on_composer_text_change("/zzz".to_string());
    assert!(popup.filtered_commands().is_empty());
    assert!(popup.selected_command().is_none());
    assert_eq!(popup.calculate_required_height(), 1);
}

#[test]
fn selection_moves_and_stops_at_ends() {
    let mut popup = CommandPopup::new();
    popup.on_composer_text_change("/".to_string());
    let first = popup.selected_command();
    popup.move_up();
    assert_eq!(popup.selected_command(), first);
    popup.move_down();
    assert_eq!(popup.selected_command(), Some(built_in_slash_commands()[1].1));
    for _ in 0..50 {
        popup.move_down();
    }
    let last = built_in_slash_commands().last().unwrap().1;
    assert_eq!(popup.selected_command(), Some(last));
}

#[test]
fn slash_command_descriptions_and_names() {
    assert_eq!(SlashCommand::Init.command(), "init");
    assert_eq!(SlashCommand::Quit.command(), "quit");
    assert!(!SlashCommand::Diff.description().is_empty());
}
