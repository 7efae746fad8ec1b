//! Verified core logic of the Codex terminal user interface: the chat
//! composer's text handling, history navigation, slash-command popup,
//! markdown segmentation and the small text formatters that feed the
//! rendered transcript.
pub mod text;
pub mod markdown_utils;
pub mod slash_command;
pub mod command_popup;
pub mod chat_composer_history;
pub mod composer_text;
pub mod file_search_popup;
pub mod markdown;
pub mod text_formatting;
pub mod exec_command;
pub mod mouse_capture;
pub mod key;
pub mod textarea;
pub mod placeholders;
pub mod chat_composer;
pub mod insert_history;
pub mod term_modifiers;
pub mod git_warning_screen;
pub mod tui;
pub mod chatwidget;
pub mod shimmer;
pub mod get_git_diff;
pub mod diff_render;
pub mod citations;
pub mod history_cell;
pub mod transcript_app;
pub mod dispatch;
pub mod user_approval_widget;
pub mod composer_footer;
pub mod status_indicator_widget;
pub mod onboarding;
pub mod history_scroll;
pub mod exec_cells;
pub mod viewport;
pub mod frame_scheduler;
