use codex_tui::chat_composer::{ChatComposer, TokenUsage, TokenUsageInfo};
use codex_tui::composer_footer::footer_hint_line;
use codex_tui::diff_render::StyledLine;
use codex_tui::insert_history::{Color, DIM};

fn text(l: &StyledLine) -> String {
    l.spans.iter().map(|s| s.content.as_str()).collect()
}

fn usage(window: Option<u64>) -> TokenUsageInfo {
    let u = TokenUsage { input_tokens: 0, cached_input_tokens: None, output_tokens: 0, reasoning_output_tokens: None, total_tokens: 0 };
    TokenUsageInfo { total_token_usage: u, last_token_usage: u, model_context_window: window, initial_prompt_tokens: 0 }
}

#[test]
fn footer_shows_send_and_newline_hints() {
    let l = footer_hint_line(false, false, false, None, 0, 0);
    assert_eq!(text(&l), " ⏎ send   Ctrl+J newline   Ctrl+T transcript   Ctrl+C quit");
    assert!(l.spans.iter().all(|s| s.add_modifier & DIM == DIM));
    assert_eq!(l.spans[1].fg, Some(Color::Cyan));
    let l = footer_hint_line(false, true, true, None, 0, 0);
    assert_eq!(text(&l), " ⏎ send   Shift+⏎ newline   Ctrl+T transcript   Ctrl+C quit   Esc edit prev");
}

#[test]
fn footer_after_first_ctrl_c() {
    let l = footer_hint_line(true, false, true, None, 0, 0);
    assert_eq!(text(&l), " Ctrl+C again to quit");
}

#[test]
fn footer_with_token_usage() {
    let l = footer_hint_line(true, false, false, Some(usage(Some(1000))), 1234, 42);
    assert_eq!(text(&l), " Ctrl+C again to quit   1234 tokens used   42% context left");
    let l = footer_hint_line(true, false, false, Some(usage(Some(0))), 5, 42);
    assert_eq!(text(&l), " Ctrl+C again to quit   5 tokens used   100% context left");
    let l = footer_hint_line(true, false, false, Some(usage(None)), 5, 42);
    assert_eq!(text(&l), " Ctrl+C again to quit   5 tokens used");
}

#[test]
fn composer_footer_uses_its_flags() {
    let mut c = ChatComposer::new(true, false, "Ask".into());
    c.set_ctrl_c_quit_hint(true, true);
    assert_eq!(text(&c.footer_hint_line(0, 0)), " Ctrl+C again to quit");
}
