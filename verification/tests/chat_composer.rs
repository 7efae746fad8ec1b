use codex_tui::chat_composer::{ChatComposer, ComposerEvent, InputResult};
use codex_tui::composer_text::{current_at_token, LARGE_PASTE_CHAR_THRESHOLD};
use codex_tui::key::{KeyCode, KeyEvent, KeyModifiers};
use codex_tui::placeholders::AttachedImage;
use codex_tui::slash_command::SlashCommand;

const MS: u64 = 1_000_000;

fn composer() -> ChatComposer {
    ChatComposer::new(true, false, "Ask Codex to do anything".to_string())
}

fn key(code: KeyCode) -> KeyEvent {
    KeyEvent::new(code, KeyModifiers::none())
}

fn check_at_token(cases: Vec<(&str, usize, Option<String>, &str)>) {
    for (input, cursor_pos, expected, description) in cases {
        let result = current_at_token(input, cursor_pos);
        assert_eq!(
            result, expected,
            "Failed for case: {description} - input: '{input}', cursor: {cursor_pos}"
        );
    }
}

#[test]
fn test_current_at_token_basic_cases() {
    check_at_token(vec![
        ("@hello", 3, Some("hello".to_string()), "Basic ASCII token"),
        ("@file.txt", 4, Some("file.txt".to_string()), "ASCII with extension"),
        ("hello @world test", 8, Some("world".to_string()), "ASCII token in middle"),
        ("@test123", 5, Some("test123".to_string()), "ASCII with numbers"),
        ("@İstanbul", 3, Some("İstanbul".to_string()), "Turkish text"),
        ("@testЙЦУ.rs", 8, Some("testЙЦУ.rs".to_string()), "Mixed ASCII and Cyrillic"),
        ("@诶", 2, Some("诶".to_string()), "Chinese character"),
        ("@👍", 2, Some("👍".to_string()), "Emoji token"),
        ("hello", 2, None, "No @ symbol"),
        ("@", 1, Some("".to_string()), "Only @ symbol triggers empty query"),
        ("@ hello", 2, None, "@ followed by space"),
        ("test @ world", 6, None, "@ with spaces around"),
    ]);
}

#[test]
fn test_current_at_token_cursor_positions() {
    check_at_token(vec![
        ("@test", 0, Some("test".to_string()), "Cursor at @"),
        ("@test", 1, Some("test".to_string()), "Cursor after @"),
        ("@test", 5, Some("test".to_string()), "Cursor at end"),
        ("@file1 @file2", 0, Some("file1".to_string()), "First token"),
        ("@file1 @file2", 8, Some("file2".to_string()), "Second token"),
        ("@", 0, Some("".to_string()), "Only @ symbol"),
        ("@a", 2, Some("a".to_string()), "Single character after @"),
        ("", 0, None, "Empty input"),
    ]);
}

#[test]
fn test_current_at_token_whitespace_boundaries() {
    check_at_token(vec![
        ("aaa@aaa", 4, None, "Connected @ token - no completion by design"),
        ("aaa @aaa", 5, Some("aaa".to_string()), "@ token after space"),
        ("test @file.txt", 7, Some("file.txt".to_string()), "@ token after space"),
        ("test\u{3000}@İstanbul", 8, Some("İstanbul".to_string()), "@ token after full-width space"),
        ("@ЙЦУ\u{3000}@诶", 10, Some("诶".to_string()), "Full-width space between Unicode tokens"),
        ("test\t@file", 6, Some("file".to_string()), "@ token after tab"),
    ]);
}

#[test]
fn handle_paste_small_inserts_text() {
    let mut composer = composer();
    let needs_redraw = composer.handle_paste("hello".to_string());
    assert!(needs_redraw);
    assert_eq!(composer.text(), "hello");
    assert!(composer.pending_pastes().is_empty());

    let (result, _) = composer.handle_key_event(key(KeyCode::Enter), 1_000 * MS);
    match result {
        InputResult::Submitted(text) => assert_eq!(text, "hello"),
        _ => panic!("expected Submitted"),
    }
}

#[test]
fn handle_paste_large_uses_placeholder_and_replaces_on_submit() {
    let mut composer = composer();
    let large = "x".repeat(LARGE_PASTE_CHAR_THRESHOLD + 10);
    let needs_redraw = composer.handle_paste(large.clone());
    assert!(needs_redraw);
    let placeholder = format!("[Pasted Content {} chars]", large.chars().count());
    assert_eq!(composer.text(), placeholder);
    assert_eq!(composer.pending_pastes().len(), 1);
    assert_eq!(composer.pending_pastes()[0].0, placeholder);
    assert_eq!(composer.pending_pastes()[0].1, large);

    let (result, _) = composer.handle_key_event(key(KeyCode::Enter), 1_000 * MS);
    match result {
        InputResult::Submitted(text) => assert_eq!(text, large),
        _ => panic!("expected Submitted"),
    }
    assert!(composer.pending_pastes().is_empty());
}

#[test]
fn edit_clears_pending_paste() {
    let large = "y".repeat(LARGE_PASTE_CHAR_THRESHOLD + 1);
    let mut composer = composer();
    composer.handle_paste(large);
    assert_eq!(composer.pending_pastes().len(), 1);

    composer.handle_key_event(key(KeyCode::Backspace), 1_000 * MS);
    assert!(composer.pending_pastes().is_empty());
}

#[test]
fn slash_init_dispatches_command_and_does_not_submit_literal_text() {
    let mut composer = composer();
    let mut now = 1_000 * MS;
    for ch in ['/', 'i', 'n', 'i', 't'] {
        let _ = composer.handle_key_event(key(KeyCode::Char(ch)), now);
        now += MS;
    }
    let (result, _needs_redraw) = composer.handle_key_event(key(KeyCode::Enter), now);
    match result {
        InputResult::Command(cmd) => {
            assert_eq!(cmd.command(), "init");
        }
        InputResult::Submitted(text) => {
            panic!("expected command dispatch, but composer submitted literal text: {text}")
        }
        InputResult::Nothing => panic!("expected Command result for '/init'"),
    }
    assert!(composer.is_empty(), "composer should be cleared");
}

#[test]
fn slash_tab_completion_moves_cursor_to_end() {
    let mut composer = composer();
    let mut now = 1_000 * MS;
    for ch in ['/', 'c'] {
        let _ = composer.handle_key_event(key(KeyCode::Char(ch)), now);
        now += MS;
    }
    let (_result, _needs_redraw) = composer.handle_key_event(key(KeyCode::Tab), now);
    assert_eq!(composer.text(), "/compact ");
    assert_eq!(composer.cursor(), composer.text().len());
}

#[test]
fn slash_mention_dispatches_command_and_inserts_at() {
    let mut composer = composer();
    let mut now = 1_000 * MS;
    for ch in ['/', 'm', 'e', 'n', 't', 'i', 'o', 'n'] {
        let _ = composer.handle_key_event(key(KeyCode::Char(ch)), now);
        now += MS;
    }
    let (result, _needs_redraw) = composer.handle_key_event(key(KeyCode::Enter), now);
    match result {
        InputResult::Command(cmd) => {
            assert_eq!(cmd.command(), "mention");
        }
        InputResult::Submitted(text) => {
            panic!("expected command dispatch, but composer submitted literal text: {text}")
        }
        InputResult::Nothing => panic!("expected Command result for '/mention'"),
    }
    assert!(composer.is_empty(), "composer should be cleared");
    composer.insert_str("@");
    assert_eq!(composer.text(), "@");
}

#[test]
fn test_multiple_pastes_submission() {
    let mut composer = composer();
    let test_cases = [
        ("x".repeat(LARGE_PASTE_CHAR_THRESHOLD + 3), true),
        (" and ".to_string(), false),
        ("y".repeat(LARGE_PASTE_CHAR_THRESHOLD + 7), true),
    ];
    let mut expected_text = String::new();
    let mut expected_pending_count = 0;
    let states: Vec<_> = test_cases
        .iter()
        .map(|(content, is_large)| {
            composer.handle_paste(content.clone());
            if *is_large {
                let placeholder = format!("[Pasted Content {} chars]", content.chars().count());
                expected_text.push_str(&placeholder);
                expected_pending_count += 1;
            } else {
                expected_text.push_str(content);
            }
            (expected_text.clone(), expected_pending_count)
        })
        .collect();
    assert_eq!(
        states,
        vec![
            (format!("[Pasted Content {} chars]", test_cases[0].0.chars().count()), 1),
            (
                format!("[Pasted Content {} chars] and ", test_cases[0].0.chars().count()),
                1
            ),
            (
                format!(
                    "[Pasted Content {} chars] and [Pasted Content {} chars]",
                    test_cases[0].0.chars().count(),
                    test_cases[2].0.chars().count()
                ),
                2
            ),
        ]
    );
    let (result, _) = composer.handle_key_event(key(KeyCode::Enter), 1_000 * MS);
    if let InputResult::Submitted(text) = result {
        assert_eq!(text, format!("{} and {}", test_cases[0].0, test_cases[2].0));
    } else {
        panic!("expected Submitted");
    }
}

#[test]
fn test_placeholder_deletion() {
    let mut composer = composer();
    let test_cases = [
        ("a".repeat(LARGE_PASTE_CHAR_THRESHOLD + 5), true),
        (" and ".to_string(), false),
        ("b".repeat(LARGE_PASTE_CHAR_THRESHOLD + 6), true),
    ];
    let mut current_pos = 0;
    let states: Vec<_> = test_cases
        .iter()
        .map(|(content, is_large)| {
            composer.handle_paste(content.clone());
            if *is_large {
                let placeholder = format!("[Pasted Content {} chars]", content.chars().count());
                current_pos += placeholder.len();
            } else {
                current_pos += content.len();
            }
            (composer.text(), composer.pending_pastes().len(), current_pos)
        })
        .collect();

    let mut deletion_states = vec![];
    composer.set_cursor(states[0].2);
    composer.handle_key_event(key(KeyCode::Backspace), 1_000 * MS);
    deletion_states.push((composer.text(), composer.pending_pastes().len()));

    composer.set_cursor(composer.text().len());
    composer.handle_key_event(key(KeyCode::Backspace), 2_000 * MS);
    deletion_states.push((composer.text(), composer.pending_pastes().len()));

    assert_eq!(
        deletion_states,
        vec![
            (" and [Pasted Content 1006 chars]".to_string(), 1),
            (" and ".to_string(), 0),
        ]
    );
}

#[test]
fn test_partial_placeholder_deletion() {
    let mut composer = composer();
    let test_cases = [5, 0];
    let paste = "x".repeat(LARGE_PASTE_CHAR_THRESHOLD + 4);
    let placeholder = format!("[Pasted Content {} chars]", paste.chars().count());
    let mut now = 1_000 * MS;
    let states: Vec<_> = test_cases
        .into_iter()
        .map(|pos_from_end| {
            composer.handle_paste(paste.clone());
            composer.set_cursor(placeholder.len() - pos_from_end);
            composer.handle_key_event(key(KeyCode::Backspace), now);
            now += 1_000 * MS;
            let result = (
                composer.text().contains(&placeholder),
                composer.pending_pastes().len(),
            );
            composer.set_text("");
            result
        })
        .collect();
    assert_eq!(states, vec![(false, 0), (false, 0)]);
}

#[test]
fn attach_image_and_submit_includes_image_paths() {
    let mut composer = composer();
    let path = "/tmp/image1.png".to_string();
    composer.attach_image(path.clone(), 32, 16, "PNG");
    composer.handle_paste(" hi".into());
    let (result, _) = composer.handle_key_event(key(KeyCode::Enter), 1_000 * MS);
    match result {
        InputResult::Submitted(text) => assert_eq!(text, "hi"),
        _ => panic!("expected Submitted"),
    }
    let imgs = composer.take_recent_submission_images();
    assert_eq!(vec![path], imgs);
}

#[test]
fn attach_image_without_text_submits_empty_text_and_images() {
    let mut composer = composer();
    let path = "/tmp/image2.png".to_string();
    composer.attach_image(path.clone(), 10, 5, "PNG");
    let (result, _) = composer.handle_key_event(key(KeyCode::Enter), 1_000 * MS);
    match result {
        InputResult::Submitted(text) => assert!(text.is_empty()),
        _ => panic!("expected Submitted"),
    }
    let imgs = composer.take_recent_submission_images();
    assert_eq!(imgs.len(), 1);
    assert_eq!(imgs[0], path);
    assert!(composer.attached_images().is_empty());
}

#[test]
fn image_placeholder_backspace_behaves_like_text_placeholder() {
    let mut composer = composer();
    let path = "/tmp/image3.png".to_string();
    composer.attach_image(path.clone(), 20, 10, "PNG");
    let placeholder = composer.attached_images()[0].placeholder.clone();

    composer.move_cursor_to_end_of_line();
    composer.handle_key_event(key(KeyCode::Backspace), 1_000 * MS);
    assert!(!composer.text().contains(&placeholder));
    assert!(composer.attached_images().is_empty());

    composer.attach_image(path.clone(), 20, 10, "PNG");
    let placeholder2 = composer.attached_images()[0].placeholder.clone();
    if let Some(start_pos) = composer.text().find(&placeholder2) {
        let mid_pos = start_pos + (placeholder2.len() / 2);
        composer.set_cursor(mid_pos);
        composer.handle_key_event(key(KeyCode::Backspace), 2_000 * MS);
        assert!(!composer.text().contains(&placeholder2));
        assert!(composer.attached_images().is_empty());
    } else {
        panic!("Placeholder not found in textarea");
    }
}

#[test]
fn deleting_one_of_duplicate_image_placeholders_removes_matching_entry() {
    let mut composer = composer();
    let path1 = "/tmp/image_dup1.png".to_string();
    let path2 = "/tmp/image_dup2.png".to_string();
    composer.attach_image(path1.clone(), 10, 5, "PNG");
    composer.handle_paste(" ".into());
    composer.attach_image(path2.clone(), 10, 5, "PNG");

    let ph = composer.attached_images()[0].placeholder.clone();
    let text = composer.text();
    let start1 = text.find(&ph).expect("first placeholder present");
    let end1 = start1 + ph.len();
    composer.set_cursor(end1);

    composer.handle_key_event(key(KeyCode::Backspace), 1_000 * MS);

    let new_text = composer.text();
    assert_eq!(1, new_text.matches(&ph).count(), "one placeholder remains");
    assert_eq!(
        vec![AttachedImage {
            path: path2,
            placeholder: "[image 10x5 PNG]".to_string()
        }],
        *composer.attached_images(),
        "one image mapping remains"
    );
}

#[test]
fn typing_at_token_starts_file_search() {
    let mut composer = composer();
    let mut now = 1_000 * MS;
    for ch in ['@', 's', 'r', 'c'] {
        composer.handle_key_event(key(KeyCode::Char(ch)), now);
        now += 100 * MS;
    }
    let events = composer.take_events();
    let queries: Vec<String> = events
        .into_iter()
        .filter_map(|e| match e {
            ComposerEvent::StartFileSearch(q) => Some(q),
            _ => None,
        })
        .collect();
    assert_eq!(queries, vec!["s".to_string(), "sr".to_string(), "src".to_string()]);
    assert!(composer.take_events().is_empty());
}

#[test]
fn fast_typing_is_buffered_as_a_paste_burst() {
    let mut composer = composer();
    let mut now = 1_000 * MS;
    for ch in ['a', 'b', 'c', 'd'] {
        composer.handle_key_event(key(KeyCode::Char(ch)), now);
        now += MS;
    }
    // The first two characters are typed; the burst buffers the rest.
    assert_eq!(composer.text(), "ab");
    // Enter inside the burst is kept as a newline of the paste.
    composer.handle_key_event(key(KeyCode::Enter), now);
    now += 100 * MS;
    // A later key flushes the buffered burst into the text.
    composer.handle_key_event(key(KeyCode::Right), now);
    assert_eq!(composer.text(), "abcd\n");
}

#[test]
fn submitted_message_is_recalled_with_up() {
    let mut composer = composer();
    composer.handle_paste("first message".to_string());
    let (result, _) = composer.handle_key_event(key(KeyCode::Enter), 1_000 * MS);
    assert!(matches!(result, InputResult::Submitted(ref t) if t == "first message"));
    assert!(composer.is_empty());
    composer.handle_key_event(key(KeyCode::Up), 2_000 * MS);
    assert_eq!(composer.text(), "first message");
    assert_eq!(composer.cursor(), 0);
    composer.handle_key_event(key(KeyCode::Down), 3_000 * MS);
    assert_eq!(composer.text(), "");
}

#[test]
fn persistent_history_is_fetched_on_up() {
    let mut composer = composer();
    composer.set_history_metadata(7, 3);
    composer.handle_key_event(key(KeyCode::Up), 1_000 * MS);
    let events = composer.take_events();
    assert!(matches!(
        events.as_slice(),
        [ComposerEvent::GetHistoryEntry { log_id: 7, offset: 2 }]
    ));
    assert!(composer.on_history_entry_response(7, 2, Some("latest".to_string())));
    assert_eq!(composer.text(), "latest");
    assert!(!composer.on_history_entry_response(8, 2, Some("other".to_string())));
}

#[test]
fn slash_command_popup_is_selected_from_text() {
    let mut composer = composer();
    let mut now = 1_000 * MS;
    for ch in ['/', 'd', 'i'] {
        composer.handle_key_event(key(KeyCode::Char(ch)), now);
        now += 100 * MS;
    }
    let (result, _) = composer.handle_key_event(key(KeyCode::Enter), now);
    assert!(matches!(result, InputResult::Command(SlashCommand::Diff)));
    assert!(composer.is_empty());
}

#[test]
fn shift_enter_inserts_newline() {
    let mut composer = composer();
    composer.insert_str("line");
    composer.handle_key_event(
        KeyEvent::new(KeyCode::Enter, KeyModifiers::shift()),
        1_000 * MS,
    );
    assert_eq!(composer.text(), "line\n");
}
