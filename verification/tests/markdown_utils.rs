use codex_tui::markdown_utils::{is_inside_unclosed_fence, strip_empty_fenced_code_blocks};

#[test]
fn unclosed_fence_is_detected() {
    assert!(is_inside_unclosed_fence("```rust\nlet x = 1;\n"));
    assert!(is_inside_unclosed_fence("text\n~~~\nmore"));
    assert!(!is_inside_unclosed_fence("plain text\n"));
}

#[test]
fn matching_fence_closes_the_block() {
    assert!(!is_inside_unclosed_fence("```\nx\n```\n"));
    assert!(!is_inside_unclosed_fence("  ~~~\nx\n  ~~~  \n"));
    assert!(!is_inside_unclosed_fence("```python\nx\n```"));
}

#[test]
fn only_a_matching_fence_on_its_own_line_closes() {
    // A tilde line does not close a backtick block.
    assert!(is_inside_unclosed_fence("```\ncode\n~~~\n"));
    // A fence with an info string does not close the block.
    assert!(is_inside_unclosed_fence("```\ncode\n```rust\n"));
    // A backtick line does not close a tilde block.
    assert!(is_inside_unclosed_fence("~~~\ncode\n```\n"));
    // After a block closes, a new fence opens again.
    assert!(is_inside_unclosed_fence("```\na\n```\n~~~\n"));
}

#[test]
fn empty_blocks_are_stripped() {
    assert_eq!(strip_empty_fenced_code_blocks("a\n```\n\n```\nb\n"), "a\nb\n");
    assert_eq!(strip_empty_fenced_code_blocks("```\nx\n```\n"), "```\nx\n```\n");
}

#[test]
fn text_outside_empty_blocks_is_kept_byte_for_byte() {
    assert_eq!(strip_empty_fenced_code_blocks("a"), "a");
    assert_eq!(strip_empty_fenced_code_blocks("a\r\nb"), "a\r\nb");
    assert_eq!(strip_empty_fenced_code_blocks("x\r\n```\r\n```\r\ny"), "x\r\ny");
    assert_eq!(strip_empty_fenced_code_blocks("```rust\nfn f() {}\n```"), "```rust\nfn f() {}\n```");
    assert_eq!(strip_empty_fenced_code_blocks("```\n  \n```\ntail"), "\ntail");
}
