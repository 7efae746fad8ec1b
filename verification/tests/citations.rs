use codex_tui::citations::{rewrite_file_citations, UriBasedFileOpener};

#[test]
fn citation_is_rewritten_with_absolute_path() {
    let markdown = "See 【F:/src/main.rs†L42-L50】 for details.";
    let result = rewrite_file_citations(markdown, UriBasedFileOpener::VsCode, "/workspace");
    assert_eq!("See [/src/main.rs:42](vscode://file/src/main.rs:42)  for details.", result);
}

#[test]
fn citation_is_rewritten_with_relative_path() {
    let markdown = "Refer to 【F:lib/mod.rs†L5】 here.";
    let result = rewrite_file_citations(markdown, UriBasedFileOpener::Windsurf, "/home/user/project");
    assert_eq!(
        "Refer to [lib/mod.rs:5](windsurf://file/home/user/project/lib/mod.rs:5)  here.",
        result
    );
}

#[test]
fn citation_followed_by_space_so_they_do_not_run_together() {
    let markdown = "References on lines 【F:src/foo.rs†L24】【F:src/foo.rs†L42】";
    let result = rewrite_file_citations(markdown, UriBasedFileOpener::VsCode, "/home/user/project");
    assert_eq!(
        "References on lines [src/foo.rs:24](vscode://file/home/user/project/src/foo.rs:24) [src/foo.rs:42](vscode://file/home/user/project/src/foo.rs:42) ",
        result
    );
}

#[test]
fn citations_are_left_alone_when_links_are_disabled() {
    let markdown = "Look at 【F:file.rs†L1】.";
    assert_eq!(rewrite_file_citations(markdown, UriBasedFileOpener::Disabled, "/"), markdown);
    assert_ne!(rewrite_file_citations(markdown, UriBasedFileOpener::VsCode, "/"), markdown);
}

#[test]
fn malformed_citations_are_not_rewritten() {
    for s in ["【F:†L1】", "【F:a.rs†L】", "【F:a.rs†1】", "【F:a.rs†L1-L】", "plain text"] {
        assert_eq!(rewrite_file_citations(s, UriBasedFileOpener::Cursor, "/w"), s);
    }
}

#[test]
fn relative_paths_are_cleaned() {
    let result = rewrite_file_citations("【F:../x/./y.rs†L3】", UriBasedFileOpener::Cursor, "/a/b");
    assert_eq!(result, "[../x/./y.rs:3](cursor://file/a/x/y.rs:3) ");
}
