use codex_tui::diff_render::{
    count_from_unified, count_hunk_lines, create_diff_summary, diff_line_rows_of, summarize_file, ChangedFile,
    DiffLineKind, FileChange, PatchEventType, PatchHunk, StyledLine,
};

fn text(line: &StyledLine) -> String {
    line.spans.iter().map(|s| s.content.as_str()).collect()
}

#[test]
fn counts_come_from_the_parsed_patch() {
    let diff = "--- a/f\n+++ b/f\n@@ -1,3 +1,3 @@\n line one\n-line two\n+line two changed\n line three\n";
    assert_eq!(count_from_unified(diff), (1, 1));
}

#[test]
fn counts_fall_back_to_scanning_unparsable_diffs() {
    let diff = "garbage\n+added\n-removed\n+++ header\n@@ hunk\n";
    assert_eq!(count_from_unified(diff), (1, 1));
}

#[test]
fn added_file_summary_counts_its_lines() {
    let f = ChangedFile {
        path: "README.md".to_string(),
        change: FileChange::Add { content: "first line\nsecond line\n".to_string() },
        original: None,
    };
    let s = summarize_file(&f);
    assert_eq!((s.display_path.as_str(), s.added, s.removed), ("README.md", 2, 0));
}

#[test]
fn moved_file_shows_both_paths() {
    let f = ChangedFile {
        path: "src/lib.rs".to_string(),
        change: FileChange::Update { unified_diff: String::new(), move_path: Some("src/main.rs".to_string()) },
        original: None,
    };
    assert_eq!(summarize_file(&f).display_path, "src/lib.rs → src/main.rs");
}

#[test]
fn ui_snapshot_add_details_text() {
    let changes = vec![ChangedFile {
        path: "README.md".to_string(),
        change: FileChange::Add { content: "first line\nsecond line\n".to_string() },
        original: None,
    }];
    let lines = create_diff_summary("proposed patch", &changes, PatchEventType::ApprovalRequest, 80);
    let rendered: Vec<String> = lines.iter().map(text).collect();
    assert_eq!(
        rendered,
        vec![
            "proposed patch to 1 file (+2 -0)".to_string(),
            "  └ README.md".to_string(),
            "    1     +first line".to_string(),
            "    2     +second line".to_string(),
            "".to_string(),
        ]
    );
}

#[test]
fn details_hidden_unless_approval_or_auto_approved() {
    let changes = vec![ChangedFile {
        path: "a.txt".to_string(),
        change: FileChange::Delete,
        original: Some("x\ny\n".to_string()),
    }];
    let lines = create_diff_summary("applied", &changes, PatchEventType::ApplyBegin { auto_approved: false }, 80);
    assert_eq!(lines.len(), 2);
    assert_eq!(text(&lines[0]), "applied to 1 file (+0 -2)");
}

#[test]
fn long_lines_wrap_to_the_terminal_width() {
    let line: Vec<char> = "abcdefghij".chars().collect();
    let rows = diff_line_rows_of(7, DiffLineKind::Insert, &line, 15);
    let rendered: Vec<String> = rows.iter().map(text).collect();
    assert_eq!(
        rendered,
        vec!["    7     +abcd".to_string(), "           efghi".to_string(), "           j".to_string()]
    );
}

#[test]
fn hunk_header_with_huge_start_falls_back_to_scanning() {
    let diff = "@@ -18446744073709551615 +1 @@\n x\n@@ -1 +1 @@\n x\n";
    assert_eq!(count_from_unified(diff), (0, 0));
    let diff2 = "@@ -99999999999 +1,2 @@\n x\n+y\n";
    assert_eq!(count_from_unified(diff2), (1, 0));
}

#[test]
fn long_numbers_after_the_header_ranges_do_not_matter() {
    let diff = "@@ -1,2 +1,2 @@ fn f_12345678901()\n-a\n+b\n x\n";
    assert_eq!(count_from_unified(diff), (1, 1));
}

#[test]
fn ten_digit_line_numbers_are_parsed() {
    let diff = "@@ -1000000000,2 +1000000000,2 @@\n----a\n++++b\n c\n";
    assert_eq!(count_from_unified(diff), (1, 1));
}

#[test]
fn parsed_hunks_are_counted() {
    let hunks = vec![
        PatchHunk {
            old_start: 1,
            new_start: 1,
            lines: vec![
                (DiffLineKind::Context, "a\n".to_string()),
                (DiffLineKind::Insert, "b\n".to_string()),
                (DiffLineKind::Insert, "c\n".to_string()),
            ],
        },
        PatchHunk { old_start: 9, new_start: 10, lines: vec![(DiffLineKind::Delete, "z\n".to_string())] },
    ];
    assert_eq!(count_hunk_lines(&hunks), (2, 1));
    assert_eq!(count_hunk_lines(&Vec::new()), (0, 0));
}
