use codex_tui::exec_cells::ExecCells;
use codex_tui::history_cell::{exec_command_lines, CommandOutput, ParsedCommand};
use codex_tui::insert_history::Color;

fn words(ws: &[&str]) -> Vec<String> {
    ws.iter().map(|w| w.to_string()).collect()
}

fn out(code: i32, stdout: &str) -> CommandOutput {
    CommandOutput { exit_code: code, stdout: stdout.to_string(), stderr: String::new() }
}

fn read(name: &str) -> ParsedCommand {
    ParsedCommand::Read { cmd: format!("cat {name}"), name: name.to_string() }
}

#[test]
fn single_command_is_reported_when_it_ends() {
    let mut cells = ExecCells::new();
    cells.handle_exec_begin_now("c1".to_string(), words(&["ls", "-l"]), vec![]);
    let active = cells.active_exec_cell().expect("active cell");
    assert_eq!(active.command, words(&["ls", "-l"]));
    assert!(active.output.is_none());
    assert!(active.include_header);

    let done = cells.handle_exec_end_now("c1".to_string(), out(0, "a\nb"));
    assert_eq!(done.len(), 1);
    assert_eq!(done[0].command, words(&["ls", "-l"]));
    assert_eq!(done[0].output, Some(out(0, "a\nb")));
    assert!(done[0].include_header);
    assert!(cells.active_exec_cell().is_none());
}

#[test]
fn overlapping_commands_stack_and_report_in_end_order() {
    let mut cells = ExecCells::new();
    cells.handle_exec_begin_now("a".to_string(), words(&["cat", "x"]), vec![read("x")]);
    cells.handle_exec_begin_now("b".to_string(), words(&["cat", "y"]), vec![read("y")]);
    let active = cells.active_exec_cell().expect("active cell");
    assert_eq!(active.command, words(&["cat", "x"]));
    assert_eq!(active.parsed, vec![read("x"), read("y")]);

    let first = cells.handle_exec_end_now("b".to_string(), out(0, "Y"));
    assert!(first.is_empty());
    assert!(cells.active_exec_cell().is_some());

    let second = cells.handle_exec_end_now("a".to_string(), out(1, "X"));
    assert_eq!(second.len(), 2);
    assert_eq!(second[0].command, words(&["cat", "y"]));
    assert_eq!(second[0].parsed, vec![read("y")]);
    assert_eq!(second[0].output, Some(out(0, "Y")));
    assert!(second[0].include_header);
    assert_eq!(second[1].command, words(&["cat", "x"]));
    assert_eq!(second[1].output, Some(out(1, "X")));
    assert!(!second[1].include_header);
    assert!(cells.active_exec_cell().is_none());
}

#[test]
fn unknown_call_id_stands_for_itself() {
    let mut cells = ExecCells::new();
    let done = cells.handle_exec_end_now("mystery".to_string(), out(2, ""));
    assert_eq!(done.len(), 1);
    assert_eq!(done[0].command, words(&["mystery"]));
    assert!(done[0].parsed.is_empty());
    assert_eq!(done[0].output, Some(out(2, "")));
}

#[test]
fn consecutive_command_cells_share_one_header() {
    let mut cells = ExecCells::new();
    cells.handle_exec_begin_now("a".to_string(), words(&["echo", "1"]), vec![]);
    let first = cells.handle_exec_end_now("a".to_string(), out(0, "1"));
    assert!(first[0].include_header);

    cells.handle_exec_begin_now("b".to_string(), words(&["echo", "2"]), vec![]);
    assert!(!cells.active_exec_cell().unwrap().include_header);
    let second = cells.handle_exec_end_now("b".to_string(), out(0, "2"));
    assert!(!second[0].include_header);

    // A cell without visible lines keeps the run going.
    assert!(cells.add_to_history(false).is_none());
    cells.handle_exec_begin_now("c".to_string(), words(&["echo", "3"]), vec![]);
    assert!(!cells.active_exec_cell().unwrap().include_header);
    cells.handle_exec_end_now("c".to_string(), out(0, "3"));

    // A visible cell ends it.
    assert!(cells.add_to_history(true).is_none());
    cells.handle_exec_begin_now("d".to_string(), words(&["echo", "4"]), vec![]);
    assert!(cells.active_exec_cell().unwrap().include_header);
}

#[test]
fn adding_a_cell_flushes_the_active_one_first() {
    let mut cells = ExecCells::new();
    cells.handle_exec_begin_now("a".to_string(), words(&["sleep", "1"]), vec![]);
    let flushed = cells.add_to_history(true).expect("flushed active cell");
    assert_eq!(flushed.command, words(&["sleep", "1"]));
    assert!(flushed.output.is_none());
    assert!(cells.active_exec_cell().is_none());
    // The visible cell came after it, so the next command is headed again.
    cells.handle_exec_begin_now("b".to_string(), words(&["true"]), vec![]);
    assert!(cells.active_exec_cell().unwrap().include_header);
}

#[test]
fn flushing_the_active_cell_continues_the_run() {
    let mut cells = ExecCells::new();
    assert!(cells.flush_active_exec_cell().is_none());
    cells.handle_exec_begin_now("a".to_string(), words(&["make"]), vec![]);
    let flushed = cells.flush_active_exec_cell().expect("active cell");
    assert_eq!(flushed.command, words(&["make"]));
    cells.handle_exec_begin_now("b".to_string(), words(&["make", "test"]), vec![]);
    assert!(!cells.active_exec_cell().unwrap().include_header);
}

#[test]
fn stream_end_restores_the_header() {
    let mut cells = ExecCells::new();
    cells.handle_exec_begin_now("a".to_string(), words(&["ls"]), vec![]);
    cells.handle_exec_end_now("a".to_string(), out(0, ""));
    cells.on_stream_finished();
    cells.handle_exec_begin_now("b".to_string(), words(&["ls"]), vec![]);
    assert!(cells.active_exec_cell().unwrap().include_header);
}

#[test]
fn interrupt_drops_the_active_cell_and_running_commands() {
    let mut cells = ExecCells::new();
    cells.handle_exec_begin_now("a".to_string(), words(&["sleep", "9"]), vec![]);
    cells.handle_exec_begin_now("b".to_string(), words(&["sleep", "8"]), vec![]);
    cells.interrupt();
    assert!(cells.active_exec_cell().is_none());
    // With nothing recorded as running, a late end is reported at once.
    let late = cells.handle_exec_end_now("a".to_string(), out(130, ""));
    assert_eq!(late.len(), 1);
    assert_eq!(late[0].command, words(&["a"]));
}

#[test]
fn finished_turn_forgets_running_commands_but_keeps_waiting_results() {
    let mut cells = ExecCells::new();
    cells.handle_exec_begin_now("a".to_string(), words(&["x"]), vec![]);
    cells.handle_exec_begin_now("b".to_string(), words(&["y"]), vec![]);
    assert!(cells.handle_exec_end_now("a".to_string(), out(0, "")).is_empty());
    cells.clear_running();
    let done = cells.handle_exec_end_now("c".to_string(), out(0, "z"));
    assert_eq!(done.len(), 2);
    assert_eq!(done[0].command, words(&["x"]));
    assert_eq!(done[1].command, words(&["c"]));
}

#[test]
fn restarting_a_call_id_replaces_its_command() {
    let mut cells = ExecCells::new();
    cells.handle_exec_begin_now("a".to_string(), words(&["old"]), vec![]);
    cells.handle_exec_begin_now("a".to_string(), words(&["new"]), vec![]);
    let done = cells.handle_exec_end_now("a".to_string(), out(0, ""));
    assert_eq!(done.len(), 1);
    assert_eq!(done[0].command, words(&["new"]));
}

#[test]
fn cell_lines_are_the_command_lines() {
    let mut cells = ExecCells::new();
    cells.handle_exec_begin_now("a".to_string(), words(&["cat", "x"]), vec![read("x")]);
    let done = cells.handle_exec_end_now("a".to_string(), out(0, "hello"));
    let cell = &done[0];
    let expected = exec_command_lines(&cell.command, &cell.parsed, cell.output.as_ref(), None, Color::Cyan);
    assert_eq!(cell.display_lines(None, Color::Cyan), expected);
    assert!(!expected.is_empty());
}

fn lines_to_single_string(lines: &[codex_tui::diff_render::StyledLine]) -> String {
    let mut s = String::new();
    for l in lines {
        for sp in &l.spans {
            s.push_str(&sp.content);
        }
        s.push('\n');
    }
    s
}

#[test]
fn exec_history_cell_shows_working_then_completed() {
    let mut cells = ExecCells::new();
    cells.handle_exec_begin_now(
        "call-1".to_string(),
        words(&["bash", "-lc", "echo done"]),
        vec![ParsedCommand::Unknown { cmd: "echo done".to_string() }],
    );
    let inserted = cells.handle_exec_end_now(
        "call-1".to_string(),
        CommandOutput { exit_code: 0, stdout: "done".to_string(), stderr: String::new() },
    );
    assert_eq!(inserted.len(), 1, "expected only the completed exec cell to be inserted into history");
    let blob = lines_to_single_string(&inserted[0].display_lines(None, Color::Cyan));
    assert!(blob.contains('✓'), "expected completed exec cell to show success marker: {blob:?}");
    assert!(blob.contains("echo done"), "expected command text to be present: {blob:?}");
}

#[test]
fn exec_history_cell_shows_working_then_failed() {
    let mut cells = ExecCells::new();
    cells.handle_exec_begin_now(
        "call-2".to_string(),
        words(&["bash", "-lc", "false"]),
        vec![ParsedCommand::Unknown { cmd: "false".to_string() }],
    );
    let inserted = cells.handle_exec_end_now(
        "call-2".to_string(),
        CommandOutput { exit_code: 2, stdout: String::new(), stderr: "error".to_string() },
    );
    assert_eq!(inserted.len(), 1, "expected only the completed exec cell to be inserted into history");
    let blob = lines_to_single_string(&inserted[0].display_lines(None, Color::Cyan));
    assert!(blob.contains('✗'), "expected failure marker present: {blob:?}");
    assert!(blob.contains("false"), "expected command text present: {blob:?}");
}
