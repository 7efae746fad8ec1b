use codex_tui::insert_history::{
    insert_history_commands, write_spans, Attribute, Color, ModifierDiff, Rect, ResetScrollRegion,
    SetScrollRegion, StyledSpan, TermCommand, BOLD, DIM, ITALIC,
};

fn span(text: &str, add: u16) -> StyledSpan {
    StyledSpan { content: text.to_string(), fg: None, bg: None, add_modifier: add, sub_modifier: 0 }
}

#[test]
fn writes_bold_then_regular_spans() {
    let spans = vec![span("A", BOLD), span("B", 0)];
    let mut actual = Vec::new();
    write_spans(&mut actual, &spans);
    assert_eq!(
        actual,
        vec![
            TermCommand::SetAttribute(Attribute::Bold),
            TermCommand::Print("A".to_string()),
            TermCommand::SetAttribute(Attribute::NormalIntensity),
            TermCommand::Print("B".to_string()),
            TermCommand::SetForegroundColor(Color::Reset),
            TermCommand::SetBackgroundColor(Color::Reset),
            TermCommand::SetAttribute(Attribute::Reset),
        ]
    );
}

#[test]
fn scroll_region_ansi_sequences() {
    assert_eq!(SetScrollRegion(3..24).write_ansi(), "\x1b[3;24r");
    assert_eq!(ResetScrollRegion.write_ansi(), "\x1b[r");
}

#[test]
fn removing_bold_keeps_dim() {
    let diff = ModifierDiff { from: BOLD | DIM, to: DIM };
    assert_eq!(diff.queue(), vec![Attribute::NormalIntensity, Attribute::Dim]);
    let diff = ModifierDiff { from: 0, to: BOLD | ITALIC };
    assert_eq!(diff.queue(), vec![Attribute::Bold, Attribute::Italic]);
}

#[test]
fn colors_are_set_only_when_they_change() {
    let mut red = span("x", 0);
    red.fg = Some(Color::Red);
    let mut red2 = span("y", 0);
    red2.fg = Some(Color::Red);
    let mut out = Vec::new();
    write_spans(&mut out, &vec![red, red2]);
    assert_eq!(
        out,
        vec![
            TermCommand::SetColors { fg: Color::Red, bg: Color::Reset },
            TermCommand::Print("x".to_string()),
            TermCommand::Print("y".to_string()),
            TermCommand::SetForegroundColor(Color::Reset),
            TermCommand::SetBackgroundColor(Color::Reset),
            TermCommand::SetAttribute(Attribute::Reset),
        ]
    );
}

#[test]
fn inserting_pushes_a_floating_viewport_down() {
    let area = Rect { x: 0, y: 5, width: 80, height: 4 };
    let lines = vec![vec![span("hello", 0)]];
    let (cmds, new_area) = insert_history_commands(20, area, 1, Some((3, 7)), &lines);
    assert_eq!(new_area, Rect { x: 0, y: 6, width: 80, height: 4 });
    assert_eq!(cmds[0], TermCommand::SetScrollRegion(6, 20));
    assert_eq!(cmds[1], TermCommand::MoveTo(0, 5));
    assert_eq!(cmds[2], TermCommand::Print("\x1bM".to_string()));
    assert_eq!(cmds[3], TermCommand::ResetScrollRegion);
    assert_eq!(cmds[4], TermCommand::SetScrollRegion(1, 6));
    assert_eq!(cmds[5], TermCommand::MoveTo(0, 4));
    assert_eq!(cmds[6], TermCommand::Print("\r\n".to_string()));
    assert_eq!(cmds[7], TermCommand::Print("hello".to_string()));
    assert_eq!(cmds[cmds.len() - 2], TermCommand::ResetScrollRegion);
    assert_eq!(cmds[cmds.len() - 1], TermCommand::MoveTo(3, 7));
}

#[test]
fn inserting_above_a_bottom_viewport_does_not_scroll_it() {
    let area = Rect { x: 0, y: 16, width: 80, height: 4 };
    let (cmds, new_area) = insert_history_commands(20, area, 3, None, &vec![]);
    assert_eq!(new_area, area);
    assert_eq!(
        cmds,
        vec![
            TermCommand::SetScrollRegion(1, 16),
            TermCommand::MoveTo(0, 15),
            TermCommand::ResetScrollRegion,
        ]
    );
}
