//! Inserting finished lines into the terminal scrollback above the inline
//! viewport, as a list of terminal commands: scroll regions, cursor moves,
//! text attributes, colors and printed text.
use vstd::prelude::*;
use crate::text::{decimal, push_decimal, string_from};

verus! {

/// Modifier bits of a text style.
pub const BOLD: u16 = 1;
pub const DIM: u16 = 2;
pub const ITALIC: u16 = 4;
pub const UNDERLINED: u16 = 8;
pub const SLOW_BLINK: u16 = 16;
pub const RAPID_BLINK: u16 = 32;
pub const REVERSED: u16 = 64;
pub const HIDDEN: u16 = 128;
pub const CROSSED_OUT: u16 = 256;

/// A terminal text attribute.
#[derive(Debug, Clone, Copy, PartialEq, Eq, Structural)]
pub enum Attribute {
    Reset,
    Bold,
    Dim,
    Italic,
    Underlined,
    SlowBlink,
    RapidBlink,
    Reverse,
    CrossedOut,
    NormalIntensity,
    NoItalic,
    NoUnderline,
    NoBlink,
    NoReverse,
    NotCrossedOut,
}

/// A terminal color.
#[derive(Debug, Clone, Copy, PartialEq, Eq, Structural)]
pub enum Color {
    Reset,
    Black,
    Red,
    Green,
    Yellow,
    Blue,
    Magenta,
    Cyan,
    Gray,
    DarkGray,
    LightRed,
    LightGreen,
    LightYellow,
    LightBlue,
    LightMagenta,
    LightCyan,
    White,
    Rgb(u8, u8, u8),
    Indexed(u8),
}

/// A piece of text with its style.
#[derive(Debug, Clone, PartialEq, Eq)]
pub struct StyledSpan {
    pub content: String,
    pub fg: Option<Color>,
    pub bg: Option<Color>,
    pub add_modifier: u16,
    pub sub_modifier: u16,
}

/// A terminal command.
#[derive(Debug, Clone, PartialEq, Eq)]
pub enum TermCommand {
    SetAttribute(Attribute),
    SetColors { fg: Color, bg: Color },
    SetForegroundColor(Color),
    SetBackgroundColor(Color),
    Print(String),
    MoveTo(u16, u16),
    SetScrollRegion(u16, u16),
    ResetScrollRegion,
}

/// Abstract form of a terminal command.
pub enum CommandView {
    SetAttribute(Attribute),
    SetColors(Color, Color),
    SetForegroundColor(Color),
    SetBackgroundColor(Color),
    Print(Seq<char>),
    MoveTo(u16, u16),
    SetScrollRegion(u16, u16),
    ResetScrollRegion,
}

pub open spec fn command_view(c: TermCommand) -> CommandView {
    match c {
        TermCommand::SetAttribute(a) => CommandView::SetAttribute(a),
        TermCommand::SetColors { fg, bg } => CommandView::SetColors(fg, bg),
        TermCommand::SetForegroundColor(c) => CommandView::SetForegroundColor(c),
        TermCommand::SetBackgroundColor(c) => CommandView::SetBackgroundColor(c),
        TermCommand::Print(s) => CommandView::Print(s@),
        TermCommand::MoveTo(x, y) => CommandView::MoveTo(x, y),
        TermCommand::SetScrollRegion(a, b) => CommandView::SetScrollRegion(a, b),
        TermCommand::ResetScrollRegion => CommandView::ResetScrollRegion,
    }
}

pub open spec fn commands_view(v: Seq<TermCommand>) -> Seq<CommandView> {
    v.map_values(|c: TermCommand| command_view(c))
}

/// `DECSTBM`: limit scrolling to the rows `start..end` (1-based).
#[derive(Debug, PartialEq, Eq)]
pub struct SetScrollRegion(pub std::ops::Range<u16>);

/// Reset the scroll region to the whole screen.
#[derive(Debug, Clone, Copy, PartialEq, Eq)]
pub struct ResetScrollRegion;

pub open spec fn esc() -> char {
    '\u{1b}'
}

/// `ESC [ <start> ; <end> r`.
pub open spec fn scroll_region_ansi(start: u16, end: u16) -> Seq<char> {
    seq![esc(), '['] + decimal(start as nat) + seq![';'] + decimal(end as nat) + seq!['r']
}

/// `ESC [ r`.
pub open spec fn reset_scroll_region_ansi() -> Seq<char> {
    seq![esc(), '[', 'r']
}

impl SetScrollRegion {
    /// The ANSI sequence of the command.
    pub fn write_ansi(&self) -> (r: String)
        ensures
            r@ == scroll_region_ansi(self.0.start, self.0.end),
    {
        let mut v: Vec<char> = Vec::new();
        v.push('\u{1b}');
        v.push('[');
        push_decimal(&mut v, self.0.start as u64);
        v.push(';');
        push_decimal(&mut v, self.0.end as u64);
        v.push('r');
        string_from(&v)
    }
}

impl ResetScrollRegion {
    /// The ANSI sequence of the command.
    pub fn write_ansi(&self) -> (r: String)
        ensures
            r@ == reset_scroll_region_ansi(),
    {
        let mut v: Vec<char> = Vec::new();
        v.push('\u{1b}');
        v.push('[');
        v.push('r');
        string_from(&v)
    }
}

/// `m` holds every bit of `flag`.
pub open spec fn has(m: u16, flag: u16) -> bool {
    m & flag == flag
}

pub open spec fn opt(b: bool, a: Attribute) -> Seq<Attribute> {
    if b {
        seq![a]
    } else {
        Seq::empty()
    }
}

/// The attributes that turn modifiers `from` into `to`: first those that
/// end the removed modifiers (bold ends with normal intensity, which also
/// ends dim, so dim is restored when it stays), then those that start the
/// added ones.
pub open spec fn modifier_diff_attrs(from: u16, to: u16) -> Seq<Attribute> {
    let removed = from & !to;
    let added = to & !from;
    opt(has(removed, REVERSED), Attribute::NoReverse) + opt(
        has(removed, BOLD),
        Attribute::NormalIntensity,
    ) + opt(has(removed, BOLD) && has(to, DIM), Attribute::Dim) + opt(
        has(removed, ITALIC),
        Attribute::NoItalic,
    ) + opt(has(removed, UNDERLINED), Attribute::NoUnderline) + opt(
        has(removed, DIM),
        Attribute::NormalIntensity,
    ) + opt(has(removed, CROSSED_OUT), Attribute::NotCrossedOut) + opt(
        has(removed, SLOW_BLINK) || has(removed, RAPID_BLINK),
        Attribute::NoBlink,
    ) + opt(has(added, REVERSED), Attribute::Reverse) + opt(has(added, BOLD), Attribute::Bold)
        + opt(has(added, ITALIC), Attribute::Italic) + opt(has(added, UNDERLINED), Attribute::Underlined)
        + opt(has(added, DIM), Attribute::Dim) + opt(has(added, CROSSED_OUT), Attribute::CrossedOut)
        + opt(has(added, SLOW_BLINK), Attribute::SlowBlink) + opt(
        has(added, RAPID_BLINK),
        Attribute::RapidBlink,
    )
}

fn push_if(v: &mut Vec<Attribute>, b: bool, a: Attribute)
    ensures
        final(v)@ == old(v)@ + opt(b, a),
{
    if b {
        v.push(a);
    }
    assert(old(v)@ + opt(b, a) =~= final(v)@);
}

/// The change of modifiers between two spans.
pub struct ModifierDiff {
    pub from: u16,
    pub to: u16,
}

impl ModifierDiff {
    /// The attributes to emit for this change.
    pub fn queue(&self) -> (r: Vec<Attribute>)
        ensures
            r@ == modifier_diff_attrs(self.from, self.to),
    {
        let from = self.from;
        let to = self.to;
        let removed = from & !to;
        let added = to & !from;
        let mut v: Vec<Attribute> = Vec::new();
        push_if(&mut v, removed & REVERSED == REVERSED, Attribute::NoReverse);
        push_if(&mut v, removed & BOLD == BOLD, Attribute::NormalIntensity);
        push_if(&mut v, removed & BOLD == BOLD && to & DIM == DIM, Attribute::Dim);
        push_if(&mut v, removed & ITALIC == ITALIC, Attribute::NoItalic);
        push_if(&mut v, removed & UNDERLINED == UNDERLINED, Attribute::NoUnderline);
        push_if(&mut v, removed & DIM == DIM, Attribute::NormalIntensity);
        push_if(&mut v, removed & CROSSED_OUT == CROSSED_OUT, Attribute::NotCrossedOut);
        push_if(
            &mut v,
            removed & SLOW_BLINK == SLOW_BLINK || removed & RAPID_BLINK == RAPID_BLINK,
            Attribute::NoBlink,
        );
        push_if(&mut v, added & REVERSED == REVERSED, Attribute::Reverse);
        push_if(&mut v, added & BOLD == BOLD, Attribute::Bold);
        push_if(&mut v, added & ITALIC == ITALIC, Attribute::Italic);
        push_if(&mut v, added & UNDERLINED == UNDERLINED, Attribute::Underlined);
        push_if(&mut v, added & DIM == DIM, Attribute::Dim);
        push_if(&mut v, added & CROSSED_OUT == CROSSED_OUT, Attribute::CrossedOut);
        push_if(&mut v, added & SLOW_BLINK == SLOW_BLINK, Attribute::SlowBlink);
        push_if(&mut v, added & RAPID_BLINK == RAPID_BLINK, Attribute::RapidBlink);
        assert(v@ =~= modifier_diff_attrs(from, to));
        v
    }
}

/// Abstract form of a styled span.
pub struct SpanView {
    pub content: Seq<char>,
    pub fg: Option<Color>,
    pub bg: Option<Color>,
    pub add_modifier: u16,
    pub sub_modifier: u16,
}

pub open spec fn span_view(s: StyledSpan) -> SpanView {
    SpanView {
        content: s.content@,
        fg: s.fg,
        bg: s.bg,
        add_modifier: s.add_modifier,
        sub_modifier: s.sub_modifier,
    }
}

pub open spec fn spans_view(v: Seq<StyledSpan>) -> Seq<SpanView> {
    v.map_values(|s: StyledSpan| span_view(s))
}

/// The modifiers a span's style sets.
pub open spec fn span_modifier(s: SpanView) -> u16 {
    s.add_modifier & !s.sub_modifier
}

pub open spec fn or_reset(c: Option<Color>) -> Color {
    match c {
        Some(c) => c,
        None => Color::Reset,
    }
}

/// Colors and modifiers in effect: foreground, background, modifiers.
pub type PenState = (Color, Color, u16);

/// The commands for one span given the pen before it, and the pen after:
/// the modifier change if any, the colors if either changed, then the text.
pub open spec fn span_commands(pen: PenState, s: SpanView) -> (PenState, Seq<CommandView>) {
    let m = span_modifier(s);
    let attrs = if m != pen.2 {
        modifier_diff_attrs(pen.2, m).map_values(|a: Attribute| CommandView::SetAttribute(a))
    } else {
        Seq::empty()
    };
    let nf = or_reset(s.fg);
    let nb = or_reset(s.bg);
    let colors = if nf != pen.0 || nb != pen.1 {
        seq![CommandView::SetColors(nf, nb)]
    } else {
        Seq::empty()
    };
    ((nf, nb, m), attrs + colors + seq![CommandView::Print(s.content)])
}

/// The commands for the first `n` spans, starting from the reset pen.
pub open spec fn spans_commands(spans: Seq<SpanView>, n: int) -> (PenState, Seq<CommandView>)
    decreases n,
{
    if n <= 0 {
        ((Color::Reset, Color::Reset, 0u16), Seq::empty())
    } else {
        let (pen, cmds) = spans_commands(spans, n - 1);
        let (pen2, more) = span_commands(pen, spans[n - 1]);
        (pen2, cmds + more)
    }
}

/// The commands that end a line: colors and attributes reset.
pub open spec fn line_end_commands() -> Seq<CommandView> {
    seq![
        CommandView::SetForegroundColor(Color::Reset),
        CommandView::SetBackgroundColor(Color::Reset),
        CommandView::SetAttribute(Attribute::Reset),
    ]
}

/// The commands that print a line of spans.
pub open spec fn write_spans_spec(spans: Seq<SpanView>) -> Seq<CommandView> {
    spans_commands(spans, spans.len() as int).1 + line_end_commands()
}

fn push_command(out: &mut Vec<TermCommand>, c: TermCommand)
    ensures
        commands_view(final(out)@) == commands_view(old(out)@).push(command_view(c)),
{
    out.push(c);
    assert(commands_view(final(out)@) =~= commands_view(old(out)@).push(command_view(c)));
}

/// The commands that print a line of spans, each with its style.
pub fn write_spans(out: &mut Vec<TermCommand>, spans: &Vec<StyledSpan>)
    ensures
        commands_view(final(out)@) == commands_view(old(out)@) + write_spans_spec(spans_view(spans@)),
{
    let ghost sv = spans_view(spans@);
    let mut fg = Color::Reset;
    let mut bg = Color::Reset;
    let mut last: u16 = 0;
    let mut i: usize = 0;
    let ghost start = commands_view(out@);
    while i < spans.len()
        invariant
            sv == spans_view(spans@),
            i <= spans@.len(),
            spans_commands(sv, i as int).0 == (fg, bg, last),
            commands_view(out@) == start + spans_commands(sv, i as int).1,
        decreases spans.len() - i,
    {
        let s = &spans[i];
        let m = s.add_modifier & !s.sub_modifier;
        let ghost before = commands_view(out@);
        let ghost pen = (fg, bg, last);
        if m != last {
            let attrs = ModifierDiff { from: last, to: m }.queue();
            let mut k: usize = 0;
            while k < attrs.len()
                invariant
                    k <= attrs@.len(),
                    commands_view(out@) == before + attrs@.take(k as int).map_values(
                        |a: Attribute| CommandView::SetAttribute(a),
                    ),
                decreases attrs.len() - k,
            {
                push_command(out, TermCommand::SetAttribute(attrs[k]));
                proof {
                    assert(attrs@.take(k + 1).map_values(|a: Attribute| CommandView::SetAttribute(a))
                        =~= attrs@.take(k as int).map_values(
                        |a: Attribute| CommandView::SetAttribute(a),
                    ).push(CommandView::SetAttribute(attrs@[k as int])));
                }
                k += 1;
            }
            assert(attrs@.take(attrs@.len() as int) =~= attrs@);
            last = m;
        }
        let ghost mid = commands_view(out@);
        let nf = match s.fg {
            Some(c) => c,
            None => Color::Reset,
        };
        let nb = match s.bg {
            Some(c) => c,
            None => Color::Reset,
        };
        if nf != fg || nb != bg {
            push_command(out, TermCommand::SetColors { fg: nf, bg: nb });
            fg = nf;
            bg = nb;
        }
        let ghost mid2 = commands_view(out@);
        push_command(out, TermCommand::Print(s.content.clone()));
        proof {
            let (p2, more) = span_commands(pen, sv[i as int]);
            assert(sv[i as int] == span_view(spans@[i as int]));
            assert(p2 == (fg, bg, last));
            assert(commands_view(out@) =~= before + more);
            assert(spans_commands(sv, i + 1).1 == spans_commands(sv, i as int).1 + more);
            assert(commands_view(out@) =~= start + spans_commands(sv, i + 1).1);
        }
        i += 1;
    }
    let ghost body = commands_view(out@);
    push_command(out, TermCommand::SetForegroundColor(Color::Reset));
    push_command(out, TermCommand::SetBackgroundColor(Color::Reset));
    push_command(out, TermCommand::SetAttribute(Attribute::Reset));
    assert(commands_view(out@) =~= body + line_end_commands());
}

/// A rectangle of the screen.
#[derive(Debug, Clone, Copy, PartialEq, Eq, Structural)]
pub struct Rect {
    pub x: u16,
    pub y: u16,
    pub width: u16,
    pub height: u16,
}

/// The row below a rectangle (saturating).
pub open spec fn rect_bottom(r: Rect) -> int {
    if r.y + r.height <= u16::MAX {
        r.y + r.height
    } else {
        u16::MAX as int
    }
}

/// The commands that print the given lines, each on a new row.
pub open spec fn lines_commands(lines: Seq<Seq<SpanView>>, n: int) -> Seq<CommandView>
    decreases n,
{
    if n <= 0 {
        Seq::empty()
    } else {
        lines_commands(lines, n - 1) + seq![CommandView::Print(seq!['\r', '\n'])] + write_spans_spec(
            lines[n - 1],
        )
    }
}

/// Reverse index: scroll the region down by one row.
pub open spec fn reverse_index() -> Seq<char> {
    seq![esc(), 'M']
}

/// The commands that push the viewport down to make room for
/// `wrapped_lines` rows, and the viewport after them.
pub open spec fn viewport_push(screen_height: u16, area: Rect, wrapped_lines: u16) -> (Seq<CommandView>, Rect) {
    if rect_bottom(area) < screen_height {
        let room = screen_height - rect_bottom(area);
        let scroll = if wrapped_lines <= room {
            wrapped_lines as int
        } else {
            room
        };
        (
            seq![
                CommandView::SetScrollRegion((area.y + 1) as u16, screen_height),
                CommandView::MoveTo(0, area.y),
            ] + Seq::new(scroll as nat, |i: int| CommandView::Print(reverse_index())) + seq![
                CommandView::ResetScrollRegion,
            ],
            Rect { y: (area.y + scroll) as u16, ..area },
        )
    } else {
        (Seq::empty(), area)
    }
}

/// How lines are inserted above the viewport `area`: when the viewport
/// does not reach the bottom of the screen it is first pushed down by as
/// many rows as the lines need (no further than the bottom), by scrolling
/// the region below its top; then the lines are printed at the bottom of
/// the region above the viewport, and the cursor is put back. Returns the
/// commands and the new viewport.
pub open spec fn insert_plan(
    screen_height: u16,
    area: Rect,
    wrapped_lines: u16,
    cursor: Option<(u16, u16)>,
    lines: Seq<Seq<SpanView>>,
) -> (Seq<CommandView>, Rect) {
    let cursor_top = if area.y > 0 {
        (area.y - 1) as u16
    } else {
        0u16
    };
    let (pre, new_area) = viewport_push(screen_height, area, wrapped_lines);
    (
        pre + seq![CommandView::SetScrollRegion(1, new_area.y), CommandView::MoveTo(0, cursor_top)]
            + lines_commands(lines, lines.len() as int) + seq![CommandView::ResetScrollRegion]
            + match cursor {
            Some((x, y)) => seq![CommandView::MoveTo(x, y)],
            None => Seq::empty(),
        },
        new_area,
    )
}

/// Push the commands that move the viewport down; returns the new viewport.
fn push_viewport_down(out: &mut Vec<TermCommand>, screen_height: u16, area: Rect, wrapped_lines: u16) -> (r: Rect)
    ensures
        (commands_view(final(out)@), r) == ({
            let (cmds, a) = viewport_push(screen_height, area, wrapped_lines);
            (commands_view(old(out)@) + cmds, a)
        }),
{
    let ghost start = commands_view(out@);
    let bottom: u16 = area.y.saturating_add(area.height);
    let mut new_area = area;
    if bottom < screen_height {
        let room = screen_height - bottom;
        let scroll = if wrapped_lines <= room {
            wrapped_lines
        } else {
            room
        };
        push_command(out, TermCommand::SetScrollRegion(area.y + 1, screen_height));
        push_command(out, TermCommand::MoveTo(0, area.y));
        let ghost head = commands_view(out@);
        let mut k: u16 = 0;
        while k < scroll
            invariant
                k <= scroll,
                commands_view(out@) == head + Seq::new(
                    k as nat,
                    |i: int| CommandView::Print(reverse_index()),
                ),
            decreases scroll - k,
        {
            let mut ri: Vec<char> = Vec::new();
            ri.push('\u{1b}');
            ri.push('M');
            push_command(out, TermCommand::Print(string_from(&ri)));
            proof {
                assert(ri@ =~= reverse_index());
                assert(Seq::new((k + 1) as nat, |i: int| CommandView::Print(reverse_index())) =~= Seq::new(
                    k as nat,
                    |i: int| CommandView::Print(reverse_index()),
                ).push(CommandView::Print(reverse_index())));
            }
            k += 1;
        }
        push_command(out, TermCommand::ResetScrollRegion);
        new_area.y = area.y + scroll;
        proof {
            let (cmds, a) = viewport_push(screen_height, area, wrapped_lines);
            assert(commands_view(out@) =~= start + cmds);
        }
    } else {
        assert(start + Seq::<CommandView>::empty() =~= start);
    }
    new_area
}

/// Build the commands that insert `lines` above the viewport `area` of a
/// screen `screen_height` rows tall; `wrapped_lines` is the number of rows
/// the lines take once wrapped, and `cursor` the cursor position to
/// restore. Returns the commands and the new viewport.
pub fn insert_history_commands(
    screen_height: u16,
    area: Rect,
    wrapped_lines: u16,
    cursor: Option<(u16, u16)>,
    lines: &Vec<Vec<StyledSpan>>,
) -> (r: (Vec<TermCommand>, Rect))
    ensures
        (commands_view(r.0@), r.1) == insert_plan(
            screen_height,
            area,
            wrapped_lines,
            cursor,
            lines@.map_values(|l: Vec<StyledSpan>| spans_view(l@)),
        ),
{
    let ghost lv = lines@.map_values(|l: Vec<StyledSpan>| spans_view(l@));
    let mut out: Vec<TermCommand> = Vec::new();
    let cursor_top: u16 = if area.y > 0 {
        area.y - 1
    } else {
        0
    };
    let new_area = push_viewport_down(&mut out, screen_height, area, wrapped_lines);
    let ghost pre = commands_view(out@);
    push_command(&mut out, TermCommand::SetScrollRegion(1, new_area.y));
    push_command(&mut out, TermCommand::MoveTo(0, cursor_top));
    let ghost mid = commands_view(out@);
    let mut i: usize = 0;
    while i < lines.len()
        invariant
            lv == lines@.map_values(|l: Vec<StyledSpan>| spans_view(l@)),
            i <= lines@.len(),
            commands_view(out@) == mid + lines_commands(lv, i as int),
        decreases lines.len() - i,
    {
        let mut nl: Vec<char> = Vec::new();
        nl.push('\r');
        nl.push('\n');
        push_command(&mut out, TermCommand::Print(string_from(&nl)));
        write_spans(&mut out, &lines[i]);
        proof {
            assert(nl@ =~= seq!['\r', '\n']);
            assert(lv[i as int] == spans_view(lines@[i as int]@));
            assert(commands_view(out@) =~= mid + lines_commands(lv, i + 1));
        }
        i += 1;
    }
    push_command(&mut out, TermCommand::ResetScrollRegion);
    match cursor {
        Some((x, y)) => {
            push_command(&mut out, TermCommand::MoveTo(x, y));
        },
        None => {},
    }
    proof {
        let plan = insert_plan(screen_height, area, wrapped_lines, cursor, lv);
        assert(commands_view(out@) =~= plan.0);
    }
    (out, new_area)
}

} // verus!
